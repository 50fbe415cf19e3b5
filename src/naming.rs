//! Names of generated enums and of their variants.

use convert_case::{Case, Casing};
use vstd::prelude::*;

verus! {

/// What `convert_case` makes of a string in Pascal case.
pub uninterp spec fn pascal_case_of(s: Seq<char>) -> Seq<char>;

/// Relies on convert_case's `Casing::to_case` with `Case::Pascal`: the result
/// depends on the characters of the input alone.
#[verifier::external_body]
fn to_pascal_case(s: &str) -> (r: String)
    ensures
        r@ == pascal_case_of(s@),
{
    s.to_case(Case::Pascal)
}

/// The suffix that enum names get and that variant names lose.
pub open spec fn error_suffix() -> Seq<char> {
    seq!['E', 'r', 'r', 'o', 'r']
}

pub open spec fn ends_with_error(s: Seq<char>) -> bool {
    s.len() >= 5 && s.subrange(s.len() - 5, s.len() as int) == error_suffix()
}

/// `s` with one trailing "Error" removed, if it ends with one.
pub open spec fn strip_error_suffix(s: Seq<char>) -> Seq<char> {
    if ends_with_error(s) {
        s.subrange(0, s.len() - 5)
    } else {
        s
    }
}

/// The identifiers of a path's segments, each followed by an underscore.
pub open spec fn segments_joined(segments: Seq<String>) -> Seq<char>
    decreases segments.len(),
{
    if segments.len() == 0 {
        Seq::empty()
    } else {
        segments_joined(segments.drop_last()) + segments.last()@ + seq!['_']
    }
}

/// The name of the enum generated for a function of this name.
pub open spec fn derived_enum_name(function_name: Seq<char>) -> Seq<char> {
    pascal_case_of(function_name) + error_suffix()
}

/// The name of the variant that holds an error of the path with these segments.
pub open spec fn derived_variant_name(segments: Seq<String>) -> Seq<char> {
    strip_error_suffix(pascal_case_of(segments_joined(segments)))
}

fn ends_with_error_exec(s: &str) -> (r: bool)
    ensures
        r == ends_with_error(s@),
{
    let n = s.unicode_len();
    if n < 5 {
        return false;
    }
    let e = s.get_char(n - 5);
    let r0 = s.get_char(n - 4);
    let r1 = s.get_char(n - 3);
    let o = s.get_char(n - 2);
    let r2 = s.get_char(n - 1);
    let r = e == 'E' && r0 == 'r' && r1 == 'r' && o == 'o' && r2 == 'r';
    proof {
        let tail = s@.subrange(n - 5, n as int);
        if r {
            assert(tail =~= error_suffix());
        } else {
            assert(tail != error_suffix()) by {
                if tail == error_suffix() {
                    assert(tail[0] == 'E' && tail[1] == 'r' && tail[2] == 'r' && tail[3] == 'o'
                        && tail[4] == 'r');
                }
            }
        }
    }
    r
}

/// Removes one trailing "Error", if present, from a name already in Pascal case.
pub fn variant_name_from_pascal(pascal: &str) -> (r: String)
    ensures
        r@ == strip_error_suffix(pascal@),
{
    if ends_with_error_exec(pascal) {
        let n = pascal.unicode_len();
        String::from_str(pascal.substring_char(0, n - 5))
    } else {
        String::from_str(pascal)
    }
}

/// Appends "Error" to a name already in Pascal case.
pub fn enum_name_from_pascal(pascal: &str) -> (r: String)
    ensures
        r@ == pascal@ + error_suffix(),
{
    let mut r = String::from_str(pascal);
    let suffix = String::from_str("Error");
    proof {
        reveal_strlit("Error");
        assert(suffix@ =~= error_suffix());
    }
    r.append(suffix.as_str());
    r
}

/// The name of the enum generated for a function named `function_name`.
pub fn enum_name_for_function(function_name: &str) -> (r: String)
    ensures
        r@ == derived_enum_name(function_name@),
{
    let pascal = to_pascal_case(function_name);
    enum_name_from_pascal(pascal.as_str())
}

/// The name of the variant that holds an error of the path with these
/// segments: the segments joined by underscores, in Pascal case, with one
/// trailing "Error" removed.
pub fn variant_name_for_path(segments: &Vec<String>) -> (r: String)
    ensures
        r@ == derived_variant_name(segments@),
{
    let mut joined = String::new();
    let mut i: usize = 0;
    while i < segments.len()
        invariant
            i <= segments.len(),
            joined@ == segments_joined(segments@.take(i as int)),
        decreases segments.len() - i,
    {
        joined.append(segments[i].as_str());
        joined.append("_");
        proof {
            reveal_strlit("_");
            assert(segments@.take(i as int + 1).drop_last() =~= segments@.take(i as int));
        }
        i += 1;
    }
    proof {
        assert(segments@.take(i as int) =~= segments@);
    }
    let pascal = to_pascal_case(joined.as_str());
    variant_name_from_pascal(pascal.as_str())
}

} // verus!
