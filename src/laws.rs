//! Laws of generated enums: which variant a source converts into, and what an
//! upcast from one generated enum into another does.

use vstd::prelude::*;
use crate::expand::{method_error, method_expansion, FunctionExpansion, ImplMethod};
use crate::naming::{derived_variant_name, segments_joined};
use crate::signature::{return_type_error, rewritable};
use crate::synth::{
    covers, has_source, holds_source_at, same_source, variant_names, ErrorEnum, SourcePath, Variant,
};
use crate::text::views;

verus! {

proof fn lemma_segments_joined_views(a: Seq<String>, b: Seq<String>)
    requires
        views(a) == views(b),
    ensures
        segments_joined(a) == segments_joined(b),
    decreases a.len(),
{
    assert(views(a).len() == a.len() && views(b).len() == b.len());
    if a.len() > 0 {
        assert(views(a.drop_last()) =~= views(a).drop_last());
        assert(views(b.drop_last()) =~= views(b).drop_last());
        lemma_segments_joined_views(a.drop_last(), b.drop_last());
        assert(views(a)[a.len() - 1] == views(b)[b.len() - 1]);
    }
}

/// Two paths that name the same type yield the same variant name.
pub proof fn lemma_same_source_same_name(a: SourcePath, b: SourcePath)
    requires
        same_source(a, b),
    ensures
        derived_variant_name(a.segments@) == derived_variant_name(b.segments@),
{
    lemma_segments_joined_views(a.segments@, b.segments@);
}

/// An enum generated for no sources has no variant that any error converts
/// into: no error value of it exists, so a function returning it cannot fail.
pub proof fn lemma_no_sources_no_errors(e: ErrorEnum, source: SourcePath)
    requires
        e.variants@.len() == 0,
    ensures
        !has_source(e, source),
{
}

/// A value of each declared source converts into the variant declared for
/// it, and into no other: taking the payload back out of that variant gives
/// a value of the same source.
pub proof fn lemma_source_selects_its_variant(e: ErrorEnum, i: int)
    requires
        e.wf(),
        0 <= i < e.variants@.len(),
    ensures
        holds_source_at(e, e.variants@[i].source, i),
        forall|j: int| #[trigger] holds_source_at(e, e.variants@[i].source, j) ==> j == i,
{
    let names = e.variants@.map_values(|v: Variant| v.name@);
    assert forall|j: int| #[trigger] holds_source_at(e, e.variants@[i].source, j) implies j
        == i by {
        if j != i {
            lemma_same_source_same_name(e.variants@[j].source, e.variants@[i].source);
            assert(names[i] == e.variants@[i].name@);
            assert(names[j] == e.variants@[j].name@);
            if j < i {
                assert(names[j] != names[i]);
            } else {
                assert(names[i] != names[j]);
            }
        }
    }
}

/// Upcasting from `narrow` into an enum that has a variant for each of its
/// sources never fails, and lands each value in the one variant that holds
/// the same source.
pub proof fn lemma_upcast_keeps_source(narrow: ErrorEnum, broad: ErrorEnum, i: int)
    requires
        narrow.wf(),
        broad.wf(),
        covers(broad, narrow),
        0 <= i < narrow.variants@.len(),
    ensures
        has_source(broad, narrow.variants@[i].source),
        forall|j: int, k: int|
            #[trigger] holds_source_at(broad, narrow.variants@[i].source, j) && #[trigger]
                holds_source_at(broad, narrow.variants@[i].source, k) ==> j == k,
{
    let s = narrow.variants@[i].source;
    assert(has_source(broad, s));
    assert forall|j: int, k: int|
        #[trigger] holds_source_at(broad, s, j) && #[trigger] holds_source_at(
            broad,
            s,
            k,
        ) implies j == k by {
        assert(same_source(broad.variants@[j].source, broad.variants@[k].source));
        lemma_source_selects_its_variant(broad, k);
        assert(holds_source_at(broad, broad.variants@[k].source, j));
    }
}

/// An upcast only lands in a variant of the same source; into an enum that
/// lacks one of the narrower enum's sources, the upcast of that source is
/// refused.
pub proof fn lemma_upcast_needs_every_source(narrow: ErrorEnum, broad: ErrorEnum)
    requires
        !covers(broad, narrow),
    ensures
        exists|i: int|
            0 <= i < narrow.variants@.len() && !#[trigger] has_source(
                broad,
                narrow.variants@[i].source,
            ),
{
}

/// A method of an impl block marked `#[errors]` with no sources never makes
/// the block fail when its return type is well formed. Its enum has no
/// variant, so no error converts into it: with `Result<T, _>` the enum stands
/// beside the block and the method's error branch can never be taken.
pub proof fn lemma_marker_method_cannot_fail(m: ImplMethod, x: Option<FunctionExpansion>)
    requires
        m.annotation is Marker,
    ensures
        return_type_error(m.function.return_type) is None ==> method_error(m) is None,
        method_expansion(m, x) ==> {
            let e = x->Some_0;
            &&& x is Some
            &&& e.error_enum.variants@.len() == 0
            &&& forall|s: SourcePath| !#[trigger] has_source(e.error_enum, s)
            &&& rewritable(m.function.return_type) ==> e.return_type is Some
                && e.placement is Adjacent
        },
{
    assert(variant_names(Seq::<SourcePath>::empty()) =~= Seq::empty());
}

} // verus!
