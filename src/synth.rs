//! The generated error enum: its variants, its declaration with the impls
//! that go with it, and the table from source types to variants.

use vstd::prelude::*;
use crate::naming::{derived_variant_name, variant_name_for_path};
use crate::signature::ExpandError;
use crate::text::{join, joined, views};

verus! {

/// One declared error source: a type path.
pub struct SourcePath {
    /// The identifiers of the path's segments.
    pub segments: Vec<String>,
    /// The path as written.
    pub text: String,
}

/// A variant of a generated enum, holding one value of its source type.
pub struct Variant {
    pub name: String,
    pub source: SourcePath,
}

/// A generated error enum.
pub struct ErrorEnum {
    pub name: String,
    /// The visibility qualifier it is declared with (may be empty).
    pub visibility: String,
    /// A `#[derive(...)]` attribute passed through to it (may be empty).
    pub derives: String,
    pub variants: Vec<Variant>,
}

/// The variant names that the sources yield, in order.
pub open spec fn variant_names(sources: Seq<SourcePath>) -> Seq<Seq<char>> {
    sources.map_values(|s: SourcePath| derived_variant_name(s.segments@))
}

/// Every name is non-empty and no two are equal.
pub open spec fn names_distinct(names: Seq<Seq<char>>) -> bool {
    &&& forall|i: int| 0 <= i < names.len() ==> #[trigger] names[i].len() > 0
    &&& forall|i: int, j: int| 0 <= i < j < names.len() ==> names[i] != names[j]
}

/// The failure for the first name that is empty or repeats an earlier one.
pub open spec fn names_error(names: Seq<Seq<char>>) -> Option<ExpandError>
    decreases names.len(),
{
    if names.len() == 0 {
        None
    } else if names_error(names.drop_last()) is Some {
        names_error(names.drop_last())
    } else {
        let j = names.len() - 1;
        if names[j].len() == 0 {
            Some(ExpandError::EmptyVariantName { index: j as usize })
        } else if exists|k: int| 0 <= k < j && names[k] == names[j] {
            let k = choose|k: int| 0 <= k < j && names[k] == names[j];
            Some(ExpandError::DuplicateVariant { first: k as usize, second: j as usize })
        } else {
            None
        }
    }
}

pub proof fn lemma_names_error_none(names: Seq<Seq<char>>)
    ensures
        names_error(names) is None <==> names_distinct(names),
    decreases names.len(),
{
    if names.len() > 0 {
        let prefix = names.drop_last();
        lemma_names_error_none(prefix);
        assert forall|i: int| 0 <= i < prefix.len() implies prefix[i] == names[i] by {}
        if names_distinct(names) {
            assert(names_distinct(prefix));
        }
    }
}

/// The two paths name the same type, judged by their segments.
pub open spec fn same_source(a: SourcePath, b: SourcePath) -> bool {
    views(a.segments@) == views(b.segments@)
}

/// Variant `i` of `e` holds values of `source`.
pub open spec fn holds_source_at(e: ErrorEnum, source: SourcePath, i: int) -> bool {
    0 <= i < e.variants@.len() && same_source(e.variants@[i].source, source)
}

/// Some variant of `e` holds values of `source`.
pub open spec fn has_source(e: ErrorEnum, source: SourcePath) -> bool {
    exists|j: int| holds_source_at(e, source, j)
}

/// `e` has a variant for every source of `narrow`.
pub open spec fn covers(e: ErrorEnum, narrow: ErrorEnum) -> bool {
    forall|i: int|
        0 <= i < narrow.variants@.len() ==> #[trigger] has_source(e, narrow.variants@[i].source)
}

impl ErrorEnum {
    /// Variants are named after their sources, with names non-empty and distinct.
    pub open spec fn wf(&self) -> bool {
        &&& forall|i: int|
            0 <= i < self.variants@.len() ==> #[trigger] self.variants@[i].name@
                == derived_variant_name(self.variants@[i].source.segments@)
        &&& names_distinct(self.variants@.map_values(|v: Variant| v.name@))
    }
}

fn same_segments(a: &Vec<String>, b: &Vec<String>) -> (r: bool)
    ensures
        r == (views(a@) == views(b@)),
{
    if a.len() != b.len() {
        proof {
            assert(views(a@).len() != views(b@).len());
        }
        return false;
    }
    let mut i: usize = 0;
    while i < a.len()
        invariant
            a@.len() == b@.len(),
            i <= a@.len(),
            forall|k: int| 0 <= k < i ==> a@[k]@ == b@[k]@,
        decreases a.len() - i,
    {
        if a[i] != b[i] {
            proof {
                assert(views(a@)[i as int] != views(b@)[i as int]);
            }
            return false;
        }
        i += 1;
    }
    proof {
        assert(views(a@) =~= views(b@));
    }
    true
}

/// Builds the enum named `name` with one variant per source, in order. Fails
/// on the first source whose variant name is empty or repeats an earlier one.
pub fn generate_error_enum(
    name: String,
    visibility: String,
    derives: String,
    sources: Vec<SourcePath>,
) -> (r: Result<ErrorEnum, ExpandError>)
    ensures
        r is Err <==> names_error(variant_names(sources@)) is Some,
        r matches Err(e) ==> names_error(variant_names(sources@)) == Some(e),
        r matches Ok(e) ==> {
            &&& e.name == name
            &&& e.visibility == visibility
            &&& e.derives == derives
            &&& e.variants@.len() == sources@.len()
            &&& forall|i: int|
                0 <= i < sources@.len() ==> #[trigger] e.variants@[i].source == sources@[i]
            &&& e.wf()
        },
{
    let ghost all = variant_names(sources@);
    let mut names: Vec<String> = Vec::new();
    let mut j: usize = 0;
    while j < sources.len()
        invariant
            j <= sources@.len(),
            all == variant_names(sources@),
            views(names@) =~= all.take(j as int),
            names_error(all.take(j as int)) is None,
        decreases sources.len() - j,
    {
        let name_j = variant_name_for_path(&sources[j].segments);
        let ghost prefix = all.take(j as int);
        let ghost next = all.take(j as int + 1);
        proof {
            assert(next.drop_last() =~= prefix);
            assert(next[j as int] == name_j@);
        }
        if name_j.unicode_len() == 0 {
            proof {
                assert(names_error(next) == Some(ExpandError::EmptyVariantName { index: j }));
                lemma_error_persists(all, j as int + 1);
            }
            return Err(ExpandError::EmptyVariantName { index: j });
        }
        let mut k: usize = 0;
        while k < j
            invariant
                k <= j,
                j < sources@.len(),
                all == variant_names(sources@),
                all.len() == sources@.len(),
                prefix == all.take(j as int),
                next == all.take(j as int + 1),
                names_error(prefix) is None,
                names@.len() == j,
                views(names@) =~= prefix,
                next[j as int] == name_j@,
                forall|m: int| 0 <= m < k ==> prefix[m] != name_j@,
            decreases j - k,
        {
            if names[k] == name_j {
                proof {
                    lemma_names_error_none(prefix);
                    assert(next.drop_last() =~= prefix);
                    assert(prefix[k as int] == name_j@);
                    assert(next[k as int] == prefix[k as int]);
                    assert(0 <= k < j && next[k as int] == next[j as int]);
                    let c = choose|c: int| 0 <= c < j && next[c] == next[j as int];
                    assert(next[c] == prefix[c]);
                    if c < k {
                        assert(prefix[c] != prefix[k as int]);
                    } else if c > k {
                        assert(prefix[k as int] != prefix[c]);
                    }
                    assert(names_error(next) == Some(
                        ExpandError::DuplicateVariant { first: k, second: j },
                    ));
                    lemma_error_persists(all, j as int + 1);
                }
                return Err(ExpandError::DuplicateVariant { first: k, second: j });
            }
            k += 1;
        }
        proof {
            assert forall|m: int| 0 <= m < j implies next[m] != next[j as int] by {
                assert(next[m] == prefix[m]);
            }
            let before = names@;
            assert(views(before.push(name_j)) =~= views(before).push(name_j@));
        }
        names.push(name_j);
        j += 1;
    }
    proof {
        assert(all.take(j as int) =~= all);
        lemma_names_error_none(all);
    }
    let ghost names_all = names@;
    let ghost sources_all = sources@;
    let total = sources.len();
    let mut sources = sources;
    let mut variants: Vec<Variant> = Vec::new();
    let mut i: usize = 0;
    while sources.len() > 0
        invariant
            i + sources@.len() == sources_all.len(),
            total == sources_all.len(),
            sources@ =~= sources_all.subrange(i as int, sources_all.len() as int),
            views(names_all) == all,
            names@ == names_all,
            all == variant_names(sources_all),
            names_all.len() == sources_all.len(),
            variants@.len() == i,
            forall|m: int|
                0 <= m < i ==> (#[trigger] variants@[m]).source == sources_all[m]
                    && variants@[m].name@ == all[m],
        decreases sources.len(),
    {
        let source = sources.remove(0);
        let name_i = names[i].clone();
        variants.push(Variant { name: name_i, source });
        i += 1;
    }
    let e = ErrorEnum { name, visibility, derives, variants };
    proof {
        assert forall|m: int| 0 <= m < all.len() implies all[m] == variants@[m].name@ by {}
        assert(e.variants@.map_values(|v: Variant| v.name@) =~= all);
    }
    Ok(e)
}

proof fn lemma_error_persists(names: Seq<Seq<char>>, n: int)
    requires
        0 <= n <= names.len(),
        names_error(names.take(n)) is Some,
    ensures
        names_error(names) == names_error(names.take(n)),
    decreases names.len() - n,
{
    if n < names.len() {
        assert(names.take(n + 1).drop_last() =~= names.take(n));
        lemma_error_persists(names, n + 1);
    } else {
        assert(names.take(n) =~= names);
    }
}

/// `Name(Path)`: a variant in the enum's body.
pub open spec fn field_text(v: Variant) -> Seq<char> {
    v.name@ + "("@ + v.source.text@ + ")"@
}

/// The conversion of one source into its variant.
pub open spec fn from_impl_text(name: Seq<char>, v: Variant) -> Seq<char> {
    "impl ::error_mancer::ErrorMancerFrom<"@ + v.source.text@ + "> for "@ + name
        + " {\n    fn from(value: "@ + v.source.text@ + ") -> Self {\n        Self::"@ + v.name@
        + "(value)\n    }\n}\n"@
}

/// The bound that a target of `flatten` needs for one source.
pub open spec fn bound_text(v: Variant) -> Seq<char> {
    "::error_mancer::ErrorMancerFrom<"@ + v.source.text@ + ">"@
}

/// The match arm of `flatten` for one variant.
pub open spec fn flatten_arm_text(v: Variant) -> Seq<char> {
    "            Self::"@ + v.name@ + "(err) => ::error_mancer::ErrorMancerFrom::from(err),\n"@
}

/// The match arm of `fmt` for one variant.
pub open spec fn display_arm_text(v: Variant) -> Seq<char> {
    "            Self::"@ + v.name@ + "(err) => ::core::fmt::Display::fmt(err, f),\n"@
}

/// The enum's own declaration, with `Debug` always derived.
pub open spec fn enum_item_text(e: ErrorEnum) -> Seq<char> {
    "#[derive(::core::fmt::Debug)]\n"@ + e.derives@ + "\n"@ + e.visibility@ + " enum "@ + e.name@
        + " {\n"@ + joined(e.variants@.map_values(|v: Variant| field_text(v)), ",\n"@)
        + "\n}\n"@
}

/// `From` for every type that the enum converts from.
pub open spec fn bridge_impl_text(name: Seq<char>) -> Seq<char> {
    "impl<T> ::core::convert::From<T> for "@ + name
        + " where Self: ::error_mancer::ErrorMancerFrom<T> {\n    fn from(value: T) -> Self {\n        ::error_mancer::ErrorMancerFrom::from(value)\n    }\n}\n"@
}

/// Upcasting into any enum that converts from every source.
pub open spec fn flatten_impl_text(e: ErrorEnum) -> Seq<char> {
    "impl<T> ::error_mancer::FlattenInto<T> for "@ + e.name@ + " where T: "@ + joined(
        e.variants@.map_values(|v: Variant| bound_text(v)),
        " + "@,
    ) + " {\n    fn flatten(self) -> T {\n        match self {\n"@ + joined(
        e.variants@.map_values(|v: Variant| flatten_arm_text(v)),
        ""@,
    ) + "            _ => ::core::unreachable!(),\n        }\n    }\n}\n"@
}

/// `Display` that forwards to the held error.
pub open spec fn display_impl_text(e: ErrorEnum) -> Seq<char> {
    "impl ::core::fmt::Display for "@ + e.name@
        + " {\n    fn fmt(&self, f: &mut ::core::fmt::Formatter<'_>) -> ::core::fmt::Result {\n        match self {\n"@
        + joined(e.variants@.map_values(|v: Variant| display_arm_text(v)), ""@)
        + "            _ => ::core::unreachable!(),\n        }\n    }\n}\n"@
}

pub open spec fn error_impl_text(name: Seq<char>) -> Seq<char> {
    "impl ::core::error::Error for "@ + name + " {}\n"@
}

/// The full generated code: the enum, one conversion per source, the `From`
/// bridge, the upcast, `Display` and `Error`.
pub open spec fn declaration_text(e: ErrorEnum) -> Seq<char> {
    enum_item_text(e) + joined(
        e.variants@.map_values(|v: Variant| from_impl_text(e.name@, v)),
        ""@,
    ) + bridge_impl_text(e.name@) + flatten_impl_text(e) + display_impl_text(e)
        + error_impl_text(e.name@)
}

fn field_piece(v: &Variant) -> (r: String)
    ensures
        r@ == field_text(*v),
{
    let mut r = v.name.clone();
    r.append("(");
    r.append(v.source.text.as_str());
    r.append(")");
    r
}

fn from_impl_piece(name: &String, v: &Variant) -> (r: String)
    ensures
        r@ == from_impl_text(name@, *v),
{
    let mut r = String::from_str("impl ::error_mancer::ErrorMancerFrom<");
    r.append(v.source.text.as_str());
    r.append("> for ");
    r.append(name.as_str());
    r.append(" {\n    fn from(value: ");
    r.append(v.source.text.as_str());
    r.append(") -> Self {\n        Self::");
    r.append(v.name.as_str());
    r.append("(value)\n    }\n}\n");
    r
}

fn bound_piece(v: &Variant) -> (r: String)
    ensures
        r@ == bound_text(*v),
{
    let mut r = String::from_str("::error_mancer::ErrorMancerFrom<");
    r.append(v.source.text.as_str());
    r.append(">");
    r
}

fn flatten_arm_piece(v: &Variant) -> (r: String)
    ensures
        r@ == flatten_arm_text(*v),
{
    let mut r = String::from_str("            Self::");
    r.append(v.name.as_str());
    r.append("(err) => ::error_mancer::ErrorMancerFrom::from(err),\n");
    r
}

fn display_arm_piece(v: &Variant) -> (r: String)
    ensures
        r@ == display_arm_text(*v),
{
    let mut r = String::from_str("            Self::");
    r.append(v.name.as_str());
    r.append("(err) => ::core::fmt::Display::fmt(err, f),\n");
    r
}

/// The rendered pieces for each variant, in order.
struct Pieces {
    fields: Vec<String>,
    from_impls: Vec<String>,
    bounds: Vec<String>,
    flatten_arms: Vec<String>,
    display_arms: Vec<String>,
}

fn render_pieces(e: &ErrorEnum) -> (p: Pieces)
    ensures
        views(p.fields@) == e.variants@.map_values(|v: Variant| field_text(v)),
        views(p.from_impls@) == e.variants@.map_values(|v: Variant| from_impl_text(e.name@, v)),
        views(p.bounds@) == e.variants@.map_values(|v: Variant| bound_text(v)),
        views(p.flatten_arms@) == e.variants@.map_values(|v: Variant| flatten_arm_text(v)),
        views(p.display_arms@) == e.variants@.map_values(|v: Variant| display_arm_text(v)),
{
    let mut p = Pieces {
        fields: Vec::new(),
        from_impls: Vec::new(),
        bounds: Vec::new(),
        flatten_arms: Vec::new(),
        display_arms: Vec::new(),
    };
    let ghost vs = e.variants@;
    let mut i: usize = 0;
    while i < e.variants.len()
        invariant
            i <= vs.len(),
            vs == e.variants@,
            views(p.fields@) =~= vs.take(i as int).map_values(|v: Variant| field_text(v)),
            views(p.from_impls@) =~= vs.take(i as int).map_values(
                |v: Variant| from_impl_text(e.name@, v),
            ),
            views(p.bounds@) =~= vs.take(i as int).map_values(|v: Variant| bound_text(v)),
            views(p.flatten_arms@) =~= vs.take(i as int).map_values(
                |v: Variant| flatten_arm_text(v),
            ),
            views(p.display_arms@) =~= vs.take(i as int).map_values(
                |v: Variant| display_arm_text(v),
            ),
        decreases vs.len() - i,
    {
        let v = &e.variants[i];
        let a = field_piece(v);
        let b = from_impl_piece(&e.name, v);
        let c = bound_piece(v);
        let d = flatten_arm_piece(v);
        let f = display_arm_piece(v);
        proof {
            assert(vs.take(i as int + 1) =~= vs.take(i as int).push(vs[i as int]));
            lemma_views_push(p.fields@, a);
            lemma_views_push(p.from_impls@, b);
            lemma_views_push(p.bounds@, c);
            lemma_views_push(p.flatten_arms@, d);
            lemma_views_push(p.display_arms@, f);
        }
        p.fields.push(a);
        p.from_impls.push(b);
        p.bounds.push(c);
        p.flatten_arms.push(d);
        p.display_arms.push(f);
        i += 1;
    }
    proof {
        assert(vs.take(i as int) =~= vs);
    }
    p
}

proof fn lemma_views_push(parts: Seq<String>, s: String)
    ensures
        views(parts.push(s)) =~= views(parts).push(s@),
{
}

impl ErrorEnum {
    /// The source text of the enum declaration and of its impls.
    pub fn declaration(&self) -> (r: String)
        ensures
            r@ == declaration_text(*self),
    {
        let p = render_pieces(self);
        let mut r = String::from_str("#[derive(::core::fmt::Debug)]\n");
        r.append(self.derives.as_str());
        r.append("\n");
        r.append(self.visibility.as_str());
        r.append(" enum ");
        r.append(self.name.as_str());
        r.append(" {\n");
        r.append(join(&p.fields, ",\n").as_str());
        r.append("\n}\n");
        let ghost item = r@;
        assert(item == enum_item_text(*self));
        r.append(join(&p.from_impls, "").as_str());
        let ghost froms = r@;
        r.append("impl<T> ::core::convert::From<T> for ");
        r.append(self.name.as_str());
        r.append(
            " where Self: ::error_mancer::ErrorMancerFrom<T> {\n    fn from(value: T) -> Self {\n        ::error_mancer::ErrorMancerFrom::from(value)\n    }\n}\n",
        );
        assert(r@ =~= froms + bridge_impl_text(self.name@));
        let ghost bridge = r@;
        r.append("impl<T> ::error_mancer::FlattenInto<T> for ");
        r.append(self.name.as_str());
        r.append(" where T: ");
        r.append(join(&p.bounds, " + ").as_str());
        r.append(" {\n    fn flatten(self) -> T {\n        match self {\n");
        r.append(join(&p.flatten_arms, "").as_str());
        r.append("            _ => ::core::unreachable!(),\n        }\n    }\n}\n");
        assert(r@ =~= bridge + flatten_impl_text(*self));
        let ghost flatten = r@;
        r.append("impl ::core::fmt::Display for ");
        r.append(self.name.as_str());
        r.append(
            " {\n    fn fmt(&self, f: &mut ::core::fmt::Formatter<'_>) -> ::core::fmt::Result {\n        match self {\n",
        );
        r.append(join(&p.display_arms, "").as_str());
        r.append("            _ => ::core::unreachable!(),\n        }\n    }\n}\n");
        assert(r@ =~= flatten + display_impl_text(*self));
        let ghost display = r@;
        r.append("impl ::core::error::Error for ");
        r.append(self.name.as_str());
        r.append(" {}\n");
        assert(r@ =~= display + error_impl_text(self.name@));
        r
    }
}

impl ErrorEnum {
    /// The variant that a value of `source` is converted into: the first one
    /// that holds that source, if any. With none, the conversion does not
    /// exist and a value of `source` cannot leave the function.
    pub fn variant_for_source(&self, source: &SourcePath) -> (r: Option<usize>)
        ensures
            r matches Some(i) ==> holds_source_at(*self, *source, i as int) && forall|j: int|
                0 <= j < i ==> !holds_source_at(*self, *source, j),
            r is None ==> !has_source(*self, *source),
    {
        let mut i: usize = 0;
        while i < self.variants.len()
            invariant
                i <= self.variants@.len(),
                forall|j: int| 0 <= j < i ==> !holds_source_at(*self, *source, j),
            decreases self.variants.len() - i,
        {
            if same_segments(&self.variants[i].source.segments, &source.segments) {
                return Some(i);
            }
            i += 1;
        }
        None
    }

    /// The variant of `target` that the upcast of a value in variant `index`
    /// of this enum lands in: the one that holds the same source. `None` when
    /// `target` has no variant for that source, and the upcast is refused, or
    /// when this enum has no variant `index`.
    pub fn upcast_variant(&self, index: usize, target: &ErrorEnum) -> (r: Option<usize>)
        ensures
            index >= self.variants@.len() ==> r is None,
            index < self.variants@.len() ==> {
                let source = self.variants@[index as int].source;
                &&& r matches Some(j) ==> holds_source_at(*target, source, j as int) && forall|k: int|
                    0 <= k < j ==> !holds_source_at(*target, source, k)
                &&& r is None ==> !has_source(*target, source)
            },
    {
        if index >= self.variants.len() {
            return None;
        }
        target.variant_for_source(&self.variants[index].source)
    }
}

} // verus!
