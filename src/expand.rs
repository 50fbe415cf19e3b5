//! Expansion of an annotated function, and of an annotated impl block.

use vstd::prelude::*;
use crate::naming::{derived_enum_name, enum_name_for_function};
use crate::signature::{
    analyze_return_type, argument_text, bare_ident, is_placeholder, result_arguments,
    return_type_error, rewritable, rewrite_return_type, rewritten_return_text, ErrorSlot,
    ExpandError, ReturnTypeSyntax,
};
use crate::synth::{
    declaration_text, generate_error_enum, names_error, variant_names, ErrorEnum, SourcePath,
};
use crate::text::joined;

verus! {

/// An annotated function, as far as the generator reads it.
pub struct FunctionSpec {
    pub name: String,
    /// The visibility qualifier as written (may be empty).
    pub visibility: String,
    /// A `#[derive(...)]` attribute on the function, passed to the enum (may be empty).
    pub derives: String,
    pub return_type: ReturnTypeSyntax,
    /// The error sources named in the annotation, in order.
    pub sources: Vec<SourcePath>,
}

/// Where the enum declaration goes.
pub enum Placement {
    /// Beside the function, with the function's visibility.
    Adjacent,
    /// Inside the function body, out of reach of callers.
    Nested,
}

pub struct FunctionExpansion {
    pub error_enum: ErrorEnum,
    pub placement: Placement,
    /// The source text of the enum and of its impls.
    pub declaration: String,
    /// The new return type, where the placeholder was substituted; `None`
    /// leaves the declared return type as written.
    pub return_type: Option<String>,
    /// The return type of the closure that runs the original body.
    pub inner_return_type: String,
}

/// The name of the generated enum: the bare identifier in the error slot, or
/// else one derived from the function's name.
pub open spec fn enum_name_of(f: FunctionSpec) -> Seq<char> {
    let args = result_arguments(f.return_type);
    if args.len() >= 2 && bare_ident(args[1]) is Some {
        bare_ident(args[1])->Some_0
    } else {
        derived_enum_name(f.name@)
    }
}

/// The enum goes beside the function when the error slot is `_` or a bare name.
pub open spec fn placed_adjacent(f: FunctionSpec) -> bool {
    let args = result_arguments(f.return_type);
    args.len() >= 2 && (is_placeholder(args[1]) || bare_ident(args[1]) is Some)
}

/// `-> ::core::result::Result<T, E>` for the success type and the enum.
pub open spec fn inner_return_text(ok: Seq<char>, name: Seq<char>) -> Seq<char> {
    "-> ::core::result::Result<"@ + ok + ", "@ + name + ">"@
}

/// The failure of expanding `f` with these sources, if any: first the
/// return type, then the variant names.
pub open spec fn function_error(f: FunctionSpec, sources: Seq<SourcePath>) -> Option<ExpandError> {
    if return_type_error(f.return_type) is Some {
        return_type_error(f.return_type)
    } else {
        names_error(variant_names(sources))
    }
}

/// `x` is the expansion of `f` with these sources.
pub open spec fn expansion_of(
    f: FunctionSpec,
    sources: Seq<SourcePath>,
    x: FunctionExpansion,
) -> bool {
    let e = x.error_enum;
    &&& e.name@ == enum_name_of(f)
    &&& e.visibility == f.visibility
    &&& e.derives == f.derives
    &&& e.variants@.len() == sources.len()
    &&& forall|i: int| 0 <= i < sources.len() ==> #[trigger] e.variants@[i].source == sources[i]
    &&& e.wf()
    &&& x.declaration@ == declaration_text(e)
    &&& (x.placement is Adjacent) == placed_adjacent(f)
    &&& (x.return_type is Some) == rewritable(f.return_type)
    &&& x.return_type matches Some(t) ==> t@ == rewritten_return_text(f.return_type, e.name@)
    &&& x.inner_return_type@ == inner_return_text(
        argument_text(result_arguments(f.return_type)[0]),
        e.name@,
    )
}

fn expand_with_sources(f: FunctionSpec, sources: Vec<SourcePath>) -> (r: Result<
    FunctionExpansion,
    ExpandError,
>)
    ensures
        r is Err <==> function_error(f, sources@) is Some,
        r matches Err(e) ==> function_error(f, sources@) == Some(e),
        r matches Ok(x) ==> expansion_of(f, sources@, x),
{
    let analysis = match analyze_return_type(&f.return_type) {
        Ok(a) => a,
        Err(e) => return Err(e),
    };
    let named = match &analysis.slot {
        ErrorSlot::Named(_) => true,
        _ => false,
    };
    let name = match analysis.slot {
        ErrorSlot::Named(n) => n,
        _ => enum_name_for_function(f.name.as_str()),
    };
    let error_enum = match generate_error_enum(
        name.clone(),
        f.visibility.clone(),
        f.derives.clone(),
        sources,
    ) {
        Ok(e) => e,
        Err(e) => return Err(e),
    };
    let return_type = rewrite_return_type(&f.return_type, name.as_str());
    let placement = if return_type.is_some() || named {
        Placement::Adjacent
    } else {
        Placement::Nested
    };
    let mut inner_return_type = String::from_str("-> ::core::result::Result<");
    inner_return_type.append(analysis.ok_type.as_str());
    inner_return_type.append(", ");
    inner_return_type.append(name.as_str());
    inner_return_type.append(">");
    let declaration = error_enum.declaration();
    Ok(FunctionExpansion { error_enum, placement, declaration, return_type, inner_return_type })
}

/// Expands a function annotated with the error sources in `f.sources`.
pub fn expand_function(f: FunctionSpec) -> (r: Result<FunctionExpansion, ExpandError>)
    ensures
        r is Err <==> function_error(f, f.sources@) is Some,
        r matches Err(e) ==> function_error(f, f.sources@) == Some(e),
        r matches Ok(x) ==> expansion_of(f, f.sources@, x),
{
    let mut f = f;
    let ghost f0 = f;
    let mut sources: Vec<SourcePath> = Vec::new();
    std::mem::swap(&mut sources, &mut f.sources);
    proof {
        assert(function_error(f, sources@) == function_error(f0, f0.sources@));
    }
    expand_with_sources(f, sources)
}

/// The inner `errors` annotation of a method in an annotated impl block.
pub enum MethodAnnotation {
    /// No annotation: the method is left as it is.
    Unannotated,
    /// `#[errors]`: no error sources.
    Marker,
    /// `#[errors(A, B, ...)]`: the sources in the method's `sources`.
    List,
    /// `#[errors = ...]`: refused.
    Malformed,
}

pub struct ImplMethod {
    pub annotation: MethodAnnotation,
    pub function: FunctionSpec,
}

/// The failure of an impl block: the position of the first failing method
/// among the block's methods, and its diagnostic.
#[derive(Debug, PartialEq, Eq)]
pub struct MethodFailure {
    pub index: usize,
    pub error: ExpandError,
}

pub struct ImplExpansion {
    /// For each method in order, its expansion, or `None` if not annotated.
    pub methods: Vec<Option<FunctionExpansion>>,
    /// The declarations placed before the impl block, one after the other.
    pub hoisted: String,
}

/// The sources that a method's annotation declares.
pub open spec fn method_sources(m: ImplMethod) -> Seq<SourcePath> {
    match m.annotation {
        MethodAnnotation::List => m.function.sources@,
        _ => Seq::empty(),
    }
}

pub open spec fn method_error(m: ImplMethod) -> Option<ExpandError> {
    match m.annotation {
        MethodAnnotation::Unannotated => None,
        MethodAnnotation::Malformed => Some(ExpandError::MalformedMethodAttribute),
        _ => function_error(m.function, method_sources(m)),
    }
}

/// The failure of the first method that fails, if any.
pub open spec fn first_method_error(ms: Seq<ImplMethod>) -> Option<MethodFailure>
    decreases ms.len(),
{
    if ms.len() == 0 {
        None
    } else if first_method_error(ms.drop_last()) is Some {
        first_method_error(ms.drop_last())
    } else {
        match method_error(ms.last()) {
            Some(e) => Some(MethodFailure { index: (ms.len() - 1) as usize, error: e }),
            None => None,
        }
    }
}

/// What a method's expansion contributes before the impl block.
pub open spec fn hoisted_piece(x: Option<FunctionExpansion>) -> Seq<char> {
    match x {
        Some(e) => if e.placement is Adjacent {
            e.declaration@
        } else {
            Seq::empty()
        },
        None => Seq::empty(),
    }
}

pub open spec fn hoisted_text(xs: Seq<Option<FunctionExpansion>>) -> Seq<char> {
    joined(xs.map_values(|x: Option<FunctionExpansion>| hoisted_piece(x)), Seq::empty())
}

/// `x` is what the method `m` becomes.
pub open spec fn method_expansion(m: ImplMethod, x: Option<FunctionExpansion>) -> bool {
    match x {
        None => m.annotation is Unannotated,
        Some(e) => !(m.annotation is Unannotated) && expansion_of(m.function, method_sources(m), e),
    }
}

proof fn lemma_first_error_persists(ms: Seq<ImplMethod>, n: int)
    requires
        0 <= n <= ms.len(),
        first_method_error(ms.take(n)) is Some,
    ensures
        first_method_error(ms) == first_method_error(ms.take(n)),
    decreases ms.len() - n,
{
    if n < ms.len() {
        assert(ms.take(n + 1).drop_last() =~= ms.take(n));
        lemma_first_error_persists(ms, n + 1);
    } else {
        assert(ms.take(n) =~= ms);
    }
}

/// Expands every annotated method of an impl block on its own, and gathers
/// the declarations placed beside them to stand before the block. Fails with
/// the first method that fails, and its position.
pub fn expand_impl_block(methods: Vec<ImplMethod>) -> (r: Result<ImplExpansion, MethodFailure>)
    ensures
        r is Err <==> first_method_error(methods@) is Some,
        r matches Err(e) ==> first_method_error(methods@) == Some(e),
        r matches Ok(x) ==> {
            &&& x.methods@.len() == methods@.len()
            &&& forall|i: int|
                0 <= i < methods@.len() ==> #[trigger] method_expansion(
                    methods@[i],
                    x.methods@[i],
                )
            &&& x.hoisted@ == hoisted_text(x.methods@)
        },
{
    let ghost all = methods@;
    let total = methods.len();
    let mut rest = methods;
    let mut out: Vec<Option<FunctionExpansion>> = Vec::new();
    let mut hoisted = String::new();
    let mut i: usize = 0;
    while rest.len() > 0
        invariant
            total == all.len(),
            all == methods@,
            i + rest@.len() == all.len(),
            rest@ =~= all.subrange(i as int, all.len() as int),
            out@.len() == i,
            first_method_error(all.take(i as int)) is None,
            forall|m: int| 0 <= m < i ==> #[trigger] method_expansion(all[m], out@[m]),
            hoisted@ == hoisted_text(out@),
        decreases rest.len(),
    {
        let m = rest.remove(0);
        let ghost m0 = m;
        proof {
            assert(m0 == all[i as int]);
            assert(all.take(i as int + 1).drop_last() =~= all.take(i as int));
        }
        let expansion = match m.annotation {
            MethodAnnotation::Unannotated => None,
            MethodAnnotation::Malformed => {
                proof {
                    assert(all.take(i as int + 1).last() == m0);
                    assert(first_method_error(all.take(i as int + 1)) == Some(
                        MethodFailure { index: i, error: ExpandError::MalformedMethodAttribute },
                    ));
                    lemma_first_error_persists(all, i as int + 1);
                }
                return Err(MethodFailure { index: i, error: ExpandError::MalformedMethodAttribute });
            },
            MethodAnnotation::Marker => match expand_with_sources(m.function, Vec::new()) {
                Ok(x) => Some(x),
                Err(e) => {
                    proof {
                        lemma_first_error_persists(all, i as int + 1);
                    }
                    return Err(MethodFailure { index: i, error: e });
                },
            },
            MethodAnnotation::List => match expand_function(m.function) {
                Ok(x) => Some(x),
                Err(e) => {
                    proof {
                        lemma_first_error_persists(all, i as int + 1);
                    }
                    return Err(MethodFailure { index: i, error: e });
                },
            },
        };
        match &expansion {
            Some(x) => {
                match x.placement {
                    Placement::Adjacent => hoisted.append(x.declaration.as_str()),
                    Placement::Nested => {},
                }
            },
            None => {},
        }
        proof {
            let xs = out@.push(expansion);
            let pieces = xs.map_values(|x: Option<FunctionExpansion>| hoisted_piece(x));
            assert(pieces.drop_last() =~= out@.map_values(
                |x: Option<FunctionExpansion>| hoisted_piece(x),
            ));
            assert(hoisted@ =~= hoisted_text(out@) + Seq::<char>::empty() + hoisted_piece(
                expansion,
            )) by {
                assert(hoisted_piece(expansion) == pieces.last());
            }
            assert(method_expansion(all[i as int], expansion));
        }
        out.push(expansion);
        i += 1;
    }
    proof {
        assert(all.take(i as int) =~= all);
    }
    Ok(ImplExpansion { methods: out, hoisted })
}

} // verus!
