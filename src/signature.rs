//! A model of a function's declared return type, its classification, and the
//! substitution of a generated enum into its error slot.

use vstd::prelude::*;
use crate::text::{join, joined, views};

verus! {

/// A type as written in a signature, as far as the generator reads it.
pub enum TypeSyntax {
    /// The inference placeholder `_`.
    Infer,
    /// A path type such as `std::result::Result<T, E>`.
    Path(PathType),
    /// Any other type (a reference, a tuple, a trait object, ...), by its text.
    Other(String),
}

pub struct PathType {
    /// Whether the path has a qualified self type (`<T as Trait>::Name`).
    pub qualified: bool,
    /// The text before the first segment: `::`, a qualified self type, or nothing.
    pub prefix: String,
    pub segments: Vec<PathSegment>,
}

pub struct PathSegment {
    pub ident: String,
    pub arguments: PathArguments,
}

pub enum PathArguments {
    /// No arguments.
    Plain,
    /// `<A, B, ...>`
    AngleBracketed(Vec<GenericArgument>),
    /// `(A, B) -> C`, by its text.
    Parenthesized(String),
}

pub enum GenericArgument {
    /// A type argument together with its text.
    Type(TypeSyntax, String),
    /// A lifetime, a constant, an associated type binding or a constraint,
    /// by its text.
    Other(String),
}

pub enum ReturnTypeSyntax {
    /// No `-> ...` at all.
    Default,
    Type(TypeSyntax),
}

/// The failures of the generator, each reported as a diagnostic.
#[derive(Debug, PartialEq, Eq)]
pub enum ExpandError {
    MissingReturnType,
    ReturnTypeNotPath,
    MissingPathSegment,
    NotResult,
    MissingGenericArguments,
    MissingOkType,
    OkArgumentNotType,
    /// An inner `errors` annotation of a method that is neither a marker
    /// nor a list.
    MalformedMethodAttribute,
    /// The annotated item is neither a function nor an impl block.
    UnsupportedItem,
    /// The source at `index` yields an empty variant name.
    EmptyVariantName { index: usize },
    /// The sources at `first` and `second` yield the same variant name.
    DuplicateVariant { first: usize, second: usize },
}

/// What stands in the error slot of the return type.
pub enum ErrorSlot {
    /// `Result<T>`: no second argument.
    Absent,
    /// `Result<T, _>`: the generated enum is substituted.
    Placeholder,
    /// `Result<T, Name>`: the enum is generated under this name.
    Named(String),
    /// Anything else: left alone, the enum nests inside the function.
    Opaque,
}

pub struct ReturnAnalysis {
    /// The text of the success type.
    pub ok_type: String,
    pub slot: ErrorSlot,
}

pub open spec fn result_name() -> Seq<char> {
    seq!['R', 'e', 's', 'u', 'l', 't']
}

/// The diagnostic for a return type that the generator cannot work with, if any.
pub open spec fn return_type_error(rt: ReturnTypeSyntax) -> Option<ExpandError> {
    match rt {
        ReturnTypeSyntax::Default => Some(ExpandError::MissingReturnType),
        ReturnTypeSyntax::Type(TypeSyntax::Path(p)) => {
            if p.segments@.len() == 0 {
                Some(ExpandError::MissingPathSegment)
            } else if p.segments@.last().ident@ != result_name() {
                Some(ExpandError::NotResult)
            } else {
                match p.segments@.last().arguments {
                    PathArguments::AngleBracketed(args) => {
                        if args@.len() == 0 {
                            Some(ExpandError::MissingOkType)
                        } else if args@[0] is Other {
                            Some(ExpandError::OkArgumentNotType)
                        } else {
                            None
                        }
                    },
                    _ => Some(ExpandError::MissingGenericArguments),
                }
            }
        },
        ReturnTypeSyntax::Type(_) => Some(ExpandError::ReturnTypeNotPath),
    }
}

/// The generic arguments of the trailing `Result` segment.
pub open spec fn result_arguments(rt: ReturnTypeSyntax) -> Seq<GenericArgument> {
    match rt {
        ReturnTypeSyntax::Type(TypeSyntax::Path(p)) => match p.segments@.last().arguments {
            PathArguments::AngleBracketed(args) => args@,
            _ => Seq::empty(),
        },
        _ => Seq::empty(),
    }
}

pub open spec fn argument_text(a: GenericArgument) -> Seq<char> {
    match a {
        GenericArgument::Type(_, text) => text@,
        GenericArgument::Other(text) => text@,
    }
}

/// Whether segment arguments count as empty: none, or `<>`.
pub open spec fn arguments_empty(a: PathArguments) -> bool {
    match a {
        PathArguments::Plain => true,
        PathArguments::AngleBracketed(args) => args@.len() == 0,
        PathArguments::Parenthesized(_) => false,
    }
}

/// The identifier of an argument that is a single bare, unqualified path segment.
pub open spec fn bare_ident(a: GenericArgument) -> Option<Seq<char>> {
    match a {
        GenericArgument::Type(TypeSyntax::Path(p), _) => {
            if !p.qualified && p.segments@.len() == 1 && arguments_empty(
                p.segments@[0].arguments,
            ) {
                Some(p.segments@[0].ident@)
            } else {
                None
            }
        },
        _ => None,
    }
}

pub open spec fn is_placeholder(a: GenericArgument) -> bool {
    a matches GenericArgument::Type(TypeSyntax::Infer, _)
}

/// How `slot` describes the second of the arguments `args`.
pub open spec fn slot_describes(slot: ErrorSlot, args: Seq<GenericArgument>) -> bool {
    match slot {
        ErrorSlot::Absent => args.len() < 2,
        ErrorSlot::Placeholder => args.len() >= 2 && is_placeholder(args[1]),
        ErrorSlot::Named(name) => args.len() >= 2 && bare_ident(args[1]) == Some(name@),
        ErrorSlot::Opaque => args.len() >= 2 && !is_placeholder(args[1]) && bare_ident(
            args[1],
        ) is None,
    }
}

fn is_result(ident: &String) -> (r: bool)
    ensures
        r == (ident@ == result_name()),
{
    let name = String::from_str("Result");
    proof {
        reveal_strlit("Result");
        assert(name@ =~= result_name());
    }
    *ident == name
}

fn classify_slot(args: &Vec<GenericArgument>) -> (slot: ErrorSlot)
    ensures
        slot_describes(slot, args@),
{
    if args.len() < 2 {
        return ErrorSlot::Absent;
    }
    match &args[1] {
        GenericArgument::Type(TypeSyntax::Infer, _) => ErrorSlot::Placeholder,
        GenericArgument::Type(TypeSyntax::Path(p), _) => {
            if p.qualified || p.segments.len() != 1 {
                return ErrorSlot::Opaque;
            }
            let segment = &p.segments[0];
            let empty = match &segment.arguments {
                PathArguments::Plain => true,
                PathArguments::AngleBracketed(a) => a.len() == 0,
                PathArguments::Parenthesized(_) => false,
            };
            if empty {
                ErrorSlot::Named(segment.ident.clone())
            } else {
                ErrorSlot::Opaque
            }
        },
        _ => ErrorSlot::Opaque,
    }
}

/// Reads the success type and the error slot out of a declared return type,
/// which must be a path ending in `Result<...>` with a type as its first
/// argument.
pub fn analyze_return_type(rt: &ReturnTypeSyntax) -> (r: Result<ReturnAnalysis, ExpandError>)
    ensures
        match r {
            Ok(a) => {
                &&& return_type_error(*rt) is None
                &&& a.ok_type@ == argument_text(result_arguments(*rt)[0])
                &&& slot_describes(a.slot, result_arguments(*rt))
            },
            Err(e) => return_type_error(*rt) == Some(e),
        },
{
    let ty = match rt {
        ReturnTypeSyntax::Default => return Err(ExpandError::MissingReturnType),
        ReturnTypeSyntax::Type(ty) => ty,
    };
    let path = match ty {
        TypeSyntax::Path(p) => p,
        _ => return Err(ExpandError::ReturnTypeNotPath),
    };
    let n = path.segments.len();
    if n == 0 {
        return Err(ExpandError::MissingPathSegment);
    }
    let last = &path.segments[n - 1];
    if !is_result(&last.ident) {
        return Err(ExpandError::NotResult);
    }
    let args = match &last.arguments {
        PathArguments::AngleBracketed(args) => args,
        _ => return Err(ExpandError::MissingGenericArguments),
    };
    if args.len() == 0 {
        return Err(ExpandError::MissingOkType);
    }
    let ok_type = match &args[0] {
        GenericArgument::Type(_, text) => text.clone(),
        GenericArgument::Other(_) => return Err(ExpandError::OkArgumentNotType),
    };
    let slot = classify_slot(args);
    Ok(ReturnAnalysis { ok_type, slot })
}

/// The text of a segment's arguments.
pub open spec fn arguments_text(a: PathArguments) -> Seq<char> {
    match a {
        PathArguments::Plain => Seq::empty(),
        PathArguments::AngleBracketed(args) => seq!['<'] + joined(
            args@.map_values(|g: GenericArgument| argument_text(g)),
            seq![',', ' '],
        ) + seq!['>'],
        PathArguments::Parenthesized(text) => text@,
    }
}

pub open spec fn segment_text(s: PathSegment) -> Seq<char> {
    s.ident@ + arguments_text(s.arguments)
}

/// Whether the return type is `...::Result<T, _, ...>`, whose placeholder
/// is substituted.
pub open spec fn rewritable(rt: ReturnTypeSyntax) -> bool {
    &&& rt matches ReturnTypeSyntax::Type(TypeSyntax::Path(p))
    &&& p.segments@.len() > 0
    &&& p.segments@.last().ident@ == result_name()
    &&& p.segments@.last().arguments is AngleBracketed
    &&& result_arguments(rt).len() >= 2
    &&& is_placeholder(result_arguments(rt)[1])
}

/// The text of the return type `rt` with `error_type` in its error slot.
pub open spec fn rewritten_return_text(rt: ReturnTypeSyntax, error_type: Seq<char>) -> Seq<char>
    recommends
        rewritable(rt),
{
    let p = rt->Type_0->Path_0;
    let segments = p.segments@;
    let arguments = result_arguments(rt).map_values(|g: GenericArgument| argument_text(g));
    let last = segments.last().ident@ + seq!['<'] + joined(
        arguments.update(1, error_type),
        seq![',', ' '],
    ) + seq!['>'];
    p.prefix@ + joined(
        segments.drop_last().map_values(|s: PathSegment| segment_text(s)).push(last),
        seq![':', ':'],
    )
}

fn argument_texts(args: &Vec<GenericArgument>) -> (r: Vec<String>)
    ensures
        views(r@) == args@.map_values(|g: GenericArgument| argument_text(g)),
{
    let mut r: Vec<String> = Vec::new();
    let mut i: usize = 0;
    while i < args.len()
        invariant
            i <= args.len(),
            views(r@) =~= args@.take(i as int).map_values(|g: GenericArgument| argument_text(g)),
        decreases args.len() - i,
    {
        let text = match &args[i] {
            GenericArgument::Type(_, text) => text.clone(),
            GenericArgument::Other(text) => text.clone(),
        };
        proof {
            let before = r@;
            assert(views(before.push(text)) =~= views(before).push(text@));
            assert(args@.take(i as int + 1) =~= args@.take(i as int).push(args@[i as int]));
        }
        r.push(text);
        i += 1;
    }
    proof {
        assert(args@.take(i as int) =~= args@);
    }
    r
}

fn render_segment(s: &PathSegment) -> (r: String)
    ensures
        r@ == segment_text(*s),
{
    let mut r = s.ident.clone();
    match &s.arguments {
        PathArguments::Plain => {},
        PathArguments::AngleBracketed(args) => {
            let texts = argument_texts(args);
            r.append("<");
            r.append(join(&texts, ", ").as_str());
            r.append(">");
            proof {
                reveal_strlit("<");
                reveal_strlit(">");
                reveal_strlit(", ");
                assert(", "@ =~= seq![',', ' ']);
                assert("<"@ =~= seq!['<']);
                assert(">"@ =~= seq!['>']);
                assert(r@ =~= segment_text(*s));
            }
        },
        PathArguments::Parenthesized(text) => {
            r.append(text.as_str());
        },
    }
    r
}

/// Substitutes `error_type` for the placeholder in `Result<T, _>`, giving the
/// text of the new return type; gives `None`, leaving the signature as it
/// is, for every other return type.
pub fn rewrite_return_type(rt: &ReturnTypeSyntax, error_type: &str) -> (r: Option<String>)
    ensures
        r is Some <==> rewritable(*rt),
        r matches Some(text) ==> text@ == rewritten_return_text(*rt, error_type@),
{
    let path = match rt {
        ReturnTypeSyntax::Type(TypeSyntax::Path(p)) => p,
        _ => return None,
    };
    let n = path.segments.len();
    if n == 0 {
        return None;
    }
    let last = &path.segments[n - 1];
    if !is_result(&last.ident) {
        return None;
    }
    let args = match &last.arguments {
        PathArguments::AngleBracketed(args) => args,
        _ => return None,
    };
    if args.len() < 2 {
        return None;
    }
    match &args[1] {
        GenericArgument::Type(TypeSyntax::Infer, _) => {},
        _ => return None,
    }
    let mut texts = argument_texts(args);
    assert(views(texts@).len() == args@.len());
    texts.set(1, String::from_str(error_type));
    let mut last_text = last.ident.clone();
    last_text.append("<");
    last_text.append(join(&texts, ", ").as_str());
    last_text.append(">");
    let mut segments: Vec<String> = Vec::new();
    let mut i: usize = 0;
    while i < n - 1
        invariant
            n == path.segments@.len(),
            n > 0,
            i <= n - 1,
            views(segments@) =~= path.segments@.take(i as int).map_values(
                |s: PathSegment| segment_text(s),
            ),
        decreases n - 1 - i,
    {
        let text = render_segment(&path.segments[i]);
        proof {
            let before = segments@;
            assert(views(before.push(text)) =~= views(before).push(text@));
            assert(path.segments@.take(i as int + 1) =~= path.segments@.take(i as int).push(
                path.segments@[i as int],
            ));
        }
        segments.push(text);
        i += 1;
    }
    proof {
        let before = segments@;
        assert(views(before.push(last_text)) =~= views(before).push(last_text@));
    }
    segments.push(last_text);
    let mut r = path.prefix.clone();
    r.append(join(&segments, "::").as_str());
    proof {
        reveal_strlit("<");
        reveal_strlit(">");
        reveal_strlit(", ");
        reveal_strlit("::");
        assert(", "@ =~= seq![',', ' ']);
        assert("::"@ =~= seq![':', ':']);
        assert("<"@ =~= seq!['<']);
        assert(">"@ =~= seq!['>']);
        assert(path.segments@.take(n - 1) =~= path.segments@.drop_last());
        assert(views(texts@) =~= result_arguments(*rt).map_values(
            |g: GenericArgument| argument_text(g),
        ).update(1, error_type@));
        assert(views(segments@) =~= path.segments@.drop_last().map_values(
            |s: PathSegment| segment_text(s),
        ).push(last_text@));
    }
    Some(r)
}

} // verus!
