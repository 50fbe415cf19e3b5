use std::fmt;

use error_mancer::expand::{
    expand_function, expand_impl_block, FunctionSpec, ImplMethod, MethodAnnotation, MethodFailure,
    Placement,
};
use error_mancer::naming::{
    enum_name_for_function, enum_name_from_pascal, variant_name_for_path, variant_name_from_pascal,
};
use error_mancer::signature::{
    analyze_return_type, rewrite_return_type, ErrorSlot, ExpandError, GenericArgument,
    PathArguments, PathSegment, PathType, ReturnTypeSyntax, TypeSyntax,
};
use error_mancer::synth::{generate_error_enum, SourcePath};
use error_mancer::text::join;
use error_mancer::ErrorMancerFrom;

fn ty(text: &str) -> GenericArgument {
    GenericArgument::Type(TypeSyntax::Other(text.to_string()), text.to_string())
}

fn infer() -> GenericArgument {
    GenericArgument::Type(TypeSyntax::Infer, "_".to_string())
}

fn named(name: &str) -> GenericArgument {
    GenericArgument::Type(
        TypeSyntax::Path(PathType {
            qualified: false,
            prefix: String::new(),
            segments: vec![segment(name, PathArguments::Plain)],
        }),
        name.to_string(),
    )
}

fn segment(ident: &str, arguments: PathArguments) -> PathSegment {
    PathSegment { ident: ident.to_string(), arguments }
}

fn path(prefix: &str, segments: Vec<PathSegment>) -> ReturnTypeSyntax {
    ReturnTypeSyntax::Type(TypeSyntax::Path(PathType {
        qualified: false,
        prefix: prefix.to_string(),
        segments,
    }))
}

fn result(args: Vec<GenericArgument>) -> ReturnTypeSyntax {
    path("", vec![segment("Result", PathArguments::AngleBracketed(args))])
}

fn source(text: &str) -> SourcePath {
    SourcePath {
        segments: text.split("::").map(|s| s.to_string()).collect(),
        text: text.to_string(),
    }
}

fn function(name: &str, return_type: ReturnTypeSyntax, sources: &[&str]) -> FunctionSpec {
    FunctionSpec {
        name: name.to_string(),
        visibility: String::new(),
        derives: String::new(),
        return_type,
        sources: sources.iter().map(|s| source(s)).collect(),
    }
}

fn error_of(rt: ReturnTypeSyntax) -> ExpandError {
    match analyze_return_type(&rt) {
        Err(e) => e,
        Ok(_) => panic!("expected a diagnostic"),
    }
}

#[test]
fn enum_names_come_from_the_function_name() {
    assert_eq!(enum_name_for_function("parse_byte"), "ParseByteError");
    assert_eq!(enum_name_for_function("foo"), "FooError");
    assert_eq!(enum_name_from_pascal("Foo"), "FooError");
}

#[test]
fn variant_names_drop_one_trailing_error() {
    assert_eq!(variant_name_from_pascal("ParseIntError"), "ParseInt");
    assert_eq!(variant_name_from_pascal("ErrorError"), "Error");
    assert_eq!(variant_name_from_pascal("FooErrorError"), "FooError");
    assert_eq!(variant_name_from_pascal("Error"), "");
    assert_eq!(variant_name_from_pascal("Errors"), "Errors");
    assert_eq!(variant_name_from_pascal("ErrorFoo"), "ErrorFoo");
    let segments = vec!["std".to_string(), "io".to_string(), "Error".to_string()];
    assert_eq!(variant_name_for_path(&segments), "StdIo");
    assert_eq!(variant_name_for_path(&vec!["io".to_string(), "Error".to_string()]), "Io");
    assert_eq!(variant_name_for_path(&vec!["TryFromIntError".to_string()]), "TryFromInt");
    assert_eq!(variant_name_for_path(&vec!["DoubleErrorError".to_string()]), "DoubleError");
}

#[test]
fn join_puts_the_separator_between() {
    assert_eq!(join(&vec![], ", "), "");
    assert_eq!(join(&vec!["a".to_string()], ", "), "a");
    assert_eq!(join(&vec!["a".to_string(), "b".to_string(), "c".to_string()], "::"), "a::b::c");
}

#[test]
fn return_type_diagnostics() {
    assert_eq!(error_of(ReturnTypeSyntax::Default), ExpandError::MissingReturnType);
    assert_eq!(
        error_of(ReturnTypeSyntax::Type(TypeSyntax::Other("(i32, i32)".to_string()))),
        ExpandError::ReturnTypeNotPath
    );
    assert_eq!(error_of(path("", vec![])), ExpandError::MissingPathSegment);
    assert_eq!(
        error_of(path("", vec![segment("Option", PathArguments::AngleBracketed(vec![ty("i32")]))])),
        ExpandError::NotResult
    );
    let nested = GenericArgument::Type(
        TypeSyntax::Path(PathType {
            qualified: false,
            prefix: String::new(),
            segments: vec![segment("Result", PathArguments::AngleBracketed(vec![ty("T"), infer()]))],
        }),
        "Result<T, _>".to_string(),
    );
    assert_eq!(
        error_of(path("", vec![segment("Vec", PathArguments::AngleBracketed(vec![nested]))])),
        ExpandError::NotResult
    );
    assert_eq!(
        error_of(path("", vec![segment("Result", PathArguments::Plain)])),
        ExpandError::MissingGenericArguments
    );
    assert_eq!(error_of(result(vec![])), ExpandError::MissingOkType);
    assert_eq!(
        error_of(result(vec![GenericArgument::Other("'a".to_string())])),
        ExpandError::OkArgumentNotType
    );
}

#[test]
fn error_slot_classification() {
    let a = analyze_return_type(&result(vec![ty("u8"), infer()])).unwrap();
    assert_eq!(a.ok_type, "u8");
    assert!(matches!(a.slot, ErrorSlot::Placeholder));
    let a = analyze_return_type(&result(vec![ty("u8")])).unwrap();
    assert!(matches!(a.slot, ErrorSlot::Absent));
    let a = analyze_return_type(&result(vec![ty("u8"), named("CustomName")])).unwrap();
    assert!(matches!(a.slot, ErrorSlot::Named(ref n) if n == "CustomName"));
    let a = analyze_return_type(&result(vec![ty("u8"), ty("Box<dyn Error>")])).unwrap();
    assert!(matches!(a.slot, ErrorSlot::Opaque));
}

#[test]
fn placeholder_is_substituted_in_place() {
    let rt = path(
        "::",
        vec![
            segment("std", PathArguments::Plain),
            segment("result", PathArguments::Plain),
            segment("Result", PathArguments::AngleBracketed(vec![ty("Vec<u8>"), infer()])),
        ],
    );
    assert_eq!(
        rewrite_return_type(&rt, "FooError").as_deref(),
        Some("::std::result::Result<Vec<u8>, FooError>")
    );
    assert_eq!(rewrite_return_type(&result(vec![ty("T"), named("Custom")]), "FooError"), None);
}

#[test]
fn return_shapes_decide_placement() {
    let x = expand_function(function("foo", result(vec![ty("T"), infer()]), &["Err1"])).unwrap();
    assert_eq!(x.return_type.as_deref(), Some("Result<T, FooError>"));
    assert!(matches!(x.placement, Placement::Adjacent));

    let x = expand_function(function("foo", result(vec![ty("T"), named("CustomName")]), &["Err1"]))
        .unwrap();
    assert_eq!(x.error_enum.name, "CustomName");
    assert_eq!(x.return_type, None);
    assert!(matches!(x.placement, Placement::Adjacent));
    assert_eq!(x.inner_return_type, "-> ::core::result::Result<T, CustomName>");

    let x = expand_function(function("foo", result(vec![ty("T"), ty("Box<dyn Error>")]), &["Err1"]))
        .unwrap();
    assert_eq!(x.error_enum.name, "FooError");
    assert_eq!(x.return_type, None);
    assert!(matches!(x.placement, Placement::Nested));
}

#[test]
fn colliding_or_empty_variant_names_are_refused() {
    let sources = vec![source("ParseError"), source("Parse")];
    let r = generate_error_enum("E".to_string(), String::new(), String::new(), sources);
    assert_eq!(r.err(), Some(ExpandError::DuplicateVariant { first: 0, second: 1 }));
    let sources = vec![source("io::Error"), source("Error")];
    let r = generate_error_enum("E".to_string(), String::new(), String::new(), sources);
    assert_eq!(r.err(), Some(ExpandError::EmptyVariantName { index: 1 }));
    let x = expand_function(function("foo", result(vec![ty("T"), infer()]), &["a::Bad", "b::Bad", "Bad"]))
        .unwrap();
    let names: Vec<&str> = x.error_enum.variants.iter().map(|v| v.name.as_str()).collect();
    assert_eq!(names, vec!["ABad", "BBad", "Bad"]);
    let x = expand_function(function("foo", ReturnTypeSyntax::Default, &["Error"]));
    assert_eq!(x.err(), Some(ExpandError::MissingReturnType));
}

#[test]
fn declaration_text_is_exact() {
    let mut f = function("foo", result(vec![ty("()"), infer()]), &["std::io::Error"]);
    f.visibility = "pub(crate)".to_string();
    f.derives = "#[derive(Clone)]".to_string();
    let x = expand_function(f).unwrap();
    let expected = "#[derive(::core::fmt::Debug)]\n#[derive(Clone)]\npub(crate) enum FooError {\nStdIo(std::io::Error)\n}\n\
impl ::error_mancer::ErrorMancerFrom<std::io::Error> for FooError {\n    fn from(value: std::io::Error) -> Self {\n        Self::StdIo(value)\n    }\n}\n\
impl<T> ::core::convert::From<T> for FooError where Self: ::error_mancer::ErrorMancerFrom<T> {\n    fn from(value: T) -> Self {\n        ::error_mancer::ErrorMancerFrom::from(value)\n    }\n}\n\
impl<T> ::error_mancer::FlattenInto<T> for FooError where T: ::error_mancer::ErrorMancerFrom<std::io::Error> {\n    fn flatten(self) -> T {\n        match self {\n            Self::StdIo(err) => ::error_mancer::ErrorMancerFrom::from(err),\n            _ => ::core::unreachable!(),\n        }\n    }\n}\n\
impl ::core::fmt::Display for FooError {\n    fn fmt(&self, f: &mut ::core::fmt::Formatter<'_>) -> ::core::fmt::Result {\n        match self {\n            Self::StdIo(err) => ::core::fmt::Display::fmt(err, f),\n            _ => ::core::unreachable!(),\n        }\n    }\n}\n\
impl ::core::error::Error for FooError {}\n";
    assert_eq!(x.declaration, expected);
}

#[test]
fn variants_follow_the_sources_in_order() {
    let sources = ["Zeta", "alpha::Beta", "GammaError"];
    let x = expand_function(function("foo", result(vec![ty("()"), infer()]), &sources)).unwrap();
    assert_eq!(x.error_enum.variants.len(), 3);
    for (v, s) in x.error_enum.variants.iter().zip(sources) {
        assert_eq!(v.source.text, s);
    }
    let names: Vec<&str> = x.error_enum.variants.iter().map(|v| v.name.as_str()).collect();
    assert_eq!(names, vec!["Zeta", "AlphaBeta", "Gamma"]);
}

#[test]
fn no_sources_admit_no_conversion() {
    let x = expand_function(function("foo", result(vec![ty("()"), infer()]), &[])).unwrap();
    assert!(x.error_enum.variants.is_empty());
    assert_eq!(x.error_enum.variant_for_source(&source("std::io::Error")), None);
    assert!(x.declaration.contains("enum FooError {\n\n}"));
}

#[test]
fn each_source_selects_its_variant() {
    let x = expand_function(function("foo", result(vec![ty("()"), infer()]), &["A", "m::B", "C"]))
        .unwrap();
    assert_eq!(x.error_enum.variant_for_source(&source("A")), Some(0));
    assert_eq!(x.error_enum.variant_for_source(&source("m::B")), Some(1));
    assert_eq!(x.error_enum.variant_for_source(&source("C")), Some(2));
    assert_eq!(x.error_enum.variant_for_source(&source("B")), None);
}

#[test]
fn impl_block_hoists_adjacent_enums() {
    let methods = vec![
        ImplMethod {
            annotation: MethodAnnotation::List,
            function: function("read", result(vec![ty("u8"), infer()]), &["std::io::Error"]),
        },
        ImplMethod {
            annotation: MethodAnnotation::Unannotated,
            function: function("plain", ReturnTypeSyntax::Default, &[]),
        },
        ImplMethod {
            annotation: MethodAnnotation::Marker,
            function: function("hidden", result(vec![ty("u8"), ty("Box<dyn Error>")]), &[]),
        },
    ];
    let x = expand_impl_block(methods).unwrap();
    assert_eq!(x.methods.len(), 3);
    let read = x.methods[0].as_ref().unwrap();
    assert!(x.methods[1].is_none());
    let hidden = x.methods[2].as_ref().unwrap();
    assert!(matches!(hidden.placement, Placement::Nested));
    assert_eq!(x.hoisted, read.declaration);
}

#[test]
fn impl_block_reports_the_first_failure() {
    let methods = vec![
        ImplMethod {
            annotation: MethodAnnotation::Marker,
            function: function("a", ReturnTypeSyntax::Default, &[]),
        },
        ImplMethod {
            annotation: MethodAnnotation::Malformed,
            function: function("b", result(vec![ty("u8"), infer()]), &[]),
        },
    ];
    assert_eq!(
        expand_impl_block(methods).err(),
        Some(MethodFailure { index: 0, error: ExpandError::MissingReturnType })
    );
    let methods = vec![
        ImplMethod {
            annotation: MethodAnnotation::Unannotated,
            function: function("a", ReturnTypeSyntax::Default, &[]),
        },
        ImplMethod {
            annotation: MethodAnnotation::Malformed,
            function: function("b", result(vec![ty("u8"), infer()]), &[]),
        },
    ];
    assert_eq!(
        expand_impl_block(methods).err(),
        Some(MethodFailure { index: 1, error: ExpandError::MalformedMethodAttribute })
    );
    let methods = vec![
        ImplMethod {
            annotation: MethodAnnotation::List,
            function: function("a", result(vec![ty("u8"), infer()]), &["Parse"]),
        },
        ImplMethod {
            annotation: MethodAnnotation::List,
            function: function("b", result(vec![ty("u8"), infer()]), &["ParseError", "Parse"]),
        },
    ];
    assert_eq!(
        expand_impl_block(methods).err(),
        Some(MethodFailure { index: 1, error: ExpandError::DuplicateVariant { first: 0, second: 1 } })
    );
}

// What a method annotated with `#[errors]` and `Result<i32, _>` inside an
// annotated impl block expands to: an enum without variants.
#[derive(Debug)]
enum MethodError {}

impl<T> From<T> for MethodError
where
    Self: ErrorMancerFrom<T>,
{
    fn from(value: T) -> Self {
        ErrorMancerFrom::from(value)
    }
}

struct Holder;

impl Holder {
    fn method(&self) -> Result<i32, MethodError> {
        Ok((move || -> Result<i32, MethodError> { Ok(7) })()?)
    }
}

#[test]
fn method_without_sources_never_fails() {
    let methods = vec![ImplMethod {
        annotation: MethodAnnotation::Marker,
        function: function("method", result(vec![ty("i32"), infer()]), &[]),
    }];
    let x = expand_impl_block(methods).unwrap();
    let m = x.methods[0].as_ref().unwrap();
    assert_eq!(m.error_enum.name, "MethodError");
    assert!(m.error_enum.variants.is_empty());
    assert_eq!(x.hoisted, m.declaration);
    let value = match Holder.method() {
        Ok(v) => v,
        Err(never) => match never {},
    };
    assert_eq!(value, 7);
}

#[derive(Debug, PartialEq)]
struct ParseError;

#[derive(Debug, PartialEq)]
struct RangeError;

impl fmt::Display for ParseError {
    fn fmt(&self, f: &mut fmt::Formatter<'_>) -> fmt::Result {
        f.write_str("not a number")
    }
}

impl fmt::Display for RangeError {
    fn fmt(&self, f: &mut fmt::Formatter<'_>) -> fmt::Result {
        f.write_str("out of range")
    }
}

// What `#[errors(ParseError, RangeError)] fn parse_byte(s: &str) -> Result<u8, _>`
// expands to.
#[derive(Debug, PartialEq)]
enum ParseByteError {
    Parse(ParseError),
    Range(RangeError),
}

impl ErrorMancerFrom<ParseError> for ParseByteError {
    fn from(value: ParseError) -> Self {
        Self::Parse(value)
    }
}

impl ErrorMancerFrom<RangeError> for ParseByteError {
    fn from(value: RangeError) -> Self {
        Self::Range(value)
    }
}

impl<T> From<T> for ParseByteError
where
    Self: ErrorMancerFrom<T>,
{
    fn from(value: T) -> Self {
        ErrorMancerFrom::from(value)
    }
}

fn parse_byte(s: &str) -> Result<u8, ParseByteError> {
    Ok((move || -> Result<u8, ParseByteError> {
        let wide: u32 = s.parse().map_err(|_| ParseError)?;
        let byte = u8::try_from(wide).map_err(|_| RangeError)?;
        Ok(byte)
    })()?)
}

#[test]
fn parse_byte_scenario() {
    let x = expand_function(function("parse_byte", result(vec![ty("u8"), infer()]), &["ParseError", "RangeError"]))
        .unwrap();
    assert_eq!(x.error_enum.name, "ParseByteError");
    let names: Vec<&str> = x.error_enum.variants.iter().map(|v| v.name.as_str()).collect();
    assert_eq!(names, vec!["Parse", "Range"]);
    assert_eq!(parse_byte("10"), Ok(10));
    assert_eq!(parse_byte("abc"), Err(ParseByteError::Parse(ParseError)));
    assert_eq!(parse_byte("300"), Err(ParseByteError::Range(RangeError)));
}
