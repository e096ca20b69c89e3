use structible::schema::{extract_doc_comments, extract_option_inner, FieldAttr, GenericArg, PathArgs, PathSegment, TypeRepr, TypeShape};
use structible::text::{format_method_doc, to_pascal_case};

fn path_type(text: &str, segments: Vec<PathSegment>) -> TypeRepr {
    TypeRepr { text: text.to_string(), shape: TypeShape::Path { qself: false, segments } }
}

fn segment(ident: &str, args: PathArgs) -> PathSegment {
    PathSegment { ident: ident.to_string(), args }
}

fn plain(name: &str) -> TypeRepr {
    path_type(name, vec![segment(name, PathArgs::Bare)])
}

#[test]
fn test_extract_doc_comments() {
    let attrs: Vec<FieldAttr> = vec![
        FieldAttr::Doc(" First line".to_string()),
        FieldAttr::Doc(" Second line".to_string()),
        FieldAttr::Other("#[some_other_attr]".to_string()),
    ];
    let docs = extract_doc_comments(&attrs);
    assert_eq!(docs, vec![" First line", " Second line"]);
}

#[test]
fn test_extract_doc_comments_empty() {
    let attrs: Vec<FieldAttr> = vec![FieldAttr::Other("#[some_attr]".to_string())];
    let docs = extract_doc_comments(&attrs);
    assert!(docs.is_empty());
}

#[test]
fn test_format_method_doc_no_field_docs() {
    let result = format_method_doc("Auto doc.", &vec![]);
    assert_eq!(result, "Auto doc.");
}

#[test]
fn test_format_method_doc_with_field_docs() {
    let field_docs = vec![
        " Field doc line 1".to_string(),
        " Field doc line 2".to_string(),
    ];
    let result = format_method_doc("Auto doc.", &field_docs);
    let expected_doc =
        "Auto doc.\n\n## Field Documentation\n Field doc line 1\n Field doc line 2";
    assert_eq!(result, expected_doc);
}

#[test]
fn test_to_pascal_case() {
    let result = to_pascal_case("foo_bar_baz");
    assert_eq!(result, "FooBarBaz");
}

#[test]
fn test_to_pascal_case_raw_identifier() {
    let result = to_pascal_case("r#type");
    assert_eq!(result, "Type");
}

#[test]
fn test_extract_option_inner() {
    let ty = path_type(
        "Option<String>",
        vec![segment("Option", PathArgs::Angle(vec![GenericArg::Type(plain("String"))]))],
    );
    let inner = extract_option_inner(&ty);
    assert!(inner.is_some());

    let ty = plain("String");
    let inner = extract_option_inner(&ty);
    assert!(inner.is_none());
}

#[test]
fn pascal_case_drops_repeated_and_leading_underscores() {
    assert_eq!(to_pascal_case("_foo__bar"), "FooBar");
    assert_eq!(to_pascal_case("x"), "X");
    assert_eq!(to_pascal_case(""), "");
}

#[test]
fn option_inner_needs_exactly_one_type_argument() {
    let qualified = path_type(
        "std::option::Option<u8>",
        vec![
            segment("std", PathArgs::Bare),
            segment("option", PathArgs::Bare),
            segment("Option", PathArgs::Angle(vec![GenericArg::Type(plain("u8"))])),
        ],
    );
    assert!(extract_option_inner(&qualified).is_none());
    let bare_option = plain("Option");
    assert!(extract_option_inner(&bare_option).is_none());
    let lifetime_arg = path_type(
        "Option<'a>",
        vec![segment("Option", PathArgs::Angle(vec![GenericArg::Other]))],
    );
    assert!(extract_option_inner(&lifetime_arg).is_none());
    let inner = extract_option_inner(&path_type(
        "Option<u8>",
        vec![segment("Option", PathArgs::Angle(vec![GenericArg::Type(plain("u8"))]))],
    ))
    .map(|t| t.text.clone());
    assert_eq!(inner, Some("u8".to_string()));
}

#[test]
fn camel_join_uses_the_given_upper_case_forms() {
    use_camel_join();
}

fn use_camel_join() {
    let uppers: Vec<String> = vec!["X".to_string(); 7];
    assert_eq!(structible::text::camel_case_with("foo_bar", &uppers), "XooXar");
    let short: Vec<String> = vec!["Q".to_string()];
    assert_eq!(structible::text::camel_case_with("ab_cd", &short), "Qbcd");
}
