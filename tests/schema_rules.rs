use structible::codegen::{accessor_doc, compose, structible, MethodKind};
use structible::schema::{
    parse_field_config, parse_struct_fields, AttrItem, ConfigArg, FieldAttr, FieldDecl, FieldInfo,
    GenericArg, PathArgs, PathSegment, StructDecl, StructFields, TypeRepr, TypeShape,
};
use structible::{SchemaError, StructibleConfig};

fn path_type(text: &str, segments: Vec<PathSegment>) -> TypeRepr {
    TypeRepr { text: text.to_string(), shape: TypeShape::Path { qself: false, segments } }
}

fn plain(name: &str) -> TypeRepr {
    path_type(name, vec![PathSegment { ident: name.to_string(), args: PathArgs::Bare }])
}

fn option_of(inner: &str) -> TypeRepr {
    path_type(
        &format!("Option<{}>", inner),
        vec![PathSegment {
            ident: "Option".to_string(),
            args: PathArgs::Angle(vec![GenericArg::Type(plain(inner))]),
        }],
    )
}

fn item(key: &str, value: Option<TypeRepr>) -> AttrItem {
    AttrItem { key: key.to_string(), value }
}

fn field(name: &str, ty: TypeRepr, attrs: Vec<FieldAttr>) -> FieldDecl {
    FieldDecl { name: Some(name.to_string()), ty, vis: "pub".to_string(), attrs }
}

fn catch_all(name: &str, ty: TypeRepr) -> FieldDecl {
    field(name, ty, vec![FieldAttr::Structible(vec![item("key", Some(plain("String")))])])
}

fn person_decl() -> StructDecl {
    StructDecl {
        name: "Person".to_string(),
        fields: StructFields::Named(vec![
            field("name", plain("String"), vec![]),
            field("age", plain("u32"), vec![]),
            field("email", option_of("String"), vec![]),
        ]),
    }
}

fn names(fields: &[FieldInfo]) -> Vec<String> {
    fields.iter().map(|f| f.name.clone()).collect()
}

#[test]
fn config_defaults_to_hash_map() {
    let config = StructibleConfig::parse(vec![]).unwrap();
    assert_eq!(config.backing.ty.text, "::std::collections::HashMap");
    assert_eq!(config.constructor, None);
    assert!(!config.with_len && !config.no_clone && !config.no_partial_eq);
}

#[test]
fn config_shorthand_names_the_container() {
    let config = StructibleConfig::parse(vec![ConfigArg::Word(plain("BTreeMap"))]).unwrap();
    assert_eq!(config.backing.ty.text, "BTreeMap");
}

#[test]
fn config_reads_named_arguments_and_flags() {
    let config = StructibleConfig::parse(vec![
        ConfigArg::Assign("backing".to_string(), plain("MyMap")),
        ConfigArg::Assign("constructor".to_string(), plain("create")),
        ConfigArg::Word(plain("with_len")),
        ConfigArg::Word(plain("no_clone")),
    ])
    .unwrap();
    assert_eq!(config.backing.ty.text, "MyMap");
    assert_eq!(config.constructor, Some("create".to_string()));
    assert!(config.with_len && config.no_clone && !config.no_partial_eq);
}

#[test]
fn config_single_flag_is_not_a_container() {
    let config = StructibleConfig::parse(vec![ConfigArg::Word(plain("no_partial_eq"))]).unwrap();
    assert!(config.no_partial_eq);
    assert_eq!(config.backing.ty.text, "::std::collections::HashMap");
}

#[test]
fn config_rejects_unknown_arguments() {
    let err = StructibleConfig::parse(vec![
        ConfigArg::Word(plain("with_len")),
        ConfigArg::Word(plain("HashMap")),
    ])
    .unwrap_err();
    assert_eq!(err, SchemaError::UnknownAttribute("HashMap".to_string()));
    let err = StructibleConfig::parse(vec![ConfigArg::Assign("colour".to_string(), plain("Red"))])
        .unwrap_err();
    assert_eq!(err, SchemaError::UnknownAttribute("colour".to_string()));
}

#[test]
fn config_constructor_must_be_an_identifier() {
    let err = StructibleConfig::parse(vec![ConfigArg::Assign(
        "constructor".to_string(),
        option_of("u8"),
    )])
    .unwrap_err();
    assert_eq!(err, SchemaError::ConstructorNotIdent);
}

#[test]
fn field_config_reads_renames_and_key() {
    let config = parse_field_config(vec![
        item("get", Some(plain("full_name"))),
        item("set", Some(plain("rename"))),
        item("key", Some(plain("String"))),
    ])
    .unwrap();
    assert_eq!(config.get, Some("full_name".to_string()));
    assert_eq!(config.set, Some("rename".to_string()));
    assert_eq!(config.get_mut, None);
    assert_eq!(config.unknown_key.map(|t| t.text), Some("String".to_string()));
}

#[test]
fn field_config_errors() {
    assert_eq!(
        parse_field_config(vec![item("colour", None)]).unwrap_err(),
        SchemaError::UnknownFieldAttribute("colour".to_string())
    );
    assert_eq!(
        parse_field_config(vec![item("get", None)]).unwrap_err(),
        SchemaError::MissingValue("get".to_string())
    );
    assert_eq!(
        parse_field_config(vec![item("remove", Some(option_of("u8")))]).unwrap_err(),
        SchemaError::ExpectedIdent("remove".to_string())
    );
}

#[test]
fn struct_shapes_without_named_fields_are_rejected() {
    let tuple = StructDecl { name: "T".to_string(), fields: StructFields::Tuple };
    assert_eq!(parse_struct_fields(tuple).unwrap_err(), SchemaError::TupleStruct);
    let unit = StructDecl { name: "U".to_string(), fields: StructFields::Unit };
    assert_eq!(parse_struct_fields(unit).unwrap_err(), SchemaError::UnitStruct);
    let unnamed = StructDecl {
        name: "N".to_string(),
        fields: StructFields::Named(vec![FieldDecl {
            name: None,
            ty: plain("u8"),
            vis: String::new(),
            attrs: vec![],
        }]),
    };
    assert_eq!(parse_struct_fields(unnamed).unwrap_err(), SchemaError::UnnamedField);
}

#[test]
fn fields_are_classified_in_order() {
    let fields = parse_struct_fields(person_decl()).unwrap();
    assert_eq!(names(&fields), vec!["name", "age", "email"]);
    assert_eq!(
        fields.iter().map(|f| f.is_optional).collect::<Vec<_>>(),
        vec![false, false, true]
    );
    assert_eq!(fields[2].inner_ty().text, "String");
    assert_eq!(fields[0].inner_ty().text, "String");
    assert!(!fields[2].is_unknown_field());
}

#[test]
fn kept_attributes_leave_out_the_structible_ones() {
    let decl = StructDecl {
        name: "S".to_string(),
        fields: StructFields::Named(vec![field(
            "a",
            plain("u8"),
            vec![
                FieldAttr::Doc(" doc".to_string()),
                FieldAttr::Structible(vec![item("get", Some(plain("first")))]),
                FieldAttr::Other("#[allow(dead_code)]".to_string()),
            ],
        )]),
    };
    let fields = parse_struct_fields(decl).unwrap();
    assert_eq!(fields[0].attrs.len(), 2);
    assert_eq!(fields[0].config.get, Some("first".to_string()));
}

#[test]
fn more_than_one_catch_all_is_rejected() {
    let decl = StructDecl {
        name: "S".to_string(),
        fields: StructFields::Named(vec![
            catch_all("a", option_of("String")),
            catch_all("b", option_of("String")),
        ]),
    };
    assert_eq!(parse_struct_fields(decl).unwrap_err(), SchemaError::MultipleCatchAll);
}

#[test]
fn catch_all_must_be_optional() {
    let decl = StructDecl {
        name: "S".to_string(),
        fields: StructFields::Named(vec![
            field("name", plain("String"), vec![]),
            catch_all("extra", plain("String")),
        ]),
    };
    assert_eq!(
        parse_struct_fields(decl).unwrap_err(),
        SchemaError::CatchAllMustBeOptional("extra".to_string())
    );
}

#[test]
fn colliding_variant_names_are_rejected() {
    let decl = StructDecl {
        name: "S".to_string(),
        fields: StructFields::Named(vec![
            field("foo_bar", plain("u8"), vec![]),
            field("foo__bar", plain("u8"), vec![]),
        ]),
    };
    assert_eq!(
        parse_struct_fields(decl).unwrap_err(),
        SchemaError::VariantCollision("foo_bar".to_string(), "foo__bar".to_string())
    );
}

#[test]
fn composed_names_drop_the_raw_prefix() {
    assert_eq!(compose("set_", "r#type", ""), "set_type");
    assert_eq!(compose("", "extra", "_iter"), "extra_iter");
}

#[test]
fn person_expansion() {
    let x = structible(vec![], person_decl()).unwrap();
    assert_eq!(x.field_enum.name, "__StructibleField_Person");
    assert_eq!(x.value_enum.name, "__StructibleValue_Person");
    assert_eq!(x.field_enum.variants, vec!["Name", "Age", "Email"]);
    assert_eq!(x.field_enum.fields, vec![0, 1, 2]);
    assert_eq!(x.field_enum.catch_all, None);
    assert_eq!(x.fields_struct.name, "PersonFields");
    assert_eq!(x.constructor.name, "new");
    assert_eq!(x.constructor.params, vec![0, 1]);
    assert!(!x.default_impl);
    assert_eq!(x.debug.label, "Person");
    assert_eq!(x.fields_debug.label, "PersonFields");
    assert!(x.record.derive_clone && x.record.derive_partial_eq);
    let method_names: Vec<&str> = x.methods.iter().map(|m| m.name.as_str()).collect();
    assert_eq!(
        method_names,
        vec![
            "name", "age", "email", "name_mut", "age_mut", "email_mut", "set_name", "set_age",
            "set_email", "remove_email", "into_fields"
        ]
    );
    assert_eq!(x.methods[2].kind, MethodKind::GetOptional);
    assert_eq!(x.methods[0].kind, MethodKind::Get);
    assert_eq!(x.methods[9].kind, MethodKind::Remove);
    assert_eq!(x.methods[9].field, Some(2));
    let take_names: Vec<&str> = x.fields_methods.iter().map(|m| m.name.as_str()).collect();
    assert_eq!(take_names, vec!["take_name", "take_age", "take_email"]);
}

#[test]
fn catch_all_expansion() {
    let decl = StructDecl {
        name: "Person".to_string(),
        fields: StructFields::Named(vec![
            field("name", plain("String"), vec![]),
            catch_all("extra", option_of("String")),
        ]),
    };
    let x = structible(
        vec![ConfigArg::Word(plain("with_len")), ConfigArg::Word(plain("no_clone"))],
        decl,
    )
    .unwrap();
    assert_eq!(x.field_enum.variants, vec!["Name"]);
    assert_eq!(x.field_enum.catch_all, Some(1));
    assert!(x.debug.with_unknown);
    assert!(!x.record.derive_clone && x.record.derive_partial_eq);
    let method_names: Vec<&str> = x.methods.iter().map(|m| m.name.as_str()).collect();
    assert_eq!(
        method_names,
        vec![
            "name", "name_mut", "set_name", "into_fields", "add_extra", "extra", "extra_mut",
            "remove_extra", "extra_iter", "len", "is_empty"
        ]
    );
    let companion: Vec<&str> = x.fields_methods.iter().map(|m| m.name.as_str()).collect();
    assert_eq!(companion, vec!["take_name", "take_extra", "extra_iter", "drain_extra"]);
}

#[test]
fn default_only_where_every_field_is_optional() {
    let all_optional = StructDecl {
        name: "AllOptional".to_string(),
        fields: StructFields::Named(vec![
            field("first", option_of("String"), vec![]),
            catch_all("extra", option_of("String")),
        ]),
    };
    let x = structible(vec![], all_optional).unwrap();
    assert!(x.default_impl);
    assert!(x.constructor.params.is_empty());
    let one_required = StructDecl {
        name: "One".to_string(),
        fields: StructFields::Named(vec![field("id", plain("u64"), vec![])]),
    };
    let y = structible(vec![], one_required).unwrap();
    assert!(!y.default_impl);
    assert_eq!(y.constructor.params, vec![0]);
}

#[test]
fn renamed_accessors_and_constructor() {
    let decl = StructDecl {
        name: "Item".to_string(),
        fields: StructFields::Named(vec![field(
            "label",
            option_of("String"),
            vec![FieldAttr::Structible(vec![
                item("get", Some(plain("title"))),
                item("remove", Some(plain("clear_title"))),
            ])],
        )]),
    };
    let x = structible(
        vec![ConfigArg::Assign("constructor".to_string(), plain("create"))],
        decl,
    )
    .unwrap();
    assert_eq!(x.constructor.name, "create");
    let method_names: Vec<&str> = x.methods.iter().map(|m| m.name.as_str()).collect();
    assert_eq!(
        method_names,
        vec!["title", "label_mut", "set_label", "clear_title", "into_fields"]
    );
}

#[test]
fn expansion_reports_the_first_error() {
    let err = structible(vec![ConfigArg::Word(plain("with_len")), ConfigArg::Word(plain("bogus"))], person_decl())
        .unwrap_err();
    assert_eq!(err, SchemaError::UnknownAttribute("bogus".to_string()));
    let err = structible(vec![], StructDecl { name: "T".to_string(), fields: StructFields::Tuple })
        .unwrap_err();
    assert_eq!(err, SchemaError::TupleStruct);
}

#[test]
fn raw_identifier_names_are_planned() {
    let decl = StructDecl {
        name: "WithRawIdentifiers".to_string(),
        fields: StructFields::Named(vec![
            field("r#type", plain("String"), vec![]),
            field("r#match", option_of("i32"), vec![]),
        ]),
    };
    let x = structible(vec![], decl).unwrap();
    assert_eq!(x.field_enum.variants, vec!["Type", "Match"]);
    let method_names: Vec<&str> = x.methods.iter().map(|m| m.name.as_str()).collect();
    assert_eq!(
        method_names,
        vec![
            "r#type", "r#match", "type_mut", "match_mut", "set_type", "set_match",
            "remove_match", "into_fields"
        ]
    );
    let take_names: Vec<&str> = x.fields_methods.iter().map(|m| m.name.as_str()).collect();
    assert_eq!(take_names, vec!["take_type", "take_match"]);
}

#[test]
fn accessor_docs_name_the_field_and_append_its_doc() {
    let doc = accessor_doc(MethodKind::Get, "r#type", &vec![" The kind.".to_string()]);
    assert_eq!(
        doc,
        Some("Returns a reference to the `type` value.\n\n## Field Documentation\n The kind.".to_string())
    );
    assert_eq!(
        accessor_doc(MethodKind::SetOptional, "email", &vec![]),
        Some("Sets the `email` value.".to_string())
    );
    assert_eq!(accessor_doc(MethodKind::Len, "email", &vec![]), None);
}
