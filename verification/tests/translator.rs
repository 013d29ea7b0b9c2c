use fsharp_definitions::annotations::{Annotation, DirectiveEntry};
use fsharp_definitions::attrs::{turbofish_check, Attrs};
use fsharp_definitions::emit::{translate_all, translate_single, DeclBody};
use fsharp_definitions::errors::{Ctxt, ErrorKind};
use fsharp_definitions::model::{FieldDef, Shape, TypeDef, VariantDef, VariantKind};
use fsharp_definitions::render::{render_decl, render_decls};
use fsharp_definitions::types::{check_target_type, parse_src_type, SrcType};

fn named(n: &str) -> SrcType {
    SrcType::Named(n.to_string(), Vec::new())
}

fn named_args(n: &str, args: Vec<SrcType>) -> SrcType {
    SrcType::Named(n.to_string(), args)
}

fn field(name: &str, ty: SrcType) -> FieldDef {
    FieldDef { name: Some(name.to_string()), ty, annots: Vec::new() }
}

fn field_with(name: &str, ty: SrcType, annots: Vec<Annotation>) -> FieldDef {
    FieldDef { name: Some(name.to_string()), ty, annots }
}

fn kv(k: &str, v: &str) -> DirectiveEntry {
    DirectiveEntry::KeyValue(k.to_string(), v.to_string())
}

fn point_def() -> TypeDef {
    TypeDef {
        name: "Point".to_string(),
        generics: Vec::new(),
        annots: Vec::new(),
        shape: Shape::NamedFields(vec![
            field("x", named("int")),
            field("y", named("int")),
            field("z", named("int")),
        ]),
    }
}

#[test]
fn point_struct_declaration() {
    let defs = vec![point_def()];
    let mut ctxt = Ctxt::new();
    let session = translate_all(&defs, &mut ctxt);
    assert_eq!(ctxt.error_count(), 0);
    assert_eq!(session.decls.len(), 1);
    let text = render_decl(&session.decls[0]);
    assert_eq!(
        text,
        "export type Point = {\n  x: number;\n  y: number;\n  z: number;\n};"
    );
}

#[test]
fn field_order_is_preserved() {
    let defs = vec![point_def()];
    let mut ctxt = Ctxt::new();
    let session = translate_all(&defs, &mut ctxt);
    match &session.decls[0].body {
        DeclBody::Record(fields) => {
            let names: Vec<&str> = fields.iter().map(|f| f.name.as_str()).collect();
            assert_eq!(names, vec!["x", "y", "z"]);
        }
        _ => panic!("expected a record body"),
    }
}

#[test]
fn enum_declaration_mirrors_wire_tagging() {
    let defs = vec![TypeDef {
        name: "FrontendMessage".to_string(),
        generics: Vec::new(),
        annots: Vec::new(),
        shape: Shape::Enum(vec![
            VariantDef {
                name: "Idle".to_string(),
                annots: Vec::new(),
                kind: VariantKind::Unit,
            },
            VariantDef {
                name: "Render".to_string(),
                annots: Vec::new(),
                kind: VariantKind::Tuple(vec![named("String")]),
            },
            VariantDef {
                name: "ButtonState".to_string(),
                annots: Vec::new(),
                kind: VariantKind::Struct(vec![
                    (
                        "selected".to_string(),
                        named_args("Vec", vec![named("String")]),
                    ),
                    ("time".to_string(), named("int")),
                ]),
            },
        ]),
    }];
    let mut ctxt = Ctxt::new();
    let session = translate_all(&defs, &mut ctxt);
    assert_eq!(ctxt.error_count(), 0);
    let text = render_decl(&session.decls[0]);
    assert_eq!(
        text,
        "export type FrontendMessage = \"Idle\" | { Render: string } | { ButtonState: { selected: string[]; time: number } };"
    );
}

#[test]
fn fs_type_override_is_verbatim() {
    let annots = vec![Annotation::Directive(vec![kv("fs_type", "MySpecialType")])];
    let defs = vec![TypeDef {
        name: "Holder".to_string(),
        generics: Vec::new(),
        annots: Vec::new(),
        shape: Shape::NamedFields(vec![field_with("inner", named("u64"), annots)]),
    }];
    let mut ctxt = Ctxt::new();
    let session = translate_all(&defs, &mut ctxt);
    assert_eq!(ctxt.error_count(), 0);
    match &session.decls[0].body {
        DeclBody::Record(fields) => {
            assert_eq!(fields[0].ty, "MySpecialType");
        }
        _ => panic!("expected a record body"),
    }
}

#[test]
fn malformed_fs_type_is_reported_against_field() {
    let annots = vec![Annotation::Directive(vec![kv("fs_type", "123-not-a-type")])];
    let defs = vec![TypeDef {
        name: "Holder".to_string(),
        generics: Vec::new(),
        annots: Vec::new(),
        shape: Shape::NamedFields(vec![field_with("flag", named("u64"), annots)]),
    }];
    let mut ctxt = Ctxt::new();
    let session = translate_all(&defs, &mut ctxt);
    assert_eq!(session.decls.len(), 1);
    let errors = ctxt.into_errors();
    assert_eq!(errors.len(), 1);
    assert_eq!(errors[0].kind, ErrorKind::MalformedDirectiveValue);
    assert_eq!(errors[0].site, "flag");
    assert_eq!(
        errors[0].detail,
        "fs_type: \"123-not-a-type\" is not a valid type"
    );
}

#[test]
fn ts_as_redirects_the_mapper() {
    let annots = vec![Annotation::Directive(vec![kv("ts_as", "Vec<String>")])];
    let defs = vec![TypeDef {
        name: "Holder".to_string(),
        generics: Vec::new(),
        annots: Vec::new(),
        shape: Shape::NamedFields(vec![field_with("items", named("u64"), annots)]),
    }];
    let mut ctxt = Ctxt::new();
    let session = translate_all(&defs, &mut ctxt);
    assert_eq!(ctxt.error_count(), 0);
    match &session.decls[0].body {
        DeclBody::Record(fields) => assert_eq!(fields[0].ty, "string[]"),
        _ => panic!("expected a record body"),
    }
}

#[test]
fn invalid_ts_as_is_reported() {
    let annots = vec![Annotation::Directive(vec![kv("ts_as", "not a type!")])];
    let mut ctxt = Ctxt::new();
    let f = field_with("x", named("u64"), annots);
    let _ = Attrs::from_field(&f, &mut ctxt);
    let errors = ctxt.into_errors();
    assert_eq!(errors.len(), 1);
    assert_eq!(errors[0].kind, ErrorKind::MalformedDirectiveValue);
    assert_eq!(errors[0].detail, "ts_as: \"not a type!\" is not a valid rust type");
}

#[test]
fn unsupported_type_option_is_reported() {
    let annots = vec![Annotation::Directive(vec![kv("bogus", "x")])];
    let mut ctxt = Ctxt::new();
    let mut attrs = Attrs::new();
    attrs.push_attrs(&"Widget".to_string(), &annots, &mut ctxt);
    let errors = ctxt.into_errors();
    assert_eq!(errors.len(), 1);
    assert_eq!(errors[0].kind, ErrorKind::UnsupportedDirective);
    assert_eq!(errors[0].site, "Widget");
    assert_eq!(errors[0].detail, "unsupported option: bogus = \"x\"");
}

#[test]
fn unsupported_bare_key_and_key_list_are_rendered() {
    let annots = vec![Annotation::Directive(vec![
        DirectiveEntry::Key("flag".to_string()),
        DirectiveEntry::KeyList("opts".to_string()),
    ])];
    let mut ctxt = Ctxt::new();
    let mut attrs = Attrs::new();
    attrs.push_attrs(&"Widget".to_string(), &annots, &mut ctxt);
    let errors = ctxt.into_errors();
    assert_eq!(errors.len(), 2);
    assert_eq!(errors[0].detail, "unsupported option: flag");
    assert_eq!(errors[1].detail, "unsupported option: opts(...)");
}

#[test]
fn malformed_namespace_contents_are_reported() {
    let annots = vec![
        Annotation::MalformedDirective("fs(".to_string()),
        Annotation::Directive(vec![DirectiveEntry::Lit("42".to_string())]),
    ];
    let mut ctxt = Ctxt::new();
    let mut attrs = Attrs::new();
    attrs.push_attrs(&"Widget".to_string(), &annots, &mut ctxt);
    let errors = ctxt.into_errors();
    assert_eq!(errors.len(), 2);
    assert_eq!(errors[0].kind, ErrorKind::MalformedAttributeSyntax);
    assert_eq!(errors[0].detail, "invalid fsharp syntax: fs(");
    assert_eq!(errors[1].kind, ErrorKind::MalformedAttributeSyntax);
    assert_eq!(errors[1].detail, "invalid fsharp syntax: 42");
}

#[test]
fn duplicate_directive_keeps_first_value_and_reports() {
    let annots = vec![Annotation::Directive(vec![
        kv("handler_name", "First"),
        kv("handler_name", "Second"),
    ])];
    let mut ctxt = Ctxt::new();
    let mut attrs = Attrs::new();
    attrs.push_attrs(&"Widget".to_string(), &annots, &mut ctxt);
    assert_eq!(attrs.ts_handler_name.as_deref(), Some("First"));
    let errors = ctxt.into_errors();
    assert_eq!(errors.len(), 1);
    assert_eq!(errors[0].detail, "duplicate option: handler_name");
}

#[test]
fn type_level_directives_are_stored() {
    let annots = vec![Annotation::Directive(vec![
        kv("handler_name", "HandleFooBar"),
        kv("handler_return", "boolean"),
        kv("factory_name", "FooBar"),
        kv("factory_return_name", "FooBarOut"),
    ])];
    let mut ctxt = Ctxt::new();
    let mut attrs = Attrs::new();
    attrs.push_attrs(&"Widget".to_string(), &annots, &mut ctxt);
    assert_eq!(ctxt.error_count(), 0);
    assert_eq!(attrs.ts_handler_name.as_deref(), Some("HandleFooBar"));
    assert_eq!(attrs.ts_handler_return.as_deref(), Some("boolean"));
    assert_eq!(attrs.ts_factory_name.as_deref(), Some("FooBar"));
    assert_eq!(attrs.ts_factory_return_name.as_deref(), Some("FooBarOut"));
}

#[test]
fn two_doc_contributions_insert_one_blank_line() {
    let mut attrs = Attrs::new();
    attrs.push_doc_comment(&vec![Annotation::Doc("/// first".to_string())]);
    attrs.push_doc_comment(&vec![Annotation::Doc("/// second".to_string())]);
    let text = attrs.to_comment_source().build();
    assert_eq!(text, "/// first\n///\n/// second");
}

#[test]
fn doc_markers_are_stripped_and_blanks_dropped() {
    let annots = vec![
        Annotation::Doc("///  hello world ".to_string()),
        Annotation::Doc("//!".to_string()),
        Annotation::Doc("/** block */".to_string()),
        Annotation::Other,
    ];
    let attrs = Attrs::from_variant(&VariantDef {
        name: "V".to_string(),
        annots,
        kind: VariantKind::Unit,
    });
    let text = attrs.to_comment_source().build();
    assert_eq!(text, "/// hello world\n/// block");
}

#[test]
fn recursive_types_emit_once_each() {
    let a = TypeDef {
        name: "Alpha".to_string(),
        generics: Vec::new(),
        annots: Vec::new(),
        shape: Shape::NamedFields(vec![field("next", named("Beta")), field("me", named("Alpha"))]),
    };
    let b = TypeDef {
        name: "Beta".to_string(),
        generics: Vec::new(),
        annots: Vec::new(),
        shape: Shape::NamedFields(vec![field("back", named("Alpha"))]),
    };
    let defs = vec![a, b];
    let mut ctxt = Ctxt::new();
    let session = translate_all(&defs, &mut ctxt);
    assert_eq!(session.emitted, vec!["Alpha".to_string(), "Beta".to_string()]);
    assert_eq!(session.decls.len(), 2);
    assert!(session.references.contains(&"Beta".to_string()));
    assert!(session.references.contains(&"Alpha".to_string()));
}

#[test]
fn duplicate_definition_names_emit_once() {
    let defs = vec![point_def(), point_def()];
    let mut ctxt = Ctxt::new();
    let session = translate_all(&defs, &mut ctxt);
    assert_eq!(session.decls.len(), 1);
    assert_eq!(session.emitted, vec!["Point".to_string()]);
}

#[test]
fn duplicate_names_keep_the_first_shape() {
    let defs = vec![
        TypeDef {
            name: "Dup".to_string(),
            generics: Vec::new(),
            annots: Vec::new(),
            shape: Shape::Unit,
        },
        TypeDef {
            name: "Dup".to_string(),
            generics: Vec::new(),
            annots: Vec::new(),
            shape: Shape::NamedFields(vec![field("x", named("u8"))]),
        },
    ];
    let mut ctxt = Ctxt::new();
    let session = translate_all(&defs, &mut ctxt);
    assert_eq!(session.decls.len(), 1);
    assert_eq!(render_decl(&session.decls[0]), "export type Dup = null;");
}

#[test]
fn generics_substitute_by_name() {
    let defs = vec![TypeDef {
        name: "Pair".to_string(),
        generics: vec!["T".to_string()],
        annots: Vec::new(),
        shape: Shape::NamedFields(vec![
            field("left", named("T")),
            field("right", named_args("Option", vec![named("T")])),
        ]),
    }];
    let mut ctxt = Ctxt::new();
    let session = translate_all(&defs, &mut ctxt);
    let text = render_decl(&session.decls[0]);
    assert_eq!(
        text,
        "export type Pair<T> = {\n  left: T;\n  right: (T | null);\n};"
    );
}

#[test]
fn containers_map_to_target_shapes() {
    let defs = vec![TypeDef {
        name: "Bag".to_string(),
        generics: Vec::new(),
        annots: Vec::new(),
        shape: Shape::NamedFields(vec![
            field("names", named_args("Vec", vec![named("String")])),
            field(
                "scores",
                named_args("HashMap", vec![named("String"), named("u32")]),
            ),
            field("maybe", named_args("Option", vec![named("bool")])),
            field("pair", SrcType::Tuple(vec![named("u8"), named("String")])),
            field("unit", SrcType::Tuple(Vec::new())),
        ]),
    }];
    let mut ctxt = Ctxt::new();
    let session = translate_all(&defs, &mut ctxt);
    assert_eq!(ctxt.error_count(), 0);
    match &session.decls[0].body {
        DeclBody::Record(fields) => {
            assert_eq!(fields[0].ty, "string[]");
            assert_eq!(fields[1].ty, "{ [key: string]: number }");
            assert_eq!(fields[2].ty, "(boolean | null)");
            assert_eq!(fields[3].ty, "[number, string]");
            assert_eq!(fields[4].ty, "null");
        }
        _ => panic!("expected a record body"),
    }
}

#[test]
fn tuple_struct_and_unit_struct_bodies() {
    let defs = vec![
        TypeDef {
            name: "Wrapper".to_string(),
            generics: Vec::new(),
            annots: Vec::new(),
            shape: Shape::TupleFields(vec![FieldDef {
                name: None,
                ty: named("i32"),
                annots: Vec::new(),
            }]),
        },
        TypeDef {
            name: "Nothing".to_string(),
            generics: Vec::new(),
            annots: Vec::new(),
            shape: Shape::Unit,
        },
    ];
    let mut ctxt = Ctxt::new();
    let session = translate_all(&defs, &mut ctxt);
    let text = render_decls(&session.decls);
    assert_eq!(
        text,
        "export type Wrapper = [number];\n\nexport type Nothing = null;"
    );
}

#[test]
fn doc_comment_precedes_declaration() {
    let defs = vec![TypeDef {
        name: "Documented".to_string(),
        generics: Vec::new(),
        annots: vec![Annotation::Doc("/// a documented type".to_string())],
        shape: Shape::Unit,
    }];
    let mut ctxt = Ctxt::new();
    let session = translate_all(&defs, &mut ctxt);
    let text = render_decl(&session.decls[0]);
    assert_eq!(text, "/// a documented type\nexport type Documented = null;");
}

#[test]
fn target_type_text_check() {
    assert!(check_target_type("number"));
    assert!(check_target_type("Map<string, number>"));
    assert!(check_target_type("string[]"));
    assert!(check_target_type("{ [key: string]: number }"));
    assert!(!check_target_type("123-not-a-type"));
    assert!(!check_target_type("a<b"));
    assert!(!check_target_type(""));
    assert!(!check_target_type("   "));
    assert!(!check_target_type("a>b<"));
}

#[test]
fn source_type_parser_accepts_and_rejects() {
    assert!(parse_src_type("Vec<String>").is_some());
    assert!(parse_src_type(" HashMap < String , u32 > ").is_some());
    assert!(parse_src_type("(u8, String)").is_some());
    assert!(parse_src_type("()").is_some());
    assert!(parse_src_type("std::path::PathBuf").is_some());
    assert!(parse_src_type(" a :: b ").is_some());
    assert!(parse_src_type("Vec<std::string::String>").is_some());
    assert!(parse_src_type("").is_none());
    assert!(parse_src_type("Vec<").is_none());
    assert!(parse_src_type("123").is_none());
    assert!(parse_src_type("a b").is_none());
    assert!(parse_src_type("a::").is_none());
}

#[test]
fn qualified_path_passes_through_the_mapper() {
    let annots = vec![Annotation::Directive(vec![kv("ts_as", "std::string::String")])];
    let defs = vec![TypeDef {
        name: "Holder".to_string(),
        generics: Vec::new(),
        annots: Vec::new(),
        shape: Shape::NamedFields(vec![field_with("raw", named("u64"), annots)]),
    }];
    let mut ctxt = Ctxt::new();
    let session = translate_all(&defs, &mut ctxt);
    assert_eq!(ctxt.error_count(), 0);
    match &session.decls[0].body {
        DeclBody::Record(fields) => assert_eq!(fields[0].ty, "std::string::String"),
        _ => panic!("expected a record body"),
    }
}

#[test]
fn translate_single_returns_declaration_or_errors() {
    let ok = translate_single(&point_def());
    assert!(ok.is_ok());
    let bad = TypeDef {
        name: "Holder".to_string(),
        generics: Vec::new(),
        annots: Vec::new(),
        shape: Shape::NamedFields(vec![field_with(
            "flag",
            named("u64"),
            vec![Annotation::Directive(vec![kv("fs_type", "123-not-a-type")])],
        )]),
    };
    let errs = match translate_single(&bad) {
        Ok(_) => panic!("a malformed override must be reported"),
        Err(errs) => errs,
    };
    assert_eq!(errs.len(), 1);
    assert_eq!(errs[0].kind, ErrorKind::MalformedDirectiveValue);
}

#[test]
fn turbofish_check_accepts_a_type_suffix() {
    assert!(turbofish_check("::<i32>").is_ok());
}

#[test]
fn turbofish_check_rejects_with_messages() {
    let err = turbofish_check("not a turbofish ==").unwrap_err();
    assert_eq!(err, "Can't parse turbofish \"not a turbofish ==\"");
    let err = turbofish_check("\"unterminated").unwrap_err();
    assert_eq!(err, "Can't lex turbofish \"\"unterminated\"");
}

#[test]
fn turbofish_candidate_does_not_merge_with_the_probe() {
    let err = turbofish_check("ec").unwrap_err();
    assert_eq!(err, "Can't parse turbofish \"ec\"");
}

#[test]
fn turbofish_candidate_with_line_comment_is_rejected() {
    let err = turbofish_check("// x").unwrap_err();
    assert_eq!(err, "Can't parse turbofish \"// x\"");
}
