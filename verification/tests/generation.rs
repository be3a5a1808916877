use graphql_typegen::ast::{
    Argument, Document, Fragment, Operation, OperationKind, Selection, Value, VariableDecl,
};
use graphql_typegen::model::{build_schema, FieldDef, SchemaError, SchemaModel, SchemaType, TypeRef};
use graphql_typegen::selection::SelectionError;
use graphql_typegen::fragments::FragmentError;
use graphql_typegen::synth::{NamedTypeDef, ScalarRegistry, TypeShape};
use graphql_typegen::variables::VariableError;
use graphql_typegen::{generate, GenError, SchemaFormat};

fn named(n: &str) -> TypeRef {
    TypeRef::Named(n.to_string())
}

fn non_null(t: TypeRef) -> TypeRef {
    TypeRef::NonNull(Box::new(t))
}

fn field(n: &str, t: TypeRef) -> FieldDef {
    FieldDef { name: n.to_string(), ty: t, args: vec![] }
}

fn sel_field(name: &str, sels: Vec<Selection>) -> Selection {
    Selection::Field { alias: None, name: name.to_string(), args: vec![], sels }
}

fn inline_on(cond: &str, sels: Vec<Selection>) -> Selection {
    Selection::InlineFragment { on_type: Some(cond.to_string()), origin: None, sels }
}

/// The schema of the hero examples: a Query root, a Character interface,
/// and two implementing objects.
fn hero_schema() -> SchemaModel {
    let defs = vec![
        SchemaType::Object {
            name: "Query".to_string(),
            fields: vec![field("hero", named("Character"))],
            implements: vec![],
        },
        SchemaType::Interface {
            name: "Character".to_string(),
            fields: vec![field("name", named("String"))],
            possible: vec![],
        },
        SchemaType::Object {
            name: "Human".to_string(),
            fields: vec![field("name", named("String")), field("homePlanet", named("String"))],
            implements: vec!["Character".to_string()],
        },
        SchemaType::Object {
            name: "Droid".to_string(),
            fields: vec![
                field("name", named("String")),
                field("primaryFunction", named("String")),
            ],
            implements: vec!["Character".to_string()],
        },
    ];
    build_schema(&defs, None, None, None).expect("schema builds")
}

fn hero_query_sels() -> Vec<Selection> {
    vec![sel_field(
        "hero",
        vec![
            sel_field("name", vec![]),
            inline_on("Human", vec![sel_field("homePlanet", vec![])]),
            inline_on("Droid", vec![sel_field("primaryFunction", vec![])]),
        ],
    )]
}

fn doc(sels: Vec<Selection>, variables: Vec<VariableDecl>, fragments: Vec<Fragment>) -> Document {
    Document {
        operation: Operation { name: None, kind: OperationKind::Query, variables, sels },
        fragments,
    }
}

fn registry() -> ScalarRegistry {
    ScalarRegistry { overrides: vec![] }
}

fn render_shape(s: &TypeShape) -> String {
    match s {
        TypeShape::Name(n) => n.clone(),
        TypeShape::Optional(inner) => format!("Option<{}>", render_shape(inner)),
        TypeShape::ListOf(inner) => format!("Vec<{}>", render_shape(inner)),
    }
}

fn render(defs: &[NamedTypeDef]) -> String {
    let mut out = String::new();
    for d in defs {
        match d {
            NamedTypeDef::StructDef { name, fields } => {
                out.push_str(&format!("struct {} {{", name));
                for f in fields {
                    out.push_str(&format!(" {}: {};", f.name, render_shape(&f.shape)));
                }
                out.push_str(" }\n");
            }
            NamedTypeDef::UnionDef { name, arms, fallback } => {
                out.push_str(&format!("union {} {{", name));
                for a in arms {
                    out.push_str(&format!(" {} => {};", a.tyname, a.struct_name));
                }
                out.push_str(&format!(" * => {}; }}\n", fallback));
            }
            NamedTypeDef::EnumDef { name, values } => {
                out.push_str(&format!("enum {} {{ {} }}\n", name, values.join(", ")));
            }
        }
    }
    out
}

fn find_struct<'a>(defs: &'a [NamedTypeDef], want: &str) -> &'a NamedTypeDef {
    defs.iter()
        .find(|d| match d {
            NamedTypeDef::StructDef { name, .. } => name == want,
            _ => false,
        })
        .unwrap_or_else(|| panic!("missing struct {}", want))
}

fn struct_field_names(d: &NamedTypeDef) -> Vec<String> {
    match d {
        NamedTypeDef::StructDef { fields, .. } => fields.iter().map(|f| f.name.clone()).collect(),
        _ => panic!("not a struct"),
    }
}

#[test]
fn scenario_hero_polymorphic_fanout() {
    let schema = hero_schema();
    let g = generate(&schema, &registry(), doc(hero_query_sels(), vec![], vec![]))
        .expect("generation succeeds");
    let union = g
        .defs
        .iter()
        .find(|d| matches!(d, NamedTypeDef::UnionDef { .. }))
        .expect("a union is emitted");
    match union {
        NamedTypeDef::UnionDef { name, arms, fallback } => {
            assert_eq!(name, "ResponseDataHero");
            assert_eq!(arms.len(), 2);
            assert_eq!(arms[0].tyname, "Human");
            assert_eq!(arms[0].struct_name, "ResponseDataHeroOnHuman");
            assert_eq!(arms[1].tyname, "Droid");
            assert_eq!(arms[1].struct_name, "ResponseDataHeroOnDroid");
            assert_eq!(fallback, "ResponseDataHeroOther");
        }
        _ => unreachable!(),
    }
    let human = find_struct(&g.defs, "ResponseDataHeroOnHuman");
    assert_eq!(struct_field_names(human), vec!["name", "homePlanet"]);
    let droid = find_struct(&g.defs, "ResponseDataHeroOnDroid");
    assert_eq!(struct_field_names(droid), vec!["name", "primaryFunction"]);
    let other = find_struct(&g.defs, "ResponseDataHeroOther");
    // the requested common field, preceded by the discriminant the
    // polymorphic selection implicitly carries for decoding
    assert_eq!(struct_field_names(other), vec!["__typename", "name"]);
}

#[test]
fn scenario_declared_variable_binds() {
    let schema = hero_schema();
    let sels = vec![Selection::Field {
        alias: None,
        name: "hero".to_string(),
        args: vec![Argument {
            name: "id".to_string(),
            value: Value::Variable("id".to_string()),
        }],
        sels: vec![sel_field("name", vec![])],
    }];
    let decls = vec![VariableDecl {
        name: "id".to_string(),
        ty: non_null(named("ID")),
        default_value: None,
    }];
    let g = generate(&schema, &registry(), doc(sels, decls, vec![])).expect("binds");
    let vars = find_struct(&g.defs, "Variables");
    match vars {
        NamedTypeDef::StructDef { fields, .. } => {
            assert_eq!(fields.len(), 1);
            assert_eq!(fields[0].name, "id");
            // non-null strips the optional wrapper; ID maps to its host name
            assert_eq!(render_shape(&fields[0].shape), "Id");
        }
        _ => unreachable!(),
    }
}

#[test]
fn scenario_undeclared_variable_fails() {
    let schema = hero_schema();
    let sels = vec![Selection::Field {
        alias: None,
        name: "hero".to_string(),
        args: vec![Argument {
            name: "id".to_string(),
            value: Value::Variable("id".to_string()),
        }],
        sels: vec![sel_field("name", vec![])],
    }];
    let r = generate(&schema, &registry(), doc(sels, vec![], vec![]));
    match r {
        Err(GenError::Variable(VariableError::UndeclaredUsed { name })) => {
            assert_eq!(name, "id");
        }
        _ => panic!("expected UndeclaredUsed"),
    }
}

#[test]
fn unknown_field_is_rejected() {
    let schema = hero_schema();
    let sels = vec![sel_field("hero", vec![sel_field("name", vec![])]), sel_field("nope", vec![])];
    let r = generate(&schema, &registry(), doc(sels, vec![], vec![]));
    match r {
        Err(GenError::Selection(SelectionError::UnknownField { tyname, field })) => {
            assert_eq!(tyname, "Query");
            assert_eq!(field, "nope");
        }
        _ => panic!("expected UnknownField"),
    }
}

#[test]
fn fragment_cycle_is_detected() {
    let schema = hero_schema();
    let frag = Fragment {
        name: "F".to_string(),
        on_type: "Character".to_string(),
        sels: vec![Selection::FragmentSpread { name: "F".to_string() }],
    };
    let sels = vec![sel_field(
        "hero",
        vec![Selection::FragmentSpread { name: "F".to_string() }],
    )];
    let r = generate(&schema, &registry(), doc(sels, vec![], vec![frag]));
    match r {
        Err(GenError::Fragment(FragmentError::CycleDetected { name })) => {
            assert_eq!(name, "F");
        }
        _ => panic!("expected CycleDetected"),
    }
}

#[test]
fn transitive_fragment_cycle_is_detected() {
    let schema = hero_schema();
    let a = Fragment {
        name: "A".to_string(),
        on_type: "Character".to_string(),
        sels: vec![Selection::FragmentSpread { name: "B".to_string() }],
    };
    let b = Fragment {
        name: "B".to_string(),
        on_type: "Character".to_string(),
        sels: vec![Selection::FragmentSpread { name: "A".to_string() }],
    };
    let sels = vec![sel_field(
        "hero",
        vec![Selection::FragmentSpread { name: "A".to_string() }],
    )];
    let r = generate(&schema, &registry(), doc(sels, vec![], vec![a, b]));
    match r {
        Err(GenError::Fragment(FragmentError::CycleDetected { .. })) => {}
        other => panic!("expected CycleDetected, got {:?}", other.err()),
    }
}

#[test]
fn undefined_fragment_is_reported() {
    let schema = hero_schema();
    let sels = vec![sel_field(
        "hero",
        vec![Selection::FragmentSpread { name: "Nope".to_string() }],
    )];
    let r = generate(&schema, &registry(), doc(sels, vec![], vec![]));
    match r {
        Err(GenError::Fragment(FragmentError::Undefined { name })) => assert_eq!(name, "Nope"),
        _ => panic!("expected Undefined"),
    }
}

#[test]
fn named_fragment_spread_inlines() {
    let schema = hero_schema();
    let frag = Fragment {
        name: "HumanBits".to_string(),
        on_type: "Human".to_string(),
        sels: vec![sel_field("homePlanet", vec![])],
    };
    let sels = vec![sel_field(
        "hero",
        vec![
            sel_field("name", vec![]),
            Selection::FragmentSpread { name: "HumanBits".to_string() },
        ],
    )];
    let g = generate(&schema, &registry(), doc(sels, vec![], vec![frag])).expect("generates");
    let human = find_struct(&g.defs, "ResponseDataHeroOnHuman");
    assert_eq!(struct_field_names(human), vec!["name", "homePlanet"]);
}

#[test]
fn generation_is_deterministic() {
    let schema = hero_schema();
    let a = generate(&schema, &registry(), doc(hero_query_sels(), vec![], vec![])).unwrap();
    let b = generate(&schema, &registry(), doc(hero_query_sels(), vec![], vec![])).unwrap();
    assert_eq!(render(&a.defs), render(&b.defs));
}

#[test]
fn omitting_one_variants_field_leaves_others_alone() {
    let schema = hero_schema();
    // the same query, with the Human-only field omitted
    let smaller = vec![sel_field(
        "hero",
        vec![
            sel_field("name", vec![]),
            inline_on("Human", vec![]),
            inline_on("Droid", vec![sel_field("primaryFunction", vec![])]),
        ],
    )];
    let a = generate(&schema, &registry(), doc(hero_query_sels(), vec![], vec![])).unwrap();
    let b = generate(&schema, &registry(), doc(smaller, vec![], vec![])).unwrap();
    let droid_a = find_struct(&a.defs, "ResponseDataHeroOnDroid");
    let droid_b = find_struct(&b.defs, "ResponseDataHeroOnDroid");
    assert_eq!(struct_field_names(droid_a), struct_field_names(droid_b));
    let other_a = find_struct(&a.defs, "ResponseDataHeroOther");
    let other_b = find_struct(&b.defs, "ResponseDataHeroOther");
    assert_eq!(struct_field_names(other_a), struct_field_names(other_b));
}

#[test]
fn nested_objects_get_path_derived_names() {
    let defs = vec![
        SchemaType::Object {
            name: "Query".to_string(),
            fields: vec![field("me", named("User"))],
            implements: vec![],
        },
        SchemaType::Object {
            name: "User".to_string(),
            fields: vec![field("name", named("String")), field("friend", named("User"))],
            implements: vec![],
        },
    ];
    let schema = build_schema(&defs, None, None, None).expect("builds");
    let sels = vec![sel_field(
        "me",
        vec![
            sel_field("name", vec![]),
            sel_field("friend", vec![sel_field("name", vec![])]),
        ],
    )];
    let g = generate(&schema, &registry(), doc(sels, vec![], vec![])).expect("generates");
    let me = find_struct(&g.defs, "ResponseDataMe");
    assert_eq!(struct_field_names(me), vec!["name", "friend"]);
    let friend = find_struct(&g.defs, "ResponseDataMeFriend");
    assert_eq!(struct_field_names(friend), vec!["name"]);
}

#[test]
fn alias_conflict_is_rejected() {
    let schema = hero_schema();
    let sels = vec![
        Selection::Field {
            alias: Some("h".to_string()),
            name: "hero".to_string(),
            args: vec![],
            sels: vec![sel_field("name", vec![])],
        },
        Selection::Field {
            alias: Some("h".to_string()),
            name: "hero".to_string(),
            args: vec![],
            sels: vec![sel_field("__typename", vec![])],
        },
    ];
    let r = generate(&schema, &registry(), doc(sels, vec![], vec![]));
    match r {
        Err(GenError::Selection(SelectionError::AliasConflict { key })) => assert_eq!(key, "h"),
        _ => panic!("expected AliasConflict"),
    }
}

#[test]
fn different_fields_under_one_key_conflict() {
    let defs = vec![SchemaType::Object {
        name: "Query".to_string(),
        fields: vec![field("a", named("String")), field("b", named("String"))],
        implements: vec![],
    }];
    let schema = build_schema(&defs, None, None, None).expect("builds");
    // both selections resolve to the same shape, but select different fields
    let sels = vec![
        Selection::Field {
            alias: Some("x".to_string()),
            name: "a".to_string(),
            args: vec![],
            sels: vec![],
        },
        Selection::Field {
            alias: Some("x".to_string()),
            name: "b".to_string(),
            args: vec![],
            sels: vec![],
        },
    ];
    let r = generate(&schema, &registry(), doc(sels, vec![], vec![]));
    match r {
        Err(GenError::Selection(SelectionError::AliasConflict { key })) => assert_eq!(key, "x"),
        other => panic!("expected AliasConflict, got {:?}", other.err()),
    }
}

#[test]
fn same_field_with_different_arguments_conflicts() {
    let schema = hero_schema();
    let with_arg = |v: &str| Selection::Field {
        alias: Some("h".to_string()),
        name: "hero".to_string(),
        args: vec![Argument {
            name: "id".to_string(),
            value: Value::Scalar(v.to_string()),
        }],
        sels: vec![sel_field("name", vec![])],
    };
    let sels = vec![with_arg("1"), with_arg("2")];
    let r = generate(&schema, &registry(), doc(sels, vec![], vec![]));
    match r {
        Err(GenError::Selection(SelectionError::AliasConflict { key })) => assert_eq!(key, "h"),
        other => panic!("expected AliasConflict, got {:?}", other.err()),
    }
    // identical arguments merge
    let sels2 = vec![with_arg("1"), with_arg("1")];
    let g = generate(&schema, &registry(), doc(sels2, vec![], vec![])).expect("merges");
    let root = find_struct(&g.defs, "ResponseData");
    assert_eq!(struct_field_names(root), vec!["h"]);
}

#[test]
fn nested_unrelated_type_condition_is_rejected() {
    let schema = hero_schema();
    // a condition on an unrelated type, nested inside a typed fragment
    let sels = vec![sel_field(
        "hero",
        vec![inline_on(
            "Human",
            vec![inline_on("Dog", vec![sel_field("name", vec![])])],
        )],
    )];
    let r = generate(&schema, &registry(), doc(sels, vec![], vec![]));
    match r {
        Err(GenError::Selection(SelectionError::InvalidFragmentTarget { on_type })) => {
            assert_eq!(on_type, "Dog");
        }
        other => panic!("expected InvalidFragmentTarget, got {:?}", other.err()),
    }
}

#[test]
fn sibling_fanout_conditions_stay_legal_when_nested() {
    let schema = hero_schema();
    // fan-out fragments nested under a fragment on the interface itself
    let sels = vec![sel_field(
        "hero",
        vec![inline_on(
            "Character",
            vec![
                sel_field("name", vec![]),
                inline_on("Human", vec![sel_field("homePlanet", vec![])]),
            ],
        )],
    )];
    let g = generate(&schema, &registry(), doc(sels, vec![], vec![])).expect("generates");
    let human = find_struct(&g.defs, "ResponseDataHeroOnHuman");
    assert_eq!(struct_field_names(human), vec!["name", "homePlanet"]);
}

#[test]
fn identical_duplicate_selection_merges() {
    let schema = hero_schema();
    let sels = vec![
        sel_field("hero", vec![sel_field("name", vec![])]),
        sel_field("hero", vec![sel_field("name", vec![])]),
    ];
    let g = generate(&schema, &registry(), doc(sels, vec![], vec![])).expect("merges");
    let root = find_struct(&g.defs, "ResponseData");
    assert_eq!(struct_field_names(root), vec!["hero"]);
}

#[test]
fn variable_type_must_be_input_position() {
    let schema = hero_schema();
    let decls = vec![VariableDecl {
        name: "who".to_string(),
        ty: named("Character"),
        default_value: None,
    }];
    let sels = vec![sel_field("hero", vec![sel_field("name", vec![])])];
    let r = generate(&schema, &registry(), doc(sels, decls, vec![]));
    match r {
        Err(GenError::Variable(VariableError::TypeMismatch { name, tyname })) => {
            assert_eq!(name, "who");
            assert_eq!(tyname, "Character");
        }
        _ => panic!("expected TypeMismatch"),
    }
}

#[test]
fn unused_variable_is_warned_not_fatal() {
    let schema = hero_schema();
    let decls = vec![VariableDecl {
        name: "spare".to_string(),
        ty: named("ID"),
        default_value: None,
    }];
    let sels = vec![sel_field("hero", vec![sel_field("name", vec![])])];
    let g = generate(&schema, &registry(), doc(sels, decls, vec![])).expect("unused is legal");
    assert_eq!(g.unused, vec!["spare".to_string()]);
}

#[test]
fn missing_query_root_fails() {
    let defs = vec![SchemaType::Scalar { name: "Date".to_string() }];
    let r = build_schema(&defs, None, None, None);
    match r {
        Err(SchemaError::MissingRootType { name }) => assert_eq!(name, "Query"),
        _ => panic!("expected MissingRootType"),
    }
}

#[test]
fn path_names_capitalize_response_keys() {
    let capitalize = graphql_typegen::synth::capitalize;
    assert_eq!(capitalize("hero"), "Hero");
    assert_eq!(capitalize("Hero"), "Hero");
    assert_eq!(capitalize(""), "");
    assert_eq!(capitalize("x"), "X");
    assert_eq!(capitalize("zebraCrossing"), "ZebraCrossing");
    assert_eq!(capitalize("__typename"), "__typename");
}

#[test]
fn schema_format_follows_extension() {
    assert!(matches!(
        graphql_typegen::schema_format_of_extension("graphql"),
        Some(SchemaFormat::Sdl)
    ));
    assert!(matches!(
        graphql_typegen::schema_format_of_extension("gql"),
        Some(SchemaFormat::Sdl)
    ));
    assert!(matches!(
        graphql_typegen::schema_format_of_extension("json"),
        Some(SchemaFormat::IntrospectionJson)
    ));
    assert!(graphql_typegen::schema_format_of_extension("yaml").is_none());
}

#[test]
fn typename_is_always_legal_and_nullability_maps() {
    let schema = hero_schema();
    let sels = vec![
        sel_field("__typename", vec![]),
        sel_field("hero", vec![sel_field("name", vec![])]),
    ];
    let g = generate(&schema, &registry(), doc(sels, vec![], vec![])).expect("generates");
    let root = find_struct(&g.defs, "ResponseData");
    match root {
        NamedTypeDef::StructDef { fields, .. } => {
            assert_eq!(fields[0].name, "__typename");
            // __typename is non-null, so no optional wrapper
            assert_eq!(render_shape(&fields[0].shape), "String");
            // a bare named composite field is optional
            assert_eq!(render_shape(&fields[1].shape), "Option<ResponseDataHero>");
        }
        _ => unreachable!(),
    }
}

#[test]
fn enums_and_input_objects_synthesize() {
    let defs = vec![
        SchemaType::Object {
            name: "Query".to_string(),
            fields: vec![field("mood", named("Mood"))],
            implements: vec![],
        },
        SchemaType::Enum {
            name: "Mood".to_string(),
            values: vec!["HAPPY".to_string(), "GRUMPY".to_string()],
        },
        SchemaType::InputObject {
            name: "Filter".to_string(),
            fields: vec![field("mood", named("Mood")), field("limit", named("Int"))],
        },
    ];
    let schema = build_schema(&defs, None, None, None).expect("builds");
    let decls = vec![VariableDecl {
        name: "f".to_string(),
        ty: named("Filter"),
        default_value: None,
    }];
    let sels = vec![sel_field("mood", vec![])];
    let g = generate(&schema, &registry(), doc(sels, decls, vec![])).expect("generates");
    let filter = find_struct(&g.defs, "Filter");
    assert_eq!(struct_field_names(filter), vec!["mood", "limit"]);
    let moods = g
        .defs
        .iter()
        .filter(|d| matches!(d, NamedTypeDef::EnumDef { .. }))
        .count();
    // the Mood enum is reachable twice but emitted once
    assert_eq!(moods, 1);
    match g.defs.iter().find(|d| matches!(d, NamedTypeDef::EnumDef { .. })).unwrap() {
        NamedTypeDef::EnumDef { name, values } => {
            assert_eq!(name, "Mood");
            assert_eq!(values, &vec!["HAPPY".to_string(), "GRUMPY".to_string()]);
        }
        _ => unreachable!(),
    }
    // Int maps through the registry's built-in table
    match find_struct(&g.defs, "Filter") {
        NamedTypeDef::StructDef { fields, .. } => {
            assert_eq!(render_shape(&fields[1].shape), "Option<Int64>");
        }
        _ => unreachable!(),
    }
}

#[test]
fn scalar_override_wins_over_builtin() {
    let schema = hero_schema();
    let reg = ScalarRegistry {
        overrides: vec![graphql_typegen::synth::ScalarOverride {
            graphql: "String".to_string(),
            host: "SmallStr".to_string(),
        }],
    };
    let g = generate(&schema, &reg, doc(hero_query_sels(), vec![], vec![])).expect("generates");
    let other = find_struct(&g.defs, "ResponseDataHeroOther");
    match other {
        NamedTypeDef::StructDef { fields, .. } => {
            // the implicit discriminant is a built-in String and maps
            // through the registry like any other scalar
            assert_eq!(fields[0].name, "__typename");
            assert_eq!(render_shape(&fields[0].shape), "SmallStr");
            assert_eq!(render_shape(&fields[1].shape), "Option<SmallStr>");
        }
        _ => unreachable!(),
    }
}

#[test]
fn list_types_become_sequences() {
    let defs = vec![SchemaType::Object {
        name: "Query".to_string(),
        fields: vec![field(
            "names",
            non_null(TypeRef::List(Box::new(non_null(named("String"))))),
        )],
        implements: vec![],
    }];
    let schema = build_schema(&defs, None, None, None).expect("builds");
    let sels = vec![sel_field("names", vec![])];
    let g = generate(&schema, &registry(), doc(sels, vec![], vec![])).expect("generates");
    let root = find_struct(&g.defs, "ResponseData");
    match root {
        NamedTypeDef::StructDef { fields, .. } => {
            assert_eq!(render_shape(&fields[0].shape), "Vec<String>");
        }
        _ => unreachable!(),
    }
}
