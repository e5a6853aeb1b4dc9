use fuel_indexer_lib::graphql::document::{
    declarations_from, parse_declarations, Directive, Field, TypeDeclaration,
};
use fuel_indexer_lib::graphql::parser::{
    build_schema_types_set, JoinTableMeta, JoinTableRelationType, ParsedError, ParsedGraphQLSchema,
};
use fuel_indexer_lib::graphql::{GraphQLSchema, BASE_SCHEMA};
use fuel_indexer_lib::ExecutionSource;

const SCENARIO: &str = r#"
enum AccountLabel {
    PRIMARY
    SECONDARY
}

type Account @entity {
    id: ID!
    address: Address!
    label: AccountLabel
}

type User @entity {
    id: ID!
    account: Account!
    username: Charfield!
}

type Loser @entity {
    id: ID!
    account: Account!
    age: UInt8!
}

type Metadata @entity(virtual: true) {
    count: UInt8!
}

union Person = User | Loser


type Wallet @entity {
    id: ID!
    accounts: [Account!]!
}

type Safe @entity {
    id: ID!
    account: [Account!]!
}

type Vault @entity {
    id: ID!
    label: Charfield!
    user: [User!]!
}

union Storage = Safe | Vault
"#;

fn parse(schema: &str) -> Result<ParsedGraphQLSchema, ParsedError> {
    ParsedGraphQLSchema::new(
        "test",
        "test",
        ExecutionSource::Wasm,
        Some(&GraphQLSchema::new(schema.to_string())),
    )
}

fn field(name: &str, ty: &str) -> Field {
    Field { name: name.to_string(), ty: ty.to_string(), directives: vec![] }
}

fn joined(name: &str, ty: &str, on: &str) -> Field {
    Field {
        name: name.to_string(),
        ty: ty.to_string(),
        directives: vec![Directive {
            name: "join".to_string(),
            arguments: vec![("on".to_string(), on.to_string())],
        }],
    }
}

fn entity(name: &str, fields: Vec<Field>) -> TypeDeclaration {
    TypeDeclaration::Object {
        name: name.to_string(),
        fields,
        directives: vec![Directive { name: "entity".to_string(), arguments: vec![] }],
    }
}

fn scalars() -> Vec<TypeDeclaration> {
    vec![
        TypeDeclaration::Scalar { name: "ID".to_string() },
        TypeDeclaration::Scalar { name: "Charfield".to_string() },
        TypeDeclaration::Scalar { name: "UInt8".to_string() },
    ]
}

fn build(declarations: Vec<TypeDeclaration>) -> Result<ParsedGraphQLSchema, ParsedError> {
    ParsedGraphQLSchema::from_declarations(
        "ns",
        "id",
        ExecutionSource::Native,
        GraphQLSchema::default(),
        &scalars(),
        declarations,
    )
}

#[test]
fn test_parser_caches_all_related_typedefs_when_instantiated() {
    let parsed = ParsedGraphQLSchema::new(
        "test",
        "test",
        ExecutionSource::Wasm,
        Some(&GraphQLSchema::new(SCENARIO.to_string())),
    );

    assert!(parsed.is_ok());

    let parsed = parsed.unwrap();

    // Basic stuff
    assert!(parsed.has_type("Account"));
    assert!(parsed.has_type("User"));
    assert!(parsed.is_possible_foreign_key("Account"));
    assert!(parsed.is_virtual_typedef("Metadata"));
    assert!(parsed.is_enum_typedef("AccountLabel"));
    assert!(parsed.field_type_optionality().contains_key("Account.label"));

    assert!(parsed.is_union_typedef("Person"));

    // Many to many for objects
    assert!(parsed.is_list_typedef("Wallet"));
    assert_eq!(parsed.join_table_meta().len(), 2);
    assert_eq!(
        parsed.join_table_meta().get("Wallet").unwrap()[0],
        JoinTableMeta::new("wallet", "id", "account", "id", Some(1))
    );

    // Many to many for unions
    assert!(!parsed.join_table_meta().contains_key("Safe"));
    assert!(!parsed.join_table_meta().contains_key("Vault"));
    assert!(parsed.join_table_meta().contains_key("Storage"));
    assert!(parsed.join_table_meta().get("Storage").unwrap().len() == 2);
    assert_eq!(
        parsed.join_table_meta().get("Storage").unwrap()[0],
        JoinTableMeta::new("storage", "id", "account", "id", Some(1))
    );
    assert_eq!(
        parsed.join_table_meta().get("Storage").unwrap()[1],
        JoinTableMeta::new("storage", "id", "user", "id", Some(3))
    );
}

#[test]
fn scenario_indexes_fields_and_foreign_keys() {
    let parsed = parse(SCENARIO).unwrap();
    assert_eq!(parsed.namespace(), "test");
    assert_eq!(parsed.identifier(), "test");
    assert_eq!(*parsed.exec_source(), ExecutionSource::Wasm);
    assert_eq!(parsed.fully_qualified_namespace(), "test_test");
    assert_eq!(parsed.join_table_meta().get("Wallet").unwrap().len(), 1);
    assert_eq!(parsed.field_type_mappings().get("User.account").unwrap(), "Account");
    assert_eq!(parsed.field_type_mappings().get("Wallet.accounts").unwrap(), "Account");
    assert_eq!(parsed.field_type_mappings().get("AccountLabel.PRIMARY").unwrap(), "AccountLabel");
    assert_eq!(parsed.field_type_mappings().get("Person.username").unwrap(), "Charfield");
    assert_eq!(*parsed.field_type_optionality().get("Account.label").unwrap(), true);
    assert_eq!(*parsed.field_type_optionality().get("Account.id").unwrap(), false);
    assert_eq!(*parsed.field_type_optionality().get("Storage.user").unwrap(), false);
    let fks = parsed.foreign_key_mappings().get("user").unwrap();
    assert_eq!(fks.len(), 1);
    assert_eq!(fks.get("account").unwrap(), &("account".to_string(), "id".to_string()));
    assert!(!parsed.foreign_key_mappings().contains_key("account"));
    let person = parsed.object_field_mappings().get("Person").unwrap();
    assert_eq!(person.len(), 4);
    assert_eq!(person.get("age").unwrap(), "UInt8");
    let defs = parsed.field_defs().get("Person.age").unwrap();
    assert_eq!(defs.1, "Loser");
    assert_eq!(defs.0.ty, "UInt8!");
    let ordered = parsed.object_ordered_fields().get("Vault").unwrap();
    assert_eq!(ordered.len(), 3);
    assert_eq!(ordered[2].0.name, "user");
    assert_eq!(ordered[2].1, 2);
    assert_eq!(parsed.objects().get("Safe").unwrap().len(), 2);
    assert_eq!(parsed.get_union("Storage").unwrap(), &vec!["Safe".to_string(), "Vault".to_string()]);
    assert!(parsed.get_union("Safe").is_none());
    assert!(parsed.is_list_field_type("[Account]"));
    assert!(!parsed.is_list_field_type("Account"));
    assert!(!parsed.is_list_typedef("User"));
    assert!(parsed.has_type("IndexMetadataEntity"));
    assert!(parsed.has_type("UInt8"));
    assert!(!parsed.has_type("Nothing"));
    assert_eq!(parsed.schema().schema(), GraphQLSchema::new(SCENARIO.to_string()).schema());
    assert_eq!(parsed.ast().len(), 11);
}

#[test]
fn list_field_of_an_entity_gives_a_join_table_at_its_position() {
    let parsed = parse(
        "type Tag @entity { id: ID! }\n\
         type Post @entity { id: ID! title: Charfield! tags: [Tag!]! more: [Tag] }",
    )
    .unwrap();
    let metas = parsed.join_table_meta().get("Post").unwrap();
    assert_eq!(metas.len(), 2);
    assert_eq!(metas[0], JoinTableMeta::new("post", "id", "tag", "id", Some(2)));
    assert_eq!(metas[1], JoinTableMeta::new("post", "id", "tag", "id", Some(3)));
    assert_eq!(metas[0].parent().relation_type, JoinTableRelationType::Parent);
    assert_eq!(metas[0].child().relation_type, JoinTableRelationType::Child);
    assert_eq!(metas[0].child().child_position, None);
    assert_eq!(metas[0].table_name(), "posts_tags");
    assert!(!parsed.join_table_meta().contains_key("Tag"));
    assert!(!parsed.join_table_meta().contains_key("post"));
}

#[test]
fn list_field_of_a_later_type_is_no_foreign_key() {
    let parsed = parse(
        "type Post @entity { id: ID! tags: [Tag!]! }\n\
         type Tag @entity { id: ID! }",
    )
    .unwrap();
    assert_eq!(parsed.join_table_meta().len(), 0);
    assert!(!parsed.foreign_key_mappings().contains_key("post"));
    assert!(parsed.is_possible_foreign_key("Tag"));
}

#[test]
fn union_takes_over_the_join_tables_of_its_members() {
    let parsed = parse(
        "type Tag @entity { id: ID! }\n\
         type A @entity { id: ID! name: Charfield! }\n\
         type B @entity { id: ID! tags: [Tag!]! }\n\
         union S = A | B",
    )
    .unwrap();
    assert!(!parsed.join_table_meta().contains_key("B"));
    assert!(!parsed.join_table_meta().contains_key("A"));
    assert_eq!(parsed.join_table_meta().len(), 1);
    let metas = parsed.join_table_meta().get("S").unwrap();
    assert_eq!(metas.len(), 1);
    assert_eq!(metas[0], JoinTableMeta::new("s", "id", "tag", "id", Some(2)));
}

#[test]
fn union_counts_each_field_name_once() {
    let parsed = parse(
        "type Tag @entity { id: ID! }\n\
         type A @entity { id: ID! tags: [Tag!]! }\n\
         type B @entity { id: ID! tags: [Tag!]! extra: [Tag!]! }\n\
         union S = A | B",
    )
    .unwrap();
    let metas = parsed.join_table_meta().get("S").unwrap();
    assert_eq!(metas.len(), 2);
    assert_eq!(metas[0], JoinTableMeta::new("s", "id", "tag", "id", Some(1)));
    assert_eq!(metas[1], JoinTableMeta::new("s", "id", "tag", "id", Some(2)));
    assert_eq!(parsed.field_defs().get("S.tags").unwrap().1, "B");
}

#[test]
fn possible_foreign_key_excludes_scalars_enums_and_virtual_types() {
    let parsed = parse(SCENARIO).unwrap();
    assert!(!parsed.is_possible_foreign_key("UInt8"));
    assert!(!parsed.is_possible_foreign_key("ID"));
    assert!(!parsed.is_possible_foreign_key("AccountLabel"));
    assert!(!parsed.is_possible_foreign_key("Metadata"));
    assert!(!parsed.is_possible_foreign_key("Unknown"));
    assert!(!parsed.is_possible_foreign_key("username"));
    assert!(parsed.is_possible_foreign_key("User"));
    assert!(parsed.is_possible_foreign_key("Wallet"));
    assert!(parsed.is_possible_foreign_key("Person"));
    assert!(!parsed.is_virtual_typedef("AccountLabel"));
    assert!(!parsed.is_virtual_typedef("User"));
    assert!(!parsed.is_enum_typedef("Metadata"));
}

#[test]
fn object_without_entity_directive_is_skipped() {
    let parsed = parse("type Plain { id: ID! }\ntype Kept @entity { id: ID! plain: Plain }").unwrap();
    assert!(parsed.has_type("Plain"));
    assert!(!parsed.is_possible_foreign_key("Plain"));
    assert!(!parsed.objects().contains_key("Plain"));
    assert!(!parsed.field_type_mappings().contains_key("Plain.id"));
    assert!(parsed.field_type_mappings().contains_key("Kept.plain"));
    assert!(!parsed.foreign_key_mappings().contains_key("kept"));
}

#[test]
fn virtual_false_does_not_make_a_type_virtual() {
    let parsed = parse("type A @entity(virtual: false) { id: ID! }").unwrap();
    assert!(!parsed.is_virtual_typedef("A"));
    assert!(parsed.is_possible_foreign_key("A"));
}

#[test]
fn explicit_join_resolves_the_named_column() {
    let parsed = parse(
        "type City @entity { id: ID! name: Charfield! }\n\
         type Team @entity { id: ID! city: City! @join(on: name) cities: [City!]! @join(on: name) }",
    )
    .unwrap();
    let fks = parsed.foreign_key_mappings().get("team").unwrap();
    assert_eq!(fks.get("city").unwrap(), &("city".to_string(), "name".to_string()));
    assert_eq!(
        parsed.join_table_meta().get("Team").unwrap()[0],
        JoinTableMeta::new("team", "id", "city", "name", Some(2))
    );
    let city = &parsed.objects().get("Team").unwrap()[1];
    assert_eq!(parsed.scalar_type_for(city).unwrap(), "Charfield");
}

#[test]
fn explicit_join_on_a_missing_column_is_an_error() {
    let r = parse(
        "type City @entity { id: ID! }\n\
         type Team @entity { id: ID! city: City! @join(on: name) }",
    );
    match r {
        Err(ParsedError::FieldReferenceNotFound(fid)) => assert_eq!(fid, "City.name"),
        _ => panic!("expected a missing field reference"),
    }
}

#[test]
fn unsupported_declarations_are_rejected() {
    assert!(matches!(parse("interface Named { name: Charfield! }"), Err(ParsedError::UnsupportedTypeKind)));
    assert!(matches!(parse("input Filter { name: Charfield! }"), Err(ParsedError::UnsupportedTypeKind)));
    assert!(matches!(parse("scalar Extra"), Err(ParsedError::UnsupportedTypeKind)));
    assert!(matches!(
        parse("type Query @entity { id: ID! }\nschema { query: Query }"),
        Err(ParsedError::UnsupportedTypeKind)
    ));
    assert!(parse("directive @mark on OBJECT\ntype A @entity { id: ID! }").is_ok());
}

#[test]
fn nested_lists_are_rejected() {
    assert!(matches!(
        parse("type A @entity { id: ID! grid: [[UInt8!]!]! }"),
        Err(ParsedError::ListTypesUnsupported)
    ));
    assert!(parse("type A { id: ID! grid: [[UInt8!]!]! }").is_ok());
}

#[test]
fn union_of_virtual_and_regular_members_is_inconsistent() {
    let r = parse(
        "type A @entity(virtual: true) { id: ID! }\n\
         type B @entity { id: ID! }\n\
         union U = A | B",
    );
    match r {
        Err(ParsedError::InconsistentVirtualUnion(name)) => assert_eq!(name, "U"),
        _ => panic!("expected an inconsistent union"),
    }
}

#[test]
fn union_of_virtual_members_is_virtual() {
    let parsed = parse(
        "type A @entity(virtual: true) { id: ID! }\n\
         type B @entity(virtual: true) { id: ID! }\n\
         union U = A | B",
    )
    .unwrap();
    assert!(parsed.is_virtual_typedef("U"));
    assert!(!parsed.is_possible_foreign_key("U"));
}

#[test]
fn union_member_without_entity_directive_is_not_found() {
    let r = parse("type A @entity { id: ID! }\ntype B { id: ID! }\nunion U = A | B");
    match r {
        Err(ParsedError::UnionMemberNotFound(name)) => assert_eq!(name, "B"),
        _ => panic!("expected a missing union member"),
    }
}

#[test]
fn text_that_does_not_parse_is_a_parse_error() {
    assert!(matches!(parse("type {"), Err(ParsedError::ParseError(_))));
    assert!(parse_declarations("type {").is_err());
}

#[test]
fn scalar_type_for_follows_the_kind_of_the_named_type() {
    let parsed = parse(SCENARIO).unwrap();
    assert_eq!(parsed.scalar_type_for(&field("account", "Account!")).unwrap(), "UInt8");
    assert_eq!(parsed.scalar_type_for(&field("accounts", "[Account!]!")).unwrap(), "UInt8");
    assert_eq!(parsed.scalar_type_for(&field("label", "AccountLabel")).unwrap(), "Charfield");
    assert_eq!(parsed.scalar_type_for(&field("meta", "Metadata!")).unwrap(), "Virtual");
    assert_eq!(parsed.scalar_type_for(&field("age", "UInt8!")).unwrap(), "UInt8");
    assert_eq!(parsed.scalar_type_for(&field("names", "[Charfield!]!")).unwrap(), "[Charfield]");
    assert!(matches!(
        parsed.scalar_type_for(&joined("account", "Account!", "nothing")),
        Err(ParsedError::FieldReferenceNotFound(_))
    ));
}

#[test]
fn graphql_type_looks_up_fields_and_types() {
    let parsed = parse(SCENARIO).unwrap();
    let user = "User".to_string();
    assert_eq!(parsed.graphql_type(Some(&user), "account").unwrap(), "Account");
    let list = "[User!]!".to_string();
    assert_eq!(parsed.graphql_type(Some(&list), "username").unwrap(), "Charfield");
    assert!(parsed.graphql_type(Some(&user), "nothing").is_none());
    let nothing = "Nothing".to_string();
    assert!(parsed.graphql_type(Some(&nothing), "id").is_none());
    assert_eq!(parsed.graphql_type(None, "user").unwrap(), "User");
    assert_eq!(parsed.graphql_type(None, "storage").unwrap(), "Storage");
    assert!(parsed.graphql_type(None, "accountlabel").is_none());
    assert!(parsed.graphql_type(None, "User").is_none());
}

#[test]
fn parse_declarations_reads_names_fields_and_directives() {
    let decls = parse_declarations(
        "enum E { X Y }\n\
         type A @entity(virtual: true) { id: ID! peers: [A!] @join(on: id) }\n\
         union U = A\n\
         scalar S\n\
         directive @mark on OBJECT",
    )
    .unwrap();
    assert_eq!(decls.len(), 5);
    match &decls[0] {
        TypeDeclaration::Enum { name, values } => {
            assert_eq!(name, "E");
            assert_eq!(values, &vec!["X".to_string(), "Y".to_string()]);
        }
        _ => panic!("expected an enum"),
    }
    match &decls[1] {
        TypeDeclaration::Object { name, fields, directives } => {
            assert_eq!(name, "A");
            assert_eq!(directives.len(), 1);
            assert_eq!(directives[0].name, "entity");
            assert_eq!(directives[0].arguments, vec![("virtual".to_string(), "true".to_string())]);
            assert_eq!(fields.len(), 2);
            assert_eq!(fields[0].name, "id");
            assert_eq!(fields[0].ty, "ID!");
            assert_eq!(fields[1].ty, "[A!]");
            assert_eq!(fields[1].directives[0].name, "join");
            assert_eq!(fields[1].directives[0].arguments, vec![("on".to_string(), "id".to_string())]);
        }
        _ => panic!("expected an object"),
    }
    match &decls[2] {
        TypeDeclaration::Union { name, members } => {
            assert_eq!(name, "U");
            assert_eq!(members, &vec!["A".to_string()]);
        }
        _ => panic!("expected a union"),
    }
    assert!(matches!(&decls[3], TypeDeclaration::Scalar { name } if name == "S"));
    assert!(matches!(&decls[4], TypeDeclaration::DirectiveDefinition { name } if name == "mark"));
}

#[test]
fn base_schema_declares_the_scalars() {
    let base = parse_declarations(BASE_SCHEMA).unwrap();
    let (types, directives) = build_schema_types_set(&base);
    assert!(types.contains("ID"));
    assert!(types.contains("UInt8"));
    assert!(types.contains("Charfield"));
    assert!(types.contains("Bytes32"));
    assert!(types.contains("Address"));
    assert_eq!(types.len(), base.len());
    assert_eq!(directives.len(), 0);
    let parsed = ParsedGraphQLSchema::default();
    assert_eq!(parsed.ast().len(), base.len());
    assert_eq!(parsed.join_table_meta().len(), 0);
    assert!(!parsed.has_type("ID"));
    assert_eq!(parsed.namespace(), "");
}

#[test]
fn from_declarations_builds_the_same_model_from_plain_values() {
    let parsed = build(vec![
        entity("Tag", vec![field("id", "ID!")]),
        entity("Post", vec![field("id", "ID!"), field("tags", "[Tag!]!"), field("tag", "Tag")]),
    ])
    .unwrap();
    assert_eq!(parsed.namespace(), "ns");
    assert_eq!(*parsed.exec_source(), ExecutionSource::Native);
    assert_eq!(
        parsed.join_table_meta().get("Post").unwrap()[0],
        JoinTableMeta::new("post", "id", "tag", "id", Some(1))
    );
    let fks = parsed.foreign_key_mappings().get("post").unwrap();
    assert_eq!(fks.len(), 2);
    assert_eq!(*parsed.field_type_optionality().get("Post.tag").unwrap(), true);
    assert!(parsed.has_type("ID"));
    assert!(parsed.has_type("Post"));
}

#[test]
fn from_declarations_reports_each_error() {
    assert!(matches!(
        build(vec![TypeDeclaration::Interface { name: "I".to_string() }]),
        Err(ParsedError::UnsupportedTypeKind)
    ));
    assert!(matches!(build(vec![TypeDeclaration::Schema]), Err(ParsedError::UnsupportedTypeKind)));
    assert!(matches!(
        build(vec![entity("A", vec![field("grid", "[[ID]]")])]),
        Err(ParsedError::ListTypesUnsupported)
    ));
    assert!(matches!(
        build(vec![TypeDeclaration::Union { name: "U".to_string(), members: vec!["A".to_string()] }]),
        Err(ParsedError::UnionMemberNotFound(_))
    ));
    assert!(matches!(
        build(vec![
            entity("A", vec![field("id", "ID!")]),
            entity("B", vec![joined("a", "A!", "missing")]),
        ]),
        Err(ParsedError::FieldReferenceNotFound(_))
    ));
    assert!(matches!(
        build(vec![
            TypeDeclaration::Enum { name: "E".to_string(), values: vec!["X".to_string()] },
            entity("A", vec![field("id", "ID!")]),
            TypeDeclaration::Union {
                name: "U".to_string(),
                members: vec!["E".to_string(), "A".to_string()],
            },
        ]),
        Err(ParsedError::InconsistentVirtualUnion(_))
    ));
}

#[test]
fn join_table_meta_lowercases_table_names() {
    let meta = JoinTableMeta::new("Wallet", "id", "Account", "id", Some(0));
    assert_eq!(meta.parent_table_name(), "wallet");
    assert_eq!(meta.child_table_name(), "account");
    assert_eq!(meta.parent_column_name(), "id");
    assert_eq!(meta.child_column_name(), "id");
    assert_eq!(meta.table_name(), "wallets_accounts");
    assert_eq!(meta.parent().typedef_name, "Wallet");
    assert_eq!(meta.parent().child_position, Some(0));
    assert_eq!(meta.child().typedef_name, "Account");
}

#[test]
fn type_definitions_are_listed_in_document_order() {
    let parsed = parse("type Plain { id: ID! }\nenum E { X }\ntype A @entity { id: ID! }\nunion U = A").unwrap();
    let all = parsed.type_defs();
    assert_eq!(all.len(), 4);
    assert!(matches!(all[0], TypeDeclaration::Enum { name, .. } if name == "E"));
    assert!(matches!(all[1], TypeDeclaration::Object { name, .. } if name == "A"));
    assert!(matches!(all[2], TypeDeclaration::Union { name, .. } if name == "U"));
    assert!(matches!(all[3], TypeDeclaration::Object { name, .. } if name == "IndexMetadataEntity"));
    let non_enum = parsed.non_enum_typdefs();
    assert_eq!(non_enum.len(), 3);
    assert!(matches!(non_enum[0], TypeDeclaration::Object { name, .. } if name == "A"));
    assert_eq!(ParsedGraphQLSchema::default().type_defs().len(), 0);
    let copy = parsed.clone();
    assert_eq!(copy.join_table_meta().len(), parsed.join_table_meta().len());
    assert_eq!(copy.ast(), parsed.ast());
}

#[test]
fn declarations_from_converts_each_definition_in_order() {
    let doc = async_graphql_parser::parse_schema(
        "type A @entity { id: ID! }\nenum E { X }\nunion U = A\ninterface I { id: ID! }",
    )
    .unwrap();
    let decls = declarations_from(&doc.definitions);
    assert_eq!(decls.len(), 4);
    assert_eq!(
        decls[0],
        TypeDeclaration::Object {
            name: "A".to_string(),
            fields: vec![Field { name: "id".to_string(), ty: "ID!".to_string(), directives: vec![] }],
            directives: vec![Directive { name: "entity".to_string(), arguments: vec![] }],
        }
    );
    assert_eq!(decls[1], TypeDeclaration::Enum { name: "E".to_string(), values: vec!["X".to_string()] });
    assert_eq!(decls[2], TypeDeclaration::Union { name: "U".to_string(), members: vec!["A".to_string()] });
    assert_eq!(decls[3], TypeDeclaration::Interface { name: "I".to_string() });
    assert_eq!(declarations_from(&vec![]).len(), 0);
    assert_eq!(
        parse_declarations("type A @entity { id: ID! }\nenum E { X }\nunion U = A\ninterface I { id: ID! }")
            .unwrap(),
        decls
    );
}
