use fuel_indexer_lib::collections::{insert_inner, push_entry, NameMap, NameSet};
use fuel_indexer_lib::digest::{leading_i64_of, lower_hex};
use fuel_indexer_lib::graphql::document::{Directive, Field};
use fuel_indexer_lib::graphql::parser::ParsedError;
use fuel_indexer_lib::graphql::types::IdCol;
use fuel_indexer_lib::graphql::{
    extract_foreign_key_info, field_id, field_type_name, inject_native_entities_into_schema,
    is_list_type, is_nullable, list_field_type_name, schema_version, GraphQLSchema, IndexMetadata,
};
use fuel_indexer_lib::text::{count_brackets, same_text, strip};
use fuel_indexer_lib::{
    fully_qualified_namespace, join_table_name, join_table_typedefs_name, type_id, ExecutionSource,
    MAX_ARRAY_LENGTH,
};

fn field(name: &str, ty: &str) -> Field {
    Field { name: name.to_string(), ty: ty.to_string(), directives: vec![] }
}

#[test]
fn join_table_name_appends_s_to_both_sides() {
    assert_eq!(join_table_name("wallet", "account"), "wallets_accounts");
    assert_eq!(join_table_name("", ""), "s_s");
}

#[test]
fn join_table_typedefs_name_splits_and_trims() {
    assert_eq!(
        join_table_typedefs_name("wallets_accounts"),
        ("wallet".to_string(), "account".to_string())
    );
    assert_eq!(join_table_typedefs_name("as_bs_cs"), ("a".to_string(), "b".to_string()));
    assert_eq!(join_table_typedefs_name("x_y"), ("".to_string(), "".to_string()));
}

#[test]
fn fully_qualified_namespace_joins_with_underscore() {
    assert_eq!(fully_qualified_namespace("fuel", "index1"), "fuel_index1");
}

#[test]
fn field_id_joins_with_dot() {
    assert_eq!(field_id("Account", "label"), "Account.label");
}

#[test]
fn type_id_is_the_leading_digest_bytes() {
    assert_eq!(type_id("fuel", "BlockData"), 6207171184753131468);
    assert_eq!(type_id("a", "b"), -8524362500339035639);
    assert_eq!(type_id("ns", "x"), -4848394763039690580);
}

#[test]
fn leading_i64_reads_big_endian() {
    assert_eq!(leading_i64_of(&vec![0, 0, 0, 0, 0, 0, 1, 2, 9]), 258);
    assert_eq!(leading_i64_of(&vec![255; 8]), -1);
    assert_eq!(leading_i64_of(&vec![128, 0, 0, 0, 0, 0, 0, 0]), i64::MIN);
    assert_eq!(leading_i64_of(&vec![127, 255, 255, 255, 255, 255, 255, 255]), i64::MAX);
}

#[test]
fn lower_hex_writes_two_digits_per_byte() {
    assert_eq!(lower_hex(&vec![0, 1, 15, 16, 171, 255]), "00010f10abff");
    assert_eq!(lower_hex(&vec![]), "");
}

#[test]
fn schema_version_is_the_sha256_of_the_text() {
    assert_eq!(
        schema_version(""),
        "e3b0c44298fc1c149afbf4c8996fb92427ae41e4649b934ca495991b7852b855"
    );
    assert_eq!(
        schema_version("abc"),
        "ba7816bf8f01cfea414140de5dae2223b00361a396177a9cb410ff61f20015ad"
    );
}

#[test]
fn schema_version_is_the_same_for_the_same_text_and_differs_after_a_change() {
    let a = String::from("type A @entity { id: ID! }");
    let b = String::from("type A @entity { id: ID! }");
    assert_eq!(schema_version(&a), schema_version(&b));
    assert_ne!(schema_version("abc"), schema_version("abd"));
    assert_eq!(
        schema_version("abd"),
        "a52d159f262b2c6ddb724a61840befc36eb30c88877a4030b65cbe86298449c9"
    );
}

#[test]
fn schema_constructors_append_the_native_entities() {
    let text = "type A @entity { id: ID! }";
    let injected = inject_native_entities_into_schema(text);
    assert_eq!(injected, format!("{}{}", text, IndexMetadata::schema_fragment()));
    assert!(injected.ends_with("block_id: Bytes32!\n}\n"));
    let made = GraphQLSchema::new(text.to_string());
    assert_eq!(made.schema(), injected);
    assert_eq!(made.version(), "f1b08b39d51d8979d5bc64c99f3ad4a38601beb0d592b5e446f67e94910f45a2");
    let raw = GraphQLSchema::from(text.to_string());
    assert_eq!(raw.schema(), injected);
    assert_eq!(raw.version(), "acbdbc8f55691b460cf20c72096b08da9f916b8c2f698e251a8c8d1131f7602c");
    assert_eq!(made.to_bytes(), injected.as_bytes().to_vec());
    let copy = made.duplicate();
    assert_eq!(copy.schema(), made.schema());
    assert_eq!(copy.version(), made.version());
    let empty = GraphQLSchema::default();
    assert_eq!(empty.schema(), "");
    assert_eq!(empty.version(), "");
}

#[test]
fn signatures_are_read_by_their_decorations() {
    assert!(is_list_type(&field("a", "[Account!]!")));
    assert!(is_list_type(&field("a", "[Account]")));
    assert!(!is_list_type(&field("a", "Account!")));
    assert!(!is_list_type(&field("a", "[[Account]]")));
    assert_eq!(field_type_name(&field("a", "[Account!]!")), "Account");
    assert_eq!(field_type_name(&field("a", "Account")), "Account");
    assert_eq!(list_field_type_name(&field("a", "[Account!]!")), "[Account]");
    assert_eq!(list_field_type_name(&field("a", "Account!")), "Account");
    assert!(is_nullable(&field("a", "Account")));
    assert!(is_nullable(&field("a", "[Account!]")));
    assert!(!is_nullable(&field("a", "[Account]!")));
    assert!(is_nullable(&field("a", "")));
    assert_eq!(count_brackets("[[a]]b["), 5);
    assert_eq!(strip("[É!]!", true), "É");
    assert_eq!(strip("[É!]!", false), "[É]");
    assert!(same_text("join", "join"));
    assert!(!same_text("join", "joint"));
}

#[test]
fn foreign_key_info_is_implicit_without_a_join_directive() {
    let types: NameMap<String> = NameMap::new();
    let info = extract_foreign_key_info(&field("account", "[Account!]!"), &types).unwrap();
    assert_eq!(info, ("UInt8".to_string(), "id".to_string(), "account".to_string()));
    let bare = Field {
        name: "account".to_string(),
        ty: "Account".to_string(),
        directives: vec![
            Directive { name: "other".to_string(), arguments: vec![("on".to_string(), "x".to_string())] },
            Directive { name: "join".to_string(), arguments: vec![] },
        ],
    };
    let info = extract_foreign_key_info(&bare, &types).unwrap();
    assert_eq!(info, ("UInt8".to_string(), "id".to_string(), "account".to_string()));
}

#[test]
fn foreign_key_info_follows_the_join_directive() {
    let mut types: NameMap<String> = NameMap::new();
    types.insert("City.name".to_string(), "[Charfield!]!".to_string());
    let f = Field {
        name: "city".to_string(),
        ty: "City!".to_string(),
        directives: vec![Directive {
            name: "join".to_string(),
            arguments: vec![
                ("first".to_string(), "zip".to_string()),
                ("on".to_string(), "name".to_string()),
            ],
        }],
    };
    let info = extract_foreign_key_info(&f, &types).unwrap();
    assert_eq!(info, ("Charfield".to_string(), "name".to_string(), "city".to_string()));
    let empty: NameMap<String> = NameMap::new();
    match extract_foreign_key_info(&f, &empty) {
        Err(ParsedError::FieldReferenceNotFound(fid)) => assert_eq!(fid, "City.name"),
        _ => panic!("expected a missing field reference"),
    }
}

#[test]
fn name_map_keeps_one_value_per_key() {
    let mut m: NameMap<u64> = NameMap::new();
    assert_eq!(m.len(), 0);
    m.insert("a".to_string(), 1);
    m.insert("b".to_string(), 2);
    m.insert("a".to_string(), 3);
    assert_eq!(m.len(), 2);
    assert_eq!(m.get("a"), Some(&3));
    assert_eq!(m.get("b"), Some(&2));
    assert_eq!(m.get("c"), None);
    assert!(m.contains_key("b"));
    assert_eq!(m.remove("a"), Some(3));
    assert_eq!(m.remove("a"), None);
    assert!(!m.contains_key("a"));
    assert_eq!(m.len(), 1);
}

#[test]
fn name_map_helpers_start_missing_entries() {
    let mut lists: NameMap<Vec<u64>> = NameMap::new();
    push_entry(&mut lists, "a", 1);
    push_entry(&mut lists, "a", 2);
    push_entry(&mut lists, "b", 3);
    assert_eq!(lists.get("a"), Some(&vec![1, 2]));
    assert_eq!(lists.get("b"), Some(&vec![3]));
    let mut maps: NameMap<NameMap<u64>> = NameMap::new();
    insert_inner(&mut maps, "a", "x".to_string(), 1);
    insert_inner(&mut maps, "a", "y".to_string(), 2);
    insert_inner(&mut maps, "a", "x".to_string(), 3);
    assert_eq!(maps.len(), 1);
    assert_eq!(maps.get("a").unwrap().len(), 2);
    assert_eq!(maps.get("a").unwrap().get("x"), Some(&3));
}

#[test]
fn name_set_holds_each_name_once() {
    let mut s = NameSet::new();
    s.insert("a".to_string());
    s.insert("a".to_string());
    s.insert("b".to_string());
    assert_eq!(s.len(), 2);
    assert!(s.contains("a"));
    assert!(!s.contains("c"));
}

#[test]
fn fixed_names_and_defaults() {
    assert_eq!(IdCol::to_lowercase_str(), "id");
    assert_eq!(IdCol::to_lowercase_string(), "id");
    assert_eq!(ExecutionSource::default(), ExecutionSource::Wasm);
    assert_eq!(MAX_ARRAY_LENGTH, 2500);
}
