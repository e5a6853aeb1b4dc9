//! Schema text, its content digest, and the reading of field signatures.

pub mod document;
pub mod laws;
pub mod model;
pub mod parser;
pub mod types;

use crate::collections::NameMap;
use crate::digest::{lower_hex, lower_hex_text, sha256, sha256_digest};
use crate::graphql::document::{DirectiveView, Field, FieldView};
use crate::graphql::parser::{ParsedError, ParsedErrorView};
use crate::graphql::types::{id_column, IdCol};
use crate::text::{bracket_count, count_brackets, lowercase, lowercase_text, same_text, strip, stripped};
use vstd::prelude::*;

verus! {

/// Maximum amount of foreign key list fields that can exist on a `TypeDefinition`
pub const MAX_FOREIGN_KEY_LIST_FIELDS: usize = 10;

/// Base GraphQL schema containing base scalars.
pub const BASE_SCHEMA: &'static str =
    "scalar Address\nscalar AssetId\nscalar Blob\nscalar BlockHeight\nscalar BlockId\nscalar Boolean\nscalar Bytes\nscalar Bytes32\nscalar Bytes4\nscalar Bytes64\nscalar Bytes8\nscalar Charfield\nscalar Color\nscalar ContractId\nscalar HexString\nscalar ID\nscalar Identity\nscalar Int1\nscalar Int16\nscalar Int4\nscalar Int8\nscalar Json\nscalar MessageId\nscalar Nonce\nscalar Salt\nscalar Signature\nscalar Tai64Timestamp\nscalar TxId\nscalar UInt1\nscalar UInt16\nscalar UInt4\nscalar UInt8\nscalar Virtual\n";

/// The schema fragment of the entity that records chain metadata.
pub const INDEX_METADATA_FRAGMENT: &'static str =
    "\n\ntype IndexMetadataEntity @entity {\n    id: ID!\n    time: UInt8!\n    block_height: UInt8!\n    block_id: Bytes32!\n}\n";

/// The version of a schema text: the lower-case hexadecimal SHA-256 digest
/// of its UTF-8 bytes.
pub open spec fn schema_version_text(schema: Seq<char>) -> Seq<char> {
    lower_hex_text(sha256(vstd::utf8::encode_utf8(schema)))
}

/// Derive version of GraphQL schema content via SHA256.
pub fn schema_version(schema: &str) -> (r: String)
    ensures
        r@ == schema_version_text(schema@),
        r@.len() == 64,
{
    let d = sha256_digest(schema.as_bytes());
    proof {
        crate::digest::lemma_lower_hex_len(d@);
    }
    lower_hex(&d)
}

/// The version is a function of the characters alone: two schema texts with
/// the same characters have the same version.
pub proof fn lemma_schema_version_deterministic(a: &str, b: &str)
    requires
        a@ == b@,
    ensures
        schema_version_text(a@) == schema_version_text(b@),
{
}

/// Native GraphQL `TypeDefinition` used to keep track of chain metadata.
#[derive(Clone, Debug)]
pub struct IndexMetadata {
    /// Metadata identifier.
    pub id: u64,
    /// Time of metadata.
    pub time: u64,
    /// Block height of metadata.
    pub block_height: u32,
    /// Block ID of metadata.
    pub block_id: String,
}

impl IndexMetadata {
    /// Return the GraphQL schema fragment for the `IndexMetadata` type.
    pub fn schema_fragment() -> (r: &'static str)
        ensures
            r@ == INDEX_METADATA_FRAGMENT@,
    {
        INDEX_METADATA_FRAGMENT
    }
}

/// A schema text followed by the fragment of the built-in entities.
pub open spec fn with_native_entities(schema: Seq<char>) -> Seq<char> {
    schema + INDEX_METADATA_FRAGMENT@
}

/// Inject native entities into the GraphQL schema.
pub fn inject_native_entities_into_schema(schema: &str) -> (r: String)
    ensures
        r@ == with_native_entities(schema@),
{
    let mut out = String::from_str(schema);
    out.append(IndexMetadata::schema_fragment());
    out
}

/// Wrapper for GraphQL schema content.
#[derive(Debug, Clone)]
pub struct GraphQLSchema {
    /// Raw GraphQL schema content.
    schema: String,
    /// Version of the schema.
    version: String,
}

pub struct GraphQLSchemaView {
    pub schema: Seq<char>,
    pub version: Seq<char>,
}

impl View for GraphQLSchema {
    type V = GraphQLSchemaView;

    closed spec fn view(&self) -> GraphQLSchemaView {
        GraphQLSchemaView { schema: self.schema@, version: self.version@ }
    }
}

impl Default for GraphQLSchema {
    fn default() -> (r: Self)
        ensures
            r@.schema == Seq::<char>::empty(),
            r@.version == Seq::<char>::empty(),
    {
        GraphQLSchema { schema: String::new(), version: String::new() }
    }
}

impl From<String> for GraphQLSchema {
    /// Like `GraphQLSchema::new`, but the version is the digest of the raw
    /// content, before the built-in entities are appended.
    fn from(s: String) -> (r: Self)
        ensures
            r@.schema == with_native_entities(s@),
            r@.version == schema_version_text(s@),
    {
        let schema = inject_native_entities_into_schema(s.as_str());
        let version = schema_version(s.as_str());
        GraphQLSchema { schema, version }
    }
}

impl vstd::std_specs::convert::FromSpecImpl<String> for GraphQLSchema {
    open spec fn obeys_from_spec() -> bool {
        false
    }

    open spec fn from_spec(s: String) -> Self {
        arbitrary()
    }
}

impl GraphQLSchema {
    /// Create a new `GraphQLSchema` from raw GraphQL content. The built-in
    /// entities are appended, and the version is the digest of the text
    /// with them.
    pub fn new(content: String) -> (r: Self)
        ensures
            r@.schema == with_native_entities(content@),
            r@.version == schema_version_text(with_native_entities(content@)),
    {
        let schema = inject_native_entities_into_schema(content.as_str());
        let version = schema_version(schema.as_str());
        GraphQLSchema { schema, version }
    }

    pub fn schema(&self) -> (r: &str)
        ensures
            r@ == self@.schema,
    {
        self.schema.as_str()
    }

    pub fn version(&self) -> (r: &str)
        ensures
            r@ == self@.version,
    {
        self.version.as_str()
    }

    /// A copy with the same text and version.
    pub fn duplicate(&self) -> (r: Self)
        ensures
            r@ == self@,
    {
        GraphQLSchema { schema: self.schema.clone(), version: self.version.clone() }
    }

    /// The UTF-8 bytes of the schema text.
    pub fn to_bytes(&self) -> (r: Vec<u8>)
        ensures
            r@ == vstd::utf8::encode_utf8(self@.schema),
    {
        vstd::slice::slice_to_vec(self.schema.as_str().as_bytes())
    }
}

/// The text `{typdef_name}.{field_name}`.
pub open spec fn field_id_text(typdef_name: Seq<char>, field_name: Seq<char>) -> Seq<char> {
    typdef_name + seq!['.'] + field_name
}

/// Return a fully qualified name for a given `FieldDefinition` on a given `TypeDefinition`.
pub fn field_id(typdef_name: &str, field_name: &str) -> (r: String)
    ensures
        r@ == field_id_text(typdef_name@, field_name@),
{
    proof {
        reveal_strlit(".");
    }
    let mut out = String::from_str(typdef_name);
    out.append(".");
    out.append(field_name);
    assert(out@ =~= field_id_text(typdef_name@, field_name@));
    out
}

/// A signature denotes a single-level list where it holds exactly two
/// bracket characters.
pub open spec fn is_list_signature(ty: Seq<char>) -> bool {
    bracket_count(ty) == 2
}

/// A signature is nullable unless it ends in `!`.
pub open spec fn is_nullable_signature(ty: Seq<char>) -> bool {
    ty.len() == 0 || ty.last() != '!'
}

/// Whether a given `FieldDefinition` is a `List` type.
pub fn is_list_type(f: &Field) -> (r: bool)
    ensures
        r == is_list_signature(f.ty@),
{
    count_brackets(f.ty.as_str()) == 2
}

/// Whether a field may be absent: its signature does not end in `!`.
pub fn is_nullable(f: &Field) -> (r: bool)
    ensures
        r == is_nullable_signature(f.ty@),
{
    let n = f.ty.as_str().unicode_len();
    n == 0 || f.ty.as_str().get_char(n - 1) != '!'
}

/// Return the simple field name for a given `FieldDefinition`.
pub fn field_type_name(f: &Field) -> (r: String)
    ensures
        r@ == stripped(f.ty@, true),
{
    strip(f.ty.as_str(), true)
}

/// Return the simple field name for a given list `FieldDefinition`.
pub fn list_field_type_name(f: &Field) -> (r: String)
    ensures
        r@ == stripped(f.ty@, false),
{
    strip(f.ty.as_str(), false)
}

/// Where the first directive named `join` stands, searching from `from`.
pub open spec fn join_directive_index(ds: Seq<DirectiveView>, from: int) -> Option<int>
    decreases ds.len() - from,
{
    if from < 0 || from >= ds.len() {
        None
    } else if ds[from].name == "join"@ {
        Some(from)
    } else {
        join_directive_index(ds, from + 1)
    }
}

/// The column that a field's relationship directive names: the value of the
/// last argument of its first `join` directive. `None` where the field has
/// no such directive or the directive has no argument.
pub open spec fn join_column(f: FieldView) -> Option<Seq<char>> {
    match join_directive_index(f.directives, 0) {
        Some(i) => if f.directives[i].arguments.len() > 0 {
            Some(f.directives[i].arguments.last().1)
        } else {
            None
        },
        None => None,
    }
}

/// The column type, column name and table name that a foreign-key field
/// refers to, given the types of the fields indexed so far.
pub open spec fn foreign_key_info(f: FieldView, field_types: Map<Seq<char>, Seq<char>>) -> Result<
    (Seq<char>, Seq<char>, Seq<char>),
    ParsedErrorView,
> {
    let named_type = stripped(f.ty, true);
    match join_column(f) {
        Some(column) => {
            let fid = field_id_text(named_type, column);
            if field_types.contains_key(fid) {
                Ok((stripped(field_types[fid], true), column, lowercase_text(named_type)))
            } else {
                Err(ParsedErrorView::FieldReferenceNotFound(fid))
            }
        },
        None => Ok(("UInt8"@, id_column(), lowercase_text(named_type))),
    }
}

fn find_join_column(f: &Field) -> (r: Option<String>)
    ensures
        r.deep_view() == join_column(f.deep_view()),
{
    let mut i: usize = 0;
    while i < f.directives.len()
        invariant
            i <= f.directives@.len(),
            join_directive_index(f.deep_view().directives, 0) == join_directive_index(
                f.deep_view().directives,
                i as int,
            ),
        decreases f.directives@.len() - i,
    {
        let d = &f.directives[i];
        assert(f.deep_view().directives[i as int] == d.deep_view());
        if same_text(d.name.as_str(), "join") {
            let n = d.arguments.len();
            if n > 0 {
                assert(d.deep_view().arguments.last() == d.arguments@[n - 1].deep_view());
                return Some(d.arguments[n - 1].1.clone());
            } else {
                return None;
            }
        }
        i = i + 1;
    }
    None
}

/// Given a `FieldDefinition` that is a possible foreign key (according to `ParsedGraphQLSchema`),
/// return the column type, column name, and table name of the foreign key.
///
/// Fails where the field names a column through a `join` directive and that
/// column's field has not been indexed.
pub fn extract_foreign_key_info(f: &Field, field_type_mappings: &NameMap<String>) -> (r: Result<
    (String, String, String),
    ParsedError,
>)
    ensures
        match r {
            Ok(info) => foreign_key_info(f.deep_view(), field_type_mappings.deep_view()) == Ok::<
                (Seq<char>, Seq<char>, Seq<char>),
                ParsedErrorView,
            >((info.0@, info.1@, info.2@)),
            Err(e) => foreign_key_info(f.deep_view(), field_type_mappings.deep_view()) == Err::<
                (Seq<char>, Seq<char>, Seq<char>),
                ParsedErrorView,
            >(e@),
        },
{
    let named_type = field_type_name(f);
    let table = lowercase(named_type.as_str());
    match find_join_column(f) {
        Some(column) => {
            let fid = field_id(named_type.as_str(), column.as_str());
            match field_type_mappings.get(fid.as_str()) {
                Some(referenced) => Ok((strip(referenced.as_str(), true), column, table)),
                None => Err(ParsedError::FieldReferenceNotFound(fid)),
            }
        },
        None => Ok((String::from_str("UInt8"), IdCol::to_lowercase_string(), table)),
    }
}

} // verus!
