//! Schema analysis for an indexer: naming helpers, content digests and the
//! semantic model built from a schema's type declarations.

use vstd::prelude::*;

pub mod collections;
pub mod digest;
pub mod graphql;
pub mod text;

verus! {

/// Max size of Postgres array types.
pub const MAX_ARRAY_LENGTH: usize = 2500;

/// The source of execution for the indexer.
#[derive(Clone, Copy, Debug, PartialEq, Eq, Structural)]
pub enum ExecutionSource {
    /// The indexer is being executed as a standalone binary.
    Native,
    /// The indexer is being executed in a WASM runtime.
    Wasm,
}

impl Default for ExecutionSource {
    fn default() -> (r: Self)
        ensures
            r == ExecutionSource::Wasm,
    {
        ExecutionSource::Wasm
    }
}

/// The text `{namespace}_{identifier}`.
pub open spec fn fully_qualified_namespace_text(namespace: Seq<char>, identifier: Seq<char>) -> Seq<char> {
    namespace + seq!['_'] + identifier
}

/// Return a fully qualified indexer namespace.
pub fn fully_qualified_namespace(namespace: &str, identifier: &str) -> (r: String)
    ensures
        r@ == fully_qualified_namespace_text(namespace@, identifier@),
{
    proof {
        reveal_strlit("_");
    }
    let mut out = String::from_str(namespace);
    out.append("_");
    out.append(identifier);
    assert(out@ =~= fully_qualified_namespace_text(namespace@, identifier@));
    out
}

/// The text `{a}s_{b}s`.
pub open spec fn join_table_name_text(a: Seq<char>, b: Seq<char>) -> Seq<char> {
    a + seq!['s', '_'] + b + seq!['s']
}

/// Return the name of the join table for the given entities.
pub fn join_table_name(a: &str, b: &str) -> (r: String)
    ensures
        r@ == join_table_name_text(a@, b@),
{
    proof {
        reveal_strlit("s_");
        reveal_strlit("s");
    }
    let mut out = String::from_str(a);
    out.append("s_");
    out.append(b);
    out.append("s");
    assert(out@ =~= join_table_name_text(a@, b@));
    out
}

/// The text `{name}:{namespace}` whose digest gives a type ID.
pub open spec fn type_id_text(namespace: Seq<char>, name: Seq<char>) -> Seq<char> {
    name + seq![':'] + namespace
}

/// The type ID of a name in a namespace: the first eight bytes of the
/// SHA-256 digest of `{name}:{namespace}`, read as a big-endian signed integer.
pub open spec fn type_id_value(namespace: Seq<char>, name: Seq<char>) -> int {
    digest::leading_i64(digest::sha256(vstd::utf8::encode_utf8(type_id_text(namespace, name))))
}

/// Derive a type ID from a namespace and given abstraction name.
pub fn type_id(namespace: &str, name: &str) -> (r: i64)
    ensures
        r == type_id_value(namespace@, name@),
{
    proof {
        reveal_strlit(":");
    }
    let mut text = String::from_str(name);
    text.append(":");
    text.append(namespace);
    assert(text@ =~= type_id_text(namespace@, name@));
    let d = digest::sha256_digest(text.as_str().as_bytes());
    digest::leading_i64_of(&d)
}

/// The length of the token that starts at `from` and ends before the next
/// underscore or at the end of the text.
pub open spec fn token_len(s: Seq<char>, from: int) -> nat
    decreases s.len() - from,
{
    if from < 0 || from >= s.len() || s[from] == '_' {
        0
    } else {
        1 + token_len(s, from + 1)
    }
}

/// Whether a join table's name can be split: it holds an underscore, and
/// each of its first two tokens is non-empty and ends in a one-byte character.
pub open spec fn splits_into_typedefs(s: Seq<char>) -> bool {
    let a = token_len(s, 0) as int;
    let b = token_len(s, a + 1) as int;
    &&& a < s.len()
    &&& a > 0
    &&& b > 0
    &&& (s[a - 1] as u32) < 128
    &&& (s[a + b] as u32) < 128
}

/// The first two underscore-separated tokens of a join table's name, each
/// without its last character.
pub open spec fn join_table_typedefs(s: Seq<char>) -> (Seq<char>, Seq<char>) {
    let a = token_len(s, 0) as int;
    let b = token_len(s, a + 1) as int;
    (s.subrange(0, a - 1), s.subrange(a + 1, a + b))
}

fn token_end(s: &str, from: usize) -> (r: usize)
    requires
        from <= s@.len(),
    ensures
        r == from + token_len(s@, from as int),
        r <= s@.len(),
{
    let n = s.unicode_len();
    let mut i: usize = from;
    while i < n && s.get_char(i) != '_'
        invariant
            n == s@.len(),
            from <= i <= n,
            token_len(s@, from as int) == (i - from) + token_len(s@, i as int),
        decreases n - i,
    {
        i = i + 1;
    }
    i
}

/// Return the name of each TypeDefinition in the join table.
pub fn join_table_typedefs_name(join_table_name: &str) -> (r: (String, String))
    requires
        splits_into_typedefs(join_table_name@),
    ensures
        (r.0@, r.1@) == join_table_typedefs(join_table_name@),
{
    let n = join_table_name.unicode_len();
    let a = token_end(join_table_name, 0);
    assert(a < n);
    let b = token_end(join_table_name, a + 1);
    let first = join_table_name.substring_char(0, a - 1);
    let second = join_table_name.substring_char(a + 1, b - 1);
    (String::from_str(first), String::from_str(second))
}

} // verus!
