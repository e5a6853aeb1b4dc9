//! Fixed names of the identifier column.

use vstd::prelude::*;

verus! {

/// The identifier column that every entity has.
#[derive(Clone, Copy, Debug, PartialEq, Eq, Structural)]
pub enum IdCol {
    Id,
}

/// The characters of the identifier column's lower-case name.
pub open spec fn id_column() -> Seq<char> {
    seq!['i', 'd']
}

impl IdCol {
    /// The lower-case name of the identifier column, `id`.
    pub fn to_lowercase_str() -> (r: &'static str)
        ensures
            r@ == id_column(),
    {
        proof {
            reveal_strlit("id");
        }
        let r = "id";
        assert(r@ =~= id_column());
        r
    }

    /// The lower-case name of the identifier column as an owned text.
    pub fn to_lowercase_string() -> (r: String)
        ensures
            r@ == id_column(),
    {
        String::from_str(IdCol::to_lowercase_str())
    }
}

} // verus!
