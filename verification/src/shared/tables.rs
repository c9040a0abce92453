//! The layout of the DynamoDB tables the stores use, and the decisions made
//! while setting one up: whether a table is listed, and whether it is
//! ready.
use vstd::prelude::*;
use crate::text::{eq_str, owned};

verus! {

/// The role of an attribute in a key: the partition (hash) key or the sort
/// (range) key.
#[derive(Clone, Copy, Debug, PartialEq, Eq, Structural)]
pub enum IndexKeyType {
    Hash,
    Range,
}

/// A secondary index of a table: its name, the attribute it is keyed by,
/// and that attribute's role in the key.
#[derive(Debug)]
pub struct IndexSpec {
    pub name: String,
    pub attribute: String,
    pub key_type: IndexKeyType,
}

/// `s` is the index `name` with `attribute` as its partition key.
pub open spec fn index_is(s: IndexSpec, name: Seq<char>, attribute: Seq<char>) -> bool {
    s.name@ == name && s.attribute@ == attribute && s.key_type == IndexKeyType::Hash
}

/// The secondary indexes of the invitation table: by box, by invite code and
/// by creator.
pub fn invitation_table_indexes() -> (r: Vec<IndexSpec>)
    ensures
        r@.len() == 3,
        index_is(r@[0], "box_id-index"@, "box_id"@),
        index_is(r@[1], "invite_code-index"@, "invite_code"@),
        index_is(r@[2], "creator_id-index"@, "creator_id"@),
{
    let mut v: Vec<IndexSpec> = Vec::new();
    v.push(IndexSpec {
        name: owned("box_id-index"),
        attribute: owned("box_id"),
        key_type: IndexKeyType::Hash,
    });
    v.push(IndexSpec {
        name: owned("invite_code-index"),
        attribute: owned("invite_code"),
        key_type: IndexKeyType::Hash,
    });
    v.push(IndexSpec {
        name: owned("creator_id-index"),
        attribute: owned("creator_id"),
        key_type: IndexKeyType::Hash,
    });
    v
}

/// The secondary indexes of the box table: by owner.
pub fn box_table_indexes() -> (r: Vec<IndexSpec>)
    ensures
        r@.len() == 1,
        index_is(r@[0], "owner_id-index"@, "ownerId"@),
{
    let mut v: Vec<IndexSpec> = Vec::new();
    v.push(IndexSpec {
        name: owned("owner_id-index"),
        attribute: owned("ownerId"),
        key_type: IndexKeyType::Hash,
    });
    v
}

/// Whether `table` is among the listed table names.
pub fn is_listed(names: &Vec<String>, table: &str) -> (r: bool)
    ensures
        r == exists|i: int| 0 <= i < names@.len() && #[trigger] names@[i]@ == table@,
{
    let mut i: usize = 0;
    while i < names.len()
        invariant
            i <= names@.len(),
            forall|j: int| 0 <= j < i ==> #[trigger] names@[j]@ != table@,
        decreases names@.len() - i,
    {
        if eq_str(&names[i], table) {
            return true;
        }
        i = i + 1;
    }
    false
}

/// Whether a table is ready for use: the table is active, and so is each of
/// its secondary indexes.
pub fn table_ready(table_active: bool, indexes_active: &Vec<bool>) -> (r: bool)
    ensures
        r == (table_active && forall|i: int| 0 <= i < indexes_active@.len() ==> #[trigger] indexes_active@[i]),
{
    if !table_active {
        return false;
    }
    let mut i: usize = 0;
    while i < indexes_active.len()
        invariant
            i <= indexes_active@.len(),
            forall|j: int| 0 <= j < i ==> #[trigger] indexes_active@[j],
        decreases indexes_active@.len() - i,
    {
        if !indexes_active[i] {
            return false;
        }
        i = i + 1;
    }
    true
}

} // verus!
