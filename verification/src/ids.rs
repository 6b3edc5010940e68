//! Fresh identifiers.
use vstd::prelude::*;

verus! {

/// Whether `c` is a digit or one of the letters `a` to `f`.
pub open spec fn is_lower_hex(c: char) -> bool {
    '0' as int <= c as int <= '9' as int || 'a' as int <= c as int <= 'f' as int
}

/// Whether `id` has the shape of a UUID without hyphens.
pub open spec fn is_simple_uuid(id: Seq<char>) -> bool {
    id.len() == 32 && forall|i: int| 0 <= i < id.len() ==> is_lower_hex(#[trigger] id[i])
}

/// Whether every id of `ids` has the shape of a UUID without hyphens.
pub open spec fn are_simple_uuids(ids: Seq<Seq<char>>) -> bool {
    forall|i: int| 0 <= i < ids.len() ==> is_simple_uuid(#[trigger] ids[i])
}

/// `uuid::Uuid::new_v4` in its `simple` form: 32 lower case hexadecimal digits. Which ones is a
/// matter of chance.
#[verifier::external_body]
fn new_uuid() -> (id: String)
    ensures
        is_simple_uuid(id@),
{
    uuid::Uuid::new_v4().simple().to_string()
}

/// A fresh id.
pub fn fresh_id() -> (id: String)
    ensures
        is_simple_uuid(id@),
{
    new_uuid()
}

/// As many fresh ids as asked for.
pub fn fresh_ids(count: usize) -> (ids: Vec<String>)
    ensures
        ids@.len() == count,
        are_simple_uuids(ids.deep_view()),
{
    let mut ids: Vec<String> = Vec::new();
    for index in 0..count
        invariant
            ids@.len() == index,
            forall|k: int| 0 <= k < index ==> is_simple_uuid(#[trigger] ids@[k]@),
    {
        ids.push(new_uuid());
    }
    proof {
        assert forall|i: int| 0 <= i < ids.deep_view().len() implies is_simple_uuid(
            #[trigger] ids.deep_view()[i],
        ) by {
            assert(is_simple_uuid(ids@[i]@));
        }
    }
    ids
}

/// `prefix`, an underscore and `id`.
pub open spec fn prefixed_id(prefix: Seq<char>, id: Seq<char>) -> Seq<char> {
    prefix + "_"@ + id
}

/// An item id made of a prefix and a fresh part.
pub fn item_id(prefix: &str, id: &str) -> (result: String)
    ensures
        result@ == prefixed_id(prefix@, id@),
{
    let mut result = prefix.to_string();
    result.push_str("_");
    result.push_str(id);
    result
}

} // verus!
