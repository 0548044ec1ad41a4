//! String-keyed counters and lookups, stored in `litemap`'s sorted-vector
//! map. Only these trusted items call into the crate; everything else reaches
//! the map through its contents, named by `str_map_contents`.

use vstd::prelude::*;

verus! {

#[verifier::external_type_specification]
#[verifier::external_body]
#[verifier::reject_recursive_types(K)]
#[verifier::reject_recursive_types(V)]
#[verifier::reject_recursive_types(S)]
pub struct ExLiteMap<K: ?Sized, V: ?Sized, S>(litemap::LiteMap<K, V, S>);

/// The contents of a map with nothing in it.
pub open spec fn empty_str_map() -> Map<Seq<char>, usize> {
    Map::empty()
}

/// What a string-keyed map holds: each stored key's view, bound to its value.
pub uninterp spec fn str_map_contents(m: litemap::LiteMap<String, usize>) -> Map<Seq<char>, usize>;

/// Relies on litemap::LiteMap::new_vec: the new map is empty.
#[verifier::external_body]
pub fn str_map_new() -> (m: litemap::LiteMap<String, usize>)
    ensures
        str_map_contents(m) == empty_str_map(),
{
    litemap::LiteMap::new_vec()
}

/// Relies on litemap::LiteMap::get: the value bound to the key, if any.
#[verifier::external_body]
pub fn str_map_get(m: &litemap::LiteMap<String, usize>, k: &String) -> (r: Option<usize>)
    ensures
        r == (if str_map_contents(*m).dom().contains(k@) {
            Some(str_map_contents(*m)[k@])
        } else {
            None
        }),
{
    m.get(k).copied()
}

/// Relies on litemap::LiteMap::contains_key: whether the key is bound.
#[verifier::external_body]
pub fn str_map_contains(m: &litemap::LiteMap<String, usize>, k: &String) -> (r: bool)
    ensures
        r == str_map_contents(*m).dom().contains(k@),
{
    m.contains_key(k)
}

/// Relies on litemap::LiteMap::insert: binds the key to the value, replacing
/// any earlier binding.
#[verifier::external_body]
pub fn str_map_insert(m: &mut litemap::LiteMap<String, usize>, k: String, v: usize)
    ensures
        str_map_contents(*final(m)) == str_map_contents(*old(m)).insert(k@, v),
{
    let _ = m.insert(k, v);
}

/// Relies on litemap::LiteMap::iter: every binding as a key/value pair, each
/// stored key exactly once.
#[verifier::external_body]
pub fn str_map_entries(m: &litemap::LiteMap<String, usize>) -> (r: Vec<(String, usize)>)
    ensures
        forall|i: int|
            0 <= i < r@.len() ==> str_map_contents(*m).contains_pair(
                (#[trigger] r@[i]).0@,
                r@[i].1,
            ),
        forall|k: Seq<char>|
            str_map_contents(*m).dom().contains(k) ==> exists|i: int|
                0 <= i < r@.len() && (#[trigger] r@[i]).0@ == k,
        forall|i: int, j: int|
            0 <= i < j < r@.len() ==> (#[trigger] r@[i]).0@ != (#[trigger] r@[j]).0@,
{
    m.iter().map(|(k, v)| (k.clone(), *v)).collect()
}

/// Relies on litemap::LiteMap::clone (derived): the copy holds the same
/// bindings.
#[verifier::external_body]
pub fn str_map_clone(m: &litemap::LiteMap<String, usize>) -> (r: litemap::LiteMap<String, usize>)
    ensures
        str_map_contents(r) == str_map_contents(*m),
{
    m.clone()
}

} // verus!
