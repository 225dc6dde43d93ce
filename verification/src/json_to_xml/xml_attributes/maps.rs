use vstd::prelude::*;

use super::models::{
    first_index_where, map_entries_view, map_index, map_inserted, map_removed, type_entries_view,
    type_index, type_inserted, XmlAttributesMapEntry, XmlAttributesMapEntryView, XmlAttributesMapKey,
    XmlAttributesType, XmlAttributesTypeEntry, XmlAttributesTypeEntryView,
};

verus! {

proof fn lemma_first_index_found<A>(s: Seq<A>, p: spec_fn(A) -> bool, i: int)
    requires
        0 <= i < s.len(),
        p(s[i]),
        forall|k: int| 0 <= k < i ==> !p(#[trigger] s[k]),
    ensures
        first_index_where(s, p) == i,
    decreases s.len(),
{
    if i < s.len() - 1 {
        assert forall|k: int| 0 <= k < i implies !p(#[trigger] s.drop_last()[k]) by {
            assert(s.drop_last()[k] == s[k]);
        }
        lemma_first_index_found(s.drop_last(), p, i);
    } else {
        lemma_first_index_absent(s.drop_last(), p);
    }
}

proof fn lemma_first_index_absent<A>(s: Seq<A>, p: spec_fn(A) -> bool)
    requires
        forall|k: int| 0 <= k < s.len() ==> !p(#[trigger] s[k]),
    ensures
        first_index_where(s, p) == -1,
    decreases s.len(),
{
    if s.len() > 0 {
        assert forall|k: int| 0 <= k < s.drop_last().len() implies !p(#[trigger] s.drop_last()[k]) by {
            assert(s.drop_last()[k] == s[k]);
        }
        lemma_first_index_absent(s.drop_last(), p);
    }
}

/// Facts about `first_index_where` that callers use.
pub proof fn lemma_first_index_bounds<A>(s: Seq<A>, p: spec_fn(A) -> bool)
    ensures
        -1 <= first_index_where(s, p) < s.len(),
        first_index_where(s, p) >= 0 ==> p(s[first_index_where(s, p)]),
    decreases s.len(),
{
    if s.len() > 0 {
        lemma_first_index_bounds(s.drop_last(), p);
        let i = first_index_where(s.drop_last(), p);
        if i >= 0 {
            assert(s.drop_last()[i] == s[i]);
        }
    }
}

/// Whether two keys are equal.
pub fn key_eq(a: &XmlAttributesMapKey, b: &XmlAttributesMapKey) -> (r: bool)
    ensures
        r == (a@ == b@),
{
    crate::text::str_eq(a.attribute_base_name.as_str(), b.attribute_base_name.as_str())
        && a.attribute_type == b.attribute_type
}

/// The position of the attribute map with id `id` (`HashMap::get`).
pub fn find_map_entry(map: &Vec<XmlAttributesMapEntry>, id: &String) -> (r: Option<usize>)
    ensures
        r is Some <==> map_index(map_entries_view(map@), id@) >= 0,
        r matches Some(i) ==> i as int == map_index(map_entries_view(map@), id@),
        r matches Some(i) ==> i < map.len(),
{
    let ghost v = map_entries_view(map@);
    let ghost p = |e: XmlAttributesMapEntryView| e.map_id == id@;
    let mut i: usize = 0;
    while i < map.len()
        invariant
            v == map_entries_view(map@),
            p == (|e: XmlAttributesMapEntryView| e.map_id == id@),
            i <= map.len(),
            forall|k: int| 0 <= k < i ==> !p(#[trigger] v[k]),
        decreases map.len() - i,
    {
        if crate::text::str_eq(map[i].map_id.as_str(), id.as_str()) {
            proof {
                lemma_first_index_found(v, p, i as int);
            }
            return Some(i);
        }
        i = i + 1;
    }
    proof {
        lemma_first_index_absent(v, p);
    }
    None
}

/// Registers `attrs` under `id`, replacing what was there (`HashMap::insert`).
pub fn insert_map_entry(map: &mut Vec<XmlAttributesMapEntry>, id: String, attrs: Vec<XmlAttributesTypeEntry>)
    ensures
        map_entries_view(final(map)@) == map_inserted(
            map_entries_view(old(map)@),
            id@,
            type_entries_view(attrs@),
        ),
{
    let found = find_map_entry(map, &id);
    let ghost idv = id@;
    let entry = XmlAttributesMapEntry { map_id: id, attributes: attrs };
    match found {
        Some(i) => {
            map.set(i, entry);
            proof {
                assert(map_entries_view(map@) =~= map_entries_view(old(map)@).update(i as int, entry@));
            }
        },
        None => {
            map.push(entry);
            proof {
                assert(map_entries_view(map@) =~= map_entries_view(old(map)@).push(entry@));
            }
        },
    }
}

/// Drops the attribute map with id `id` (`HashMap::remove`).
pub fn remove_map_entry(map: &mut Vec<XmlAttributesMapEntry>, id: &String)
    ensures
        map_entries_view(final(map)@) == map_removed(map_entries_view(old(map)@), id@),
{
    match find_map_entry(map, id) {
        Some(i) => {
            let _ = map.remove(i);
            proof {
                assert(map_entries_view(map@) =~= map_entries_view(old(map)@).remove(i as int));
            }
        },
        None => {},
    }
}

/// The position of the entry with key `key` in one attribute map (`HashMap::get`).
pub fn find_type_entry(entries: &Vec<XmlAttributesTypeEntry>, key: &XmlAttributesMapKey) -> (r: Option<usize>)
    ensures
        r is Some <==> type_index(type_entries_view(entries@), key@) >= 0,
        r matches Some(i) ==> i as int == type_index(type_entries_view(entries@), key@),
        r matches Some(i) ==> i < entries.len(),
{
    let ghost v = type_entries_view(entries@);
    let ghost p = |e: XmlAttributesTypeEntryView| e.key == key@;
    let mut i: usize = 0;
    while i < entries.len()
        invariant
            v == type_entries_view(entries@),
            p == (|e: XmlAttributesTypeEntryView| e.key == key@),
            i <= entries.len(),
            forall|k: int| 0 <= k < i ==> !p(#[trigger] v[k]),
        decreases entries.len() - i,
    {
        if key_eq(&entries[i].key, key) {
            proof {
                lemma_first_index_found(v, p, i as int);
            }
            return Some(i);
        }
        i = i + 1;
    }
    proof {
        lemma_first_index_absent(v, p);
    }
    None
}

/// Stores `value` under `key` in one attribute map, replacing what was there (`HashMap::insert`).
pub fn insert_type_entry(entries: &mut Vec<XmlAttributesTypeEntry>, key: XmlAttributesMapKey, value: XmlAttributesType)
    ensures
        type_entries_view(final(entries)@) == type_inserted(
            type_entries_view(old(entries)@),
            key@,
            value@,
        ),
{
    let found = find_type_entry(entries, &key);
    let entry = XmlAttributesTypeEntry { key, value };
    match found {
        Some(i) => {
            entries.set(i, entry);
            proof {
                assert(type_entries_view(entries@) =~= type_entries_view(old(entries)@).update(i as int, entry@));
            }
        },
        None => {
            entries.push(entry);
            proof {
                assert(type_entries_view(entries@) =~= type_entries_view(old(entries)@).push(entry@));
            }
        },
    }
}

} // verus!
