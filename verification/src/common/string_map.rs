//! String-to-string tables: request headers, instance metadata and the like.
use crate::common::vec_map::VecMap;
use vstd::prelude::*;

verus! {

/// A table from strings to strings.
pub type StringMap = VecMap<String, String>;

/// A string table as a map between character sequences.
pub open spec fn text_map(m: Map<Seq<char>, String>) -> Map<Seq<char>, Seq<char>> {
    m.map_values(|s: String| s@)
}

/// Filing a string in a table files its characters in the table's text.
pub proof fn lemma_text_map_insert(m: Map<Seq<char>, String>, key: Seq<char>, value: String)
    ensures
        text_map(m.insert(key, value)) == text_map(m).insert(key, value@),
{
    assert(text_map(m.insert(key, value)) =~= text_map(m).insert(key, value@));
}

/// Dropping a key from a table drops it from the table's text.
pub proof fn lemma_text_map_remove(m: Map<Seq<char>, String>, key: Seq<char>)
    ensures
        text_map(m.remove(key)) == text_map(m).remove(key),
{
    assert(text_map(m.remove(key)) =~= text_map(m).remove(key));
}

/// Copies a string table entry by entry.
pub fn copy_string_map(source: &StringMap) -> (copy: StringMap)
    ensures
        copy@ == source@,
{
    let n = source.len();
    let mut copy: StringMap = VecMap::new();
    let mut i: usize = 0;
    while i < n
        invariant
            n == source.key_seq().len(),
            i <= n,
            source.key_seq().to_set() == source@.dom(),
            forall|k: Seq<char>| copy@.contains_key(k) <==> source.key_seq().take(i as int).contains(k),
            forall|k: Seq<char>| copy@.contains_key(k) ==> copy@[k] == source@[k],
        decreases n - i,
    {
        let key = source.key_at(i).clone();
        let value = source.value_at(i).clone();
        let ghost before = source.key_seq().take(i as int);
        let ghost after = source.key_seq().take(i + 1);
        assert(after =~= before.push(source.key_seq()[i as int]));
        copy.insert(key, value);
        assert forall|k: Seq<char>| copy@.contains_key(k) <==> after.contains(k) by {
            if before.contains(k) {
                let j = choose|j: int| 0 <= j < before.len() && before[j] == k;
                assert(after[j] == k);
            }
            if k == source.key_seq()[i as int] {
                assert(after[i as int] == k);
            }
        }
        i += 1;
    }
    proof {
        assert(source.key_seq().take(n as int) =~= source.key_seq());
        assert(copy@ =~= source@);
    }
    copy
}

} // verus!
