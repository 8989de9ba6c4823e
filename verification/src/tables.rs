//! The name-to-capital tables: association lists of strings, modelled as
//! maps from key view to value view.

use vstd::prelude::*;
use crate::text::lower_seq;
use crate::text::normalize_key;

verus! {

/// The mathematical content of an association list: a map from key view to
/// value view.  The first entry carrying a given key wins.
pub open spec fn table_of(entries: Seq<(String, String)>) -> Map<Seq<char>, Seq<char>>
    decreases entries.len(),
{
    if entries.len() == 0 {
        Map::empty()
    } else {
        table_of(entries.drop_first()).insert(entries[0].0@, entries[0].1@)
    }
}

/// The table read from raw entries once each key is put into its canonical
/// lowercase form; the first entry carrying a given canonical key wins.
pub open spec fn normalized_table_of(entries: Seq<(String, String)>) -> Map<Seq<char>, Seq<char>>
    decreases entries.len(),
{
    if entries.len() == 0 {
        Map::empty()
    } else {
        normalized_table_of(entries.drop_first()).insert(lower_seq(entries[0].0@), entries[0].1@)
    }
}

/// The value that a scan of the entries from the front finds under `key`.
pub open spec fn entries_find(entries: Seq<(String, String)>, key: Seq<char>) -> Option<Seq<char>>
    decreases entries.len(),
{
    if entries.len() == 0 {
        None
    } else if entries[0].0@ == key {
        Some(entries[0].1@)
    } else {
        entries_find(entries.drop_first(), key)
    }
}

/// A front-to-back scan finds exactly the value that the table maps the key
/// to, and finds nothing exactly when the table has no such key.
pub proof fn lemma_find_table(entries: Seq<(String, String)>, key: Seq<char>)
    ensures
        table_of(entries).contains_key(key) <==> entries_find(entries, key) is Some,
        table_of(entries).contains_key(key) ==> entries_find(entries, key) == Some(
            table_of(entries)[key],
        ),
    decreases entries.len(),
{
    if entries.len() == 0 {
    } else {
        lemma_find_table(entries.drop_first(), key);
    }
}

/// Finds the capital stored under `key`, scanning the entries from the front.
pub(crate) fn find_value(entries: &Vec<(String, String)>, key: &String) -> (r: Option<String>)
    ensures
        match r {
            Some(v) => entries_find(entries@, key@) == Some(v@),
            None => entries_find(entries@, key@) is None,
        },
{
    let n = entries.len();
    let mut i: usize = 0;
    proof {
        assert(entries@.skip(0) =~= entries@);
    }
    while i < n
        invariant
            n == entries@.len(),
            i <= n,
            entries_find(entries@, key@) == entries_find(entries@.skip(i as int), key@),
        decreases n - i,
    {
        proof {
            assert(entries@.skip(i as int)[0] == entries@[i as int]);
        }
        if entries[i].0 == *key {
            return Some(entries[i].1.clone());
        }
        proof {
            assert(entries@.skip(i as int).drop_first() =~= entries@.skip(i as int + 1));
        }
        i += 1;
    }
    proof {
        assert(entries@.skip(n as int) =~= Seq::<(String, String)>::empty());
    }
    None
}

/// Rebuilds entries with every key in canonical lowercase form, keeping the
/// order of entries and their values.
pub(crate) fn normalize_entries(entries: &Vec<(String, String)>) -> (r: Vec<(String, String)>)
    ensures
        r@.len() == entries@.len(),
        forall|i: int|
            0 <= i < entries@.len() ==> (#[trigger] r@[i]).0@ == lower_seq(entries@[i].0@)
                && r@[i].1 == entries@[i].1,
{
    let n = entries.len();
    let mut out: Vec<(String, String)> = Vec::new();
    let mut i: usize = 0;
    while i < n
        invariant
            n == entries@.len(),
            i <= n,
            out@.len() == i,
            forall|j: int|
                0 <= j < i ==> (#[trigger] out@[j]).0@ == lower_seq(entries@[j].0@) && out@[j].1
                    == entries@[j].1,
        decreases n - i,
    {
        let key = normalize_key(entries[i].0.as_str());
        out.push((key, entries[i].1.clone()));
        i += 1;
    }
    out
}

/// Lowercasing the keys of an association list and then reading it as a table
/// is reading it as a table with canonical keys.
pub proof fn lemma_table_of_normalized(a: Seq<(String, String)>, b: Seq<(String, String)>)
    requires
        a.len() == b.len(),
        forall|i: int|
            0 <= i < a.len() ==> (#[trigger] b[i]).0@ == lower_seq(a[i].0@) && b[i].1 == a[i].1,
    ensures
        table_of(b) == normalized_table_of(a),
    decreases a.len(),
{
    if a.len() == 0 {
        assert(table_of(b) =~= normalized_table_of(a));
    } else {
        assert forall|i: int|
            0 <= i < a.drop_first().len() implies (#[trigger] b.drop_first()[i]).0@ == lower_seq(
            a.drop_first()[i].0@,
        ) && b.drop_first()[i].1 == a.drop_first()[i].1 by {
            assert(b.drop_first()[i] == b[i + 1]);
            assert(a.drop_first()[i] == a[i + 1]);
        }
        lemma_table_of_normalized(a.drop_first(), b.drop_first());
        assert(b[0].1@ == a[0].1@);
    }
}

/// Every key of a normalized table is in canonical lowercase form.
pub proof fn lemma_normalized_table_keys(entries: Seq<(String, String)>)
    ensures
        forall|k: Seq<char>| #[trigger]
            normalized_table_of(entries).contains_key(k) ==> lower_seq(k) == k,
    decreases entries.len(),
{
    if entries.len() == 0 {
    } else {
        lemma_normalized_table_keys(entries.drop_first());
        assert forall|k: Seq<char>| #[trigger]
            normalized_table_of(entries).contains_key(k) implies lower_seq(k) == k by {
            if k == lower_seq(entries[0].0@) {
                crate::text::lemma_lower_seq_idempotent(entries[0].0@);
            } else {
                assert(normalized_table_of(entries.drop_first()).contains_key(k));
            }
        }
    }
}

/// The keys of a normalized table are exactly the canonical forms of the
/// entries' keys, and each key's value comes from an entry whose canonical
/// key it is.
pub proof fn lemma_normalized_table_props(entries: Seq<(String, String)>)
    ensures
        forall|k: Seq<char>|
            normalized_table_of(entries).contains_key(k) <==> exists|i: int|
                0 <= i < entries.len() && #[trigger] lower_seq(entries[i].0@) == k,
        forall|k: Seq<char>| #[trigger]
            normalized_table_of(entries).contains_key(k) ==> exists|i: int|
                0 <= i < entries.len() && #[trigger] lower_seq(entries[i].0@) == k
                    && normalized_table_of(entries)[k] == entries[i].1@,
    decreases entries.len(),
{
    if entries.len() == 0 {
    } else {
        let rest = entries.drop_first();
        let k0 = lower_seq(entries[0].0@);
        let m = normalized_table_of(entries);
        lemma_normalized_table_props(rest);
        assert forall|k: Seq<char>| m.contains_key(k) implies exists|i: int|
            0 <= i < entries.len() && #[trigger] lower_seq(entries[i].0@) == k by {
            if k == k0 {
                assert(lower_seq(entries[0].0@) == k);
            } else {
                assert(normalized_table_of(rest).contains_key(k));
                let i = choose|i: int|
                    0 <= i < rest.len() && #[trigger] lower_seq(rest[i].0@) == k;
                assert(entries[i + 1] == rest[i]);
                assert(lower_seq(entries[i + 1].0@) == k);
            }
        }
        assert forall|k: Seq<char>|
            (exists|i: int| 0 <= i < entries.len() && #[trigger] lower_seq(entries[i].0@) == k)
            implies m.contains_key(k) by {
            let i = choose|i: int|
                0 <= i < entries.len() && #[trigger] lower_seq(entries[i].0@) == k;
            if i == 0 {
            } else {
                assert(rest[i - 1] == entries[i]);
                assert(lower_seq(rest[i - 1].0@) == k);
                assert(normalized_table_of(rest).contains_key(k));
            }
        }
        assert forall|k: Seq<char>| #[trigger] m.contains_key(k) implies exists|i: int|
            0 <= i < entries.len() && #[trigger] lower_seq(entries[i].0@) == k && m[k]
                == entries[i].1@ by {
            if k == k0 {
                assert(lower_seq(entries[0].0@) == k && m[k] == entries[0].1@);
            } else {
                assert(normalized_table_of(rest).contains_key(k));
                let i = choose|i: int|
                    0 <= i < rest.len() && #[trigger] lower_seq(rest[i].0@) == k
                        && normalized_table_of(rest)[k] == rest[i].1@;
                assert(entries[i + 1] == rest[i]);
                assert(lower_seq(entries[i + 1].0@) == k && m[k] == entries[i + 1].1@);
            }
        }
    }
}

} // verus!
