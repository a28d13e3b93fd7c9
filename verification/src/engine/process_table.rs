//! Listing and ordering the processes of a process map.

use std::collections::{HashMap, HashSet};

use vstd::prelude::*;
use vstd::std_specs::iter::IteratorSpec;

use crate::state::app_state::ProcessEntry;

verus! {

broadcast use vstd::std_specs::hash::group_hash_axioms;

/// `keys` names, once each, the processes of `m` that satisfy `pred`.
pub open spec fn enumerates(
    keys: Seq<u32>,
    m: Map<u32, ProcessEntry>,
    pred: spec_fn(ProcessEntry) -> bool,
) -> bool {
    &&& keys.no_duplicates()
    &&& forall|k: u32| #[trigger] keys.contains(k) <==> (m.contains_key(k) && pred(m[k]))
}

/// The processes that `keys` names, in the same order.
pub open spec fn entries_of(m: Map<u32, ProcessEntry>, keys: Seq<u32>) -> Seq<ProcessEntry> {
    Seq::new(keys.len(), |i: int| m[keys[i]])
}

/// The processes stand in order of memory use, largest first.
pub open spec fn by_ram_descending(list: Seq<ProcessEntry>) -> bool {
    forall|i: int, j: int| 0 <= i <= j < list.len() ==> list[i].ram_bytes >= list[j].ram_bytes
}

/// The ids of all processes of a map, in no particular order.
pub fn all_pids(map: &HashMap<u32, ProcessEntry>) -> (r: Vec<u32>)
    ensures
        enumerates(r@, map@, |e: ProcessEntry| true),
{
    let mut r: Vec<u32> = Vec::new();
    let ghost all: Seq<u32> = map.keys().remaining().unref();
    for key in it: map.keys()
        invariant
            it.seq().unref() == all,
            it.seq().no_duplicates(),
            r@ == all.take(it.index()),
    {
        r.push(*key);
        assert(r@ =~= all.take(it.index() + 1));
    }
    assert(r@ =~= all);
    assert forall|k: u32| #[trigger] r@.contains(k) <==> map@.contains_key(k) by {
        assert(r@.to_set().contains(k) <==> r@.contains(k));
    }
    r
}

/// The members of a set, in no particular order.
pub fn members(set: &HashSet<u32>) -> (r: Vec<u32>)
    ensures
        r@.no_duplicates(),
        forall|k: u32| #[trigger] r@.contains(k) <==> set@.contains(k),
{
    let mut r: Vec<u32> = Vec::new();
    let ghost all: Seq<u32> = set.iter().remaining().unref();
    for key in it: set.iter()
        invariant
            it.seq().unref() == all,
            it.seq().no_duplicates(),
            r@ == all.take(it.index()),
    {
        r.push(*key);
        assert(r@ =~= all.take(it.index() + 1));
    }
    assert(r@ =~= all);
    assert forall|k: u32| #[trigger] r@.contains(k) <==> set@.contains(k) by {
        assert(r@.to_set().contains(k) <==> r@.contains(k));
    }
    r
}

/// Orders the ids `keys` by the memory their processes use, largest first.
pub fn sort_by_ram(map: &HashMap<u32, ProcessEntry>, keys: &Vec<u32>) -> (r: Vec<u32>)
    requires
        keys@.no_duplicates(),
        forall|i: int| 0 <= i < keys@.len() ==> map@.contains_key(#[trigger] keys@[i]),
    ensures
        r@.no_duplicates(),
        r@.len() == keys@.len(),
        forall|k: u32| #[trigger] r@.contains(k) <==> keys@.contains(k),
        by_ram_descending(entries_of(map@, r@)),
{
    let mut r: Vec<u32> = Vec::new();
    let mut i: usize = 0;
    while i < keys.len()
        invariant
            i <= keys@.len(),
            keys@.no_duplicates(),
            forall|j: int| 0 <= j < keys@.len() ==> map@.contains_key(#[trigger] keys@[j]),
            r@.len() == i,
            r@.no_duplicates(),
            forall|j: int| 0 <= j < r@.len() ==> map@.contains_key(#[trigger] r@[j]),
            forall|k: u32| #[trigger] r@.contains(k) <==> keys@.take(i as int).contains(k),
            by_ram_descending(entries_of(map@, r@)),
        decreases keys@.len() - i,
    {
        let key: u32 = keys[i];
        let ram: u64 = ram_of(map, key);
        let mut at: usize = 0;
        while at < r.len() && ram_of(map, r[at]) >= ram
            invariant
                at <= r@.len(),
                forall|j: int| 0 <= j < r@.len() ==> map@.contains_key(#[trigger] r@[j]),
                forall|j: int| 0 <= j < at ==> map@[#[trigger] r@[j]].ram_bytes >= ram,
            decreases r@.len() - at,
        {
            at = at + 1;
        }
        let ghost before = r@;
        r.insert(at, key);
        proof {
            lemma_insert_keeps_order(map@, before, at as int, key);
            lemma_insert_members(before, at as int, key);
            let done = keys@.take(i as int);
            assert(keys@.take(i + 1) =~= done.insert(i as int, key));
            lemma_insert_members(done, i as int, key);
            assert(!done.contains(key));
        }
        i = i + 1;
    }
    assert(keys@.take(i as int) =~= keys@);
    r
}

/// Inserting a value leaves the members and adds that value; where it was new,
/// nothing stands twice.
proof fn lemma_insert_members(s: Seq<u32>, at: int, key: u32)
    requires
        0 <= at <= s.len(),
    ensures
        forall|k: u32| #[trigger] s.insert(at, key).contains(k) <==> (s.contains(k) || k == key),
        s.no_duplicates() && !s.contains(key) ==> s.insert(at, key).no_duplicates(),
{
    let t = s.insert(at, key);
    assert forall|k: u32| #[trigger] t.contains(k) <==> (s.contains(k) || k == key) by {
        if t.contains(k) {
            let i = choose|i: int| 0 <= i < t.len() && t[i] == k;
            if i < at {
                assert(s[i] == k);
            } else if i > at {
                assert(s[i - 1] == k);
            }
        }
        if s.contains(k) {
            let i = choose|i: int| 0 <= i < s.len() && s[i] == k;
            if i < at {
                assert(t[i] == k);
            } else {
                assert(t[i + 1] == k);
            }
        }
        assert(t[at] == key);
    }
    if s.no_duplicates() && !s.contains(key) {
        assert forall|i: int, j: int| 0 <= i < t.len() && 0 <= j < t.len() && i != j implies t[i]
            != t[j] by {
            let a = if i < at {
                i
            } else {
                i - 1
            };
            let b = if j < at {
                j
            } else {
                j - 1
            };
            if i != at && j != at {
                assert(s[a] != s[b]);
            }
        }
    }
}

proof fn lemma_insert_keeps_order(m: Map<u32, ProcessEntry>, s: Seq<u32>, at: int, key: u32)
    requires
        0 <= at <= s.len(),
        by_ram_descending(entries_of(m, s)),
        forall|j: int| 0 <= j < at ==> m[#[trigger] s[j]].ram_bytes >= m[key].ram_bytes,
        at < s.len() ==> m[s[at]].ram_bytes < m[key].ram_bytes,
    ensures
        by_ram_descending(entries_of(m, s.insert(at, key))),
{
    let t = s.insert(at, key);
    let e = entries_of(m, s);
    let f = entries_of(m, t);
    assert forall|i: int, j: int| 0 <= i <= j < f.len() implies f[i].ram_bytes
        >= f[j].ram_bytes by {
        assert(i < at ==> f[i] == e[i]);
        assert(i > at ==> f[i] == e[i - 1]);
        assert(j < at ==> f[j] == e[j]);
        assert(j > at ==> f[j] == e[j - 1]);
        assert(f[at] == m[key]);
        if at < s.len() {
            assert(e[at].ram_bytes < m[key].ram_bytes);
        }
        if i < at {
            assert(m[s[i]].ram_bytes >= m[key].ram_bytes);
        }
    }
}

fn ram_of(map: &HashMap<u32, ProcessEntry>, pid: u32) -> (r: u64)
    requires
        map@.contains_key(pid),
    ensures
        r == map@[pid].ram_bytes,
{
    match map.get(&pid) {
        Some(e) => e.ram_bytes,
        None => 0,
    }
}

/// Copies the processes that `keys` names.
pub fn copy_entries(map: &HashMap<u32, ProcessEntry>, keys: &Vec<u32>) -> (r: Vec<ProcessEntry>)
    requires
        forall|i: int| 0 <= i < keys@.len() ==> map@.contains_key(#[trigger] keys@[i]),
    ensures
        r@ == entries_of(map@, keys@),
{
    let mut r: Vec<ProcessEntry> = Vec::new();
    let mut i: usize = 0;
    while i < keys.len()
        invariant
            i <= keys@.len(),
            forall|j: int| 0 <= j < keys@.len() ==> map@.contains_key(#[trigger] keys@[j]),
            r@ == entries_of(map@, keys@).take(i as int),
        decreases keys@.len() - i,
    {
        if let Some(e) = map.get(&keys[i]) {
            r.push(e.clone());
        }
        assert(r@ =~= entries_of(map@, keys@).take(i + 1));
        i = i + 1;
    }
    assert(r@ =~= entries_of(map@, keys@));
    r
}

} // verus!
