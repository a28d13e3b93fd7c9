//! What the user interface shows.

use vstd::prelude::*;

use crate::engine::process_table::{
    all_pids, by_ram_descending, copy_entries, entries_of, enumerates, sort_by_ram,
};
use crate::engine::trimmer::newest;
use crate::state::app_state::{
    bloat_views, event_views, AppState, BloatEntry, ProcessEntry, RamStats, TrimEvent,
    TrimEventView,
};

verus! {

broadcast use vstd::std_specs::hash::group_hash_axioms;

/// How many processes are shown at most.
pub const LIST_LEN: usize = 20;

/// The processes that are not protected, in the same order.
pub open spec fn unprotected(list: Seq<ProcessEntry>) -> Seq<ProcessEntry>
    decreases list.len(),
{
    if list.len() == 0 {
        Seq::empty()
    } else if list.last().is_protected {
        unprotected(list.drop_last())
    } else {
        unprotected(list.drop_last()).push(list.last())
    }
}

/// The processes that are protected, in the same order.
pub open spec fn protected_only(list: Seq<ProcessEntry>) -> Seq<ProcessEntry>
    decreases list.len(),
{
    if list.len() == 0 {
        Seq::empty()
    } else if list.last().is_protected {
        protected_only(list.drop_last()).push(list.last())
    } else {
        protected_only(list.drop_last())
    }
}

/// What makes a process eligible for the list.
pub open spec fn is_listed(show_system: bool) -> spec_fn(ProcessEntry) -> bool {
    |e: ProcessEntry| show_system || !e.is_protected
}

/// As many of the ids as are shown.
pub open spec fn shown(keys: Seq<u32>) -> Seq<u32> {
    if keys.len() > LIST_LEN {
        keys.take(LIST_LEN as int)
    } else {
        keys
    }
}

/// `list` holds the largest of the eligible processes, those that are not
/// protected ahead of those that are, and each of the two groups by memory use,
/// the largest first.
pub open spec fn is_process_list(
    list: Seq<ProcessEntry>,
    m: Map<u32, ProcessEntry>,
    show_system: bool,
) -> bool {
    exists|keys: Seq<u32>|
        enumerates(keys, m, is_listed(show_system)) && by_ram_descending(entries_of(m, keys)) && list
            == unprotected(entries_of(m, shown(keys))) + protected_only(
            #[trigger] entries_of(m, shown(keys)),
        )
}

fn partitioned(list: &Vec<ProcessEntry>) -> (r: Vec<ProcessEntry>)
    ensures
        r@ == unprotected(list@) + protected_only(list@),
{
    let mut r: Vec<ProcessEntry> = Vec::new();
    let mut i: usize = 0;
    while i < list.len()
        invariant
            i <= list@.len(),
            r@ == unprotected(list@.take(i as int)),
        decreases list@.len() - i,
    {
        assert(list@.take(i + 1).drop_last() =~= list@.take(i as int));
        if !list[i].is_protected {
            r.push(list[i].clone());
        }
        i = i + 1;
    }
    assert(list@.take(i as int) =~= list@);
    let ghost front = r@;
    i = 0;
    assert(r@ =~= front + protected_only(list@.take(0)));
    while i < list.len()
        invariant
            i <= list@.len(),
            r@ == front + protected_only(list@.take(i as int)),
        decreases list@.len() - i,
    {
        assert(list@.take(i + 1).drop_last() =~= list@.take(i as int));
        if list[i].is_protected {
            r.push(list[i].clone());
        }
        assert(r@ =~= front + protected_only(list@.take(i + 1)));
        i = i + 1;
    }
    assert(list@.take(i as int) =~= list@);
    r
}

/// The processes that use the most memory. Protected ones are listed only on
/// request, and then at the bottom.
pub fn get_process_list(include_system: Option<bool>, state: &AppState) -> (r: Vec<ProcessEntry>)
    ensures
        is_process_list(
            r@,
            state@.process_map,
            include_system == Some(true),
        ),
{
    let show_system: bool = match include_system {
        Some(b) => b,
        None => false,
    };
    let ghost m = state.process_map@;
    let pids: Vec<u32> = all_pids(&state.process_map);
    let mut chosen: Vec<u32> = Vec::new();
    let mut i: usize = 0;
    while i < pids.len()
        invariant
            i <= pids@.len(),
            m == state.process_map@,
            enumerates(pids@, m, |e: ProcessEntry| true),
            chosen@.no_duplicates(),
            forall|k: u32| #[trigger]
                chosen@.contains(k) <==> (pids@.take(i as int).contains(k) && (show_system
                    || !m[k].is_protected)),
        decreases pids@.len() - i,
    {
        let pid: u32 = pids[i];
        let ghost before = chosen@;
        let ghost done = pids@.take(i as int);
        assert(pids@.contains(pid));
        assert(!done.contains(pid));
        assert(pids@.take(i + 1) =~= done.push(pid));
        assert(forall|k: u32| #[trigger]
            done.push(pid).contains(k) <==> (done.contains(k) || k == pid)) by {
            broadcast use vstd::seq_lib::group_seq_properties;
        }
        if let Some(e) = state.process_map.get(&pid) {
            if show_system || !e.is_protected {
                chosen.push(pid);
                assert(forall|k: u32| #[trigger]
                    chosen@.contains(k) <==> (before.contains(k) || k == pid)) by {
                    broadcast use vstd::seq_lib::group_seq_properties;
                }
                assert(!before.contains(pid));
            }
        }
        i = i + 1;
    }
    proof {
        assert(pids@.take(i as int) =~= pids@);
        assert forall|j: int| 0 <= j < chosen@.len() implies m.contains_key(
            #[trigger] chosen@[j],
        ) by {
            assert(chosen@.contains(chosen@[j]));
        }
    }
    let mut sorted: Vec<u32> = sort_by_ram(&state.process_map, &chosen);
    let ghost keys = sorted@;
    proof {
        assert forall|j: int| 0 <= j < keys.len() implies m.contains_key(#[trigger] keys[j]) by {
            assert(keys.contains(keys[j]));
        }
        assert(enumerates(keys, m, is_listed(show_system)));
    }
    if sorted.len() > LIST_LEN {
        sorted.truncate(LIST_LEN);
    }
    assert(sorted@ =~= shown(keys));
    let list: Vec<ProcessEntry> = copy_entries(&state.process_map, &sorted);
    partitioned(&list)
}

proof fn lemma_partition(list: Seq<ProcessEntry>)
    ensures
        unprotected(list).len() + protected_only(list).len() == list.len(),
        forall|i: int| 0 <= i < unprotected(list).len() ==> !(#[trigger] unprotected(list)[i]).is_protected
            && list.contains(unprotected(list)[i]),
        forall|i: int|
            0 <= i < protected_only(list).len() ==> (#[trigger] protected_only(list)[i]).is_protected
                && list.contains(protected_only(list)[i]),
        by_ram_descending(list) ==> by_ram_descending(unprotected(list)) && by_ram_descending(
            protected_only(list),
        ),
    decreases list.len(),
{
    if list.len() > 0 {
        let front = list.drop_last();
        let last = list.last();
        lemma_partition(front);
        assert(list[list.len() - 1] == last);
        assert forall|e: ProcessEntry| front.contains(e) implies list.contains(e) by {
            let i = choose|i: int| 0 <= i < front.len() && front[i] == e;
            assert(list[i] == e);
        }
        if by_ram_descending(list) {
            assert(by_ram_descending(front)) by {
                assert forall|i: int, j: int| 0 <= i <= j < front.len() implies front[i].ram_bytes
                    >= front[j].ram_bytes by {
                    assert(list[i].ram_bytes >= list[j].ram_bytes);
                }
            }
            assert forall|e: ProcessEntry| front.contains(e) implies e.ram_bytes
                >= last.ram_bytes by {
                let i = choose|i: int| 0 <= i < front.len() && front[i] == e;
                assert(list[i].ram_bytes >= list[list.len() - 1].ram_bytes);
            }
            let group = if last.is_protected {
                protected_only(front)
            } else {
                unprotected(front)
            };
            assert forall|i: int, j: int| 0 <= i <= j < group.len() + 1 implies group.push(
                last,
            )[i].ram_bytes >= group.push(last)[j].ram_bytes by {
                if j < group.len() {
                    assert(group[i].ram_bytes >= group[j].ram_bytes);
                } else if i < group.len() {
                    assert(front.contains(group[i]));
                }
            }
        }
    }
}

/// The list is never longer than it may be, shows protected processes only on
/// request and below all others, and orders either group by memory use.
pub proof fn the_process_list_is_short_and_ordered(
    list: Seq<ProcessEntry>,
    m: Map<u32, ProcessEntry>,
    show_system: bool,
)
    requires
        is_process_list(list, m, show_system),
    ensures
        list.len() <= LIST_LEN,
        !show_system ==> forall|i: int| 0 <= i < list.len() ==> !(#[trigger] list[i]).is_protected,
        forall|i: int, j: int|
            0 <= i <= j < list.len() && (#[trigger] list[i]).is_protected ==> (
            #[trigger] list[j]).is_protected,
        forall|i: int, j: int|
            0 <= i <= j < list.len() && (#[trigger] list[i]).is_protected == (
            #[trigger] list[j]).is_protected ==> list[i].ram_bytes >= list[j].ram_bytes,
{
    let keys = choose|keys: Seq<u32>|
        enumerates(keys, m, is_listed(show_system)) && by_ram_descending(entries_of(m, keys)) && list
            == unprotected(entries_of(m, shown(keys))) + protected_only(
            #[trigger] entries_of(m, shown(keys)),
        );
    let top = entries_of(m, shown(keys));
    let all = entries_of(m, keys);
    assert(by_ram_descending(top)) by {
        assert forall|i: int, j: int| 0 <= i <= j < top.len() implies top[i].ram_bytes
            >= top[j].ram_bytes by {
            assert(all[i].ram_bytes >= all[j].ram_bytes);
        }
    }
    lemma_partition(top);
    let a = unprotected(top);
    let b = protected_only(top);
    assert forall|i: int| 0 <= i < list.len() implies (#[trigger] list[i]).is_protected == (i
        >= a.len()) by {
        if i < a.len() {
            assert(list[i] == a[i]);
        } else {
            assert(list[i] == b[i - a.len()]);
        }
    }
    if !show_system {
        assert forall|i: int| 0 <= i < list.len() implies !(#[trigger] list[i]).is_protected by {
            if i >= a.len() {
                let e = b[i - a.len()];
                assert(top.contains(e));
                let k = choose|k: int| 0 <= k < top.len() && top[k] == e;
                assert(keys.contains(keys[k]));
            }
        }
    }
    assert forall|i: int, j: int|
        0 <= i <= j < list.len() && (#[trigger] list[i]).is_protected == (
        #[trigger] list[j]).is_protected implies list[i].ram_bytes >= list[j].ram_bytes by {
        if j < a.len() {
            assert(a[i].ram_bytes >= a[j].ram_bytes);
        } else {
            assert(b[i - a.len()].ram_bytes >= b[j - a.len()].ram_bytes);
        }
    }
}

/// The current memory figures.
pub fn get_ram_stats(state: &AppState) -> (r: RamStats)
    ensures
        r == state@.ram_stats,
{
    state.ram_stats
}

/// The bloat services found in the last poll.
pub fn get_bloat_list(state: &AppState) -> (r: Vec<BloatEntry>)
    ensures
        bloat_views(r@) == state@.bloat_list,
{
    let mut r: Vec<BloatEntry> = Vec::new();
    let mut i: usize = 0;
    while i < state.bloat_list.len()
        invariant
            i <= state.bloat_list@.len(),
            bloat_views(r@) == state@.bloat_list.take(i as int),
        decreases state.bloat_list@.len() - i,
    {
        let ghost before = r@;
        r.push(state.bloat_list[i].clone());
        assert(bloat_views(r@) =~= bloat_views(before).push(state.bloat_list@[i as int]@));
        assert(bloat_views(r@) =~= state@.bloat_list.take(i + 1));
        i = i + 1;
    }
    assert(state@.bloat_list.take(i as int) =~= state@.bloat_list);
    r
}

/// Past trims, oldest first, no more than the settings allow to be kept.
pub fn get_trim_history(state: &AppState) -> (r: Vec<TrimEvent>)
    ensures
        event_views(r@) == newest(state@.trim_history, state@.config.trim_history_limit),
{
    let limit: usize = state.config.trim_history_limit;
    let capacity: usize = if limit == 0 {
        1
    } else {
        limit
    };
    let total: usize = state.trim_history.len();
    let first: usize = if total > capacity {
        total - capacity
    } else {
        0
    };
    let ghost all = state@.trim_history;
    let mut r: Vec<TrimEvent> = Vec::new();
    let mut i: usize = first;
    while i < state.trim_history.len()
        invariant
            first <= i <= state.trim_history@.len(),
            all == event_views(state.trim_history@),
            event_views(r@) == all.subrange(first as int, i as int),
        decreases state.trim_history@.len() - i,
    {
        let ghost before = r@;
        r.push(state.trim_history[i].clone());
        assert(event_views(r@) =~= event_views(before).push(state.trim_history@[i as int]@));
        assert(event_views(r@) =~= all.subrange(first as int, i + 1));
        i = i + 1;
    }
    assert(all.subrange(first as int, i as int) =~= newest(all, limit));
    r
}

/// The history is shown to its last entry, and as far back as the limit allows; at
/// least one entry is.
pub proof fn the_history_is_shown_as_far_as_the_limit_goes(
    history: Seq<TrimEventView>,
    limit: usize,
)
    ensures
        ({
            let shown = newest(history, limit);
            let most: int = if limit > 1 {
                limit as int
            } else {
                1
            };
            &&& shown.len() == (if history.len() < most {
                history.len() as int
            } else {
                most
            })
            &&& forall|k: int|
                0 <= k < shown.len() ==> #[trigger] shown[k] == history[history.len() - shown.len()
                    + k]
        }),
{
}

/// Of the processes that may be shown, protected ones on request only, the list
/// holds twenty, or all where there are fewer; whatever is left out uses no more
/// memory than anything that is shown. Each process is shown as it is, and once.
pub proof fn the_process_list_shows_the_largest(
    list: Seq<ProcessEntry>,
    m: Map<u32, ProcessEntry>,
    show_system: bool,
)
    requires
        is_process_list(list, m, show_system),
    ensures
        forall|i: int|
            0 <= i < list.len() ==> (show_system || !(#[trigger] list[i]).is_protected) && exists|
                pid: u32,
            |
                m.contains_key(pid) && #[trigger] m[pid] == list[i],
        forall|pid: u32|
            m.contains_key(pid) && (show_system || !m[pid].is_protected) && !list.contains(
                #[trigger] m[pid],
            ) ==> list.len() == 20 && forall|i: int|
                0 <= i < list.len() ==> (#[trigger] list[i]).ram_bytes >= m[pid].ram_bytes,
        (forall|pid: u32| #[trigger] m.contains_key(pid) ==> m[pid].pid == pid) ==> forall|
            i: int,
            j: int,
        |
            0 <= i < j < list.len() ==> (#[trigger] list[i]).pid != (#[trigger] list[j]).pid,
{
    let keys = choose|keys: Seq<u32>|
        enumerates(keys, m, is_listed(show_system)) && by_ram_descending(entries_of(m, keys)) && list
            == unprotected(entries_of(m, shown(keys))) + protected_only(
            #[trigger] entries_of(m, shown(keys)),
        );
    let top = entries_of(m, shown(keys));
    let all = entries_of(m, keys);
    lemma_partition(top);
    lemma_partition_keeps(top);
    let a = unprotected(top);
    let b = protected_only(top);
    assert forall|i: int| 0 <= i < list.len() implies #[trigger] top.contains(list[i]) by {
        if i < a.len() {
            assert(list[i] == a[i]);
        } else {
            assert(list[i] == b[i - a.len()]);
        }
    }
    assert forall|i: int| 0 <= i < list.len() implies (show_system || !(
    #[trigger] list[i]).is_protected) && exists|pid: u32|
        m.contains_key(pid) && #[trigger] m[pid] == list[i] by {
        assert(top.contains(list[i]));
        let k = choose|k: int| 0 <= k < top.len() && top[k] == list[i];
        assert(keys.contains(keys[k]));
        assert(m[keys[k]] == list[i]);
    }
    assert forall|pid: u32|
        m.contains_key(pid) && (show_system || !m[pid].is_protected) && !list.contains(
            #[trigger] m[pid],
        ) implies list.len() == 20 && forall|i: int|
        0 <= i < list.len() ==> (#[trigger] list[i]).ram_bytes >= m[pid].ram_bytes by {
        assert(keys.contains(pid));
        let k = choose|k: int| 0 <= k < keys.len() && keys[k] == pid;
        if k < top.len() {
            assert(top[k] == m[pid]);
            assert(top.contains(m[pid]));
            if m[pid].is_protected {
                let i = choose|i: int| 0 <= i < b.len() && b[i] == m[pid];
                assert(list[a.len() + i] == m[pid]);
            } else {
                let i = choose|i: int| 0 <= i < a.len() && a[i] == m[pid];
                assert(list[i] == m[pid]);
            }
        }
        assert forall|i: int| 0 <= i < list.len() implies (#[trigger] list[i]).ram_bytes
            >= m[pid].ram_bytes by {
            assert(top.contains(list[i]));
            let t = choose|t: int| 0 <= t < top.len() && top[t] == list[i];
            assert(all[t].ram_bytes >= all[k].ram_bytes);
        }
    }
    if forall|pid: u32| #[trigger] m.contains_key(pid) ==> m[pid].pid == pid {
        assert forall|i: int, j: int| 0 <= i < j < top.len() implies (#[trigger] top[i]).pid != (
        #[trigger] top[j]).pid by {
            assert(keys.contains(keys[i]) && keys.contains(keys[j]));
            assert(m.contains_key(keys[i]) && m.contains_key(keys[j]));
        }
        lemma_partition_distinct(top);
        assert forall|i: int, j: int| 0 <= i < j < list.len() implies (#[trigger] list[i]).pid != (
        #[trigger] list[j]).pid by {
            if j < a.len() {
                assert(a[i].pid != a[j].pid);
            } else if i >= a.len() {
                assert(b[i - a.len()].pid != b[j - a.len()].pid);
            } else {
                let e = a[i];
                let f = b[j - a.len()];
                assert(top.contains(e) && top.contains(f));
                let x = choose|x: int| 0 <= x < top.len() && top[x] == e;
                let y = choose|y: int| 0 <= y < top.len() && top[y] == f;
                assert(x != y);
                if x < y {
                    assert(top[x].pid != top[y].pid);
                } else {
                    assert(top[y].pid != top[x].pid);
                }
            }
        }
    }
}

proof fn lemma_partition_keeps(list: Seq<ProcessEntry>)
    ensures
        forall|e: ProcessEntry| #[trigger]
            list.contains(e) ==> if e.is_protected {
                protected_only(list).contains(e)
            } else {
                unprotected(list).contains(e)
            },
    decreases list.len(),
{
    if list.len() > 0 {
        let front = list.drop_last();
        let last = list.last();
        lemma_partition_keeps(front);
        assert forall|e: ProcessEntry| #[trigger] list.contains(e) implies if e.is_protected {
            protected_only(list).contains(e)
        } else {
            unprotected(list).contains(e)
        } by {
            let i = choose|i: int| 0 <= i < list.len() && list[i] == e;
            let group = if e.is_protected {
                protected_only(list)
            } else {
                unprotected(list)
            };
            if i < front.len() {
                assert(front[i] == e);
                assert(front.contains(e));
                let rest = if e.is_protected {
                    protected_only(front)
                } else {
                    unprotected(front)
                };
                let k = choose|k: int| 0 <= k < rest.len() && rest[k] == e;
                assert(group[k] == e);
            } else {
                assert(group[group.len() - 1] == e);
            }
        }
    }
}

proof fn lemma_partition_distinct(list: Seq<ProcessEntry>)
    requires
        forall|i: int, j: int|
            0 <= i < j < list.len() ==> (#[trigger] list[i]).pid != (#[trigger] list[j]).pid,
    ensures
        forall|i: int, j: int|
            0 <= i < j < unprotected(list).len() ==> (#[trigger] unprotected(list)[i]).pid != (
            #[trigger] unprotected(list)[j]).pid,
        forall|i: int, j: int|
            0 <= i < j < protected_only(list).len() ==> (#[trigger] protected_only(list)[i]).pid != (
            #[trigger] protected_only(list)[j]).pid,
    decreases list.len(),
{
    if list.len() > 0 {
        let front = list.drop_last();
        let last = list.last();
        assert forall|i: int, j: int| 0 <= i < j < front.len() implies (#[trigger] front[i]).pid != (
        #[trigger] front[j]).pid by {
            assert(list[i].pid != list[j].pid);
        }
        lemma_partition_distinct(front);
        lemma_partition(front);
        assert forall|e: ProcessEntry| #[trigger] front.contains(e) implies e.pid != last.pid by {
            let i = choose|i: int| 0 <= i < front.len() && front[i] == e;
            assert(list[i].pid != list[list.len() - 1].pid);
        }
        let group = if last.is_protected {
            protected_only(front)
        } else {
            unprotected(front)
        };
        assert forall|i: int| 0 <= i < group.len() implies (#[trigger] group[i]).pid
            != last.pid by {
            assert(front.contains(group[i]));
        }
    }
}

} // verus!
