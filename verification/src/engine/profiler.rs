//! Idle time of each process, and which processes count as idle.

use vstd::prelude::*;

use crate::engine::process_table::{
    all_pids, by_ram_descending, copy_entries, entries_of, enumerates, sort_by_ram,
};
use crate::state::app_state::{AppState, AppStateView, CpuSample, ProcessEntry};

verus! {

broadcast use vstd::std_specs::hash::group_hash_axioms;

/// Nanoseconds in a second.
pub const NANOS_PER_SEC: u64 = 1_000_000_000;

// ---------------------------------------------------------------------------
// Activity
// ---------------------------------------------------------------------------

/// More than half a percent of the interval was spent busy.
pub open spec fn is_busy(sample: CpuSample) -> bool {
    sample.busy_ticks * 200 > sample.interval_ticks
}

/// Whether more than half a percent of the interval was spent busy.
pub fn cpu_busy(sample: CpuSample) -> (r: bool)
    ensures
        r == is_busy(sample),
{
    sample.busy_ticks as u128 * 200 > sample.interval_ticks as u128
}

/// Whole seconds from `then` to `now`; none where `then` lies ahead.
pub open spec fn seconds_between(then: u64, now: u64) -> u64 {
    if now >= then {
        ((now - then) / NANOS_PER_SEC as int) as u64
    } else {
        0
    }
}

/// A process as it stands after its idle time was brought up to date: activity
/// restarts the clock, otherwise the clock runs on.
pub open spec fn with_idle_time(e: ProcessEntry, now: u64) -> ProcessEntry {
    if is_busy(e.cpu) {
        ProcessEntry { last_active_at: Some(now), idle_seconds: 0, ..e }
    } else {
        ProcessEntry {
            idle_seconds: match e.last_active_at {
                Some(t) => seconds_between(t, now),
                None => 0,
            },
            ..e
        }
    }
}

fn refresh_idle_time(e: ProcessEntry, now: u64) -> (r: ProcessEntry)
    ensures
        r == with_idle_time(e, now),
{
    let mut e = e;
    if cpu_busy(e.cpu) {
        e.last_active_at = Some(now);
        e.idle_seconds = 0;
    } else {
        e.idle_seconds = match e.last_active_at {
            Some(t) => if now >= t {
                (now - t) / NANOS_PER_SEC
            } else {
                0
            },
            None => 0,
        };
    }
    e
}

/// The process map after every idle time was brought up to date.
pub open spec fn with_idle_times(m: Map<u32, ProcessEntry>, now: u64) -> Map<u32, ProcessEntry> {
    Map::new(|pid: u32| m.contains_key(pid), |pid: u32| with_idle_time(m[pid], now))
}

/// Brings the idle time of every process up to date. `now` is monotonic time in
/// nanoseconds.
pub fn update_idle_times(state: &mut AppState, now: u64)
    ensures
        final(state)@ == (AppStateView {
            process_map: with_idle_times(old(state)@.process_map, now),
            ..old(state)@
        }),
        old(state)@.consistent() ==> final(state)@.consistent(),
{
    let pids: Vec<u32> = all_pids(&state.process_map);
    let ghost before = state@;
    let ghost m = state.process_map@;
    let mut i: usize = 0;
    while i < pids.len()
        invariant
            i <= pids@.len(),
            m == before.process_map,
            enumerates(pids@, m, |e: ProcessEntry| true),
            state@ == (AppStateView { process_map: state.process_map@, ..before }),
            state.process_map@.dom() == m.dom(),
            forall|j: int|
                0 <= j < i ==> state.process_map@[#[trigger] pids@[j]] == with_idle_time(
                    m[pids@[j]],
                    now,
                ),
            forall|j: int|
                i <= j < pids@.len() ==> state.process_map@[#[trigger] pids@[j]] == m[pids@[j]],
        decreases pids@.len() - i,
    {
        let pid: u32 = pids[i];
        assert(pids@.contains(pid));
        let ghost current = state.process_map@;
        if let Some(e) = state.process_map.remove(&pid) {
            state.process_map.insert(pid, refresh_idle_time(e, now));
        }
        assert(state.process_map@.dom() =~= m.dom());
        i = i + 1;
    }
    proof {
        assert forall|pid: u32| m.contains_key(pid) implies #[trigger] state.process_map@[pid]
            == with_idle_time(m[pid], now) by {
            assert(pids@.contains(pid));
        }
        assert(state.process_map@ =~= with_idle_times(m, now));
    }
}

// ---------------------------------------------------------------------------
// Candidates
// ---------------------------------------------------------------------------

/// A process that may be trimmed: idle long enough, and neither protected nor
/// excluded nor suspended.
pub open spec fn is_trim_candidate(e: ProcessEntry, min_idle_secs: u64) -> bool {
    &&& e.idle_seconds >= min_idle_secs
    &&& !e.is_protected
    &&& !e.is_excluded
    &&& !e.is_suspended
}

/// `list` holds each candidate of `m` once, the largest consumer first.
pub open spec fn lists_idle_processes(
    list: Seq<ProcessEntry>,
    m: Map<u32, ProcessEntry>,
    min_idle_secs: u64,
) -> bool {
    &&& by_ram_descending(list)
    &&& exists|keys: Seq<u32>|
        enumerates(keys, m, |e: ProcessEntry| is_trim_candidate(e, min_idle_secs)) && list
            == #[trigger] entries_of(m, keys)
}

/// The processes that may be trimmed, largest consumer first.
pub fn get_idle_processes(state: &AppState, min_idle_secs: u64) -> (r: Vec<ProcessEntry>)
    ensures
        lists_idle_processes(r@, state@.process_map, min_idle_secs),
{
    let pids: Vec<u32> = all_pids(&state.process_map);
    let ghost m = state.process_map@;
    let ghost pred = |e: ProcessEntry| is_trim_candidate(e, min_idle_secs);
    let mut chosen: Vec<u32> = Vec::new();
    let mut i: usize = 0;
    while i < pids.len()
        invariant
            i <= pids@.len(),
            m == state.process_map@,
            enumerates(pids@, m, |e: ProcessEntry| true),
            chosen@.no_duplicates(),
            forall|k: u32| #[trigger]
                chosen@.contains(k) <==> (pids@.take(i as int).contains(k) && is_trim_candidate(
                    m[k],
                    min_idle_secs,
                )),
        decreases pids@.len() - i,
    {
        let pid: u32 = pids[i];
        let ghost before = chosen@;
        let ghost done = pids@.take(i as int);
        assert(pids@.contains(pid));
        assert(!done.contains(pid));
        assert(pids@.take(i + 1) =~= done.push(pid));
        assert(forall|k: u32| #[trigger] done.push(pid).contains(k) <==> (done.contains(k) || k == pid)) by {
            broadcast use vstd::seq_lib::group_seq_properties;
        }
        if let Some(e) = state.process_map.get(&pid) {
            if e.idle_seconds >= min_idle_secs && !e.is_protected && !e.is_excluded
                && !e.is_suspended {
                chosen.push(pid);
                assert(forall|k: u32| #[trigger] chosen@.contains(k) <==> (before.contains(k) || k == pid)) by {
                    broadcast use vstd::seq_lib::group_seq_properties;
                }
                assert(!before.contains(pid));
            }
        }
        i = i + 1;
    }
    proof {
        assert(pids@.take(i as int) =~= pids@);
        assert forall|j: int| 0 <= j < chosen@.len() implies m.contains_key(
            #[trigger] chosen@[j],
        ) by {
            assert(chosen@.contains(chosen@[j]));
        }
    }
    let sorted: Vec<u32> = sort_by_ram(&state.process_map, &chosen);
    proof {
        assert forall|j: int| 0 <= j < sorted@.len() implies m.contains_key(
            #[trigger] sorted@[j],
        ) by {
            assert(sorted@.contains(sorted@[j]));
        }
        assert(enumerates(sorted@, m, pred));
    }
    copy_entries(&state.process_map, &sorted)
}

/// Every process that has been idle long enough and is neither protected nor
/// excluded nor suspended is listed, and no other is; the largest comes first, and
/// none comes twice.
pub proof fn idle_processes_are_listed_just_where_nothing_spares_them(
    list: Seq<ProcessEntry>,
    m: Map<u32, ProcessEntry>,
    min_idle_secs: u64,
)
    requires
        lists_idle_processes(list, m, min_idle_secs),
    ensures
        forall|pid: u32|
            m.contains_key(pid) && m[pid].idle_seconds >= min_idle_secs && !m[pid].is_protected
                && !m[pid].is_excluded && !m[pid].is_suspended ==> list.contains(#[trigger] m[pid]),
        forall|i: int|
            0 <= i < list.len() ==> {
                let e = #[trigger] list[i];
                &&& e.idle_seconds >= min_idle_secs
                &&& !e.is_protected
                &&& !e.is_excluded
                &&& !e.is_suspended
                &&& exists|pid: u32| m.contains_key(pid) && #[trigger] m[pid] == e
            },
        forall|i: int, j: int|
            0 <= i < j < list.len() ==> (#[trigger] list[i]).ram_bytes >= (
            #[trigger] list[j]).ram_bytes,
        (forall|pid: u32| #[trigger] m.contains_key(pid) ==> m[pid].pid == pid) ==> forall|
            i: int,
            j: int,
        |
            0 <= i < j < list.len() ==> (#[trigger] list[i]).pid != (#[trigger] list[j]).pid,
{
    let keys = choose|keys: Seq<u32>|
        enumerates(keys, m, |e: ProcessEntry| is_trim_candidate(e, min_idle_secs)) && list
            == #[trigger] entries_of(m, keys);
    assert forall|pid: u32|
        m.contains_key(pid) && m[pid].idle_seconds >= min_idle_secs && !m[pid].is_protected
            && !m[pid].is_excluded && !m[pid].is_suspended implies list.contains(
        #[trigger] m[pid],
    ) by {
        assert(keys.contains(pid));
        let i = choose|i: int| 0 <= i < keys.len() && keys[i] == pid;
        assert(list[i] == m[pid]);
    }
    assert forall|i: int| 0 <= i < list.len() implies {
        let e = #[trigger] list[i];
        &&& e.idle_seconds >= min_idle_secs
        &&& !e.is_protected
        &&& !e.is_excluded
        &&& !e.is_suspended
        &&& exists|pid: u32| m.contains_key(pid) && #[trigger] m[pid] == e
    } by {
        assert(keys.contains(keys[i]));
        assert(m[keys[i]] == list[i]);
    }
    if forall|pid: u32| #[trigger] m.contains_key(pid) ==> m[pid].pid == pid {
        assert forall|i: int, j: int| 0 <= i < j < list.len() implies (#[trigger] list[i]).pid != (
        #[trigger] list[j]).pid by {
            assert(keys.contains(keys[i]) && keys.contains(keys[j]));
            assert(m.contains_key(keys[i]) && m.contains_key(keys[j]));
            assert(keys[i] != keys[j]);
        }
    }
}

/// Bringing the idle times up to date touches nothing but them: a process that was
/// busy for more than half a percent of its interval is active now, any other has
/// been idle since it was last active.
pub proof fn idle_times_follow_activity(m: Map<u32, ProcessEntry>, now: u64, pid: u32)
    requires
        m.contains_key(pid),
    ensures
        ({
            let before = m[pid];
            let after = with_idle_times(m, now)[pid];
            let active = before.cpu.busy_ticks * 200 > before.cpu.interval_ticks;
            &&& with_idle_times(m, now).dom() == m.dom()
            &&& after.pid == before.pid && after.name == before.name
            &&& after.ram_bytes == before.ram_bytes && after.cpu == before.cpu
            &&& after.is_suspended == before.is_suspended
            &&& after.is_protected == before.is_protected
            &&& after.is_excluded == before.is_excluded
            &&& after.has_window == before.has_window
            &&& after.icon_data_url == before.icon_data_url
            &&& active ==> after.idle_seconds == 0 && after.last_active_at == Some(now)
            &&& !active ==> after.last_active_at == before.last_active_at
            &&& !active && before.last_active_at is None ==> after.idle_seconds == 0
            &&& !active ==> (before.last_active_at matches Some(then) ==> {
                &&& now >= then ==> after.idle_seconds * 1_000_000_000 <= now - then
                    < after.idle_seconds * 1_000_000_000 + 1_000_000_000
                &&& now < then ==> after.idle_seconds == 0
            })
        }),
{
    assert(with_idle_times(m, now).dom() =~= m.dom());
}

} // verus!
