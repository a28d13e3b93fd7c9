//! Known bloat services: which there are, which of them run, what they cost.

use std::collections::HashMap;

use vstd::prelude::*;

use crate::engine::process_table::{all_pids, enumerates};
use crate::state::app_state::{
    bloat_views, AppState, AppStateView, BloatEntry, BloatEntryView, ProcessEntry,
};
use crate::text::{
    is_ascii_text, list_contains, lowered, lowered_all, same_text, str_texts, texts, to_lowercase,
};

verus! {

broadcast use vstd::std_specs::hash::group_hash_axioms;

// ---------------------------------------------------------------------------
// The registry
// ---------------------------------------------------------------------------

/// A category of bloat services.
#[derive(Debug)]
pub struct BloatDefinition {
    /// Display name.
    pub display_name: &'static str,
    /// Executable names that belong to the category, whatever their case.
    pub exe_names: Vec<&'static str>,
    /// Description shown to the user.
    pub description: &'static str,
}

/// A category as plain mathematical values.
#[verifier::ext_equal]
pub struct BloatDefinitionView {
    pub display_name: Seq<char>,
    pub exe_names: Seq<Seq<char>>,
    pub description: Seq<char>,
}

impl View for BloatDefinition {
    type V = BloatDefinitionView;

    open spec fn view(&self) -> BloatDefinitionView {
        BloatDefinitionView {
            display_name: self.display_name@,
            exe_names: str_texts(self.exe_names@),
            description: self.description@,
        }
    }
}

/// The categories of a list.
pub open spec fn definition_views(list: Seq<BloatDefinition>) -> Seq<BloatDefinitionView> {
    Seq::new(list.len(), |i: int| list[i]@)
}

/// All known categories.
pub open spec fn known_bloat() -> Seq<BloatDefinitionView> {
    seq![
        BloatDefinitionView {
            display_name: "Copilot"@,
            exe_names: seq!["Copilot.exe"@, "Microsoft.Windows.Copilot.exe"@],
            description: "Windows AI assistant. Runs in background consuming 400-800MB."@,
        },
        BloatDefinitionView {
            display_name: "Recall (AI Screenshot)"@,
            exe_names: seq!["AIXHost.exe"@, "ScreenshotService.exe"@],
            description: "Continuously screenshots your screen for AI indexing."@,
        },
        BloatDefinitionView {
            display_name: "Xbox Game Bar"@,
            exe_names: seq!["GameBar.exe"@, "GameBarPresenceWriter.exe"@, "GameBarFTServer.exe"@],
            description: "Xbox overlay and capture tools. Often unused."@,
        },
        BloatDefinitionView {
            display_name: "Widgets"@,
            exe_names: seq!["Widgets.exe"@, "WidgetService.exe"@],
            description: "Windows news/weather widget panel."@,
        },
        BloatDefinitionView {
            display_name: "Windows AI Services"@,
            exe_names: seq!["WinMLDashboard.exe"@, "WindowsAI.exe"@],
            description: "Machine learning framework services running in background."@,
        },
    ]
}

fn two_names(a: &'static str, b: &'static str) -> (r: Vec<&'static str>)
    ensures
        str_texts(r@) == seq![a@, b@],
{
    let mut r: Vec<&'static str> = Vec::new();
    r.push(a);
    r.push(b);
    assert(str_texts(r@) =~= seq![a@, b@]);
    r
}

fn three_names(a: &'static str, b: &'static str, c: &'static str) -> (r: Vec<&'static str>)
    ensures
        str_texts(r@) == seq![a@, b@, c@],
{
    let mut r: Vec<&'static str> = two_names(a, b);
    let ghost before = r@;
    r.push(c);
    assert(str_texts(r@) =~= str_texts(before).push(c@));
    assert(str_texts(r@) =~= seq![a@, b@, c@]);
    r
}

/// All known categories.
pub fn bloat_definitions() -> (r: Vec<BloatDefinition>)
    ensures
        definition_views(r@) == known_bloat(),
{
    let mut r: Vec<BloatDefinition> = Vec::new();
    r.push(
        BloatDefinition {
            display_name: "Copilot",
            exe_names: two_names("Copilot.exe", "Microsoft.Windows.Copilot.exe"),
            description: "Windows AI assistant. Runs in background consuming 400-800MB.",
        },
    );
    r.push(
        BloatDefinition {
            display_name: "Recall (AI Screenshot)",
            exe_names: two_names("AIXHost.exe", "ScreenshotService.exe"),
            description: "Continuously screenshots your screen for AI indexing.",
        },
    );
    r.push(
        BloatDefinition {
            display_name: "Xbox Game Bar",
            exe_names: three_names("GameBar.exe", "GameBarPresenceWriter.exe", "GameBarFTServer.exe"),
            description: "Xbox overlay and capture tools. Often unused.",
        },
    );
    r.push(
        BloatDefinition {
            display_name: "Widgets",
            exe_names: two_names("Widgets.exe", "WidgetService.exe"),
            description: "Windows news/weather widget panel.",
        },
    );
    r.push(
        BloatDefinition {
            display_name: "Windows AI Services",
            exe_names: two_names("WinMLDashboard.exe", "WindowsAI.exe"),
            description: "Machine learning framework services running in background.",
        },
    );
    assert(definition_views(r@) =~= known_bloat());
    r
}

/// The display names of all known categories.
pub open spec fn bloat_names() -> Seq<Seq<char>> {
    Seq::new(known_bloat().len(), |i: int| known_bloat()[i].display_name)
}

/// The display names of all known categories, in order.
pub fn known_bloat_names() -> (r: Vec<&'static str>)
    ensures
        str_texts(r@) == bloat_names(),
{
    let definitions: Vec<BloatDefinition> = bloat_definitions();
    let mut r: Vec<&'static str> = Vec::new();
    let mut i: usize = 0;
    while i < definitions.len()
        invariant
            i <= definitions@.len(),
            definition_views(definitions@) == known_bloat(),
            str_texts(r@) == bloat_names().take(i as int),
        decreases definitions@.len() - i,
    {
        let ghost before = r@;
        let name: &'static str = definitions[i].display_name;
        r.push(name);
        assert(name@ == definition_views(definitions@)[i as int].display_name);
        assert(str_texts(r@) =~= str_texts(before).push(name@));
        assert(str_texts(r@) =~= bloat_names().take(i + 1));
        i = i + 1;
    }
    assert(definition_views(definitions@).len() == definitions@.len());
    assert(str_texts(r@) =~= bloat_names());
    r
}

// ---------------------------------------------------------------------------
// Matching
// ---------------------------------------------------------------------------

/// The name is one of the executable names, whatever the case of either.
pub open spec fn is_exe_of(exe_names: Seq<Seq<char>>, name: Seq<char>) -> bool {
    lowered_all(exe_names).contains(lowered(name))
}

/// What makes a process part of a category.
pub open spec fn belongs_to(exe_names: Seq<Seq<char>>) -> spec_fn(ProcessEntry) -> bool {
    |e: ProcessEntry| is_exe_of(exe_names, e.name@)
}

fn lowercase_names(list: &Vec<&'static str>) -> (r: Vec<String>)
    ensures
        texts(r@) == lowered_all(str_texts(list@)),
{
    let mut r: Vec<String> = Vec::new();
    let mut i: usize = 0;
    while i < list.len()
        invariant
            i <= list@.len(),
            texts(r@) == lowered_all(str_texts(list@)).take(i as int),
        decreases list@.len() - i,
    {
        let ghost before = r@;
        r.push(to_lowercase(list[i]));
        assert(texts(r@) =~= texts(before).push(lowered(str_texts(list@)[i as int])));
        assert(texts(r@) =~= lowered_all(str_texts(list@)).take(i + 1));
        i = i + 1;
    }
    assert(texts(r@) =~= lowered_all(str_texts(list@)));
    r
}

fn matching_pids(map: &HashMap<u32, ProcessEntry>, exe_names: &Vec<&'static str>) -> (r: Vec<u32>)
    ensures
        enumerates(r@, map@, belongs_to(str_texts(exe_names@))),
{
    let lower: Vec<String> = lowercase_names(exe_names);
    let pids: Vec<u32> = all_pids(map);
    let ghost m = map@;
    let ghost exes = str_texts(exe_names@);
    let mut r: Vec<u32> = Vec::new();
    let mut i: usize = 0;
    while i < pids.len()
        invariant
            i <= pids@.len(),
            m == map@,
            exes == str_texts(exe_names@),
            texts(lower@) == lowered_all(exes),
            enumerates(pids@, m, |e: ProcessEntry| true),
            r@.no_duplicates(),
            forall|k: u32| #[trigger]
                r@.contains(k) <==> (pids@.take(i as int).contains(k) && is_exe_of(
                    exes,
                    m[k].name@,
                )),
        decreases pids@.len() - i,
    {
        let pid: u32 = pids[i];
        let ghost before = r@;
        let ghost done = pids@.take(i as int);
        assert(pids@.contains(pid));
        assert(!done.contains(pid));
        assert(pids@.take(i + 1) =~= done.push(pid));
        assert(forall|k: u32| #[trigger]
            done.push(pid).contains(k) <==> (done.contains(k) || k == pid)) by {
            broadcast use vstd::seq_lib::group_seq_properties;
        }
        if let Some(e) = map.get(&pid) {
            let name: String = to_lowercase(e.name.as_str());
            if list_contains(&lower, name.as_str()) {
                r.push(pid);
                assert(forall|k: u32| #[trigger]
                    r@.contains(k) <==> (before.contains(k) || k == pid)) by {
                    broadcast use vstd::seq_lib::group_seq_properties;
                }
                assert(!before.contains(pid));
            }
        }
        i = i + 1;
    }
    assert(pids@.take(i as int) =~= pids@);
    r
}

// ---------------------------------------------------------------------------
// Scanning
// ---------------------------------------------------------------------------

/// The processes of a category.
pub open spec fn running(exe_names: Seq<Seq<char>>, m: Map<u32, ProcessEntry>) -> Set<u32> {
    m.dom().filter(|pid: u32| is_exe_of(exe_names, m[pid].name@))
}

/// The memory that the processes `pids` use together.
pub open spec fn total_ram(m: Map<u32, ProcessEntry>, pids: Set<u32>) -> nat
    decreases pids.len(),
    when pids.finite()
{
    if pids.len() == 0 {
        0
    } else {
        let pid = pids.choose();
        m[pid].ram_bytes as nat + total_ram(m, pids.remove(pid))
    }
}

proof fn lemma_total_insert(m: Map<u32, ProcessEntry>, pids: Set<u32>, pid: u32)
    requires
        pids.finite(),
        !pids.contains(pid),
    ensures
        total_ram(m, pids.insert(pid)) == m[pid].ram_bytes + total_ram(m, pids),
    decreases pids.len(),
{
    let all = pids.insert(pid);
    assert(all.contains(pid));
    let q = all.choose();
    assert(all.contains(q));
    if q == pid {
        assert(all.remove(q) =~= pids);
    } else {
        let rest = pids.remove(q);
        assert(all.remove(q) =~= rest.insert(pid));
        lemma_total_insert(m, rest, pid);
        assert(rest.insert(q) =~= pids);
        lemma_total_insert(m, rest, q);
    }
}

fn sum_ram(map: &HashMap<u32, ProcessEntry>, pids: &Vec<u32>) -> (r: u128)
    requires
        pids@.no_duplicates(),
        forall|i: int| 0 <= i < pids@.len() ==> map@.contains_key(#[trigger] pids@[i]),
    ensures
        r == total_ram(map@, pids@.to_set()),
{
    let mut r: u128 = 0;
    let mut i: usize = 0;
    assert(pids@.take(0).to_set() =~= Set::empty());
    while i < pids.len()
        invariant
            i <= pids@.len(),
            pids@.no_duplicates(),
            forall|j: int| 0 <= j < pids@.len() ==> map@.contains_key(#[trigger] pids@[j]),
            r == total_ram(map@, pids@.take(i as int).to_set()),
            r <= i * u64::MAX,
        decreases pids@.len() - i,
    {
        let pid: u32 = pids[i];
        let ghost done = pids@.take(i as int);
        proof {
            assert(!done.contains(pid));
            assert(pids@.take(i + 1) =~= done.push(pid));
            assert(pids@.take(i + 1).to_set() =~= done.to_set().insert(pid)) by {
                broadcast use vstd::seq_lib::group_seq_properties;
            }
            lemma_total_insert(map@, done.to_set(), pid);
            assert(i * u64::MAX + u64::MAX == (i + 1) * u64::MAX) by (nonlinear_arith);
            assert((i + 1) * u64::MAX <= u128::MAX) by (nonlinear_arith)
                requires
                    0 <= i < u64::MAX,
            ;
        }
        if let Some(e) = map.get(&pid) {
            r = r + e.ram_bytes as u128;
        }
        i = i + 1;
    }
    assert(pids@.take(i as int) =~= pids@);
    r
}

/// The entry of one category: whether it runs is told by its memory; it counts
/// as suspended where it runs and all its processes are suspended.
pub open spec fn bloat_entry(definition: BloatDefinitionView, s: AppStateView) -> BloatEntryView {
    let pids = running(definition.exe_names, s.process_map);
    BloatEntryView {
        name: definition.display_name,
        exe_names: definition.exe_names,
        ram_bytes: total_ram(s.process_map, pids),
        is_suspended: pids.len() > 0 && pids.subset_of(s.suspended_set),
    }
}

/// The entries of all known categories, in order.
pub open spec fn scanned(s: AppStateView) -> Seq<BloatEntryView> {
    Seq::new(known_bloat().len(), |i: int| bloat_entry(known_bloat()[i], s))
}

fn own_names(list: &Vec<&'static str>) -> (r: Vec<String>)
    ensures
        texts(r@) == str_texts(list@),
{
    let mut r: Vec<String> = Vec::new();
    let mut i: usize = 0;
    while i < list.len()
        invariant
            i <= list@.len(),
            texts(r@) == str_texts(list@).take(i as int),
        decreases list@.len() - i,
    {
        let ghost before = r@;
        r.push(list[i].to_owned());
        assert(texts(r@) =~= texts(before).push(str_texts(list@)[i as int]));
        assert(texts(r@) =~= str_texts(list@).take(i + 1));
        i = i + 1;
    }
    assert(texts(r@) =~= str_texts(list@));
    r
}

fn scan_one(definition: &BloatDefinition, state: &AppState) -> (r: BloatEntry)
    ensures
        r@ == bloat_entry(definition@, state@),
{
    let pids: Vec<u32> = matching_pids(&state.process_map, &definition.exe_names);
    let ghost m = state@.process_map;
    let ghost all = running(definition@.exe_names, m);
    proof {
        assert forall|i: int| 0 <= i < pids@.len() implies m.contains_key(#[trigger] pids@[i]) by {
            assert(pids@.contains(pids@[i]));
        }
        assert forall|pid: u32| #[trigger] pids@.to_set().contains(pid) <==> all.contains(pid) by {
            assert(pids@.contains(pid) <==> pids@.to_set().contains(pid));
        }
        assert(pids@.to_set() =~= all);
        pids@.unique_seq_to_set();
    }
    let ram_bytes: u128 = sum_ram(&state.process_map, &pids);
    let mut is_suspended: bool = pids.len() > 0;
    let mut i: usize = 0;
    while i < pids.len()
        invariant
            i <= pids@.len(),
            is_suspended == (pids@.len() > 0 && forall|j: int|
                0 <= j < i ==> state.suspended_set@.contains(#[trigger] pids@[j])),
        decreases pids@.len() - i,
    {
        if !state.suspended_set.contains(&pids[i]) {
            is_suspended = false;
        }
        i = i + 1;
    }
    proof {
        if is_suspended {
            assert forall|pid: u32| all.contains(pid) implies state.suspended_set@.contains(pid) by {
                assert(pids@.contains(pid));
            }
        } else if pids@.len() > 0 {
            let j = choose|j: int|
                0 <= j < pids@.len() && !state.suspended_set@.contains(#[trigger] pids@[j]);
            assert(all.contains(pids@[j]));
        }
    }
    BloatEntry {
        name: definition.display_name.to_owned(),
        exe_names: own_names(&definition.exe_names),
        ram_bytes,
        is_suspended,
    }
}

/// Looks for every known category among the processes. A category that does not
/// run has its entry too.
pub fn scan_bloat(state: &AppState) -> (r: Vec<BloatEntry>)
    ensures
        bloat_views(r@) == scanned(state@),
{
    let definitions: Vec<BloatDefinition> = bloat_definitions();
    let mut r: Vec<BloatEntry> = Vec::new();
    let mut i: usize = 0;
    while i < definitions.len()
        invariant
            i <= definitions@.len(),
            definition_views(definitions@) == known_bloat(),
            bloat_views(r@) == scanned(state@).take(i as int),
        decreases definitions@.len() - i,
    {
        let ghost before = r@;
        let entry: BloatEntry = scan_one(&definitions[i], state);
        let ghost view = entry@;
        r.push(entry);
        assert(definitions@[i as int]@ == definition_views(definitions@)[i as int]);
        assert(bloat_views(r@) =~= bloat_views(before).push(view));
        assert(bloat_views(r@) =~= scanned(state@).take(i + 1));
        i = i + 1;
    }
    assert(definition_views(definitions@).len() == definitions@.len());
    assert(bloat_views(r@) =~= scanned(state@));
    r
}

/// A scan has one entry for each known category and none besides, in the order
/// of the registry; one that does not run costs nothing and is not suspended.
pub proof fn a_scan_covers_every_category(s: AppStateView, i: int)
    requires
        0 <= i < known_bloat().len(),
    ensures
        scanned(s).len() == known_bloat().len(),
        scanned(s)[i].name == known_bloat()[i].display_name,
        (forall|pid: u32| #[trigger]
            s.process_map.contains_key(pid) ==> !is_exe_of(
                known_bloat()[i].exe_names,
                s.process_map[pid].name@,
            )) ==> scanned(s)[i].ram_bytes == 0 && !scanned(s)[i].is_suspended,
{
    let pids = running(known_bloat()[i].exe_names, s.process_map);
    if forall|pid: u32| #[trigger]
        s.process_map.contains_key(pid) ==> !is_exe_of(
            known_bloat()[i].exe_names,
            s.process_map[pid].name@,
        ) {
        assert(pids =~= Set::empty());
    }
}

/// What the registry holds: the services and the executables that belong to them.
pub proof fn the_registry_knows_five_services()
    ensures
        bloat_names() == seq![
            "Copilot"@,
            "Recall (AI Screenshot)"@,
            "Xbox Game Bar"@,
            "Widgets"@,
            "Windows AI Services"@,
        ],
        known_bloat()[0].exe_names == seq!["Copilot.exe"@, "Microsoft.Windows.Copilot.exe"@],
        known_bloat()[1].exe_names == seq!["AIXHost.exe"@, "ScreenshotService.exe"@],
        known_bloat()[2].exe_names == seq![
            "GameBar.exe"@,
            "GameBarPresenceWriter.exe"@,
            "GameBarFTServer.exe"@,
        ],
        known_bloat()[3].exe_names == seq!["Widgets.exe"@, "WidgetService.exe"@],
        known_bloat()[4].exe_names == seq!["WinMLDashboard.exe"@, "WindowsAI.exe"@],
{
    assert(bloat_names() =~= seq![
        "Copilot"@,
        "Recall (AI Screenshot)"@,
        "Xbox Game Bar"@,
        "Widgets"@,
        "Windows AI Services"@,
    ]);
}

proof fn lemma_exe(exe_names: Seq<Seq<char>>, name: Seq<char>)
    ensures
        is_exe_of(exe_names, name) <==> exists|k: int|
            0 <= k < exe_names.len() && lowered(#[trigger] exe_names[k]) == lowered(name),
{
    let all = lowered_all(exe_names);
    if is_exe_of(exe_names, name) {
        let k = choose|k: int| 0 <= k < all.len() && all[k] == lowered(name);
        assert(lowered(exe_names[k]) == lowered(name));
    }
    if exists|k: int| 0 <= k < exe_names.len() && lowered(#[trigger] exe_names[k]) == lowered(name) {
        let k = choose|k: int|
            0 <= k < exe_names.len() && lowered(#[trigger] exe_names[k]) == lowered(name);
        assert(all[k] == lowered(name));
    }
}

proof fn lemma_total_elsewhere(
    m: Map<u32, ProcessEntry>,
    pids: Set<u32>,
    pid: u32,
    e: ProcessEntry,
)
    requires
        pids.finite(),
        !pids.contains(pid),
    ensures
        total_ram(m.insert(pid, e), pids) == total_ram(m, pids),
    decreases pids.len(),
{
    if pids.len() > 0 {
        let q = pids.choose();
        assert(pids.contains(q)) by {
            if pids =~= Set::empty() {
                assert(pids.len() == 0);
            }
        }
        lemma_total_elsewhere(m, pids.remove(q), pid, e);
    }
}

/// A service shows as suspended just where one of its executables runs, whatever
/// the case of its name, and each process that runs one is suspended. Its memory is
/// what those processes use together: one more process adds its memory to the
/// services that it belongs to and to no other, and nothing runs for nothing.
pub proof fn a_scan_measures_each_service(s: AppStateView, i: int, pid: u32, e: ProcessEntry)
    requires
        0 <= i < known_bloat().len(),
        s.process_map.dom().finite(),
        !s.process_map.contains_key(pid),
    ensures
        ({
            let exes = known_bloat()[i].exe_names;
            let belongs = |name: Seq<char>|
                exists|k: int|
                    0 <= k < exes.len() && lowered(#[trigger] exes[k]) == lowered(name);
            let more = AppStateView { process_map: s.process_map.insert(pid, e), ..s };
            &&& scanned(s)[i].name == known_bloat()[i].display_name
            &&& scanned(s)[i].exe_names == exes
            &&& scanned(s)[i].is_suspended <==> (exists|p: u32| #[trigger]
                s.process_map.contains_key(p) && belongs(s.process_map[p].name@)) && forall|p: u32|
             #[trigger]
                s.process_map.contains_key(p) && belongs(s.process_map[p].name@)
                    ==> s.suspended_set.contains(p)
            &&& belongs(e.name@) ==> scanned(more)[i].ram_bytes == scanned(s)[i].ram_bytes
                + e.ram_bytes
            &&& !belongs(e.name@) ==> scanned(more)[i].ram_bytes == scanned(s)[i].ram_bytes
            &&& s.process_map.dom() == Set::<u32>::empty() ==> scanned(s)[i].ram_bytes == 0
        }),
{
    let exes = known_bloat()[i].exe_names;
    let m = s.process_map;
    let all = running(exes, m);
    let more = m.insert(pid, e);
    assert(all.subset_of(m.dom()));
    vstd::set_lib::lemma_len_subset(all, m.dom());
    assert forall|p: u32| #[trigger] m.contains_key(p) implies (all.contains(p) <==> exists|k: int|
        0 <= k < exes.len() && lowered(#[trigger] exes[k]) == lowered(m[p].name@)) by {
        lemma_exe(exes, m[p].name@);
    }
    lemma_exe(exes, e.name@);
    if all.len() > 0 {
        let p = all.choose();
        assert(all.contains(p)) by {
            if all =~= Set::empty() {
                assert(all.len() == 0);
            }
        }
        assert(m.contains_key(p));
    }
    if exists|p: u32| #[trigger] m.contains_key(p) && is_exe_of(exes, m[p].name@) {
        let p = choose|p: u32| #[trigger] m.contains_key(p) && is_exe_of(exes, m[p].name@);
        assert(all.contains(p));
        assert(all.len() > 0) by {
            vstd::set_lib::lemma_set_empty_equivalency_len(all);
        }
    }
    if scanned(s)[i].is_suspended {
        assert forall|p: u32| #[trigger] m.contains_key(p) && (exists|k: int|
            0 <= k < exes.len() && lowered(#[trigger] exes[k]) == lowered(m[p].name@)) implies s.suspended_set.contains(
        p) by {
            assert(all.contains(p));
        }
    }
    assert forall|p: u32| #[trigger] m.contains_key(p) implies (is_exe_of(exes, m[p].name@)
        <==> exists|k: int|
        0 <= k < exes.len() && lowered(#[trigger] exes[k]) == lowered(m[p].name@)) by {
        lemma_exe(exes, m[p].name@);
    }
    if !all.subset_of(s.suspended_set) {
        let p = choose|p: u32| all.contains(p) && !s.suspended_set.contains(p);
        assert(m.contains_key(p));
    }
    if is_exe_of(exes, e.name@) {
        assert(running(exes, more) =~= all.insert(pid));
        lemma_total_insert(more, all, pid);
        lemma_total_elsewhere(m, all, pid, e);
    } else {
        assert(running(exes, more) =~= all);
        lemma_total_elsewhere(m, all, pid, e);
    }
    if m.dom() == Set::<u32>::empty() {
        assert(all =~= Set::empty());
    }
}

// ---------------------------------------------------------------------------
// Lookup by name
// ---------------------------------------------------------------------------

/// The first category of that display name, in lower case.
pub open spec fn first_named(
    definitions: Seq<BloatDefinitionView>,
    lower: Seq<char>,
) -> Option<BloatDefinitionView>
    decreases definitions.len(),
{
    if definitions.len() == 0 {
        None
    } else if lowered(definitions[0].display_name) == lower {
        Some(definitions[0])
    } else {
        first_named(definitions.drop_first(), lower)
    }
}

/// The known category of that name, whatever its case.
pub open spec fn bloat_named(name: Seq<char>) -> Option<BloatDefinitionView> {
    first_named(known_bloat(), lowered(name))
}

/// `pids` names the running processes of a category once each; there are none
/// where the category is unknown.
pub open spec fn lists_bloat(pids: Seq<u32>, name: Seq<char>, m: Map<u32, ProcessEntry>) -> bool {
    match bloat_named(name) {
        Some(definition) => enumerates(pids, m, belongs_to(definition.exe_names)),
        None => pids.len() == 0,
    }
}

/// Every category is found under its own name.
pub proof fn categories_are_found_by_name(i: int)
    requires
        0 <= i < known_bloat().len(),
    ensures
        bloat_named(known_bloat()[i].display_name) == Some(known_bloat()[i]),
{
    reveal_strlit("Copilot");
    reveal_strlit("Recall (AI Screenshot)");
    reveal_strlit("Xbox Game Bar");
    reveal_strlit("Widgets");
    reveal_strlit("Windows AI Services");
    reveal_with_fuel(first_named, 6);
    let all = known_bloat();
    assert forall|j: int| 0 <= j < all.len() implies is_ascii_text(
        (#[trigger] all[j]).display_name,
    ) by {}
    assert(lowered("Copilot"@)[0] == 'c');
    assert(lowered("Widgets"@)[0] == 'w');
    assert forall|j: int, k: int| 0 <= j < k < all.len() implies lowered(
        (#[trigger] all[j]).display_name,
    ) != lowered((#[trigger] all[k]).display_name) by {
        assert(lowered(all[j].display_name).len() == all[j].display_name.len());
        assert(lowered(all[k].display_name).len() == all[k].display_name.len());
    }
    assert(all.drop_first()[0] == all[1]);
    assert(all.drop_first().drop_first()[0] == all[2]);
    assert(all.drop_first().drop_first().drop_first()[0] == all[3]);
    assert(all.drop_first().drop_first().drop_first().drop_first()[0] == all[4]);
}

/// A service shows as suspended in a scan just where it runs and each of its
/// processes is suspended.
pub proof fn a_scan_agrees_with_the_lookup(s: AppStateView, i: int, pids: Seq<u32>)
    requires
        0 <= i < known_bloat().len(),
        lists_bloat(pids, known_bloat()[i].display_name, s.process_map),
    ensures
        scanned(s)[i].is_suspended <==> pids.len() > 0 && forall|k: int|
            0 <= k < pids.len() ==> s.suspended_set.contains(#[trigger] pids[k]),
        scanned(s)[i].ram_bytes == total_ram(s.process_map, pids.to_set()),
{
    categories_are_found_by_name(i);
    let exes = known_bloat()[i].exe_names;
    let all = running(exes, s.process_map);
    assert forall|pid: u32| #[trigger] pids.to_set().contains(pid) <==> all.contains(pid) by {
        assert(pids.contains(pid) <==> pids.to_set().contains(pid));
    }
    assert(pids.to_set() =~= all);
    pids.unique_seq_to_set();
    if forall|k: int| 0 <= k < pids.len() ==> s.suspended_set.contains(#[trigger] pids[k]) {
        assert forall|pid: u32| all.contains(pid) implies s.suspended_set.contains(pid) by {
            assert(pids.contains(pid));
        }
    } else {
        let k = choose|k: int| 0 <= k < pids.len() && !s.suspended_set.contains(#[trigger] pids[k]);
        assert(pids.contains(pids[k]));
        assert(all.contains(pids[k]));
    }
}

proof fn lemma_first_named(definitions: Seq<BloatDefinitionView>, lower: Seq<char>)
    ensures
        first_named(definitions, lower) is None <==> forall|i: int|
            0 <= i < definitions.len() ==> lowered((#[trigger] definitions[i]).display_name)
                != lower,
    decreases definitions.len(),
{
    if definitions.len() > 0 {
        let rest = definitions.drop_first();
        lemma_first_named(rest, lower);
        if first_named(definitions, lower) is None {
            assert forall|i: int| 0 <= i < definitions.len() implies lowered(
                (#[trigger] definitions[i]).display_name,
            ) != lower by {
                if i > 0 {
                    assert(rest[i - 1] == definitions[i]);
                }
            }
        } else if lowered(definitions[0].display_name) != lower {
            let i = choose|i: int|
                0 <= i < rest.len() && lowered((#[trigger] rest[i]).display_name) == lower;
            assert(definitions[i + 1] == rest[i]);
        }
    }
}

/// Looking up a service, by its name in any case, gives just the processes that run
/// one of its executables, in any case, and each once. An unknown name gives none.
pub proof fn a_lookup_gives_the_processes_of_the_service(
    pids: Seq<u32>,
    name: Seq<char>,
    m: Map<u32, ProcessEntry>,
)
    requires
        lists_bloat(pids, name, m),
    ensures
        pids.no_duplicates(),
        forall|i: int|
            0 <= i < known_bloat().len() && lowered((#[trigger] known_bloat()[i]).display_name)
                == lowered(name) ==> forall|pid: u32| #[trigger]
                pids.contains(pid) <==> m.contains_key(pid) && exists|k: int|
                    0 <= k < known_bloat()[i].exe_names.len() && lowered(
                        #[trigger] known_bloat()[i].exe_names[k],
                    ) == lowered(m[pid].name@),
        (forall|i: int|
            0 <= i < known_bloat().len() ==> lowered((#[trigger] known_bloat()[i]).display_name)
                != lowered(name)) ==> pids.len() == 0,
{
    lemma_first_named(known_bloat(), lowered(name));
    assert forall|i: int|
        0 <= i < known_bloat().len() && lowered((#[trigger] known_bloat()[i]).display_name)
            == lowered(name) implies forall|pid: u32| #[trigger]
        pids.contains(pid) <==> m.contains_key(pid) && exists|k: int|
            0 <= k < known_bloat()[i].exe_names.len() && lowered(
                #[trigger] known_bloat()[i].exe_names[k],
            ) == lowered(m[pid].name@) by {
        categories_are_found_by_name(i);
        assert forall|pid: u32| #[trigger]
            pids.contains(pid) <==> m.contains_key(pid) && exists|k: int|
                0 <= k < known_bloat()[i].exe_names.len() && lowered(
                    #[trigger] known_bloat()[i].exe_names[k],
                ) == lowered(m[pid].name@) by {
            lemma_exe(known_bloat()[i].exe_names, m[pid].name@);
        }
    }
}

/// The running processes of a category, named in any case; none where the
/// category is unknown.
pub fn get_bloat_pids(definition_name: &str, state: &AppState) -> (r: Vec<u32>)
    ensures
        lists_bloat(r@, definition_name@, state@.process_map),
{
    let lower: String = to_lowercase(definition_name);
    let definitions: Vec<BloatDefinition> = bloat_definitions();
    let ghost all = definition_views(definitions@);
    let mut i: usize = 0;
    assert(all.skip(0) =~= all);
    while i < definitions.len()
        invariant
            i <= definitions@.len(),
            all == definition_views(definitions@),
            all == known_bloat(),
            lower@ == lowered(definition_name@),
            first_named(all.skip(i as int), lower@) == bloat_named(definition_name@),
        decreases definitions@.len() - i,
    {
        let name: String = to_lowercase(definitions[i].display_name);
        assert(all.skip(i as int)[0] == definitions@[i as int]@);
        assert(all.skip(i as int).drop_first() =~= all.skip(i + 1));
        if same_text(name.as_str(), lower.as_str()) {
            return matching_pids(&state.process_map, &definitions[i].exe_names);
        }
        i = i + 1;
    }
    Vec::new()
}

} // verus!
