//! The toast notifications: when one is shown and what it says.

use vstd::prelude::*;
use vstd::string::*;

use crate::state::app_state::{TrimResult, TrimResultView};
use crate::text::{concat3, decimal, decimal_text};

verus! {

/// A notification to show.
#[derive(Debug)]
pub struct Toast {
    /// Application id registered for attribution.
    pub app_id: String,
    pub title: String,
    pub body: String,
}

/// A notification as plain mathematical values.
#[verifier::ext_equal]
pub struct ToastView {
    pub app_id: Seq<char>,
    pub title: Seq<char>,
    pub body: Seq<char>,
}

impl View for Toast {
    type V = ToastView;

    open spec fn view(&self) -> ToastView {
        ToastView { app_id: self.app_id@, title: self.title@, body: self.body@ }
    }
}

/// A notification of this application.
pub open spec fn toast_of(title: Seq<char>, body: Seq<char>) -> ToastView {
    ToastView { app_id: "Gingify"@, title, body }
}

fn toast(title: &str, body: String) -> (r: Toast)
    ensures
        r@ == toast_of(title@, body@),
{
    Toast { app_id: "Gingify".to_owned(), title: title.to_owned(), body }
}

// ---------------------------------------------------------------------------
// Sizes
// ---------------------------------------------------------------------------

/// A byte count in tenths of a gigabyte (1024 to the third), rounded to the
/// nearest, a tie to the even neighbour.
pub open spec fn gb_tenths(bytes: nat) -> nat {
    let q = bytes * 10 / 1_073_741_824;
    let r = bytes * 10 % 1_073_741_824;
    if r > 536_870_912 || (r == 536_870_912 && q % 2 == 1) {
        q + 1
    } else {
        q
    }
}

/// A byte count in gigabytes with one decimal.
pub open spec fn gb_text(bytes: nat) -> Seq<char> {
    decimal(gb_tenths(bytes) / 10) + "."@ + decimal(gb_tenths(bytes) % 10)
}

/// Writes a byte count in gigabytes with one decimal.
pub fn gigabytes(bytes: u64) -> (r: String)
    ensures
        r@ == gb_text(bytes as nat),
{
    let scaled: u128 = bytes as u128 * 10;
    let q: u64 = (scaled / 1_073_741_824) as u64;
    let rest: u64 = (scaled % 1_073_741_824) as u64;
    let tenths: u64 = if rest > 536_870_912 || (rest == 536_870_912 && q % 2 == 1) {
        q + 1
    } else {
        q
    };
    concat3(decimal_text(tenths / 10).as_str(), ".", decimal_text(tenths % 10).as_str())
}

// ---------------------------------------------------------------------------
// Notifications
// ---------------------------------------------------------------------------

/// What is shown after a trim: nothing where no bytes were freed.
pub open spec fn trim_toast(result: TrimResultView) -> Option<ToastView> {
    if result.processes_trimmed == 0 || result.freed_bytes == 0 {
        None
    } else {
        Some(
            toast_of(
                "Gingify"@,
                "Freed "@ + gb_text(result.freed_bytes as nat) + " GB — "@ + decimal(
                    result.processes_trimmed as nat,
                ) + " apps snoozed"@,
            ),
        )
    }
}

/// The notification after a trim. Whether notifications are allowed is for the
/// caller to check.
pub fn notify_trim_result(result: &TrimResult) -> (r: Option<Toast>)
    ensures
        match trim_toast(result@) {
            None => r is None,
            Some(t) => r matches Some(toast) && toast@ == t,
        },
{
    if result.processes_trimmed == 0 || result.freed_bytes == 0 {
        return None;
    }
    let mut body: String = "Freed ".to_owned();
    body.append(gigabytes(result.freed_bytes).as_str());
    body.append(" GB — ");
    body.append(decimal_text(result.processes_trimmed as u64).as_str());
    body.append(" apps snoozed");
    Some(toast("Gingify", body))
}

/// The notification that Gaming mode is on.
pub fn notify_gaming_mode_on(freed_bytes: u64) -> (r: Toast)
    ensures
        r@ == toast_of(
            "Gingify"@,
            "Gaming Mode on — freed "@ + gb_text(freed_bytes as nat) + " GB for your game"@,
        ),
{
    toast(
        "Gingify",
        concat3("Gaming Mode on — freed ", gigabytes(freed_bytes).as_str(), " GB for your game"),
    )
}

/// The notification that Gaming mode is off.
pub fn notify_gaming_mode_off() -> (r: Toast)
    ensures
        r@ == toast_of("Gingify"@, "Gaming Mode off — apps restored"@),
{
    toast("Gingify", "Gaming Mode off — apps restored".to_owned())
}

/// The notification that a hard-suspended process runs again.
pub fn notify_process_resumed(process_name: &str) -> (r: Toast)
    ensures
        r@ == toast_of("Gingify"@, "["@ + process_name@ + "] has been woken up"@),
{
    toast("Gingify", concat3("[", process_name, "] has been woken up"))
}

/// The notification that a new version can be had.
pub fn notify_update_available(version: &str, _download_url: &str) -> (r: Toast)
    ensures
        r@ == toast_of(
            "Gingify Update"@,
            "v"@ + version@ + " is available — right-click tray to update"@,
        ),
{
    toast("Gingify Update", concat3("v", version, " is available — right-click tray to update"))
}

/// The notification that the running version is the latest.
pub fn notify_up_to_date() -> (r: Toast)
    ensures
        r@ == toast_of("Gingify"@, "You're on the latest version."@),
{
    toast("Gingify", "You're on the latest version.".to_owned())
}

/// The notification shown once, after onboarding.
pub fn notify_welcome() -> (r: Toast)
    ensures
        r@ == toast_of(
            "Gingify"@,
            "Gingify is running. Click the tray icon anytime to see your RAM."@,
        ),
{
    toast("Gingify", "Gingify is running. Click the tray icon anytime to see your RAM.".to_owned())
}

// ---------------------------------------------------------------------------
// High memory pressure
// ---------------------------------------------------------------------------

/// One hour in nanoseconds.
pub const HOUR_NANOS: u64 = 3_600_000_000_000;

/// Remembers when the high-pressure notification was last shown.
#[derive(Debug)]
pub struct HighRamLimiter {
    /// Monotonic time in nanoseconds; nothing before the first notification.
    pub last: Option<u64>,
}

impl HighRamLimiter {
    /// A limiter that has let nothing through yet.
    pub fn new() -> (r: Self)
        ensures
            r.last is None,
    {
        HighRamLimiter { last: None }
    }
}

/// Whether the notification may be shown at `now`.
pub open spec fn high_ram_due(last: Option<u64>, now: u64) -> bool {
    match last {
        Some(t) => now - t >= HOUR_NANOS,
        None => true,
    }
}

/// What the high-pressure notification says.
pub open spec fn high_ram_body(pressure_pct: u32, is_critical: bool) -> Seq<char> {
    if is_critical {
        "RAM is critically full ("@ + decimal(pressure_pct as nat)
            + "% used) — your device is likely slowing down. Open Gingify to free RAM now."@
    } else {
        "RAM at "@ + decimal(pressure_pct as nat)
            + "% — your device may start slowing down. Consider opening Gingify to free RAM."@
    }
}

/// The notification of high or critical pressure, at most once per hour. `now`
/// is monotonic time in nanoseconds.
pub fn notify_high_ram(
    limiter: &mut HighRamLimiter,
    now: u64,
    pressure_pct: u32,
    is_critical: bool,
) -> (r: Option<Toast>)
    ensures
        high_ram_due(old(limiter).last, now) ==> {
            &&& r matches Some(t)
            &&& t@ == toast_of("Gingify — High RAM"@, high_ram_body(pressure_pct, is_critical))
            &&& final(limiter).last == Some(now)
        },
        !high_ram_due(old(limiter).last, now) ==> r is None && *final(limiter) == *old(limiter),
{
    if let Some(t) = limiter.last {
        if now < t || now - t < HOUR_NANOS {
            return None;
        }
    }
    limiter.last = Some(now);
    let number: String = decimal_text(pressure_pct as u64);
    let body: String = if is_critical {
        concat3(
            "RAM is critically full (",
            number.as_str(),
            "% used) — your device is likely slowing down. Open Gingify to free RAM now.",
        )
    } else {
        concat3(
            "RAM at ",
            number.as_str(),
            "% — your device may start slowing down. Consider opening Gingify to free RAM.",
        )
    };
    Some(toast("Gingify — High RAM", body))
}

/// When the notification was last shown, once it was asked for at each of these
/// times.
pub open spec fn last_shown(start: Option<u64>, times: Seq<u64>) -> Option<u64>
    decreases times.len(),
{
    if times.len() == 0 {
        start
    } else {
        let before = last_shown(start, times.drop_last());
        if high_ram_due(before, times.last()) {
            Some(times.last())
        } else {
            before
        }
    }
}

/// The notification is shown when it is asked for the `i`th time.
pub open spec fn shown_at(start: Option<u64>, times: Seq<u64>, i: int) -> bool {
    high_ram_due(last_shown(start, times.take(i)), times[i])
}

proof fn lemma_shown_since(start: Option<u64>, times: Seq<u64>, i: int, k: int)
    requires
        0 <= i < k <= times.len(),
        shown_at(start, times, i),
    ensures
        last_shown(start, times.take(k)) matches Some(t) && t >= times[i],
    decreases k,
{
    assert(times.take(k).drop_last() =~= times.take(k - 1));
    if i < k - 1 {
        lemma_shown_since(start, times, i, k - 1);
    }
}

/// However often the high-pressure notification is asked for, any two times at
/// which it is shown are at least an hour apart.
pub proof fn high_ram_is_shown_at_most_hourly(start: Option<u64>, times: Seq<u64>, i: int, j: int)
    requires
        0 <= i < j < times.len(),
        shown_at(start, times, i),
        shown_at(start, times, j),
    ensures
        times[j] >= times[i] + HOUR_NANOS,
{
    lemma_shown_since(start, times, i, j);
}

/// A size in gigabytes is off by no more than half a tenth, and a tie goes to the
/// even tenth.
pub proof fn gigabytes_are_rounded_to_the_nearest_tenth(bytes: nat)
    ensures
        ({
            let exact = bytes * 10;
            let shown = gb_tenths(bytes) * 1_073_741_824;
            &&& exact - shown <= 536_870_912
            &&& shown - exact <= 536_870_912
            &&& exact - shown == 536_870_912 || shown - exact == 536_870_912 ==> gb_tenths(bytes) % 2
                == 0
        }),
        gb_text(bytes) == decimal(gb_tenths(bytes) / 10) + "."@ + decimal(gb_tenths(bytes) % 10),
{
}

/// The warning may be shown just where none was shown within the last hour. It
/// tells the load as it is.
pub proof fn a_warning_waits_an_hour(last: Option<u64>, now: u64, pct: u32)
    ensures
        high_ram_due(last, now) <==> (last matches Some(then) ==> now >= then
            + 3_600_000_000_000),
        high_ram_body(pct, true) == "RAM is critically full ("@ + decimal(pct as nat)
            + "% used) — your device is likely slowing down. Open Gingify to free RAM now."@,
        high_ram_body(pct, false) == "RAM at "@ + decimal(pct as nat)
            + "% — your device may start slowing down. Consider opening Gingify to free RAM."@,
{
}

/// A trim is announced just where it reached a process and freed something, with
/// what it freed and how many processes it reached.
pub proof fn a_trim_is_announced_with_its_figures(result: TrimResultView)
    ensures
        trim_toast(result) is Some <==> result.processes_trimmed > 0 && result.freed_bytes > 0,
        trim_toast(result) matches Some(toast) ==> toast.title == "Gingify"@ && toast.body
            == "Freed "@ + gb_text(result.freed_bytes as nat) + " GB — "@ + decimal(
            result.processes_trimmed as nat,
        ) + " apps snoozed"@,
{
}

} // verus!
