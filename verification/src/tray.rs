//! The system tray: its menu messages and the decisions of its message
//! loop, which waits briefly while the menu is used and longer while it is
//! idle, and stops on an exit request or a closed channel. The tray icon,
//! the channels and the sleeping are the application's.
use vstd::prelude::*;
use crate::text::{append_chars, chars_of, decimal, decimal_chars_u128, decimal_chars_u64, string_of};
use crate::ids::random_u32;

verus! {

/// A request from the tray menu.
#[derive(Debug, Clone, Copy, PartialEq, Eq, Structural)]
pub enum TrayMessage {
    ShowWindow,
    HideWindow,
    Exit,
}

/// The wait after menu activity, in milliseconds.
pub const CHECK_INTERVAL_MS: u64 = 50;
/// The ordinary wait, in milliseconds.
pub const LONG_TIMEOUT_MS: u64 = 500;
/// The wait once the tray has been idle for long, in milliseconds.
pub const IDLE_TIMEOUT_MS: u64 = 5000;
/// How many idle waits in a row make the tray idle.
pub const MAX_IDLE_COUNT: u32 = 10;
/// The pause after the first failed attempt to create the icon.
pub const FIRST_RETRY_DELAY_MS: u64 = 100;
/// How many ways of creating the icon are tried.
pub const ICON_ATTEMPTS: u32 = 4;

/// How long the loop waits for a tray message: long when it has been idle
/// for more than `MAX_IDLE_COUNT` rounds, short right after menu activity,
/// and the ordinary wait otherwise.
pub open spec fn spec_wait_ms(idle_count: u32, has_activity: bool) -> u64 {
    if idle_count > MAX_IDLE_COUNT {
        IDLE_TIMEOUT_MS
    } else if has_activity {
        CHECK_INTERVAL_MS
    } else {
        LONG_TIMEOUT_MS
    }
}

/// How long the loop waits for a tray message.
pub fn tray_wait_ms(idle_count: u32, has_activity: bool) -> (r: u64)
    ensures
        r == spec_wait_ms(idle_count, has_activity),
{
    if idle_count > MAX_IDLE_COUNT {
        IDLE_TIMEOUT_MS
    } else if has_activity {
        CHECK_INTERVAL_MS
    } else {
        LONG_TIMEOUT_MS
    }
}

/// The idle count after the menu was read: any menu message makes the tray
/// active again. Returns the count and whether there was activity.
pub fn after_menu_messages(idle_count: u32, menu_messages: usize) -> (r: (u32, bool))
    ensures
        menu_messages > 0 ==> r == (0u32, true),
        menu_messages == 0 ==> r == (idle_count, false),
{
    if menu_messages > 0 {
        (0, true)
    } else {
        (idle_count, false)
    }
}

/// What the wait for a tray message brought.
#[derive(Debug, Clone, Copy, PartialEq, Eq, Structural)]
pub enum TrayWaitOutcome {
    Received(TrayMessage),
    TimedOut,
    Disconnected,
}

/// What the loop does next.
#[derive(Debug, Clone, Copy, PartialEq, Eq, Structural)]
pub enum TrayNext {
    /// Go on with this idle count.
    Continue(u32),
    /// Leave the loop.
    Stop,
}

/// The loop after a wait: an exit request or a closed channel stops it; a
/// message resets the idle count; a wait that timed out adds one to it.
pub open spec fn spec_after_wait(idle_count: u32, outcome: TrayWaitOutcome) -> TrayNext {
    match outcome {
        TrayWaitOutcome::Received(TrayMessage::Exit) => TrayNext::Stop,
        TrayWaitOutcome::Received(_) => TrayNext::Continue(0),
        TrayWaitOutcome::TimedOut => TrayNext::Continue((idle_count + 1) as u32),
        TrayWaitOutcome::Disconnected => TrayNext::Stop,
    }
}

/// The loop after a wait for a tray message.
pub fn tray_after_wait(idle_count: u32, outcome: TrayWaitOutcome) -> (r: TrayNext)
    requires
        idle_count < u32::MAX,
    ensures
        r == spec_after_wait(idle_count, outcome),
{
    match outcome {
        TrayWaitOutcome::Received(TrayMessage::Exit) => TrayNext::Stop,
        TrayWaitOutcome::Received(_) => TrayNext::Continue(0),
        TrayWaitOutcome::TimedOut => TrayNext::Continue(idle_count + 1),
        TrayWaitOutcome::Disconnected => TrayNext::Stop,
    }
}

/// The pause after failed attempt `attempt` (counted from 0) to create the
/// tray icon: 100 ms, doubled after each failure.
pub open spec fn spec_icon_retry_delay(attempt: nat) -> nat
    decreases attempt,
{
    if attempt == 0 {
        FIRST_RETRY_DELAY_MS as nat
    } else {
        2 * spec_icon_retry_delay((attempt - 1) as nat)
    }
}

/// The pause after a failed attempt to create the tray icon.
pub fn icon_retry_delay_ms(attempt: u32) -> (r: u64)
    requires
        attempt < ICON_ATTEMPTS,
    ensures
        r == spec_icon_retry_delay(attempt as nat),
{
    let mut d: u64 = FIRST_RETRY_DELAY_MS;
    let mut k: u32 = 0;
    while k < attempt
        invariant
            k <= attempt,
            attempt < ICON_ATTEMPTS,
            d == spec_icon_retry_delay(k as nat),
            d <= 800,
        decreases attempt - k,
    {
        proof {
            reveal_with_fuel(spec_icon_retry_delay, 4);
        }
        d = d * 2;
        k = k + 1;
    }
    d
}


/// The ways of creating the tray icon, tried in turn; each gives the icon
/// a title of its own, so that one left over does not clash.
#[derive(Debug, Clone, Copy, PartialEq, Eq, Structural)]
pub enum TrayIconConfig {
    FirstAttempt,
    SecondAttempt,
    ThirdAttempt,
    Fallback,
}

/// The attempt to make after a failed one.
pub fn next_icon_config(c: TrayIconConfig) -> (r: Option<TrayIconConfig>)
    ensures
        r == match c {
            TrayIconConfig::FirstAttempt => Some(TrayIconConfig::SecondAttempt),
            TrayIconConfig::SecondAttempt => Some(TrayIconConfig::ThirdAttempt),
            TrayIconConfig::ThirdAttempt => Some(TrayIconConfig::Fallback),
            TrayIconConfig::Fallback => None::<TrayIconConfig>,
        },
{
    match c {
        TrayIconConfig::FirstAttempt => Some(TrayIconConfig::SecondAttempt),
        TrayIconConfig::SecondAttempt => Some(TrayIconConfig::ThirdAttempt),
        TrayIconConfig::ThirdAttempt => Some(TrayIconConfig::Fallback),
        TrayIconConfig::Fallback => None,
    }
}

/// The title of the tray icon of an attempt, from the process id, the time
/// in milliseconds and a random number `r`: `RSS_<pid>_<time>`,
/// `Reader_<pid>_<r>`, `App_<time>_<r>`, `R<pid mod 1000>_<r>`.
pub open spec fn spec_tray_title(c: TrayIconConfig, pid: u32, millis: u128, r: u32) -> Seq<char> {
    match c {
        TrayIconConfig::FirstAttempt => "RSS_"@ + decimal(pid as nat) + "_"@ + decimal(millis as nat),
        TrayIconConfig::SecondAttempt => "Reader_"@ + decimal(pid as nat) + "_"@ + decimal(r as nat),
        TrayIconConfig::ThirdAttempt => "App_"@ + decimal(millis as nat) + "_"@ + decimal(r as nat),
        TrayIconConfig::Fallback => "R"@ + decimal((pid % 1000) as nat) + "_"@ + decimal(r as nat),
    }
}

/// The title of the tray icon of an attempt, from a random number.
pub fn tray_title_of(c: TrayIconConfig, pid: u32, millis: u128, r: u32) -> (s: String)
    ensures
        s@ == spec_tray_title(c, pid, millis, r),
{
    let (head, first, second): (&str, Vec<char>, Vec<char>) = match c {
        TrayIconConfig::FirstAttempt => ("RSS_", decimal_chars_u64(pid as u64), decimal_chars_u128(millis)),
        TrayIconConfig::SecondAttempt => ("Reader_", decimal_chars_u64(pid as u64), decimal_chars_u64(r as u64)),
        TrayIconConfig::ThirdAttempt => ("App_", decimal_chars_u128(millis), decimal_chars_u64(r as u64)),
        TrayIconConfig::Fallback => ("R", decimal_chars_u64((pid % 1000) as u64), decimal_chars_u64(r as u64)),
    };
    let mut v = chars_of(head);
    append_chars(&mut v, first.as_slice());
    v.push('_');
    append_chars(&mut v, second.as_slice());
    proof {
        reveal_strlit("_");
        assert(v@ =~= spec_tray_title(c, pid, millis, r));
    }
    string_of(v.as_slice())
}

/// `rand::random::<u16>()`. Nothing is stated of it.
#[verifier::external_body]
fn random_u16() -> (r: u16) {
    rand::random::<u16>()
}

/// `rand::random::<u8>()`. Nothing is stated of it.
#[verifier::external_body]
fn random_u8() -> (r: u8) {
    rand::random::<u8>()
}

/// The title of the tray icon of an attempt of process `pid` at `millis`
/// (milliseconds since the Unix epoch): the second attempt takes a random
/// 32-bit number, the third a 16-bit one and the last an 8-bit one.
pub fn tray_title(c: TrayIconConfig, pid: u32, millis: u128) -> (s: String)
    ensures
        exists|r: u32| {
            &&& s@ == spec_tray_title(c, pid, millis, r)
            &&& (c == TrayIconConfig::ThirdAttempt ==> r < 0x10000)
            &&& (c == TrayIconConfig::Fallback ==> r < 0x100)
        },
{
    let r: u32 = match c {
        TrayIconConfig::FirstAttempt => 0,
        TrayIconConfig::SecondAttempt => random_u32(),
        TrayIconConfig::ThirdAttempt => random_u16() as u32,
        TrayIconConfig::Fallback => random_u8() as u32,
    };
    tray_title_of(c, pid, millis, r)
}

} // verus!
