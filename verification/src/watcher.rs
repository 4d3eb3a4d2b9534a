//! The decision core of the self-healing directory-watcher loop.
//!
//! The loop itself performs outside work — sleeping, installing a native
//! filesystem watch, draining its notification channel, reading files — so
//! it lives outside the verified library. Every decision the loop takes,
//! though, is a pure function of its state and the event it just observed,
//! and stands here with an exact contract: which state comes next and which
//! action the loop must perform. On any failure the machine falls back to
//! waiting for the directory, so the loop re-validates everything from
//! scratch and picks up an externally-changed watch target.

use vstd::prelude::*;

verus! {

/// Seconds slept before re-checking a missing directory or retrying a
/// failed watch installation.
pub const RETRY_DELAY_SECS: u64 = 5;

/// Milliseconds granted to a newly created file before it is read, so a
/// writer in progress can finish.
pub const SETTLE_DELAY_MILLIS: u64 = 100;

/// Capacity of the bounded queue bridging the blocking notification source
/// into the cooperative consumer; a full queue blocks the producer, never
/// drops events.
pub const EVENT_QUEUE_CAPACITY: usize = 128;

/// Where the supervising loop stands.
#[derive(Clone, Copy, PartialEq, Eq, Structural, Debug)]
pub enum WatcherState {
    /// The directory is not yet validated or the watch is not yet installed.
    AwaitDirectory,
    /// A watch is installed and its notifications are being consumed.
    Watching,
}

/// What the loop observed at its latest suspension point.
#[derive(Clone, Copy, PartialEq, Eq, Structural, Debug)]
pub enum WatcherEvent {
    /// The configured directory does not exist.
    DirectoryMissing,
    /// Creating the directory (with missing parents) failed.
    DirectoryCreateFailed,
    /// The directory exists.
    DirectoryReady,
    /// Installing the native watch failed.
    WatchInstallFailed,
    /// The native watch is installed.
    WatchInstalled,
    /// A creation notification arrived for a path with the log extension.
    CreatedLogFile,
    /// A creation notification arrived for a path with another extension.
    CreatedOtherFile,
    /// A modify, delete or rename notification arrived.
    OtherFsEvent,
    /// The watcher reported an error on an event.
    WatchError,
    /// The notification channel closed.
    ChannelClosed,
}

/// What the loop must do next.
#[derive(Clone, Copy, PartialEq, Eq, Structural, Debug)]
pub enum WatcherAction {
    /// Publish the waiting status and sleep the retry delay.
    EmitWaitingAndDelay,
    /// Sleep the retry delay without publishing (the failure is only logged).
    DelayQuietly,
    /// Publish the error status and sleep the retry delay.
    EmitErrorAndDelay,
    /// Attempt to install the native watch on the directory.
    InstallWatch,
    /// Publish the watching status and start consuming notifications.
    EmitWatchingAndListen,
    /// Wait the settle delay, read the created file, and run it through the
    /// parsing pipeline.
    SettleAndProcess,
    /// Keep consuming notifications.
    Keep,
    /// Tear the watch down and re-validate the directory from scratch.
    Restart,
}

/// The transition table of the watcher loop. An event that belongs to the
/// other state leaves the state unchanged and asks the loop to keep going.
pub open spec fn spec_watcher_step(state: WatcherState, event: WatcherEvent) -> (WatcherState,
    WatcherAction,
) {
    match state {
        WatcherState::AwaitDirectory => match event {
            WatcherEvent::DirectoryMissing => (
                WatcherState::AwaitDirectory,
                WatcherAction::EmitWaitingAndDelay,
            ),
            WatcherEvent::DirectoryCreateFailed => (
                WatcherState::AwaitDirectory,
                WatcherAction::DelayQuietly,
            ),
            WatcherEvent::DirectoryReady => (WatcherState::AwaitDirectory, WatcherAction::InstallWatch),
            WatcherEvent::WatchInstallFailed => (
                WatcherState::AwaitDirectory,
                WatcherAction::EmitErrorAndDelay,
            ),
            WatcherEvent::WatchInstalled => (
                WatcherState::Watching,
                WatcherAction::EmitWatchingAndListen,
            ),
            _ => (WatcherState::AwaitDirectory, WatcherAction::Keep),
        },
        WatcherState::Watching => match event {
            WatcherEvent::CreatedLogFile => (WatcherState::Watching, WatcherAction::SettleAndProcess),
            WatcherEvent::CreatedOtherFile => (WatcherState::Watching, WatcherAction::Keep),
            WatcherEvent::OtherFsEvent => (WatcherState::Watching, WatcherAction::Keep),
            WatcherEvent::WatchError => (WatcherState::Watching, WatcherAction::Keep),
            WatcherEvent::ChannelClosed => (WatcherState::AwaitDirectory, WatcherAction::Restart),
            _ => (WatcherState::Watching, WatcherAction::Keep),
        },
    }
}

/// Decides the loop's next state and action from the event it observed.
pub fn watcher_step(state: WatcherState, event: WatcherEvent) -> (r: (WatcherState, WatcherAction))
    ensures
        r == spec_watcher_step(state, event),
{
    match state {
        WatcherState::AwaitDirectory => match event {
            WatcherEvent::DirectoryMissing => (
                WatcherState::AwaitDirectory,
                WatcherAction::EmitWaitingAndDelay,
            ),
            WatcherEvent::DirectoryCreateFailed => (
                WatcherState::AwaitDirectory,
                WatcherAction::DelayQuietly,
            ),
            WatcherEvent::DirectoryReady => (
                WatcherState::AwaitDirectory,
                WatcherAction::InstallWatch,
            ),
            WatcherEvent::WatchInstallFailed => (
                WatcherState::AwaitDirectory,
                WatcherAction::EmitErrorAndDelay,
            ),
            WatcherEvent::WatchInstalled => (
                WatcherState::Watching,
                WatcherAction::EmitWatchingAndListen,
            ),
            _ => (WatcherState::AwaitDirectory, WatcherAction::Keep),
        },
        WatcherState::Watching => match event {
            WatcherEvent::CreatedLogFile => (
                WatcherState::Watching,
                WatcherAction::SettleAndProcess,
            ),
            WatcherEvent::ChannelClosed => (WatcherState::AwaitDirectory, WatcherAction::Restart),
            _ => (WatcherState::Watching, WatcherAction::Keep),
        },
    }
}

/// Law: the machine is self-healing — whatever state it stands in, every
/// event leaves it in one of its two states, and the only transition out of
/// `Watching` is the channel closing, which restarts directory validation.
pub proof fn lemma_watcher_total(state: WatcherState, event: WatcherEvent)
    ensures
        spec_watcher_step(state, event).0 == WatcherState::Watching || spec_watcher_step(
            state,
            event,
        ).0 == WatcherState::AwaitDirectory,
        state == WatcherState::Watching && spec_watcher_step(state, event).0
            != WatcherState::Watching ==> event == WatcherEvent::ChannelClosed
            && spec_watcher_step(state, event).1 == WatcherAction::Restart,
{
}

/// The index of the last `.` in the sequence, or `-1` if none occurs.
pub open spec fn spec_rfind_dot(s: Seq<char>) -> int
    decreases s.len(),
{
    if s.len() == 0 {
        -1
    } else if s.last() == '.' {
        s.len() - 1
    } else {
        spec_rfind_dot(s.drop_last())
    }
}

/// Whether a file name carries the log extension: its extension — what
/// stands after the last `.`, provided that dot is not the leading
/// character (a leading dot marks a hidden file, not an extension) — is
/// exactly `txt`.
pub open spec fn spec_is_log_file_name(s: Seq<char>) -> bool {
    let j = spec_rfind_dot(s);
    j >= 1 && s.subrange(j + 1, s.len() as int) == "txt"@
}

proof fn lemma_rfind_dot_at(s: Seq<char>, j: int)
    requires
        -1 <= j < s.len(),
        j >= 0 ==> s[j] == '.',
        forall|k: int| j < k < s.len() ==> s[k] != '.',
    ensures
        spec_rfind_dot(s) == j,
    decreases s.len(),
{
    if s.len() > 0 && j < s.len() - 1 {
        lemma_rfind_dot_at(s.drop_last(), j);
    }
}

/// Decides whether a created file's name is a market-log candidate.
#[verifier::loop_isolation(false)]
pub fn is_log_file_name(file_name: &str) -> (r: bool)
    ensures
        r == spec_is_log_file_name(file_name@),
{
    let n = file_name.unicode_len();
    if n == 0 {
        proof {
            lemma_rfind_dot_at(file_name@, -1);
        }
        return false;
    }
    let mut j: usize = n;
    while j > 0 && file_name.get_char(j - 1) != '.'
        invariant
            0 <= j <= n,
            n == file_name@.len(),
            forall|k: int| j <= k < n ==> file_name@[k] != '.',
        decreases j,
    {
        j = j - 1;
    }
    proof {
        lemma_rfind_dot_at(file_name@, j - 1);
        reveal_strlit("txt");
    }
    if j < 2 {
        // No dot at all, or only a leading one.
        return false;
    }
    if n - j != 3 {
        proof {
            assert(file_name@.subrange(j as int, n as int).len() != "txt"@.len());
        }
        return false;
    }
    let r = file_name.get_char(j) == 't' && file_name.get_char(j + 1) == 'x' && file_name.get_char(
        j + 2,
    ) == 't';
    proof {
        if r {
            assert(file_name@.subrange(j as int, n as int) =~= "txt"@);
        } else {
            assert(file_name@.subrange(j as int, n as int) != "txt"@) by {
                if file_name@.subrange(j as int, n as int) == "txt"@ {
                    assert(file_name@.subrange(j as int, n as int)[0] == 't');
                    assert(file_name@.subrange(j as int, n as int)[1] == 'x');
                    assert(file_name@.subrange(j as int, n as int)[2] == 't');
                }
            }
        }
    }
    r
}

/// The status text published while the directory is awaited.
pub fn waiting_status() -> (r: String)
    ensures
        r@ == "Waiting for market logs directory..."@,
{
    String::from_str("Waiting for market logs directory...")
}

/// The status text published once the watch is installed.
pub fn watching_status() -> (r: String)
    ensures
        r@ == "Watching for market logs..."@,
{
    String::from_str("Watching for market logs...")
}

/// The status text published after a dump is processed.
pub fn processed_status(item_name: &str) -> (r: String)
    ensures
        r@ == "Processed: "@ + item_name@,
{
    String::from_str("Processed: ").concat(item_name)
}

} // verus!
