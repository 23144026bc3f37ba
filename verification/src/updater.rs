//! The self-updater as a state machine: when a check or an install may
//! start, and what each finished check or install does to the state and to
//! the timeline. Running `curl`, installing and keeping time are the
//! application's part; it hands the outcomes back here.
use vstd::prelude::*;

use crate::model::{EventSeverity, NetworkEvent, NetworkEventKind};
use crate::text::{concat2, concat3, owned, push_str, str_eq};
use crate::update::{AvailableUpdate, CheckOutcome, UpdateMessage, UpdateStatus, release_api_url};

verus! {

/// How often the updater looks for a release on its own, in seconds.
pub const RELEASE_CHECK_INTERVAL_SECS: u64 = 21600;

/// What the updater knows: its status, the update waiting to be installed,
/// and the version whose install was last attempted.
#[derive(Debug)]
pub struct UpdateState {
    pub status: UpdateStatus,
    pub pending_update: Option<AvailableUpdate>,
    pub attempted_update_version: Option<String>,
}

impl UpdateState {
    pub fn new() -> (r: Self)
        ensures
            r.status is Idle,
            r.pending_update is None,
            r.attempted_update_version is None,
    {
        UpdateState { status: UpdateStatus::Idle, pending_update: None, attempted_update_version: None }
    }
}

/// A check or an install is under way.
pub open spec fn busy(status: UpdateStatus) -> bool {
    status is Checking || status is Installing
}

pub fn is_busy(status: &UpdateStatus) -> (r: bool)
    ensures
        r == busy(*status),
{
    match status {
        UpdateStatus::Checking { .. } | UpdateStatus::Installing { .. } => true,
        _ => false,
    }
}

/// A check starts on its own when none is under way and there was none
/// before, or the last one was at least six hours ago.
pub fn should_start_auto_check(status: &UpdateStatus, seconds_since_last_check: Option<u64>) -> (r:
    bool)
    ensures
        r == (!busy(*status) && match seconds_since_last_check {
            None => true,
            Some(s) => s >= RELEASE_CHECK_INTERVAL_SECS,
        }),
{
    if is_busy(status) {
        return false;
    }
    match seconds_since_last_check {
        None => true,
        Some(s) => s >= RELEASE_CHECK_INTERVAL_SECS,
    }
}

/// An install starts on its own when an update is waiting, nothing is under
/// way, and that version was not tried before.
pub open spec fn auto_install_due(s: UpdateState) -> bool {
    match s.pending_update {
        None => false,
        Some(u) => !busy(s.status) && match s.attempted_update_version {
            Some(v) => v@ != u.target_version@,
            None => true,
        },
    }
}

pub fn should_start_auto_install(state: &UpdateState) -> (r: bool)
    ensures
        r == auto_install_due(*state),
{
    match &state.pending_update {
        None => false,
        Some(update) => {
            if is_busy(&state.status) {
                return false;
            }
            match &state.attempted_update_version {
                Some(v) => !str_eq(v.as_str(), update.target_version.as_str()),
                None => true,
            }
        },
    }
}

/// The event an outcome puts on the timeline, as plain values.
pub open spec fn event_of(e: NetworkEvent) -> (NetworkEventKind, EventSeverity, Seq<char>) {
    (e.kind, e.severity, e.message@)
}

pub open spec fn opt_event(e: Option<NetworkEvent>) -> Option<(NetworkEventKind, EventSeverity, Seq<char>)> {
    match e {
        Some(x) => Some(event_of(x)),
        None => None,
    }
}

/// What starting a check gives.
#[derive(Debug)]
pub enum CheckStart {
    /// A check or an install is already under way; nothing changes.
    Busy,
    /// The repository address is not a GitHub one; the updater is in error.
    InvalidRepository(NetworkEvent),
    /// The check is under way: fetch this URL.
    Started(String),
}

/// Starts a check, unless one is under way.
pub fn begin_update_check(state: &mut UpdateState, manual: bool) -> (r: CheckStart)
    ensures
        busy(old(state).status) ==> (r is Busy && final(state).status == old(state).status),
        !busy(old(state).status) ==> match crate::update::repository_part(crate::update::REPOSITORY_URL@) {
            Ok(slug) => (r matches CheckStart::Started(url) && url@ == "https://api.github.com/repos/"@
                + slug + "/releases/latest"@) && final(state).status == (UpdateStatus::Checking {
                manual,
            }),
            Err(_) => (r matches CheckStart::InvalidRepository(e) && event_of(e) == (
                NetworkEventKind::UpdateCheckFailed,
                EventSeverity::Error,
                "Update check failed: invalid GitHub repository URL"@,
            )) && (final(state).status matches UpdateStatus::Error { message } && message@
                == "invalid GitHub repository URL"@),
        },
        final(state).pending_update == old(state).pending_update,
        final(state).attempted_update_version == old(state).attempted_update_version,
{
    if is_busy(&state.status) {
        return CheckStart::Busy;
    }
    match release_api_url() {
        Ok(url) => {
            state.status = UpdateStatus::Checking { manual };
            CheckStart::Started(url)
        },
        Err(_) => {
            state.status = UpdateStatus::Error { message: owned("invalid GitHub repository URL") };
            CheckStart::InvalidRepository(
                NetworkEvent::new(
                    NetworkEventKind::UpdateCheckFailed,
                    EventSeverity::Error,
                    owned("Update check failed: invalid GitHub repository URL"),
                ),
            )
        },
    }
}

/// What starting an install gives.
#[derive(Debug)]
pub enum InstallStart {
    /// No update is waiting; a manual request leaves a note on the timeline.
    NothingPending(Option<NetworkEvent>),
    /// A check or an install is already under way.
    Busy,
    /// The install is under way: install this update.
    Started(AvailableUpdate),
}

/// A copy of an update.
pub fn clone_update(u: &AvailableUpdate) -> (r: AvailableUpdate)
    ensures
        r == *u,
{
    AvailableUpdate {
        current_version: u.current_version.clone(),
        target_version: u.target_version.clone(),
        release_url: u.release_url.clone(),
        asset_name: u.asset_name.clone(),
        download_url: u.download_url.clone(),
        release_notes: u.release_notes.clone(),
        release_date: u.release_date.clone(),
    }
}

/// Starts installing the waiting update.
pub fn begin_update_install(state: &mut UpdateState, manual: bool) -> (r: InstallStart)
    ensures
        old(state).pending_update is None ==> (r matches InstallStart::NothingPending(e) && (manual
            ==> opt_event(e) == Some(
            (
                NetworkEventKind::UpdateCheckFailed,
                EventSeverity::Warning,
                "No pending update found. Press 'u' to check now."@,
            ),
        )) && (!manual ==> e is None) && final(state).status == old(state).status),
        old(state).pending_update is Some && busy(old(state).status) ==> (r is Busy
            && final(state).status == old(state).status),
        old(state).pending_update is Some && !busy(old(state).status) ==> {
            let v = old(state).pending_update->0.target_version@;
            &&& r matches InstallStart::Started(u) && u.target_version@ == v && Some(u)
                == old(state).pending_update
            &&& final(state).attempted_update_version matches Some(a) && a@ == v
            &&& final(state).status matches UpdateStatus::Installing { version, manual: m } && version@
                == v && m == manual
        },
        final(state).pending_update == old(state).pending_update,
        old(state).pending_update is None || busy(old(state).status) ==> final(state).attempted_update_version
            == old(state).attempted_update_version,
{
    let update = match &state.pending_update {
        Some(u) => clone_update(u),
        None => {
            if manual {
                return InstallStart::NothingPending(
                    Some(
                        NetworkEvent::new(
                            NetworkEventKind::UpdateCheckFailed,
                            EventSeverity::Warning,
                            owned("No pending update found. Press 'u' to check now."),
                        ),
                    ),
                );
            }
            return InstallStart::NothingPending(None);
        },
    };
    if is_busy(&state.status) {
        return InstallStart::Busy;
    }
    let version = match &state.pending_update {
        Some(u) => u.target_version.clone(),
        None => String::new(),
    };
    state.attempted_update_version = Some(version.clone());
    state.status = UpdateStatus::Installing { version: version.clone(), manual };
    InstallStart::Started(update)
}

/// What a finished check or install does: the new state and the event
/// for the timeline.
pub open spec fn message_effect(
    old_state: UpdateState,
    message: UpdateMessage,
    new_state: UpdateState,
    event: Option<NetworkEvent>,
) -> bool {
    match message {
        UpdateMessage::CheckFinished { manual, result } => match result {
            Ok(CheckOutcome::UpToDate { .. }) => {
                &&& new_state.pending_update is None
                &&& new_state.status is UpToDate
                &&& opt_event(event) == if manual {
                    Some(
                        (
                            NetworkEventKind::UpdateInstalled,
                            EventSeverity::Info,
                            "Already running the latest release."@,
                        ),
                    )
                } else {
                    None
                }
                &&& new_state.attempted_update_version == old_state.attempted_update_version
            },
            Ok(CheckOutcome::Available(u)) => {
                let v = u.target_version@;
                &&& new_state.pending_update == Some(u)
                &&& new_state.status matches UpdateStatus::Available { version } && version@ == v
                &&& opt_event(event) == Some(
                    (
                        NetworkEventKind::UpdateAvailable,
                        EventSeverity::Info,
                        if manual {
                            "Update available: v"@ + v + ". Starting install."@
                        } else {
                            "Auto-update found v"@ + v + ". Starting install."@
                        },
                    ),
                )
                &&& new_state.attempted_update_version == old_state.attempted_update_version
            },
            Err(err) => {
                &&& new_state.pending_update == old_state.pending_update
                &&& new_state.status matches UpdateStatus::Error { message } && message@ == err@
                &&& opt_event(event) == Some(
                    (NetworkEventKind::UpdateCheckFailed, EventSeverity::Error, "Update check failed: "@ + err@),
                )
                &&& new_state.attempted_update_version == old_state.attempted_update_version
            },
        },
        UpdateMessage::InstallFinished { version, result, .. } => match result {
            Ok(()) => {
                &&& new_state.pending_update is None
                &&& new_state.status matches UpdateStatus::Updated { version: v } && v@ == version@
                &&& opt_event(event) == Some(
                    (
                        NetworkEventKind::UpdateInstalled,
                        EventSeverity::Info,
                        "Updated binary to v"@ + version@ + ". Restart lazyifconfig to use it."@,
                    ),
                )
                &&& new_state.attempted_update_version == old_state.attempted_update_version
            },
            Err(err) => {
                &&& new_state.pending_update == old_state.pending_update
                &&& new_state.status matches UpdateStatus::Error { message } && message@ == err@
                &&& opt_event(event) == Some(
                    (
                        NetworkEventKind::UpdateCheckFailed,
                        EventSeverity::Error,
                        "Update install failed for v"@ + version@ + ": "@ + err@,
                    ),
                )
                &&& new_state.attempted_update_version == old_state.attempted_update_version
            },
        },
    }
}

/// Applies a finished check or install; after it the updater is never busy.
pub fn apply_update_message(state: &mut UpdateState, message: UpdateMessage) -> (r: Option<
    NetworkEvent,
>)
    ensures
        message_effect(*old(state), message, *final(state), r),
        !busy(final(state).status),
{
    match message {
        UpdateMessage::CheckFinished { manual, result } => match result {
            Ok(CheckOutcome::UpToDate { .. }) => {
                state.pending_update = None;
                state.status = UpdateStatus::UpToDate;
                if manual {
                    Some(
                        NetworkEvent::new(
                            NetworkEventKind::UpdateInstalled,
                            EventSeverity::Info,
                            owned("Already running the latest release."),
                        ),
                    )
                } else {
                    None
                }
            },
            Ok(CheckOutcome::Available(update)) => {
                let version = update.target_version.clone();
                let text = if manual {
                    concat3("Update available: v", version.as_str(), ". Starting install.")
                } else {
                    concat3("Auto-update found v", version.as_str(), ". Starting install.")
                };
                state.pending_update = Some(update);
                state.status = UpdateStatus::Available { version };
                Some(NetworkEvent::new(NetworkEventKind::UpdateAvailable, EventSeverity::Info, text))
            },
            Err(err) => {
                let text = concat2("Update check failed: ", err.as_str());
                state.status = UpdateStatus::Error { message: err };
                Some(NetworkEvent::new(NetworkEventKind::UpdateCheckFailed, EventSeverity::Error, text))
            },
        },
        UpdateMessage::InstallFinished { version, result, .. } => match result {
            Ok(()) => {
                let text = concat3(
                    "Updated binary to v",
                    version.as_str(),
                    ". Restart lazyifconfig to use it.",
                );
                state.pending_update = None;
                state.status = UpdateStatus::Updated { version };
                Some(NetworkEvent::new(NetworkEventKind::UpdateInstalled, EventSeverity::Info, text))
            },
            Err(err) => {
                let mut text = concat3("Update install failed for v", version.as_str(), ": ");
                push_str(&mut text, err.as_str());
                state.status = UpdateStatus::Error { message: err };
                Some(NetworkEvent::new(NetworkEventKind::UpdateCheckFailed, EventSeverity::Error, text))
            },
        },
    }
}

/// The `curl` request for the latest release.
pub open spec fn release_check_command(url: Seq<char>) -> crate::tools::ToolCommandView {
    crate::tools::ToolCommandView {
        display: "curl -sS -L -m 10 -H 'Accept: application/vnd.github+json' -H 'User-Agent: lazyifconfig' "@
            + url,
        program: "curl"@,
        args: seq![
            "-sS"@,
            "-L"@,
            "-m"@,
            "10"@,
            "-H"@,
            "Accept: application/vnd.github+json"@,
            "-H"@,
            "User-Agent: lazyifconfig"@,
            url,
        ],
    }
}

pub fn release_check_command_spec(url: &str) -> (r: crate::tools::ToolCommandSpec)
    ensures
        r@ == release_check_command(url@),
{
    let r = crate::tools::ToolCommandSpec {
        display: concat2(
            "curl -sS -L -m 10 -H 'Accept: application/vnd.github+json' -H 'User-Agent: lazyifconfig' ",
            url,
        ),
        program: owned("curl"),
        args: vec![
            owned("-sS"),
            owned("-L"),
            owned("-m"),
            owned("10"),
            owned("-H"),
            owned("Accept: application/vnd.github+json"),
            owned("-H"),
            owned("User-Agent: lazyifconfig"),
            owned(url),
        ],
    };
    assert(r@.args =~= release_check_command(url@).args);
    r
}

} // verus!
