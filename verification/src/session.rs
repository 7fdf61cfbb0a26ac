//! Which sessions can be reached, and how they are described.

use vstd::prelude::*;

use crate::thread_id::ThreadId;

verus! {

/// What a session's configuration says about messaging.
#[derive(Debug, PartialEq, Eq)]
pub struct SessionMessagingConfig {
    pub enabled: bool,
    pub ephemeral: bool,
    pub cwd: String,
}

/// A [`SessionMessagingConfig`] by its text.
pub struct ConfigView {
    pub enabled: bool,
    pub ephemeral: bool,
    pub cwd: Seq<char>,
}

impl View for SessionMessagingConfig {
    type V = ConfigView;

    open spec fn view(&self) -> ConfigView {
        ConfigView { enabled: self.enabled, ephemeral: self.ephemeral, cwd: self.cwd@ }
    }
}

/// Where a session stands among the sessions.
#[derive(Clone, Copy, Debug, PartialEq, Eq, Structural)]
pub struct SessionMessagingIdentity {
    pub is_root: bool,
}

/// What a session is doing.
#[derive(Debug, PartialEq, Eq)]
pub enum AgentStatus {
    PendingInit,
    Running,
    Interrupted,
    Completed(Option<String>),
    Errored(String),
    Shutdown,
    NotFound,
}

/// What is known of a session when it is looked up.
#[derive(Debug)]
pub struct ThreadSnapshot {
    /// The messaging configuration, once the session has one.
    pub config: Option<SessionMessagingConfig>,
    /// The messaging identity, once the session has one.
    pub identity: Option<SessionMessagingIdentity>,
    pub status: AgentStatus,
    /// The identifier that the session was configured with.
    pub thread_id: ThreadId,
    /// The name that the session was configured with.
    pub name: Option<String>,
}

/// A session that can be reached.
#[derive(Debug, PartialEq, Eq)]
pub struct LiveSession {
    pub thread_id: ThreadId,
    pub name: Option<String>,
    pub cwd: String,
    pub status: &'static str,
}

/// Whether a session can be reached, and why not.
#[derive(Debug, PartialEq, Eq)]
pub enum SessionAvailability {
    Eligible(LiveSession),
    FeatureDisabled,
    OutsideScope,
    NotLive,
}

/// The text of a string, if there is one.
pub open spec fn text_of(string: Option<String>) -> Option<Seq<char>> {
    match string {
        Some(string) => Some(string@),
        None => None,
    }
}

/// The view of a configuration, if there is one.
pub open spec fn config_of(config: Option<SessionMessagingConfig>) -> Option<ConfigView> {
    match config {
        Some(config) => Some(config@),
        None => None,
    }
}

/// A [`ThreadSnapshot`] by its texts, with its status as peers see it.
pub struct SnapshotView {
    pub config: Option<ConfigView>,
    pub identity: Option<SessionMessagingIdentity>,
    pub status: Option<Seq<char>>,
    pub thread_id: ThreadId,
    pub name: Option<Seq<char>>,
}

impl View for ThreadSnapshot {
    type V = SnapshotView;

    open spec fn view(&self) -> SnapshotView {
        SnapshotView {
            config: config_of(self.config),
            identity: self.identity,
            status: status_word(self.status),
            thread_id: self.thread_id,
            name: text_of(self.name),
        }
    }
}

/// A [`LiveSession`] by its texts.
pub struct LiveSessionView {
    pub thread_id: ThreadId,
    pub name: Option<Seq<char>>,
    pub cwd: Seq<char>,
    pub status: Seq<char>,
}

impl View for LiveSession {
    type V = LiveSessionView;

    open spec fn view(&self) -> LiveSessionView {
        LiveSessionView {
            thread_id: self.thread_id,
            name: text_of(self.name),
            cwd: self.cwd@,
            status: self.status@,
        }
    }
}

/// A [`SessionAvailability`] by its texts.
pub enum AvailabilityView {
    Eligible(LiveSessionView),
    FeatureDisabled,
    OutsideScope,
    NotLive,
}

impl View for SessionAvailability {
    type V = AvailabilityView;

    open spec fn view(&self) -> AvailabilityView {
        match self {
            SessionAvailability::Eligible(session) => AvailabilityView::Eligible(session@),
            SessionAvailability::FeatureDisabled => AvailabilityView::FeatureDisabled,
            SessionAvailability::OutsideScope => AvailabilityView::OutsideScope,
            SessionAvailability::NotLive => AvailabilityView::NotLive,
        }
    }
}

/// The word that peers see for a status. A session that is shut down or not
/// found is not live and has none.
pub open spec fn status_word(status: AgentStatus) -> Option<Seq<char>> {
    match status {
        AgentStatus::PendingInit => Some("starting"@),
        AgentStatus::Running => Some("running"@),
        AgentStatus::Interrupted | AgentStatus::Completed(_) => Some("idle"@),
        AgentStatus::Errored(_) => Some("error"@),
        AgentStatus::Shutdown | AgentStatus::NotFound => None,
    }
}

/// The status of a live session in one word.
pub fn coarse_status(status: &AgentStatus) -> (word: Option<&'static str>)
    ensures
        word is Some <==> status_word(*status) is Some,
        word matches Some(word) ==> status_word(*status) == Some(word@),
{
    match status {
        AgentStatus::PendingInit => Some("starting"),
        AgentStatus::Running => Some("running"),
        AgentStatus::Interrupted | AgentStatus::Completed(_) => Some("idle"),
        AgentStatus::Errored(_) => Some("error"),
        AgentStatus::Shutdown | AgentStatus::NotFound => None,
    }
}

impl SnapshotView {
    /// Whether a session can be reached. The scope is looked at before the
    /// feature, and the feature before the status.
    pub open spec fn availability(self) -> AvailabilityView {
        match (self.config, self.identity) {
            (Some(config), Some(identity)) => if !identity.is_root || config.ephemeral {
                AvailabilityView::OutsideScope
            } else if !config.enabled {
                AvailabilityView::FeatureDisabled
            } else {
                match self.status {
                    Some(status) => AvailabilityView::Eligible(
                        LiveSessionView {
                            thread_id: self.thread_id,
                            name: self.name,
                            cwd: config.cwd,
                            status,
                        },
                    ),
                    None => AvailabilityView::NotLive,
                }
            },
            _ => AvailabilityView::NotLive,
        }
    }
}

/// Finds out whether a session can be reached.
pub fn inspect_session(thread: &ThreadSnapshot) -> (availability: SessionAvailability)
    ensures
        availability@ == thread@.availability(),
{
    let config = match &thread.config {
        Some(config) => config,
        None => return SessionAvailability::NotLive,
    };
    let identity = match &thread.identity {
        Some(identity) => identity,
        None => return SessionAvailability::NotLive,
    };
    if !identity.is_root || config.ephemeral {
        return SessionAvailability::OutsideScope;
    }
    if !config.enabled {
        return SessionAvailability::FeatureDisabled;
    }
    let status = match coarse_status(&thread.status) {
        Some(status) => status,
        None => return SessionAvailability::NotLive,
    };
    SessionAvailability::Eligible(
        LiveSession {
            thread_id: thread.thread_id,
            name: thread.name.clone(),
            cwd: config.cwd.clone(),
            status,
        },
    )
}

/// The word for a live session is one of four.
pub proof fn live_status_is_one_of_four_words(status: AgentStatus)
    requires
        status_word(status) is Some,
    ensures
        seq!["starting"@, "running"@, "idle"@, "error"@].contains(status_word(status)->0),
{
    let words = seq!["starting"@, "running"@, "idle"@, "error"@];
    assert(words[0] == "starting"@ && words[1] == "running"@ && words[2] == "idle"@ && words[3]
        == "error"@);
}

/// Whether a session can be reached is decided by its own configuration,
/// identity and status: one that is no root session or is ephemeral is outside
/// the scope, any other one without the feature has it disabled, and of the
/// rest those are eligible that are neither shut down nor gone. An eligible
/// session is described by its own identifier, name, working directory and
/// status.
pub proof fn reachability_is_decided_by_the_session(
    thread: ThreadSnapshot,
    availability: SessionAvailability,
)
    requires
        availability@ == thread@.availability(),
    ensures
        thread.config is None || thread.identity is None ==> availability is NotLive,
        thread.config matches Some(config) ==> (thread.identity matches Some(identity) ==> {
            let in_scope = identity.is_root && !config.ephemeral;
            let live = !(thread.status is Shutdown) && !(thread.status is NotFound);
            &&& availability is OutsideScope <==> !in_scope
            &&& availability is FeatureDisabled <==> in_scope && !config.enabled
            &&& availability is NotLive <==> in_scope && config.enabled && !live
            &&& availability is Eligible <==> in_scope && config.enabled && live
            &&& availability matches SessionAvailability::Eligible(session) ==> {
                &&& session.thread_id == thread.thread_id
                &&& session.name is Some <==> thread.name is Some
                &&& session.name is Some ==> (session.name->0)@ == (thread.name->0)@
                &&& session.cwd@ == config.cwd@
                &&& thread.status is PendingInit ==> session.status@ == "starting"@
                &&& thread.status is Running ==> session.status@ == "running"@
                &&& thread.status is Interrupted ==> session.status@ == "idle"@
                &&& thread.status is Completed ==> session.status@ == "idle"@
                &&& thread.status is Errored ==> session.status@ == "error"@
            }
        }),
{
}

/// A session that starts, runs, rests or failed has the word for it, and one
/// that is shut down or gone has none; what a session said last makes no
/// difference.
pub proof fn status_words_follow_the_status(status: AgentStatus)
    ensures
        status is PendingInit ==> status_word(status) == Some("starting"@),
        status is Running ==> status_word(status) == Some("running"@),
        status is Interrupted || status is Completed ==> status_word(status) == Some("idle"@),
        status is Errored ==> status_word(status) == Some("error"@),
        status_word(status) is None <==> status is Shutdown || status is NotFound,
{
}

} // verus!
