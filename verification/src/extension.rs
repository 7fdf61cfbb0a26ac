//! How messaging takes part in the life of a session.

use vstd::prelude::*;

use crate::budget::{
    accepted_messages_never_exceed_the_limit, epochs_told_apart, BudgetEvent, BudgetRun,
    BudgetState, SessionMessageBudget, OUTBOUND_MESSAGE_LIMIT,
};
use crate::list_sessions::ListSessionsTool;
use crate::message::CommunicationView;
use crate::runtime::{budget_spent_error, SessionMessagingRuntime};
use crate::send_message::{
    abandoned_in, after_recipient_in, after_submission_in, recipient_refusal, SendSessionMessageTool,
    SendStepView,
};
use crate::session::{
    text_of, ConfigView, SessionMessagingConfig, SessionMessagingIdentity, SnapshotView,
};
use crate::store::{StoreView, ThreadStore};
use crate::thread_id::ThreadId;

verus! {

/// What messaging reads of a session's configuration.
#[derive(Debug)]
pub struct HostConfig {
    /// Whether the session has the cross-session messaging feature enabled.
    pub cross_session_messaging: bool,
    pub ephemeral: bool,
    /// The working directory as it is configured.
    pub cwd: String,
    /// The canonical form of the working directory, if it could be found out.
    pub canonical_cwd: Option<String>,
}

/// The messaging configuration that follows from a session's configuration:
/// the working directory is the canonical one where that is known.
pub open spec fn messaging_config(config: HostConfig) -> ConfigView {
    ConfigView {
        enabled: config.cross_session_messaging,
        ephemeral: config.ephemeral,
        cwd: match text_of(config.canonical_cwd) {
            Some(cwd) => cwd,
            None => config.cwd@,
        },
    }
}

impl SessionMessagingConfig {
    /// Takes the messaging configuration out of a session's configuration.
    pub fn from_config(config: &HostConfig) -> (messaging: SessionMessagingConfig)
        ensures
            messaging@ == messaging_config(*config),
            messaging.enabled == config.cross_session_messaging,
            messaging.ephemeral == config.ephemeral,
            config.canonical_cwd matches Some(cwd) ==> messaging.cwd@ == cwd@,
            config.canonical_cwd is None ==> messaging.cwd@ == config.cwd@,
    {
        SessionMessagingConfig {
            enabled: config.cross_session_messaging,
            ephemeral: config.ephemeral,
            cwd: match &config.canonical_cwd {
                Some(cwd) => cwd.clone(),
                None => config.cwd.clone(),
            },
        }
    }
}

impl StoreView {
    /// The tools that a session gets when its identifier was read as `sender`,
    /// or could not be read: both work on behalf of that session.
    pub open spec fn tools_for(self, sender: Option<ThreadId>) -> Option<
        (ListSessionsTool, SendSessionMessageTool),
    > {
        match sender {
            Some(sender_thread_id) if self.tools_enabled() && self.budget is Some => {
                let runtime = SessionMessagingRuntime { sender_thread_id };
                Some((ListSessionsTool { runtime }, SendSessionMessageTool { runtime }))
            },
            _ => None,
        }
    }

    /// The tools that a session gets.
    pub open spec fn tools(self) -> Option<(ListSessionsTool, SendSessionMessageTool)> {
        self.tools_for(ThreadId::parsed(self.level_id))
    }
}

/// The part that messaging has in the life of each session.
#[derive(Clone, Copy, Debug, PartialEq, Eq, Structural)]
pub struct SessionMessagingExtension {}

impl SessionMessagingExtension {
    /// A session starts: its configuration and identity are kept, and it gets
    /// a fresh budget.
    pub fn on_thread_start(
        &self,
        thread_store: &mut ThreadStore,
        config: &HostConfig,
        is_non_root_agent: bool,
    )
        ensures
            final(thread_store)@ == old(thread_store)@.after_thread_start(
                messaging_config(*config),
                is_non_root_agent,
            ),
            final(thread_store).level_id@ == old(thread_store).level_id@,
            final(thread_store).config matches Some(messaging) && messaging.enabled
                == config.cross_session_messaging && messaging.ephemeral == config.ephemeral
                && messaging.cwd@ == (if config.canonical_cwd is Some {
                (config.canonical_cwd->0)@
            } else {
                config.cwd@
            }),
            final(thread_store).identity matches Some(identity) && identity.is_root
                == !is_non_root_agent,
            final(thread_store).budget matches Some(budget) && budget@.reservations == 0
                && budget@.epoch == 0,
    {
        thread_store.config = Some(SessionMessagingConfig::from_config(config));
        thread_store.identity = Some(SessionMessagingIdentity { is_root: !is_non_root_agent });
        thread_store.budget = Some(SessionMessageBudget::default());
    }

    /// The configuration of a session changes.
    pub fn on_config_changed(&self, thread_store: &mut ThreadStore, new_config: &HostConfig)
        ensures
            final(thread_store)@ == old(thread_store)@.after_config_change(
                messaging_config(*new_config),
            ),
            final(thread_store).level_id@ == old(thread_store).level_id@,
            final(thread_store).identity == old(thread_store).identity,
            final(thread_store).budget == old(thread_store).budget,
            final(thread_store).config matches Some(messaging) && messaging.enabled
                == new_config.cross_session_messaging && messaging.ephemeral
                == new_config.ephemeral && messaging.cwd@ == (if new_config.canonical_cwd is Some {
                (new_config.canonical_cwd->0)@
            } else {
                new_config.cwd@
            }),
    {
        thread_store.config = Some(SessionMessagingConfig::from_config(new_config));
    }

    /// The messaging tools of a session, if it gets them.
    pub fn tools(&self, thread_store: &ThreadStore) -> (tools: Option<
        (ListSessionsTool, SendSessionMessageTool),
    >)
        ensures
            tools == thread_store@.tools(),
            tools is Some <==> (thread_store.config matches Some(config)
                && thread_store.identity matches Some(identity) && config.enabled
                && !config.ephemeral && identity.is_root && thread_store.budget is Some
                && ThreadId::parsed(thread_store.level_id@) is Some),
            tools matches Some((list, send)) ==> Some(list.runtime.sender_thread_id)
                == ThreadId::parsed(thread_store.level_id@) && Some(send.runtime.sender_thread_id)
                == ThreadId::parsed(thread_store.level_id@),
    {
        if !tools_enabled(thread_store) {
            return None;
        }
        let sender_thread_id = match ThreadId::from_string(thread_store.level_id.as_str()) {
            Ok(sender_thread_id) => Some(sender_thread_id),
            Err(_) => None,
        };
        self.tools_for(thread_store, sender_thread_id)
    }

    /// The messaging tools of a session whose identifier was read as
    /// `sender_thread_id`, or could not be read.
    pub fn tools_for(
        &self,
        thread_store: &ThreadStore,
        sender_thread_id: Option<ThreadId>,
    ) -> (tools: Option<(ListSessionsTool, SendSessionMessageTool)>)
        ensures
            tools == thread_store@.tools_for(sender_thread_id),
            tools is Some <==> (thread_store.config matches Some(config)
                && thread_store.identity matches Some(identity) && config.enabled
                && !config.ephemeral && identity.is_root && thread_store.budget is Some
                && sender_thread_id is Some),
            tools matches Some((list, send)) ==> Some(list.runtime.sender_thread_id)
                == sender_thread_id && Some(send.runtime.sender_thread_id) == sender_thread_id,
    {
        if !tools_enabled(thread_store) {
            return None;
        }
        let sender_thread_id = match sender_thread_id {
            Some(sender_thread_id) => sender_thread_id,
            None => return None,
        };
        if thread_store.budget.is_none() {
            return None;
        }
        let runtime = SessionMessagingRuntime::new(sender_thread_id);
        Some((ListSessionsTool::new(runtime), SendSessionMessageTool::new(runtime)))
    }
}

/// Gives a session its whole budget back when a turn begins with explicit user
/// input. A turn that a message from a peer began has none.
pub fn reset_budget_for_explicit_user_input<I>(thread_store: &mut ThreadStore, user_input: &[I])
    ensures
        final(thread_store)@ == old(thread_store)@.after_turn_input(user_input@.len()),
        final(thread_store).level_id@ == old(thread_store).level_id@,
        final(thread_store).identity == old(thread_store).identity,
        final(thread_store).config == old(thread_store).config,
        final(thread_store).budget is Some <==> old(thread_store).budget is Some,
        user_input@.len() == 0 ==> final(thread_store).budget == old(thread_store).budget,
        user_input@.len() > 0 && old(thread_store).budget is Some ==> {
            &&& (final(thread_store).budget->0)@.reservations == 0
            &&& (final(thread_store).budget->0)@.epoch as int == ((old(
                thread_store,
            ).budget->0)@.epoch + 1) % 0x1_0000_0000_0000_0000
        },
{
    if user_input.len() == 0 {
        return ;
    }
    if let Some(budget) = &mut thread_store.budget {
        budget.reset();
    }
}

/// Tells whether a session gets the messaging tools.
pub fn tools_enabled(thread_store: &ThreadStore) -> (enabled: bool)
    ensures
        enabled == thread_store@.tools_enabled(),
        enabled <==> (thread_store.config matches Some(config)
            && thread_store.identity matches Some(identity) && config.enabled && !config.ephemeral
            && identity.is_root),
{
    let config = match &thread_store.config {
        Some(config) => config,
        None => return false,
    };
    let identity = match &thread_store.identity {
        Some(identity) => identity,
        None => return false,
    };
    config.enabled && !config.ephemeral && identity.is_root
}

/// The sessions that can be reached are those that get the tools and are live:
/// a session without the feature, an ephemeral one and a sub-agent can neither
/// be reached nor send.
pub proof fn reachable_sessions_are_live_sessions_with_tools(
    store: StoreView,
    thread: SnapshotView,
)
    requires
        thread.config == store.config,
        thread.identity == store.identity,
    ensures
        thread.availability() is Eligible <==> store.tools_enabled() && thread.status is Some,
{
}

/// A session that starts has its whole budget, and its tools exactly if its
/// feature is enabled, it is not ephemeral and it is no sub-agent.
pub proof fn started_session_is_ready(
    store: StoreView,
    config: ConfigView,
    is_non_root_agent: bool,
)
    ensures
        store.after_thread_start(config, is_non_root_agent).tools_enabled() <==> config.enabled
            && !config.ephemeral && !is_non_root_agent,
        store.after_thread_start(config, is_non_root_agent).budget == Some(BudgetState::fresh()),
        !BudgetState::fresh().is_spent(),
{
}

/// One thing that can happen to a session that has started. Tools and slots are
/// named by their place among those given so far, and among the reservations
/// open at that moment.
pub enum StoreEvent {
    /// The tools of the session are asked for.
    AskForTools,
    /// A send through one of the tools gets to its receiving session, which was
    /// looked up.
    Send { tool: int, recipient: ThreadId, message: Seq<char>, thread: Option<SnapshotView> },
    /// The receiving session took a message, or refused it.
    Answer { slot: int, communication: CommunicationView, outcome: Result<Seq<char>, Seq<char>> },
    /// A send is given up.
    GiveUp { slot: int },
    /// A turn begins with this many explicit user inputs.
    TurnInput { inputs: nat },
    /// The configuration changes.
    ConfigChange { config: ConfigView },
}

/// What messaging keeps with a session, together with all tools that were given
/// for it and the record of what happened to its budget.
pub struct StoreRun {
    pub store: StoreView,
    pub tools: Seq<(ListSessionsTool, SendSessionMessageTool)>,
    pub events: Seq<BudgetEvent>,
}

impl StoreRun {
    /// A session that has just started.
    pub open spec fn start(level_id: Seq<char>, config: ConfigView, is_non_root_agent: bool) -> StoreRun {
        StoreRun {
            store: StoreView {
                level_id,
                config: None,
                identity: None,
                budget: None,
            }.after_thread_start(config, is_non_root_agent),
            tools: Seq::empty(),
            events: Seq::empty(),
        }
    }

    /// The slots of the budget, and what became of them.
    pub open spec fn slots(self) -> BudgetRun {
        BudgetRun::after(self.events)
    }

    /// What a send through one of the tools does: the tool works on behalf of
    /// its session and draws on what is kept with it.
    pub open spec fn send(
        self,
        tool: int,
        recipient: ThreadId,
        message: Seq<char>,
        thread: Option<SnapshotView>,
    ) -> (SendStepView, StoreView) {
        let sender = self.tools[tool].1.runtime.sender_thread_id;
        after_recipient_in(CommunicationView { sender, recipient, message }, thread, self.store)
    }

    /// What one event does. An event that names no tool and no open reservation
    /// does nothing.
    pub open spec fn step(self, event: StoreEvent) -> StoreRun {
        match event {
            StoreEvent::AskForTools => match self.store.tools() {
                Some(tools) => StoreRun { tools: self.tools.push(tools), ..self },
                None => self,
            },
            StoreEvent::Send { tool, recipient, message, thread } => if 0 <= tool
                < self.tools.len() {
                StoreRun {
                    store: self.send(tool, recipient, message, thread).1,
                    events: if recipient_refusal(thread) is None {
                        self.events.push(BudgetEvent::Reserve)
                    } else {
                        self.events
                    },
                    ..self
                }
            } else {
                self
            },
            StoreEvent::Answer { slot, communication, outcome } => if 0 <= slot
                < self.slots().open.len() {
                StoreRun {
                    store: after_submission_in(
                        communication,
                        self.slots().open[slot].reservation,
                        outcome,
                        self.store,
                    ).1,
                    events: self.events.push(
                        if outcome is Ok {
                            BudgetEvent::Accept { slot }
                        } else {
                            BudgetEvent::Abandon { slot }
                        },
                    ),
                    ..self
                }
            } else {
                self
            },
            StoreEvent::GiveUp { slot } => if 0 <= slot < self.slots().open.len() {
                StoreRun {
                    store: abandoned_in(self.slots().open[slot].reservation, self.store),
                    events: self.events.push(BudgetEvent::Abandon { slot }),
                    ..self
                }
            } else {
                self
            },
            StoreEvent::TurnInput { inputs } => StoreRun {
                store: self.store.after_turn_input(inputs),
                events: if inputs > 0 {
                    self.events.push(BudgetEvent::UserInput)
                } else {
                    self.events
                },
                ..self
            },
            StoreEvent::ConfigChange { config } => StoreRun {
                store: self.store.after_config_change(config),
                ..self
            },
        }
    }

    /// Where this run is after a sequence of events.
    pub open spec fn after(self, events: Seq<StoreEvent>) -> StoreRun
        decreases events.len(),
    {
        if events.len() == 0 {
            self
        } else {
            self.after(events.drop_last()).step(events.last())
        }
    }

    /// What every event keeps: there is one budget, all sends drew on it, and
    /// all tools work on behalf of the one session.
    spec fn shares_one_budget(self) -> bool {
        &&& self.store.budget == Some(self.slots().budget)
        &&& forall|i: int|
            0 <= i < self.tools.len() ==> self.has_tool(#[trigger] self.tools[i])
    }

    spec fn has_tool(self, tools: (ListSessionsTool, SendSessionMessageTool)) -> bool {
        &&& Some(tools.0.runtime.sender_thread_id) == ThreadId::parsed(self.store.level_id)
        &&& tools.1.runtime == tools.0.runtime
    }
}

proof fn lemma_next_slots(events: Seq<BudgetEvent>, event: BudgetEvent)
    ensures
        BudgetRun::after(events.push(event)) == BudgetRun::after(events).step(event),
{
    assert(events.push(event).drop_last() =~= events);
}

proof fn lemma_step_shares_one_budget(run: StoreRun, event: StoreEvent)
    requires
        run.shares_one_budget(),
    ensures
        run.step(event).shares_one_budget(),
        run.step(event).store.level_id == run.store.level_id,
{
    match event {
        StoreEvent::Send { .. } => {
            lemma_next_slots(run.events, BudgetEvent::Reserve);
        },
        StoreEvent::Answer { slot, .. } => {
            lemma_next_slots(run.events, BudgetEvent::Accept { slot });
            lemma_next_slots(run.events, BudgetEvent::Abandon { slot });
        },
        StoreEvent::GiveUp { slot } => {
            lemma_next_slots(run.events, BudgetEvent::Abandon { slot });
        },
        StoreEvent::TurnInput { .. } => {
            lemma_next_slots(run.events, BudgetEvent::UserInput);
        },
        _ => {},
    }
    let next = run.step(event);
    assert forall|i: int| 0 <= i < next.tools.len() implies next.has_tool(
        #[trigger] next.tools[i],
    ) by {
        if i < run.tools.len() {
            assert(next.tools[i] == run.tools[i]);
            assert(run.has_tool(run.tools[i]));
        }
    }
}

proof fn lemma_run_shares_one_budget(start: StoreRun, events: Seq<StoreEvent>)
    requires
        start.shares_one_budget(),
    ensures
        start.after(events).shares_one_budget(),
        start.after(events).store.level_id == start.store.level_id,
    decreases events.len(),
{
    if events.len() > 0 {
        lemma_run_shares_one_budget(start, events.drop_last());
        lemma_step_shares_one_budget(start.after(events.drop_last()), events.last());
    }
}

/// However often the tools of a session are asked for and whichever of them
/// send, all of them work on behalf of the session that the store names, and
/// all their sends draw on the one budget that is kept with it. So the limit
/// bounds the messages accepted through all of them together.
pub proof fn tools_of_one_store_share_its_budget(
    level_id: Seq<char>,
    config: ConfigView,
    is_non_root_agent: bool,
    events: Seq<StoreEvent>,
)
    ensures
        ({
            let run = StoreRun::start(level_id, config, is_non_root_agent).after(events);
            &&& run.store.level_id == level_id
            &&& run.store.budget == Some(run.slots().budget)
            &&& forall|i: int|
                0 <= i < run.tools.len() ==> {
                    &&& Some((#[trigger] run.tools[i]).0.runtime.sender_thread_id)
                        == ThreadId::parsed(level_id)
                    &&& run.tools[i].1.runtime == run.tools[i].0.runtime
                }
            &&& epochs_told_apart(run.events) ==> run.slots().accepted <= OUTBOUND_MESSAGE_LIMIT
        }),
{
    let start = StoreRun::start(level_id, config, is_non_root_agent);
    lemma_run_shares_one_budget(start, events);
    let run = start.after(events);
    assert forall|i: int| 0 <= i < run.tools.len() implies Some(
        (#[trigger] run.tools[i]).0.runtime.sender_thread_id,
    ) == ThreadId::parsed(level_id) && run.tools[i].1.runtime == run.tools[i].0.runtime by {
        assert(run.has_tool(run.tools[i]));
    }
    if epochs_told_apart(run.events) {
        accepted_messages_never_exceed_the_limit(run.events);
    }
}

/// A slot that a send takes through one tool is taken for every tool, and once
/// none is left every tool of the session is refused.
pub proof fn slot_taken_through_one_tool_is_taken_for_all(
    run: StoreRun,
    one: int,
    other: int,
    recipient: ThreadId,
    message: Seq<char>,
    thread: SnapshotView,
    other_recipient: ThreadId,
    other_message: Seq<char>,
    other_thread: SnapshotView,
)
    requires
        0 <= one < run.tools.len(),
        0 <= other < run.tools.len(),
        run.store.budget is Some,
        thread.availability() is Eligible,
        other_thread.availability() is Eligible,
    ensures
        ({
            let budget = run.store.budget->0;
            let next = run.step(
                StoreEvent::Send { tool: one, recipient, message, thread: Some(thread) },
            );
            let answer = next.send(other, other_recipient, other_message, Some(other_thread)).0;
            &&& next.store.budget == Some(
                if budget.is_spent() {
                    budget
                } else {
                    budget.with_slot_taken()
                },
            )
            &&& answer is Submit <==> !(next.store.budget->0).is_spent()
            &&& !(answer is Submit) ==> answer == SendStepView::Return(Err(budget_spent_error()))
        }),
{
}

/// Asking for the tools again gives the same tools, and neither that nor a turn
/// without explicit user input gives any slot back.
pub proof fn asking_for_tools_refreshes_nothing(run: StoreRun)
    ensures
        run.step(StoreEvent::AskForTools).store == run.store,
        run.step(StoreEvent::AskForTools).events == run.events,
        run.step(StoreEvent::AskForTools).store.tools() == run.store.tools(),
        run.step(StoreEvent::TurnInput { inputs: 0 }).store == run.store,
{
}

/// A session gets its tools exactly if its configuration enables the feature
/// and is not ephemeral, it is a root session, its identifier is a UUID and it
/// has a budget; both tools then work on behalf of that identifier.
pub proof fn tools_are_given_by_the_requirements(store: ThreadStore)
    ensures
        store@.tools() is Some <==> (store.config matches Some(config)
            && store.identity matches Some(identity) && config.enabled && !config.ephemeral
            && identity.is_root && store.budget is Some && ThreadId::parsed(store.level_id@) is Some),
        store@.tools() matches Some((list, send)) ==> Some(list.runtime.sender_thread_id)
            == ThreadId::parsed(store.level_id@) && Some(send.runtime.sender_thread_id)
            == ThreadId::parsed(store.level_id@),
{
}

/// What the budget counts has no part in who gets which tools.
pub proof fn tools_do_not_depend_on_what_the_budget_counts(a: ThreadStore, b: ThreadStore)
    requires
        a.level_id@ == b.level_id@,
        a.config == b.config,
        a.identity == b.identity,
        a.budget is Some && b.budget is Some,
    ensures
        a@.tools() == b@.tools(),
{
}

/// The configuration after these events: that of the last change, or the one
/// that the session started with.
pub open spec fn config_in_force(config: ConfigView, events: Seq<StoreEvent>) -> ConfigView
    decreases events.len(),
{
    if events.len() == 0 {
        config
    } else {
        match events.last() {
            StoreEvent::ConfigChange { config: changed } => changed,
            _ => config_in_force(config, events.drop_last()),
        }
    }
}

proof fn lemma_config_in_force(start: StoreRun, config: ConfigView, events: Seq<StoreEvent>)
    requires
        start.shares_one_budget(),
        start.store.config == Some(config),
    ensures
        start.after(events).store.config == Some(config_in_force(config, events)),
        start.after(events).store.identity == start.store.identity,
    decreases events.len(),
{
    if events.len() > 0 {
        lemma_config_in_force(start, config, events.drop_last());
        lemma_run_shares_one_budget(start, events.drop_last());
    }
}

/// Whatever happens to a session that has started, it gets its tools exactly if
/// its configuration of the moment enables the feature and is not ephemeral, it
/// is no sub-agent and its identifier is a UUID: neither user inputs nor sends
/// take them away or give them.
pub proof fn tools_follow_the_configuration(
    level_id: Seq<char>,
    config: ConfigView,
    is_non_root_agent: bool,
    events: Seq<StoreEvent>,
)
    ensures
        ({
            let run = StoreRun::start(level_id, config, is_non_root_agent).after(events);
            let now = config_in_force(config, events);
            &&& run.store.tools() is Some <==> now.enabled && !now.ephemeral && !is_non_root_agent
                && ThreadId::parsed(level_id) is Some
            &&& run.store.tools() matches Some((list, send)) ==> Some(list.runtime.sender_thread_id)
                == ThreadId::parsed(level_id) && Some(send.runtime.sender_thread_id)
                == ThreadId::parsed(level_id)
        }),
{
    let start = StoreRun::start(level_id, config, is_non_root_agent);
    lemma_run_shares_one_budget(start, events);
    lemma_config_in_force(start, config, events);
}

/// Every user input gives a session its four slots back, and a turn without one
/// gives none back.
pub proof fn user_input_gives_four_slots(store: StoreView, inputs: nat)
    requires
        store.budget is Some,
    ensures
        ({
            let after = store.after_turn_input(inputs);
            &&& inputs == 0 ==> after == store
            &&& inputs > 0 ==> (after.budget matches Some(budget) && budget.reservations == 0
                && budget.epoch != (store.budget->0).epoch)
            &&& after.level_id == store.level_id && after.config == store.config && after.identity
                == store.identity
        }),
{
}

} // verus!
