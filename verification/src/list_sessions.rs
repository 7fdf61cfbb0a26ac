//! Listing the sessions that a session can send messages to.

use vstd::prelude::*;

use crate::error::{ErrorView, FunctionCallError};
use crate::runtime::{SenderLookup, SessionMessagingRuntime};
use crate::session::{
    inspect_session, text_of, AvailabilityView, LiveSession, LiveSessionView, SessionAvailability,
    SnapshotView, ThreadSnapshot,
};
use crate::text::{in_order, joined, lemma_order_total, lemma_order_transitive, texts_in_order};
use crate::thread_id::{
    different_ids_have_different_texts, identifier_reads_back, texts_are_ordered_like_identifiers,
    ThreadId,
};
use crate::tool_spec::{
    describes, list_sessions_tool_spec, ToolSpec, LIST_SESSIONS_DESCRIPTION, LIST_SESSIONS_TOOL_NAME,
};

verus! {

/// The arguments of a listing: there are none.
#[derive(Clone, Copy, Debug, PartialEq, Eq, Structural)]
pub struct ListSessionsArgs {}

/// One line of a listing.
#[derive(Debug, PartialEq, Eq)]
pub struct SessionSummary {
    pub thread_id: String,
    pub name: Option<String>,
    pub cwd: String,
    pub status: &'static str,
}

/// A listing.
#[derive(Debug, PartialEq, Eq)]
pub struct ListSessionsResponse {
    pub scope: &'static str,
    pub transport: &'static str,
    pub sessions: Vec<SessionSummary>,
}

/// A [`SessionSummary`] by its texts.
pub struct SummaryView {
    pub thread_id: Seq<char>,
    pub name: Option<Seq<char>>,
    pub cwd: Seq<char>,
    pub status: Seq<char>,
}

impl View for SessionSummary {
    type V = SummaryView;

    open spec fn view(&self) -> SummaryView {
        SummaryView {
            thread_id: self.thread_id@,
            name: text_of(self.name),
            cwd: self.cwd@,
            status: self.status@,
        }
    }
}

/// A [`ListSessionsResponse`] by its texts.
pub struct ListingView {
    pub scope: Seq<char>,
    pub transport: Seq<char>,
    pub sessions: Seq<SummaryView>,
}

impl View for ListSessionsResponse {
    type V = ListingView;

    open spec fn view(&self) -> ListingView {
        ListingView {
            scope: self.scope@,
            transport: self.transport@,
            sessions: summaries(self.sessions@),
        }
    }
}

/// Lines of a listing by their texts.
pub open spec fn summaries(sessions: Seq<SessionSummary>) -> Seq<SummaryView> {
    sessions.map_values(|session: SessionSummary| session@)
}

/// The line of a listing that describes a session.
pub open spec fn summary_of(session: LiveSessionView) -> SummaryView {
    SummaryView {
        thread_id: session.thread_id.text(),
        name: session.name,
        cwd: session.cwd,
        status: session.status,
    }
}

/// The views of the sessions that were found.
pub open spec fn snapshots(threads: Seq<Option<ThreadSnapshot>>) -> Seq<Option<SnapshotView>> {
    threads.map_values(
        |thread: Option<ThreadSnapshot>|
            match thread {
                Some(thread) => Some(thread@),
                None => None,
            },
    )
}

/// The descriptions of those sessions that were found and can be reached, in
/// the order in which they were looked up.
pub open spec fn reachable(threads: Seq<Option<SnapshotView>>) -> Seq<SummaryView>
    decreases threads.len(),
{
    if threads.len() == 0 {
        Seq::empty()
    } else {
        let before = reachable(threads.drop_last());
        match threads.last() {
            Some(thread) => match thread.availability() {
                AvailabilityView::Eligible(session) => before.push(summary_of(session)),
                _ => before,
            },
            None => before,
        }
    }
}

/// The lines with this identifier.
pub open spec fn with_id(sessions: Seq<SummaryView>, id: Seq<char>) -> Seq<SummaryView> {
    sessions.filter(|session: SummaryView| session.thread_id == id)
}

/// Whether lines are ordered by their identifiers.
pub open spec fn ordered_by_id(sessions: Seq<SummaryView>) -> bool {
    forall|i: int, j: int|
        0 <= i <= j < sessions.len() ==> in_order(
            (#[trigger] sessions[i]).thread_id,
            (#[trigger] sessions[j]).thread_id,
        )
}

/// Whether `listed` holds the lines `found`, each as often, ordered by
/// identifier; lines with the same identifier stay in the order they had.
pub open spec fn is_listing_of(found: Seq<SummaryView>, listed: Seq<SummaryView>) -> bool {
    &&& listed.to_multiset() == found.to_multiset()
    &&& ordered_by_id(listed)
    &&& forall|id: Seq<char>| #[trigger] with_id(listed, id) == with_id(found, id)
}

proof fn lemma_with_id_push(sessions: Seq<SummaryView>, session: SummaryView, id: Seq<char>)
    ensures
        with_id(sessions.push(session), id) == if session.thread_id == id {
            with_id(sessions, id).push(session)
        } else {
            with_id(sessions, id)
        },
{
    reveal(Seq::filter);
    assert(sessions.push(session).drop_last() =~= sessions);
}

proof fn lemma_with_id_none(sessions: Seq<SummaryView>, id: Seq<char>)
    requires
        forall|i: int| 0 <= i < sessions.len() ==> (#[trigger] sessions[i]).thread_id != id,
    ensures
        with_id(sessions, id) == Seq::<SummaryView>::empty(),
    decreases sessions.len(),
{
    reveal(Seq::filter);
    if sessions.len() > 0 {
        assert(sessions.last() == sessions[sessions.len() - 1]);
        assert forall|i: int| 0 <= i < sessions.drop_last().len() implies (
        #[trigger] sessions.drop_last()[i]).thread_id != id by {
            assert(sessions.drop_last()[i] == sessions[i]);
        }
        lemma_with_id_none(sessions.drop_last(), id);
    }
}

/// Putting a line behind all that do not come after it.
proof fn lemma_insert_keeps_listing(
    found: Seq<SummaryView>,
    listed: Seq<SummaryView>,
    at: int,
    session: SummaryView,
)
    requires
        is_listing_of(found, listed),
        0 <= at <= listed.len(),
        at > 0 ==> in_order(listed[at - 1].thread_id, session.thread_id),
        forall|i: int|
            at <= i < listed.len() ==> !in_order(
                (#[trigger] listed[i]).thread_id,
                session.thread_id,
            ),
    ensures
        is_listing_of(found.push(session), listed.insert(at, session)),
{
    let now = listed.insert(at, session);
    broadcast use vstd::seq_lib::group_to_multiset_ensures;

    assert(now.to_multiset() =~= found.push(session).to_multiset());
    assert forall|i: int, j: int| 0 <= i <= j < now.len() implies in_order(
        (#[trigger] now[i]).thread_id,
        (#[trigger] now[j]).thread_id,
    ) by {
        if i < at && j == at {
            assert(now[i] == listed[i]);
            assert(in_order(listed[i].thread_id, listed[at - 1].thread_id));
            lemma_order_transitive(
                listed[i].thread_id,
                listed[at - 1].thread_id,
                session.thread_id,
            );
        } else if i == at && j > at {
            assert(now[j] == listed[j - 1]);
            lemma_order_total(session.thread_id, listed[j - 1].thread_id);
        } else if i == at {
            lemma_order_total(session.thread_id, session.thread_id);
        } else {
            let before_i = if i < at {
                i
            } else {
                i - 1
            };
            let before_j = if j < at {
                j
            } else {
                j - 1
            };
            assert(now[i] == listed[before_i] && now[j] == listed[before_j]);
        }
    }
    assert forall|id: Seq<char>| #[trigger] with_id(now, id) == with_id(
        found.push(session),
        id,
    ) by {
        let pred = |s: SummaryView| s.thread_id == id;
        let (front, back) = (listed.take(at), listed.skip(at));
        assert(now =~= front.push(session) + back);
        assert(listed =~= front + back);
        Seq::filter_distributes_over_add(front.push(session), back, pred);
        Seq::filter_distributes_over_add(front, back, pred);
        lemma_with_id_push(front, session, id);
        lemma_with_id_push(found, session, id);
        assert(with_id(listed, id) == with_id(found, id));
        if session.thread_id == id {
            assert forall|i: int| 0 <= i < back.len() implies (#[trigger] back[i]).thread_id
                != id by {
                assert(back[i] == listed[at + i]);
                lemma_order_total(id, id);
            }
            lemma_with_id_none(back, id);
            assert(with_id(front, id).push(session) + Seq::<SummaryView>::empty() =~= (with_id(
                front,
                id,
            ) + Seq::<SummaryView>::empty()).push(session));
        }
    }
}

/// Describes a session for a listing.
fn summarize(session: LiveSession) -> (summary: SessionSummary)
    ensures
        summary@ == summary_of(session@),
{
    SessionSummary {
        thread_id: session.thread_id.to_string(),
        name: session.name,
        cwd: session.cwd,
        status: session.status,
    }
}

/// Puts a line into a listing.
fn insert_summary(sessions: &mut Vec<SessionSummary>, summary: SessionSummary)
    ensures
        forall|found: Seq<SummaryView>|
            #[trigger] is_listing_of(found, summaries(old(sessions)@)) ==> is_listing_of(
                found.push(summary@),
                summaries(final(sessions)@),
            ),
{
    let ghost listed = summaries(sessions@);
    let ghost line = summary@;
    let mut at: usize = sessions.len();
    while at > 0 && !texts_in_order(
        sessions[at - 1].thread_id.as_str(),
        summary.thread_id.as_str(),
    )
        invariant
            at <= sessions@.len(),
            listed == summaries(sessions@),
            line == summary@,
            forall|i: int|
                at <= i < listed.len() ==> !in_order(
                    (#[trigger] listed[i]).thread_id,
                    line.thread_id,
                ),
        decreases at,
    {
        at = at - 1;
    }
    sessions.insert(at, summary);
    proof {
        assert(summaries(sessions@) =~= listed.insert(at as int, line));
        assert forall|found: Seq<SummaryView>| #[trigger]
            is_listing_of(found, listed) implies is_listing_of(
            found.push(line),
            listed.insert(at as int, line),
        ) by {
            lemma_insert_keeps_listing(found, listed, at as int, line);
        }
    }
}

/// Lists the sessions that were found and can be reached.
pub fn list_reachable(threads: &Vec<Option<ThreadSnapshot>>) -> (response: ListSessionsResponse)
    ensures
        response@.scope == "live_root_sessions"@,
        response@.transport == "shared_app_server_process"@,
        is_listing_of(reachable(snapshots(threads@)), response@.sessions),
        response.scope@ == "live_root_sessions"@,
        response.transport@ == "shared_app_server_process"@,
{
    let mut sessions: Vec<SessionSummary> = Vec::new();
    let ghost seen = snapshots(threads@);
    proof {
        assert(summaries(sessions@) =~= Seq::empty());
        assert(seen.take(0) =~= Seq::empty());
    }
    let mut i: usize = 0;
    while i < threads.len()
        invariant
            i <= threads@.len(),
            seen == snapshots(threads@),
            is_listing_of(reachable(seen.take(i as int)), summaries(sessions@)),
        decreases threads@.len() - i,
    {
        proof {
            assert(seen.take(i + 1).drop_last() =~= seen.take(i as int));
            assert(seen.take(i + 1).last() == seen[i as int]);
        }
        if let Some(thread) = &threads[i] {
            if let SessionAvailability::Eligible(session) = inspect_session(thread) {
                insert_summary(&mut sessions, summarize(session));
            }
        }
        i = i + 1;
    }
    proof {
        assert(seen.take(i as int) =~= seen);
    }
    ListSessionsResponse {
        scope: "live_root_sessions",
        transport: "shared_app_server_process",
        sessions,
    }
}

/// What is told about arguments that could not be read.
pub open spec fn bad_list_args_error(reason: Seq<char>) -> ErrorView {
    ErrorView::RespondToModel("invalid list_sessions arguments: "@ + reason)
}

/// Takes over the arguments of a listing, or the reason why they could not be
/// read.
pub fn parse_list_args(read: Result<ListSessionsArgs, String>) -> (args: Result<
    ListSessionsArgs,
    FunctionCallError,
>)
    ensures
        args is Ok <==> read is Ok,
        args matches Ok(args) ==> read == Ok::<ListSessionsArgs, String>(args),
        args matches Err(error) ==> error@ == bad_list_args_error(read->Err_0@),
        read matches Err(reason) ==> (args matches Err(FunctionCallError::RespondToModel(text))
            && text@ == "invalid list_sessions arguments: "@ + reason@),
{
    match read {
        Ok(args) => Ok(args),
        Err(reason) => Err(
            FunctionCallError::RespondToModel(
                joined("invalid list_sessions arguments: ", reason.as_str()),
            ),
        ),
    }
}

/// The tool that lists the sessions which messages can be sent to.
#[derive(Clone, Copy, Debug, PartialEq, Eq, Structural)]
pub struct ListSessionsTool {
    pub runtime: SessionMessagingRuntime,
}

/// A listing that waits for the sending session to be looked up.
#[derive(Debug)]
pub struct ListSenderPending {
    pub runtime: SessionMessagingRuntime,
}

/// A listing that waits for the identifiers of all sessions.
#[derive(Debug)]
pub struct ListThreadsPending {
    pub runtime: SessionMessagingRuntime,
}

/// A listing that waits for the other sessions to be looked up.
#[derive(Debug)]
pub struct ListPeersPending {
    pub peers: Vec<ThreadId>,
}

/// What a listing needs next, or what came of it.
#[derive(Debug)]
pub enum ListStep {
    /// Look up the sending session.
    LookUpSender(ListSenderPending),
    /// Get the identifiers of all sessions.
    ListThreads(ListThreadsPending),
    /// Look up each of these sessions.
    LookUpPeers(ListPeersPending),
    Return(Result<ListSessionsResponse, FunctionCallError>),
}

/// The sessions other than the sending one, in the same order.
pub open spec fn peers_of(sender: ThreadId, ids: Seq<ThreadId>) -> Seq<ThreadId> {
    ids.filter(|id: ThreadId| id != sender)
}

impl ListSessionsTool {
    /// The tool for a session.
    pub fn new(runtime: SessionMessagingRuntime) -> (tool: ListSessionsTool)
        ensures
            tool.runtime == runtime,
    {
        ListSessionsTool { runtime }
    }

    /// The name of the tool.
    pub fn tool_name(&self) -> (name: &'static str)
        ensures
            name@ == "list_sessions"@,
    {
        LIST_SESSIONS_TOOL_NAME
    }

    /// The description of the tool.
    pub fn tool_spec(&self) -> (description: ToolSpec)
        ensures
            describes(
                description,
                LIST_SESSIONS_TOOL_NAME@,
                LIST_SESSIONS_DESCRIPTION@,
                Seq::empty(),
                Seq::empty(),
            ),
    {
        list_sessions_tool_spec()
    }

    /// Starts a listing.
    pub fn handle_call(&self, read: Result<ListSessionsArgs, String>) -> (step: ListStep)
        ensures
            match read {
                Ok(_) => step matches ListStep::LookUpSender(pending) && pending.runtime
                    == self.runtime,
                Err(reason) => step matches ListStep::Return(Err(error)) && error@
                    == bad_list_args_error(reason@),
            },
            read matches Err(reason) ==> (step matches ListStep::Return(
                Err(FunctionCallError::RespondToModel(text)),
            ) && text@ == "invalid list_sessions arguments: "@ + reason@),
    {
        match parse_list_args(read) {
            Ok(_) => ListStep::LookUpSender(ListSenderPending { runtime: self.runtime }),
            Err(error) => ListStep::Return(Err(error)),
        }
    }
}

impl ListSenderPending {
    /// Goes on once the sending session has been looked up: only an eligible
    /// session gets a listing.
    pub fn resume(self, lookup: &SenderLookup) -> (step: ListStep)
        ensures
            match lookup@.refusal() {
                None => step matches ListStep::ListThreads(pending) && pending.runtime
                    == self.runtime,
                Some(refusal) => step matches ListStep::Return(Err(error)) && error@ == refusal,
            },
    {
        match self.runtime.manager(lookup) {
            Ok(()) => ListStep::ListThreads(ListThreadsPending { runtime: self.runtime }),
            Err(error) => ListStep::Return(Err(error)),
        }
    }
}

impl ListThreadsPending {
    /// Goes on once all identifiers are known: the sending session itself is
    /// not looked up.
    pub fn resume(self, ids: Vec<ThreadId>) -> (step: ListStep)
        ensures
            step matches ListStep::LookUpPeers(pending) && pending.peers@ == peers_of(
                self.runtime.sender_thread_id,
                ids@,
            ),
    {
        let ghost sender = self.runtime.sender_thread_id;
        let mut peers: Vec<ThreadId> = Vec::new();
        proof {
            reveal(Seq::filter);
            assert(ids@.take(0) =~= Seq::empty());
        }
        let mut i: usize = 0;
        while i < ids.len()
            invariant
                i <= ids@.len(),
                sender == self.runtime.sender_thread_id,
                peers@ == peers_of(sender, ids@.take(i as int)),
            decreases ids@.len() - i,
        {
            proof {
                reveal(Seq::filter);
                assert(ids@.take(i + 1).drop_last() =~= ids@.take(i as int));
                assert(ids@.take(i + 1).last() == ids@[i as int]);
            }
            if ids[i] != self.runtime.sender_thread_id {
                peers.push(ids[i]);
            }
            i = i + 1;
        }
        proof {
            assert(ids@.take(i as int) =~= ids@);
        }
        ListStep::LookUpPeers(ListPeersPending { peers })
    }
}

impl ListPeersPending {
    /// Ends the listing once the other sessions have been looked up; `None`
    /// stands for one that was not found.
    pub fn resume(self, threads: &Vec<Option<ThreadSnapshot>>) -> (step: ListStep)
        ensures
            step matches ListStep::Return(Ok(response)) && response@.scope
                == "live_root_sessions"@ && response@.transport == "shared_app_server_process"@
                && is_listing_of(reachable(snapshots(threads@)), response@.sessions)
                && response.scope@ == "live_root_sessions"@ && response.transport@
                == "shared_app_server_process"@,
    {
        ListStep::Return(Ok(list_reachable(threads)))
    }
}

/// Whether the sessions found are those that were looked up.
pub open spec fn found_as_looked_up(
    peers: Seq<ThreadId>,
    threads: Seq<Option<SnapshotView>>,
) -> bool {
    &&& threads.len() == peers.len()
    &&& forall|i: int|
        0 <= i < threads.len() ==> ((#[trigger] threads[i]) matches Some(thread)
            ==> thread.thread_id == peers[i])
}

proof fn lemma_sender_is_no_peer(sender: ThreadId, ids: Seq<ThreadId>, at: int)
    requires
        0 <= at < peers_of(sender, ids).len(),
    ensures
        peers_of(sender, ids)[at] != sender,
    decreases ids.len(),
{
    reveal(Seq::filter);
    if ids.len() > 0 && at < peers_of(sender, ids.drop_last()).len() {
        lemma_sender_is_no_peer(sender, ids.drop_last(), at);
    }
}

proof fn lemma_reachable_come_from_threads(threads: Seq<Option<SnapshotView>>, i: int) -> (at: int)
    requires
        0 <= i < reachable(threads).len(),
    ensures
        0 <= at < threads.len(),
        threads[at] matches Some(thread) && (thread.availability() matches
            AvailabilityView::Eligible(session) && reachable(threads)[i] == summary_of(session)),
    decreases threads.len(),
{
    let before = reachable(threads.drop_last());
    if i < before.len() {
        let at = lemma_reachable_come_from_threads(threads.drop_last(), i);
        assert(threads.drop_last()[at] == threads[at]);
        at
    } else {
        threads.len() - 1
    }
}

proof fn lemma_threads_are_reachable(threads: Seq<Option<SnapshotView>>, at: int) -> (i: int)
    requires
        0 <= at < threads.len(),
        threads[at] matches Some(thread) && thread.availability() is Eligible,
    ensures
        0 <= i < reachable(threads).len(),
        reachable(threads)[i] == summary_of((threads[at]->0).availability()->Eligible_0),
    decreases threads.len(),
{
    if at == threads.len() - 1 {
        reachable(threads).len() - 1
    } else {
        lemma_threads_are_reachable(threads.drop_last(), at)
    }
}

/// A listing holds exactly the sessions that were found and can be reached:
/// every line describes such a session, and every such session has its line.
pub proof fn listed_sessions_are_the_reachable_ones(
    threads: Seq<Option<SnapshotView>>,
    listed: Seq<SummaryView>,
)
    requires
        is_listing_of(reachable(threads), listed),
    ensures
        forall|line: SummaryView|
            listed.contains(line) <==> exists|at: int|
                0 <= at < threads.len() && ((#[trigger] threads[at]) matches Some(thread)
                    && thread.availability() is Eligible && line == summary_of(
                    thread.availability()->Eligible_0,
                )),
{
    let found = reachable(threads);
    broadcast use vstd::seq_lib::group_to_multiset_ensures;

    assert forall|line: SummaryView| listed.contains(line) <==> found.contains(line) by {
        assert(listed.to_multiset().count(line) == found.to_multiset().count(line));
    }
    assert forall|line: SummaryView| listed.contains(line) implies exists|at: int|
        0 <= at < threads.len() && ((#[trigger] threads[at]) matches Some(thread)
            && thread.availability() is Eligible && line == summary_of(
            thread.availability()->Eligible_0,
        )) by {
        let i = choose|i: int| 0 <= i < found.len() && found[i] == line;
        let at = lemma_reachable_come_from_threads(threads, i);
        assert(threads[at] is Some);
    }
    assert forall|line: SummaryView|
        (exists|at: int|
            0 <= at < threads.len() && ((#[trigger] threads[at]) matches Some(thread)
                && thread.availability() is Eligible && line == summary_of(
                thread.availability()->Eligible_0,
            ))) implies listed.contains(line) by {
        let at = choose|at: int|
            0 <= at < threads.len() && ((#[trigger] threads[at]) matches Some(thread)
                && thread.availability() is Eligible && line == summary_of(
                thread.availability()->Eligible_0,
            ));
        let i = lemma_threads_are_reachable(threads, at);
        assert(found[i] == line);
    }
}

/// The sending session is never listed, whatever sessions there are.
pub proof fn caller_is_never_listed(
    sender: ThreadId,
    ids: Seq<ThreadId>,
    threads: Seq<Option<SnapshotView>>,
    listed: Seq<SummaryView>,
)
    requires
        found_as_looked_up(peers_of(sender, ids), threads),
        is_listing_of(reachable(threads), listed),
    ensures
        forall|i: int|
            0 <= i < listed.len() ==> (#[trigger] listed[i]).thread_id != sender.text(),
{
    let peers = peers_of(sender, ids);
    listed_sessions_are_the_reachable_ones(threads, listed);
    assert forall|i: int| 0 <= i < listed.len() implies (#[trigger] listed[i]).thread_id
        != sender.text() by {
        let line = listed[i];
        assert(listed.contains(line));
        let at = choose|at: int|
            0 <= at < threads.len() && ((#[trigger] threads[at]) matches Some(thread)
                && thread.availability() is Eligible && line == summary_of(
                thread.availability()->Eligible_0,
            ));
        lemma_sender_is_no_peer(sender, ids, at);
        if line.thread_id == sender.text() {
            different_ids_have_different_texts(peers[at], sender);
        }
    }
}

/// Whether a session was found and can be reached.
pub open spec fn is_reachable(thread: Option<SnapshotView>) -> bool {
    thread matches Some(thread) && thread.availability() is Eligible
}

/// Whether no two of the sessions that can be reached have the same identifier.
pub open spec fn distinct_sessions(threads: Seq<Option<SnapshotView>>) -> bool {
    forall|i: int, j: int|
        0 <= i < j < threads.len() && is_reachable(#[trigger] threads[i]) && is_reachable(
            #[trigger] threads[j],
        ) ==> (threads[i]->0).thread_id != (threads[j]->0).thread_id
}

/// Whether no two lines have the same identifier.
pub open spec fn distinct_ids(sessions: Seq<SummaryView>) -> bool {
    forall|i: int, j: int|
        0 <= i < j < sessions.len() ==> (#[trigger] sessions[i]).thread_id != (
        #[trigger] sessions[j]).thread_id
}

proof fn lemma_reachable_are_distinct(threads: Seq<Option<SnapshotView>>)
    requires
        distinct_sessions(threads),
    ensures
        distinct_ids(reachable(threads)),
    decreases threads.len(),
{
    if threads.len() > 0 {
        let before = threads.drop_last();
        assert forall|i: int, j: int|
            0 <= i < j < before.len() && is_reachable(#[trigger] before[i]) && is_reachable(
                #[trigger] before[j],
            ) implies (before[i]->0).thread_id != (before[j]->0).thread_id by {
            assert(before[i] == threads[i] && before[j] == threads[j]);
        }
        lemma_reachable_are_distinct(before);
        let found = reachable(threads);
        assert forall|i: int, j: int| 0 <= i < j < found.len() implies (
        #[trigger] found[i]).thread_id != (#[trigger] found[j]).thread_id by {
            if j == reachable(before).len() {
                let at = lemma_reachable_come_from_threads(before, i);
                assert(before[at] == threads[at]);
                assert(is_reachable(threads[at]) && is_reachable(threads[threads.len() - 1]));
                if found[i].thread_id == found[j].thread_id {
                    different_ids_have_different_texts(
                        (threads[at]->0).thread_id,
                        threads.last()->0.thread_id,
                    );
                }
            }
        }
    }
}

/// A listing of sessions with distinct identifiers is strictly ordered: each
/// line comes before the next, and none has the identifier of another.
pub proof fn listing_of_distinct_sessions_is_strictly_ordered(
    threads: Seq<Option<SnapshotView>>,
    listed: Seq<SummaryView>,
)
    requires
        is_listing_of(reachable(threads), listed),
        distinct_sessions(threads),
    ensures
        ordered_by_id(listed),
        distinct_ids(listed),
{
    let found = reachable(threads);
    broadcast use vstd::seq_lib::group_to_multiset_ensures;

    lemma_reachable_are_distinct(threads);
    assert(found.no_duplicates());
    found.lemma_multiset_has_no_duplicates();
    listed.lemma_multiset_has_no_duplicates_conv();
    assert forall|i: int, j: int| 0 <= i < j < listed.len() implies (
    #[trigger] listed[i]).thread_id != (#[trigger] listed[j]).thread_id by {
        assert(listed.to_multiset().count(listed[i]) > 0);
        assert(listed.to_multiset().count(listed[j]) > 0);
        assert(found.contains(listed[i]) && found.contains(listed[j]));
        let a = choose|a: int| 0 <= a < found.len() && found[a] == listed[i];
        let b = choose|b: int| 0 <= b < found.len() && found[b] == listed[j];
        if a < b {
            assert(found[a].thread_id != found[b].thread_id);
        } else if b < a {
            assert(found[b].thread_id != found[a].thread_id);
        }
    }
}

proof fn lemma_strict_order_is_unique(a: Seq<SummaryView>, b: Seq<SummaryView>)
    requires
        ordered_by_id(a),
        ordered_by_id(b),
        distinct_ids(a),
        distinct_ids(b),
        forall|line: SummaryView| #[trigger] a.contains(line) <==> b.contains(line),
    ensures
        a == b,
    decreases a.len(),
{
    if a.len() == 0 {
        if b.len() > 0 {
            assert(b.contains(b[0]));
            assert(a.contains(b[0]));
        }
        assert(a =~= b);
    } else {
        assert(a.contains(a.last()));
        let i = choose|i: int| 0 <= i < b.len() && b[i] == a.last();
        assert(b.contains(b.last()));
        assert(a.contains(b.last()));
        let j = choose|j: int| 0 <= j < a.len() && a[j] == b.last();
        assert(in_order(b[i].thread_id, b[b.len() - 1].thread_id));
        assert(in_order(a[j].thread_id, a[a.len() - 1].thread_id));
        lemma_order_total(a.last().thread_id, b.last().thread_id);
        assert(a.last() == b.last()) by {
            if j < a.len() - 1 {
                assert(a[j].thread_id != a[a.len() - 1].thread_id);
            }
        }
        let (front_a, front_b) = (a.drop_last(), b.drop_last());
        assert forall|line: SummaryView| #[trigger] front_a.contains(line) <==> front_b.contains(
            line,
        ) by {
            lemma_front_without_last(a, line);
            lemma_front_without_last(b, line);
            assert(a.contains(line) <==> b.contains(line));
        }
        lemma_strict_order_is_unique(front_a, front_b);
        assert(a =~= front_a.push(a.last()));
        assert(b =~= front_b.push(b.last()));
    }
}

proof fn lemma_front_without_last(lines: Seq<SummaryView>, line: SummaryView)
    requires
        lines.len() > 0,
        distinct_ids(lines),
    ensures
        lines.drop_last().contains(line) <==> lines.contains(line) && line != lines.last(),
{
    let front = lines.drop_last();
    if front.contains(line) {
        let k = choose|k: int| 0 <= k < front.len() && front[k] == line;
        assert(lines[k] == line);
        assert(lines[k].thread_id != lines[lines.len() - 1].thread_id);
    }
    if lines.contains(line) && line != lines.last() {
        let k = choose|k: int| 0 <= k < lines.len() && lines[k] == line;
        assert(front[k] == line);
    }
}

/// The sessions that are found when these identifiers are looked up.
pub open spec fn looked_up(
    find: spec_fn(ThreadId) -> Option<SnapshotView>,
    ids: Seq<ThreadId>,
) -> Seq<Option<SnapshotView>> {
    ids.map_values(find)
}

proof fn lemma_peers_are_the_others(sender: ThreadId, ids: Seq<ThreadId>, id: ThreadId)
    ensures
        peers_of(sender, ids).contains(id) <==> ids.contains(id) && id != sender,
    decreases ids.len(),
{
    reveal(Seq::filter);
    let peers = peers_of(sender, ids);
    if ids.len() > 0 {
        let front = ids.drop_last();
        lemma_peers_are_the_others(sender, front, id);
        assert(ids =~= front.push(ids.last()));
        let before = peers_of(sender, front);
        assert(ids.contains(id) <==> front.contains(id) || id == ids.last()) by {
            if front.contains(id) {
                let k = choose|k: int| 0 <= k < front.len() && front[k] == id;
                assert(ids[k] == id);
            }
            assert(ids[ids.len() - 1] == ids.last());
        }
        if ids.last() != sender {
            assert(peers =~= before.push(ids.last()));
            assert(peers.contains(id) <==> before.contains(id) || id == ids.last()) by {
                if before.contains(id) {
                    let k = choose|k: int| 0 <= k < before.len() && before[k] == id;
                    assert(peers[k] == id);
                }
                assert(peers[peers.len() - 1] == ids.last());
            }
        }
    }
}

proof fn lemma_listed_among_others(
    sender: ThreadId,
    ids: Seq<ThreadId>,
    other_ids: Seq<ThreadId>,
    find: spec_fn(ThreadId) -> Option<SnapshotView>,
    listed: Seq<SummaryView>,
    other_listed: Seq<SummaryView>,
    line: SummaryView,
)
    requires
        forall|id: ThreadId| #[trigger] ids.contains(id) ==> other_ids.contains(id),
        is_listing_of(reachable(looked_up(find, peers_of(sender, ids))), listed),
        is_listing_of(reachable(looked_up(find, peers_of(sender, other_ids))), other_listed),
        listed.contains(line),
    ensures
        other_listed.contains(line),
{
    let (peers, others) = (peers_of(sender, ids), peers_of(sender, other_ids));
    let (threads, other_threads) = (looked_up(find, peers), looked_up(find, others));
    listed_sessions_are_the_reachable_ones(threads, listed);
    listed_sessions_are_the_reachable_ones(other_threads, other_listed);
    let at = choose|at: int|
        0 <= at < threads.len() && ((#[trigger] threads[at]) matches Some(thread)
            && thread.availability() is Eligible && line == summary_of(
            thread.availability()->Eligible_0,
        ));
    let id = peers[at];
    assert(peers.contains(id));
    lemma_peers_are_the_others(sender, ids, id);
    lemma_peers_are_the_others(sender, other_ids, id);
    assert(others.contains(id));
    let k = choose|k: int| 0 <= k < others.len() && others[k] == id;
    assert(other_threads[k] == threads[at]);
}

/// The order in which the identifiers of the sessions are seen makes no
/// difference: the same identifiers in any order lead to the same listing, line
/// by line, as long as no two sessions that can be reached have the same
/// identifier.
pub proof fn listing_does_not_depend_on_the_order_of_ids(
    sender: ThreadId,
    ids: Seq<ThreadId>,
    other_ids: Seq<ThreadId>,
    find: spec_fn(ThreadId) -> Option<SnapshotView>,
    listed: Seq<SummaryView>,
    other_listed: Seq<SummaryView>,
)
    requires
        forall|id: ThreadId| #[trigger] ids.contains(id) <==> other_ids.contains(id),
        distinct_sessions(looked_up(find, peers_of(sender, ids))),
        distinct_sessions(looked_up(find, peers_of(sender, other_ids))),
        is_listing_of(reachable(looked_up(find, peers_of(sender, ids))), listed),
        is_listing_of(reachable(looked_up(find, peers_of(sender, other_ids))), other_listed),
    ensures
        listed == other_listed,
{
    let threads = looked_up(find, peers_of(sender, ids));
    let other_threads = looked_up(find, peers_of(sender, other_ids));
    listing_of_distinct_sessions_is_strictly_ordered(threads, listed);
    listing_of_distinct_sessions_is_strictly_ordered(other_threads, other_listed);
    assert forall|line: SummaryView| #[trigger] listed.contains(line) <==> other_listed.contains(
        line,
    ) by {
        if listed.contains(line) {
            lemma_listed_among_others(
                sender,
                ids,
                other_ids,
                find,
                listed,
                other_listed,
                line,
            );
        }
        if other_listed.contains(line) {
            assert forall|id: ThreadId| #[trigger] other_ids.contains(id) implies ids.contains(
                id,
            ) by {
                assert(ids.contains(id) <==> other_ids.contains(id));
            }
            lemma_listed_among_others(
                sender,
                other_ids,
                ids,
                find,
                other_listed,
                listed,
                line,
            );
        }
    }
    lemma_strict_order_is_unique(listed, other_listed);
}

/// Every session that was found, has enabled the feature, is a root session, is
/// not ephemeral and is neither shut down nor gone has its line in the listing,
/// with its own identifier, name, working directory and status.
pub proof fn every_reachable_session_has_its_line(
    threads: Seq<Option<ThreadSnapshot>>,
    response: ListSessionsResponse,
    thread: ThreadSnapshot,
)
    requires
        is_listing_of(reachable(snapshots(threads)), response@.sessions),
        threads.contains(Some(thread)),
        thread.config matches Some(config) && thread.identity matches Some(identity)
            && config.enabled && !config.ephemeral && identity.is_root && !(thread.status is Shutdown)
            && !(thread.status is NotFound),
    ensures
        exists|i: int|
            0 <= i < response.sessions@.len() && {
                let line = #[trigger] response.sessions@[i];
                &&& ThreadId::parsed(line.thread_id@) == Some(thread.thread_id)
                &&& line.thread_id@ == thread.thread_id.text()
                &&& line.name is Some <==> thread.name is Some
                &&& line.name is Some ==> (line.name->0)@ == (thread.name->0)@
                &&& line.cwd@ == (thread.config->0).cwd@
                &&& thread.status is PendingInit ==> line.status@ == "starting"@
                &&& thread.status is Running ==> line.status@ == "running"@
                &&& thread.status is Interrupted || thread.status is Completed ==> line.status@
                    == "idle"@
                &&& thread.status is Errored ==> line.status@ == "error"@
            },
{
    let seen = snapshots(threads);
    let listed = response@.sessions;
    listed_sessions_are_the_reachable_ones(seen, listed);
    let at = choose|at: int| 0 <= at < threads.len() && threads[at] == Some(thread);
    assert(seen[at] == Some(thread@));
    let expected = summary_of(thread@.availability()->Eligible_0);
    assert(listed.contains(expected));
    let i = choose|i: int| 0 <= i < listed.len() && listed[i] == expected;
    let line = response.sessions@[i];
    assert(listed[i] == line@);
    identifier_reads_back(thread.thread_id);
}

/// Every line of a listing is that of a session that was found, has enabled the
/// feature, is a root session, is not ephemeral and is neither shut down nor
/// gone.
pub proof fn every_line_is_of_a_reachable_session(
    threads: Seq<Option<ThreadSnapshot>>,
    response: ListSessionsResponse,
    i: int,
) -> (at: int)
    requires
        is_listing_of(reachable(snapshots(threads)), response@.sessions),
        0 <= i < response.sessions@.len(),
    ensures
        0 <= at < threads.len(),
        threads[at] is Some,
        ({
            let thread = threads[at]->0;
            let line = response.sessions@[i];
            &&& thread.config matches Some(config) && config.enabled && !config.ephemeral
                && line.cwd@ == config.cwd@
            &&& thread.identity matches Some(identity) && identity.is_root
            &&& ThreadId::parsed(line.thread_id@) == Some(thread.thread_id)
            &&& line.thread_id@ == thread.thread_id.text()
            &&& line.name is Some <==> thread.name is Some
            &&& line.name is Some ==> (line.name->0)@ == (thread.name->0)@
            &&& line.status@ == "starting"@ && thread.status is PendingInit || line.status@
                == "running"@ && thread.status is Running || line.status@ == "idle"@ && (
            thread.status is Interrupted || thread.status is Completed) || line.status@ == "error"@
                && thread.status is Errored
        }),
{
    let seen = snapshots(threads);
    let listed = response@.sessions;
    listed_sessions_are_the_reachable_ones(seen, listed);
    let line = listed[i];
    assert(line == response.sessions@[i]@);
    assert(listed.contains(line));
    let at = choose|at: int|
        0 <= at < seen.len() && ((#[trigger] seen[at]) matches Some(thread)
            && thread.availability() is Eligible && line == summary_of(
            thread.availability()->Eligible_0,
        ));
    identifier_reads_back((threads[at]->0).thread_id);
    at
}

proof fn lemma_reachable_count(threads: Seq<Option<ThreadSnapshot>>)
    ensures
        reachable(snapshots(threads)).len() == threads.filter(
            |found: Option<ThreadSnapshot>|
                found matches Some(thread) && thread.config matches Some(config) && thread.identity matches Some(identity)
                    && config.enabled && !config.ephemeral && identity.is_root && !(thread.status is Shutdown)
                    && !(thread.status is NotFound),
        ).len(),
    decreases threads.len(),
{
    reveal(Seq::filter);
    if threads.len() > 0 {
        lemma_reachable_count(threads.drop_last());
        assert(snapshots(threads).drop_last() =~= snapshots(threads.drop_last()));
    }
}

/// A listing has as many lines as sessions were found that have enabled the
/// feature, are root sessions, are not ephemeral and are neither shut down nor
/// gone.
pub proof fn listing_has_one_line_for_each_session(
    threads: Seq<Option<ThreadSnapshot>>,
    response: ListSessionsResponse,
)
    requires
        is_listing_of(reachable(snapshots(threads)), response@.sessions),
    ensures
        response.sessions@.len() == threads.filter(
            |found: Option<ThreadSnapshot>|
                found matches Some(thread) && thread.config matches Some(config) && thread.identity matches Some(identity)
                    && config.enabled && !config.ephemeral && identity.is_root && !(thread.status is Shutdown)
                    && !(thread.status is NotFound),
        ).len(),
{
    broadcast use vstd::seq_lib::group_to_multiset_ensures;

    lemma_reachable_count(threads);
    assert(response@.sessions.len() == response@.sessions.to_multiset().len());
    assert(response@.sessions.len() == response.sessions@.len());
}

/// A listing is sorted by the texts of the identifiers, and so by their numbers.
pub proof fn listing_is_sorted_by_identifier(
    threads: Seq<Option<ThreadSnapshot>>,
    response: ListSessionsResponse,
    i: int,
    j: int,
)
    requires
        is_listing_of(reachable(snapshots(threads)), response@.sessions),
        0 <= i <= j < response.sessions@.len(),
    ensures
        in_order(response.sessions@[i].thread_id@, response.sessions@[j].thread_id@),
        ThreadId::parsed(response.sessions@[i].thread_id@) is Some,
        ThreadId::parsed(response.sessions@[j].thread_id@) is Some,
        (ThreadId::parsed(response.sessions@[i].thread_id@)->0).value <= (ThreadId::parsed(
            response.sessions@[j].thread_id@,
        )->0).value,
{
    let a = every_line_is_of_a_reachable_session(threads, response, i);
    let b = every_line_is_of_a_reachable_session(threads, response, j);
    let listed = response@.sessions;
    assert(listed[i] == response.sessions@[i]@ && listed[j] == response.sessions@[j]@);
    assert(in_order(listed[i].thread_id, listed[j].thread_id));
    texts_are_ordered_like_identifiers((threads[a]->0).thread_id, (threads[b]->0).thread_id);
}

/// The sessions of two look-ups that can be reached are those of the first,
/// then those of the second.
pub proof fn reachable_sessions_add_up(
    first: Seq<Option<SnapshotView>>,
    second: Seq<Option<SnapshotView>>,
)
    ensures
        reachable(first + second) == reachable(first) + reachable(second),
    decreases second.len(),
{
    if second.len() == 0 {
        assert(first + second =~= first);
        assert(reachable(first) + reachable(second) =~= reachable(first));
    } else {
        assert((first + second).drop_last() =~= first + second.drop_last());
        reachable_sessions_add_up(first, second.drop_last());
        assert(reachable(first + second) =~= reachable(first) + reachable(second));
    }
}

proof fn lemma_same_filter(
    sessions: Seq<SummaryView>,
    a: spec_fn(SummaryView) -> bool,
    b: spec_fn(SummaryView) -> bool,
)
    requires
        forall|session: SummaryView| #[trigger] a(session) == b(session),
    ensures
        sessions.filter(a) == sessions.filter(b),
    decreases sessions.len(),
{
    reveal(Seq::filter);
    if sessions.len() > 0 {
        lemma_same_filter(sessions.drop_last(), a, b);
    }
}

/// Sorting a listing loses no line, adds none, and leaves lines with the same
/// identifier in the order in which their sessions were looked up.
pub proof fn sorting_keeps_all_lines(
    found: Seq<SummaryView>,
    listed: Seq<SummaryView>,
    line: SummaryView,
    id: Seq<char>,
)
    requires
        is_listing_of(found, listed),
    ensures
        listed.len() == found.len(),
        listed.to_multiset().count(line) == found.to_multiset().count(line),
        listed.filter(|l: SummaryView| l.thread_id == id) == found.filter(
            |l: SummaryView| l.thread_id == id,
        ),
{
    broadcast use vstd::seq_lib::group_to_multiset_ensures;

    assert(listed.len() == listed.to_multiset().len());
    assert(with_id(listed, id) == with_id(found, id));
    let a = |l: SummaryView| l.thread_id == id;
    let b = |session: SummaryView| session.thread_id == id;
    lemma_same_filter(listed, a, b);
    lemma_same_filter(found, a, b);
}

/// All sessions but the sending one are looked up, each as often as it was seen
/// and in the order in which they were seen.
pub proof fn all_but_the_sender_are_looked_up(
    sender: ThreadId,
    id: ThreadId,
    first: Seq<ThreadId>,
    second: Seq<ThreadId>,
)
    ensures
        peers_of(sender, first + second) == peers_of(sender, first) + peers_of(sender, second),
        id != sender ==> peers_of(sender, seq![id]) == seq![id],
        peers_of(sender, seq![sender]).len() == 0,
        peers_of(sender, Seq::empty()).len() == 0,
{
    reveal(Seq::filter);
    Seq::filter_distributes_over_add(first, second, |id: ThreadId| id != sender);
    assert(seq![id].drop_last() =~= Seq::empty());
    assert(seq![sender].drop_last() =~= Seq::empty());
    assert(peers_of(sender, Seq::empty()) =~= Seq::empty());
    assert(peers_of(sender, seq![sender].drop_last()) =~= Seq::empty());
    assert(peers_of(sender, seq![id].drop_last()) =~= Seq::empty());
    if id != sender {
        assert(peers_of(sender, seq![id]) =~= seq![id]);
    }
}

} // verus!
