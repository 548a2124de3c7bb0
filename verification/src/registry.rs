//! The table of live sessions and the rules that govern it: admission under
//! a fixed cap, look-up and removal by identifier, the status and bounded
//! history of each session, and the queue of actions that the surrounding
//! program carries out (notifying subscribers, launching child processes).

use std::sync::mpsc::{Receiver, Sender};
use vstd::prelude::*;
use vstd::string::StringExecFns;
use crate::buffer::{appended, OutputBuffer, MAX_OUTPUT_LINES};
use crate::classifier::{detect_state, state_of_text};
use crate::model::{
    line_views, source_tag, state_label, Notification, NotificationView, OutputLine,
    OutputLineView, OutputSource, SessionInfo, SessionInfoView, SessionState,
};
use crate::ports::{fresh_session_id, input_channel, now_rfc3339, send_text, SESSION_ID_LEN};
use crate::table::{
    distinct_ids, lemma_slot, lemma_table_entries, lemma_table_push, lemma_table_remove,
    lemma_table_size, lemma_table_update, slot_of, table_of, ManagedProcess, SessionRecord,
};

verus! {

/// The number of sessions that may be live at once.
pub const MAX_CONCURRENT_SESSIONS: usize = 5;

/// Something for the surrounding program to carry out.
pub enum Action {
    /// Publish a notification to subscribers.
    Notify(Notification),
    /// Start the child process of a session that was admitted, and feed it
    /// what arrives on `stdin`.
    Launch { session_id: String, project_id: String, stdin: Receiver<String> },
}

/// What an [`Action`] asks for, as mathematical values.
pub enum ActionView {
    Notify(NotificationView),
    Launch { session_id: Seq<char>, project_id: Seq<char> },
}

impl View for Action {
    type V = ActionView;

    open spec fn view(&self) -> ActionView {
        match *self {
            Action::Notify(notification) => ActionView::Notify(notification@),
            Action::Launch { session_id, project_id, stdin } => ActionView::Launch {
                session_id: session_id@,
                project_id: project_id@,
            },
        }
    }
}

/// The views of a sequence of actions, in the same order.
pub open spec fn action_views(actions: Seq<Action>) -> Seq<ActionView> {
    actions.map_values(|action: Action| action@)
}

/// The failure text for an identifier that the table does not hold.
pub open spec fn not_found_message(session_id: Seq<char>) -> Seq<char> {
    "Session not found: "@ + session_id
}

/// The failure text for a spawn request that finds the table full.
pub open spec fn admission_message() -> Seq<char> {
    "Maximum 5 concurrent sessions allowed"@
}

/// The failure text for input sent to a session without an input queue.
pub open spec fn no_input_message() -> Seq<char> {
    "Session stdin not available"@
}

/// The failure text for input that the queue did not take.
pub open spec fn send_failure_message(reason: Seq<char>) -> Seq<char> {
    "Failed to send input: "@ + reason
}

/// The summary of the session recorded under `session_id`.
pub open spec fn summary_of(session_id: Seq<char>, record: SessionRecord) -> SessionInfoView {
    SessionInfoView {
        id: session_id,
        project_id: record.project_id,
        state: state_label(record.state),
        created_at: record.created_at,
        output_count: record.output.len(),
    }
}

/// The record of a session that was just admitted.
pub open spec fn admitted_record(project_id: Seq<char>, created_at: Seq<char>) -> SessionRecord {
    SessionRecord {
        project_id,
        state: SessionState::Idle,
        created_at,
        output: Seq::<OutputLineView>::empty(),
        has_input: true,
    }
}

/// The action that announces a session's admission.
pub open spec fn created_action(session_id: Seq<char>, project_id: Seq<char>) -> ActionView {
    ActionView::Notify(NotificationView::SessionCreated { session_id, project_id })
}

/// The action that asks for a session's child process to be started.
pub open spec fn launch_action(session_id: Seq<char>, project_id: Seq<char>) -> ActionView {
    ActionView::Launch { session_id, project_id }
}

/// The action that announces a session's removal.
pub open spec fn terminated_action(session_id: Seq<char>) -> ActionView {
    ActionView::Notify(NotificationView::Terminated { session_id })
}

/// The action that announces a session's status.
pub open spec fn state_action(session_id: Seq<char>, state: SessionState) -> ActionView {
    ActionView::Notify(NotificationView::StateChanged { session_id, state })
}

/// A record with its status replaced.
pub open spec fn with_state(record: SessionRecord, state: SessionState) -> SessionRecord {
    SessionRecord { state, ..record }
}

/// The action that announces a line of output.
pub open spec fn output_action(
    session_id: Seq<char>,
    source: OutputSource,
    text: Seq<char>,
    timestamp: Seq<char>,
) -> ActionView {
    ActionView::Notify(
        NotificationView::Output { session_id, line: text, timestamp, source },
    )
}

/// The action that announces the end of a session's child process.
pub open spec fn completed_action(session_id: Seq<char>, exit_code: Option<i32>) -> ActionView {
    ActionView::Notify(NotificationView::Completed { session_id, exit_code })
}

/// The history entry for a line read from `source` at `timestamp`.
pub open spec fn line_view(source: OutputSource, text: Seq<char>, timestamp: Seq<char>) -> OutputLineView {
    OutputLineView { timestamp, text, line_type: source_tag(source) }
}

/// A line changes a session's status where it comes from stdout and its
/// classification differs from that status.
pub open spec fn changes_state(state: SessionState, source: OutputSource, text: Seq<char>) -> bool {
    source == OutputSource::Stdout && state_of_text(text) != state
}

/// A session's record after one line was read from its child process.
pub open spec fn record_after_line(
    record: SessionRecord,
    source: OutputSource,
    text: Seq<char>,
    timestamp: Seq<char>,
) -> SessionRecord {
    SessionRecord {
        state: if changes_state(record.state, source, text) {
            state_of_text(text)
        } else {
            record.state
        },
        output: appended(record.output, line_view(source, text, timestamp)),
        ..record
    }
}

/// The table after one line was read for `session_id`: the session's record
/// moves on where the table holds it, and nothing changes where it does not.
pub open spec fn sessions_after_line(
    sessions: Map<Seq<char>, SessionRecord>,
    session_id: Seq<char>,
    source: OutputSource,
    text: Seq<char>,
    timestamp: Seq<char>,
) -> Map<Seq<char>, SessionRecord> {
    if sessions.dom().contains(session_id) {
        sessions.insert(
            session_id,
            record_after_line(sessions[session_id], source, text, timestamp),
        )
    } else {
        sessions
    }
}

/// The queue after one line was read for `session_id`: the notification of
/// a changed status, where there is one, then the notification of the line.
pub open spec fn pending_after_line(
    sessions: Map<Seq<char>, SessionRecord>,
    pending: Seq<ActionView>,
    session_id: Seq<char>,
    source: OutputSource,
    text: Seq<char>,
    timestamp: Seq<char>,
) -> Seq<ActionView> {
    if sessions.dom().contains(session_id) && changes_state(
        sessions[session_id].state,
        source,
        text,
    ) {
        pending.push(state_action(session_id, state_of_text(text))).push(
            output_action(session_id, source, text, timestamp),
        )
    } else {
        pending.push(output_action(session_id, source, text, timestamp))
    }
}

/// A list of summaries shows a table: it has one summary for each session,
/// no identifier occurs twice, and each summary is that of the session
/// recorded under its identifier.
pub open spec fn lists_table(infos: Seq<SessionInfo>, sessions: Map<Seq<char>, SessionRecord>) -> bool {
    &&& infos.len() == sessions.len()
    &&& forall|k: int|
        0 <= k < infos.len() ==> {
            &&& sessions.dom().contains((#[trigger] infos[k]).id@)
            &&& infos[k]@ == summary_of(infos[k].id@, sessions[infos[k].id@])
        }
    &&& forall|a: int, b: int|
        0 <= a < infos.len() && 0 <= b < infos.len() && a != b ==> (#[trigger] infos[a]).id@ != (
        #[trigger] infos[b]).id@
}

/// The outcome of an operation that hands back nothing but success, with
/// the failure as plain text.
pub open spec fn outcome_text(result: Result<(), String>) -> Result<(), Seq<char>> {
    match result {
        Ok(_) => Ok(()),
        Err(message) => Err(message@),
    }
}

/// Whether terminating `session_id` succeeds: it does exactly where the
/// table holds the identifier.
pub open spec fn terminate_outcome(
    sessions: Map<Seq<char>, SessionRecord>,
    session_id: Seq<char>,
) -> Result<(), Seq<char>> {
    if sessions.dom().contains(session_id) {
        Ok(())
    } else {
        Err(not_found_message(session_id))
    }
}

/// The table after `session_id` was terminated.
pub open spec fn sessions_after_terminate(
    sessions: Map<Seq<char>, SessionRecord>,
    session_id: Seq<char>,
) -> Map<Seq<char>, SessionRecord> {
    sessions.remove(session_id)
}

/// The queue after `session_id` was terminated: the notification is queued
/// where the table held the identifier.
pub open spec fn pending_after_terminate(
    sessions: Map<Seq<char>, SessionRecord>,
    pending: Seq<ActionView>,
    session_id: Seq<char>,
) -> Seq<ActionView> {
    if sessions.dom().contains(session_id) {
        pending.push(terminated_action(session_id))
    } else {
        pending
    }
}

/// Terminating a session that the table holds succeeds and removes it; a
/// second termination under the same identifier then fails as for an
/// identifier that was never there, and changes nothing.
pub proof fn lemma_terminate_twice(
    sessions: Map<Seq<char>, SessionRecord>,
    pending: Seq<ActionView>,
    session_id: Seq<char>,
)
    requires
        sessions.dom().contains(session_id),
    ensures
        terminate_outcome(sessions, session_id) is Ok,
        !sessions_after_terminate(sessions, session_id).dom().contains(session_id),
        terminate_outcome(sessions_after_terminate(sessions, session_id), session_id) == Err::<
            (),
            Seq<char>,
        >(not_found_message(session_id)),
        sessions_after_terminate(sessions_after_terminate(sessions, session_id), session_id)
            == sessions_after_terminate(sessions, session_id),
        pending_after_terminate(
            sessions_after_terminate(sessions, session_id),
            pending,
            session_id,
        ) == pending,
{
    let once = sessions_after_terminate(sessions, session_id);
    assert(sessions_after_terminate(once, session_id) =~= once);
}

/// Terminating an identifier that the table does not hold fails and leaves
/// the table and the queue as they were.
pub proof fn lemma_terminate_unknown(
    sessions: Map<Seq<char>, SessionRecord>,
    pending: Seq<ActionView>,
    session_id: Seq<char>,
)
    requires
        !sessions.dom().contains(session_id),
    ensures
        terminate_outcome(sessions, session_id) == Err::<(), Seq<char>>(
            not_found_message(session_id),
        ),
        sessions_after_terminate(sessions, session_id) == sessions,
        pending_after_terminate(sessions, pending, session_id) == pending,
{
    assert(sessions_after_terminate(sessions, session_id) =~= sessions);
}

/// The table of live sessions, with the actions that await the surrounding
/// program.
pub struct ProcessManager {
    processes: Vec<ManagedProcess>,
    pending: Vec<Action>,
}

impl ProcessManager {
    /// The table: each live session's identifier mapped to its record.
    pub closed spec fn sessions(&self) -> Map<Seq<char>, SessionRecord> {
        table_of(self.processes@)
    }

    /// The actions queued and not yet taken, oldest first.
    pub closed spec fn pending(&self) -> Seq<ActionView> {
        action_views(self.pending@)
    }

    /// Identifiers are unique, the table is within the cap and every
    /// history is within its bound.
    pub closed spec fn wf(&self) -> bool {
        &&& distinct_ids(self.processes@)
        &&& self.processes@.len() <= MAX_CONCURRENT_SESSIONS
        &&& forall|i: int|
            0 <= i < self.processes@.len() ==> (#[trigger] self.processes@[i]).output_buffer.wf()
    }

    /// A well-formed table is finite and never holds more sessions than the
    /// cap, and no history in it holds more lines than its bound.
    pub proof fn lemma_within_cap(&self)
        requires
            self.wf(),
        ensures
            self.sessions().dom().finite(),
            self.sessions().len() <= MAX_CONCURRENT_SESSIONS,
            forall|session_id: Seq<char>|
                self.sessions().dom().contains(session_id) ==> (#[trigger] self.sessions()[session_id]).output.len()
                    <= MAX_OUTPUT_LINES,
    {
        lemma_table_size(self.processes@);
        assert forall|session_id: Seq<char>|
            self.sessions().dom().contains(session_id) implies (#[trigger] self.sessions()[session_id]).output.len()
            <= MAX_OUTPUT_LINES by {
            let k = slot_of(self.processes@, session_id);
            self.processes@[k].output_buffer.lemma_within_bound();
        }
    }

    /// An empty table with nothing queued.
    pub fn new() -> (manager: ProcessManager)
        ensures
            manager.wf(),
            manager.sessions() == Map::<Seq<char>, SessionRecord>::empty(),
            manager.pending() == Seq::<ActionView>::empty(),
    {
        let manager = ProcessManager { processes: Vec::new(), pending: Vec::new() };
        assert(manager.sessions() =~= Map::<Seq<char>, SessionRecord>::empty());
        assert(manager.pending() =~= Seq::<ActionView>::empty());
        manager
    }

    /// Queues one action for the surrounding program.
    fn enqueue(&mut self, action: Action)
        ensures
            final(self).processes == old(self).processes,
            final(self).pending() == old(self).pending().push(action@),
    {
        self.pending.push(action);
        assert(self.pending() =~= old(self).pending().push(action@));
    }

    /// Admits a session under an identifier, a creation time and an input
    /// queue that the caller supplies. Fails exactly where the table is
    /// full, and then changes nothing. Otherwise the session is recorded as
    /// idle with an empty history, taking the place of any session recorded
    /// under the same identifier, and two actions are queued: the
    /// notification that the session was created, then the launch of its
    /// child process.
    pub fn register_session(
        &mut self,
        session_id: String,
        project_id: String,
        created_at: String,
        channel: (Sender<String>, Receiver<String>),
    ) -> (result: Result<String, String>)
        requires
            old(self).wf(),
        ensures
            final(self).wf(),
            match result {
                Ok(id) => {
                    &&& old(self).sessions().len() < MAX_CONCURRENT_SESSIONS
                    &&& id@ == session_id@
                    &&& final(self).sessions() == old(self).sessions().insert(
                        session_id@,
                        admitted_record(project_id@, created_at@),
                    )
                    &&& final(self).pending() == old(self).pending().push(
                        created_action(session_id@, project_id@),
                    ).push(launch_action(session_id@, project_id@))
                },
                Err(message) => {
                    &&& old(self).sessions().len() >= MAX_CONCURRENT_SESSIONS
                    &&& message@ == admission_message()
                    &&& final(self).sessions() == old(self).sessions()
                    &&& final(self).pending() == old(self).pending()
                },
            },
    {
        proof {
            lemma_table_size(self.processes@);
        }
        if self.processes.len() >= MAX_CONCURRENT_SESSIONS {
            return Err("Maximum 5 concurrent sessions allowed".to_owned());
        }
        let (sender, receiver) = channel;
        let process = ManagedProcess {
            id: session_id.clone(),
            project_id: project_id.clone(),
            state: SessionState::Idle,
            created_at,
            output_buffer: OutputBuffer::new(),
            stdin_sender: Some(sender),
        };
        assert(process@ == admitted_record(project_id@, created_at@));
        match self.find(session_id.as_str()) {
            Some(i) => {
                proof {
                    lemma_table_update(self.processes@, i as int, process);
                }
                self.processes.set(i, process);
            },
            None => {
                proof {
                    lemma_table_push(self.processes@, process);
                }
                self.processes.push(process);
            },
        }
        self.enqueue(
            Action::Notify(
                Notification::SessionCreated {
                    session_id: session_id.clone(),
                    project_id: project_id.clone(),
                },
            ),
        );
        self.enqueue(Action::Launch { session_id: session_id.clone(), project_id, stdin: receiver });
        Ok(session_id)
    }

    /// Starts a session for a project under a fresh identifier. Fails
    /// exactly where the table is full, and then changes nothing. Otherwise
    /// the session is recorded as idle with an empty history, a
    /// notification and the launch of its child process are queued, and the
    /// identifier is returned.
    pub fn spawn_session(&mut self, project_id: String) -> (result: Result<String, String>)
        requires
            old(self).wf(),
        ensures
            final(self).wf(),
            match result {
                Ok(id) => {
                    &&& old(self).sessions().len() < MAX_CONCURRENT_SESSIONS
                    &&& id@.len() == SESSION_ID_LEN
                    &&& final(self).sessions().dom().contains(id@)
                    &&& final(self).sessions() == old(self).sessions().insert(
                        id@,
                        admitted_record(project_id@, final(self).sessions()[id@].created_at),
                    )
                    &&& final(self).pending() == old(self).pending().push(
                        created_action(id@, project_id@),
                    ).push(launch_action(id@, project_id@))
                },
                Err(message) => {
                    &&& old(self).sessions().len() >= MAX_CONCURRENT_SESSIONS
                    &&& message@ == admission_message()
                    &&& final(self).sessions() == old(self).sessions()
                    &&& final(self).pending() == old(self).pending()
                },
            },
    {
        let session_id = fresh_session_id();
        let channel = input_channel();
        let created_at = now_rfc3339();
        self.register_session(session_id, project_id, created_at, channel)
    }

    /// Removes a session from the table and queues the notification that it
    /// was terminated. Fails exactly where the table does not hold the
    /// identifier, and then changes nothing.
    pub fn terminate_session(&mut self, session_id: String) -> (result: Result<(), String>)
        requires
            old(self).wf(),
        ensures
            final(self).wf(),
            outcome_text(result) == terminate_outcome(old(self).sessions(), session_id@),
            final(self).sessions() == sessions_after_terminate(old(self).sessions(), session_id@),
            final(self).pending() == pending_after_terminate(
                old(self).sessions(),
                old(self).pending(),
                session_id@,
            ),
    {
        match self.find(session_id.as_str()) {
            Some(i) => {
                proof {
                    lemma_table_remove(self.processes@, i as int);
                }
                let _ = self.processes.remove(i);
                self.enqueue(Action::Notify(Notification::Terminated { session_id }));
                Ok(())
            },
            None => Err(not_found(session_id.as_str())),
        }
    }

    /// Sets a session's status and queues the notification of it. Fails
    /// exactly where the table does not hold the identifier, and then
    /// changes nothing.
    pub fn update_session_state(&mut self, session_id: &str, new_state: SessionState) -> (result:
        Result<(), String>)
        requires
            old(self).wf(),
        ensures
            final(self).wf(),
            match result {
                Ok(_) => {
                    &&& old(self).sessions().dom().contains(session_id@)
                    &&& final(self).sessions() == old(self).sessions().insert(
                        session_id@,
                        with_state(old(self).sessions()[session_id@], new_state),
                    )
                    &&& final(self).pending() == old(self).pending().push(
                        state_action(session_id@, new_state),
                    )
                },
                Err(message) => {
                    &&& !old(self).sessions().dom().contains(session_id@)
                    &&& message@ == not_found_message(session_id@)
                    &&& final(self).sessions() == old(self).sessions()
                    &&& final(self).pending() == old(self).pending()
                },
            },
    {
        match self.find(session_id) {
            Some(i) => {
                self.processes[i].state = new_state;
                proof {
                    lemma_table_update(old(self).processes@, i as int, self.processes@[i as int]);
                    assert(self.processes@ =~= old(self).processes@.update(
                        i as int,
                        self.processes@[i as int],
                    ));
                }
                self.enqueue(
                    Action::Notify(
                        Notification::StateChanged {
                            session_id: session_id.to_owned(),
                            state: new_state,
                        },
                    ),
                );
                Ok(())
            },
            None => Err(not_found(session_id)),
        }
    }

    /// Takes in one line read from a session's child process at a time that
    /// the caller supplies. Where the table holds the session, a line from
    /// stdout whose classification differs from the session's status sets the
    /// status and queues the notification of it, and the line joins the
    /// session's history. In every case the notification of the line is
    /// queued last.
    pub fn record_output_at(
        &mut self,
        session_id: &str,
        source: OutputSource,
        text: String,
        timestamp: String,
    )
        requires
            old(self).wf(),
        ensures
            final(self).wf(),
            final(self).sessions() == sessions_after_line(
                old(self).sessions(),
                session_id@,
                source,
                text@,
                timestamp@,
            ),
            final(self).pending() == pending_after_line(
                old(self).sessions(),
                old(self).pending(),
                session_id@,
                source,
                text@,
                timestamp@,
            ),
    {
        match self.find(session_id) {
            Some(i) => {
                let ghost before = self.processes@[i as int]@;
                let mut announced: Option<SessionState> = None;
                match source {
                    OutputSource::Stdout => {
                        let signalled = detect_state(text.as_str());
                        if signalled != self.processes[i].state {
                            self.processes[i].state = signalled;
                            announced = Some(signalled);
                        }
                    },
                    OutputSource::Stderr => {},
                }
                let line = OutputLine {
                    timestamp: timestamp.clone(),
                    text: text.clone(),
                    line_type: source.tag(),
                };
                assert(line@ == line_view(source, text@, timestamp@));
                self.processes[i].output_buffer.append(line);
                proof {
                    assert(self.processes@[i as int]@ == record_after_line(
                        before,
                        source,
                        text@,
                        timestamp@,
                    ));
                    lemma_table_update(old(self).processes@, i as int, self.processes@[i as int]);
                    assert(self.processes@ =~= old(self).processes@.update(
                        i as int,
                        self.processes@[i as int],
                    ));
                }
                match announced {
                    Some(state) => {
                        self.enqueue(
                            Action::Notify(
                                Notification::StateChanged {
                                    session_id: session_id.to_owned(),
                                    state,
                                },
                            ),
                        );
                    },
                    None => {},
                }
            },
            None => {},
        }
        self.enqueue(
            Action::Notify(
                Notification::Output {
                    session_id: session_id.to_owned(),
                    line: text,
                    timestamp,
                    source,
                },
            ),
        );
    }

    /// Takes in one line read from a session's child process now: as
    /// [`Self::record_output_at`] does, at the time that the clock gives.
    pub fn record_output(&mut self, session_id: &str, source: OutputSource, text: String)
        requires
            old(self).wf(),
        ensures
            final(self).wf(),
            exists|timestamp: Seq<char>|
                {
                    &&& final(self).sessions() == #[trigger] sessions_after_line(
                        old(self).sessions(),
                        session_id@,
                        source,
                        text@,
                        timestamp,
                    )
                    &&& final(self).pending() == pending_after_line(
                        old(self).sessions(),
                        old(self).pending(),
                        session_id@,
                        source,
                        text@,
                        timestamp,
                    )
                },
    {
        let timestamp = now_rfc3339();
        self.record_output_at(session_id, source, text, timestamp);
    }

    /// Queues the notification that a session's child process ended, with
    /// its exit code where it has one. The table keeps the session.
    pub fn record_exit(&mut self, session_id: &str, exit_code: Option<i32>)
        requires
            old(self).wf(),
        ensures
            final(self).wf(),
            final(self).sessions() == old(self).sessions(),
            final(self).pending() == old(self).pending().push(
                completed_action(session_id@, exit_code),
            ),
    {
        self.enqueue(
            Action::Notify(
                Notification::Completed { session_id: session_id.to_owned(), exit_code },
            ),
        );
    }

    /// Hands out the queued actions, oldest first, and leaves the queue
    /// empty.
    pub fn take_actions(&mut self) -> (actions: Vec<Action>)
        requires
            old(self).wf(),
        ensures
            final(self).wf(),
            final(self).sessions() == old(self).sessions(),
            final(self).pending() == Seq::<ActionView>::empty(),
            action_views(actions@) == old(self).pending(),
    {
        let mut actions: Vec<Action> = Vec::new();
        std::mem::swap(&mut self.pending, &mut actions);
        assert(self.pending() =~= Seq::<ActionView>::empty());
        actions
    }

    /// The summaries of all live sessions: one for each session that the
    /// table holds, each under its own identifier. Never fails.
    pub fn list_active_sessions(&self) -> (result: Result<Vec<SessionInfo>, String>)
        requires
            self.wf(),
        ensures
            result is Ok,
            lists_table(result->Ok_0@, self.sessions()),
    {
        let mut infos: Vec<SessionInfo> = Vec::new();
        let n: usize = self.processes.len();
        let mut i: usize = 0;
        proof {
            lemma_table_size(self.processes@);
            lemma_table_entries(self.processes@);
        }
        while i < n
            invariant
                self.wf(),
                n == self.processes@.len(),
                i <= n,
                infos@.len() == i,
                forall|k: int|
                    0 <= k < i ==> (#[trigger] infos@[k])@ == summary_of(
                        self.processes@[k].id@,
                        self.processes@[k]@,
                    ),
            decreases n - i,
        {
            let info = self.summary_at(i);
            infos.push(info);
            i += 1;
        }
        proof {
            assert forall|k: int| 0 <= k < infos@.len() implies {
                &&& self.sessions().dom().contains((#[trigger] infos@[k]).id@)
                &&& infos@[k]@ == summary_of(infos@[k].id@, self.sessions()[infos@[k].id@])
            } by {
                assert(infos@[k]@.id == self.processes@[k].id@);
                lemma_slot(self.processes@, k);
            }
            assert forall|a: int, b: int|
                0 <= a < infos@.len() && 0 <= b < infos@.len() && a != b implies (
                #[trigger] infos@[a]).id@ != (#[trigger] infos@[b]).id@ by {
                assert(infos@[a]@.id == self.processes@[a].id@);
                assert(infos@[b]@.id == self.processes@[b].id@);
            }
        }
        Ok(infos)
    }

    /// Sends a line of input to a session's child process. Fails where the
    /// table does not hold the identifier, where the session has no input
    /// queue, and where the queue no longer takes input; it changes nothing
    /// in the table.
    pub fn write_to_session(&self, session_id: &str, input: String) -> (result: Result<
        (),
        String,
    >)
        requires
            self.wf(),
        ensures
            match result {
                Ok(_) => {
                    &&& self.sessions().dom().contains(session_id@)
                    &&& self.sessions()[session_id@].has_input
                },
                Err(message) => {
                    if !self.sessions().dom().contains(session_id@) {
                        message@ == not_found_message(session_id@)
                    } else if !self.sessions()[session_id@].has_input {
                        message@ == no_input_message()
                    } else {
                        exists|reason: Seq<char>| message@ == #[trigger] send_failure_message(reason)
                    }
                },
            },
    {
        match self.find(session_id) {
            Some(i) => {
                match &self.processes[i].stdin_sender {
                    Some(sender) => {
                        let sent = send_text(sender, input);
                        send_outcome(sent)
                    },
                    None => Err("Session stdin not available".to_owned()),
                }
            },
            None => Err(not_found(session_id)),
        }
    }

    /// The place of the entry that carries `session_id`, if there is one.
    fn find(&self, session_id: &str) -> (found: Option<usize>)
        requires
            self.wf(),
        ensures
            match found {
                Some(i) => {
                    &&& i < self.processes@.len()
                    &&& self.processes@[i as int].id@ == session_id@
                    &&& self.sessions().dom().contains(session_id@)
                    &&& self.sessions()[session_id@] == self.processes@[i as int]@
                },
                None => !self.sessions().dom().contains(session_id@),
            },
    {
        let wanted = session_id.to_owned();
        let n: usize = self.processes.len();
        let mut i: usize = 0;
        while i < n
            invariant
                self.wf(),
                n == self.processes@.len(),
                i <= n,
                wanted@ == session_id@,
                forall|k: int| 0 <= k < i ==> (#[trigger] self.processes@[k]).id@ != session_id@,
            decreases n - i,
        {
            if self.processes[i].id == wanted {
                proof {
                    lemma_slot(self.processes@, i as int);
                }
                return Some(i);
            }
            i += 1;
        }
        None
    }

    /// The summary of the entry at `i`.
    fn summary_at(&self, i: usize) -> (info: SessionInfo)
        requires
            self.wf(),
            i < self.processes@.len(),
        ensures
            info@ == summary_of(self.processes@[i as int].id@, self.processes@[i as int]@),
    {
        let process = &self.processes[i];
        SessionInfo {
            id: process.id.clone(),
            project_id: process.project_id.clone(),
            state: process.state.label(),
            created_at: process.created_at.clone(),
            output_count: process.output_buffer.count(),
        }
    }

    /// The summary of one session. Fails exactly where the table does not
    /// hold the identifier.
    pub fn get_session(&self, session_id: &str) -> (result: Result<SessionInfo, String>)
        requires
            self.wf(),
        ensures
            match result {
                Ok(info) => {
                    &&& self.sessions().dom().contains(session_id@)
                    &&& info@ == summary_of(session_id@, self.sessions()[session_id@])
                },
                Err(message) => {
                    &&& !self.sessions().dom().contains(session_id@)
                    &&& message@ == not_found_message(session_id@)
                },
            },
    {
        match self.find(session_id) {
            Some(i) => Ok(self.summary_at(i)),
            None => Err(not_found(session_id)),
        }
    }

    /// A copy of one session's whole history, oldest line first. Fails
    /// exactly where the table does not hold the identifier.
    pub fn get_session_output(&self, session_id: &str) -> (result: Result<Vec<OutputLine>, String>)
        requires
            self.wf(),
        ensures
            match result {
                Ok(lines) => {
                    &&& self.sessions().dom().contains(session_id@)
                    &&& line_views(lines@) == self.sessions()[session_id@].output
                },
                Err(message) => {
                    &&& !self.sessions().dom().contains(session_id@)
                    &&& message@ == not_found_message(session_id@)
                },
            },
    {
        match self.find(session_id) {
            Some(i) => Ok(self.processes[i].output_buffer.snapshot()),
            None => Err(not_found(session_id)),
        }
    }
}

/// What a caller is told once the input queue has answered: success where
/// the queue took the line, and otherwise a failure that carries the
/// queue's reason.
pub fn send_outcome(sent: Result<(), String>) -> (result: Result<(), String>)
    ensures
        match sent {
            Ok(_) => result is Ok,
            Err(reason) => result is Err && result->Err_0@ == send_failure_message(reason@),
        },
{
    match sent {
        Ok(_) => Ok(()),
        Err(reason) => Err(String::from_str("Failed to send input: ").concat(reason.as_str())),
    }
}

/// The failure text for an identifier that the table does not hold.
fn not_found(session_id: &str) -> (message: String)
    ensures
        message@ == not_found_message(session_id@),
{
    String::from_str("Session not found: ").concat(session_id)
}

} // verus!
