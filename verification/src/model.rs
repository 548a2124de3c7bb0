//! Plain data shared by the supervision core: session status, captured
//! output lines, the summaries handed to callers and the notifications
//! queued for subscribers.

use vstd::prelude::*;

verus! {

/// Coarse activity classification of a session.
#[derive(Debug, Clone, Copy, PartialEq, Eq, Structural)]
pub enum SessionState {
    Idle,
    Working,
    Waiting,
}

/// The text by which a status is reported to callers and subscribers.
pub open spec fn state_label(state: SessionState) -> Seq<char> {
    match state {
        SessionState::Idle => "idle"@,
        SessionState::Working => "working"@,
        SessionState::Waiting => "waiting"@,
    }
}

impl SessionState {
    /// `"idle"`, `"working"` or `"waiting"`.
    pub fn label(&self) -> (text: String)
        ensures
            text@ == state_label(*self),
    {
        match self {
            SessionState::Idle => "idle".to_owned(),
            SessionState::Working => "working".to_owned(),
            SessionState::Waiting => "waiting".to_owned(),
        }
    }
}

/// The stream of the child process that a line was read from.
#[derive(Debug, Clone, Copy, PartialEq, Eq, Structural)]
pub enum OutputSource {
    Stdout,
    Stderr,
}

/// The tag that marks a line's stream.
pub open spec fn source_tag(source: OutputSource) -> Seq<char> {
    match source {
        OutputSource::Stdout => "stdout"@,
        OutputSource::Stderr => "stderr"@,
    }
}

/// The two streams carry different tags, so that a line's tag tells its
/// stream.
pub proof fn lemma_tags_differ()
    ensures
        source_tag(OutputSource::Stdout) != source_tag(OutputSource::Stderr),
{
    reveal_strlit("stdout");
    reveal_strlit("stderr");
    assert("stdout"@[3] != "stderr"@[3]);
}

/// The three statuses carry different labels.
pub proof fn lemma_labels_differ()
    ensures
        state_label(SessionState::Idle) != state_label(SessionState::Working),
        state_label(SessionState::Idle) != state_label(SessionState::Waiting),
        state_label(SessionState::Working) != state_label(SessionState::Waiting),
{
    reveal_strlit("idle");
    reveal_strlit("working");
    reveal_strlit("waiting");
    assert("idle"@.len() != "working"@.len());
    assert("idle"@.len() != "waiting"@.len());
    assert("working"@[1] != "waiting"@[1]);
}

impl OutputSource {
    /// `"stdout"` or `"stderr"`.
    pub fn tag(&self) -> (text: String)
        ensures
            text@ == source_tag(*self),
    {
        match self {
            OutputSource::Stdout => "stdout".to_owned(),
            OutputSource::Stderr => "stderr".to_owned(),
        }
    }
}

/// One captured line of output.
#[derive(Debug, Clone)]
pub struct OutputLine {
    pub timestamp: String,
    pub text: String,
    pub line_type: String,
}

/// What an [`OutputLine`] holds, as mathematical sequences.
pub struct OutputLineView {
    pub timestamp: Seq<char>,
    pub text: Seq<char>,
    pub line_type: Seq<char>,
}

impl View for OutputLine {
    type V = OutputLineView;

    open spec fn view(&self) -> OutputLineView {
        OutputLineView {
            timestamp: self.timestamp@,
            text: self.text@,
            line_type: self.line_type@,
        }
    }
}

impl OutputLine {
    /// A copy with the same timestamp, text and tag.
    pub fn duplicate(&self) -> (copy: OutputLine)
        ensures
            copy@ == self@,
    {
        OutputLine {
            timestamp: self.timestamp.clone(),
            text: self.text.clone(),
            line_type: self.line_type.clone(),
        }
    }
}

/// The line views of a sequence of lines, in the same order.
pub open spec fn line_views(lines: Seq<OutputLine>) -> Seq<OutputLineView> {
    lines.map_values(|line: OutputLine| line@)
}

/// Summary of one live session, as handed to callers.
#[derive(Debug, Clone)]
pub struct SessionInfo {
    pub id: String,
    pub project_id: String,
    pub state: String,
    pub created_at: String,
    pub output_count: usize,
}

/// What a [`SessionInfo`] holds, as mathematical values.
pub struct SessionInfoView {
    pub id: Seq<char>,
    pub project_id: Seq<char>,
    pub state: Seq<char>,
    pub created_at: Seq<char>,
    pub output_count: nat,
}

impl View for SessionInfo {
    type V = SessionInfoView;

    open spec fn view(&self) -> SessionInfoView {
        SessionInfoView {
            id: self.id@,
            project_id: self.project_id@,
            state: self.state@,
            created_at: self.created_at@,
            output_count: self.output_count as nat,
        }
    }
}

/// A notification for subscribers. Delivery is left to the caller that
/// drains the supervisor's queue.
#[derive(Debug, Clone)]
pub enum Notification {
    /// A session was admitted to the table.
    SessionCreated { session_id: String, project_id: String },
    /// A session's status was set.
    StateChanged { session_id: String, state: SessionState },
    /// A line of output was read from a session's child process.
    Output { session_id: String, line: String, timestamp: String, source: OutputSource },
    /// A session was removed from the table.
    Terminated { session_id: String },
    /// A session's child process ended.
    Completed { session_id: String, exit_code: Option<i32> },
}

/// What a [`Notification`] holds, as mathematical values.
pub enum NotificationView {
    SessionCreated { session_id: Seq<char>, project_id: Seq<char> },
    StateChanged { session_id: Seq<char>, state: SessionState },
    Output { session_id: Seq<char>, line: Seq<char>, timestamp: Seq<char>, source: OutputSource },
    Terminated { session_id: Seq<char> },
    Completed { session_id: Seq<char>, exit_code: Option<i32> },
}

impl View for Notification {
    type V = NotificationView;

    open spec fn view(&self) -> NotificationView {
        match *self {
            Notification::SessionCreated { session_id, project_id } => {
                NotificationView::SessionCreated { session_id: session_id@, project_id: project_id@ }
            },
            Notification::StateChanged { session_id, state } => {
                NotificationView::StateChanged { session_id: session_id@, state }
            },
            Notification::Output { session_id, line, timestamp, source } => {
                NotificationView::Output {
                    session_id: session_id@,
                    line: line@,
                    timestamp: timestamp@,
                    source,
                }
            },
            Notification::Terminated { session_id } => {
                NotificationView::Terminated { session_id: session_id@ }
            },
            Notification::Completed { session_id, exit_code } => {
                NotificationView::Completed { session_id: session_id@, exit_code }
            },
        }
    }
}

/// The topic under which a notification is published.
pub open spec fn topic_of(notification: NotificationView) -> Seq<char> {
    match notification {
        NotificationView::SessionCreated { .. } => "session-created"@,
        NotificationView::StateChanged { .. } => "session-state-changed"@,
        NotificationView::Output { .. } => "session-output"@,
        NotificationView::Terminated { .. } => "session-terminated"@,
        NotificationView::Completed { .. } => "session-completed"@,
    }
}

impl Notification {
    /// The topic under which this notification is published.
    pub fn topic(&self) -> (text: String)
        ensures
            text@ == topic_of(self@),
    {
        match self {
            Notification::SessionCreated { .. } => "session-created".to_owned(),
            Notification::StateChanged { .. } => "session-state-changed".to_owned(),
            Notification::Output { .. } => "session-output".to_owned(),
            Notification::Terminated { .. } => "session-terminated".to_owned(),
            Notification::Completed { .. } => "session-completed".to_owned(),
        }
    }
}

} // verus!
