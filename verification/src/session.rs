//! Recorded sessions: the transcript of a finished run, its threads and the
//! agents that took part.

use vstd::prelude::*;
use crate::json::{Json, JsonView};

verus! {

/// The body of a message: plain text, or a JSON document.
#[derive(Debug)]
pub enum MessageContent {
    Text(String),
    Object(Json),
}

/// What a [`MessageContent`] holds, as mathematical values.
pub enum MessageContentView {
    Text(Seq<char>),
    Object(JsonView),
}

impl View for MessageContent {
    type V = MessageContentView;

    open spec fn view(&self) -> MessageContentView {
        match *self {
            MessageContent::Text(text) => MessageContentView::Text(text@),
            MessageContent::Object(json) => MessageContentView::Object(json@),
        }
    }
}

/// One message of a transcript.
#[derive(Debug)]
pub struct Message {
    pub id: String,
    pub role: String,
    pub content: MessageContent,
    pub timestamp: String,
}

/// What a [`Message`] holds, as mathematical values.
pub struct MessageView {
    pub id: Seq<char>,
    pub role: Seq<char>,
    pub content: MessageContentView,
    pub timestamp: Seq<char>,
}

impl View for Message {
    type V = MessageView;

    open spec fn view(&self) -> MessageView {
        MessageView {
            id: self.id@,
            role: self.role@,
            content: self.content@,
            timestamp: self.timestamp@,
        }
    }
}

/// The views of a sequence of messages, in the same order.
pub open spec fn message_views(messages: Seq<Message>) -> Seq<MessageView> {
    messages.map_values(|message: Message| message@)
}

/// A recorded session with its transcript.
#[derive(Debug)]
pub struct Session {
    pub id: String,
    pub project_id: String,
    pub name: String,
    pub messages: Vec<Message>,
    pub created_at: String,
    pub updated_at: String,
    pub is_waiting: bool,
}

/// What a [`Session`] holds, as mathematical values.
pub struct SessionView {
    pub id: Seq<char>,
    pub project_id: Seq<char>,
    pub name: Seq<char>,
    pub messages: Seq<MessageView>,
    pub created_at: Seq<char>,
    pub updated_at: Seq<char>,
    pub is_waiting: bool,
}

impl View for Session {
    type V = SessionView;

    open spec fn view(&self) -> SessionView {
        SessionView {
            id: self.id@,
            project_id: self.project_id@,
            name: self.name@,
            messages: message_views(self.messages@),
            created_at: self.created_at@,
            updated_at: self.updated_at@,
            is_waiting: self.is_waiting,
        }
    }
}

/// A thread of a recorded session.
#[derive(Debug, Clone)]
pub struct Thread {
    pub id: String,
    pub session_id: String,
    pub name: String,
    pub agents: Vec<AgentState>,
    pub message_count: usize,
}

/// An agent of a thread, with its status: `"idle"`, `"running"` or
/// `"waiting"`.
#[derive(Debug, Clone)]
pub struct AgentState {
    pub id: String,
    pub name: String,
    pub status: String,
}

} // verus!
