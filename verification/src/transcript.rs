//! Reading a session's transcript: one JSON document per line, of which the
//! messages are kept and the requests for input are noted.

use vstd::prelude::*;
use vstd::string::StringExecFns;
use crate::json::{json_of, member, member_text, parse_json, Json, JsonView};
use crate::ports::now_rfc3339;
use crate::session::{
    message_views, Message, MessageContent, MessageContentView, MessageView, Session, SessionView,
};

verus! {

/// The character for a digit below ten.
pub open spec fn digit_of(digit: nat) -> char {
    if digit == 0 {
        '0'
    } else if digit == 1 {
        '1'
    } else if digit == 2 {
        '2'
    } else if digit == 3 {
        '3'
    } else if digit == 4 {
        '4'
    } else if digit == 5 {
        '5'
    } else if digit == 6 {
        '6'
    } else if digit == 7 {
        '7'
    } else if digit == 8 {
        '8'
    } else {
        '9'
    }
}

/// A number in decimal, without leading zeros.
pub open spec fn decimal_of(n: nat) -> Seq<char>
    decreases n,
{
    if n < 10 {
        seq![digit_of(n)]
    } else {
        decimal_of(n / 10).push(digit_of(n % 10))
    }
}

/// The identifier of the message at `index` of a transcript.
pub open spec fn message_id_of(index: nat) -> Seq<char> {
    "msg_"@ + decimal_of(index)
}

fn digit_text(digit: usize) -> (text: &'static str)
    requires
        digit < 10,
    ensures
        text@ == seq![digit_of(digit as nat)],
{
    proof {
        reveal_strlit("0");
        reveal_strlit("1");
        reveal_strlit("2");
        reveal_strlit("3");
        reveal_strlit("4");
        reveal_strlit("5");
        reveal_strlit("6");
        reveal_strlit("7");
        reveal_strlit("8");
        reveal_strlit("9");
    }
    let text = if digit == 0 {
        "0"
    } else if digit == 1 {
        "1"
    } else if digit == 2 {
        "2"
    } else if digit == 3 {
        "3"
    } else if digit == 4 {
        "4"
    } else if digit == 5 {
        "5"
    } else if digit == 6 {
        "6"
    } else if digit == 7 {
        "7"
    } else if digit == 8 {
        "8"
    } else {
        "9"
    };
    assert(text@ =~= seq![digit_of(digit as nat)]);
    text
}

/// A number in decimal.
pub fn decimal(n: usize) -> (text: String)
    ensures
        text@ == decimal_of(n as nat),
    decreases n,
{
    if n < 10 {
        digit_text(n).to_owned()
    } else {
        let text = decimal(n / 10).concat(digit_text(n % 10));
        assert(text@ =~= decimal_of(n as nat));
        text
    }
}

/// The identifier of the message at `index` of a transcript: `msg_0`,
/// `msg_1` and so on.
pub fn message_id(index: usize) -> (id: String)
    ensures
        id@ == message_id_of(index as nat),
{
    String::from_str("msg_").concat(decimal(index).as_str())
}

/// The document on a line of a transcript: none where the line does not
/// parse as a JSON document.
pub open spec fn entry_of(line: Seq<char>) -> Option<JsonView> {
    match json_of(line) {
        Ok(json) => Some(json),
        Err(_) => None,
    }
}

/// A document is a message: its type says so, and it has a role and a
/// content.
pub open spec fn is_message(json: JsonView) -> bool {
    &&& member_text(json, "type"@) == Some("message"@)
    &&& member(json, "role"@) is Some
    &&& member(json, "content"@) is Some
}

/// A document says that the session waits for its user.
pub open spec fn asks_for_input(json: JsonView) -> bool {
    ||| member_text(json, "type"@) == Some("user_input_required"@)
    ||| member_text(json, "type"@) == Some("waiting"@)
}

/// The message that a message document stands for at `index` of a
/// transcript: a role that is no text counts as unknown, a timestamp that is
/// missing or no text as empty.
pub open spec fn message_of(json: JsonView, index: nat) -> MessageView {
    MessageView {
        id: message_id_of(index),
        role: match member_text(json, "role"@) {
            Some(role) => role,
            None => "unknown"@,
        },
        content: MessageContentView::Object(member(json, "content"@)->Some_0),
        timestamp: match member_text(json, "timestamp"@) {
            Some(timestamp) => timestamp,
            None => ""@,
        },
    }
}

/// What has been read of a transcript so far.
#[derive(Debug)]
pub struct Transcript {
    pub messages: Vec<Message>,
    pub is_waiting: bool,
}

/// What a [`Transcript`] holds, as mathematical values.
pub struct TranscriptView {
    pub messages: Seq<MessageView>,
    pub is_waiting: bool,
}

impl View for Transcript {
    type V = TranscriptView;

    open spec fn view(&self) -> TranscriptView {
        TranscriptView { messages: message_views(self.messages@), is_waiting: self.is_waiting }
    }
}

/// A transcript of which nothing has been read.
pub open spec fn empty_transcript() -> TranscriptView {
    TranscriptView { messages: Seq::<MessageView>::empty(), is_waiting: false }
}

/// A transcript after one more document: a message joins the messages, a
/// request for input is noted, anything else is passed over.
pub open spec fn with_entry(transcript: TranscriptView, json: JsonView) -> TranscriptView {
    if is_message(json) {
        TranscriptView {
            messages: transcript.messages.push(message_of(json, transcript.messages.len())),
            ..transcript
        }
    } else if asks_for_input(json) {
        TranscriptView { is_waiting: true, ..transcript }
    } else {
        transcript
    }
}

/// A transcript after one more line.
pub open spec fn with_line(transcript: TranscriptView, line: Seq<char>) -> TranscriptView {
    match entry_of(line) {
        Some(json) => with_entry(transcript, json),
        None => transcript,
    }
}

/// A transcript after each of `lines` in turn.
pub open spec fn with_lines(transcript: TranscriptView, lines: Seq<Seq<char>>) -> TranscriptView
    decreases lines.len(),
{
    if lines.len() == 0 {
        transcript
    } else {
        with_line(with_lines(transcript, lines.drop_last()), lines.last())
    }
}

/// The texts of a sequence of lines, in the same order.
pub open spec fn line_texts(lines: Seq<String>) -> Seq<Seq<char>> {
    lines.map_values(|line: String| line@)
}

/// The session that a transcript makes, read at the time `now`.
pub open spec fn session_of(
    session_id: Seq<char>,
    project_id: Seq<char>,
    transcript: TranscriptView,
    now: Seq<char>,
) -> SessionView {
    SessionView {
        id: session_id,
        project_id,
        name: session_id,
        messages: transcript.messages,
        created_at: now,
        updated_at: now,
        is_waiting: transcript.is_waiting,
    }
}

fn same_text(left: &str, right: &str) -> (same: bool)
    ensures
        same == (left@ == right@),
{
    left.to_owned() == right.to_owned()
}

impl Transcript {
    /// A transcript of which nothing has been read.
    pub fn new() -> (transcript: Transcript)
        ensures
            transcript@ == empty_transcript(),
    {
        let transcript = Transcript { messages: Vec::new(), is_waiting: false };
        assert(transcript@.messages =~= Seq::<MessageView>::empty());
        transcript
    }

    /// Takes in one document of the transcript.
    pub fn take_entry(&mut self, json: Json)
        ensures
            final(self)@ == with_entry(old(self)@, json@),
    {
        proof {
            reveal_strlit("message");
            reveal_strlit("user_input_required");
            reveal_strlit("waiting");
            assert("message"@[0] != "waiting"@[0]);
            assert("message"@.len() != "user_input_required"@.len());
        }
        let kind: String = match json.get_str("type") {
            Some(kind) => kind.to_owned(),
            None => {
                return;
            },
        };
        if same_text(kind.as_str(), "message") {
            if json.get("role").is_some() && json.get("content").is_some() {
                let role = match json.get_str("role") {
                    Some(role) => role.to_owned(),
                    None => "unknown".to_owned(),
                };
                let timestamp = match json.get_str("timestamp") {
                    Some(timestamp) => timestamp.to_owned(),
                    None => "".to_owned(),
                };
                let id = message_id(self.messages.len());
                match json.into_member("content") {
                    Some(content) => {
                        let message = Message {
                            id,
                            role,
                            content: MessageContent::Object(content),
                            timestamp,
                        };
                        assert(message@ == message_of(json@, old(self).messages@.len()));
                        self.messages.push(message);
                        assert(self@.messages =~= old(self)@.messages.push(message@));
                    },
                    None => {},
                }
            }
        } else if same_text(kind.as_str(), "user_input_required") || same_text(
            kind.as_str(),
            "waiting",
        ) {
            self.is_waiting = true;
        }
    }

    /// Takes in one line of the transcript. A line that does not parse as a
    /// JSON document is passed over.
    pub fn take_line(&mut self, line: &str)
        ensures
            final(self)@ == with_line(old(self)@, line@),
    {
        match parse_json(line) {
            Ok(json) => {
                self.take_entry(json);
            },
            Err(_) => {},
        }
    }

    /// The session that the transcript makes, read at the time `now`.
    pub fn into_session(self, session_id: &str, project_id: &str, now: String) -> (session:
        Session)
        ensures
            session@ == session_of(session_id@, project_id@, self@, now@),
    {
        Session {
            id: session_id.to_owned(),
            project_id: project_id.to_owned(),
            name: session_id.to_owned(),
            messages: self.messages,
            created_at: now.clone(),
            updated_at: now,
            is_waiting: self.is_waiting,
        }
    }
}

/// The session that the lines of a transcript make, read at the time `now`.
pub fn session_from_lines(session_id: &str, project_id: &str, lines: &Vec<String>, now: String) -> (session:
    Session)
    ensures
        session@ == session_of(
            session_id@,
            project_id@,
            with_lines(empty_transcript(), line_texts(lines@)),
            now@,
        ),
{
    let mut transcript = Transcript::new();
    let n: usize = lines.len();
    let mut i: usize = 0;
    assert(line_texts(lines@).take(0) =~= Seq::<Seq<char>>::empty());
    while i < n
        invariant
            n == lines@.len(),
            i <= n,
            transcript@ == with_lines(empty_transcript(), line_texts(lines@).take(i as int)),
        decreases n - i,
    {
        let ghost before = line_texts(lines@).take(i as int);
        let ghost after = line_texts(lines@).take(i + 1);
        transcript.take_line(lines[i].as_str());
        proof {
            assert(after.drop_last() =~= before);
            assert(after.last() == lines@[i as int]@);
        }
        i += 1;
    }
    assert(line_texts(lines@).take(n as int) =~= line_texts(lines@));
    transcript.into_session(session_id, project_id, now)
}

/// The session that the lines of a transcript make, read now: as
/// [`session_from_lines`] gives it, at the time that the clock gives.
pub fn parse_session_jsonl(session_id: &str, project_id: &str, lines: &Vec<String>) -> (session:
    Session)
    ensures
        session@ == session_of(
            session_id@,
            project_id@,
            with_lines(empty_transcript(), line_texts(lines@)),
            session@.created_at,
        ),
{
    let now = now_rfc3339();
    session_from_lines(session_id, project_id, lines, now)
}

} // verus!
