//! Chat turns and their role tag.
//!
//! A turn's role is stored as text (the storage layer cannot hold a tagged
//! enumeration), so the closed two-variant role type comes with a total,
//! panic-free decode function; only the two known role strings are ever
//! written by the constructors, which is the invariant `wf` captures.

use vstd::prelude::*;

verus! {

/// The role of one chat turn: who produced it.
#[derive(Debug, Clone, Copy, PartialEq, Eq, Structural)]
pub enum MessageRole {
    User,
    Assistant,
}

/// The text under which a `User` turn is stored.
pub open spec fn user_role_text() -> Seq<char> {
    "User"@
}

/// The text under which an `Assistant` turn is stored.
pub open spec fn assistant_role_text() -> Seq<char> {
    "Assistant"@
}

/// The storage text of a role.
pub open spec fn role_text(role: MessageRole) -> Seq<char> {
    match role {
        MessageRole::User => user_role_text(),
        MessageRole::Assistant => assistant_role_text(),
    }
}

impl MessageRole {
    /// The storage text of this role, as an owned string.
    pub fn as_string(&self) -> (r: String)
        ensures
            r@ == role_text(*self),
    {
        match self {
            MessageRole::User => "User".to_owned(),
            MessageRole::Assistant => "Assistant".to_owned(),
        }
    }

    /// Total decode of a stored role text; `None` is the defensive
    /// corrupt-data outcome, never reached while only the two known
    /// role strings are written.
    pub fn parse(s: &String) -> (r: Option<MessageRole>)
        ensures
            s@ == user_role_text() ==> r == Some(MessageRole::User),
            s@ == assistant_role_text() ==> r == Some(MessageRole::Assistant),
            s@ != user_role_text() && s@ != assistant_role_text() ==> r is None,
    {
        let user = "User".to_owned();
        let assistant = "Assistant".to_owned();
        proof {
            reveal_strlit("User");
            reveal_strlit("Assistant");
        }
        if s.eq(&user) {
            proof {
                assert(user_role_text().len() == 4);
                assert(assistant_role_text().len() == 9);
            }
            Some(MessageRole::User)
        } else if s.eq(&assistant) {
            Some(MessageRole::Assistant)
        } else {
            None
        }
    }
}

/// The mathematical value of a [`ChatMessage`]: its three text fields.
#[verifier::ext_equal]
pub ghost struct MsgView {
    pub uuid: Seq<char>,
    pub content: Seq<char>,
    pub role: Seq<char>,
}

/// One immutable message of a transcript: the subject it belongs to, its
/// text, and its role stored as text.
#[derive(Debug)]
pub struct ChatMessage {
    pub uuid: String,
    pub content: String,
    pub role: String,
}

impl Clone for ChatMessage {
    /// A clone carries the same subject, text and role.
    fn clone(&self) -> (r: Self)
        ensures
            r@ == self@,
    {
        ChatMessage {
            uuid: self.uuid.clone(),
            content: self.content.clone(),
            role: self.role.clone(),
        }
    }
}

impl View for ChatMessage {
    type V = MsgView;

    open spec fn view(&self) -> MsgView {
        MsgView { uuid: self.uuid@, content: self.content@, role: self.role@ }
    }
}

/// A message is well formed when its role text is one of the two known
/// role strings.
pub open spec fn msg_wf(m: MsgView) -> bool {
    m.role == user_role_text() || m.role == assistant_role_text()
}

/// The values of a sequence of messages.
pub open spec fn msg_views(ms: Seq<ChatMessage>) -> Seq<MsgView> {
    ms.map_values(|m: ChatMessage| m@)
}

/// The value of a user turn for a subject.
pub open spec fn user_msg(uuid: Seq<char>, content: Seq<char>) -> MsgView {
    MsgView { uuid: uuid, content: content, role: user_role_text() }
}

/// The value of an assistant turn for a subject.
pub open spec fn assistant_msg(uuid: Seq<char>, content: Seq<char>) -> MsgView {
    MsgView { uuid: uuid, content: content, role: assistant_role_text() }
}

impl ChatMessage {
    /// Builds a message of the given role for the given subject.
    pub fn create(uuid: &str, content: &str, role: MessageRole) -> (r: Self)
        ensures
            r@.uuid == uuid@,
            r@.content == content@,
            r@.role == role_text(role),
            msg_wf(r@),
    {
        Self { uuid: uuid.to_owned(), content: content.to_owned(), role: role.as_string() }
    }

    /// Builds a user turn.
    pub fn create_user(uuid: &str, content: &str) -> (r: Self)
        ensures
            r@.uuid == uuid@,
            r@.content == content@,
            r@.role == user_role_text(),
    {
        Self::create(uuid, content, MessageRole::User)
    }

    /// Builds an assistant turn.
    pub fn create_assistant(uuid: &str, content: &str) -> (r: Self)
        ensures
            r@.uuid == uuid@,
            r@.content == content@,
            r@.role == assistant_role_text(),
    {
        Self::create(uuid, content, MessageRole::Assistant)
    }

    /// Decodes the stored role text of a well-formed message.
    pub fn get_role(&self) -> (r: MessageRole)
        requires
            msg_wf(self@),
        ensures
            role_text(r) == self@.role,
    {
        match MessageRole::parse(&self.role) {
            Some(role) => role,
            None => unreached(),
        }
    }
}

} // verus!
