//! The completion provider's request and reply, as values.
//!
//! A request is the fixed system directive followed by the transcript
//! translated to the provider's role vocabulary, in original order, with
//! a fixed cap on the reply length. A reply is zero or more candidates,
//! each optionally carrying text; only the first candidate's text is
//! usable. The network call itself is an outside collaborator — these
//! functions build what is sent and judge what came back.

use vstd::prelude::*;

use crate::message::{msg_views, msg_wf, user_role_text, ChatMessage, MsgView};

verus! {

/// The fixed upper bound on generated reply tokens.
pub const MAX_REPLY_TOKENS: u32 = 512;

/// The provider's role vocabulary.
#[derive(Debug, Clone, Copy, PartialEq, Eq, Structural)]
pub enum ProviderRole {
    System,
    User,
    Assistant,
}

/// The value of one role-tagged message of a provider request.
#[verifier::ext_equal]
pub ghost struct ProviderMsgView {
    pub role: ProviderRole,
    pub content: Seq<char>,
}

/// One role-tagged message of a provider request.
#[derive(Debug)]
pub struct ProviderMessage {
    pub role: ProviderRole,
    pub content: String,
}

impl View for ProviderMessage {
    type V = ProviderMsgView;

    open spec fn view(&self) -> ProviderMsgView {
        ProviderMsgView { role: self.role, content: self.content@ }
    }
}

/// The values of a sequence of provider messages.
pub open spec fn provider_msg_views(ms: Seq<ProviderMessage>) -> Seq<ProviderMsgView> {
    ms.map_values(|m: ProviderMessage| m@)
}

/// The value of a provider request.
#[verifier::ext_equal]
pub ghost struct ProviderRequestView {
    pub model: Seq<char>,
    pub max_tokens: u32,
    pub messages: Seq<ProviderMsgView>,
}

/// Everything one provider invocation needs: the model, the reply-length
/// cap, and the ordered role-tagged messages.
#[derive(Debug)]
pub struct ProviderRequest {
    pub model: String,
    pub max_tokens: u32,
    pub messages: Vec<ProviderMessage>,
}

impl View for ProviderRequest {
    type V = ProviderRequestView;

    open spec fn view(&self) -> ProviderRequestView {
        ProviderRequestView {
            model: self.model@,
            max_tokens: self.max_tokens,
            messages: provider_msg_views(self.messages@),
        }
    }
}

/// A stored turn translated to the provider's vocabulary: a user turn
/// becomes a user message, anything else an assistant message.
pub open spec fn translated(m: MsgView) -> ProviderMsgView {
    ProviderMsgView {
        role: if m.role == user_role_text() {
            ProviderRole::User
        } else {
            ProviderRole::Assistant
        },
        content: m.content,
    }
}

/// The messages of a provider request: the system directive first, then
/// the transcript translated in original order.
pub open spec fn request_messages(sys: Seq<char>, msgs: Seq<MsgView>) -> Seq<ProviderMsgView> {
    seq![ProviderMsgView { role: ProviderRole::System, content: sys }] + msgs.map_values(
        |m: MsgView| translated(m),
    )
}

/// Builds the provider request for a transcript: the fixed system
/// directive, then every turn translated in order, under the fixed
/// reply-length cap.
pub fn build_request(sys_prompt: &str, model: &str, history: &Vec<ChatMessage>) -> (r:
    ProviderRequest)
    requires
        forall|i: int| 0 <= i < history@.len() ==> msg_wf(#[trigger] history@[i]@),
    ensures
        r@.model == model@,
        r@.max_tokens == MAX_REPLY_TOKENS,
        r@.messages == request_messages(sys_prompt@, msg_views(history@)),
{
    proof {
        reveal_strlit("User");
        reveal_strlit("Assistant");
    }
    let mut messages: Vec<ProviderMessage> = Vec::new();
    messages.push(ProviderMessage { role: ProviderRole::System, content: sys_prompt.to_owned() });
    let n = history.len();
    let mut i: usize = 0;
    while i < n
        invariant
            n == history@.len(),
            i <= n,
            forall|k: int| 0 <= k < n ==> msg_wf(#[trigger] history@[k]@),
            messages@.len() == i + 1,
            messages@[0]@ == (ProviderMsgView { role: ProviderRole::System, content: sys_prompt@ }),
            forall|k: int| 1 <= k <= i ==> (#[trigger] messages@[k])@ == translated(history@[k - 1]@),
        decreases n - i,
    {
        let m = &history[i];
        let role = match m.get_role() {
            crate::message::MessageRole::User => ProviderRole::User,
            crate::message::MessageRole::Assistant => ProviderRole::Assistant,
        };
        messages.push(ProviderMessage { role, content: m.content.clone() });
        proof {
            reveal_strlit("User");
            reveal_strlit("Assistant");
            assert(user_role_text().len() == 4);
            assert(crate::message::assistant_role_text().len() == 9);
            assert((messages@[i as int + 1])@ == translated(history@[i as int]@));
        }
        i += 1;
    }
    let r = ProviderRequest { model: model.to_owned(), max_tokens: MAX_REPLY_TOKENS, messages };
    proof {
        assert(r@.messages =~= request_messages(sys_prompt@, msg_views(history@)));
    }
    r
}

/// One candidate of a provider reply, optionally carrying text.
#[derive(Debug)]
pub struct Candidate {
    pub content: Option<String>,
}

/// What a provider invocation came back with: candidates, or an outright
/// failure with the provider's error text.
#[derive(Debug)]
pub enum ProviderOutcome {
    Reply(Vec<Candidate>),
    Failure(String),
}

/// The usable reply of an outcome: the first candidate's text, if the
/// call succeeded, a candidate is present, and it carries text.
pub open spec fn usable_reply(o: ProviderOutcome) -> Option<Seq<char>> {
    match o {
        ProviderOutcome::Failure(_) => None,
        ProviderOutcome::Reply(cands) => if cands@.len() == 0 {
            None
        } else {
            match cands@[0].content {
                Some(c) => Some(c@),
                None => None,
            }
        },
    }
}

/// Why an outcome yields no usable reply.
#[derive(Debug, Clone, Copy, PartialEq, Eq, Structural)]
pub enum AgentError {
    /// The call succeeded but returned no candidate, or a candidate
    /// without text.
    NoUsableReply,
    /// The call itself failed: network, authentication or quota.
    ProviderFailure,
}

/// The error an unusable outcome is reported as.
pub open spec fn agent_error_of(o: ProviderOutcome) -> AgentError {
    match o {
        ProviderOutcome::Failure(_) => AgentError::ProviderFailure,
        ProviderOutcome::Reply(_) => AgentError::NoUsableReply,
    }
}

/// The message a client sees for each failure; the provider's own error
/// text is kept out of it and logged server-side only.
pub open spec fn agent_error_message(e: AgentError) -> Seq<char> {
    match e {
        AgentError::NoUsableReply => "no usable reply"@,
        AgentError::ProviderFailure => "agent request failed"@,
    }
}

impl AgentError {
    /// The message a client sees for this failure.
    pub fn message(&self) -> (r: String)
        ensures
            r@ == agent_error_message(*self),
    {
        match self {
            AgentError::NoUsableReply => "no usable reply".to_owned(),
            AgentError::ProviderFailure => "agent request failed".to_owned(),
        }
    }
}

/// Judges a provider outcome: the first candidate's text when there is
/// one, else the error that says why there is none.
pub fn first_reply_content(outcome: &ProviderOutcome) -> (r: Result<String, AgentError>)
    ensures
        usable_reply(*outcome) matches Some(c) ==> (r matches Ok(s) && s@ == c),
        usable_reply(*outcome) is None ==> r == Err::<String, AgentError>(
            agent_error_of(*outcome),
        ),
{
    match outcome {
        ProviderOutcome::Failure(_) => Err(AgentError::ProviderFailure),
        ProviderOutcome::Reply(cands) => {
            if cands.len() == 0 {
                Err(AgentError::NoUsableReply)
            } else {
                match &cands[0].content {
                    Some(c) => Ok(c.clone()),
                    None => Err(AgentError::NoUsableReply),
                }
            }
        },
    }
}

} // verus!
