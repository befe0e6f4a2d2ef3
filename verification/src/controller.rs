//! The endpoint logic, after the credential guard: start a session, fetch or clear a
//! transcript, and the two halves of an exchange with the completion
//! provider. The provider invocation itself is an outside collaborator;
//! an exchange therefore splits into building the request from the
//! persisted transcript and judging the outcome that came back.

use vstd::prelude::*;

use jwt_simple::algorithms::HS256Key;

use crate::agent::{
    agent_error_message, agent_error_of, build_request, first_reply_content, request_messages,
    usable_reply, ProviderOutcome, ProviderRequest, MAX_REPLY_TOKENS,
};
use crate::auth::{gen_jwt, token_subject, JwtClaim, MAX_JWT_EXPIRE_DAYS};
use crate::message::{assistant_msg, msg_views, user_msg, ChatMessage};
use crate::protocol::AppResp;
use crate::store::{appended, cleared, msgs_of, transcript_of, TranscriptStore};

verus! {

/// The body of an exchange request: one user message.
#[derive(Debug)]
pub struct AskAgentReq {
    pub message: String,
}

/// The echo body of the authentication probe.
#[derive(Debug)]
pub struct TestBody {
    pub id: usize,
    pub message: String,
}

/// Relies on uuid's `new_v4`: a freshly minted random session identifier,
/// different on every call, so nothing is stated about its text.
#[verifier::external_body]
fn new_session_id() -> (r: String) {
    uuid::Uuid::new_v4().to_string()
}

/// Starts a session: mints a fresh subject and returns, in the success
/// envelope, a credential that embeds it, valid for `jwt_expire_days`
/// days. Issuance always succeeds; which subject is minted is random and
/// the token's remaining text is the signing library's clock-dependent
/// outcome, so neither is pinned further.
pub fn init_session(key: &HS256Key, jwt_expire_days: u64) -> (r: AppResp<String>)
    requires
        jwt_expire_days <= MAX_JWT_EXPIRE_DAYS,
    ensures
        r matches AppResp::Success(t) && token_subject(t@) is Some,
{
    let uuid = new_session_id();
    let claim = JwtClaim { uuid };
    match gen_jwt(key, &claim, jwt_expire_days) {
        Some(token) => AppResp::Success(token),
        None => unreached(),
    }
}

/// Returns the subject's transcript, oldest turn first.
pub fn fetch_history(store: &TranscriptStore, uuid: &str) -> (r: AppResp<Vec<ChatMessage>>)
    ensures
        r matches AppResp::Success(v) && msg_views(v@) == msgs_of(transcript_of(store@, uuid@)),
{
    AppResp::Success(store.load(uuid))
}

/// Deletes the subject's transcript and returns the empty success.
pub fn clear_history(store: &mut TranscriptStore, uuid: &str) -> (r: AppResp<()>)
    requires
        old(store).wf(),
    ensures
        final(store)@ == cleared(old(store)@, uuid@),
        final(store).wf(),
        r is Success,
{
    store.clear(uuid);
    AppResp::Success(())
}

/// The first half of an exchange: persists the user's message as a user
/// turn, then builds the provider request from the transcript — which now
/// includes that turn — under the fixed system directive and reply cap.
pub fn ask_agent_begin(
    store: &mut TranscriptStore,
    uuid: &str,
    message: &str,
    now: u64,
    sys_prompt: &str,
    model: &str,
) -> (r: ProviderRequest)
    requires
        old(store).wf(),
    ensures
        final(store)@ == appended(old(store)@, user_msg(uuid@, message@), now as int),
        final(store).wf(),
        r@.model == model@,
        r@.max_tokens == MAX_REPLY_TOKENS,
        r@.messages == request_messages(sys_prompt@, msgs_of(transcript_of(final(store)@, uuid@))),
{
    let query_message = ChatMessage::create_user(uuid, message);
    proof {
        assert(query_message@ =~= user_msg(uuid@, message@));
    }
    query_message.persist(store, now);
    let history = ChatMessage::load_all(store, uuid);
    build_request(sys_prompt, model, &history)
}

/// The second half of an exchange: judges the provider's outcome. A
/// usable reply is persisted as an assistant turn and answered with the
/// empty success; anything else persists nothing and becomes the failure
/// envelope, whose message names the failure class only — the provider's
/// own error text stays server-side.
pub fn ask_agent_finish(
    store: &mut TranscriptStore,
    uuid: &str,
    outcome: &ProviderOutcome,
    now: u64,
) -> (r: AppResp<()>)
    requires
        old(store).wf(),
    ensures
        final(store).wf(),
        usable_reply(*outcome) matches Some(c) ==> (final(store)@ == appended(
            old(store)@,
            assistant_msg(uuid@, c),
            now as int,
        ) && r is Success),
        usable_reply(*outcome) is None ==> (final(store)@ == old(store)@ && (r matches
            AppResp::Exception(m) && m@ == agent_error_message(agent_error_of(*outcome)))),
{
    match first_reply_content(outcome) {
        Ok(content) => {
            let reply_message = ChatMessage::create_assistant(uuid, content.as_str());
            proof {
                assert(reply_message@ =~= assistant_msg(
                    uuid@,
                    usable_reply(*outcome).unwrap(),
                ));
            }
            reply_message.persist(store, now);
            AppResp::Success(())
        },
        Err(e) => AppResp::Exception(e.message()),
    }
}

/// Echoes the authenticated probe body back in a success envelope.
pub fn test_auth(body: TestBody) -> (r: AppResp<TestBody>)
    ensures
        r matches AppResp::Success(b) && b.id == body.id && b.message@ == body.message@,
{
    AppResp::Success(body)
}

} // verus!
