//! One call to the LLM, from the request to what comes of it. The request is posted around
//! this module; what to post next, and what the call comes to, is decided here.
//!
//! Backends reject or silently mangle `response_format`: a structured request that fails,
//! or whose answer cannot be read, is posted once more without it.

use vstd::prelude::*;
use crate::interpret::{
    interpretation_of_content, parse_interpretation, parse_proposal, proposal_of_content,
    LlmInterpretation, LlmInterpretationView, LlmProposal, LlmProposalView,
};
use crate::json::{json_read, json_written, parse_json, Json, JsonView};
use crate::llm::{
    backend_error, catalog_models, content_of, content_of_body, front, models_result, parse_models,
    parse_refinement, plain_body, refinement_of_content, retry_body, retry_failed, unreadable,
    usage_from, usage_in, Refinement, RefinementView,
};
use crate::settings::{LlmProbeResult, LlmProbeResultView};
use crate::text::trimmed;

verus! {

/// What a call is for.
#[derive(Debug, Clone, Copy, PartialEq, Eq, Structural)]
pub enum Purpose {
    Refine,
    Interpret,
    Revise,
}

/// The name under which a call is logged.
pub open spec fn kind_name(purpose: Purpose) -> Seq<char> {
    match purpose {
        Purpose::Refine => "refine"@,
        Purpose::Interpret => "interpret"@,
        Purpose::Revise => "revise"@,
    }
}

/// The name under which a call is logged.
pub fn kind_of(purpose: Purpose) -> (r: &'static str)
    ensures
        r@ == kind_name(purpose),
{
    match purpose {
        Purpose::Refine => "refine",
        Purpose::Interpret => "interpret",
        Purpose::Revise => "revise",
    }
}

/// An answer that could be read.
#[derive(Debug, PartialEq)]
pub enum Answer {
    Refinement(Refinement),
    Interpretation(LlmInterpretation),
    Proposal(LlmProposal),
}

/// What `Answer` holds.
#[verifier::ext_equal]
pub enum AnswerView {
    Refinement(RefinementView),
    Interpretation(LlmInterpretationView),
    Proposal(LlmProposalView),
}

impl DeepView for Answer {
    type V = AnswerView;

    open spec fn deep_view(&self) -> AnswerView {
        match self {
            Answer::Refinement(r) => AnswerView::Refinement(r.deep_view()),
            Answer::Interpretation(i) => AnswerView::Interpretation(i.deep_view()),
            Answer::Proposal(p) => AnswerView::Proposal(p.deep_view()),
        }
    }
}

/// What posting a request brought.
#[derive(Debug, PartialEq)]
pub enum Posted {
    /// No response came.
    Failed(String),
    /// A response came: its status in words, whether that is a success, and the body.
    Answered { status: String, success: bool, body: String },
}

/// What `Posted` holds.
#[verifier::ext_equal]
pub enum PostedView {
    Failed(Seq<char>),
    Answered { status: Seq<char>, success: bool, body: Seq<char> },
}

impl DeepView for Posted {
    type V = PostedView;

    open spec fn deep_view(&self) -> PostedView {
        match self {
            Posted::Failed(e) => PostedView::Failed(e@),
            Posted::Answered { status, success, body } => PostedView::Answered {
                status: status@,
                success: *success,
                body: body@,
            },
        }
    }
}

/// The body of a response that is a success, or what went wrong: with another status, the
/// status and the front of the backend's own message.
pub open spec fn accepted(posted: PostedView) -> Result<Seq<char>, Seq<char>> {
    match posted {
        PostedView::Failed(e) => Err(e),
        PostedView::Answered { status, success, body } => if success {
            Ok(body)
        } else {
            Err(status + ": "@ + trimmed(front(body, 300)))
        },
    }
}

/// The body of a response that is a success, or what went wrong.
pub fn accept(posted: Posted) -> (r: Result<String, String>)
    ensures
        crate::llm::text_result(r) == accepted(posted.deep_view()),
{
    match posted {
        Posted::Failed(e) => Err(e),
        Posted::Answered { status, success, body } => {
            if success {
                Ok(body)
            } else {
                Err(backend_error(status.as_str(), body.as_str()))
            }
        },
    }
}

/// What one attempt brought.
#[derive(Debug, PartialEq)]
pub enum Attempt {
    /// The backend said nothing that could be taken for an answer.
    Refused(String),
    /// The assistant's text is no answer to what was asked.
    Unreadable { error: String, content: String },
    Read(Answer),
}

/// What `Attempt` holds.
#[verifier::ext_equal]
pub enum AttemptView {
    Refused(Seq<char>),
    Unreadable { error: Seq<char>, content: Seq<char> },
    Read(AnswerView),
}

impl DeepView for Attempt {
    type V = AttemptView;

    open spec fn deep_view(&self) -> AttemptView {
        match self {
            Attempt::Refused(e) => AttemptView::Refused(e@),
            Attempt::Unreadable { error, content } => AttemptView::Unreadable {
                error: error@,
                content: content@,
            },
            Attempt::Read(a) => AttemptView::Read(a.deep_view()),
        }
    }
}

/// What the assistant's text answers, or what is wrong with it.
pub open spec fn answer_in(purpose: Purpose, content: Seq<char>) -> Result<AnswerView, Seq<char>> {
    match purpose {
        Purpose::Refine => match refinement_of_content(content) {
            Ok(r) => Ok(AnswerView::Refinement(r)),
            Err(e) => Err(e),
        },
        Purpose::Interpret => match interpretation_of_content(content) {
            Ok(i) => Ok(AnswerView::Interpretation(i)),
            Err(e) => Err(e),
        },
        Purpose::Revise => match proposal_of_content(content) {
            Ok(p) => Ok(AnswerView::Proposal(p)),
            Err(e) => Err(e),
        },
    }
}

/// What an attempt brought.
pub open spec fn attempt_of(purpose: Purpose, posted: PostedView) -> AttemptView {
    match accepted(posted) {
        Err(e) => AttemptView::Refused(e),
        Ok(body) => match content_of_body(body) {
            Err(e) => AttemptView::Refused(e),
            Ok(content) => match answer_in(purpose, content) {
                Ok(answer) => AttemptView::Read(answer),
                Err(error) => AttemptView::Unreadable { error, content },
            },
        },
    }
}

/// The tokens that a call used so far: what the last response that says so says.
pub open spec fn tokens_after(before: Option<(i64, i64)>, posted: PostedView) -> Option<(i64, i64)> {
    match accepted(posted) {
        Err(_) => before,
        Ok(body) => match json_read(body) {
            Err(_) => before,
            Ok(v) => match usage_in(v) {
                Some(used) => Some(used),
                None => before,
            },
        },
    }
}

fn answer_from(purpose: Purpose, content: &str) -> (r: Result<Answer, String>)
    ensures
        answer_result(r) == answer_in(purpose, content@),
{
    match purpose {
        Purpose::Refine => match parse_refinement(content) {
            Ok(v) => Ok(Answer::Refinement(v)),
            Err(e) => Err(e),
        },
        Purpose::Interpret => match parse_interpretation(content) {
            Ok(v) => Ok(Answer::Interpretation(v)),
            Err(e) => Err(e),
        },
        Purpose::Revise => match parse_proposal(content) {
            Ok(v) => Ok(Answer::Proposal(v)),
            Err(e) => Err(e),
        },
    }
}

/// What the result of a call holds.
pub open spec fn answer_result(r: Result<Answer, String>) -> Result<AnswerView, Seq<char>> {
    match r {
        Ok(a) => Ok(a.deep_view()),
        Err(e) => Err(e@),
    }
}

/// A call under way: the request to post, the error of the attempt before, where there was
/// one, and the tokens used so far.
#[derive(Debug, PartialEq)]
pub struct Chat {
    pub purpose: Purpose,
    pub body: Json,
    pub first: Option<String>,
    pub usage: Option<(i64, i64)>,
}

/// What `Chat` holds.
#[verifier::ext_equal]
pub struct ChatView {
    pub purpose: Purpose,
    pub body: JsonView,
    pub first: Option<Seq<char>>,
    pub usage: Option<(i64, i64)>,
}

impl DeepView for Chat {
    type V = ChatView;

    open spec fn deep_view(&self) -> ChatView {
        ChatView {
            purpose: self.purpose,
            body: self.body.deep_view(),
            first: self.first.deep_view(),
            usage: self.usage,
        }
    }
}

/// What follows an attempt.
#[derive(Debug, PartialEq)]
pub enum Turn {
    /// The request is to be posted once more.
    Again(Chat),
    /// The call is over.
    Over { result: Result<Answer, String>, usage: Option<(i64, i64)> },
}

/// What `Turn` holds.
#[verifier::ext_equal]
pub enum TurnView {
    Again(ChatView),
    Over { result: Result<AnswerView, Seq<char>>, usage: Option<(i64, i64)> },
}

impl DeepView for Turn {
    type V = TurnView;

    open spec fn deep_view(&self) -> TurnView {
        match self {
            Turn::Again(chat) => TurnView::Again(chat.deep_view()),
            Turn::Over { result, usage } => TurnView::Over {
                result: answer_result(*result),
                usage: *usage,
            },
        }
    }
}

/// What follows an attempt: an answer ends the call; a first failure is retried without
/// the response format, where the request had one; any other ends the call.
pub open spec fn turned(chat: ChatView, attempt: AttemptView) -> TurnView {
    match (chat.first, attempt) {
        (_, AttemptView::Read(answer)) => TurnView::Over { result: Ok(answer), usage: chat.usage },
        (None, AttemptView::Refused(e)) => retried(chat, e),
        (None, AttemptView::Unreadable { error, content }) => retried(
            chat,
            error + " (content: "@ + front(content, 120) + ")"@,
        ),
        (Some(first), AttemptView::Refused(e)) => TurnView::Over {
            result: Err(first + "; plain retry: "@ + e),
            usage: chat.usage,
        },
        (Some(first), AttemptView::Unreadable { error, content }) => TurnView::Over {
            result: Err(first + "; plain retry: "@ + error),
            usage: chat.usage,
        },
    }
}

/// What follows a first attempt that failed.
pub open spec fn retried(chat: ChatView, error: Seq<char>) -> TurnView {
    match plain_body(chat.body) {
        Some(body) => TurnView::Again(ChatView { body, first: Some(error), ..chat }),
        None => TurnView::Over { result: Err(error), usage: chat.usage },
    }
}

impl Chat {
    /// A call with nothing posted yet.
    pub fn new(purpose: Purpose, body: Json) -> (r: Chat)
        ensures
            r.deep_view() == (ChatView {
                purpose,
                body: body.deep_view(),
                first: None,
                usage: None,
            }),
    {
        Chat { purpose, body, first: None, usage: None }
    }

    /// The text of the request to post.
    pub fn request(&self) -> (r: String)
        ensures
            r@ == json_written(self.deep_view().body),
    {
        self.body.to_text()
    }

    /// What follows the response to the request.
    pub fn reply(self, posted: Posted) -> (r: Turn)
        ensures
            r.deep_view() == turned(
                ChatView {
                    usage: tokens_after(self.usage, posted.deep_view()),
                    ..self.deep_view()
                },
                attempt_of(self.purpose, posted.deep_view()),
            ),
    {
        let Chat { purpose, body: asked, first, usage } = self;
        match accept(posted) {
            Err(e) => (Chat { purpose, body: asked, first, usage }).settle(Attempt::Refused(e)),
            Ok(body) => {
                let used = match parse_json(body.as_str()) {
                    Ok(v) => usage_from(&v),
                    Err(_) => None,
                };
                let usage = match used {
                    Some(u) => Some(u),
                    None => usage,
                };
                let chat = Chat { purpose, body: asked, first, usage };
                match content_of(body.as_str()) {
                    Err(e) => chat.settle(Attempt::Refused(e)),
                    Ok(content) => match answer_from(purpose, content.as_str()) {
                        Ok(answer) => chat.settle(Attempt::Read(answer)),
                        Err(error) => chat.settle(Attempt::Unreadable { error, content }),
                    },
                }
            },
        }
    }

    /// What follows an attempt.
    pub fn settle(self, attempt: Attempt) -> (r: Turn)
        ensures
            r.deep_view() == turned(self.deep_view(), attempt.deep_view()),
    {
        let Chat { purpose, body, first, usage } = self;
        let (said, error) = match attempt {
            Attempt::Read(answer) => {
                return Turn::Over { result: Ok(answer), usage };
            },
            Attempt::Refused(e) => (None, e),
            Attempt::Unreadable { error, content } => (Some(content), error),
        };
        match first {
            Some(first) => Turn::Over {
                result: Err(retry_failed(first.as_str(), error.as_str())),
                usage,
            },
            None => {
                let error = match said {
                    Some(content) => unreadable(error.as_str(), content.as_str()),
                    None => error,
                };
                match retry_body(body) {
                    Some(body) => Turn::Again(Chat { purpose, body, first: Some(error), usage }),
                    None => Turn::Over { result: Err(error), usage },
                }
            },
        }
    }
}

/// The models that a backend's catalog lists, or what went wrong. `url` is where it was
/// asked for.
pub fn models_answer(posted: Posted, url: &str) -> (r: Result<Vec<String>, String>)
    ensures
        models_result(r) == match accepted(posted.deep_view()) {
            Ok(body) => catalog_models(json_read(body), url@),
            Err(e) => Err(e),
        },
{
    match accept(posted) {
        Ok(body) => parse_models(body.as_str(), url),
        Err(e) => Err(e),
    }
}

/// What a tiny completion says of an endpoint: it works, or the backend's own message.
pub open spec fn probe_result(posted: PostedView) -> LlmProbeResultView {
    match accepted(posted) {
        Err(e) => LlmProbeResultView { ok: false, error: Some(e) },
        Ok(body) => match content_of_body(body) {
            Ok(_) => LlmProbeResultView { ok: true, error: None },
            Err(e) => LlmProbeResultView { ok: false, error: Some(e) },
        },
    }
}

/// What a tiny completion says of an endpoint.
pub fn probe_answer(posted: Posted) -> (r: LlmProbeResult)
    ensures
        r.deep_view() == probe_result(posted.deep_view()),
{
    match accept(posted) {
        Err(e) => LlmProbeResult { ok: false, error: Some(e) },
        Ok(body) => match content_of(body.as_str()) {
            Ok(_) => LlmProbeResult { ok: true, error: None },
            Err(e) => LlmProbeResult { ok: false, error: Some(e) },
        },
    }
}

/// A call posts at most two requests: only the first failure leads to another, and the
/// second request is the first without its response format.
pub proof fn a_call_is_retried_once(chat: ChatView, attempt: AttemptView, then: AttemptView)
    ensures
        turned(chat, attempt) matches TurnView::Again(next) ==> {
            &&& chat.first is None
            &&& plain_body(chat.body) == Some(next.body)
            &&& next.purpose == chat.purpose
            &&& turned(next, then) is Over
        },
{
}

/// A call gives an answer exactly where an attempt brought one, and then that one.
pub proof fn answers_are_handed_on(chat: ChatView, attempt: AttemptView)
    ensures
        attempt matches AttemptView::Read(answer) ==> turned(chat, attempt) == (TurnView::Over {
            result: Ok(answer),
            usage: chat.usage,
        }),
        attempt !is Read ==> (turned(chat, attempt) matches TurnView::Over { result, .. }
            ==> result is Err),
{
}

/// Calls are logged by what they are for.
pub proof fn calls_are_logged_by_purpose()
    ensures
        kind_name(Purpose::Refine) == "refine"@,
        kind_name(Purpose::Interpret) == "interpret"@,
        kind_name(Purpose::Revise) == "revise"@,
{
}

/// A success hands its body on; a failure says why, an error status with the first three
/// hundred characters of what the backend said.
pub proof fn responses_are_bodies_or_faults(
    status: Seq<char>,
    body: Seq<char>,
    message: Seq<char>,
)
    ensures
        accepted(PostedView::Failed(message)) == Err::<Seq<char>, Seq<char>>(message),
        accepted(PostedView::Answered { status, success: true, body }) == Ok::<
            Seq<char>,
            Seq<char>,
        >(body),
        body.len() <= 300 ==> accepted(PostedView::Answered { status, success: false, body })
            == Err::<Seq<char>, Seq<char>>(status + ": "@ + trimmed(body)),
        body.len() > 300 ==> accepted(PostedView::Answered { status, success: false, body })
            == Err::<Seq<char>, Seq<char>>(status + ": "@ + trimmed(body.take(300))),
{
}

/// An attempt is read for what it was for; one that brought no text is refused, and one
/// whose text cannot be read keeps it.
pub proof fn attempts_are_read_for_their_purpose(posted: PostedView, purpose: Purpose)
    ensures
        accepted(posted) matches Err(e) ==> attempt_of(purpose, posted) == AttemptView::Refused(e),
        accepted(posted) matches Ok(body) ==> match content_of_body(body) {
            Err(e) => attempt_of(purpose, posted) == AttemptView::Refused(e),
            Ok(content) => {
                &&& purpose == Purpose::Refine ==> match refinement_of_content(content) {
                    Ok(r) => attempt_of(purpose, posted) == AttemptView::Read(
                        AnswerView::Refinement(r),
                    ),
                    Err(error) => attempt_of(purpose, posted) == (AttemptView::Unreadable {
                        error,
                        content,
                    }),
                }
                &&& purpose == Purpose::Interpret ==> match interpretation_of_content(content) {
                    Ok(i) => attempt_of(purpose, posted) == AttemptView::Read(
                        AnswerView::Interpretation(i),
                    ),
                    Err(error) => attempt_of(purpose, posted) == (AttemptView::Unreadable {
                        error,
                        content,
                    }),
                }
                &&& purpose == Purpose::Revise ==> match proposal_of_content(content) {
                    Ok(p) => attempt_of(purpose, posted) == AttemptView::Read(
                        AnswerView::Proposal(p),
                    ),
                    Err(error) => attempt_of(purpose, posted) == (AttemptView::Unreadable {
                        error,
                        content,
                    }),
                }
            },
        },
{
}

/// What a call used is what its last response that states it states.
pub proof fn the_last_usage_counts(before: Option<(i64, i64)>, posted: PostedView)
    ensures
        tokens_after(before, posted) == match accepted(posted) {
            Ok(body) => match json_read(body) {
                Ok(v) => if usage_in(v) is Some {
                    usage_in(v)
                } else {
                    before
                },
                Err(_) => before,
            },
            Err(_) => before,
        },
{
}

/// A first attempt that fails is made again with the plain body, and its fault is kept; one
/// that has no plain body ends the call with its fault. A second that fails ends the call
/// with both faults.
pub proof fn failed_attempts_keep_their_faults(
    chat: ChatView,
    e: Seq<char>,
    content: Seq<char>,
)
    ensures
        chat.first is None ==> match plain_body(chat.body) {
            Some(body) => {
                &&& turned(chat, AttemptView::Refused(e)) == TurnView::Again(
                    ChatView { body, first: Some(e), ..chat },
                )
                &&& turned(chat, AttemptView::Unreadable { error: e, content }) == TurnView::Again(
                    ChatView {
                        body,
                        first: Some(e + " (content: "@ + front(content, 120) + ")"@),
                        ..chat
                    },
                )
            },
            None => {
                &&& turned(chat, AttemptView::Refused(e)) == (TurnView::Over {
                    result: Err(e),
                    usage: chat.usage,
                })
                &&& turned(chat, AttemptView::Unreadable { error: e, content }) == (
                TurnView::Over {
                    result: Err(e + " (content: "@ + front(content, 120) + ")"@),
                    usage: chat.usage,
                })
            },
        },
        chat.first matches Some(first) ==> {
            &&& turned(chat, AttemptView::Refused(e)) == (TurnView::Over {
                result: Err(first + "; plain retry: "@ + e),
                usage: chat.usage,
            })
            &&& turned(chat, AttemptView::Unreadable { error: e, content }) == (TurnView::Over {
                result: Err(first + "; plain retry: "@ + e),
                usage: chat.usage,
            })
        },
{
}

/// A probe succeeds exactly where its response is a success that holds a text; else it says
/// why it failed.
pub proof fn probes_say_what_failed(posted: PostedView)
    ensures
        probe_result(posted).ok == (accepted(posted) is Ok && content_of_body(accepted(posted)->Ok_0)
            is Ok),
        probe_result(posted).ok == (probe_result(posted).error is None),
        accepted(posted) matches Err(e) ==> probe_result(posted).error == Some(e),
        accepted(posted) matches Ok(body) ==> (content_of_body(body) matches Err(e)
            ==> probe_result(posted).error == Some(e)),
{
}

} // verus!
