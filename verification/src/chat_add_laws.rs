//! What the creation of a message comes to: which texts may be sent, what a retry
//! leads to, and which ends are kept.

use crate::chat_add::{
    begun_chat_add, chat_disposition, chat_route, chat_stepped, message_is, message_text_error,
    output_error, replay_gives, CandidateV, ChatAddOutcome, ChatAddProgress, ChatBeginAction,
    ChatMessage, ChatMessageTextError, ChatRoute, ChatStateV, ChatStep, MessageDetail,
    MAX_MESSAGE_TEXT_CHARS, MESSAGE_RESULT_BYTES,
};
use crate::attempts::running;
use crate::error::ToolError;
use crate::rich_flow::BeginOutcome;
use crate::text::{is_control, is_white_space};
use vstd::prelude::*;

verus! {

/// A text may be sent exactly where it has at least one and at most the largest
/// number of characters, one of them not white space, and no control character but
/// tab and newline. Of several faults the length is named first, then white space.
pub proof fn sendable_texts(text: Seq<char>)
    ensures
        ({
            let fits = 1 <= text.len() <= MAX_MESSAGE_TEXT_CHARS;
            let shown = exists|i: int| 0 <= i < text.len() && !is_white_space(#[trigger] text[i]);
            let plain = forall|i: int|
                0 <= i < text.len() && is_control(#[trigger] text[i]) ==> text[i] == '\t'
                    || text[i] == '\n';
            &&& message_text_error(text) is None <==> fits && shown && plain
            &&& message_text_error(text) == Some(ChatMessageTextError::Length) <==> !fits
            &&& message_text_error(text) == Some(ChatMessageTextError::WhitespaceOnly) <==> fits
                && !shown
            &&& message_text_error(text) == Some(ChatMessageTextError::Control) <==> fits && shown
                && !plain
        }),
{
}

/// A call runs exactly where it names the tool and writes are allowed. Another name
/// is not found, whether or not writes are allowed.
pub proof fn only_the_named_tool_runs(name: Seq<char>, tool: Seq<char>, read_only: bool)
    ensures
        chat_route(name, tool, read_only) is Run <==> name == tool && !read_only,
        chat_route(name, tool, read_only) is MethodNotFound <==> name != tool,
        chat_route(name, tool, read_only) matches ChatRoute::Refuse(error) ==> error
            == ToolError::Validation,
{
}

/// A message is created exactly where its key is new. A key whose creation is
/// running waits for it. A completed key reads the message again where it was
/// assigned, and otherwise gives the kept result. Every other key fails, each with
/// its own failure.
pub proof fn begun_creation_is_answered_once(outcome: BeginOutcome, retained: bool)
    ensures
        begun_chat_add(outcome, retained) is Lead <==> outcome is Lead,
        begun_chat_add(outcome, retained) is WaitReused <==> outcome is Wait,
        begun_chat_add(outcome, retained) is Replay <==> outcome is Cached && retained,
        begun_chat_add(outcome, retained) is Cached <==> outcome is Cached && !retained,
        begun_chat_add(outcome, retained) == ChatBeginAction::Fail(
            ToolError::MutationIndeterminate,
        ) <==> outcome is Indeterminate,
        begun_chat_add(outcome, retained) == ChatBeginAction::Fail(ToolError::Conflict)
            <==> outcome is Conflict,
        begun_chat_add(outcome, retained) == ChatBeginAction::Fail(ToolError::BoundedResult)
            <==> outcome is Full,
        begun_chat_add(outcome, retained) == ChatBeginAction::Fail(ToolError::Upstream)
            <==> outcome is Expired,
{
}

/// A read message is the sent one exactly where it has its identifier, its text
/// and its reply target, as a plain paragraph without marks and attachments.
pub proof fn sent_message_reads_back(
    message: ChatMessage,
    id: Seq<char>,
    text: Seq<char>,
    reply: Option<Seq<char>>,
)
    ensures
        message_is(message, id, text, reply) <==> {
            &&& message.id@ == id
            &&& message.text@ == text
            &&& message.style is Paragraph
            &&& message.marks == 0 && message.attachments == 0
            &&& reply is None <==> message.reply_to_message_id is None
            &&& message.reply_to_message_id matches Some(found) ==> reply == Some(found@)
        },
{
}

/// A message is put out exactly where it could be shown under its identifier, in
/// bounds. A failure to show it is passed on.
pub proof fn message_is_put_out_in_bounds(
    id: Seq<char>,
    detail: Result<MessageDetail, ToolError>,
    encoded: int,
)
    ensures
        output_error(id, detail, encoded) is None <==> (detail matches Ok(shown)
            && shown.message_id@ == id && shown.text@.len() <= MAX_MESSAGE_TEXT_CHARS && encoded
            <= MESSAGE_RESULT_BYTES),
        detail matches Err(error) ==> output_error(id, detail, encoded) == Some(error),
        detail matches Ok(shown) ==> (output_error(id, detail, encoded) == Some(
            ToolError::Upstream,
        ) <==> shown.message_id@ != id),
        detail matches Ok(shown) ==> (output_error(id, detail, encoded) == Some(
            ToolError::BoundedResult,
        ) <==> shown.message_id@ == id && (shown.text@.len() > MAX_MESSAGE_TEXT_CHARS || encoded
            > MESSAGE_RESULT_BYTES)),
{
}

/// A creation is kept as verified where it succeeded, or where an identifier was
/// assigned and the service did not definitively reject it. A definitive rejection
/// without success is final. Without either, it may be tried again exactly where
/// nothing was sent, and is otherwise uncertain.
pub proof fn ends_are_kept_by_what_was_sent(progress: ChatAddProgress)
    ensures
        chat_disposition(progress) is Verified <==> progress.succeeded || (
        progress.candidate_retained && !progress.definitively_rejected),
        chat_disposition(progress) is Terminal <==> !progress.succeeded
            && progress.definitively_rejected,
        chat_disposition(progress) is PreDispatchFailure <==> !progress.succeeded
            && !progress.definitively_rejected && !progress.candidate_retained
            && progress.stage is PreDispatch,
        chat_disposition(progress) is Indeterminate <==> !progress.succeeded
            && !progress.definitively_rejected && !progress.candidate_retained && !(
        progress.stage is PreDispatch),
{
}

/// A retry that reads the assigned message again gives the message where it is
/// still that one and can be shown in bounds, always as reused, and otherwise fails.
pub proof fn replay_gives_the_assigned_message(
    outcome: ChatAddOutcome,
    candidate: CandidateV,
    message: Result<ChatMessage, Option<ToolError>>,
    detail: Result<MessageDetail, ToolError>,
    encoded: int,
)
    requires
        replay_gives(outcome, candidate, message, detail, encoded),
    ensures
        outcome is Ok <==> (message matches Ok(found) && found.id@ == candidate.message_id && (
        detail matches Ok(shown) && shown.message_id@ == candidate.message_id
            && shown.text@.len() <= MAX_MESSAGE_TEXT_CHARS && encoded <= MESSAGE_RESULT_BYTES)),
        outcome matches Ok(output) ==> {
            &&& output.space_id@ == candidate.space_id
            &&& output.chat_id@ == candidate.chat_id
            &&& output.message.message_id@ == candidate.message_id
            &&& detail matches Ok(shown) && output.message == shown
            &&& output.idempotency.key_reused
        },
        message matches Err(Some(error)) ==> (outcome matches Err(given) && given == error),
        message matches Err(None) ==> (outcome matches Err(given) && given == ToolError::Upstream),
        message matches Ok(found) && found.id@ != candidate.message_id ==> (outcome matches Err(
            given,
        ) && given == ToolError::Upstream),
{
}

/// An assigned message is kept under its key, and only while that key is running.
/// No step forgets an assigned message, changes one of another key, or touches the
/// attempts when it keeps one.
pub proof fn assigned_messages_are_kept(state: ChatStateV, step: ChatStep, key: Seq<char>)
    ensures
        state.created.contains_key(key) ==> chat_stepped(state, step).created.contains_key(key),
        !(step is Retain) ==> chat_stepped(state, step).created == state.created,
        step matches ChatStep::Retain { key: kept, candidate } ==> {
            let next = chat_stepped(state, step);
            &&& next.attempts == state.attempts
            &&& running(state.attempts, kept) ==> next.created.contains_key(kept)
                && next.created[kept] == candidate
            &&& !running(state.attempts, kept) ==> next == state
            &&& key != kept && state.created.contains_key(key) ==> next.created[key]
                == state.created[key]
            &&& key != kept && next.created.contains_key(key) ==> state.created.contains_key(key)
        },
{
}

} // verus!
