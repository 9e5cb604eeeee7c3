//! Verified creation of a plain chat message, at most once per key and process.

use crate::attempts::{
    begun, begun_store, cached_result, finished_store, running, IdempotencyStore, StoreV,
    DEFAULT_IDEMPOTENCY_CAPACITY,
};
use crate::catalog::{
    tool_is, workflow_tool, OptionalRegistryTool, SchemaContractError, ToolProfile, WorkflowTool,
};
use crate::domain::{valid_entity_id, EntityId, IdempotencyKey};
use crate::encoding::{enc_opt_text, enc_text, opt_text_cut, opt_text_fits, text_cut, text_fits, CanonicalHasher};
use crate::error::ToolError;
use crate::frames::ensure_success_bytes;
use crate::outside::sha256;
use crate::rich_flow::{service_failure, BeginOutcome, CreateDisposition, MutationStage};
use crate::text::{
    blank, is_blank, is_control, opt_view, same_text, within_chars, Same,
};
use vstd::prelude::*;

verus! {

/// Name of the creation tool.
pub const CHAT_MESSAGE_ADD: &'static str = "chat_message_add";

/// Logical requests of an addition without a reply.
pub const CHAT_ADD_STABLE_LOGICAL_CEILING: usize = 2;

/// Physical requests of an addition without a reply.
pub const CHAT_ADD_STABLE_PHYSICAL_CEILING: usize = 7;

/// Logical requests of an addition with a reply.
pub const CHAT_ADD_REPLY_STABLE_LOGICAL_CEILING: usize = 3;

/// Physical requests of an addition with a reply.
pub const CHAT_ADD_REPLY_STABLE_PHYSICAL_CEILING: usize = 13;

/// Longest message in characters.
pub const MAX_MESSAGE_TEXT_CHARS: usize = 8_192;

/// Largest encoded result in bytes.
pub const MESSAGE_RESULT_BYTES: usize = 49_152;

/// Domain of the fingerprint.
pub const CHAT_ADD_FINGERPRINT_DOMAIN: &'static str = "any-mcp/chat-message-add/v1";

/// Why a text is no message.
#[derive(Clone, Copy, Debug, PartialEq, Eq, Structural)]
pub enum ChatMessageTextError {
    /// Empty or too long.
    Length,
    /// Nothing but white space.
    WhitespaceOnly,
    /// A control character other than tab and newline.
    Control,
}

impl ChatMessageTextError {
    /// Fixed message of the failure.
    pub fn message(&self) -> (r: &'static str)
        ensures
            r@ == (match *self {
                ChatMessageTextError::Length =>
                    "message text length is outside the supported range"@,
                ChatMessageTextError::WhitespaceOnly =>
                    "message text must contain non-whitespace content"@,
                ChatMessageTextError::Control =>
                    "message text contains an unsupported control character"@,
            }),
    {
        match self {
            ChatMessageTextError::Length => "message text length is outside the supported range",
            ChatMessageTextError::WhitespaceOnly =>
                "message text must contain non-whitespace content",
            ChatMessageTextError::Control =>
                "message text contains an unsupported control character",
        }
    }
}

/// A control character that no message may hold.
pub open spec fn forbidden_control(c: char) -> bool {
    is_control(c) && c != '\t' && c != '\n'
}

/// A text with a control character that no message may hold.
pub open spec fn has_forbidden_control(text: Seq<char>) -> bool {
    exists|i: int| 0 <= i < text.len() && forbidden_control(#[trigger] text[i])
}

/// Why a text is no message, if so; the first reason that applies.
pub open spec fn message_text_error(text: Seq<char>) -> Option<ChatMessageTextError> {
    if text.len() < 1 || text.len() > MAX_MESSAGE_TEXT_CHARS {
        Some(ChatMessageTextError::Length)
    } else if is_blank(text) {
        Some(ChatMessageTextError::WhitespaceOnly)
    } else if has_forbidden_control(text) {
        Some(ChatMessageTextError::Control)
    } else {
        None
    }
}

fn contains_forbidden_control(text: &str) -> (r: bool)
    ensures
        r == has_forbidden_control(text@),
{
    for c in it: text.chars()
        invariant
            it.seq() == text@,
            forall|k: int| 0 <= k < it.index() ==> !forbidden_control(#[trigger] text@[k]),
    {
        let code: u32 = c as u32;
        if (code < 0x20 || (0x7f <= code && code <= 0x9f)) && c != '\t' && c != '\n' {
            assert(forbidden_control(text@[it.index() as int]));
            return true;
        }
    }
    false
}

/// Text of a new message.
#[derive(Debug, PartialEq, Eq)]
pub struct ChatMessageText {
    value: String,
}

impl View for ChatMessageText {
    type V = Seq<char>;

    closed spec fn view(&self) -> Seq<char> {
        self.value@
    }
}

impl Clone for ChatMessageText {
    fn clone(&self) -> (r: Self)
        ensures
            r@ == self@,
    {
        proof {
            use_type_invariant(self);
        }
        ChatMessageText { value: self.value.clone() }
    }
}

impl ChatMessageText {
    #[verifier::type_invariant]
    spec fn inv(self) -> bool {
        message_text_error(self.value@) is None
    }

    /// Accepts a text as it is, without trimming it, or says why it is none.
    pub fn new(value: String) -> (r: Result<ChatMessageText, ChatMessageTextError>)
        ensures
            match r {
                Ok(text) => message_text_error(value@) is None && text@ == value@,
                Err(error) => message_text_error(value@) == Some(error),
            },
    {
        if !within_chars(value.as_str(), MAX_MESSAGE_TEXT_CHARS) {
            return Err(ChatMessageTextError::Length);
        }
        if blank(value.as_str()) {
            return Err(ChatMessageTextError::WhitespaceOnly);
        }
        if contains_forbidden_control(value.as_str()) {
            return Err(ChatMessageTextError::Control);
        }
        Ok(ChatMessageText { value })
    }

    /// Borrows the accepted text.
    pub fn as_str(&self) -> (r: &str)
        ensures
            r@ == self@,
            message_text_error(self@) is None,
    {
        proof {
            use_type_invariant(self);
        }
        self.value.as_str()
    }
}

/// Input of a message creation.
#[derive(Clone, Debug)]
pub struct ChatMessageAddInput {
    pub space: String,
    pub chat_id: EntityId,
    pub text: ChatMessageText,
    pub reply_to_message_id: Option<EntityId>,
    pub idempotency_key: IdempotencyKey,
}

/// The scope of a key is this process.
#[derive(Clone, Copy, Debug, PartialEq, Eq, Structural)]
pub struct ProcessScope;

impl ProcessScope {
    /// Name of the scope.
    pub fn as_str(self) -> (r: &'static str)
        ensures
            r@ == "process"@,
    {
        "process"
    }
}

/// Whether a key was used before.
#[derive(Clone, Debug, PartialEq, Eq)]
pub struct ChatAddIdempotency {
    pub key_reused: bool,
    pub scope: ProcessScope,
}

/// A message as it is shown.
#[derive(Clone, Debug, PartialEq, Eq)]
pub struct MessageDetail {
    pub message_id: EntityId,
    pub text: String,
    pub created_at: String,
    pub modified_at: String,
    pub reply_to_message_id: Option<EntityId>,
}

/// Output of a message creation.
#[derive(Clone, Debug, PartialEq, Eq)]
pub struct ChatMessageAddOutput {
    pub space_id: EntityId,
    pub chat_id: EntityId,
    pub message: MessageDetail,
    pub idempotency: ChatAddIdempotency,
}

/// Description of the creation tool.
pub open spec fn chat_add_description() -> Seq<char> {
    "Send one bounded plain paragraph chat message and verify its exact server-assigned ID. The required retry key prevents another POST for the same normalized request during this process; once Anytype assigns an ID, every retry performs only a fresh exact read."@
}

/// Contract of the creation tool.
pub fn chat_message_add_tool() -> (r: Result<WorkflowTool, SchemaContractError>)
    ensures
        r matches Ok(tool) && tool_is(
            tool,
            CHAT_MESSAGE_ADD@,
            chat_add_description(),
            ToolProfile::Create,
        ),
{
    Ok(
        workflow_tool(
            CHAT_MESSAGE_ADD,
            "Send one bounded plain paragraph chat message and verify its exact server-assigned ID. The required retry key prevents another POST for the same normalized request during this process; once Anytype assigns an ID, every retry performs only a fresh exact read.",
            ToolProfile::Create,
        ),
    )
}

/// The creation tool as a registry slice: it mutates.
pub fn chat_add_tools() -> (r: Result<Vec<OptionalRegistryTool>, SchemaContractError>)
    ensures
        r matches Ok(tools) && tools.len() == 1 && tools@[0].mutation && tool_is(
            tools@[0].tool,
            CHAT_MESSAGE_ADD@,
            chat_add_description(),
            ToolProfile::Create,
        ),
{
    match chat_message_add_tool() {
        Ok(tool) => {
            let mut tools: Vec<OptionalRegistryTool> = Vec::new();
            tools.push(OptionalRegistryTool::mutation(tool));
            Ok(tools)
        },
        Err(error) => Err(error),
    }
}

/// What a call of a chat tool leads to.
#[derive(Clone, Copy, Debug, PartialEq, Eq, Structural)]
pub enum ChatRoute {
    Run,
    Refuse(ToolError),
    MethodNotFound,
}

/// What a call leads to, for the one tool of a slice.
pub open spec fn chat_route(name: Seq<char>, tool: Seq<char>, read_only: bool) -> ChatRoute {
    if name != tool {
        ChatRoute::MethodNotFound
    } else if read_only {
        ChatRoute::Refuse(ToolError::Validation)
    } else {
        ChatRoute::Run
    }
}

/// Routes a call by its name. A read-only process refuses the mutation before
/// anything of the request is decoded.
pub fn route_chat_tool(name: &str, tool: &str, read_only: bool) -> (r: ChatRoute)
    ensures
        r == chat_route(name@, tool@, read_only),
{
    if !same_text(name, tool) {
        ChatRoute::MethodNotFound
    } else if read_only {
        ChatRoute::Refuse(ToolError::validation())
    } else {
        ChatRoute::Run
    }
}

/// A creation in a resolved space.
#[derive(Clone, Debug)]
pub struct NormalizedChatAdd {
    pub space_id: EntityId,
    pub chat_id: EntityId,
    pub text: ChatMessageText,
    pub reply_to_message_id: Option<EntityId>,
    pub idempotency_key: IdempotencyKey,
}

/// What a fingerprint is taken over: the resolved space, the chat, the text and
/// the reply, but not the key.
pub open spec fn enc_chat_add(
    space_id: Seq<char>,
    chat_id: Seq<char>,
    text: Seq<char>,
    reply: Option<Seq<char>>,
) -> Seq<u8> {
    enc_text(CHAT_ADD_FINGERPRINT_DOMAIN@) + (enc_text(space_id) + (enc_text(chat_id) + (enc_text(
        text,
    ) + enc_opt_text(reply))))
}

impl NormalizedChatAdd {
    /// A creation in a resolved space.
    pub fn new(space_id: EntityId, input: ChatMessageAddInput) -> (r: NormalizedChatAdd)
        ensures
            r.space_id == space_id,
            r.chat_id == input.chat_id,
            r.text == input.text,
            r.reply_to_message_id == input.reply_to_message_id,
            r.idempotency_key == input.idempotency_key,
    {
        NormalizedChatAdd {
            space_id,
            chat_id: input.chat_id,
            text: input.text,
            reply_to_message_id: input.reply_to_message_id,
            idempotency_key: input.idempotency_key,
        }
    }

    /// Digest of the encoded creation.
    pub open spec fn digest_of_request(&self) -> Seq<u8> {
        sha256(self.encoded_request())
    }

    /// Encoded creation.
    pub open spec fn encoded_request(&self) -> Seq<u8> {
        enc_chat_add(
            self.space_id@,
            self.chat_id@,
            self.text@,
            opt_view(self.reply_to_message_id),
        )
    }

    /// Every text has a length that eight bytes hold.
    pub open spec fn fits(&self) -> bool {
        &&& text_fits(self.space_id@)
        &&& text_fits(self.chat_id@)
        &&& text_fits(self.text@)
        &&& opt_text_fits(opt_view(self.reply_to_message_id))
    }

    /// Both ask for the same message: in space, chat, text and reply.
    pub open spec fn asks_for(&self, other: &NormalizedChatAdd) -> bool {
        &&& self.space_id@ == other.space_id@
        &&& self.chat_id@ == other.chat_id@
        &&& self.text@ == other.text@
        &&& opt_view(self.reply_to_message_id) == opt_view(other.reply_to_message_id)
    }

    /// Fingerprint of the creation. Every length of it fits its field in the
    /// encoding.
    pub fn fingerprint(&self) -> (r: [u8; 32])
        ensures
            r@ == self.digest_of_request(),
            self.fits(),
    {
        let mut hash = CanonicalHasher::empty();
        hash.string(CHAT_ADD_FINGERPRINT_DOMAIN);
        hash.string(self.space_id.as_str());
        hash.string(self.chat_id.as_str());
        hash.string(self.text.as_str());
        match &self.reply_to_message_id {
            Some(reply) => hash.optional_string(Some(reply.as_str())),
            None => hash.optional_string(None),
        }
        assert(hash@ =~= enc_chat_add(
            self.space_id@,
            self.chat_id@,
            self.text@,
            opt_view(self.reply_to_message_id),
        ));
        hash.digest()
    }
}

/// The encoding under the fingerprint binds the resolved space, the chat, the
/// exact text, and whether and to what the message replies.
pub proof fn chat_fingerprint_binds_request(
    space_a: Seq<char>,
    chat_a: Seq<char>,
    text_a: Seq<char>,
    reply_a: Option<Seq<char>>,
    space_b: Seq<char>,
    chat_b: Seq<char>,
    text_b: Seq<char>,
    reply_b: Option<Seq<char>>,
)
    requires
        text_fits(space_a) && text_fits(chat_a) && text_fits(text_a) && opt_text_fits(reply_a),
        text_fits(space_b) && text_fits(chat_b) && text_fits(text_b) && opt_text_fits(reply_b),
        enc_chat_add(space_a, chat_a, text_a, reply_a) == enc_chat_add(
            space_b,
            chat_b,
            text_b,
            reply_b,
        ),
    ensures
        space_a == space_b,
        chat_a == chat_b,
        text_a == text_b,
        reply_a == reply_b,
{
    let p2 = enc_text(text_a) + enc_opt_text(reply_a);
    let q2 = enc_text(text_b) + enc_opt_text(reply_b);
    let p1 = enc_text(chat_a) + p2;
    let q1 = enc_text(chat_b) + q2;
    let p0 = enc_text(space_a) + p1;
    let q0 = enc_text(space_b) + q1;
    let domain = enc_text(CHAT_ADD_FINGERPRINT_DOMAIN@);
    crate::encoding::cut(domain, p0, domain, q0);
    text_cut(space_a, p1, space_b, q1);
    text_cut(chat_a, p2, chat_b, q2);
    text_cut(text_a, enc_opt_text(reply_a), text_b, enc_opt_text(reply_b));
    assert(enc_opt_text(reply_a) + Seq::<u8>::empty() =~= enc_opt_text(reply_a));
    assert(enc_opt_text(reply_b) + Seq::<u8>::empty() =~= enc_opt_text(reply_b));
    opt_text_cut(reply_a, Seq::empty(), reply_b, Seq::empty());
}

/// Why the space of a call was not resolved.
#[derive(Clone, Copy, Debug, PartialEq, Eq, Structural)]
pub enum ControlledFailure {
    /// The service failed; an ambiguous name has no failure of its own.
    Operation(Option<ToolError>),
    Cancelled,
    TimedOut,
    ShuttingDown,
}

/// Failure that stands for an unresolved space.
pub fn controlled_runtime_error(failure: ControlledFailure) -> (r: ToolError)
    ensures
        r == (match failure {
            ControlledFailure::Operation(error) => service_failure(error),
            _ => ToolError::Upstream,
        }),
{
    match failure {
        ControlledFailure::Operation(error) => match error {
            Some(error) => error,
            None => ToolError::upstream(),
        },
        ControlledFailure::Cancelled
        | ControlledFailure::TimedOut
        | ControlledFailure::ShuttingDown => ToolError::upstream(),
    }
}

/// A message that the service created under a key.
#[derive(Clone, Debug)]
pub struct CandidateRecord {
    pub space_id: EntityId,
    pub chat_id: EntityId,
    pub message_id: EntityId,
}

/// Model of a created message.
#[verifier::ext_equal]
pub struct CandidateV {
    pub space_id: Seq<char>,
    pub chat_id: Seq<char>,
    pub message_id: Seq<char>,
}

impl View for CandidateRecord {
    type V = CandidateV;

    open spec fn view(&self) -> CandidateV {
        CandidateV {
            space_id: self.space_id@,
            chat_id: self.chat_id@,
            message_id: self.message_id@,
        }
    }
}

/// A created message under its key.
#[derive(Clone, Debug)]
pub struct CandidateEntry {
    pub key: IdempotencyKey,
    pub record: CandidateRecord,
}

/// Created messages by key.
#[derive(Clone, Debug)]
pub struct CandidateStore {
    entries: Vec<CandidateEntry>,
}

/// Last record before `n` under a key.
pub open spec fn record_at(entries: Seq<CandidateEntry>, key: Seq<char>, n: int) -> Option<CandidateV>
    decreases n,
{
    if n <= 0 {
        None
    } else if entries[n - 1].key@ == key {
        Some(entries[n - 1].record@)
    } else {
        record_at(entries, key, n - 1)
    }
}

proof fn record_at_prefix(
    entries: Seq<CandidateEntry>,
    more: CandidateEntry,
    key: Seq<char>,
    n: int,
)
    requires
        n <= entries.len(),
    ensures
        record_at(entries, key, n) == record_at(entries.push(more), key, n),
    decreases n,
{
    if n > 0 {
        record_at_prefix(entries, more, key, n - 1);
    }
}

impl View for CandidateStore {
    type V = Map<Seq<char>, CandidateV>;

    closed spec fn view(&self) -> Map<Seq<char>, CandidateV> {
        Map::new(
            |key: Seq<char>| record_at(self.entries@, key, self.entries.len() as int) is Some,
            |key: Seq<char>| record_at(self.entries@, key, self.entries.len() as int)->0,
        )
    }
}

impl CandidateStore {
    /// What is remembered under a key.
    pub open spec fn remembered(&self, key: Seq<char>) -> Option<CandidateV> {
        if self@.contains_key(key) {
            Some(self@[key])
        } else {
            None
        }
    }

    /// Remembers nothing yet.
    pub fn new() -> (r: CandidateStore)
        ensures
            r@ == Map::<Seq<char>, CandidateV>::empty(),
    {
        let r = CandidateStore { entries: Vec::new() };
        assert(r@ =~= Map::<Seq<char>, CandidateV>::empty());
        r
    }

    /// Remembers a created message under its key; what other keys hold stays.
    pub fn retain_candidate(&mut self, key: IdempotencyKey, candidate: CandidateRecord)
        ensures
            final(self)@ == old(self)@.insert(key@, candidate@),
    {
        let ghost before = self.entries@;
        let entry = CandidateEntry { key, record: candidate };
        self.entries.push(entry);
        proof {
            let n = before.len() as int;
            assert forall|other: Seq<char>| #[trigger]
                record_at(self.entries@, other, n + 1) == (if other == key@ {
                    Some(candidate@)
                } else {
                    record_at(before, other, n)
                }) by {
                record_at_prefix(before, entry, other, n);
            }
            assert(self@ =~= old(self)@.insert(key@, candidate@));
        }
    }

    /// The created message that is remembered under a key.
    pub fn retained_candidate(&self, key: &IdempotencyKey) -> (r: Option<CandidateRecord>)
        ensures
            opt_view(r) == self.remembered(key@),
    {
        let mut n: usize = self.entries.len();
        while n > 0
            invariant
                n <= self.entries.len(),
                self.remembered(key@) == record_at(self.entries@, key@, n as int),
            decreases n,
        {
            n -= 1;
            if self.entries[n].key.same(key) {
                let found: &CandidateRecord = &self.entries[n].record;
                return Some(
                    CandidateRecord {
                        space_id: found.space_id.clone(),
                        chat_id: found.chat_id.clone(),
                        message_id: found.message_id.clone(),
                    },
                );
            }
        }
        None
    }
}

/// Result of a message creation, as it is given again.
pub type ChatAddOutcome = Result<ChatMessageAddOutput, ToolError>;

/// Handler of verified creations: the attempts by key, and what was created
/// under which key.
#[derive(Debug)]
pub struct ChatMessageAddHandlers {
    contract: WorkflowTool,
    idempotency: IdempotencyStore<ChatAddOutcome>,
    candidates: CandidateStore,
}

/// Model of a handler.
#[verifier::ext_equal]
pub struct ChatStateV {
    pub attempts: StoreV<ChatAddOutcome>,
    pub created: Map<Seq<char>, CandidateV>,
}

impl View for ChatMessageAddHandlers {
    type V = ChatStateV;

    closed spec fn view(&self) -> ChatStateV {
        ChatStateV { attempts: self.idempotency@, created: self.candidates@ }
    }
}

/// What a call with this key and fingerprint is led to.
pub open spec fn chat_action(
    state: ChatStateV,
    key: Seq<char>,
    fingerprint: Seq<u8>,
    expired: bool,
) -> ChatBeginAction {
    begun_chat_add(
        begun(state.attempts, key, fingerprint, expired),
        state.created.contains_key(key),
    )
}

/// One step of a handler. A message is remembered under a key only while the
/// attempt of the key is running.
pub ghost enum ChatStep {
    Begin { key: Seq<char>, fingerprint: Seq<u8>, expired: bool },
    Retain { key: Seq<char>, candidate: CandidateV },
    Finish { key: Seq<char>, result: ChatAddOutcome, disposition: CreateDisposition },
}

/// The handler after one step.
pub open spec fn chat_stepped(state: ChatStateV, step: ChatStep) -> ChatStateV {
    match step {
        ChatStep::Begin { key, fingerprint, expired } => ChatStateV {
            attempts: begun_store(state.attempts, key, fingerprint, expired),
            ..state
        },
        ChatStep::Retain { key, candidate } => if running(state.attempts, key) {
            ChatStateV { created: state.created.insert(key, candidate), ..state }
        } else {
            state
        },
        ChatStep::Finish { key, result, disposition } => ChatStateV {
            attempts: finished_store(state.attempts, key, result, disposition),
            ..state
        },
    }
}

/// The handler after a run of steps.
pub open spec fn chat_stepped_through(state: ChatStateV, steps: Seq<ChatStep>) -> ChatStateV
    decreases steps.len(),
{
    if steps.len() == 0 {
        state
    } else {
        chat_stepped(chat_stepped_through(state, steps.drop_last()), steps.last())
    }
}

/// What a call is led to, with the message that it reads again.
#[derive(Debug)]
pub enum ChatBegin {
    /// Read this message again.
    Replay(CandidateRecord),
    /// Give the kept result again.
    Cached,
    /// Wait for the running creation, and mark its result as reused.
    Wait,
    /// Create the message.
    Lead,
    Fail(ToolError),
}

impl ChatMessageAddHandlers {
    /// Contract of the tool.
    pub closed spec fn tool(&self) -> WorkflowTool {
        self.contract
    }

    /// The attempts are well-formed.
    pub closed spec fn wf(&self) -> bool {
        self.idempotency.wf()
    }

    /// A handler with the contract of the creation tool that remembers nothing
    /// yet.
    pub fn new() -> (r: Result<ChatMessageAddHandlers, SchemaContractError>)
        ensures
            r matches Ok(handlers) && handlers.wf() && tool_is(
                handlers.tool(),
                CHAT_MESSAGE_ADD@,
                chat_add_description(),
                ToolProfile::Create,
            ) && handlers@ == no_attempts(DEFAULT_IDEMPOTENCY_CAPACITY as int),
    {
        ChatMessageAddHandlers::with_capacity(DEFAULT_IDEMPOTENCY_CAPACITY)
    }

    /// A handler that holds this many attempts.
    pub fn with_capacity(capacity: usize) -> (r: Result<ChatMessageAddHandlers, SchemaContractError>)
        ensures
            r matches Ok(handlers) && handlers.wf() && tool_is(
                handlers.tool(),
                CHAT_MESSAGE_ADD@,
                chat_add_description(),
                ToolProfile::Create,
            ) && handlers@ == no_attempts(capacity as int),
    {
        match chat_message_add_tool() {
            Ok(contract) => Ok(
                ChatMessageAddHandlers {
                    contract,
                    idempotency: IdempotencyStore::new(capacity),
                    candidates: CandidateStore::new(),
                },
            ),
            Err(error) => Err(error),
        }
    }

    /// Looks up the key of a request and decides what follows: a message that
    /// was created under the key is read again, in the space and chat in which it
    /// was created.
    pub fn begin(&mut self, request: &NormalizedChatAdd, expired: bool) -> (r: ChatBegin)
        requires
            old(self).wf(),
        ensures
            final(self).wf(),
            final(self).tool() == old(self).tool(),
            final(self)@ == chat_stepped(
                old(self)@,
                ChatStep::Begin {
                    key: request.idempotency_key@,
                    fingerprint: request.digest_of_request(),
                    expired,
                },
            ),
            match chat_action(
                old(self)@,
                request.idempotency_key@,
                request.digest_of_request(),
                expired,
            ) {
                ChatBeginAction::Replay => r matches ChatBegin::Replay(candidate) && candidate@
                    == old(self)@.created[request.idempotency_key@],
                ChatBeginAction::Cached => r is Cached,
                ChatBeginAction::WaitReused => r is Wait,
                ChatBeginAction::Lead => r is Lead,
                ChatBeginAction::Fail(error) => r == ChatBegin::Fail(error),
            },
    {
        let fingerprint: [u8; 32] = request.fingerprint();
        let outcome: BeginOutcome = self.idempotency.begin(
            &request.idempotency_key,
            &fingerprint,
            expired,
        );
        let candidate: Option<CandidateRecord> = self.candidates.retained_candidate(
            &request.idempotency_key,
        );
        match begin_chat_add(outcome, candidate.is_some()) {
            ChatBeginAction::Replay => match candidate {
                Some(candidate) => ChatBegin::Replay(candidate),
                None => ChatBegin::Fail(ToolError::mutation_indeterminate()),
            },
            ChatBeginAction::Cached => ChatBegin::Cached,
            ChatBeginAction::WaitReused => ChatBegin::Wait,
            ChatBeginAction::Lead => ChatBegin::Lead,
            ChatBeginAction::Fail(error) => ChatBegin::Fail(error),
        }
    }

    /// Remembers a sent message under the key of its request, before it is read
    /// back. Only the leader of the key sends, and its attempt is running.
    pub fn retain(&mut self, read: &ChatAddRead)
        requires
            old(self).wf(),
            running(old(self)@.attempts, read.input.idempotency_key@),
        ensures
            final(self).wf(),
            final(self).tool() == old(self).tool(),
            final(self)@ == chat_stepped(
                old(self)@,
                ChatStep::Retain {
                    key: read.input.idempotency_key@,
                    candidate: CandidateV {
                        space_id: read.input.space_id@,
                        chat_id: read.input.chat_id@,
                        message_id: read.message_id@,
                    },
                },
            ),
    {
        self.candidates.retain_candidate(read.input.idempotency_key.clone(), read.candidate());
    }

    /// Ends the attempt of a key.
    pub fn finish(&mut self, key: &IdempotencyKey, end: ChatAddEnd)
        requires
            old(self).wf(),
        ensures
            final(self).wf(),
            final(self).tool() == old(self).tool(),
            final(self)@ == chat_stepped(
                old(self)@,
                ChatStep::Finish { key: key@, result: end.result, disposition: end.disposition },
            ),
    {
        self.idempotency.finish(key, end.result, end.disposition);
    }

    /// Contract of the tool.
    pub fn contract(&self) -> (r: &WorkflowTool)
        ensures
            *r == self.tool(),
    {
        &self.contract
    }

    /// Tests that the attempt of a key is running.
    pub fn is_running(&self, key: &IdempotencyKey) -> (r: bool)
        requires
            self.wf(),
        ensures
            r == running(self@.attempts, key@),
    {
        self.idempotency.is_running(key)
    }

    /// The message that was created under a key.
    pub fn candidate(&self, key: &IdempotencyKey) -> (r: Option<CandidateRecord>)
        ensures
            match r {
                Some(candidate) => self@.created.contains_key(key@) && candidate@
                    == self@.created[key@],
                None => !self@.created.contains_key(key@),
            },
    {
        self.candidates.retained_candidate(key)
    }

    /// The result that is given again for a request.
    pub fn cached(&self, request: &NormalizedChatAdd) -> (r: Option<&ChatAddOutcome>)
        requires
            self.wf(),
        ensures
            match r {
                Some(result) => cached_result(
                    self@.attempts,
                    request.idempotency_key@,
                    request.digest_of_request(),
                ) == Some(*result),
                None => cached_result(
                    self@.attempts,
                    request.idempotency_key@,
                    request.digest_of_request(),
                ) is None,
            },
    {
        self.idempotency.cached(&request.idempotency_key, &request.fingerprint())
    }
}

/// A handler without attempts.
pub open spec fn no_attempts(capacity: int) -> ChatStateV {
    ChatStateV {
        attempts: StoreV { capacity, attempts: Map::empty() },
        created: Map::empty(),
    }
}

/// What a retry is answered from the message that was created under its key, as
/// it was read again.
pub open spec fn replay_gives(
    outcome: ChatAddOutcome,
    candidate: CandidateV,
    message: Result<ChatMessage, Option<ToolError>>,
    detail: Result<MessageDetail, ToolError>,
    encoded: int,
) -> bool {
    match message {
        Err(error) => outcome == Err::<ChatMessageAddOutput, ToolError>(service_failure(error)),
        Ok(message) => if message.id@ != candidate.message_id {
            outcome == Err::<ChatMessageAddOutput, ToolError>(ToolError::Upstream)
        } else {
            match output_error(candidate.message_id, detail, encoded) {
                Some(error) => outcome == Err::<ChatMessageAddOutput, ToolError>(error),
                None => outcome matches Ok(output) && output.space_id@ == candidate.space_id
                    && output.chat_id@ == candidate.chat_id && Ok::<MessageDetail, ToolError>(
                    output.message,
                ) == detail && output.idempotency.key_reused,
            }
        },
    }
}

/// Answers a retry from the message that was created under its key, as it was
/// read again, with its detail and the encoded size of the output. A success is
/// marked as reused.
pub fn replayed(
    candidate: CandidateRecord,
    message: Result<ChatMessage, Option<ToolError>>,
    detail: Result<MessageDetail, ToolError>,
    encoded: &Vec<u8>,
) -> (r: ChatAddOutcome)
    ensures
        replay_gives(r, candidate@, message, detail, encoded.len() as int),
{
    match message {
        Err(error) => match error {
            Some(error) => Err(error),
            None => Err(ToolError::upstream()),
        },
        Ok(message) => checked_output(
            candidate.space_id,
            candidate.chat_id,
            &candidate.message_id,
            message.id.as_str(),
            detail,
            encoded,
            true,
        ),
    }
}

/// What follows the lookup of a key.
#[derive(Clone, Copy, Debug, PartialEq, Eq, Structural)]
pub enum ChatBeginAction {
    /// Read the remembered message again.
    Replay,
    /// Give the remembered result again.
    Cached,
    /// Wait for the running creation, and mark its result as reused.
    WaitReused,
    /// Create the message.
    Lead,
    Fail(ToolError),
}

/// What follows the lookup of a message creation's key. A message that is
/// remembered is read again and never sent again.
pub open spec fn begun_chat_add(outcome: BeginOutcome, candidate_retained: bool) -> ChatBeginAction {
    match outcome {
        BeginOutcome::Cached => if candidate_retained {
            ChatBeginAction::Replay
        } else {
            ChatBeginAction::Cached
        },
        BeginOutcome::Indeterminate => ChatBeginAction::Fail(ToolError::MutationIndeterminate),
        BeginOutcome::Conflict => ChatBeginAction::Fail(ToolError::Conflict),
        BeginOutcome::Full => ChatBeginAction::Fail(ToolError::BoundedResult),
        BeginOutcome::Expired => ChatBeginAction::Fail(ToolError::Upstream),
        BeginOutcome::Wait => ChatBeginAction::WaitReused,
        BeginOutcome::Lead => ChatBeginAction::Lead,
    }
}

/// What follows the lookup of a message creation's key.
pub fn begin_chat_add(outcome: BeginOutcome, candidate_retained: bool) -> (r: ChatBeginAction)
    ensures
        r == begun_chat_add(outcome, candidate_retained),
{
    match outcome {
        BeginOutcome::Cached => if candidate_retained {
            ChatBeginAction::Replay
        } else {
            ChatBeginAction::Cached
        },
        BeginOutcome::Indeterminate => ChatBeginAction::Fail(ToolError::mutation_indeterminate()),
        BeginOutcome::Conflict => ChatBeginAction::Fail(ToolError::conflict()),
        BeginOutcome::Full => ChatBeginAction::Fail(ToolError::bounded_result()),
        BeginOutcome::Expired => ChatBeginAction::Fail(ToolError::upstream()),
        BeginOutcome::Wait => ChatBeginAction::WaitReused,
        BeginOutcome::Lead => ChatBeginAction::Lead,
    }
}

/// Style of a message's text.
#[derive(Clone, Copy, Debug, PartialEq, Eq, Structural)]
pub enum MessageTextStyle {
    Paragraph,
    Other,
}

/// A message as the service holds it.
#[derive(Clone, Debug, PartialEq, Eq)]
pub struct ChatMessage {
    pub id: String,
    pub text: String,
    pub style: MessageTextStyle,
    pub marks: usize,
    pub attachments: usize,
    pub reply_to_message_id: Option<String>,
    /// Canonical modification time, where the service's value has one.
    pub modified_at: Option<String>,
}

/// The message is exactly the requested one: its text in a plain paragraph
/// without marks and attachments, and its reply.
pub open spec fn message_is(
    message: ChatMessage,
    message_id: Seq<char>,
    text: Seq<char>,
    reply: Option<Seq<char>>,
) -> bool {
    &&& message.id@ == message_id
    &&& message.text@ == text
    &&& message.style == MessageTextStyle::Paragraph
    &&& message.marks == 0
    &&& message.attachments == 0
    &&& opt_view(message.reply_to_message_id) == reply
}

/// Tests that a message is exactly the requested one.
pub fn created_message_matches(
    message: &ChatMessage,
    message_id: &EntityId,
    input: &NormalizedChatAdd,
) -> (r: bool)
    ensures
        r == message_is(
            *message,
            message_id@,
            input.text@,
            opt_view(input.reply_to_message_id),
        ),
{
    let reply_ok: bool = match (&message.reply_to_message_id, &input.reply_to_message_id) {
        (Some(found), Some(wanted)) => same_text(found.as_str(), wanted.as_str()),
        (None, None) => true,
        _ => false,
    };
    same_text(message.id.as_str(), message_id.as_str()) && same_text(
        message.text.as_str(),
        input.text.as_str(),
    ) && message.style == MessageTextStyle::Paragraph && message.marks == 0 && message.attachments
        == 0 && reply_ok
}

/// Why a message that was read is not given out, if so: it cannot be shown, it is
/// shown as another, its text is longer than any message that may be sent, or the
/// output is too large.
pub open spec fn output_error(
    message_id: Seq<char>,
    detail: Result<MessageDetail, ToolError>,
    encoded: int,
) -> Option<ToolError> {
    match detail {
        Err(error) => Some(error),
        Ok(detail) => if detail.message_id@ != message_id {
            Some(ToolError::Upstream)
        } else if detail.text@.len() > MAX_MESSAGE_TEXT_CHARS || encoded
            > MESSAGE_RESULT_BYTES {
            Some(ToolError::BoundedResult)
        } else {
            None
        },
    }
}

/// Output for a message of this identifier, from its detail and the encoded size
/// of the output; or why there is none.
pub fn checked_output(
    space_id: EntityId,
    chat_id: EntityId,
    expected_message_id: &EntityId,
    message_id: &str,
    detail: Result<MessageDetail, ToolError>,
    encoded: &Vec<u8>,
    key_reused: bool,
) -> (r: Result<ChatMessageAddOutput, ToolError>)
    ensures
        if message_id@ != expected_message_id@ {
            r == Err::<ChatMessageAddOutput, ToolError>(ToolError::Upstream)
        } else {
            match output_error(message_id@, detail, encoded.len() as int) {
                Some(error) => r == Err::<ChatMessageAddOutput, ToolError>(error),
                None => r matches Ok(output) && output.space_id == space_id && output.chat_id
                    == chat_id && Ok::<MessageDetail, ToolError>(output.message) == detail
                    && output.idempotency.key_reused == key_reused,
            }
        },
{
    if !same_text(message_id, expected_message_id.as_str()) {
        return Err(ToolError::upstream());
    }
    let message: MessageDetail = match detail {
        Ok(detail) => detail,
        Err(error) => {
            return Err(error);
        },
    };
    if !message.message_id.same(expected_message_id) {
        return Err(ToolError::upstream());
    }
    if !message.text.as_str().is_empty() && !within_chars(
        message.text.as_str(),
        MAX_MESSAGE_TEXT_CHARS,
    ) {
        return Err(ToolError::bounded_result());
    }
    if let Err(error) = ensure_success_bytes(encoded, MESSAGE_RESULT_BYTES) {
        return Err(error);
    }
    Ok(
        ChatMessageAddOutput {
            space_id,
            chat_id,
            message,
            idempotency: ChatAddIdempotency { key_reused, scope: ProcessScope },
        },
    )
}

/// A tool result of a message creation.
#[derive(Clone, Debug, PartialEq, Eq)]
pub struct ChatAddResult {
    pub is_error: Option<bool>,
    pub output: Option<ChatMessageAddOutput>,
}

/// Marks the result that a waiter was given as reused. Failures stay as they
/// are; a success without output is the service's failure.
pub fn mark_reused(result: ChatAddResult) -> (r: Result<ChatAddResult, ToolError>)
    ensures
        if result.is_error != Some(false) {
            r == Ok::<ChatAddResult, ToolError>(result)
        } else {
            match result.output {
                None => r == Err::<ChatAddResult, ToolError>(ToolError::Upstream),
                Some(output) => r matches Ok(marked) && marked.is_error == result.is_error
                    && (marked.output matches Some(found) && found.idempotency.key_reused
                    && found.space_id == output.space_id && found.chat_id == output.chat_id
                    && found.message == output.message),
            }
        },
{
    let success: bool = match result.is_error {
        Some(false) => true,
        _ => false,
    };
    if !success {
        return Ok(result);
    }
    match result.output {
        None => Err(ToolError::upstream()),
        Some(output) => Ok(
            ChatAddResult {
                is_error: Some(false),
                output: Some(
                    ChatMessageAddOutput {
                        space_id: output.space_id,
                        chat_id: output.chat_id,
                        message: output.message,
                        idempotency: ChatAddIdempotency { key_reused: true, scope: ProcessScope },
                    },
                ),
            },
        ),
    }
}

/// How far a creation came.
#[derive(Clone, Copy, Debug, PartialEq, Eq, Structural)]
pub struct ChatAddProgress {
    pub succeeded: bool,
    pub definitively_rejected: bool,
    pub candidate_retained: bool,
    pub stage: MutationStage,
}

/// What is remembered of a creation. Once a message is remembered, its key is
/// replayed whatever went wrong afterwards.
pub open spec fn chat_disposition(progress: ChatAddProgress) -> CreateDisposition {
    if progress.succeeded {
        CreateDisposition::Verified
    } else if progress.definitively_rejected {
        CreateDisposition::Terminal
    } else if progress.candidate_retained {
        CreateDisposition::Verified
    } else if progress.stage == MutationStage::PreDispatch {
        CreateDisposition::PreDispatchFailure
    } else {
        CreateDisposition::Indeterminate
    }
}

/// What is remembered of a creation.
pub fn chat_add_disposition(progress: ChatAddProgress) -> (r: CreateDisposition)
    ensures
        r == chat_disposition(progress),
{
    if progress.succeeded {
        CreateDisposition::Verified
    } else if progress.definitively_rejected {
        CreateDisposition::Terminal
    } else if progress.candidate_retained {
        CreateDisposition::Verified
    } else {
        match progress.stage {
            MutationStage::PreDispatch => CreateDisposition::PreDispatchFailure,
            MutationStage::Dispatched => CreateDisposition::Indeterminate,
        }
    }
}

/// What is remembered of a creation whose task was lost: a remembered message
/// is replayed, else the key is free before dispatch and indeterminate after.
pub fn lost_chat_add_disposition(candidate_retained: bool, stage: MutationStage) -> (r:
    CreateDisposition)
    ensures
        r == chat_disposition(
            ChatAddProgress {
                succeeded: false,
                definitively_rejected: false,
                candidate_retained,
                stage,
            },
        ),
{
    chat_add_disposition(
        ChatAddProgress {
            succeeded: false,
            definitively_rejected: false,
            candidate_retained,
            stage,
        },
    )
}

/// End of a message creation.
#[derive(Debug)]
pub struct ChatAddEnd {
    pub result: ChatAddOutcome,
    pub disposition: CreateDisposition,
}

/// The end is this failure with this disposition.
pub open spec fn chat_fails(
    end: ChatAddEnd,
    error: ToolError,
    disposition: CreateDisposition,
) -> bool {
    end.result == Err::<ChatMessageAddOutput, ToolError>(error) && end.disposition == disposition
}

fn chat_failed(error: ToolError, progress: ChatAddProgress) -> (r: ChatAddEnd)
    requires
        !progress.succeeded,
    ensures
        chat_fails(r, error, chat_disposition(progress)),
{
    ChatAddEnd { result: Err(error), disposition: chat_add_disposition(progress) }
}

/// A creation before anything was sent.
#[derive(Clone, Debug)]
pub struct ChatAddStart {
    pub input: NormalizedChatAdd,
}

/// A creation whose message may be sent.
#[derive(Clone, Debug)]
pub struct ChatAddSend {
    pub input: NormalizedChatAdd,
}

/// A sent message that is read back next.
#[derive(Clone, Debug)]
pub struct ChatAddRead {
    pub input: NormalizedChatAdd,
    pub message_id: EntityId,
}

/// The reply target as it was read: its identifier, and whether it is a valid
/// reference in the chat.
#[derive(Debug)]
pub struct ReplyTarget {
    pub id: String,
    pub reference: Result<(), ToolError>,
}

impl ChatAddStart {
    /// Decides whether the message may be sent, from the reply target, where one
    /// was asked for, and from cancellation. Nothing was sent yet, so every
    /// failure leaves the key free.
    pub fn ready(self, reply: Result<Option<ReplyTarget>, Option<ToolError>>, cancelled: bool) -> (r:
        Result<ChatAddSend, ChatAddEnd>)
        ensures
            ({
                let failure = match (opt_view(self.input.reply_to_message_id), reply) {
                    (None, _) => if cancelled {
                        Some(ToolError::Upstream)
                    } else {
                        None
                    },
                    (Some(_), Err(error)) => Some(service_failure(error)),
                    (Some(_), Ok(None)) => Some(ToolError::Upstream),
                    (Some(wanted), Ok(Some(target))) => if target.id@ != wanted {
                        Some(ToolError::Upstream)
                    } else {
                        match target.reference {
                            Err(error) => Some(error),
                            Ok(()) => if cancelled {
                                Some(ToolError::Upstream)
                            } else {
                                None
                            },
                        }
                    },
                };
                match failure {
                    None => r matches Ok(step) && step.input == self.input,
                    Some(error) => r matches Err(end) && chat_fails(
                        end,
                        error,
                        CreateDisposition::PreDispatchFailure,
                    ),
                }
            }),
    {
        let unsent = ChatAddProgress {
            succeeded: false,
            definitively_rejected: false,
            candidate_retained: false,
            stage: MutationStage::PreDispatch,
        };
        if let Some(wanted) = &self.input.reply_to_message_id {
            match reply {
                Err(error) => {
                    let error: ToolError = match error {
                        Some(error) => error,
                        None => ToolError::upstream(),
                    };
                    return Err(chat_failed(error, unsent));
                },
                Ok(None) => {
                    return Err(chat_failed(ToolError::upstream(), unsent));
                },
                Ok(Some(target)) => {
                    if !same_text(target.id.as_str(), wanted.as_str()) {
                        return Err(chat_failed(ToolError::upstream(), unsent));
                    }
                    if let Err(error) = target.reference {
                        return Err(chat_failed(error, unsent));
                    }
                },
            }
        }
        if cancelled {
            return Err(chat_failed(ToolError::upstream(), unsent));
        }
        Ok(ChatAddSend { input: self.input })
    }
}

/// Reply to a sent message.
#[derive(Clone, Debug)]
pub enum SendReply {
    Assigned(String),
    Rejected { error: Option<ToolError>, definitive: bool },
}

impl ChatAddSend {
    /// Takes the reply to the sent message. A definitive rejection is final; an
    /// uncertain one, or an assigned identifier that is none, is indeterminate.
    pub fn sent(self, reply: SendReply) -> (r: Result<ChatAddRead, ChatAddEnd>)
        ensures
            match reply {
                SendReply::Assigned(id) => if valid_entity_id(id@) {
                    r matches Ok(step) && step.input == self.input && step.message_id@ == id@
                } else {
                    r matches Err(end) && chat_fails(
                        end,
                        ToolError::MutationIndeterminate,
                        CreateDisposition::Indeterminate,
                    )
                },
                SendReply::Rejected { error, definitive } => r matches Err(end) && if definitive {
                    chat_fails(end, service_failure(error), CreateDisposition::Terminal)
                } else {
                    chat_fails(
                        end,
                        ToolError::MutationIndeterminate,
                        CreateDisposition::Indeterminate,
                    )
                },
            },
    {
        match reply {
            SendReply::Assigned(id) => match EntityId::new(id.as_str()) {
                Ok(message_id) => Ok(ChatAddRead { input: self.input, message_id }),
                Err(_) => Err(
                    chat_failed(
                        ToolError::mutation_indeterminate(),
                        ChatAddProgress {
                            succeeded: false,
                            definitively_rejected: false,
                            candidate_retained: false,
                            stage: MutationStage::Dispatched,
                        },
                    ),
                ),
            },
            SendReply::Rejected { error, definitive } => {
                let error: ToolError = if definitive {
                    match error {
                        Some(error) => error,
                        None => ToolError::upstream(),
                    }
                } else {
                    ToolError::mutation_indeterminate()
                };
                Err(
                    chat_failed(
                        error,
                        ChatAddProgress {
                            succeeded: false,
                            definitively_rejected: definitive,
                            candidate_retained: false,
                            stage: MutationStage::Dispatched,
                        },
                    ),
                )
            },
        }
    }
}

impl ChatAddRead {
    /// What has to be remembered before the message is read back.
    pub fn candidate(&self) -> (r: CandidateRecord)
        ensures
            r@ == (CandidateV {
                space_id: self.input.space_id@,
                chat_id: self.input.chat_id@,
                message_id: self.message_id@,
            }),
    {
        CandidateRecord {
            space_id: self.input.space_id.clone(),
            chat_id: self.input.chat_id.clone(),
            message_id: self.message_id.clone(),
        }
    }

    /// Takes the message as it was read back, with its detail and the encoded
    /// size of the output. The message is remembered by now, so its key is
    /// replayed whatever is found.
    pub fn verified(
        self,
        message: Result<ChatMessage, Option<ToolError>>,
        detail: Result<MessageDetail, ToolError>,
        encoded: &Vec<u8>,
    ) -> (r: ChatAddEnd)
        ensures
            r.disposition == CreateDisposition::Verified,
            match message {
                Err(error) => r.result == Err::<ChatMessageAddOutput, ToolError>(
                    service_failure(error),
                ),
                Ok(message) => if !message_is(
                    message,
                    self.message_id@,
                    self.input.text@,
                    opt_view(self.input.reply_to_message_id),
                ) {
                    r.result == Err::<ChatMessageAddOutput, ToolError>(
                        ToolError::MutationIndeterminate,
                    )
                } else {
                    match output_error(self.message_id@, detail, encoded.len() as int) {
                        Some(error) => r.result == Err::<ChatMessageAddOutput, ToolError>(error),
                        None => r.result matches Ok(output) && output.space_id
                            == self.input.space_id && output.chat_id == self.input.chat_id
                            && Ok::<MessageDetail, ToolError>(output.message) == detail
                            && !output.idempotency.key_reused,
                    }
                },
            },
    {
        let retained = ChatAddProgress {
            succeeded: false,
            definitively_rejected: false,
            candidate_retained: true,
            stage: MutationStage::Dispatched,
        };
        let message: ChatMessage = match message {
            Ok(message) => message,
            Err(error) => {
                let error: ToolError = match error {
                    Some(error) => error,
                    None => ToolError::upstream(),
                };
                return chat_failed(error, retained);
            },
        };
        if !created_message_matches(&message, &self.message_id, &self.input) {
            return chat_failed(ToolError::mutation_indeterminate(), retained);
        }
        match checked_output(
            self.input.space_id,
            self.input.chat_id,
            &self.message_id,
            message.id.as_str(),
            detail,
            encoded,
            false,
        ) {
            Ok(output) => ChatAddEnd { result: Ok(output), disposition: CreateDisposition::Verified },
            Err(error) => chat_failed(error, retained),
        }
    }
}

} // verus!
