//! Verified deletion of one exact chat message. The deletion is dispatched once,
//! and succeeds only where it was accepted and the message is seen to be gone.

use crate::catalog::{
    tool_is, workflow_tool, OptionalRegistryTool, SchemaContractError, ToolProfile, WorkflowTool,
};
use crate::chat_add::ChatMessage;
use crate::domain::EntityId;
use crate::error::ToolError;
use crate::outside::{
    calendar_valid, digits_value, parses_as_rfc3339, timestamp_char, timestamp_shape,
};
use crate::rich_flow::service_failure;
use crate::text::{opt_view, same_text};
use vstd::prelude::*;

verus! {

/// Name of the deletion tool.
pub const CHAT_MESSAGE_DELETE: &'static str = "chat_message_delete";

/// Logical requests of a deletion with stable identifiers.
pub const CHAT_DELETE_STABLE_LOGICAL_CEILING: usize = 12;

/// Physical requests of a deletion with stable identifiers.
pub const CHAT_DELETE_STABLE_PHYSICAL_CEILING: usize = 67;

/// Logical requests of a deletion with a resolved name.
pub const CHAT_DELETE_RESOLVER_LOGICAL_CEILING: usize = 23;

/// Physical requests of a deletion with a resolved name.
pub const CHAT_DELETE_RESOLVER_PHYSICAL_CEILING: usize = 133;

/// Literal that confirms a deletion.
pub const CONFIRM_DELETE: &'static str = "delete_message";

/// Failure of a timestamp that is not canonical.
#[derive(Clone, Copy, Debug, PartialEq, Eq, Structural)]
pub struct ExpectedModifiedAtError;

impl ExpectedModifiedAtError {
    /// Fixed message of the failure.
    pub fn message(&self) -> (r: &'static str)
        ensures
            r@ == "expected_modified_at must be a canonical UTC-millisecond timestamp"@,
    {
        "expected_modified_at must be a canonical UTC-millisecond timestamp"
    }
}

/// A canonical timestamp: the shape of UTC with milliseconds, a day of the
/// calendar from the year 1 on, and a time of the day.
pub open spec fn canonical_timestamp(text: Seq<char>) -> bool {
    &&& timestamp_shape(text)
    &&& calendar_valid(text)
    &&& digits_value(text, 0, 4) >= 1
}

fn is_timestamp_char(i: usize, c: char) -> (r: bool)
    ensures
        r == timestamp_char(i as int, c),
{
    match i {
        4 | 7 => c == '-',
        10 => c == 'T',
        13 | 16 => c == ':',
        19 => c == '.',
        23 => c == 'Z',
        _ => '0' <= c && c <= '9',
    }
}

/// Tests the shape of a timestamp.
pub fn canonical_timestamp_shape(value: &str) -> (r: bool)
    ensures
        r == timestamp_shape(value@),
{
    let mut count: usize = 0;
    for c in it: value.chars()
        invariant
            it.seq() == value@,
            count == it.index(),
            count <= 24,
            forall|i: int| 0 <= i < it.index() ==> timestamp_char(i, #[trigger] value@[i]),
    {
        if count == 24 {
            return false;
        }
        if !is_timestamp_char(count, c) {
            assert(!timestamp_char(it.index() as int, value@[it.index() as int]));
            return false;
        }
        count += 1;
    }
    count == 24
}

fn names_year_zero(value: &str) -> (r: bool)
    requires
        timestamp_shape(value@),
    ensures
        r == (digits_value(value@, 0, 4) == 0),
{
    proof {
        reveal_with_fuel(digits_value, 5);
        assert(timestamp_char(0, value@[0]));
        assert(timestamp_char(1, value@[1]));
        assert(timestamp_char(2, value@[2]));
        assert(timestamp_char(3, value@[3]));
    }
    value.get_char(0) == '0' && value.get_char(1) == '0' && value.get_char(2) == '0'
        && value.get_char(3) == '0'
}

/// Modification time that a deletion expects.
#[derive(Debug, PartialEq, Eq)]
pub struct ExpectedModifiedAt {
    value: String,
}

impl View for ExpectedModifiedAt {
    type V = Seq<char>;

    closed spec fn view(&self) -> Seq<char> {
        self.value@
    }
}

impl Clone for ExpectedModifiedAt {
    fn clone(&self) -> (r: Self)
        ensures
            r@ == self@,
    {
        proof {
            use_type_invariant(self);
        }
        ExpectedModifiedAt { value: self.value.clone() }
    }
}

impl ExpectedModifiedAt {
    #[verifier::type_invariant]
    spec fn inv(self) -> bool {
        canonical_timestamp(self.value@)
    }

    /// Accepts exactly the canonical timestamps.
    pub fn new(value: &str) -> (r: Result<ExpectedModifiedAt, ExpectedModifiedAtError>)
        ensures
            r is Ok <==> canonical_timestamp(value@),
            r matches Ok(accepted) ==> accepted@ == value@,
    {
        if !canonical_timestamp_shape(value) {
            return Err(ExpectedModifiedAtError);
        }
        if !parses_as_rfc3339(value) {
            return Err(ExpectedModifiedAtError);
        }
        proof {
            reveal_with_fuel(digits_value, 5);
            assert(timestamp_char(0, value@[0]));
            assert(timestamp_char(1, value@[1]));
            assert(timestamp_char(2, value@[2]));
            assert(timestamp_char(3, value@[3]));
        }
        if names_year_zero(value) {
            return Err(ExpectedModifiedAtError);
        }
        Ok(ExpectedModifiedAt { value: value.to_owned() })
    }

    /// Borrows the accepted timestamp.
    pub fn as_str(&self) -> (r: &str)
        ensures
            r@ == self@,
            canonical_timestamp(self@),
    {
        proof {
            use_type_invariant(self);
        }
        self.value.as_str()
    }
}

/// A given confirmation.
#[derive(Clone, Copy, Debug, PartialEq, Eq, Structural)]
pub struct DeleteMessageConfirmation;

impl DeleteMessageConfirmation {
    /// Accepts exactly the confirming literal.
    pub fn new(value: &str) -> (r: Option<DeleteMessageConfirmation>)
        ensures
            r is Some <==> value@ == CONFIRM_DELETE@,
    {
        if same_text(value, CONFIRM_DELETE) {
            Some(DeleteMessageConfirmation)
        } else {
            None
        }
    }
}

/// Input of a message deletion.
#[derive(Clone, Debug)]
pub struct ChatMessageDeleteInput {
    pub space: String,
    pub chat_id: EntityId,
    pub message_id: EntityId,
    pub expected_modified_at: ExpectedModifiedAt,
    pub confirm_delete: DeleteMessageConfirmation,
}

/// Output of a message deletion.
#[derive(Clone, Debug, PartialEq, Eq)]
pub struct ChatMessageDeleteOutput {
    pub space_id: EntityId,
    pub chat_id: EntityId,
    pub message_id: EntityId,
    pub deleted: bool,
    pub previous_modified_at: String,
}

/// Description of the deletion tool.
pub open spec fn chat_delete_description() -> Seq<char> {
    "Delete one exact chat message after an exact current-timestamp read and explicit confirmation. The millisecond timestamp is advisory, not an atomic revision: concurrent or same-millisecond edits can still race. DELETE is attempted once and success requires authoritative absence; an uncertain dispatch remains indeterminate even if absence is later observed."@
}

/// Contract of the deletion tool.
pub fn chat_message_delete_tool() -> (r: Result<WorkflowTool, SchemaContractError>)
    ensures
        r matches Ok(tool) && tool_is(
            tool,
            CHAT_MESSAGE_DELETE@,
            chat_delete_description(),
            ToolProfile::Update,
        ),
{
    Ok(
        workflow_tool(
            CHAT_MESSAGE_DELETE,
            "Delete one exact chat message after an exact current-timestamp read and explicit confirmation. The millisecond timestamp is advisory, not an atomic revision: concurrent or same-millisecond edits can still race. DELETE is attempted once and success requires authoritative absence; an uncertain dispatch remains indeterminate even if absence is later observed.",
            ToolProfile::Update,
        ),
    )
}

/// The deletion tool as a registry slice: it mutates.
pub fn chat_delete_tools() -> (r: Result<Vec<OptionalRegistryTool>, SchemaContractError>)
    ensures
        r matches Ok(tools) && tools.len() == 1 && tools@[0].mutation && tool_is(
            tools@[0].tool,
            CHAT_MESSAGE_DELETE@,
            chat_delete_description(),
            ToolProfile::Update,
        ),
{
    match chat_message_delete_tool() {
        Ok(tool) => {
            let mut tools: Vec<OptionalRegistryTool> = Vec::new();
            tools.push(OptionalRegistryTool::mutation(tool));
            Ok(tools)
        },
        Err(error) => Err(error),
    }
}

/// Handler of verified deletions.
#[derive(Clone, Debug)]
pub struct ChatMessageDeleteHandlers {
    pub contract: WorkflowTool,
}

impl ChatMessageDeleteHandlers {
    /// A handler with the contract of the deletion tool.
    pub fn new() -> (r: Result<ChatMessageDeleteHandlers, SchemaContractError>)
        ensures
            r matches Ok(handlers) && tool_is(
                handlers.contract,
                CHAT_MESSAGE_DELETE@,
                chat_delete_description(),
                ToolProfile::Update,
            ),
    {
        match chat_message_delete_tool() {
            Ok(contract) => Ok(ChatMessageDeleteHandlers { contract }),
            Err(error) => Err(error),
        }
    }
}

/// Holds the message before a deletion against what the caller expects: another
/// message, or one without a canonical time, is the service's failure; another
/// time is a conflict.
pub fn validate_preflight(
    message: &ChatMessage,
    expected_id: &EntityId,
    expected_modified_at: &ExpectedModifiedAt,
) -> (r: Result<(), ToolError>)
    ensures
        r == preflight_outcome(*message, expected_id@, expected_modified_at@),
{
    if !same_text(message.id.as_str(), expected_id.as_str()) {
        return Err(ToolError::upstream());
    }
    match &message.modified_at {
        None => Err(ToolError::upstream()),
        Some(actual) => if same_text(actual.as_str(), expected_modified_at.as_str()) {
            Ok(())
        } else {
            Err(ToolError::conflict())
        },
    }
}

/// What a message before a deletion leads to.
pub open spec fn preflight_outcome(
    message: ChatMessage,
    id: Seq<char>,
    modified_at: Seq<char>,
) -> Result<(), ToolError> {
    if message.id@ != id {
        Err(ToolError::Upstream)
    } else {
        match opt_view(message.modified_at) {
            None => Err(ToolError::Upstream),
            Some(actual) => if actual == modified_at {
                Ok(())
            } else {
                Err(ToolError::Conflict)
            },
        }
    }
}

/// A failure of the message service.
#[derive(Clone, Copy, Debug, PartialEq, Eq, Structural)]
pub enum ServiceError {
    NotFound,
    Api { code: u16 },
    Other,
}

/// The failure says that the message is gone.
pub open spec fn says_absent(error: ServiceError) -> bool {
    match error {
        ServiceError::NotFound => true,
        ServiceError::Api { code } => code == 404,
        ServiceError::Other => false,
    }
}

/// Tests for a failure that says that the message is gone.
pub fn is_authoritative_absence(error: &ServiceError) -> (r: bool)
    ensures
        r == says_absent(*error),
{
    match error {
        ServiceError::NotFound => true,
        ServiceError::Api { code } => *code == 404,
        ServiceError::Other => false,
    }
}

/// How a deletion is verified. Durations are in nanoseconds.
#[derive(Clone, Copy, Debug, PartialEq, Eq, Structural)]
pub struct VerifyConfig {
    pub timeout: u128,
    pub initial_delay: u128,
    pub max_delay: u128,
    pub max_attempts: usize,
}

/// Reply to the dispatched deletion.
#[derive(Clone, Copy, Debug, PartialEq, Eq, Structural)]
pub enum DeleteReply {
    Accepted,
    Rejected { error: Option<ToolError>, definitive: bool },
}

/// A dispatched deletion that is being verified.
#[derive(Debug)]
pub struct DeleteVerification {
    accepted: bool,
    attempts: usize,
    delay: u128,
    config: VerifyConfig,
}

/// Model of a deletion that is being verified.
#[verifier::ext_equal]
pub struct VerificationV {
    pub accepted: bool,
    pub attempts: int,
    pub delay: int,
    pub config: VerifyConfig,
}

impl View for DeleteVerification {
    type V = VerificationV;

    closed spec fn view(&self) -> VerificationV {
        VerificationV {
            accepted: self.accepted,
            attempts: self.attempts as int,
            delay: self.delay as int,
            config: self.config,
        }
    }
}

/// No more reads were made than are allowed.
pub open spec fn verification_wf(state: VerificationV) -> bool {
    0 <= state.attempts <= state.config.max_attempts
}

/// What a wait before a read leads to.
#[derive(Clone, Copy, Debug, PartialEq, Eq, Structural)]
pub enum WaitDecision {
    /// Read now.
    Proceed,
    /// Sleep this long, then read.
    Sleep(u128),
    /// There is no time for the wait.
    GiveUp,
}

/// Reply to a read.
#[derive(Clone, Copy, Debug, PartialEq, Eq, Structural)]
pub enum ReadReply {
    TimedOut,
    Present,
    Failed(ServiceError),
}

/// End of a verification.
#[derive(Clone, Copy, Debug, PartialEq, Eq, Structural)]
pub enum DeleteOutcome {
    Deleted,
    Indeterminate,
}

/// What follows a read.
#[derive(Debug)]
pub enum ReadNext {
    Again(DeleteVerification),
    End(DeleteOutcome),
}

/// Time that is left of a timeout.
pub open spec fn left_of(timeout: int, elapsed: int) -> int {
    if elapsed < timeout {
        timeout - elapsed
    } else {
        0
    }
}

fn time_left(timeout: u128, elapsed: u128) -> (r: u128)
    ensures
        r == left_of(timeout as int, elapsed as int),
{
    if elapsed < timeout {
        timeout - elapsed
    } else {
        0
    }
}

/// Reads may go on: attempts and time are left.
pub open spec fn may_read(state: VerificationV, elapsed: int, remaining: int) -> bool {
    &&& state.attempts < state.config.max_attempts
    &&& elapsed < state.config.timeout
    &&& remaining > 0
}

/// The wait before the next read.
pub open spec fn wait_before(state: VerificationV, elapsed: int, remaining: int) -> WaitDecision {
    if state.delay == 0 {
        WaitDecision::Proceed
    } else if state.delay >= remaining || state.delay >= left_of(
        state.config.timeout as int,
        elapsed,
    ) {
        WaitDecision::GiveUp
    } else {
        WaitDecision::Sleep(state.delay as u128)
    }
}

/// Time that one read may take.
pub open spec fn read_budget(state: VerificationV, elapsed: int, remaining: int) -> int {
    let left = left_of(state.config.timeout as int, elapsed);
    if remaining < left {
        remaining
    } else {
        left
    }
}

/// Twice the delay, up to its largest value.
pub open spec fn next_delay(delay: int, max_delay: int) -> int {
    if 2 * delay < max_delay {
        2 * delay
    } else {
        max_delay
    }
}

/// Where a read of the message leads: an accepted deletion of a message that is
/// gone has succeeded; gone after an uncertain dispatch, or no answer in time,
/// is indeterminate; anything else is looked at again.
pub open spec fn read_outcome(accepted: bool, reply: ReadReply) -> Option<DeleteOutcome> {
    match reply {
        ReadReply::TimedOut => Some(DeleteOutcome::Indeterminate),
        ReadReply::Present => None,
        ReadReply::Failed(error) => if says_absent(error) {
            if accepted {
                Some(DeleteOutcome::Deleted)
            } else {
                Some(DeleteOutcome::Indeterminate)
            }
        } else {
            None
        },
    }
}

impl DeleteVerification {
    /// Takes the reply to the dispatched deletion. A definitive rejection is
    /// final; anything else is verified by reads.
    pub fn dispatched(reply: DeleteReply, config: VerifyConfig) -> (r: Result<
        DeleteVerification,
        ToolError,
    >)
        ensures
            match reply {
                DeleteReply::Rejected { error, definitive: true } => r == Err::<
                    DeleteVerification,
                    ToolError,
                >(service_failure(error)),
                _ => r matches Ok(state) && verification_wf(state@) && state@ == (VerificationV {
                    accepted: reply == DeleteReply::Accepted,
                    attempts: 0,
                    delay: config.initial_delay as int,
                    config,
                }),
            },
    {
        let accepted: bool = match reply {
            DeleteReply::Accepted => true,
            DeleteReply::Rejected { error, definitive } => {
                if definitive {
                    return Err(
                        match error {
                            Some(error) => error,
                            None => ToolError::upstream(),
                        },
                    );
                }
                false
            },
        };
        Ok(
            DeleteVerification {
                accepted,
                attempts: 0,
                delay: config.initial_delay,
                config,
            },
        )
    }

    /// Decides whether reads may go on.
    pub fn may_continue(&self, elapsed: u128, remaining: u128) -> (r: bool)
        ensures
            r == may_read(self@, elapsed as int, remaining as int),
    {
        self.attempts < self.config.max_attempts && elapsed < self.config.timeout && remaining > 0
    }

    /// Decides on the wait before the next read.
    pub fn wait(&self, elapsed: u128, remaining: u128) -> (r: WaitDecision)
        ensures
            r == wait_before(self@, elapsed as int, remaining as int),
    {
        if self.delay == 0 {
            return WaitDecision::Proceed;
        }
        if self.delay >= remaining || self.delay >= time_left(self.config.timeout, elapsed) {
            WaitDecision::GiveUp
        } else {
            WaitDecision::Sleep(self.delay)
        }
    }

    /// Counts a read and gives its time budget; nothing where no time is left.
    pub fn begin_read(&mut self, elapsed: u128, remaining: u128) -> (r: Option<u128>)
        ensures
            old(self)@.attempts < old(self)@.config.max_attempts ==> verification_wf(final(self)@),
            final(self)@ == (VerificationV {
                attempts: if old(self)@.attempts < usize::MAX {
                    old(self)@.attempts + 1
                } else {
                    old(self)@.attempts
                },
                ..old(self)@
            }),
            match r {
                Some(budget) => budget == read_budget(old(self)@, elapsed as int, remaining as int)
                    && budget > 0,
                None => read_budget(old(self)@, elapsed as int, remaining as int) == 0,
            },
    {
        if self.attempts < usize::MAX {
            self.attempts = self.attempts + 1;
        }
        let left: u128 = time_left(self.config.timeout, elapsed);
        let budget: u128 = if remaining < left {
            remaining
        } else {
            left
        };
        if budget == 0 {
            None
        } else {
            Some(budget)
        }
    }

    /// Takes the reply to a read.
    pub fn replied(self, reply: ReadReply) -> (r: ReadNext)
        ensures
            match read_outcome(self@.accepted, reply) {
                Some(outcome) => r == ReadNext::End(outcome),
                None => r matches ReadNext::Again(state) && state@ == (
                VerificationV {
                    delay: next_delay(self@.delay, self@.config.max_delay as int),
                    ..self@
                }),
            },
    {
        match reply {
            ReadReply::TimedOut => {
                return ReadNext::End(DeleteOutcome::Indeterminate);
            },
            ReadReply::Present => {},
            ReadReply::Failed(error) => {
                if is_authoritative_absence(&error) {
                    return ReadNext::End(
                        if self.accepted {
                            DeleteOutcome::Deleted
                        } else {
                            DeleteOutcome::Indeterminate
                        },
                    );
                }
            },
        }
        let delay: u128 = if self.delay < self.config.max_delay && self.delay
            < self.config.max_delay - self.delay {
            self.delay + self.delay
        } else {
            self.config.max_delay
        };
        ReadNext::Again(
            DeleteVerification {
                accepted: self.accepted,
                attempts: self.attempts,
                delay,
                config: self.config,
            },
        )
    }
}

/// A deletion that was not accepted never succeeds, whatever is read; one that
/// succeeds was accepted, and the message was seen to be gone.
pub proof fn uncertain_deletion_never_succeeds(accepted: bool, reply: ReadReply)
    ensures
        read_outcome(accepted, reply) == Some(DeleteOutcome::Deleted) ==> accepted && (
        reply matches ReadReply::Failed(error) && says_absent(error)),
        !accepted ==> read_outcome(accepted, reply) != Some(DeleteOutcome::Deleted),
{
}

/// Every wait is shorter than the time that is left, so no sleep runs past the
/// deadline or the timeout; and delays never exceed twice the one before nor,
/// after the first, their largest value.
pub proof fn waits_stay_in_time(state: VerificationV, elapsed: int, remaining: int)
    requires
        0 <= state.delay <= u128::MAX,
        0 <= remaining,
        0 <= elapsed,
    ensures
        wait_before(state, elapsed, remaining) matches WaitDecision::Sleep(delay) ==> delay
            < remaining && delay < left_of(state.config.timeout as int, elapsed),
        next_delay(state.delay, state.config.max_delay as int) <= state.config.max_delay,
        next_delay(state.delay, state.config.max_delay as int) <= 2 * state.delay || 2
            * state.delay >= state.config.max_delay,
        read_budget(state, elapsed, remaining) <= remaining,
{
}

/// The output of a deletion.
pub fn delete_output(
    space_id: EntityId,
    chat_id: EntityId,
    message_id: EntityId,
    expected: &ExpectedModifiedAt,
    outcome: DeleteOutcome,
) -> (r: Result<ChatMessageDeleteOutput, ToolError>)
    ensures
        match outcome {
            DeleteOutcome::Deleted => r matches Ok(output) && output.space_id == space_id
                && output.chat_id == chat_id && output.message_id == message_id && output.deleted
                && output.previous_modified_at@ == expected@,
            DeleteOutcome::Indeterminate => r == Err::<ChatMessageDeleteOutput, ToolError>(
                ToolError::MutationIndeterminate,
            ),
        },
{
    match outcome {
        DeleteOutcome::Deleted => Ok(
            ChatMessageDeleteOutput {
                space_id,
                chat_id,
                message_id,
                deleted: true,
                previous_modified_at: expected.as_str().to_owned(),
            },
        ),
        DeleteOutcome::Indeterminate => Err(ToolError::mutation_indeterminate()),
    }
}

} // verus!
