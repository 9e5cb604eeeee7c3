//! What the deletion of a message comes to: which message may be deleted, which
//! reads and waits verify it, and which replies end it.

use crate::chat_add::ChatMessage;
use crate::chat_delete::{
    canonical_timestamp, may_read, next_delay, preflight_outcome, read_budget, read_outcome,
    says_absent, wait_before, DeleteOutcome, ReadReply, ServiceError, VerificationV, WaitDecision,
};
use crate::error::ToolError;
use crate::outside::{digits_value, timestamp_char, timestamp_shape};
use vstd::prelude::*;

verus! {

/// A message may be deleted exactly where it is the expected one and was last
/// modified when expected. Another time is a conflict; another message, or one
/// without a time, is the service's failure.
pub proof fn only_the_expected_message_may_be_deleted(
    message: ChatMessage,
    id: Seq<char>,
    modified_at: Seq<char>,
)
    ensures
        preflight_outcome(message, id, modified_at) is Ok <==> message.id@ == id && (
        message.modified_at matches Some(actual) && actual@ == modified_at),
        preflight_outcome(message, id, modified_at) == Err::<(), ToolError>(ToolError::Conflict)
            <==> message.id@ == id && (message.modified_at matches Some(actual) && actual@
            != modified_at),
        preflight_outcome(message, id, modified_at) == Err::<(), ToolError>(ToolError::Upstream)
            <==> message.id@ != id || message.modified_at is None,
{
}

/// A read ends the verification exactly where it says that the message is gone,
/// which only a missing message or the status 404 says, or where it does not
/// answer in time. The deletion has succeeded exactly where it was accepted and
/// the message is gone; every other end is uncertain.
pub proof fn reads_end_where_the_message_is_gone(accepted: bool, reply: ReadReply)
    ensures
        ({
            let gone = reply matches ReadReply::Failed(error) && (error is NotFound
                || error == ServiceError::Api { code: 404 });
            let outcome = read_outcome(accepted, reply);
            &&& outcome == Some(DeleteOutcome::Deleted) <==> gone && accepted
            &&& outcome == Some(DeleteOutcome::Indeterminate) <==> reply is TimedOut || (gone
                && !accepted)
            &&& outcome is None <==> reply is Present || (reply is Failed && !gone)
        }),
        forall|error: ServiceError| #[trigger]
            says_absent(error) <==> error is NotFound || error == (ServiceError::Api { code: 404 }),
{
}

/// Reads go on exactly while an attempt, time before the timeout and time before
/// the deadline are left. A read may take the shorter of both times. The wait
/// before it is the current delay, and it is given up where the delay is not
/// shorter than both.
pub proof fn reads_and_waits_fit_in_the_time_left(
    state: VerificationV,
    elapsed: int,
    remaining: int,
)
    requires
        0 <= state.delay <= u128::MAX,
        0 <= elapsed,
        0 <= remaining,
    ensures
        may_read(state, elapsed, remaining) <==> state.attempts < state.config.max_attempts
            && elapsed < state.config.timeout && 0 < remaining,
        may_read(state, elapsed, remaining) ==> {
            let budget = read_budget(state, elapsed, remaining);
            &&& 0 < budget <= remaining
            &&& elapsed + budget <= state.config.timeout
            &&& budget == remaining || elapsed + budget == state.config.timeout
        },
        state.config.timeout <= elapsed ==> read_budget(state, elapsed, remaining) == 0,
        remaining == 0 ==> read_budget(state, elapsed, remaining) == 0,
        match wait_before(state, elapsed, remaining) {
            WaitDecision::Proceed => state.delay == 0,
            WaitDecision::Sleep(delay) => delay == state.delay && 0 < delay < remaining && elapsed
                + delay < state.config.timeout,
            WaitDecision::GiveUp => 0 < state.delay && (remaining <= state.delay
                || state.config.timeout <= elapsed + state.delay),
        },
{
}

/// Delay after `n` further reads.
pub open spec fn delay_after(delay: int, max_delay: int, n: nat) -> int
    decreases n,
{
    if n == 0 {
        delay
    } else {
        next_delay(delay_after(delay, max_delay, (n - 1) as nat), max_delay)
    }
}

/// Delays double from read to read until they reach their largest value, and stay
/// there.
pub proof fn delays_double_up_to_the_largest(delay: int, max_delay: int, n: nat)
    requires
        0 <= delay <= max_delay,
    ensures
        0 <= delay_after(delay, max_delay, n) <= max_delay,
        delay_after(delay, max_delay, n + 1) == (if 2 * delay_after(delay, max_delay, n)
            <= max_delay {
            2 * delay_after(delay, max_delay, n)
        } else {
            max_delay
        }),
    decreases n,
{
    if n > 0 {
        delays_double_up_to_the_largest(delay, max_delay, (n - 1) as nat);
    }
}

/// Digit at a position of a text.
pub open spec fn digit_at(text: Seq<char>, i: int) -> int {
    text[i] as int - '0' as int
}

/// Number that two digits of a text spell.
pub open spec fn two_digits(text: Seq<char>, i: int) -> int {
    10 * digit_at(text, i) + digit_at(text, i + 1)
}

/// A timestamp is canonical exactly where it spells a date and a time in the one
/// form `YYYY-MM-DDThh:mm:ss.mmmZ`: every character in its place, a year from one
/// on, a day that the month has in that year, and a time of the day, where the
/// second may be a leap second.
pub proof fn canonical_timestamps_spell_a_time(text: Seq<char>)
    ensures
        canonical_timestamp(text) <==> {
            let year = 100 * two_digits(text, 0) + two_digits(text, 2);
            let month = two_digits(text, 5);
            let day = two_digits(text, 8);
            let leap = year % 4 == 0 && (year % 100 != 0 || year % 400 == 0);
            &&& text.len() == 24
            &&& text[4] == '-' && text[7] == '-' && text[10] == 'T' && text[13] == ':'
            &&& text[16] == ':' && text[19] == '.' && text[23] == 'Z'
            &&& forall|i: int|
                0 <= i < 24 && i != 4 && i != 7 && i != 10 && i != 13 && i != 16 && i != 19
                    && i != 23 ==> '0' <= #[trigger] text[i] <= '9'
            &&& 1 <= year
            &&& 1 <= month <= 12
            &&& 1 <= day <= 31
            &&& month == 4 || month == 6 || month == 9 || month == 11 ==> day <= 30
            &&& month == 2 ==> day <= 29 && (day == 29 ==> leap)
            &&& two_digits(text, 11) < 24
            &&& two_digits(text, 14) < 60
            &&& two_digits(text, 17) <= 60
        },
{
    reveal_with_fuel(digits_value, 5);
    assert forall|i: int| #[trigger] digits_value(text, i, 2) == two_digits(text, i) by {}
    assert(digits_value(text, 0, 4) == 100 * two_digits(text, 0) + two_digits(text, 2));
    if text.len() == 24 && text[4] == '-' && text[7] == '-' && text[10] == 'T' && text[13] == ':'
        && text[16] == ':' && text[19] == '.' && text[23] == 'Z' && (forall|i: int|
        0 <= i < 24 && i != 4 && i != 7 && i != 10 && i != 13 && i != 16 && i != 19 && i != 23
            ==> '0' <= #[trigger] text[i] <= '9') {
        assert(timestamp_shape(text)) by {
            assert forall|i: int| 0 <= i < 24 implies timestamp_char(i, #[trigger] text[i]) by {}
        }
    }
    if timestamp_shape(text) {
        assert(timestamp_char(4, text[4]) && timestamp_char(7, text[7]) && timestamp_char(
            10,
            text[10],
        ) && timestamp_char(13, text[13]) && timestamp_char(16, text[16]) && timestamp_char(
            19,
            text[19],
        ) && timestamp_char(23, text[23]));
        assert forall|i: int|
            0 <= i < 24 && i != 4 && i != 7 && i != 10 && i != 13 && i != 16 && i != 19 && i
                != 23 implies '0' <= #[trigger] text[i] <= '9' by {
            assert(timestamp_char(i, text[i]));
        }
    }
}

} // verus!
