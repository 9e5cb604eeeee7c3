//! Byte and token bounds of requests and results.

use crate::error::ToolError;
use crate::json::{json_text, recursively_sorted_json, Json};
use crate::outside::{o200k_token_count, o200k_tokens};
use vstd::prelude::*;

verus! {

/// Largest arguments of a request in bytes.
pub const MAX_BODY_INPUT_BYTES: usize = 524_288;

/// Largest request frame in bytes.
pub const MAX_BODY_REQUEST_FRAME_BYTES: usize = 557_056;

/// Largest result frame in bytes.
pub const MAX_BODY_SUCCESS_FRAME_BYTES: usize = 1_114_112;

/// Bytes that the envelope of a frame may add.
pub const BODY_FRAME_ENVELOPE_HEADROOM: usize = 32_768;

/// Most tokens of a listing's arguments.
pub const MAX_LIST_REQUEST_TOKENS: usize = 2_000;

/// Most tokens of a single-block request's arguments.
pub const MAX_PRIMITIVE_REQUEST_TOKENS: usize = 60_000;

/// Most tokens of a rich page request's arguments.
pub const MAX_RICH_REQUEST_TOKENS: usize = 80_000;

/// Most tokens of a listing.
pub const MAX_LIST_SUCCESS_TOKENS: usize = 120_000;

/// Most tokens of a single-block result.
pub const MAX_PRIMITIVE_SUCCESS_TOKENS: usize = 24_000;

/// Most tokens of a rich page result.
pub const MAX_RICH_SUCCESS_TOKENS: usize = 20_000;

/// Largest failure in tokens.
pub const MAX_ERROR_RESULT_TOKENS: usize = 2_000;

/// Most bytes of a listing.
pub const MAX_LIST_SUCCESS_BYTES: usize = 524_288;

/// Most bytes of a single-block result.
pub const MAX_PRIMITIVE_SUCCESS_BYTES: usize = 98_304;

/// Most bytes of a rich page result.
pub const MAX_RICH_SUCCESS_BYTES: usize = 131_072;

/// Bounds of one tool's request and success.
#[derive(Clone, Copy, Debug, PartialEq, Eq, Structural)]
pub struct BodyFrameBounds {
    pub request_tokens: usize,
    pub success_tokens: usize,
    pub success_bytes: usize,
}

/// Family of tools that share frame bounds.
#[derive(Clone, Copy, Debug, PartialEq, Eq, Structural)]
pub enum FrameFamily {
    List,
    Primitive,
    Rich,
}

/// Bounds of a family of tools.
pub open spec fn family_bounds(family: FrameFamily) -> BodyFrameBounds {
    match family {
        FrameFamily::List => BodyFrameBounds {
            request_tokens: MAX_LIST_REQUEST_TOKENS,
            success_tokens: MAX_LIST_SUCCESS_TOKENS,
            success_bytes: MAX_LIST_SUCCESS_BYTES,
        },
        FrameFamily::Primitive => BodyFrameBounds {
            request_tokens: MAX_PRIMITIVE_REQUEST_TOKENS,
            success_tokens: MAX_PRIMITIVE_SUCCESS_TOKENS,
            success_bytes: MAX_PRIMITIVE_SUCCESS_BYTES,
        },
        FrameFamily::Rich => BodyFrameBounds {
            request_tokens: MAX_RICH_REQUEST_TOKENS,
            success_tokens: MAX_RICH_SUCCESS_TOKENS,
            success_bytes: MAX_RICH_SUCCESS_BYTES,
        },
    }
}

impl FrameFamily {
    /// Bounds of the family.
    pub fn bounds(self) -> (r: BodyFrameBounds)
        ensures
            r == family_bounds(self),
    {
        match self {
            FrameFamily::List => BodyFrameBounds {
                request_tokens: MAX_LIST_REQUEST_TOKENS,
                success_tokens: MAX_LIST_SUCCESS_TOKENS,
                success_bytes: MAX_LIST_SUCCESS_BYTES,
            },
            FrameFamily::Primitive => BodyFrameBounds {
                request_tokens: MAX_PRIMITIVE_REQUEST_TOKENS,
                success_tokens: MAX_PRIMITIVE_SUCCESS_TOKENS,
                success_bytes: MAX_PRIMITIVE_SUCCESS_BYTES,
            },
            FrameFamily::Rich => BodyFrameBounds {
                request_tokens: MAX_RICH_REQUEST_TOKENS,
                success_tokens: MAX_RICH_SUCCESS_TOKENS,
                success_bytes: MAX_RICH_SUCCESS_BYTES,
            },
        }
    }
}

/// Tokens of a value, written with the members of every object in the order of
/// their keys.
pub open spec fn json_tokens(value: Json) -> Option<nat> {
    o200k_tokens(json_text(value))
}

/// Counts the tokens of a value.
pub fn body_token_count(value: &Json) -> (r: Result<usize, ToolError>)
    ensures
        match r {
            Ok(count) => json_tokens(*value) == Some(count as nat),
            Err(error) => json_tokens(*value) is None && error == ToolError::Upstream,
        },
{
    match o200k_token_count(recursively_sorted_json(value).as_str()) {
        Some(count) => Ok(count),
        None => Err(ToolError::upstream()),
    }
}

/// Encoded input in bytes, where it is within the input bound.
pub fn encoded_input_bytes(encoded: &Vec<u8>) -> (r: Result<usize, ToolError>)
    ensures
        r == (if encoded.len() > MAX_BODY_INPUT_BYTES {
            Err::<usize, ToolError>(ToolError::Validation)
        } else {
            Ok(encoded.len())
        }),
{
    if encoded.len() > MAX_BODY_INPUT_BYTES {
        Err(ToolError::validation())
    } else {
        Ok(encoded.len())
    }
}

/// Refuses an encoded success above `maximum` bytes.
pub fn ensure_success_bytes(encoded: &Vec<u8>, maximum: usize) -> (r: Result<(), ToolError>)
    ensures
        r == (if encoded.len() > maximum {
            Err::<(), ToolError>(ToolError::BoundedResult)
        } else {
            Ok(())
        }),
{
    if encoded.len() > maximum {
        Err(ToolError::bounded_result())
    } else {
        Ok(())
    }
}

/// What the bounds say of a request, once its tokens are counted.
pub open spec fn request_outcome(
    tokens: Option<nat>,
    argument_bytes: int,
    request_bytes: int,
    bounds: BodyFrameBounds,
) -> Result<(), ToolError> {
    match tokens {
        None => Err(ToolError::Upstream),
        Some(tokens) => if argument_bytes > MAX_BODY_INPUT_BYTES || tokens > bounds.request_tokens
            || request_bytes + BODY_FRAME_ENVELOPE_HEADROOM > MAX_BODY_REQUEST_FRAME_BYTES {
            Err(ToolError::BoundedResult)
        } else {
            Ok(())
        },
    }
}

/// Holds a request whose tokens are counted against its bounds.
pub fn check_request(
    tokens: Option<usize>,
    argument_bytes: usize,
    request_bytes: usize,
    bounds: BodyFrameBounds,
) -> (r: Result<(), ToolError>)
    ensures
        r == request_outcome(
            match tokens {
                Some(tokens) => Some(tokens as nat),
                None => None,
            },
            argument_bytes as int,
            request_bytes as int,
            bounds,
        ),
{
    let tokens: usize = match tokens {
        Some(tokens) => tokens,
        None => {
            return Err(ToolError::upstream());
        },
    };
    if argument_bytes > MAX_BODY_INPUT_BYTES || tokens > bounds.request_tokens || request_bytes
        > MAX_BODY_REQUEST_FRAME_BYTES - BODY_FRAME_ENVELOPE_HEADROOM {
        Err(ToolError::bounded_result())
    } else {
        Ok(())
    }
}

/// The arguments of a request: their value and their encoding in bytes.
#[derive(Debug)]
pub struct EncodedArguments {
    pub value: Json,
    pub bytes: usize,
}

/// Holds a request against its bounds: it needs arguments, and these and the
/// whole frame, encoded, have to fit.
pub fn ensure_body_request_bounds(
    arguments: Option<&EncodedArguments>,
    request_bytes: usize,
    bounds: BodyFrameBounds,
) -> (r: Result<(), ToolError>)
    ensures
        r == (match arguments {
            Some(arguments) => request_outcome(
                json_tokens(arguments.value),
                arguments.bytes as int,
                request_bytes as int,
                bounds,
            ),
            None => Err(ToolError::Validation),
        }),
{
    match arguments {
        Some(arguments) => {
            let tokens: Option<usize> = match body_token_count(&arguments.value) {
                Ok(tokens) => Some(tokens),
                Err(_) => None,
            };
            check_request(tokens, arguments.bytes, request_bytes, bounds)
        },
        None => Err(ToolError::validation()),
    }
}

/// A tool result: its value and its encoding in bytes, whether it is a failure,
/// and the encoding of its structured part in bytes.
#[derive(Debug)]
pub struct EncodedResult {
    pub value: Json,
    pub bytes: usize,
    pub is_error: Option<bool>,
    pub structured_bytes: Option<usize>,
}

/// What the bounds say of a result, once its tokens are counted.
pub open spec fn result_outcome(
    tokens: Option<nat>,
    complete_bytes: int,
    is_error: Option<bool>,
    structured_bytes: Option<int>,
    bounds: BodyFrameBounds,
) -> Result<(), ToolError> {
    match tokens {
        None => Err(ToolError::Upstream),
        Some(tokens) => if complete_bytes + BODY_FRAME_ENVELOPE_HEADROOM
            > MAX_BODY_SUCCESS_FRAME_BYTES {
            Err(ToolError::BoundedResult)
        } else if is_error == Some(true) {
            if tokens > MAX_ERROR_RESULT_TOKENS {
                Err(ToolError::BoundedResult)
            } else {
                Ok(())
            }
        } else {
            match structured_bytes {
                None => Err(ToolError::Upstream),
                Some(bytes) => if bytes > bounds.success_bytes || tokens > bounds.success_tokens {
                    Err(ToolError::BoundedResult)
                } else {
                    Ok(())
                },
            }
        },
    }
}

/// Holds a result whose tokens are counted against its bounds.
pub fn check_result(
    tokens: Option<usize>,
    complete_bytes: usize,
    is_error: Option<bool>,
    structured_bytes: Option<usize>,
    bounds: BodyFrameBounds,
) -> (r: Result<(), ToolError>)
    ensures
        r == result_outcome(
            match tokens {
                Some(tokens) => Some(tokens as nat),
                None => None,
            },
            complete_bytes as int,
            is_error,
            match structured_bytes {
                Some(bytes) => Some(bytes as int),
                None => None,
            },
            bounds,
        ),
{
    let tokens: usize = match tokens {
        Some(tokens) => tokens,
        None => {
            return Err(ToolError::upstream());
        },
    };
    if complete_bytes > MAX_BODY_SUCCESS_FRAME_BYTES - BODY_FRAME_ENVELOPE_HEADROOM {
        return Err(ToolError::bounded_result());
    }
    if let Some(true) = is_error {
        if tokens > MAX_ERROR_RESULT_TOKENS {
            return Err(ToolError::bounded_result());
        }
        return Ok(());
    }
    match structured_bytes {
        None => Err(ToolError::upstream()),
        Some(bytes) => if bytes > bounds.success_bytes || tokens > bounds.success_tokens {
            Err(ToolError::bounded_result())
        } else {
            Ok(())
        },
    }
}

/// What the bounds say of an encoded result.
pub open spec fn encoded_result_outcome(
    result: EncodedResult,
    bounds: BodyFrameBounds,
) -> Result<(), ToolError> {
    result_outcome(
        json_tokens(result.value),
        result.bytes as int,
        result.is_error,
        match result.structured_bytes {
            Some(bytes) => Some(bytes as int),
            None => None,
        },
        bounds,
    )
}

/// Holds an encoded result against its bounds.
pub fn validate_body_result_bounds(result: &EncodedResult, bounds: BodyFrameBounds) -> (r: Result<
    (),
    ToolError,
>)
    ensures
        r == encoded_result_outcome(*result, bounds),
{
    let tokens: Option<usize> = match body_token_count(&result.value) {
        Ok(tokens) => Some(tokens),
        Err(_) => None,
    };
    check_result(tokens, result.bytes, result.is_error, result.structured_bytes, bounds)
}

/// A result that holds its bounds, or the failure that stands in its place.
pub fn enforce_body_result_bounds(result: EncodedResult, bounds: BodyFrameBounds) -> (r: Result<
    EncodedResult,
    ToolError,
>)
    ensures
        match encoded_result_outcome(result, bounds) {
            Ok(()) => r == Ok::<EncodedResult, ToolError>(result),
            Err(error) => r == Err::<EncodedResult, ToolError>(error),
        },
{
    match validate_body_result_bounds(&result, bounds) {
        Ok(()) => Ok(result),
        Err(error) => Err(error),
    }
}

} // verus!
