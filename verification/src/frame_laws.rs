//! Which requests and results fit their frame, and which tools are offered.

use crate::catalog::{
    body_tool_family, body_tool_order, body_tool_profile, offered_names, BodyTool,
    OptionalRegistryTool,
};
use crate::error::ToolError;
use crate::frames::{
    family_bounds, request_outcome, result_outcome, BodyFrameBounds, FrameFamily,
    BODY_FRAME_ENVELOPE_HEADROOM, MAX_BODY_INPUT_BYTES, MAX_BODY_REQUEST_FRAME_BYTES,
    MAX_BODY_SUCCESS_FRAME_BYTES, MAX_ERROR_RESULT_TOKENS, MAX_LIST_REQUEST_TOKENS,
    MAX_LIST_SUCCESS_BYTES, MAX_LIST_SUCCESS_TOKENS, MAX_PRIMITIVE_REQUEST_TOKENS,
    MAX_PRIMITIVE_SUCCESS_BYTES, MAX_PRIMITIVE_SUCCESS_TOKENS, MAX_RICH_REQUEST_TOKENS,
    MAX_RICH_SUCCESS_BYTES, MAX_RICH_SUCCESS_TOKENS,
};
use vstd::prelude::*;

verus! {

/// A request fits exactly where its tokens can be counted and its arguments, its
/// tokens and its frame are all in bounds. A request that cannot be counted is the
/// service's failure, one out of bounds is too large.
pub proof fn requests_fit_their_frame(
    tokens: Option<nat>,
    arguments: int,
    request: int,
    bounds: BodyFrameBounds,
)
    ensures
        ({
            let outcome = request_outcome(tokens, arguments, request, bounds);
            &&& outcome is Ok <==> (tokens matches Some(count) && count <= bounds.request_tokens)
                && arguments <= MAX_BODY_INPUT_BYTES && request
                <= MAX_BODY_REQUEST_FRAME_BYTES - BODY_FRAME_ENVELOPE_HEADROOM
            &&& outcome matches Err(error) ==> (if tokens is None {
                error == ToolError::Upstream
            } else {
                error == ToolError::BoundedResult
            })
        }),
{
}

/// A result fits exactly where its tokens can be counted, its frame is in bounds,
/// and, for an error, its tokens are in the bound of errors, or, for a success, it
/// has a structured part in bounds and its tokens are in the bound of successes. A
/// success without a structured part is the service's failure.
pub proof fn results_fit_their_frame(
    tokens: Option<nat>,
    complete: int,
    is_error: Option<bool>,
    structured: Option<int>,
    bounds: BodyFrameBounds,
)
    ensures
        ({
            let outcome = result_outcome(tokens, complete, is_error, structured, bounds);
            let framed = complete <= MAX_BODY_SUCCESS_FRAME_BYTES - BODY_FRAME_ENVELOPE_HEADROOM;
            let failed = is_error == Some(true);
            &&& outcome is Ok <==> framed && (tokens matches Some(count) && (if failed {
                count <= MAX_ERROR_RESULT_TOKENS
            } else {
                count <= bounds.success_tokens && (structured matches Some(bytes) && bytes
                    <= bounds.success_bytes)
            }))
            &&& outcome == Err::<(), ToolError>(ToolError::Upstream) <==> tokens is None || (framed
                && !failed && structured is None)
            &&& outcome matches Err(error) ==> error == ToolError::Upstream || error
                == ToolError::BoundedResult
        }),
{
}

/// Listings and page plans have bounds of their own; every other tool shares those
/// of a single block.
pub proof fn tools_have_the_bounds_of_their_family(tool: BodyTool)
    ensures
        body_tool_family(tool) is List <==> tool is List,
        body_tool_family(tool) is Rich <==> tool is RichCreate,
        body_tool_family(tool) is Primitive <==> tool is Create || tool is Update || tool is Delete
            || tool is Move,
        body_tool_profile(tool) is Read <==> tool is List,
        body_tool_profile(tool) is Create <==> tool is Create || tool is RichCreate,
        body_tool_profile(tool) is Update <==> tool is Update || tool is Delete || tool is Move,
        body_tool_order().no_duplicates(),
        body_tool_order().contains(tool),
{
    let order = body_tool_order();
    assert(order[0] is List && order[1] is Create && order[2] is Update && order[3] is Delete
        && order[4] is Move && order[5] is RichCreate);
}

/// A family is held to its own three bounds.
pub proof fn families_have_their_own_bounds(family: FrameFamily)
    ensures
        family_bounds(family).request_tokens == (match family {
            FrameFamily::List => MAX_LIST_REQUEST_TOKENS,
            FrameFamily::Primitive => MAX_PRIMITIVE_REQUEST_TOKENS,
            FrameFamily::Rich => MAX_RICH_REQUEST_TOKENS,
        }),
        family_bounds(family).success_tokens == (match family {
            FrameFamily::List => MAX_LIST_SUCCESS_TOKENS,
            FrameFamily::Primitive => MAX_PRIMITIVE_SUCCESS_TOKENS,
            FrameFamily::Rich => MAX_RICH_SUCCESS_TOKENS,
        }),
        family_bounds(family).success_bytes == (match family {
            FrameFamily::List => MAX_LIST_SUCCESS_BYTES,
            FrameFamily::Primitive => MAX_PRIMITIVE_SUCCESS_BYTES,
            FrameFamily::Rich => MAX_RICH_SUCCESS_BYTES,
        }),
{
}

/// Every tool is offered under its own name, in order, where writes are allowed;
/// where they are not, exactly the tools without a mutation are.
pub proof fn tools_are_offered_in_order(
    tools: Seq<OptionalRegistryTool>,
    read_only: bool,
    n: int,
)
    requires
        0 <= n < tools.len(),
    ensures
        offered_names(tools, read_only, 0).len() == 0,
        tools[n].mutation && read_only ==> offered_names(tools, read_only, n + 1)
            == offered_names(tools, read_only, n),
        !tools[n].mutation || !read_only ==> offered_names(tools, read_only, n + 1)
            == offered_names(tools, read_only, n).push(tools[n].tool.name),
{
}

} // verus!
