//! Tool contracts and routing: which tools there are, and what a call of one
//! leads to.

use crate::error::ToolError;
use crate::frames::{family_bounds, BodyFrameBounds, FrameFamily};
use crate::text::same_text;
use vstd::prelude::*;

verus! {

/// Selector of the body-block workflows.
pub const BODY_BLOCKS_TOOLSET_NAME: &'static str = "body-blocks";

/// Name of the tool that lists blocks.
pub const BODY_BLOCK_LIST: &'static str = "body_block_list";

/// Name of the tool that creates a block.
pub const BODY_BLOCK_CREATE: &'static str = "body_block_create";

/// Name of the tool that changes a block.
pub const BODY_BLOCK_UPDATE: &'static str = "body_block_update";

/// Name of the tool that deletes a subtree.
pub const BODY_BLOCK_DELETE: &'static str = "body_block_delete";

/// Name of the tool that moves a subtree.
pub const BODY_BLOCK_MOVE: &'static str = "body_block_move";

/// Name of the tool that creates a rich page.
pub const RICH_PAGE_CREATE: &'static str = "rich_page_create";

/// Largest read-write catalog in tokens.
pub const BODY_BLOCKS_CATALOG_TOKEN_CEILING: usize = 25_000;

/// Largest selected read-write contribution in tokens, status included.
pub const BODY_BLOCKS_SELECTED_TOKEN_CEILING: usize = 25_500;

/// Largest read-only catalog in tokens.
pub const BODY_BLOCKS_READ_ONLY_CATALOG_TOKEN_CEILING: usize = 4_000;

/// Largest selected read-only contribution in tokens, status included.
pub const BODY_BLOCKS_READ_ONLY_SELECTED_TOKEN_CEILING: usize = 4_500;

/// Largest single tool contract in tokens.
pub const BODY_BLOCK_TOOL_TOKEN_CEILING: usize = 6_500;

/// What a tool does to its object.
#[derive(Clone, Copy, Debug, PartialEq, Eq, Structural)]
pub enum ToolProfile {
    Read,
    Create,
    Update,
}

/// Contract of a tool: its name, what it says of itself, and what it does.
#[derive(Clone, Debug, PartialEq, Eq)]
pub struct WorkflowTool {
    pub name: &'static str,
    pub description: &'static str,
    pub profile: ToolProfile,
}

/// Failure of a contract's schema.
#[derive(Clone, Copy, Debug, PartialEq, Eq, Structural)]
pub struct SchemaContractError;

/// The contract has this name, description and profile.
pub open spec fn tool_is(
    tool: WorkflowTool,
    name: Seq<char>,
    description: Seq<char>,
    profile: ToolProfile,
) -> bool {
    tool.name@ == name && tool.description@ == description && tool.profile == profile
}

/// Builds a contract.
pub fn workflow_tool(
    name: &'static str,
    description: &'static str,
    profile: ToolProfile,
) -> (r: WorkflowTool)
    ensures
        tool_is(r, name@, description@, profile),
{
    WorkflowTool { name, description, profile }
}

/// A tool in a registry, and whether it mutates.
#[derive(Clone, Debug, PartialEq, Eq)]
pub struct OptionalRegistryTool {
    pub tool: WorkflowTool,
    pub mutation: bool,
}

impl OptionalRegistryTool {
    /// A tool that only reads.
    pub fn read(tool: WorkflowTool) -> (r: OptionalRegistryTool)
        ensures
            r.tool == tool,
            !r.mutation,
    {
        OptionalRegistryTool { tool, mutation: false }
    }

    /// A tool that mutates.
    pub fn mutation(tool: WorkflowTool) -> (r: OptionalRegistryTool)
        ensures
            r.tool == tool,
            r.mutation,
    {
        OptionalRegistryTool { tool, mutation: true }
    }
}

/// What a body tool says of itself.
pub open spec fn body_tool_description(tool: BodyTool) -> Seq<char> {
    match tool {
        BodyTool::List =>
            "Read a bounded page of typed blocks from one stable Anytype body snapshot."@,
        BodyTool::Create =>
            "Insert one typed block at an exact body position and verify its assigned identity and state."@,
        BodyTool::Update =>
            "Apply one bounded typed change to one exact body block and verify the resulting state."@,
        BodyTool::Delete =>
            "Delete one exact body subtree after explicit snapshot, size, and confirmation checks."@,
        BodyTool::Move =>
            "Move one exact body subtree within the same object and verify its new parent and sibling position."@,
        BodyTool::RichCreate =>
            "Create one Anytype page and apply a bounded ordered rich-block plan with explicit partial-completion evidence."@,
    }
}

/// What a body tool does to its object.
pub open spec fn body_tool_profile(tool: BodyTool) -> ToolProfile {
    match tool {
        BodyTool::List => ToolProfile::Read,
        BodyTool::Create => ToolProfile::Create,
        BodyTool::Update => ToolProfile::Update,
        BodyTool::Delete => ToolProfile::Update,
        BodyTool::Move => ToolProfile::Update,
        BodyTool::RichCreate => ToolProfile::Create,
    }
}

/// The contract is that of this body tool.
pub open spec fn is_body_tool(contract: WorkflowTool, tool: BodyTool) -> bool {
    tool_is(
        contract,
        body_tool_name(tool),
        body_tool_description(tool),
        body_tool_profile(tool),
    )
}

/// The tool that lists blocks.
pub fn list_tool() -> (r: WorkflowTool)
    ensures
        is_body_tool(r, BodyTool::List),
{
    workflow_tool(
        BODY_BLOCK_LIST,
        "Read a bounded page of typed blocks from one stable Anytype body snapshot.",
        ToolProfile::Read,
    )
}

/// The tool that creates a block.
pub fn create_tool() -> (r: WorkflowTool)
    ensures
        is_body_tool(r, BodyTool::Create),
{
    workflow_tool(
        BODY_BLOCK_CREATE,
        "Insert one typed block at an exact body position and verify its assigned identity and state.",
        ToolProfile::Create,
    )
}

/// The tool that changes a block.
pub fn update_tool() -> (r: WorkflowTool)
    ensures
        is_body_tool(r, BodyTool::Update),
{
    workflow_tool(
        BODY_BLOCK_UPDATE,
        "Apply one bounded typed change to one exact body block and verify the resulting state.",
        ToolProfile::Update,
    )
}

/// The tool that deletes a subtree.
pub fn delete_tool() -> (r: WorkflowTool)
    ensures
        is_body_tool(r, BodyTool::Delete),
{
    workflow_tool(
        BODY_BLOCK_DELETE,
        "Delete one exact body subtree after explicit snapshot, size, and confirmation checks.",
        ToolProfile::Update,
    )
}

/// The tool that moves a subtree.
pub fn move_tool() -> (r: WorkflowTool)
    ensures
        is_body_tool(r, BodyTool::Move),
{
    workflow_tool(
        BODY_BLOCK_MOVE,
        "Move one exact body subtree within the same object and verify its new parent and sibling position.",
        ToolProfile::Update,
    )
}

/// The tool that creates a rich page.
pub fn rich_create_tool() -> (r: WorkflowTool)
    ensures
        is_body_tool(r, BodyTool::RichCreate),
{
    workflow_tool(
        RICH_PAGE_CREATE,
        "Create one Anytype page and apply a bounded ordered rich-block plan with explicit partial-completion evidence.",
        ToolProfile::Create,
    )
}

/// The body tools in registry order.
pub open spec fn body_tool_order() -> Seq<BodyTool> {
    seq![
        BodyTool::List,
        BodyTool::Create,
        BodyTool::Update,
        BodyTool::Delete,
        BodyTool::Move,
        BodyTool::RichCreate,
    ]
}

/// The body tools: one that reads, five that mutate.
pub fn body_tools() -> (r: Vec<OptionalRegistryTool>)
    ensures
        r.len() == body_tool_order().len(),
        forall|i: int|
            0 <= i < body_tool_order().len() ==> is_body_tool(
                (#[trigger] r@[i]).tool,
                body_tool_order()[i],
            ) && r@[i].mutation == (body_tool_order()[i] != BodyTool::List),
{
    let mut tools: Vec<OptionalRegistryTool> = Vec::new();
    tools.push(OptionalRegistryTool::read(list_tool()));
    tools.push(OptionalRegistryTool::mutation(create_tool()));
    tools.push(OptionalRegistryTool::mutation(update_tool()));
    tools.push(OptionalRegistryTool::mutation(delete_tool()));
    tools.push(OptionalRegistryTool::mutation(move_tool()));
    tools.push(OptionalRegistryTool::mutation(rich_create_tool()));
    tools
}

/// The tools that a registry offers: all of them, or only those that read.
pub fn offered_tools(tools: &Vec<OptionalRegistryTool>, read_only: bool) -> (r: Vec<&'static str>)
    ensures
        r@ == offered_names(tools@, read_only, tools.len() as int),
{
    let mut names: Vec<&'static str> = Vec::new();
    let mut i: usize = 0;
    while i < tools.len()
        invariant
            i <= tools.len(),
            names@ == offered_names(tools@, read_only, i as int),
        decreases tools.len() - i,
    {
        if !read_only || !tools[i].mutation {
            names.push(tools[i].tool.name);
        }
        i += 1;
    }
    names
}

/// Names of the offered tools among the first `n`.
pub open spec fn offered_names(
    tools: Seq<OptionalRegistryTool>,
    read_only: bool,
    n: int,
) -> Seq<&'static str>
    decreases n,
{
    if n <= 0 {
        Seq::empty()
    } else if read_only && tools[n - 1].mutation {
        offered_names(tools, read_only, n - 1)
    } else {
        offered_names(tools, read_only, n - 1).push(tools[n - 1].tool.name)
    }
}

/// A body tool.
#[derive(Clone, Copy, Debug, PartialEq, Eq, Structural)]
pub enum BodyTool {
    List,
    Create,
    Update,
    Delete,
    Move,
    RichCreate,
}

/// What a call leads to.
#[derive(Clone, Copy, Debug, PartialEq, Eq, Structural)]
pub enum BodyRoute {
    /// The request is bounded, decoded and run.
    Run(BodyTool),
    /// The call is refused before it is decoded.
    Refuse(ToolError),
    MethodNotFound,
}

/// Name of a body tool.
pub open spec fn body_tool_name(tool: BodyTool) -> Seq<char> {
    match tool {
        BodyTool::List => BODY_BLOCK_LIST@,
        BodyTool::Create => BODY_BLOCK_CREATE@,
        BodyTool::Update => BODY_BLOCK_UPDATE@,
        BodyTool::Delete => BODY_BLOCK_DELETE@,
        BodyTool::Move => BODY_BLOCK_MOVE@,
        BodyTool::RichCreate => RICH_PAGE_CREATE@,
    }
}

/// Frame family of a body tool.
pub open spec fn body_tool_family(tool: BodyTool) -> FrameFamily {
    match tool {
        BodyTool::List => FrameFamily::List,
        BodyTool::RichCreate => FrameFamily::Rich,
        _ => FrameFamily::Primitive,
    }
}

impl BodyTool {
    /// Bounds of the tool's request and success.
    pub fn bounds(self) -> (r: BodyFrameBounds)
        ensures
            r == family_bounds(body_tool_family(self)),
    {
        match self {
            BodyTool::List => FrameFamily::List.bounds(),
            BodyTool::RichCreate => FrameFamily::Rich.bounds(),
            _ => FrameFamily::Primitive.bounds(),
        }
    }
}

/// Different body tools have different names.
pub proof fn body_tool_names_differ(a: BodyTool, b: BodyTool)
    ensures
        body_tool_name(a) == body_tool_name(b) ==> a == b,
{
    reveal_strlit("body_block_list");
    reveal_strlit("body_block_create");
    reveal_strlit("body_block_update");
    reveal_strlit("body_block_delete");
    reveal_strlit("body_block_move");
    reveal_strlit("rich_page_create");
    assert("body_block_list"@[11] == 'l');
    assert("body_block_create"@[11] == 'c');
    assert("body_block_update"@[11] == 'u');
    assert("body_block_delete"@[11] == 'd');
    assert("body_block_move"@[11] == 'm');
    assert("rich_page_create"@[11] == 'r');
    assert("rich_page_create"@[0] == 'r');
    assert("body_block_list"@[0] == 'b');
    assert("body_block_create"@[0] == 'b');
    assert("body_block_update"@[0] == 'b');
    assert("body_block_delete"@[0] == 'b');
    assert("body_block_move"@[0] == 'b');
}

/// Routes a call by its name. A read-only process refuses every mutation before
/// anything of the request is decoded.
pub fn route_body_tool(name: &str, read_only: bool) -> (r: BodyRoute)
    ensures
        match r {
            BodyRoute::Run(tool) => name@ == body_tool_name(tool) && (read_only ==> tool
                == BodyTool::List),
            BodyRoute::Refuse(error) => error == ToolError::Validation && read_only
                && exists|tool: BodyTool| #[trigger]
                body_tool_name(tool) == name@ && tool != BodyTool::List,
            BodyRoute::MethodNotFound => forall|tool: BodyTool| #[trigger]
                body_tool_name(tool) != name@,
        },
{
    let tool: BodyTool = if same_text(name, BODY_BLOCK_LIST) {
        BodyTool::List
    } else if same_text(name, BODY_BLOCK_CREATE) {
        BodyTool::Create
    } else if same_text(name, BODY_BLOCK_UPDATE) {
        BodyTool::Update
    } else if same_text(name, BODY_BLOCK_DELETE) {
        BodyTool::Delete
    } else if same_text(name, BODY_BLOCK_MOVE) {
        BodyTool::Move
    } else if same_text(name, RICH_PAGE_CREATE) {
        BodyTool::RichCreate
    } else {
        return BodyRoute::MethodNotFound;
    };
    assert(body_tool_name(tool) == name@);
    if read_only && tool != BodyTool::List {
        return BodyRoute::Refuse(ToolError::validation());
    }
    BodyRoute::Run(tool)
}

/// Whether mutations are allowed.
#[derive(Clone, Copy, Debug, PartialEq, Eq, Structural)]
pub enum MutationAccess {
    ReadOnly,
    Allowed,
}

/// Refuses a mutation where only reads are allowed.
pub fn require_mutation_access(access: MutationAccess) -> (r: Result<(), ToolError>)
    ensures
        r == (if access == MutationAccess::Allowed {
            Ok::<(), ToolError>(())
        } else {
            Err(ToolError::Validation)
        }),
{
    match access {
        MutationAccess::Allowed => Ok(()),
        MutationAccess::ReadOnly => Err(ToolError::validation()),
    }
}

/// Scenarios that exercise the body tools by script.
pub const SCRIPTED_SCENARIOS: [&'static str; 19] = [
    "body_list_ordered_pages",
    "body_list_revision_conflict",
    "body_limits_fail_closed",
    "body_opaque_read_only",
    "body_create_idempotent",
    "body_update_one_change",
    "body_delete_confirmed_subtree",
    "body_move_same_object",
    "body_relation_workflows",
    "body_targeted_heading_append",
    "rich_page_complete",
    "rich_page_partial",
    "rich_page_indeterminate",
    "rich_page_replay_drift",
    "body_read_only_catalog",
    "body_read_restricted",
    "body_network_closed",
    "body_protocol_parity",
    "body_redaction_and_budgets",
];

/// Scenarios that exercise the body tools against a headless service.
pub const HEADLESS_SCENARIOS: [&'static str; 3] = [
    "body_blocks_direct_real_headless",
    "body_blocks_stable_stdio_real_headless",
    "body_blocks_preview_stdio_real_headless",
];

/// Counters of a body handler's life, without payload.
#[derive(Clone, Copy, Debug, Default, PartialEq, Eq, Structural)]
pub struct BodyAcceptanceMetricsSnapshot {
    pub page_create_polls: usize,
    pub show_attempts: usize,
    pub foreground_close_attempts: usize,
    pub foreground_close_confirmed: usize,
    pub fallback_close_attempts: usize,
    pub fallback_close_confirmed: usize,
    pub write_polls: usize,
    pub show_limit_rejections: usize,
    pub non_show_limit_rejections: usize,
    pub close_limit_rejections: usize,
    pub mutation_limit_rejections: usize,
}

/// Largest number of reads that verify one body write.
pub const MAX_BODY_VERIFY_ATTEMPTS: usize = 3;

/// Number of reads that verify one body write, of a configured number; where
/// none is configured, the largest.
pub fn body_verify_attempts(configured: usize) -> (r: usize)
    ensures
        r == (if 1 <= configured < MAX_BODY_VERIFY_ATTEMPTS {
            configured
        } else {
            MAX_BODY_VERIFY_ATTEMPTS
        }),
{
    if configured >= 1 && configured < MAX_BODY_VERIFY_ATTEMPTS {
        configured
    } else {
        MAX_BODY_VERIFY_ATTEMPTS
    }
}

} // verus!
