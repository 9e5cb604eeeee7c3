//! Inputs, composition and projection of single blocks, pages and fingerprints.

use any_mcp::attempts::IdempotencyStore;
use any_mcp::catalog::{
    body_tools, body_verify_attempts, offered_tools, require_mutation_access, route_body_tool,
    BodyRoute, BodyTool, MutationAccess, ToolProfile, BODY_BLOCKS_CATALOG_TOKEN_CEILING,
    BODY_BLOCKS_TOOLSET_NAME, BODY_BLOCK_CREATE, BODY_BLOCK_DELETE, BODY_BLOCK_LIST,
    BODY_BLOCK_MOVE, BODY_BLOCK_UPDATE, MAX_BODY_VERIFY_ATTEMPTS, RICH_PAGE_CREATE,
};
use any_mcp::compose::{
    block_change, new_block, new_block_variable_bytes, BlockChange, NewContent,
};
use any_mcp::domain::{
    ColorInput, EntityId, IdempotencyKey, LocalKey, OpaqueKind, RelationKey, SnapshotHash,
};
use any_mcp::encoding::CanonicalHasher;
use any_mcp::error::{ToolError, ToolErrorCode};
use any_mcp::fingerprint::{
    body_create_fingerprint, decimal, encode_marks, hash_new_block_input, rich_fingerprint,
};
use any_mcp::input::{
    BlockChangeInput, BodyBlockCreateInput, NewBlockInput, Presentation, RichPageCreateInput, RichPlanEntry,
};
use any_mcp::marks::{input_mark, project_mark, MarkKind, TextMark};
use any_mcp::model::{BlockProjection, RestrictionsProjection, TextRange, WireIcon, WireMark};
use any_mcp::paging::{default_list_limit, project_snapshot_page, BodyListLimit};
use any_mcp::projection::{
    project_content, project_snapshot, show_file, BlockContent, BodyBlock, BodySnapshot, EmbedContent, FileContent,
    LinkContent, OpaqueContent, TextContent, MAX_BODY_BLOCKS, MAX_RELATIONS,
};
use any_mcp::rich_flow::{
    begin_block_create, begin_rich_attempt, BeginAction, BeginOutcome, CreateDisposition,
    PendingLookup,
};
use any_mcp::wire::{
    WireEmbedProcessor, WireFileKind, WireFileState, WireFileStyle, WireBookmarkState,
    WireHorizontalAlign, WireInsertPosition, WireLayoutStyle, WireLinkCardStyle,
    WireLinkDescription, WireLinkIconSize, WireTextStyle, WireVerticalAlign, WritableTextStyle,
};

fn plain() -> Presentation {
    Presentation { horizontal_align: None, vertical_align: None, background_color: None }
}

fn styled(
    style: WritableTextStyle,
    text: &str,
    checked: Option<bool>,
    marks: Vec<WireMark>,
) -> NewBlockInput {
    NewBlockInput::Text {
        style,
        text: text.to_owned(),
        checked,
        marks,
        text_color: None,
        icon: None,
        presentation: plain(),
    }
}

fn text_block(text: &str) -> NewBlockInput {
    styled(WritableTextStyle::Paragraph, text, None, Vec::new())
}

fn marked(text: &str, marks: Vec<WireMark>) -> NewBlockInput {
    styled(WritableTextStyle::Paragraph, text, None, marks)
}

fn link(relations: Vec<&str>) -> NewBlockInput {
    NewBlockInput::Link {
        target_object_id: EntityId::new("target").expect("target"),
        card_style: WireLinkCardStyle::Card,
        icon_size: WireLinkIconSize::Small,
        description: WireLinkDescription::Content,
        relations: relations
            .into_iter()
            .map(|key| RelationKey::new(key.to_owned()).expect("relation"))
            .collect(),
        presentation: plain(),
    }
}

fn embed(processor: WireEmbedProcessor, source: &str) -> NewBlockInput {
    NewBlockInput::Embed { processor, source: source.to_owned(), presentation: plain() }
}

#[test]
fn production_body_editor_caps_verification_without_widening_client_policy() {
    for (configured, expected) in [(0, 3), (1, 1), (2, 2), (3, 3), (4, 3), (10, 3), (10_001, 3)] {
        assert_eq!(body_verify_attempts(configured), expected);
    }
    assert_eq!(MAX_BODY_VERIFY_ATTEMPTS, 3);
}

fn create_input(block: NewBlockInput) -> BodyBlockCreateInput {
    BodyBlockCreateInput {
        space: "space".to_owned(),
        object_id: EntityId::new("object").expect("object"),
        expected_snapshot_hash: SnapshotHash::new("a".repeat(64)).expect("hash"),
        target_block_id: EntityId::new("root").expect("root"),
        position: WireInsertPosition::LastChild,
        block,
        idempotency_key: IdempotencyKey::new("create-key").expect("key"),
    }
}

#[test]
fn body_create_idempotent() {
    let input = create_input(text_block("same"));
    let fingerprint = body_create_fingerprint(&input, "space");
    assert_eq!(fingerprint, body_create_fingerprint(&input.clone(), "space"));
    let mut changed = input.clone();
    changed.block = text_block("different");
    assert_ne!(fingerprint, body_create_fingerprint(&changed, "space"));
    let mut store: IdempotencyStore<&str> = IdempotencyStore::new(16);
    let key = IdempotencyKey::new("create-key").expect("key");
    let outcomes: Vec<BeginOutcome> =
        (0..8).map(|_| store.begin(&key, &fingerprint, false)).collect();
    assert_eq!(outcomes[0], BeginOutcome::Lead);
    assert!(outcomes[1..].iter().all(|outcome| *outcome == BeginOutcome::Wait));
    assert_eq!(store.begin(&key, &[9; 32], false), BeginOutcome::Conflict);
    store.finish(&key, "receipt", CreateDisposition::Verified);
    assert_eq!(store.begin(&key, &fingerprint, false), BeginOutcome::Cached);
    assert_eq!(store.cached(&key, &fingerprint), Some(&"receipt"));
    assert_eq!(
        store.begin(&key, &body_create_fingerprint(&changed, "space"), false),
        BeginOutcome::Conflict
    );
    let uncertain = IdempotencyKey::new("uncertain-key").expect("uncertain key");
    assert_eq!(store.begin(&uncertain, &[7; 32], false), BeginOutcome::Lead);
    store.finish(&uncertain, "uncertain", CreateDisposition::Indeterminate);
    for _ in 0..3 {
        assert_eq!(store.begin(&uncertain, &[7; 32], false), BeginOutcome::Indeterminate);
    }
    assert_eq!(store.cached(&uncertain, &[7; 32]), None);
    assert_eq!(begin_block_create(BeginOutcome::Cached), BeginAction::Replay);
    assert_eq!(begin_block_create(BeginOutcome::Wait), BeginAction::Wait);
    assert_eq!(begin_block_create(BeginOutcome::Lead), BeginAction::Lead);
    assert_eq!(
        begin_block_create(BeginOutcome::Conflict),
        BeginAction::Fail(ToolError::conflict())
    );
    assert_eq!(
        begin_block_create(BeginOutcome::Indeterminate),
        BeginAction::Fail(ToolError::mutation_indeterminate())
    );
    assert_eq!(
        begin_block_create(BeginOutcome::Full),
        BeginAction::Fail(ToolError::bounded_result())
    );
    assert_eq!(
        begin_block_create(BeginOutcome::Expired),
        BeginAction::Fail(ToolError::upstream())
    );
    for pending in [PendingLookup::Exhausted, PendingLookup::Absent] {
        assert_eq!(
            begin_rich_attempt(BeginOutcome::Indeterminate, pending),
            BeginAction::Fail(ToolError::conflict())
        );
    }
    assert_eq!(
        begin_rich_attempt(BeginOutcome::Indeterminate, PendingLookup::Available),
        BeginAction::Recover
    );
}

#[test]
fn create_fingerprint_covers_every_field_of_the_request() {
    let input = create_input(text_block("same"));
    let base = body_create_fingerprint(&input, "space");
    assert_ne!(base, body_create_fingerprint(&input, "other"));
    let mut other = input.clone();
    other.object_id = EntityId::new("object-2").expect("object");
    assert_ne!(base, body_create_fingerprint(&other, "space"));
    let mut other = input.clone();
    other.expected_snapshot_hash = SnapshotHash::new("b".repeat(64)).expect("hash");
    assert_ne!(base, body_create_fingerprint(&other, "space"));
    let mut other = input.clone();
    other.position = WireInsertPosition::FirstChild;
    assert_ne!(base, body_create_fingerprint(&other, "space"));
    let mut other = input.clone();
    other.block = marked("same", vec![WireMark::Bold { start: 0, end: 1 }]);
    assert_ne!(base, body_create_fingerprint(&other, "space"));
    let mut other = input.clone();
    other.space = "renamed".to_owned();
    other.idempotency_key = IdempotencyKey::new("other-key").expect("key");
    assert_eq!(base, body_create_fingerprint(&other, "space"));
    assert_ne!(
        body_create_fingerprint(&create_input(link(vec!["a"])), "space"),
        body_create_fingerprint(&create_input(link(vec!["a", "b"])), "space")
    );
}

#[test]
fn rich_fingerprint_covers_keys_parents_and_order() {
    let entry = |key: &str, parent: Option<&str>, text: &str| RichPlanEntry {
        local_key: LocalKey::new(key.to_owned()).expect("key"),
        parent_key: parent.map(|parent| LocalKey::new(parent.to_owned()).expect("parent")),
        block: text_block(text),
    };
    let page = |blocks: Vec<RichPlanEntry>| RichPageCreateInput {
        space: "space".to_owned(),
        name: "Page".to_owned(),
        idempotency_key: IdempotencyKey::new("key").expect("key"),
        blocks,
    };
    let base = rich_fingerprint(&page(vec![entry("a", None, "A"), entry("b", None, "B")]), "space");
    assert_eq!(
        base,
        rich_fingerprint(&page(vec![entry("a", None, "A"), entry("b", None, "B")]), "space")
    );
    assert_ne!(
        base,
        rich_fingerprint(&page(vec![entry("b", None, "B"), entry("a", None, "A")]), "space")
    );
    assert_ne!(
        base,
        rich_fingerprint(&page(vec![entry("a", None, "A"), entry("b", Some("a"), "B")]), "space")
    );
}

#[test]
fn text_marks_enforce_utf16_ranges_duplicates_and_emoji_bounds() {
    let observed_zero = TextMark::new(TextRange { start: 1, end: 1 }, MarkKind::Bold);
    assert!(project_mark(&observed_zero, "ab").is_ok());
    assert!(input_mark(&WireMark::Bold { start: 1, end: 1 }, "ab").is_err());
    let valid = marked("a😀b", vec![WireMark::Bold { start: 1, end: 3 }]);
    assert!(new_block(&valid).is_ok());
    let split_surrogate = marked("a😀b", vec![WireMark::Bold { start: 1, end: 2 }]);
    assert!(new_block(&split_surrogate).is_err());
    let split_surrogate_start = marked("a😀b", vec![WireMark::Bold { start: 2, end: 3 }]);
    assert!(new_block(&split_surrogate_start).is_err());
    let duplicate = marked(
        "abc",
        vec![WireMark::Bold { start: 0, end: 1 }, WireMark::Bold { start: 0, end: 1 }],
    );
    assert!(new_block(&duplicate).is_err());
    let empty = marked("abc", vec![WireMark::Emoji { start: 0, end: 1, emoji: String::new() }]);
    assert!(new_block(&empty).is_err());
}

#[test]
fn constructors_enforce_style_relation_embed_and_table_invariants() {
    let checkbox_without_checked = styled(WritableTextStyle::Checkbox, "todo", None, Vec::new());
    assert!(new_block(&checkbox_without_checked).is_err());
    let checked_paragraph = styled(WritableTextStyle::Paragraph, "x", Some(true), Vec::new());
    assert!(new_block(&checked_paragraph).is_err());
    let duplicate_relations = link(vec!["tag", "tag"]);
    assert!(new_block(&duplicate_relations).is_err());
    let youtube = embed(WireEmbedProcessor::Youtube, "a1_B2-c3D4e");
    assert!(new_block(&youtube).is_ok());
    let youtube_url = embed(
        WireEmbedProcessor::Youtube,
        "https://www.youtube.com/watch?v=a1_B2-c3D4e",
    );
    assert!(new_block(&youtube_url).is_err());
    let oversized_table = NewBlockInput::Table { rows: 12, columns: 13, header_row: true };
    assert!(new_block(&oversized_table).is_err());
}

#[test]
fn composed_blocks_hold_what_was_requested() {
    let video = new_block(&embed(WireEmbedProcessor::Youtube, "a1_B2-c3D4e")).expect("video");
    assert_eq!(
        video.content,
        NewContent::Embed {
            processor: WireEmbedProcessor::Youtube,
            source: "https://www.youtube.com/watch?v=a1_B2-c3D4e".to_owned(),
        }
    );
    assert!(new_block(&embed(WireEmbedProcessor::Mermaid, " \t")).is_err());
    let checkbox =
        new_block(&styled(WritableTextStyle::Checkbox, "todo", Some(true), Vec::new())).expect("box");
    assert_eq!(
        checkbox.content,
        NewContent::Text {
            style: WireTextStyle::Checkbox,
            text: "todo".to_owned(),
            checked: true,
            color: None,
            icon: None,
            marks: Vec::new(),
        }
    );
    let callout = NewBlockInput::Text {
        style: WritableTextStyle::Callout,
        text: "note".to_owned(),
        checked: None,
        marks: Vec::new(),
        text_color: None,
        icon: Some(WireIcon::Emoji { emoji: "!".to_owned() }),
        presentation: plain(),
    };
    assert!(new_block(&callout).is_ok());
    let misplaced_icon = NewBlockInput::Text {
        style: WritableTextStyle::Paragraph,
        text: "note".to_owned(),
        checked: None,
        marks: Vec::new(),
        text_color: None,
        icon: Some(WireIcon::Emoji { emoji: "!".to_owned() }),
        presentation: plain(),
    };
    assert_eq!(new_block(&misplaced_icon).err(), Some(ToolError::validation()));
    assert_eq!(new_block_variable_bytes(&text_block("four")), Ok(4));
    assert!(new_block(&NewBlockInput::Table { rows: 0, columns: 1, header_row: false }).is_err());
    assert!(new_block(&NewBlockInput::Table { rows: 12, columns: 12, header_row: false }).is_ok());
}

#[test]
fn output_enums_and_token_grammars_match_runtime_exactly() {
    for value in ["grey", "default", "!token", "[token"] {
        assert!(ColorInput::new(value.to_owned()).is_ok(), "{value}");
    }
    for value in ["Grey", "é", "has space", &"x".repeat(33)] {
        assert!(ColorInput::new(value.to_owned()).is_err(), "{value}");
    }
    assert!(OpaqueKind::new("dataview_2".to_owned()).is_ok());
    for value in ["DataView", "2dataview", "data-view", "é"] {
        assert!(OpaqueKind::new(value.to_owned()).is_err(), "{value}");
    }
    let layouts = [
        WireLayoutStyle::Row,
        WireLayoutStyle::Column,
        WireLayoutStyle::Div,
        WireLayoutStyle::Header,
        WireLayoutStyle::TableRows,
        WireLayoutStyle::TableColumns,
    ];
    assert_eq!(
        layouts.map(|value| value.as_str()),
        ["row", "column", "div", "header", "table_rows", "table_columns"]
    );
    let bookmarks = [
        WireBookmarkState::Empty,
        WireBookmarkState::Fetching,
        WireBookmarkState::Done,
        WireBookmarkState::Error,
    ];
    assert_eq!(bookmarks.map(|value| value.as_str()), ["empty", "fetching", "done", "error"]);
    let kinds = [
        WireFileKind::Unspecified,
        WireFileKind::File,
        WireFileKind::Image,
        WireFileKind::Video,
        WireFileKind::Audio,
        WireFileKind::Pdf,
    ];
    assert_eq!(
        kinds.map(|value| value.as_str()),
        ["none", "file", "image", "video", "audio", "pdf"]
    );
    let styles = [WireFileStyle::Auto, WireFileStyle::Link, WireFileStyle::Embed];
    assert_eq!(styles.map(|value| value.as_str()), ["auto", "link", "embed"]);
}

#[test]
fn bounded_tokens_keep_their_languages() {
    assert!(EntityId::new("").is_err());
    assert!(EntityId::new(&"x".repeat(256)).is_ok());
    assert!(EntityId::new(&"x".repeat(257)).is_err());
    assert!(IdempotencyKey::new(&"😀".repeat(256)).is_ok());
    assert!(IdempotencyKey::new(&"k".repeat(257)).is_err());
    assert!(IdempotencyKey::new("").is_err());
    assert!(SnapshotHash::new("A".repeat(64)).is_err());
    assert!(SnapshotHash::new("a".repeat(63)).is_err());
    assert!(RelationKey::new("a-b_1".to_owned()).is_ok());
    assert!(RelationKey::new("1a".to_owned()).is_err());
    assert!(LocalKey::new("k".repeat(64)).is_ok());
    assert!(LocalKey::new("k".repeat(65)).is_err());
}

fn open_block(id: &str, children: Vec<String>, content: BlockContent) -> BodyBlock {
    BodyBlock {
        id: id.to_owned(),
        children,
        restrictions: RestrictionsProjection {
            read: false,
            edit: false,
            remove: false,
            drag: false,
            drop_on: false,
        },
        align: WireHorizontalAlign::Left,
        vertical_align: WireVerticalAlign::Top,
        background_color: None,
        content,
    }
}

fn paragraph(text: &str) -> BlockContent {
    BlockContent::Text(TextContent {
        text: text.to_owned(),
        style: WireTextStyle::Paragraph,
        checked: false,
        color: None,
        icon: None,
        marks: Vec::new(),
    })
}

/// A body of `count` blocks: a root, groups of up to 512 children below it, and
/// texts below the groups.
fn bounded_text_snapshot(count: usize, restricted: Option<usize>) -> BodySnapshot {
    let mut blocks = Vec::new();
    let groups = if count > 512 { 4 } else { 0 };
    let texts = count - 1 - groups;
    let text_ids: Vec<String> = (0..texts).map(|index| format!("fixture-text-{index}")).collect();
    if groups == 0 {
        blocks.push(open_block("fixture-root", text_ids.clone(), paragraph("root")));
        for id in &text_ids {
            blocks.push(open_block(id, Vec::new(), paragraph("text")));
        }
    } else {
        let group_ids: Vec<String> =
            (0..groups).map(|index| format!("fixture-group-{index}")).collect();
        blocks.push(open_block("fixture-root", group_ids.clone(), paragraph("root")));
        let size = texts.div_ceil(groups);
        for (group, chunk) in group_ids.iter().zip(text_ids.chunks(size)) {
            blocks.push(open_block(group, chunk.to_vec(), paragraph("group")));
            for id in chunk {
                blocks.push(open_block(id, Vec::new(), paragraph("text")));
            }
        }
    }
    if let Some(index) = restricted {
        blocks[index].restrictions.read = true;
    }
    BodySnapshot {
        space_id: "fixture-space".to_owned(),
        object_id: "fixture-object".to_owned(),
        root_id: "fixture-root".to_owned(),
        blocks,
    }
}

#[test]
fn production_projection_enforces_exact_body_block_cap_and_restrictions_atomically() {
    let exact = bounded_text_snapshot(MAX_BODY_BLOCKS, None);
    assert_eq!(exact.blocks.len(), MAX_BODY_BLOCKS);
    let projected =
        project_snapshot_page(&exact, None, 0, 8).expect("exact cap projects and pages completely");
    assert_eq!(projected.snapshot.items.len(), MAX_BODY_BLOCKS);
    assert_eq!(projected.items.len(), 8);
    assert!(projected.next_state.is_some());
    assert_eq!(
        projected.snapshot.items.first().map(|block| block.id.as_str()),
        Some("fixture-root")
    );
    assert_eq!(
        projected.snapshot.items.last().map(|block| block.id.as_str()),
        Some("fixture-text-2042")
    );

    let over = bounded_text_snapshot(MAX_BODY_BLOCKS + 1, None);
    let over_error = project_snapshot_page(&over, None, 0, 8)
        .err()
        .expect("one-over projection must fail before paging");
    assert_eq!(over_error.code(), ToolErrorCode::BoundedResult);

    let restricted = bounded_text_snapshot(8, Some(7));
    let restricted_error = project_snapshot_page(&restricted, None, 0, 8)
        .err()
        .expect("one restricted descendant rejects before content/hash/cursor emission");
    assert_eq!(restricted_error.code(), ToolErrorCode::Upstream);
}

#[test]
fn pages_cover_a_body_without_gap_or_overlap() {
    let snapshot = bounded_text_snapshot(20, None);
    let first = project_snapshot_page(&snapshot, None, 0, 12).expect("first page");
    let state = first.next_state.expect("more pages");
    assert_eq!(state.offset, 12);
    assert_eq!(state.total, 20);
    let second =
        project_snapshot_page(&snapshot, Some(&state), state.offset, 12).expect("second page");
    assert_eq!(second.items.len(), 8);
    assert!(second.next_state.is_none());
    let seen: Vec<&str> = first
        .items
        .iter()
        .chain(second.items.iter())
        .map(|block| block.id.as_str())
        .collect();
    let all: Vec<&str> =
        first.snapshot.items.iter().map(|block| block.id.as_str()).collect();
    assert_eq!(seen, all);
    assert_eq!(first.snapshot.hash, second.snapshot.hash);
    assert_eq!(default_list_limit().get(), 8);
    assert!(BodyListLimit::new(0).is_err());
    assert!(BodyListLimit::new(13).is_err());
    assert_eq!(BodyListLimit::new(12).expect("largest").get(), 12);
}

#[test]
fn snapshot_hash_is_lower_hex_and_binds_the_body() {
    let snapshot = bounded_text_snapshot(3, None);
    let hash = project_snapshot(&snapshot).expect("shown").hash;
    assert_eq!(hash.as_str().len(), 64);
    assert!(hash.as_str().chars().all(|c| c.is_ascii_digit() || ('a'..='f').contains(&c)));
    assert_eq!(hash, project_snapshot(&snapshot.clone()).expect("shown").hash);
    let mut changed = snapshot.clone();
    changed.blocks[2].content = paragraph("changed");
    assert_ne!(hash, project_snapshot(&changed).expect("shown").hash);
    let mut renamed = snapshot;
    renamed.object_id = "other-object".to_owned();
    assert_ne!(hash, project_snapshot(&renamed).expect("shown").hash);
}

#[test]
fn canonical_digest_is_sha_256() {
    let mut hash = CanonicalHasher::empty();
    hash.raw(b"abc");
    let digest = hash.digest();
    assert_eq!(
        any_mcp::encoding::encode_hex(&digest),
        "ba7816bf8f01cfea414140de5dae2223b00361a396177a9cb410ff61f20015ad"
    );
}

#[test]
fn content_failures_name_their_category() {
    let file = |mime: &str, size: i64| {
        BlockContent::File(FileContent {
            target_object_id: "file".to_owned(),
            kind: WireFileKind::Pdf,
            mime: mime.to_owned(),
            size,
            state: WireFileState::Done,
            style: WireFileStyle::Auto,
        })
    };
    assert!(project_content(&file("application/pdf", 9)).is_ok());
    assert_eq!(project_content(&file("not a media type", 9)).err(), Some(ToolError::upstream()));
    assert_eq!(project_content(&file("nonsense", 9)).err(), Some(ToolError::upstream()));
    assert_eq!(project_content(&file("application/pdf", -1)).err(), Some(ToolError::upstream()));
    assert_eq!(
        project_content(&file("application/pdf", i64::MAX)).err(),
        Some(ToolError::bounded_result())
    );
    let relations: Vec<String> = (0..=MAX_RELATIONS).map(|index| format!("r{index}")).collect();
    let link = |relations: Vec<String>| {
        BlockContent::Link(LinkContent {
            target_object_id: "target".to_owned(),
            card_style: WireLinkCardStyle::Text,
            icon_size: WireLinkIconSize::Hidden,
            description: WireLinkDescription::Hidden,
            relations,
        })
    };
    assert_eq!(project_content(&link(relations)).err(), Some(ToolError::bounded_result()));
    assert_eq!(
        project_content(&link(vec!["tag".to_owned(), "tag".to_owned()])).err(),
        Some(ToolError::upstream())
    );
    assert!(project_content(&link(vec!["tag".to_owned()])).is_ok());
    let opaque = |kind: &str| {
        BlockContent::Unsupported(OpaqueContent {
            kind: kind.to_owned(),
            child_count: 0,
            approx_bytes: 9,
        })
    };
    assert!(project_content(&opaque("dataview")).is_ok());
    assert!(project_content(&opaque("DataView")).is_err());
    assert!(project_content(&BlockContent::Unrecognized).is_err());
}

#[test]
fn marks_are_written_as_compact_json() {
    let marks = vec![
        WireMark::Bold { start: 0, end: 12 },
        WireMark::Link { start: 3, end: 4, url: "a\"b\\c\n\u{1}é".to_owned() },
    ];
    assert_eq!(
        encode_marks(&marks),
        r#"[{"kind":"bold","start":0,"end":12},{"kind":"link","start":3,"end":4,"url":"a\"b\\c\n\u0001é"}]"#
            .as_bytes()
            .to_vec()
    );
    assert_eq!(encode_marks(&Vec::new()), b"[]".to_vec());
    assert_eq!(decimal(0), "0");
    assert_eq!(decimal(4_294_967_295), "4294967295");
}

const BODY_NAMES: [&str; 6] = [
    BODY_BLOCK_CREATE,
    BODY_BLOCK_DELETE,
    BODY_BLOCK_LIST,
    BODY_BLOCK_MOVE,
    BODY_BLOCK_UPDATE,
    RICH_PAGE_CREATE,
];

const MUTATION_NAMES: [&str; 5] = [
    BODY_BLOCK_CREATE,
    BODY_BLOCK_UPDATE,
    BODY_BLOCK_DELETE,
    BODY_BLOCK_MOVE,
    RICH_PAGE_CREATE,
];

#[test]
fn inventory_access_projection_and_transport_requirements_are_exact() {
    assert_eq!(BODY_BLOCKS_TOOLSET_NAME, "body-blocks");
    assert_eq!(BODY_BLOCKS_CATALOG_TOKEN_CEILING, 25_000);
    let tools = body_tools();
    let mut read_write = offered_tools(&tools, false);
    read_write.sort();
    assert_eq!(read_write, BODY_NAMES);
    assert_eq!(offered_tools(&tools, true), [BODY_BLOCK_LIST]);
    assert_eq!(tools[0].tool.profile, ToolProfile::Read);
}

#[test]
fn absent_and_read_only_mutations_stop_before_decode_or_io() {
    for name in MUTATION_NAMES {
        assert_eq!(route_body_tool(name, true), BodyRoute::Refuse(ToolError::validation()));
        assert!(matches!(route_body_tool(name, false), BodyRoute::Run(_)));
    }
    assert_eq!(route_body_tool(BODY_BLOCK_LIST, true), BodyRoute::Run(BodyTool::List));
    assert_eq!(route_body_tool("body_block_lists", false), BodyRoute::MethodNotFound);
    assert_eq!(require_mutation_access(MutationAccess::Allowed), Ok(()));
    assert_eq!(
        require_mutation_access(MutationAccess::ReadOnly),
        Err(ToolError::validation())
    );
}

#[test]
fn accepted_content_is_shown_as_it_was_sent() {
    let marks = vec![
        WireMark::Link { start: 0, end: 1, url: "https://example.invalid".to_owned() },
        WireMark::Emoji { start: 1, end: 3, emoji: "!".to_owned() },
    ];
    let sent = new_block(&marked("a😀b", marks.clone())).expect("accepted");
    let (style, text, checked, sent_marks) = match sent.content {
        NewContent::Text { style, text, checked, marks, .. } => (style, text, checked, marks),
        other => panic!("unexpected {other:?}"),
    };
    let stored = BlockContent::Text(TextContent {
        text,
        style,
        checked,
        color: None,
        icon: None,
        marks: sent_marks,
    });
    assert_eq!(
        project_content(&stored).expect("shown"),
        BlockProjection::Text {
            text: "a😀b".to_owned(),
            style: WireTextStyle::Paragraph,
            checked: false,
            color: None,
            icon: None,
            marks,
        }
    );
}

#[test]
fn writable_styles_read_back_as_themselves() {
    let styles = [
        (WritableTextStyle::Paragraph, WireTextStyle::Paragraph),
        (WritableTextStyle::Heading1, WireTextStyle::Heading1),
        (WritableTextStyle::Heading2, WireTextStyle::Heading2),
        (WritableTextStyle::Heading3, WireTextStyle::Heading3),
        (WritableTextStyle::Quote, WireTextStyle::Quote),
        (WritableTextStyle::Code, WireTextStyle::Code),
        (WritableTextStyle::Bulleted, WireTextStyle::Bulleted),
        (WritableTextStyle::Numbered, WireTextStyle::Numbered),
        (WritableTextStyle::Checkbox, WireTextStyle::Checkbox),
        (WritableTextStyle::Toggle, WireTextStyle::Toggle),
        (WritableTextStyle::Callout, WireTextStyle::Callout),
    ];
    for (written, shown) in styles {
        assert_eq!(written.as_wire(), shown);
    }
}

#[test]
fn changes_are_composed_against_the_current_block() {
    let current = open_block("b", Vec::new(), paragraph("text"));
    assert_eq!(
        block_change(&BlockChangeInput::SetChecked { checked: true }, &current),
        Ok(BlockChange::Checked(true))
    );
    assert_eq!(
        block_change(&BlockChangeInput::SetEmbedSource { source: "x".to_owned() }, &current),
        Err(ToolError::validation())
    );
    assert_eq!(
        block_change(
            &BlockChangeInput::SetText {
                text: "ab".to_owned(),
                marks: vec![WireMark::Bold { start: 0, end: 3 }],
            },
            &current,
        ),
        Err(ToolError::validation())
    );
    let video = open_block(
        "v",
        Vec::new(),
        BlockContent::Embed(EmbedContent {
            processor: WireEmbedProcessor::Youtube,
            text: String::new(),
        }),
    );
    assert_eq!(
        block_change(
            &BlockChangeInput::SetEmbedSource { source: "a1_B2-c3D4e".to_owned() },
            &video,
        ),
        Ok(BlockChange::Embed {
            processor: WireEmbedProcessor::Youtube,
            text: "https://www.youtube.com/watch?v=a1_B2-c3D4e".to_owned(),
        })
    );
}

#[test]
fn files_are_shown_only_with_a_media_type() {
    let file = FileContent {
        target_object_id: "file".to_owned(),
        kind: WireFileKind::Image,
        mime: "image/png".to_owned(),
        size: 3,
        state: WireFileState::Done,
        style: WireFileStyle::Embed,
    };
    assert!(matches!(
        show_file(&file, true),
        Ok(BlockProjection::File { size: 3, file_kind: WireFileKind::Image, .. })
    ));
    assert_eq!(show_file(&file, false), Err(ToolError::upstream()));
    let long = FileContent { mime: "m".repeat(256), ..file.clone() };
    assert_eq!(show_file(&long, false), Err(ToolError::bounded_result()));
    let negative = FileContent { size: -1, ..file.clone() };
    assert_eq!(show_file(&negative, true), Err(ToolError::upstream()));
    let large = FileContent { size: 9_007_199_254_740_992, ..file };
    assert_eq!(show_file(&large, true), Err(ToolError::bounded_result()));
}

#[test]
fn new_blocks_are_bound_in_every_field() {
    let absorbed = |block: &NewBlockInput| {
        let mut hash = CanonicalHasher::empty();
        hash_new_block_input(&mut hash, block);
        hash.digest()
    };
    let todo = |checked: Option<bool>| {
        absorbed(&styled(WritableTextStyle::Checkbox, "todo", checked, Vec::new()))
    };
    assert_eq!(todo(Some(true)), todo(Some(true)));
    assert_ne!(todo(None), todo(Some(false)));
    assert_ne!(todo(Some(false)), todo(Some(true)));
    assert_ne!(absorbed(&link(vec!["a", "b"])), absorbed(&link(vec!["b", "a"])));
    let table = |rows: u8, columns: u8, header_row: bool| {
        absorbed(&NewBlockInput::Table { rows, columns, header_row })
    };
    assert_ne!(table(1, 2, false), table(2, 1, false));
    assert_ne!(table(1, 2, false), table(1, 2, true));
}
