//! Rich plans: bounds, the scheduler of their writes, and replay.

use any_mcp::attempts::{IdempotencyStore, PendingCandidate};
use any_mcp::catalog::SCRIPTED_SCENARIOS;
use any_mcp::domain::{
    ColorInput, EntityId, IdempotencyKey, LocalKey, SnapshotHash, MAX_SNAPSHOT_HASH_BYTES,
};
use any_mcp::error::ToolError;
use any_mcp::hashing::hash_projection;
use any_mcp::input::{NewBlockInput, Presentation, RichPageCreateInput, RichPlanEntry};
use any_mcp::model::{BlockProjection, BlockSummary, ProjectedSnapshot, RestrictionsProjection};
use any_mcp::rich::{
    rich_cancelled_at_write_boundary, rich_category, rich_index, rich_recovered_failure,
    tool_category, RichApplied, RichFailureCategory, RichScheduler, RichStatus, RichWriteStop,
};
use any_mcp::rich_flow::{
    begin_rich_attempt, complete_pending_rich_recovery, recovered_output, BeginAction, BeginOutcome,
    CreateDisposition, PendingLookup, PendingRichRecovery, RichResult,
};
use any_mcp::rich_plan::{
    rich_entry_cost, validate_rich_plan, verified_rich_prefix_len, verify_rich_applied_replay,
    MAX_RICH_DEPTH, MAX_RICH_OPS,
};
use any_mcp::wire::{
    WireDividerStyle, WireHorizontalAlign, WireTextStyle, WireVerticalAlign, WritableTextStyle,
};

fn plain() -> Presentation {
    Presentation { horizontal_align: None, vertical_align: None, background_color: None }
}

fn text_block(text: &str) -> NewBlockInput {
    NewBlockInput::Text {
        style: WritableTextStyle::Paragraph,
        text: text.to_owned(),
        checked: None,
        marks: Vec::new(),
        text_color: None,
        icon: None,
        presentation: plain(),
    }
}

fn table_block(rows: u8, columns: u8, header_row: bool) -> NewBlockInput {
    NewBlockInput::Table { rows, columns, header_row }
}

fn entry(local_key: &str, parent_key: Option<&str>, block: NewBlockInput) -> RichPlanEntry {
    RichPlanEntry {
        local_key: LocalKey::new(local_key.to_owned()).expect("local key"),
        parent_key: parent_key.map(|key| LocalKey::new(key.to_owned()).expect("parent key")),
        block,
    }
}

fn parse_rich(blocks: Vec<RichPlanEntry>) -> RichPageCreateInput {
    RichPageCreateInput {
        space: "space".to_owned(),
        name: "Page".to_owned(),
        idempotency_key: IdempotencyKey::new("test-key").expect("key"),
        blocks,
    }
}

fn restrictions() -> RestrictionsProjection {
    RestrictionsProjection {
        read: false,
        edit: false,
        remove: false,
        drag: false,
        drop_on: false,
    }
}

fn projected_text(text: &str) -> BlockProjection {
    BlockProjection::Text {
        text: text.to_owned(),
        style: WireTextStyle::Paragraph,
        checked: false,
        color: None,
        icon: None,
        marks: Vec::new(),
    }
}

fn summary(
    id: &str,
    parent: Option<&str>,
    sibling_index: u64,
    depth: u64,
    child_count: u64,
    content: BlockProjection,
) -> BlockSummary {
    BlockSummary {
        id: EntityId::new(id).expect("fixture ID"),
        parent_id: parent.map(|value| EntityId::new(value).expect("fixture parent ID")),
        sibling_index,
        depth,
        child_count,
        restrictions: restrictions(),
        align: WireHorizontalAlign::Left,
        vertical_align: WireVerticalAlign::Top,
        background_color: None,
        content,
    }
}

fn projected(items: Vec<BlockSummary>) -> ProjectedSnapshot {
    let space_id = EntityId::new("space").expect("space ID");
    let object_id = EntityId::new("object").expect("object ID");
    let root_id = EntityId::new("root").expect("root ID");
    let hash = hash_projection(&space_id, &object_id, &root_id, &items);
    ProjectedSnapshot {
        space_id,
        object_id,
        root_id,
        hash,
        items,
    }
}

fn rich_applied(index: u8, key: &str, id: &str) -> RichApplied {
    RichApplied {
        index,
        local_key: LocalKey::new(key.to_owned()).expect("local key"),
        block_id: EntityId::new(id).expect("block ID"),
        snapshot_hash: SnapshotHash::new("a".repeat(MAX_SNAPSHOT_HASH_BYTES))
            .expect("snapshot hash"),
    }
}

fn rich_root_replay_fixture() -> (RichPageCreateInput, Vec<RichApplied>, ProjectedSnapshot) {
    let input = parse_rich(vec![
        entry("a", None, text_block("A")),
        entry("b", None, text_block("B")),
    ]);
    let applied = vec![rich_applied(0, "a", "a_id"), rich_applied(1, "b", "b_id")];
    let snapshot = projected(vec![
        summary("root", None, 0, 0, 4, projected_text("root")),
        summary("prior_a", Some("root"), 0, 1, 0, projected_text("prior A")),
        summary("prior_b", Some("root"), 1, 1, 0, projected_text("prior B")),
        summary("a_id", Some("root"), 2, 1, 0, projected_text("A")),
        summary("b_id", Some("root"), 3, 1, 0, projected_text("B")),
    ]);
    (input, applied, snapshot)
}

#[test]
fn rich_replay_rejects_foreign_root_insertion_before_authored_prefix() {
    let (input, applied, baseline) = rich_root_replay_fixture();
    assert!(verify_rich_applied_replay(
        &input,
        &applied,
        &baseline,
        Some(2)
    ));
    assert!(!verify_rich_applied_replay(&input, &applied, &baseline, None));

    let inserted = projected(vec![
        summary("root", None, 0, 0, 5, projected_text("root")),
        summary("prior_a", Some("root"), 0, 1, 0, projected_text("prior A")),
        summary("foreign", Some("root"), 1, 1, 0, projected_text("foreign")),
        summary("prior_b", Some("root"), 2, 1, 0, projected_text("prior B")),
        summary("a_id", Some("root"), 3, 1, 0, projected_text("A")),
        summary("b_id", Some("root"), 4, 1, 0, projected_text("B")),
    ]);
    assert!(!verify_rich_applied_replay(
        &input,
        &applied,
        &inserted,
        Some(2)
    ));
}

#[test]
fn rich_replay_rejects_foreign_root_deletion_before_authored_prefix() {
    let (input, applied, baseline) = rich_root_replay_fixture();
    assert!(verify_rich_applied_replay(
        &input,
        &applied,
        &baseline,
        Some(2)
    ));

    let deleted = projected(vec![
        summary("root", None, 0, 0, 3, projected_text("root")),
        summary("prior_b", Some("root"), 0, 1, 0, projected_text("prior B")),
        summary("a_id", Some("root"), 1, 1, 0, projected_text("A")),
        summary("b_id", Some("root"), 2, 1, 0, projected_text("B")),
    ]);
    assert!(!verify_rich_applied_replay(
        &input,
        &applied,
        &deleted,
        Some(2)
    ));
}

#[test]
fn scripted_scenario_inventory_is_executable_and_exact() {
    let executable = [
        "body_list_ordered_pages",
        "body_list_revision_conflict",
        "body_limits_fail_closed",
        "body_opaque_read_only",
        "body_create_idempotent",
        "body_update_one_change",
        "body_delete_confirmed_subtree",
        "body_move_same_object",
        "body_relation_workflows",
        "body_targeted_heading_append",
        "rich_page_complete",
        "rich_page_partial",
        "rich_page_indeterminate",
        "rich_page_replay_drift",
        "body_read_only_catalog",
        "body_read_restricted",
        "body_network_closed",
        "body_protocol_parity",
        "body_redaction_and_budgets",
    ];
    assert_eq!(SCRIPTED_SCENARIOS, executable);
}

#[test]
fn rich_plan_requires_prior_text_parents_unique_keys_and_finite_depth() {
    let valid = parse_rich(vec![
        entry("heading", None, text_block("Heading")),
        entry("child", Some("heading"), text_block("Body")),
    ]);
    assert!(validate_rich_plan(&valid).is_ok());

    let forward = parse_rich(vec![
        entry("child", Some("heading"), text_block("Body")),
        entry("heading", None, text_block("Heading")),
    ]);
    assert!(validate_rich_plan(&forward).is_err());
    let non_text_parent = parse_rich(vec![
        entry("divider", None, NewBlockInput::Divider { style: WireDividerStyle::Line, presentation: plain() }),
        entry("child", Some("divider"), text_block("Body")),
    ]);
    assert!(validate_rich_plan(&non_text_parent).is_err());
    let duplicate = parse_rich(vec![
        entry("same", None, text_block("One")),
        entry("same", None, text_block("Two")),
    ]);
    assert!(validate_rich_plan(&duplicate).is_err());

    let mut chain = Vec::new();
    for depth in 0..=MAX_RICH_DEPTH {
        let key = format!("d{depth}");
        let parent = depth.checked_sub(1).map(|value| format!("d{value}"));
        chain.push(entry(&key, parent.as_deref(), text_block("x")));
    }
    assert!(validate_rich_plan(&parse_rich(chain)).is_err());
}

#[test]
fn rich_plan_enforces_operation_sibling_and_materialized_bounds() {
    let too_many = (0..=MAX_RICH_OPS)
        .map(|index| entry(&format!("b{index}"), None, text_block("x")))
        .collect();
    assert!(validate_rich_plan(&parse_rich(too_many)).is_err());

    let table = parse_rich(vec![
        entry(
            "table_a",
            None,
            table_block(12, 12, true),
        ),
        entry(
            "table_b",
            None,
            table_block(12, 12, false),
        ),
    ]);
    assert!(validate_rich_plan(&table).is_err());

    let mut exact_materialized = vec![
        entry(
            "table_169",
            None,
            table_block(12, 12, true),
        ),
        entry(
            "table_80",
            None,
            table_block(7, 9, false),
        ),
    ];
    exact_materialized
        .extend((0..7).map(|index| entry(&format!("plain_{index}"), None, text_block("x"))));
    assert!(validate_rich_plan(&parse_rich(exact_materialized.clone())).is_ok());
    exact_materialized.push(entry("one_over", None, text_block("x")));
    assert!(validate_rich_plan(&parse_rich(exact_materialized)).is_err());
}

fn scheduler_with_prefix(total: usize, prefix: usize) -> RichScheduler {
    let mut scheduler = RichScheduler::new(total);
    for index in 0..prefix {
        assert_eq!(scheduler.next_write_index(), Some(index));
        assert!(scheduler.record_verified(rich_applied(
            rich_index(index),
            &format!("local_{index}"),
            &format!("block_{index}"),
        )));
    }
    scheduler
}

#[test]
fn rich_production_scheduler_is_terminal_at_every_write_boundary() {
    let space_id = EntityId::new("space").expect("space ID");
    let object_id = EntityId::new("object").expect("object ID");
    for index in 0..MAX_RICH_OPS {
        let mut pre = scheduler_with_prefix(MAX_RICH_OPS, index);
        let pre_poll = pre
            .stop(&space_id, &object_id, false, RichWriteStop::Cancelled, None)
            .expect("pre-poll terminal transition");
        assert_eq!(pre_poll.status, RichStatus::Partial);
        assert_eq!(pre_poll.applied.len(), index);
        assert_eq!(
            pre_poll.not_attempted,
            (index..MAX_RICH_OPS).map(rich_index).collect::<Vec<_>>()
        );
        assert_eq!(
            pre_poll.failed.as_ref().map(|failure| failure.index),
            Some(rich_index(index))
        );
        assert!(pre.next_write_index().is_none());
        assert!(
            pre.stop(&space_id, &object_id, true, RichWriteStop::Cancelled, None,)
                .is_none()
        );

        let mut post = scheduler_with_prefix(MAX_RICH_OPS, index);
        let post_poll = post
            .stop(&space_id, &object_id, true, RichWriteStop::Cancelled, None)
            .expect("post-poll terminal transition");
        assert_eq!(post_poll.status, RichStatus::Indeterminate);
        assert_eq!(post_poll.applied.len(), index);
        assert_eq!(
            post_poll.not_attempted,
            (index + 1..MAX_RICH_OPS)
                .map(rich_index)
                .collect::<Vec<_>>()
        );
        assert_eq!(
            post_poll.failed.as_ref().map(|failure| failure.index),
            Some(rich_index(index))
        );
        assert!(post.next_write_index().is_none());
    }
}

#[test]
fn rich_production_scheduler_classifies_every_category_and_poll_state() {
    let space_id = EntityId::new("space").expect("space ID");
    let object_id = EntityId::new("object").expect("object ID");
    let categories = [
        RichFailureCategory::Authentication,
        RichFailureCategory::Validation,
        RichFailureCategory::NotFound,
        RichFailureCategory::Conflict,
        RichFailureCategory::BoundedResult,
        RichFailureCategory::Upstream,
    ];
    for index in 0..MAX_RICH_OPS {
        for category in categories {
            for (polled, definitive, status, reported, untouched_start) in [
                (false, false, RichStatus::Partial, category, index),
                (
                    true,
                    false,
                    RichStatus::Indeterminate,
                    RichFailureCategory::Indeterminate,
                    index + 1,
                ),
                (true, true, RichStatus::Partial, category, index + 1),
            ] {
                let mut scheduler = scheduler_with_prefix(MAX_RICH_OPS, index);
                let output = scheduler
                    .stop(
                        &space_id,
                        &object_id,
                        polled,
                        RichWriteStop::Rejected {
                            category,
                            definitive,
                        },
                        None,
                    )
                    .expect("one terminal category transition");
                assert_eq!(output.status, status);
                assert_eq!(output.applied.len(), index);
                assert_eq!(
                    output.failed.as_ref().map(|failure| failure.category),
                    Some(reported)
                );
                assert_eq!(
                    output.not_attempted,
                    (untouched_start..MAX_RICH_OPS)
                        .map(rich_index)
                        .collect::<Vec<_>>()
                );
                assert!(scheduler.next_write_index().is_none());
                assert!(!scheduler.record_verified(rich_applied(
                    rich_index(index),
                    "late",
                    "late-block",
                )));
            }
        }
    }
}

#[test]
fn rich_prewrite_and_recovery_categories_preserve_common_mapping() {
    let cases = [
        (
            ToolError::authentication(),
            RichFailureCategory::Authentication,
        ),
        (ToolError::validation(), RichFailureCategory::Validation),
        (ToolError::not_found(), RichFailureCategory::NotFound),
        (ToolError::conflict(), RichFailureCategory::Conflict),
        (
            ToolError::bounded_result(),
            RichFailureCategory::BoundedResult,
        ),
        (ToolError::upstream(), RichFailureCategory::Upstream),
    ];
    for (error, expected) in cases {
        assert_eq!(tool_category(&error), expected);
        let output = rich_recovered_failure(
            &EntityId::new("space").expect("space"),
            &EntityId::new("object").expect("object"),
            3,
            None,
            expected,
        );
        assert_eq!(output.status, RichStatus::Partial);
        assert_eq!(
            output.failed.as_ref().map(|failure| failure.category),
            Some(expected)
        );
        assert_eq!(output.not_attempted, vec![0, 1, 2]);
        assert!(output.final_snapshot_hash.is_none());
        assert!(output.idempotency.key_reused);
    }
    let hash = SnapshotHash::new("a".repeat(64)).expect("snapshot hash");
    let recovered = rich_recovered_failure(
        &EntityId::new("space").expect("space"),
        &EntityId::new("object").expect("object"),
        2,
        Some(hash.clone()),
        RichFailureCategory::Conflict,
    );
    assert_eq!(recovered.final_snapshot_hash, Some(hash));
    assert_eq!(
        recovered.failed.as_ref().map(|failure| failure.message),
        Some("created page recovered; block plan was not resumed")
    );
}

fn uncertain_page(
    store: &mut IdempotencyStore<RichResult>,
    key: &IdempotencyKey,
    fingerprint: &[u8; 32],
    object: &str,
) -> PendingCandidate {
    assert_eq!(store.begin(key, fingerprint, false), BeginOutcome::Lead);
    let candidate =
        PendingCandidate { space_id: "space".to_owned(), object_id: object.to_owned() };
    store.record_pending_candidate(key, candidate.clone());
    store.finish(
        key,
        RichResult::Failure(ToolError::mutation_indeterminate()),
        CreateDisposition::Indeterminate,
    );
    assert_eq!(store.begin(key, fingerprint, false), BeginOutcome::Indeterminate);
    assert_eq!(store.pending_candidate(key, fingerprint), PendingLookup::Available);
    candidate
}

#[test]
fn pending_candidate_store_exhaustion_and_terminal_replay_are_io_free() {
    let mut store: IdempotencyStore<RichResult> = IdempotencyStore::new(16);
    let pending_key = IdempotencyKey::new("pending-rich").expect("pending key");
    let fingerprint = [7; 32];
    assert_eq!(store.pending_candidate(&pending_key, &fingerprint), PendingLookup::Absent);
    uncertain_page(&mut store, &pending_key, &fingerprint, "object");
    assert_eq!(store.begin(&pending_key, &[6; 32], false), BeginOutcome::Conflict);
    for _ in 1..=3 {
        assert_eq!(store.pending_candidate(&pending_key, &fingerprint), PendingLookup::Available);
        assert!(store.claim_get_attempt(&pending_key));
    }
    assert_eq!(store.pending_candidate(&pending_key, &fingerprint), PendingLookup::Exhausted);
    assert!(!store.claim_get_attempt(&pending_key));
    assert_eq!(
        begin_rich_attempt(BeginOutcome::Indeterminate, PendingLookup::Available),
        BeginAction::Recover
    );
    for closed in [PendingLookup::Exhausted, PendingLookup::Absent] {
        assert_eq!(
            begin_rich_attempt(BeginOutcome::Indeterminate, closed),
            BeginAction::Fail(ToolError::conflict())
        );
    }

    let terminal_key = IdempotencyKey::new("terminal-rich").expect("terminal key");
    assert_eq!(store.begin(&terminal_key, &[8; 32], false), BeginOutcome::Lead);
    let receipt = RichResult::Failure(ToolError::bounded_result());
    store.finish(&terminal_key, receipt.clone(), CreateDisposition::Terminal);
    for _ in 0..2 {
        assert_eq!(store.begin(&terminal_key, &[8; 32], false), BeginOutcome::Cached);
        assert_eq!(store.cached(&terminal_key, &[8; 32]), Some(&receipt));
    }

    for (ordinal, category) in [
        RichFailureCategory::Authentication,
        RichFailureCategory::Validation,
        RichFailureCategory::NotFound,
        RichFailureCategory::Conflict,
        RichFailureCategory::BoundedResult,
        RichFailureCategory::Upstream,
    ]
    .into_iter()
    .enumerate()
    {
        let key = IdempotencyKey::new(&format!("recover-{ordinal}")).expect("recovery key");
        let fingerprint = [u8::try_from(ordinal).unwrap_or(u8::MAX); 32];
        let candidate =
            uncertain_page(&mut store, &key, &fingerprint, &format!("object-{ordinal}"));
        assert_eq!(store.begin(&key, &[254; 32], false), BeginOutcome::Conflict);
        let recovery = PendingRichRecovery {
            key: key.clone(),
            fingerprint,
            candidate,
            resolved_space: "space".to_owned(),
        };
        let result =
            complete_pending_rich_recovery(&mut store, &recovery, 3, &Err(category), &Vec::new());
        let RichResult::Output(output) = &result else {
            panic!("recovered output");
        };
        assert_eq!(output.failed.as_ref().map(|failure| failure.category), Some(category));
        assert_eq!(output.not_attempted, vec![0, 1, 2]);
        assert!(output.idempotency.key_reused);
        assert_eq!(store.begin(&key, &fingerprint, false), BeginOutcome::Cached);
        assert_eq!(store.cached(&key, &fingerprint), Some(&result));
        assert_eq!(store.pending_candidate(&key, &fingerprint), PendingLookup::Absent);
        assert_eq!(store.pending_candidate(&key, &[255; 32]), PendingLookup::Absent);
        assert_eq!(
            complete_pending_rich_recovery(&mut store, &recovery, 3, &Err(category), &Vec::new()),
            RichResult::Failure(ToolError::conflict())
        );
        assert_eq!(store.cached(&key, &fingerprint), Some(&result));
    }

    let key = IdempotencyKey::new("recover-hash").expect("hash recovery key");
    let fingerprint = [42; 32];
    let candidate = uncertain_page(&mut store, &key, &fingerprint, "object-hash");
    assert_eq!(store.begin(&key, &[41; 32], false), BeginOutcome::Conflict);
    let hash = SnapshotHash::new("b".repeat(MAX_SNAPSHOT_HASH_BYTES)).expect("recovery hash");
    let recovery = PendingRichRecovery {
        key: key.clone(),
        fingerprint,
        candidate,
        resolved_space: "space".to_owned(),
    };
    let body = Ok(hash.clone());
    let result = complete_pending_rich_recovery(&mut store, &recovery, 3, &body, &Vec::new());
    let RichResult::Output(output) = &result else {
        panic!("recovered output");
    };
    assert_eq!(output.final_snapshot_hash, Some(hash));
    assert_eq!(output.object_id.as_str(), "object-hash");
    assert_eq!(store.begin(&key, &fingerprint, false), BeginOutcome::Cached);
}

#[test]
fn recovery_of_a_nameless_or_oversized_page_is_refused() {
    let upstream = Err(RichFailureCategory::Upstream);
    for (space, object) in [("", "object"), ("space", "")] {
        let candidate =
            PendingCandidate { space_id: space.to_owned(), object_id: object.to_owned() };
        assert_eq!(recovered_output(&candidate, 3, &upstream), Err(ToolError::conflict()));
    }
    let mut store: IdempotencyStore<RichResult> = IdempotencyStore::new(1);
    let key = IdempotencyKey::new("recover-large").expect("key");
    let candidate = uncertain_page(&mut store, &key, &[1; 32], "object");
    let recovery = PendingRichRecovery {
        key: key.clone(),
        fingerprint: [1; 32],
        candidate,
        resolved_space: "space".to_owned(),
    };
    let bounded = RichResult::Failure(ToolError::bounded_result());
    assert_eq!(
        complete_pending_rich_recovery(&mut store, &recovery, 3, &upstream, &vec![0; 131_073]),
        bounded
    );
    assert_eq!(store.cached(&key, &[1; 32]), Some(&bounded));
}

#[test]
fn replay_witness_is_kept_with_its_attempt() {
    let mut store: IdempotencyStore<u8> = IdempotencyStore::new(1);
    let key = IdempotencyKey::new("witness").expect("key");
    store.record_replay_witness(&key, 4);
    assert_eq!(store.replay_witness(&key, &[1; 32]), None);
    assert_eq!(store.begin(&key, &[1; 32], false), BeginOutcome::Lead);
    store.record_replay_witness(&key, 4);
    store.finish(&key, 0, CreateDisposition::Terminal);
    store.record_replay_witness(&key, 9);
    assert_eq!(store.replay_witness(&key, &[1; 32]), Some(4));
    assert_eq!(store.replay_witness(&key, &[2; 32]), None);
    store.finish(&key, 1, CreateDisposition::PreDispatchFailure);
    assert_eq!(store.cached(&key, &[1; 32]), Some(&0));
}

#[test]
fn scheduler_records_in_plan_order_and_hands_out_every_receipt_once() {
    let mut scheduler = RichScheduler::new(2);
    assert!(!scheduler.record_verified(rich_applied(1, "b", "b_id")));
    assert!(scheduler.record_verified(rich_applied(0, "a", "a_id")));
    assert!(!scheduler.record_verified(rich_applied(0, "a", "a_id")));
    assert_eq!(scheduler.next_write_index(), Some(1));
    assert!(scheduler.record_verified(rich_applied(1, "b", "b_id")));
    assert_eq!(scheduler.next_write_index(), None);
    let applied = scheduler.into_applied().expect("every receipt");
    assert_eq!(applied.len(), 2);
    assert_eq!(applied[1].block_id.as_str(), "b_id");

    let mut stopped = RichScheduler::new(1);
    let space = EntityId::new("space").expect("space");
    let object = EntityId::new("object").expect("object");
    assert!(stopped.stop(&space, &object, true, RichWriteStop::Cancelled, None).is_some());
    assert!(stopped.into_applied().is_none());
}

#[test]
fn stopped_plan_names_every_step_once() {
    let space = EntityId::new("space").expect("space");
    let object = EntityId::new("object").expect("object");
    let mut scheduler = scheduler_with_prefix(5, 2);
    let output = scheduler
        .stop(
            &space,
            &object,
            true,
            RichWriteStop::Rejected { category: RichFailureCategory::Conflict, definitive: true },
            None,
        )
        .expect("stopped output");
    let applied: Vec<u8> = output.applied.iter().map(|receipt| receipt.index).collect();
    assert_eq!(applied, vec![0, 1]);
    assert_eq!(output.failed.as_ref().map(|failure| failure.index), Some(2));
    assert_eq!(output.not_attempted, vec![3, 4]);
    assert_eq!(
        output.failed.map(|failure| failure.message),
        Some("The page was created, but Anytype rejected this block write.")
    );
    assert_eq!(output.idempotency.scope, "process");

    let cancelled =
        rich_cancelled_at_write_boundary(&space, &object, 1, 3, vec![rich_applied(0, "a", "a_id")], false);
    assert_eq!(cancelled.status, RichStatus::Partial);
    assert_eq!(cancelled.not_attempted, vec![1, 2]);
    assert_eq!(rich_index(300), 255);
    assert_eq!(rich_category(None), RichFailureCategory::Upstream);
}

#[test]
fn rich_costs_count_materialized_blocks() {
    let table = rich_entry_cost(&table_block(12, 12, true));
    assert_eq!(table.blocks, 12 * 12 + 12 + 12 + 1);
    assert_eq!(rich_entry_cost(&text_block("x")).blocks, 1);
    assert_eq!(rich_entry_cost(&text_block("four")).text, 4);
}

#[test]
fn replayed_prefix_is_the_longest_that_stands() {
    let (input, applied, baseline) = rich_root_replay_fixture();
    assert_eq!(verified_rich_prefix_len(&input, &applied, &baseline, Some(2)), 2);
    let mut drifted = baseline.clone();
    drifted.items[4].content = projected_text("changed");
    assert_eq!(verified_rich_prefix_len(&input, &applied, &drifted, Some(2)), 1);
    drifted.items[3].background_color = Some(ColorInput::new("red".to_owned()).expect("color"));
    assert_eq!(verified_rich_prefix_len(&input, &applied, &drifted, Some(2)), 0);
}

#[test]
fn stopped_write_categories_follow_the_error_code() {
    assert_eq!(tool_category(&ToolError::mutation_indeterminate()), RichFailureCategory::Conflict);
    assert_eq!(rich_category(Some(ToolError::not_found())), RichFailureCategory::NotFound);
}
