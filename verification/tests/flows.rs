//! Whole workflows: admission, dispatch and verification of single-block
//! mutations, and rich page creation step by step.

use any_mcp::domain::{EntityId, IdempotencyKey, LocalKey, SnapshotHash};
use any_mcp::error::ToolError;
use any_mcp::flows::{
    begin_delete, begin_move, begin_update, block_create_disposition, check_expected, finish_create, finish_delete,
    finish_move, finish_update, intended_snapshot_hash, plan_create, replay_block_create,
};
use any_mcp::input::{
    BlockChangeInput, BodyBlockCreateInput, BodyBlockDeleteInput, BodyBlockMoveInput,
    BodyBlockUpdateInput, DeleteConfirmation, NewBlockInput, Presentation, RichPageCreateInput, RichPlanEntry,
};
use any_mcp::model::RestrictionsProjection;
use any_mcp::paging::{default_list_limit, list_body, BodyBlockListInput, BodyListLimit};
use any_mcp::projection::{
    project_snapshot, BlockContent, BodyBlock, BodySnapshot, TextContent,
};
use any_mcp::rich::{process_scope, RichFailureCategory, RichPageCreateOutput, RichStatus};
use any_mcp::rich_flow::{
    admit_recovery, begin_rich_create, check_cached, end_written_plan, finish_rich_result,
    fresh_rich_hash,
    interrupted_mutation, read_recovered_body, replay_rich_create, BodyReply, BodyStep, CreateDisposition,
    MutationStage, PageObject, PageReply, PendingWrite, RichEnd, RichNext, RichResult, TypeReply,
    WriteNext, WriteReply, WriteStep,
};
use any_mcp::wire::{
    WireHorizontalAlign, WireInsertPosition, WireTextStyle, WireVerticalAlign, WritableTextStyle,
};

fn plain() -> Presentation {
    Presentation { horizontal_align: None, vertical_align: None, background_color: None }
}

fn text_block(text: &str) -> NewBlockInput {
    NewBlockInput::Text {
        style: WritableTextStyle::Paragraph,
        text: text.to_owned(),
        checked: None,
        marks: Vec::new(),
        text_color: None,
        icon: None,
        presentation: plain(),
    }
}

fn id(text: &str) -> EntityId {
    EntityId::new(text).expect("identifier")
}

fn block(id: &str, children: &[&str], text: &str) -> BodyBlock {
    BodyBlock {
        id: id.to_owned(),
        children: children.iter().map(|child| (*child).to_owned()).collect(),
        restrictions: RestrictionsProjection {
            read: false,
            edit: false,
            remove: false,
            drag: false,
            drop_on: false,
        },
        align: WireHorizontalAlign::Left,
        vertical_align: WireVerticalAlign::Top,
        background_color: None,
        content: BlockContent::Text(TextContent {
            text: text.to_owned(),
            style: WireTextStyle::Paragraph,
            checked: false,
            color: None,
            icon: None,
            marks: Vec::new(),
        }),
    }
}

fn body(blocks: Vec<BodyBlock>) -> BodySnapshot {
    BodySnapshot {
        space_id: "space".to_owned(),
        object_id: "object".to_owned(),
        root_id: "root".to_owned(),
        blocks,
    }
}

fn start() -> BodySnapshot {
    body(vec![
        block("root", &["a", "c"], "root"),
        block("a", &["b"], "A"),
        block("b", &[], "B"),
        block("c", &[], "C"),
    ])
}

fn hash_of(snapshot: &BodySnapshot) -> SnapshotHash {
    project_snapshot(snapshot).expect("shown").hash
}

#[test]
fn update_is_admitted_verified_and_shown() {
    let snapshot = start();
    let input = BodyBlockUpdateInput {
        space: "space".to_owned(),
        object_id: id("object"),
        expected_snapshot_hash: hash_of(&snapshot),
        block_id: id("b"),
        change: BlockChangeInput::SetText { text: "new".to_owned(), marks: Vec::new() },
    };
    let admitted = begin_update(&snapshot, &id("space"), &input).expect("admitted");
    assert_eq!(admitted.plan.intended.snapshot_hash, intended_snapshot_hash());
    let mut receipt = snapshot.clone();
    receipt.blocks[2] = block("b", &[], "new");
    let output = finish_update(&admitted.before, &receipt, &input.block_id, &input.change)
        .expect("verified");
    assert_eq!(output.block.id, input.block_id);
    assert_eq!(output.snapshot_hash, hash_of(&receipt));
    let mut drifted = receipt.clone();
    drifted.blocks[3] = block("c", &[], "drift");
    assert_eq!(
        finish_update(&admitted.before, &drifted, &input.block_id, &input.change).err(),
        Some(ToolError::mutation_indeterminate())
    );

    let mut stale = input.clone();
    stale.expected_snapshot_hash = SnapshotHash::new("0".repeat(64)).expect("hash");
    assert_eq!(
        begin_update(&snapshot, &id("space"), &stale).err(),
        Some(ToolError::conflict())
    );
    assert_eq!(
        begin_update(&snapshot, &id("other"), &input).err(),
        Some(ToolError::upstream())
    );
    let mut missing = input.clone();
    missing.block_id = id("absent");
    assert_eq!(
        begin_update(&snapshot, &id("space"), &missing).err(),
        Some(ToolError::not_found())
    );
    let mut misfit = input;
    misfit.change = BlockChangeInput::SetChecked { checked: true };
    assert_eq!(
        begin_update(&snapshot, &id("space"), &misfit).err(),
        Some(ToolError::validation())
    );
}

#[test]
fn delete_is_admitted_with_its_exact_size() {
    let snapshot = start();
    let mut input = BodyBlockDeleteInput {
        space: "space".to_owned(),
        object_id: id("object"),
        expected_snapshot_hash: hash_of(&snapshot),
        block_id: id("a"),
        expected_subtree_blocks: 2,
        confirm_delete: DeleteConfirmation::DeleteSubtree,
    };
    let admitted = begin_delete(&snapshot, &id("space"), &input).expect("admitted");
    assert_eq!(admitted.plan.subtree, vec!["a".to_owned(), "b".to_owned()]);
    assert_eq!(admitted.plan.intended.deleted_subtree_blocks, 2);
    let receipt = body(vec![block("root", &["c"], "root"), block("c", &[], "C")]);
    let output =
        finish_delete(&admitted.before, &receipt, &input.block_id, &admitted.plan.subtree)
            .expect("verified");
    assert_eq!(output.deleted_subtree_blocks, 2);
    assert_eq!(
        finish_delete(&admitted.before, &snapshot, &input.block_id, &admitted.plan.subtree).err(),
        Some(ToolError::mutation_indeterminate())
    );
    input.expected_subtree_blocks = 1;
    assert!(begin_delete(&snapshot, &id("space"), &input).is_err());
    input.block_id = id("root");
    input.expected_subtree_blocks = 4;
    assert!(begin_delete(&snapshot, &id("space"), &input).is_err());
}

#[test]
fn move_is_admitted_and_verified_at_its_place() {
    let snapshot = start();
    let mut input = BodyBlockMoveInput {
        space: "space".to_owned(),
        object_id: id("object"),
        expected_snapshot_hash: hash_of(&snapshot),
        block_id: id("a"),
        target_block_id: id("c"),
        position: WireInsertPosition::After,
    };
    let admitted = begin_move(&snapshot, &id("space"), &input).expect("admitted");
    let receipt = body(vec![
        block("root", &["c", "a"], "root"),
        block("c", &[], "C"),
        block("a", &["b"], "A"),
        block("b", &[], "B"),
    ]);
    let output =
        finish_move(&admitted.before, &receipt, &input, &admitted.plan.subtree).expect("verified");
    assert_eq!(output.block.sibling_index, 1);
    assert_eq!(output.block.parent_id, Some(id("root")));
    assert_eq!(
        finish_move(&admitted.before, &snapshot, &input, &admitted.plan.subtree).err(),
        Some(ToolError::mutation_indeterminate())
    );
    input.target_block_id = id("b");
    assert!(begin_move(&snapshot, &id("space"), &input).is_err());
}

fn create_input(snapshot: &BodySnapshot) -> BodyBlockCreateInput {
    BodyBlockCreateInput {
        space: "space".to_owned(),
        object_id: id("object"),
        expected_snapshot_hash: hash_of(snapshot),
        target_block_id: id("a"),
        position: WireInsertPosition::LastChild,
        block: text_block("new"),
        idempotency_key: IdempotencyKey::new("key").expect("key"),
    }
}

#[test]
fn create_is_verified_and_replayed_while_it_stands() {
    let snapshot = start();
    let input = create_input(&snapshot);
    let plan = plan_create(&snapshot, &id("space"), &input).expect("planned");
    assert_eq!(plan.intended.block.id.as_str().len(), 256);
    let receipt = body(vec![
        block("root", &["a", "c"], "root"),
        block("a", &["b", "n"], "A"),
        block("b", &[], "B"),
        block("n", &[], "new"),
        block("c", &[], "C"),
    ]);
    let output = finish_create(&plan.before, Some("n"), &receipt, &input).expect("verified");
    assert_eq!(output.block.sibling_index, 1);
    assert!(!output.idempotency.key_reused);
    for affected in [None, Some(""), Some("b")] {
        assert_eq!(
            finish_create(&plan.before, affected, &receipt, &input).err(),
            Some(ToolError::mutation_indeterminate())
        );
    }
    let again = replay_block_create(&receipt, "space", &input, &output.block).expect("replayed");
    assert!(again.idempotency.key_reused);
    assert_eq!(again.block, output.block);
    let mut drifted = receipt.clone();
    drifted.blocks[3] = block("n", &[], "edited");
    assert_eq!(
        replay_block_create(&drifted, "space", &input, &output.block).err(),
        Some(ToolError::conflict())
    );
    assert_eq!(
        replay_block_create(&receipt, "other", &input, &output.block).err(),
        Some(ToolError::conflict())
    );
    let mut stale = input;
    stale.expected_snapshot_hash = SnapshotHash::new("0".repeat(64)).expect("hash");
    assert_eq!(
        plan_create(&snapshot, &id("space"), &stale).err(),
        Some(ToolError::conflict())
    );
    assert_eq!(
        block_create_disposition(true, MutationStage::Dispatched),
        CreateDisposition::Verified
    );
    assert_eq!(
        block_create_disposition(false, MutationStage::PreDispatch),
        CreateDisposition::PreDispatchFailure
    );
    assert_eq!(
        block_create_disposition(false, MutationStage::Dispatched),
        CreateDisposition::Indeterminate
    );
}

#[test]
fn listing_follows_its_cursor_and_refuses_another_snapshot() {
    let snapshot = start();
    let mut input = BodyBlockListInput {
        space: "space".to_owned(),
        object_id: id("object"),
        limit: BodyListLimit::new(3).expect("limit"),
        cursor: None,
    };
    let first = list_body(&snapshot, &id("space"), &input).expect("first page");
    assert_eq!(first.items.len(), 3);
    input.cursor = first.next_state;
    let second = list_body(&snapshot, &id("space"), &input).expect("second page");
    assert_eq!(second.items.len(), 1);
    assert_eq!(second.items[0].id.as_str(), "c");
    assert!(second.next_state.is_none());
    let mut changed = snapshot.clone();
    changed.blocks[3] = block("c", &[], "changed");
    assert_eq!(
        list_body(&changed, &id("space"), &input).err(),
        Some(ToolError::conflict())
    );
    input.cursor = None;
    input.limit = default_list_limit();
    assert_eq!(
        list_body(&snapshot, &id("elsewhere"), &input).err(),
        Some(ToolError::upstream())
    );
}

fn rich_input() -> RichPageCreateInput {
    let entry = |key: &str, parent: Option<&str>, text: &str| RichPlanEntry {
        local_key: LocalKey::new(key.to_owned()).expect("key"),
        parent_key: parent.map(|parent| LocalKey::new(parent.to_owned()).expect("parent")),
        block: text_block(text),
    };
    RichPageCreateInput {
        space: "space".to_owned(),
        name: "Page".to_owned(),
        idempotency_key: IdempotencyKey::new("key").expect("key"),
        blocks: vec![entry("top", None, "Top"), entry("below", Some("top"), "Below")],
    }
}

fn page() -> PageObject {
    PageObject {
        id: "object".to_owned(),
        space_id: "space".to_owned(),
        name: Some("Page".to_owned()),
        type_key: Some("page".to_owned()),
    }
}

fn body_step() -> BodyStep {
    begin_rich_create(rich_input(), "space")
        .expect("accepted plan")
        .resolved(TypeReply::Found { key: "page".to_owned(), id: "type".to_owned() })
        .expect("page type")
        .created(PageReply::Created { id: "object".to_owned() })
        .expect("created")
        .read(Some(page()))
        .expect("read back")
}

fn write_step() -> WriteStep {
    body_step()
        .fetched(BodyReply::Fetched(body(vec![block("root", &[], "root")])))
        .expect("fetched")
}

fn pending(step: WriteStep) -> PendingWrite {
    match step.next(false) {
        RichNext::Write(pending) => pending,
        other => panic!("unexpected {other:?}"),
    }
}

fn first_receipt() -> BodySnapshot {
    body(vec![block("root", &["t"], "root"), block("t", &[], "Top")])
}

fn last_receipt() -> BodySnapshot {
    body(vec![
        block("root", &["t"], "root"),
        block("t", &["u"], "Top"),
        block("u", &[], "Below"),
    ])
}

fn after_both(last: BodySnapshot) -> RichNext {
    let write = pending(write_step());
    assert_eq!(write.index, 0);
    assert_eq!(write.target, "root");
    let step = match write.replied(WriteReply::Applied {
        block_id: Some("t".to_owned()),
        snapshot: first_receipt(),
    }) {
        WriteNext::Continue(step) => step,
        other => panic!("unexpected {other:?}"),
    };
    let write = pending(step);
    assert_eq!(write.index, 1);
    assert_eq!(write.target, "t");
    match write.replied(WriteReply::Applied { block_id: Some("u".to_owned()), snapshot: last }) {
        WriteNext::Continue(step) => step.next(false),
        other => panic!("unexpected {other:?}"),
    }
}

#[test]
fn rich_page_is_complete_once_every_entry_reads_back() {
    let end = match after_both(last_receipt()) {
        RichNext::End(end) => end,
        other => panic!("unexpected {other:?}"),
    };
    assert_eq!(end.disposition, CreateDisposition::Verified);
    let output = match end.result {
        RichResult::Output(output) => output,
        RichResult::Failure(error) => panic!("unexpected {error:?}"),
    };
    assert_eq!(output.status, RichStatus::Complete);
    assert_eq!(output.applied.len(), 2);
    assert_eq!(output.final_snapshot_hash, Some(hash_of(&last_receipt())));

    let kept = finish_rich_result(output.clone(), &vec![0; 131_072], CreateDisposition::Verified);
    assert_eq!(kept.result, RichResult::Output(output.clone()));
    let replay = |body: &BodySnapshot| {
        replay_rich_create(&rich_input(), "space", output.clone(), &page(), body, Some(0))
    };
    let again = replay(&last_receipt()).expect("replayed");
    assert!(again.idempotency.key_reused && !output.idempotency.key_reused);
    assert_eq!(again.applied, output.applied);
    assert_eq!(again.final_snapshot_hash, output.final_snapshot_hash);
    assert_eq!(replay(&first_receipt()), Err(ToolError::conflict()));
    let large = finish_rich_result(output, &vec![0; 131_073], CreateDisposition::Verified);
    assert_eq!(large.result, RichResult::Failure(ToolError::bounded_result()));
}

#[test]
fn rich_page_reports_drift_of_the_authored_prefix() {
    let drifted = body(vec![
        block("root", &["t"], "root"),
        block("t", &["u"], "Top"),
        block("u", &[], "Edited"),
    ]);
    let end = match after_both(drifted) {
        RichNext::End(end) => end,
        other => panic!("unexpected {other:?}"),
    };
    assert_eq!(end.disposition, CreateDisposition::Terminal);
    let output = output_of(end);
    assert_eq!(output.status, RichStatus::Partial);
    assert_eq!(output.applied.len(), 1);
    assert_eq!(
        output.failed.map(|failure| (failure.index, failure.category)),
        Some((1, RichFailureCategory::Conflict))
    );
    assert!(output.not_attempted.is_empty());
}

fn output_of(end: RichEnd) -> any_mcp::rich::RichPageCreateOutput {
    match end.result {
        RichResult::Output(output) => output,
        RichResult::Failure(error) => panic!("unexpected {error:?}"),
    }
}

#[test]
fn rich_page_stops_for_good_at_its_first_failed_write() {
    let stopped = match pending(write_step()).replied(WriteReply::Failed {
        error: Some(ToolError::not_found()),
        polled: true,
        definitive: true,
    }) {
        WriteNext::Reread(stopped) => stopped,
        other => panic!("unexpected {other:?}"),
    };
    let hash = fresh_rich_hash(Some(&first_receipt()), &id("space"), &id("object"));
    assert_eq!(hash, Some(hash_of(&first_receipt())));
    let output = output_of(stopped.reread(hash));
    assert_eq!(output.status, RichStatus::Partial);
    assert_eq!(
        output.failed.map(|failure| failure.category),
        Some(RichFailureCategory::NotFound)
    );
    assert_eq!(output.not_attempted, vec![1]);

    let uncertain = match pending(write_step()).replied(WriteReply::Interrupted { polled: true }) {
        WriteNext::End(end) => output_of(end),
        other => panic!("unexpected {other:?}"),
    };
    assert_eq!(uncertain.status, RichStatus::Indeterminate);
    let unsent = match write_step().next(true) {
        RichNext::End(end) => output_of(end),
        other => panic!("unexpected {other:?}"),
    };
    assert_eq!(unsent.status, RichStatus::Partial);
    assert_eq!(unsent.not_attempted, vec![0, 1]);
    let unnamed = match pending(write_step())
        .replied(WriteReply::Applied { block_id: None, snapshot: first_receipt() })
    {
        WriteNext::Reread(stopped) => output_of(stopped.reread(None)),
        other => panic!("unexpected {other:?}"),
    };
    assert_eq!(unnamed.status, RichStatus::Indeterminate);
    assert_eq!(fresh_rich_hash(Some(&first_receipt()), &id("space"), &id("other")), None);
    assert_eq!(fresh_rich_hash(None, &id("space"), &id("object")), None);
}

fn failure_of(end: RichEnd) -> (ToolError, CreateDisposition) {
    match end.result {
        RichResult::Failure(error) => (error, end.disposition),
        RichResult::Output(output) => panic!("unexpected {output:?}"),
    }
}

#[test]
fn rich_page_failures_before_its_body_say_what_may_exist() {
    let mut invalid = rich_input();
    invalid.blocks.clear();
    assert_eq!(
        failure_of(begin_rich_create(invalid, "space").expect_err("empty plan")),
        (ToolError::validation(), CreateDisposition::PreDispatchFailure)
    );
    assert_eq!(
        failure_of(begin_rich_create(rich_input(), "").expect_err("no space")),
        (ToolError::upstream(), CreateDisposition::PreDispatchFailure)
    );
    let typed = || {
        begin_rich_create(rich_input(), "space")
            .expect("accepted plan")
            .resolved(TypeReply::Found { key: "page".to_owned(), id: "type".to_owned() })
            .expect("page type")
    };
    assert_eq!(
        failure_of(
            begin_rich_create(rich_input(), "space")
                .expect("accepted plan")
                .resolved(TypeReply::Found { key: "note".to_owned(), id: "type".to_owned() })
                .expect_err("another type")
        ),
        (ToolError::upstream(), CreateDisposition::PreDispatchFailure)
    );
    assert_eq!(
        failure_of(
            typed()
                .created(PageReply::Rejected {
                    error: Some(ToolError::validation()),
                    definitive: true
                })
                .expect_err("rejected")
        ),
        (ToolError::validation(), CreateDisposition::PreDispatchFailure)
    );
    assert_eq!(
        failure_of(
            typed()
                .created(PageReply::Interrupted(MutationStage::Dispatched))
                .expect_err("interrupted")
        ),
        (ToolError::conflict(), CreateDisposition::Indeterminate)
    );
    let created = typed().created(PageReply::Created { id: "object".to_owned() }).expect("created");
    let mut renamed = page();
    renamed.name = Some("Other".to_owned());
    assert_eq!(
        failure_of(created.read(Some(renamed)).expect_err("renamed")),
        (ToolError::conflict(), CreateDisposition::Indeterminate)
    );
    let unread = body_step().fetched(BodyReply::Failed(Some(ToolError::authentication())));
    let output = output_of(unread.expect_err("no body"));
    assert_eq!(
        output.failed.map(|failure| failure.category),
        Some(RichFailureCategory::Authentication)
    );
    assert_eq!(output.not_attempted, vec![0, 1]);
}

#[test]
fn pending_page_is_recovered_only_where_it_still_reads_back() {
    assert_eq!(admit_recovery("space", "object", "space", Some(&page()), "Page"), Ok(()));
    assert_eq!(
        admit_recovery("space", "object", "other", Some(&page()), "Page"),
        Err(ToolError::conflict())
    );
    assert_eq!(
        admit_recovery("space", "object", "space", None, "Page"),
        Err(ToolError::conflict())
    );
    assert_eq!(
        read_recovered_body(BodyReply::Fetched(first_receipt()), "space", "object"),
        Ok(hash_of(&first_receipt()))
    );
    assert_eq!(
        read_recovered_body(BodyReply::Fetched(first_receipt()), "space", "other"),
        Err(RichFailureCategory::Conflict)
    );
    assert_eq!(
        read_recovered_body(BodyReply::Interrupted, "space", "object"),
        Err(RichFailureCategory::Upstream)
    );
    assert_eq!(interrupted_mutation(MutationStage::PreDispatch), ToolError::upstream());
    assert_eq!(
        interrupted_mutation(MutationStage::Dispatched),
        ToolError::mutation_indeterminate()
    );
}

#[test]
fn shown_body_is_held_against_the_expected_one() {
    let shown = project_snapshot(&start()).unwrap();
    let expected = hash_of(&start());
    let (space, object) = (shown.space_id.clone(), shown.object_id.clone());
    assert_eq!(check_expected(&shown, &space, &object, &expected), Ok(()));
    assert_eq!(
        check_expected(&shown, &id("elsewhere"), &object, &expected),
        Err(ToolError::upstream())
    );
    assert_eq!(
        check_expected(&shown, &space, &id("another"), &expected),
        Err(ToolError::upstream())
    );
    assert_eq!(
        check_expected(&shown, &space, &object, &intended_snapshot_hash()),
        Err(ToolError::conflict())
    );
}

#[test]
fn remembered_outcome_stands_only_in_its_own_body() {
    let shown = project_snapshot(&start()).unwrap();
    let nothing = RichPageCreateOutput {
        status: RichStatus::Complete,
        space_id: id("space"),
        object_id: id("page"),
        applied: vec![],
        failed: None,
        not_attempted: vec![],
        final_snapshot_hash: Some(shown.hash.clone()),
        idempotency: process_scope(false),
    };
    assert!(check_cached(&rich_input(), &nothing, &shown, None));
    let other = RichPageCreateOutput {
        final_snapshot_hash: Some(intended_snapshot_hash()),
        ..nothing.clone()
    };
    assert!(!check_cached(&rich_input(), &other, &shown, None));
    let unhashed = RichPageCreateOutput { final_snapshot_hash: None, ..nothing };
    assert!(check_cached(&rich_input(), &unhashed, &shown, None));
}

#[test]
fn written_plan_without_receipts_is_complete() {
    let shown = project_snapshot(&start()).unwrap();
    let end = end_written_plan(&rich_input(), id("space"), id("object"), 2, vec![], shown);
    assert_eq!(end.disposition, CreateDisposition::Verified);
    let RichResult::Output(output) = end.result else {
        panic!("output");
    };
    assert_eq!(output.status, RichStatus::Complete);
    assert_eq!(output.final_snapshot_hash, Some(hash_of(&start())));
    assert!(output.not_attempted.is_empty());
}
