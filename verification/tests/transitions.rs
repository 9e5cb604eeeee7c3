//! Which snapshots may follow one another under each mutation.

use any_mcp::change::apply_projected_change;
use any_mcp::creation::verify_create_transition;
use any_mcp::domain::{ColorInput, EntityId, OpaqueKind, RelationKey};
use any_mcp::hashing::hash_projection;
use any_mcp::input::{BlockChangeInput, NewBlockInput, Presentation};
use any_mcp::model::{
    BlockProjection, BlockSummary, ProjectedSnapshot, RestrictionsProjection, WireIcon, WireMark,
};
use any_mcp::plan::{
    validate_projected_create_plan, validate_projected_delete_plan, validate_projected_move_plan,
};
use any_mcp::projection::MAX_RELATIONS;
use any_mcp::relocation::verify_move_transition;
use any_mcp::transition::{verify_delete_transition, verify_update_transition};
use any_mcp::wire::{
    WireDividerStyle, WireEmbedProcessor, WireHorizontalAlign, WireInsertPosition, WireLayoutStyle,
    WireLinkCardStyle, WireLinkDescription, WireLinkIconSize, WireTextStyle, WireVerticalAlign,
    WritableTextStyle,
};

fn plain() -> Presentation {
    Presentation { horizontal_align: None, vertical_align: None, background_color: None }
}

fn text_block(text: &str) -> NewBlockInput {
    NewBlockInput::Text {
        style: WritableTextStyle::Paragraph,
        text: text.to_owned(),
        checked: None,
        marks: Vec::new(),
        text_color: None,
        icon: None,
        presentation: plain(),
    }
}

fn restrictions() -> RestrictionsProjection {
    RestrictionsProjection {
        read: false,
        edit: false,
        remove: false,
        drag: false,
        drop_on: false,
    }
}

fn projected_text(text: &str) -> BlockProjection {
    BlockProjection::Text {
        text: text.to_owned(),
        style: WireTextStyle::Paragraph,
        checked: false,
        color: None,
        icon: None,
        marks: Vec::new(),
    }
}

fn projected_opaque(kind: &str, child_count: u64, approx_bytes: u64) -> BlockProjection {
    BlockProjection::Unsupported {
        opaque_kind: OpaqueKind::new(kind.to_owned()).expect("opaque kind"),
        child_count,
        approx_bytes,
    }
}

fn summary(
    id: &str,
    parent: Option<&str>,
    sibling_index: u64,
    depth: u64,
    child_count: u64,
    content: BlockProjection,
) -> BlockSummary {
    BlockSummary {
        id: EntityId::new(id).expect("fixture ID"),
        parent_id: parent.map(|value| EntityId::new(value).expect("fixture parent ID")),
        sibling_index,
        depth,
        child_count,
        restrictions: restrictions(),
        align: WireHorizontalAlign::Left,
        vertical_align: WireVerticalAlign::Top,
        background_color: None,
        content,
    }
}

fn projected(items: Vec<BlockSummary>) -> ProjectedSnapshot {
    let space_id = EntityId::new("space").expect("space ID");
    let object_id = EntityId::new("object").expect("object ID");
    let root_id = EntityId::new("root").expect("root ID");
    let hash = hash_projection(&space_id, &object_id, &root_id, &items);
    ProjectedSnapshot {
        space_id,
        object_id,
        root_id,
        hash,
        items,
    }
}

fn projected_text_insertion(
    before: &ProjectedSnapshot,
    parent_id: &str,
    sibling_index: u64,
    dfs_index: usize,
    created_depth: u64,
    created_id: &str,
) -> ProjectedSnapshot {
    let parent_id = EntityId::new(parent_id).expect("fixture insertion parent");
    let mut items = before.items.clone();
    for block in &mut items {
        if block.id == parent_id {
            block.child_count = block
                .child_count
                .checked_add(1)
                .expect("fixture child count");
        }
        if block.parent_id.as_ref() == Some(&parent_id) && block.sibling_index >= sibling_index
        {
            block.sibling_index = block
                .sibling_index
                .checked_add(1)
                .expect("fixture sibling index");
        }
    }
    items.insert(
        dfs_index,
        summary(
            created_id,
            Some(parent_id.as_str()),
            sibling_index,
            created_depth,
            0,
            projected_text("created"),
        ),
    );
    projected(items)
}

fn refresh_projection_hash(snapshot: &mut ProjectedSnapshot) {
    snapshot.hash = hash_projection(
        &snapshot.space_id,
        &snapshot.object_id,
        &snapshot.root_id,
        &snapshot.items,
    );
}

fn projected_link(target: &str, relations: Vec<RelationKey>) -> BlockProjection {
    BlockProjection::Link {
        target_object_id: EntityId::new(target).expect("link target"),
        card_style: WireLinkCardStyle::Text,
        icon_size: WireLinkIconSize::Hidden,
        description: WireLinkDescription::Hidden,
        relations,
    }
}

#[test]
fn body_update_one_change() {
    let relations = (0..MAX_RELATIONS)
        .map(|index| RelationKey::new(format!("r{index}")).expect("relation"))
        .collect::<Vec<_>>();
    let cases = [
        (
            projected_text("before"),
            BlockChangeInput::SetText { text: "after".to_owned(), marks: Vec::new() },
        ),
        (
            projected_text("before"),
            BlockChangeInput::SetTextStyle { style: WritableTextStyle::Heading1 },
        ),
        (
            BlockProjection::Text {
                text: "todo".to_owned(),
                style: WireTextStyle::Checkbox,
                checked: false,
                color: None,
                icon: None,
                marks: Vec::new(),
            },
            BlockChangeInput::SetChecked { checked: true },
        ),
        (
            projected_text("before"),
            BlockChangeInput::SetTextColor {
                color: ColorInput::new("red".to_owned()).expect("color"),
            },
        ),
        (
            BlockProjection::Text {
                text: "before".to_owned(),
                style: WireTextStyle::Paragraph,
                checked: false,
                color: Some(ColorInput::new("red".to_owned()).expect("color")),
                icon: None,
                marks: Vec::new(),
            },
            BlockChangeInput::ClearTextColor,
        ),
        (
            BlockProjection::Text {
                text: "note".to_owned(),
                style: WireTextStyle::Callout,
                checked: false,
                color: None,
                icon: None,
                marks: Vec::new(),
            },
            BlockChangeInput::SetCalloutIcon { icon: WireIcon::Emoji { emoji: "!".to_owned() } },
        ),
        (
            BlockProjection::Text {
                text: "note".to_owned(),
                style: WireTextStyle::Callout,
                checked: false,
                color: None,
                icon: Some(WireIcon::Emoji {
                    emoji: "!".to_owned(),
                }),
                marks: Vec::new(),
            },
            BlockChangeInput::ClearCalloutIcon,
        ),
        (
            BlockProjection::Divider {
                style: WireDividerStyle::Line,
            },
            BlockChangeInput::SetDividerStyle { style: WireDividerStyle::Dots },
        ),
        (
            projected_text("before"),
            BlockChangeInput::SetBackgroundColor {
                color: ColorInput::new("grey".to_owned()).expect("color"),
            },
        ),
        (
            projected_text("before"),
            BlockChangeInput::ClearBackgroundColor,
        ),
        (
            projected_text("before"),
            BlockChangeInput::SetHorizontalAlign { align: WireHorizontalAlign::Center },
        ),
        (
            projected_text("before"),
            BlockChangeInput::SetVerticalAlign { align: WireVerticalAlign::Middle },
        ),
        (
            BlockProjection::Embed {
                processor: WireEmbedProcessor::Mermaid,
                source: "a-->b".to_owned(),
            },
            BlockChangeInput::SetEmbedSource { source: "b-->c".to_owned() },
        ),
        (
            projected_link("referenced-object", Vec::new()),
            BlockChangeInput::SetLinkAppearance {
                card_style: WireLinkCardStyle::Card,
                icon_size: WireLinkIconSize::Small,
                description: WireLinkDescription::Content,
                relations,
            },
        ),
    ];
    assert_eq!(cases.len(), 14);
    for (content, change) in cases {
        let before = projected(vec![
            summary("root", None, 0, 0, 2, projected_text("root")),
            summary("target", Some("root"), 0, 1, 0, content),
            summary(
                "unrelated",
                Some("root"),
                1,
                1,
                0,
                projected_text("unchanged"),
            ),
        ]);
        let mut after = before.clone();
        let target = after
            .items
            .iter_mut()
            .find(|block| block.id.as_str() == "target")
            .expect("target");
        apply_projected_change(target, &change).expect("applicable update");
        refresh_projection_hash(&mut after);
        assert!(verify_update_transition(
            &before,
            &after,
            &EntityId::new("target").expect("target ID"),
            &change
        ));
        let mut drifted = after.clone();
        drifted.items[2].content = projected_text("collateral drift");
        assert!(!verify_update_transition(
            &before,
            &drifted,
            &EntityId::new("target").expect("target ID"),
            &change
        ));
    }
}

#[test]
fn update_transition_accepts_only_root_opaque_size_refresh() {
    let mut target = summary(
        "target",
        Some("root"),
        0,
        1,
        0,
        BlockProjection::Text {
            text: "Paragraph".to_owned(),
            style: WireTextStyle::Paragraph,
            checked: false,
            color: Some(ColorInput::new("blue".to_owned()).expect("color")),
            icon: None,
            marks: Vec::new(),
        },
    );
    target.align = WireHorizontalAlign::Center;
    target.vertical_align = WireVerticalAlign::Middle;
    target.background_color = Some(ColorInput::new("grey".to_owned()).expect("background"));
    let before = projected(vec![
        summary(
            "root",
            None,
            0,
            0,
            2,
            projected_opaque("smartblock", 2, 180),
        ),
        target.clone(),
        summary(
            "opaque",
            Some("root"),
            1,
            1,
            0,
            projected_opaque("dataview", 0, 9),
        ),
    ]);
    let change = BlockChangeInput::SetText {
        text: "matrix text".to_owned(),
        marks: vec![WireMark::Bold { start: 0, end: 6 }],
    };
    let mut updated = target;
    apply_projected_change(&mut updated, &change).expect("projected change");
    let after = projected(vec![
        summary(
            "root",
            None,
            0,
            0,
            2,
            projected_opaque("smartblock", 2, 181),
        ),
        updated,
        summary(
            "opaque",
            Some("root"),
            1,
            1,
            0,
            projected_opaque("dataview", 0, 9),
        ),
    ]);
    let target_id = EntityId::new("target").expect("target");
    assert!(verify_update_transition(
        &before, &after, &target_id, &change,
    ));

    let mut volatile_root_size = after.clone();
    volatile_root_size.items[0].content = projected_opaque("smartblock", 2, 1);
    assert!(verify_update_transition(
        &before,
        &volatile_root_size,
        &target_id,
        &change,
    ));

    let mut wrong_root_kind = after.clone();
    wrong_root_kind.items[0].content = projected_opaque("dataview", 2, 181);
    let mut wrong_root_nested_count = after.clone();
    wrong_root_nested_count.items[0].content = projected_opaque("smartblock", 1, 181);
    let mut wrong_root_outer_count = after.clone();
    wrong_root_outer_count.items[0].child_count = 1;
    wrong_root_outer_count.items[0].content = projected_opaque("smartblock", 1, 181);
    let mut root_typed_transition = after.clone();
    root_typed_transition.items[0].content = projected_text("root");
    let mut unrelated_opaque_drift = after.clone();
    unrelated_opaque_drift.items[2].content = projected_opaque("dataview", 0, 10);
    let mut unrelated_restriction_drift = after.clone();
    unrelated_restriction_drift.items[2].restrictions.edit = true;
    let mut unrelated_presentation_drift = after.clone();
    unrelated_presentation_drift.items[2].align = WireHorizontalAlign::Center;
    let mut target_content_drift = after.clone();
    target_content_drift.items[1].content = projected_text("wrong");
    let mut target_restriction_drift = after.clone();
    target_restriction_drift.items[1].restrictions.edit = true;
    let mut target_presentation_drift = after.clone();
    target_presentation_drift.items[1].background_color =
        Some(ColorInput::new("red".to_owned()).expect("background"));
    let mut target_parent_drift = after.clone();
    target_parent_drift.items[1].parent_id = Some(EntityId::new("opaque").expect("opaque"));
    let mut target_index_drift = after.clone();
    target_index_drift.items[1].sibling_index = 1;
    let mut target_depth_drift = after.clone();
    target_depth_drift.items[1].depth = 2;
    let mut target_child_count_drift = after.clone();
    target_child_count_drift.items[1].child_count = 1;
    let mut reordered = after.clone();
    reordered.items.swap(1, 2);
    let mut foreign_identity = after.clone();
    foreign_identity.items[2].id = EntityId::new("foreign").expect("foreign");
    for invalid in [
        wrong_root_kind,
        wrong_root_nested_count,
        wrong_root_outer_count,
        root_typed_transition,
        unrelated_opaque_drift,
        unrelated_restriction_drift,
        unrelated_presentation_drift,
        target_content_drift,
        target_restriction_drift,
        target_presentation_drift,
        target_parent_drift,
        target_index_drift,
        target_depth_drift,
        target_child_count_drift,
        reordered,
        foreign_identity,
    ] {
        assert!(!verify_update_transition(
            &before, &invalid, &target_id, &change,
        ));
    }

    let mut typed_before = before.clone();
    typed_before.items[0].content = projected_text("root");
    let mut typed_after = after.clone();
    typed_after.items[0].content = projected_text("root");
    assert!(verify_update_transition(
        &typed_before,
        &typed_after,
        &target_id,
        &change,
    ));
    typed_after.items[0].content = projected_text("changed root");
    assert!(!verify_update_transition(
        &typed_before,
        &typed_after,
        &target_id,
        &change,
    ));
}

#[test]
fn body_delete_confirmed_subtree() {
    let before = projected(vec![
        summary("root", None, 0, 0, 3, projected_text("root")),
        summary("gone", Some("root"), 0, 1, 1, projected_text("gone")),
        summary(
            "gone-child",
            Some("gone"),
            0,
            2,
            0,
            projected_text("gone child"),
        ),
        summary(
            "reference",
            Some("root"),
            1,
            1,
            0,
            projected_link("external-object", Vec::new()),
        ),
        summary(
            "unrelated",
            Some("root"),
            2,
            1,
            0,
            projected_text("unchanged"),
        ),
    ]);
    let subtree = vec![
        "gone".to_owned(),
        "gone-child".to_owned(),
    ];
    let mut after = projected(vec![
        summary("root", None, 0, 0, 2, projected_text("root")),
        summary(
            "reference",
            Some("root"),
            0,
            1,
            0,
            projected_link("external-object", Vec::new()),
        ),
        summary(
            "unrelated",
            Some("root"),
            1,
            1,
            0,
            projected_text("unchanged"),
        ),
    ]);
    refresh_projection_hash(&mut after);
    validate_projected_delete_plan(&before, &subtree, 2).expect("valid delete plan");
    assert!(verify_delete_transition(&before, &after, &subtree));
    assert!(
        matches!(after.items[1].content, BlockProjection::Link { ref target_object_id, .. } if target_object_id.as_str() == "external-object")
    );

    let root = vec!["root".to_owned()];
    let mut restricted = before.clone();
    restricted.items[1].restrictions.remove = true;
    let mut structural = before.clone();
    structural.items[1].content = BlockProjection::Table;
    for invalid in [
        validate_projected_delete_plan(&before, &root, 1),
        validate_projected_delete_plan(&before, &subtree, 1),
        validate_projected_delete_plan(&restricted, &subtree, 2),
        validate_projected_delete_plan(&structural, &subtree, 2),
    ] {
        assert!(invalid.is_err());
    }
    let mut drifted = after.clone();
    drifted.items[2].content = projected_text("unexpected collateral edit");
    assert!(!verify_delete_transition(&before, &drifted, &subtree));
}

#[test]
fn delete_transition_accepts_only_removed_parent_opaque_summary_refresh() {
    let before = projected(vec![
        summary(
            "root",
            None,
            0,
            0,
            4,
            projected_opaque("smartblock", 4, 244),
        ),
        summary("keep", Some("root"), 0, 1, 0, projected_text("keep")),
        summary("gone", Some("root"), 1, 1, 1, projected_text("gone")),
        summary(
            "gone-child",
            Some("gone"),
            0,
            2,
            0,
            projected_text("gone child"),
        ),
        summary("tail", Some("root"), 2, 1, 0, projected_text("tail")),
        summary(
            "opaque",
            Some("root"),
            3,
            1,
            0,
            projected_opaque("dataview", 0, 9),
        ),
    ]);
    let after = projected(vec![
        summary(
            "root",
            None,
            0,
            0,
            3,
            projected_opaque("smartblock", 3, 180),
        ),
        summary("keep", Some("root"), 0, 1, 0, projected_text("keep")),
        summary("tail", Some("root"), 1, 1, 0, projected_text("tail")),
        summary(
            "opaque",
            Some("root"),
            2,
            1,
            0,
            projected_opaque("dataview", 0, 9),
        ),
    ]);
    let subtree = vec![
        "gone".to_owned(),
        "gone-child".to_owned(),
    ];
    assert!(verify_delete_transition(&before, &after, &subtree));

    let mut volatile_root_size = after.clone();
    volatile_root_size.items[0].content = projected_opaque("smartblock", 3, 1);
    assert!(verify_delete_transition(
        &before,
        &volatile_root_size,
        &subtree,
    ));

    let mut inconsistent_prior_count = before.clone();
    inconsistent_prior_count.items[0].content = projected_opaque("smartblock", 3, 244);
    let mut wrong_kind = after.clone();
    wrong_kind.items[0].content = projected_opaque("dataview", 3, 180);
    let mut wrong_nested_count = after.clone();
    wrong_nested_count.items[0].content = projected_opaque("smartblock", 2, 180);
    let mut wrong_outer_count = after.clone();
    wrong_outer_count.items[0].child_count = 4;
    wrong_outer_count.items[0].content = projected_opaque("smartblock", 4, 180);
    let mut unsupported_to_typed = after.clone();
    unsupported_to_typed.items[0].content = projected_text("root");
    let mut unrelated_content_drift = after.clone();
    unrelated_content_drift.items[1].content = projected_text("changed keep");
    let mut unrelated_opaque_drift = after.clone();
    unrelated_opaque_drift.items[3].content = projected_opaque("dataview", 0, 10);
    let mut wrong_sibling_shift = after.clone();
    wrong_sibling_shift.items[2].sibling_index = 2;
    let mut wrong_depth = after.clone();
    wrong_depth.items[2].depth = 2;
    let mut wrong_parent = after.clone();
    wrong_parent.items[2].parent_id = Some(EntityId::new("keep").expect("keep"));
    let mut reordered = after.clone();
    reordered.items.swap(2, 3);
    let mut foreign_identity = after.clone();
    foreign_identity.items[3].id = EntityId::new("foreign").expect("foreign");
    let mut unrelated_restriction_drift = after.clone();
    unrelated_restriction_drift.items[1].restrictions.edit = true;
    let mut unrelated_presentation_drift = after.clone();
    unrelated_presentation_drift.items[2].align = WireHorizontalAlign::Center;
    for invalid in [
        wrong_kind,
        wrong_nested_count,
        wrong_outer_count,
        unsupported_to_typed,
        unrelated_content_drift,
        unrelated_opaque_drift,
        wrong_sibling_shift,
        wrong_depth,
        wrong_parent,
        reordered,
        foreign_identity,
        unrelated_restriction_drift,
        unrelated_presentation_drift,
    ] {
        assert!(!verify_delete_transition(&before, &invalid, &subtree));
    }
    assert!(!verify_delete_transition(
        &inconsistent_prior_count,
        &after,
        &subtree,
    ));
    let duplicate_subtree = vec![
        "gone".to_owned(),
        "gone".to_owned(),
    ];
    assert!(!verify_delete_transition(
        &before,
        &after,
        &duplicate_subtree,
    ));

    let typed_before = projected(vec![
        summary("root", None, 0, 0, 1, projected_text("root")),
        summary("heading", Some("root"), 0, 1, 2, projected_text("heading")),
        summary("keep", Some("heading"), 0, 2, 0, projected_text("keep")),
        summary("gone", Some("heading"), 1, 2, 0, projected_text("gone")),
    ]);
    let typed_after = projected(vec![
        summary("root", None, 0, 0, 1, projected_text("root")),
        summary("heading", Some("root"), 0, 1, 1, projected_text("heading")),
        summary("keep", Some("heading"), 0, 2, 0, projected_text("keep")),
    ]);
    let typed_subtree = vec!["gone".to_owned()];
    assert!(verify_delete_transition(
        &typed_before,
        &typed_after,
        &typed_subtree,
    ));
    let mut typed_parent_drift = typed_after.clone();
    typed_parent_drift.items[1].content = projected_text("changed heading");
    assert!(!verify_delete_transition(
        &typed_before,
        &typed_parent_drift,
        &typed_subtree,
    ));
}

#[test]
fn body_move_same_object() {
    let before = projected(vec![
        summary("root", None, 0, 0, 3, projected_text("root")),
        summary("moved", Some("root"), 0, 1, 1, projected_text("moved")),
        summary("child", Some("moved"), 0, 2, 0, projected_text("child")),
        summary("target", Some("root"), 1, 1, 0, projected_text("target")),
        summary(
            "reference",
            Some("root"),
            2,
            1,
            0,
            projected_link("external-object", Vec::new()),
        ),
    ]);
    let subtree = vec![
        "moved".to_owned(),
        "child".to_owned(),
    ];
    let moved = EntityId::new("moved").expect("moved");
    let child = EntityId::new("child").expect("child");
    let target = EntityId::new("target").expect("target");
    let root = EntityId::new("root").expect("root");
    let mut structural = before.clone();
    structural.items[1].content = BlockProjection::Table;
    for invalid in [
        validate_projected_move_plan(&before, &moved, &moved, &subtree),
        validate_projected_move_plan(&before, &moved, &child, &subtree),
        validate_projected_move_plan(&before, &root, &target, &subtree),
        validate_projected_move_plan(&structural, &moved, &target, &subtree),
    ] {
        assert!(invalid.is_err());
    }
    validate_projected_move_plan(&before, &moved, &target, &subtree)
        .expect("same-object move plan");
    let after = projected(vec![
        summary("root", None, 0, 0, 3, projected_text("root")),
        summary("target", Some("root"), 0, 1, 0, projected_text("target")),
        summary("moved", Some("root"), 1, 1, 1, projected_text("moved")),
        summary("child", Some("moved"), 0, 2, 0, projected_text("child")),
        summary(
            "reference",
            Some("root"),
            2,
            1,
            0,
            projected_link("external-object", Vec::new()),
        ),
    ]);
    assert!(verify_move_transition(
        &before,
        &after,
        &subtree,
        &target,
        WireInsertPosition::After
    ));
    let mut unrelated_reorder = after.clone();
    for block in &mut unrelated_reorder.items {
        block.sibling_index = match block.id.as_str() {
            "reference" => 0,
            "target" => 1,
            "moved" => 2,
            _ => block.sibling_index,
        };
    }
    assert!(!verify_move_transition(
        &before,
        &unrelated_reorder,
        &subtree,
        &target,
        WireInsertPosition::After,
    ));
}

#[test]
fn move_transition_accepts_only_affected_opaque_parent_summaries() {
    let before = projected(vec![
        summary(
            "root",
            None,
            0,
            0,
            3,
            projected_opaque("smartblock", 3, 180),
        ),
        summary("created", Some("root"), 0, 1, 0, projected_text("created")),
        summary("heading", Some("root"), 1, 1, 1, projected_text("heading")),
        summary("moved", Some("heading"), 0, 2, 0, projected_text("moved")),
        summary(
            "opaque",
            Some("root"),
            2,
            1,
            0,
            projected_opaque("dataview", 0, 9),
        ),
    ]);
    let after = projected(vec![
        summary(
            "root",
            None,
            0,
            0,
            4,
            projected_opaque("smartblock", 4, 244),
        ),
        summary("created", Some("root"), 0, 1, 0, projected_text("created")),
        summary("moved", Some("root"), 1, 1, 0, projected_text("moved")),
        summary("heading", Some("root"), 2, 1, 0, projected_text("heading")),
        summary(
            "opaque",
            Some("root"),
            3,
            1,
            0,
            projected_opaque("dataview", 0, 9),
        ),
    ]);
    let subtree = vec!["moved".to_owned()];
    let target = EntityId::new("created").expect("target");
    assert!(verify_move_transition(
        &before,
        &after,
        &subtree,
        &target,
        WireInsertPosition::After,
    ));

    let mut volatile_root_size = after.clone();
    volatile_root_size.items[0].content = projected_opaque("smartblock", 4, 1);
    assert!(verify_move_transition(
        &before,
        &volatile_root_size,
        &subtree,
        &target,
        WireInsertPosition::After,
    ));

    let mut wrong_root_kind = after.clone();
    wrong_root_kind.items[0].content = projected_opaque("dataview", 4, 244);
    let mut wrong_root_count = after.clone();
    wrong_root_count.items[0].content = projected_opaque("smartblock", 3, 244);
    let mut inconsistent_prior_opaque_count = before.clone();
    inconsistent_prior_opaque_count.items[0].content = projected_opaque("smartblock", 2, 180);
    let mut unsupported_to_typed = after.clone();
    unsupported_to_typed.items[0].content = projected_text("root");
    let mut old_parent_outer_count = after.clone();
    old_parent_outer_count.items[3].child_count = 1;
    let mut new_parent_outer_count = after.clone();
    new_parent_outer_count.items[0].child_count = 3;
    new_parent_outer_count.items[0].content = projected_opaque("smartblock", 3, 244);
    let mut moved_parent = after.clone();
    moved_parent.items[2].parent_id = Some(EntityId::new("heading").expect("heading"));
    let mut moved_sibling = after.clone();
    moved_sibling.items[2].sibling_index = 2;
    let mut moved_depth = after.clone();
    moved_depth.items[2].depth = 2;
    let mut unrelated_opaque_drift = after.clone();
    unrelated_opaque_drift.items[4].content = projected_opaque("dataview", 0, 10);
    let mut unrelated_restriction_drift = after.clone();
    unrelated_restriction_drift.items[1].restrictions.edit = true;
    let mut old_parent_content_drift = after.clone();
    old_parent_content_drift.items[3].content = projected_text("changed heading");
    let mut new_parent_presentation_drift = after.clone();
    new_parent_presentation_drift.items[0].vertical_align = WireVerticalAlign::Middle;
    let mut moved_content_drift = after.clone();
    moved_content_drift.items[2].content = projected_text("changed moved block");
    let mut reordered_vector = after.clone();
    reordered_vector.items.swap(2, 3);
    let mut foreign_identity = after.clone();
    foreign_identity.items[4].id = EntityId::new("foreign").expect("foreign");
    for invalid in [
        wrong_root_kind,
        wrong_root_count,
        unsupported_to_typed,
        old_parent_outer_count,
        new_parent_outer_count,
        moved_parent,
        moved_sibling,
        moved_depth,
        unrelated_opaque_drift,
        unrelated_restriction_drift,
        old_parent_content_drift,
        new_parent_presentation_drift,
        moved_content_drift,
        reordered_vector,
        foreign_identity,
    ] {
        assert!(!verify_move_transition(
            &before,
            &invalid,
            &subtree,
            &target,
            WireInsertPosition::After,
        ));
    }
    assert!(!verify_move_transition(
        &inconsistent_prior_opaque_count,
        &after,
        &subtree,
        &target,
        WireInsertPosition::After,
    ));

    let same_parent_before = projected(vec![
        summary(
            "root",
            None,
            0,
            0,
            3,
            projected_opaque("smartblock", 3, 180),
        ),
        summary("moved", Some("root"), 0, 1, 0, projected_text("moved")),
        summary("target", Some("root"), 1, 1, 0, projected_text("target")),
        summary("tail", Some("root"), 2, 1, 0, projected_text("tail")),
    ]);
    let same_parent_after = projected(vec![
        summary("root", None, 0, 0, 3, projected_opaque("smartblock", 3, 7)),
        summary("target", Some("root"), 0, 1, 0, projected_text("target")),
        summary("moved", Some("root"), 1, 1, 0, projected_text("moved")),
        summary("tail", Some("root"), 2, 1, 0, projected_text("tail")),
    ]);
    let same_parent_target = EntityId::new("target").expect("target");
    assert!(verify_move_transition(
        &same_parent_before,
        &same_parent_after,
        &subtree,
        &same_parent_target,
        WireInsertPosition::After,
    ));

    let old_opaque_before = projected(vec![
        summary(
            "root",
            None,
            0,
            0,
            3,
            projected_opaque("smartblock", 3, 180),
        ),
        summary("heading", Some("root"), 0, 1, 0, projected_text("heading")),
        summary("moved", Some("root"), 1, 1, 0, projected_text("moved")),
        summary(
            "opaque",
            Some("root"),
            2,
            1,
            0,
            projected_opaque("dataview", 0, 9),
        ),
    ]);
    let old_opaque_after = projected(vec![
        summary(
            "root",
            None,
            0,
            0,
            2,
            projected_opaque("smartblock", 2, 116),
        ),
        summary("heading", Some("root"), 0, 1, 1, projected_text("heading")),
        summary("moved", Some("heading"), 0, 2, 0, projected_text("moved")),
        summary(
            "opaque",
            Some("root"),
            1,
            1,
            0,
            projected_opaque("dataview", 0, 9),
        ),
    ]);
    let heading = EntityId::new("heading").expect("heading");
    assert!(verify_move_transition(
        &old_opaque_before,
        &old_opaque_after,
        &subtree,
        &heading,
        WireInsertPosition::LastChild,
    ));
}

#[test]
fn create_transition_enforces_every_exact_insertion_position() {
    let before = projected(vec![
        summary("root", None, 0, 0, 2, projected_text("root")),
        summary("parent", Some("root"), 0, 1, 2, projected_text("parent")),
        summary("first", Some("parent"), 0, 2, 1, projected_text("first")),
        summary("nested", Some("first"), 0, 3, 0, projected_text("nested")),
        summary("second", Some("parent"), 1, 2, 0, projected_text("second")),
        summary("tail", Some("root"), 1, 1, 0, projected_text("tail")),
    ]);
    let input = text_block("created");
    let cases = [
        ("second", WireInsertPosition::Before, "parent", 1, 4, 2),
        ("first", WireInsertPosition::After, "parent", 1, 4, 2),
        ("parent", WireInsertPosition::FirstChild, "parent", 0, 2, 2),
        ("parent", WireInsertPosition::LastChild, "parent", 2, 5, 2),
    ];
    for (
        target,
        position,
        expected_parent,
        expected_index,
        expected_dfs_index,
        expected_depth,
    ) in cases
    {
        let target_id = EntityId::new(target).expect("target");
        let created_id = EntityId::new("created").expect("created");
        let after = projected_text_insertion(
            &before,
            expected_parent,
            expected_index,
            expected_dfs_index,
            expected_depth,
            "created",
        );
        let created = after
            .items
            .iter()
            .find(|block| block.id == created_id)
            .expect("created block");
        assert_eq!(
            created.parent_id.as_ref().map(EntityId::as_str),
            Some(expected_parent)
        );
        assert_eq!(created.sibling_index, expected_index);
        assert_eq!(created.depth, expected_depth);
        assert!(verify_create_transition(
            &before,
            &after,
            &created_id,
            &target_id,
            position,
            &input,
        ));

        let mut refreshed_parent = after.clone();
        refreshed_parent
            .items
            .iter_mut()
            .find(|block| block.id.as_str() == expected_parent)
            .expect("insertion parent")
            .restrictions
            .drop_on = true;
        assert!(verify_create_transition(
            &before,
            &refreshed_parent,
            &created_id,
            &target_id,
            position,
            &input,
        ));
    }

    let root_id = EntityId::new("root").expect("root");
    let root_before = projected(vec![
        summary("root", None, 0, 0, 1, projected_text("root")),
        summary("anchor", Some("root"), 0, 1, 0, projected_text("anchor")),
    ]);
    for (position, expected_index) in [
        (WireInsertPosition::FirstChild, 0),
        (WireInsertPosition::LastChild, 1),
    ] {
        let created_id = EntityId::new("created").expect("created");
        let expected_dfs_index = if position == WireInsertPosition::FirstChild {
            1
        } else {
            2
        };
        let mut after = projected_text_insertion(
            &root_before,
            "root",
            expected_index,
            expected_dfs_index,
            1,
            "created",
        );
        assert_eq!(
            after
                .items
                .iter()
                .find(|block| block.id == created_id)
                .expect("created")
                .sibling_index,
            expected_index
        );
        after
            .items
            .iter_mut()
            .find(|block| block.id == root_id)
            .expect("root")
            .restrictions
            .edit = true;
        assert!(verify_create_transition(
            &root_before,
            &after,
            &created_id,
            &root_id,
            position,
            &input,
        ));
    }
}

#[test]
fn create_transition_accepts_only_the_parent_opaque_summary_refresh() {
    let opaque = |kind: &str, child_count, approx_bytes| BlockProjection::Unsupported {
        opaque_kind: OpaqueKind::new(kind.to_owned()).expect("opaque kind"),
        child_count,
        approx_bytes,
    };
    let before = projected(vec![
        summary("root", None, 0, 0, 2, opaque("smartblock", 2, 128)),
        summary("anchor", Some("root"), 0, 1, 0, projected_text("anchor")),
        summary("opaque", Some("root"), 1, 1, 0, opaque("dataview", 0, 9)),
    ]);
    let input = text_block("created");
    let root_id = EntityId::new("root").expect("root");
    let created_id = EntityId::new("created").expect("created");
    let valid = projected(vec![
        summary("root", None, 0, 0, 3, opaque("smartblock", 3, 196)),
        summary("anchor", Some("root"), 0, 1, 0, projected_text("anchor")),
        summary("opaque", Some("root"), 1, 1, 0, opaque("dataview", 0, 9)),
        summary("created", Some("root"), 2, 1, 0, projected_text("created")),
    ]);
    assert!(verify_create_transition(
        &before,
        &valid,
        &created_id,
        &root_id,
        WireInsertPosition::LastChild,
        &input,
    ));

    let mut volatile_opaque_size = valid.clone();
    volatile_opaque_size.items[0].content = opaque("smartblock", 3, 1);
    assert!(verify_create_transition(
        &before,
        &volatile_opaque_size,
        &created_id,
        &root_id,
        WireInsertPosition::LastChild,
        &input,
    ));

    let mut wrong_kind = valid.clone();
    wrong_kind.items[0].content = opaque("dataview", 3, 196);
    let mut wrong_nested_count = valid.clone();
    wrong_nested_count.items[0].content = opaque("smartblock", 2, 196);
    let mut unrelated_opaque_drift = valid.clone();
    unrelated_opaque_drift.items[2].content = opaque("dataview", 0, 10);
    let mut typed_replacement = valid.clone();
    typed_replacement.items[0].content = projected_text("root");
    let mut parent_presentation_drift = valid.clone();
    parent_presentation_drift.items[0].align = WireHorizontalAlign::Center;
    let mut reordered = valid.clone();
    reordered.items.swap(2, 3);
    let mut foreign = valid.clone();
    foreign.items[0].child_count = 4;
    foreign.items[0].content = opaque("smartblock", 4, 240);
    foreign.items.push(summary(
        "foreign",
        Some("root"),
        3,
        1,
        0,
        projected_text("foreign"),
    ));
    for invalid in [
        wrong_kind,
        wrong_nested_count,
        unrelated_opaque_drift,
        typed_replacement,
        parent_presentation_drift,
        reordered,
        foreign,
    ] {
        assert!(!verify_create_transition(
            &before,
            &invalid,
            &created_id,
            &root_id,
            WireInsertPosition::LastChild,
            &input,
        ));
    }
}

#[test]
fn create_transition_rejects_collateral_structural_and_value_drift() {
    let before = projected(vec![
        summary("root", None, 0, 0, 2, projected_text("root")),
        summary("parent", Some("root"), 0, 1, 2, projected_text("parent")),
        summary("first", Some("parent"), 0, 2, 1, projected_text("first")),
        summary("nested", Some("first"), 0, 3, 0, projected_text("nested")),
        summary("second", Some("parent"), 1, 2, 0, projected_text("second")),
        summary("tail", Some("root"), 1, 1, 0, projected_text("tail")),
    ]);
    let target_id = EntityId::new("first").expect("target");
    let created_id = EntityId::new("created").expect("created");
    let input = text_block("created");
    let valid = projected_text_insertion(&before, "parent", 1, 4, 2, "created");
    assert!(verify_create_transition(
        &before,
        &valid,
        &created_id,
        &target_id,
        WireInsertPosition::After,
        &input,
    ));

    let mut unrelated_restriction = valid.clone();
    unrelated_restriction
        .items
        .iter_mut()
        .find(|block| block.id.as_str() == "tail")
        .expect("tail")
        .restrictions
        .edit = true;
    let mut identity_drift = valid.clone();
    identity_drift
        .items
        .iter_mut()
        .find(|block| block.id.as_str() == "tail")
        .expect("tail")
        .id = EntityId::new("foreign-tail").expect("foreign identity");
    let mut content_drift = valid.clone();
    content_drift
        .items
        .iter_mut()
        .find(|block| block.id.as_str() == "tail")
        .expect("tail")
        .content = projected_text("changed");
    let mut insertion_parent_content_drift = valid.clone();
    insertion_parent_content_drift
        .items
        .iter_mut()
        .find(|block| block.id.as_str() == "parent")
        .expect("insertion parent")
        .content = projected_text("changed parent");
    let mut alignment_drift = valid.clone();
    alignment_drift
        .items
        .iter_mut()
        .find(|block| block.id.as_str() == "tail")
        .expect("tail")
        .align = WireHorizontalAlign::Center;
    let mut vertical_alignment_drift = valid.clone();
    vertical_alignment_drift
        .items
        .iter_mut()
        .find(|block| block.id.as_str() == "tail")
        .expect("tail")
        .vertical_align = WireVerticalAlign::Bottom;
    let mut background_drift = valid.clone();
    background_drift
        .items
        .iter_mut()
        .find(|block| block.id.as_str() == "tail")
        .expect("tail")
        .background_color = Some(ColorInput::new("red".to_owned()).expect("background color"));
    let mut parent_drift = valid.clone();
    parent_drift
        .items
        .iter_mut()
        .find(|block| block.id.as_str() == "tail")
        .expect("tail")
        .parent_id = Some(EntityId::new("parent").expect("parent"));
    let mut depth_drift = valid.clone();
    depth_drift
        .items
        .iter_mut()
        .find(|block| block.id.as_str() == "tail")
        .expect("tail")
        .depth = 2;
    let mut sibling_drift = valid.clone();
    sibling_drift
        .items
        .iter_mut()
        .find(|block| block.id.as_str() == "second")
        .expect("second")
        .sibling_index = 1;
    let mut child_count_drift = valid.clone();
    child_count_drift
        .items
        .iter_mut()
        .find(|block| block.id.as_str() == "parent")
        .expect("parent")
        .child_count = 4;
    let mut created_content_drift = valid.clone();
    created_content_drift
        .items
        .iter_mut()
        .find(|block| block.id == created_id)
        .expect("created")
        .content = projected_text("wrong");
    let mut created_parent_drift = valid.clone();
    created_parent_drift
        .items
        .iter_mut()
        .find(|block| block.id == created_id)
        .expect("created")
        .parent_id = Some(EntityId::new("root").expect("root"));
    let mut created_index_drift = valid.clone();
    created_index_drift
        .items
        .iter_mut()
        .find(|block| block.id == created_id)
        .expect("created")
        .sibling_index = 0;
    let mut created_depth_drift = valid.clone();
    created_depth_drift
        .items
        .iter_mut()
        .find(|block| block.id == created_id)
        .expect("created")
        .depth = 1;
    let mut created_child_count_drift = valid.clone();
    created_child_count_drift
        .items
        .iter_mut()
        .find(|block| block.id == created_id)
        .expect("created")
        .child_count = 1;
    let mut created_alignment_drift = valid.clone();
    created_alignment_drift
        .items
        .iter_mut()
        .find(|block| block.id == created_id)
        .expect("created")
        .align = WireHorizontalAlign::Right;
    let mut created_vertical_drift = valid.clone();
    created_vertical_drift
        .items
        .iter_mut()
        .find(|block| block.id == created_id)
        .expect("created")
        .vertical_align = WireVerticalAlign::Middle;
    let mut created_background_drift = valid.clone();
    created_background_drift
        .items
        .iter_mut()
        .find(|block| block.id == created_id)
        .expect("created")
        .background_color = Some(ColorInput::new("blue".to_owned()).expect("background color"));
    let mut space_scope_drift = valid.clone();
    space_scope_drift.space_id = EntityId::new("other-space").expect("space");
    let mut object_scope_drift = valid.clone();
    object_scope_drift.object_id = EntityId::new("other-object").expect("object");
    let mut root_scope_drift = valid.clone();
    root_scope_drift.root_id = EntityId::new("other-root").expect("root");
    let mut reordered = valid.clone();
    let created_position = reordered
        .items
        .iter()
        .position(|block| block.id == created_id)
        .expect("created position");
    let second_position = reordered
        .items
        .iter()
        .position(|block| block.id.as_str() == "second")
        .expect("second position");
    reordered.items.swap(created_position, second_position);
    let mut foreign_insertion = valid.clone();
    foreign_insertion
        .items
        .iter_mut()
        .find(|block| block.id.as_str() == "root")
        .expect("root")
        .child_count = 3;
    foreign_insertion.items.push(summary(
        "foreign",
        Some("root"),
        2,
        1,
        0,
        projected_text("foreign"),
    ));

    for invalid in [
        unrelated_restriction,
        identity_drift,
        content_drift,
        insertion_parent_content_drift,
        alignment_drift,
        vertical_alignment_drift,
        background_drift,
        parent_drift,
        depth_drift,
        sibling_drift,
        child_count_drift,
        created_content_drift,
        created_parent_drift,
        created_index_drift,
        created_depth_drift,
        created_child_count_drift,
        created_alignment_drift,
        created_vertical_drift,
        created_background_drift,
        space_scope_drift,
        object_scope_drift,
        root_scope_drift,
        reordered,
        foreign_insertion,
    ] {
        assert!(!verify_create_transition(
            &before,
            &invalid,
            &created_id,
            &target_id,
            WireInsertPosition::After,
            &input,
        ));
    }
}

#[test]
fn create_transition_accepts_only_canonical_materialized_table_subtree() {
    let before = projected(vec![
        summary("root", None, 0, 0, 1, projected_text("root")),
        summary("anchor", Some("root"), 0, 1, 0, projected_text("anchor")),
    ]);
    let input = NewBlockInput::Table { rows: 2, columns: 2, header_row: true };
    let created_id = EntityId::new("table").expect("table");
    let root_id = EntityId::new("root").expect("root");
    let valid = projected(vec![
        summary("root", None, 0, 0, 2, projected_text("root")),
        summary("anchor", Some("root"), 0, 1, 0, projected_text("anchor")),
        summary("table", Some("root"), 1, 1, 2, BlockProjection::Table),
        summary(
            "columns",
            Some("table"),
            0,
            2,
            2,
            BlockProjection::Layout {
                style: WireLayoutStyle::TableColumns,
            },
        ),
        summary(
            "column-1",
            Some("columns"),
            0,
            3,
            0,
            BlockProjection::TableColumn,
        ),
        summary(
            "column-2",
            Some("columns"),
            1,
            3,
            0,
            BlockProjection::TableColumn,
        ),
        summary(
            "rows",
            Some("table"),
            1,
            2,
            2,
            BlockProjection::Layout {
                style: WireLayoutStyle::TableRows,
            },
        ),
        summary(
            "row-1",
            Some("rows"),
            0,
            3,
            2,
            BlockProjection::TableRow { is_header: true },
        ),
        summary("cell-1-1", Some("row-1"), 0, 4, 0, projected_text("")),
        summary("cell-1-2", Some("row-1"), 1, 4, 0, projected_text("")),
        summary(
            "row-2",
            Some("rows"),
            1,
            3,
            2,
            BlockProjection::TableRow { is_header: false },
        ),
        summary("cell-2-1", Some("row-2"), 0, 4, 0, projected_text("")),
        summary("cell-2-2", Some("row-2"), 1, 4, 0, projected_text("")),
    ]);
    assert!(verify_create_transition(
        &before,
        &valid,
        &created_id,
        &root_id,
        WireInsertPosition::LastChild,
        &input,
    ));

    let mut wrong_header = valid.clone();
    wrong_header
        .items
        .iter_mut()
        .find(|block| block.id.as_str() == "row-1")
        .expect("first row")
        .content = BlockProjection::TableRow { is_header: false };
    let mut missing_cell = valid.clone();
    missing_cell
        .items
        .retain(|block| block.id.as_str() != "cell-2-2");
    missing_cell
        .items
        .iter_mut()
        .find(|block| block.id.as_str() == "row-2")
        .expect("second row")
        .child_count = 1;
    let mut misplaced_region = valid.clone();
    misplaced_region
        .items
        .iter_mut()
        .find(|block| block.id.as_str() == "rows")
        .expect("rows region")
        .parent_id = Some(root_id.clone());
    let mut nonempty_cell = valid.clone();
    nonempty_cell
        .items
        .iter_mut()
        .find(|block| block.id.as_str() == "cell-1-1")
        .expect("cell")
        .content = projected_text("unexpected");
    let mut divider_cell = valid.clone();
    divider_cell
        .items
        .iter_mut()
        .find(|block| block.id.as_str() == "cell-1-1")
        .expect("cell")
        .content = BlockProjection::Divider {
        style: WireDividerStyle::Line,
    };
    let mut relation_cell = valid.clone();
    relation_cell
        .items
        .iter_mut()
        .find(|block| block.id.as_str() == "cell-1-1")
        .expect("cell")
        .content = BlockProjection::Relation {
        key: RelationKey::new("tag".to_owned()).expect("relation key"),
    };
    let mut column_cell = valid.clone();
    column_cell
        .items
        .iter_mut()
        .find(|block| block.id.as_str() == "cell-1-1")
        .expect("cell")
        .content = BlockProjection::TableColumn;
    let mut row_cell = valid.clone();
    row_cell
        .items
        .iter_mut()
        .find(|block| block.id.as_str() == "cell-1-1")
        .expect("cell")
        .content = BlockProjection::TableRow { is_header: false };
    let mut layout_cell = valid.clone();
    layout_cell
        .items
        .iter_mut()
        .find(|block| block.id.as_str() == "cell-1-1")
        .expect("cell")
        .content = BlockProjection::Layout {
        style: WireLayoutStyle::TableColumns,
    };
    let mut reordered = valid.clone();
    let first_column = reordered
        .items
        .iter()
        .position(|block| block.id.as_str() == "column-1")
        .expect("first column");
    let second_column = reordered
        .items
        .iter()
        .position(|block| block.id.as_str() == "column-2")
        .expect("second column");
    reordered.items.swap(first_column, second_column);
    for invalid in [
        wrong_header,
        missing_cell,
        misplaced_region,
        nonempty_cell,
        divider_cell,
        relation_cell,
        column_cell,
        row_cell,
        layout_cell,
        reordered,
    ] {
        assert!(!verify_create_transition(
            &before,
            &invalid,
            &created_id,
            &root_id,
            WireInsertPosition::LastChild,
            &input,
        ));
    }
}

#[test]
fn body_relation_workflows() {
    let relation_set = (0..MAX_RELATIONS)
        .map(|index| RelationKey::new(format!("r{index}")).expect("relation"))
        .collect::<Vec<_>>();
    let target_id = EntityId::new("link").expect("link");
    let mut current = projected(vec![
        summary("root", None, 0, 0, 2, projected_text("root")),
        summary(
            "link",
            Some("root"),
            0,
            1,
            0,
            projected_link("external-object", Vec::new()),
        ),
        summary("anchor", Some("root"), 1, 1, 0, projected_text("anchor")),
    ]);
    for relations in [relation_set.clone(), Vec::new(), relation_set.clone()] {
        let change = BlockChangeInput::SetLinkAppearance {
            card_style: WireLinkCardStyle::Card,
            icon_size: WireLinkIconSize::Small,
            description: WireLinkDescription::Content,
            relations,
        };
        let before = current.clone();
        apply_projected_change(&mut current.items[1], &change).expect("link update");
        refresh_projection_hash(&mut current);
        assert!(verify_update_transition(
            &before, &current, &target_id, &change
        ));
        assert!(
            matches!(current.items[1].content, BlockProjection::Link { ref target_object_id, .. } if target_object_id.as_str() == "external-object")
        );
    }
    assert!(
        matches!(current.items[1].content, BlockProjection::Link { ref relations, .. } if relations.len() == MAX_RELATIONS)
    );
    let subtree = vec!["link".to_owned()];
    let anchor = EntityId::new("anchor").expect("anchor");
    validate_projected_move_plan(&current, &target_id, &anchor, &subtree).expect("link move");
    let moved_link = current.items[1].content.clone();
    let moved = projected(vec![
        summary("root", None, 0, 0, 2, projected_text("root")),
        summary("anchor", Some("root"), 0, 1, 0, projected_text("anchor")),
        summary("link", Some("root"), 1, 1, 0, moved_link),
    ]);
    assert!(verify_move_transition(
        &current,
        &moved,
        &subtree,
        &anchor,
        WireInsertPosition::After
    ));
    let relation_id = EntityId::new("relation").expect("relation ID");
    let relation_subtree = vec!["relation".to_owned()];
    let relation_before = projected(vec![
        summary("root", None, 0, 0, 2, projected_text("root")),
        summary(
            "relation",
            Some("root"),
            0,
            1,
            0,
            BlockProjection::Relation {
                key: RelationKey::new("tag".to_owned()).expect("relation key"),
            },
        ),
        summary("anchor", Some("root"), 1, 1, 0, projected_text("anchor")),
    ]);
    let without_relation = projected(vec![
        summary("root", None, 0, 0, 1, projected_text("root")),
        summary("anchor", Some("root"), 0, 1, 0, projected_text("anchor")),
    ]);
    validate_projected_delete_plan(&relation_before, &relation_subtree, 1)
        .expect("relation removal plan");
    assert!(verify_delete_transition(
        &relation_before,
        &without_relation,
        &relation_subtree
    ));
    let relation_input = NewBlockInput::Relation {
        key: RelationKey::new("tag".to_owned()).expect("relation key"),
        presentation: plain(),
    };
    let recreated = projected(vec![
        summary("root", None, 0, 0, 2, projected_text("root")),
        summary("anchor", Some("root"), 0, 1, 0, projected_text("anchor")),
        summary(
            "relation",
            Some("root"),
            1,
            1,
            0,
            BlockProjection::Relation {
                key: RelationKey::new("tag".to_owned()).expect("relation key"),
            },
        ),
    ]);
    validate_projected_create_plan(
        &without_relation,
        &without_relation.root_id,
        WireInsertPosition::LastChild,
    )
    .expect("relation recreation plan");
    assert!(verify_create_transition(
        &without_relation,
        &recreated,
        &relation_id,
        &without_relation.root_id,
        WireInsertPosition::LastChild,
        &relation_input,
    ));
    validate_projected_move_plan(&recreated, &relation_id, &anchor, &relation_subtree)
        .expect("relation move plan");
    let relation_moved = projected(vec![
        summary("root", None, 0, 0, 2, projected_text("root")),
        summary(
            "relation",
            Some("root"),
            0,
            1,
            0,
            BlockProjection::Relation {
                key: RelationKey::new("tag".to_owned()).expect("relation key"),
            },
        ),
        summary("anchor", Some("root"), 1, 1, 0, projected_text("anchor")),
    ]);
    assert!(verify_move_transition(
        &recreated,
        &relation_moved,
        &relation_subtree,
        &anchor,
        WireInsertPosition::Before,
    ));
}

#[test]
fn body_targeted_heading_append() {
    let heading_id = EntityId::new("heading").expect("heading");
    let before = projected(vec![
        summary("root", None, 0, 0, 1, projected_text("root")),
        summary(
            "heading",
            Some("root"),
            0,
            1,
            0,
            BlockProjection::Text {
                text: "Heading".to_owned(),
                style: WireTextStyle::Heading1,
                checked: false,
                color: None,
                icon: None,
                marks: Vec::new(),
            },
        ),
    ]);
    validate_projected_create_plan(&before, &heading_id, WireInsertPosition::LastChild)
        .expect("heading accepts child append");
    let block = text_block("Body");
    let child_id = EntityId::new("child").expect("child");
    let after = projected(vec![
        summary("root", None, 0, 0, 1, projected_text("root")),
        summary(
            "heading",
            Some("root"),
            0,
            1,
            1,
            BlockProjection::Text {
                text: "Heading".to_owned(),
                style: WireTextStyle::Heading1,
                checked: false,
                color: None,
                icon: None,
                marks: Vec::new(),
            },
        ),
        summary("child", Some("heading"), 0, 2, 0, projected_text("Body")),
    ]);
    assert!(verify_create_transition(
        &before,
        &after,
        &child_id,
        &heading_id,
        WireInsertPosition::LastChild,
        &block
    ));
    let mut refreshed_heading = after.clone();
    refreshed_heading
        .items
        .iter_mut()
        .find(|candidate| candidate.id == heading_id)
        .expect("heading")
        .restrictions
        .drop_on = true;
    assert!(verify_create_transition(
        &before,
        &refreshed_heading,
        &child_id,
        &heading_id,
        WireInsertPosition::LastChild,
        &block
    ));
    let mut restricted = before.clone();
    restricted.items[1].restrictions.drop_on = true;
    assert!(
        validate_projected_create_plan(&restricted, &heading_id, WireInsertPosition::LastChild)
            .is_err()
    );
}

#[test]
fn moved_block_lands_at_every_position() {
    let before = projected(vec![
        summary("root", None, 0, 0, 2, projected_text("root")),
        summary("a", Some("root"), 0, 1, 1, projected_text("a")),
        summary("b", Some("a"), 0, 2, 0, projected_text("b")),
        summary("c", Some("root"), 1, 1, 0, projected_text("c")),
    ]);
    let subtree = vec!["c".to_owned()];
    let under_a = |first: &str, second: &str| {
        projected(vec![
            summary("root", None, 0, 0, 1, projected_text("root")),
            summary("a", Some("root"), 0, 1, 2, projected_text("a")),
            summary(first, Some("a"), 0, 2, 0, projected_text(first)),
            summary(second, Some("a"), 1, 2, 0, projected_text(second)),
        ])
    };
    let a = EntityId::new("a").expect("a");
    let b = EntityId::new("b").expect("b");
    for (target, position, after) in [
        (&a, WireInsertPosition::FirstChild, under_a("c", "b")),
        (&a, WireInsertPosition::LastChild, under_a("b", "c")),
        (&b, WireInsertPosition::Before, under_a("c", "b")),
        (&b, WireInsertPosition::After, under_a("b", "c")),
    ] {
        assert!(verify_move_transition(&before, &after, &subtree, target, position));
        for other in [
            WireInsertPosition::FirstChild,
            WireInsertPosition::LastChild,
            WireInsertPosition::Before,
            WireInsertPosition::After,
        ] {
            if other != position {
                assert!(!verify_move_transition(&before, &after, &subtree, target, other));
            }
        }
    }
}

#[test]
fn created_block_can_be_deleted_again() {
    let before = projected(vec![
        summary("root", None, 0, 0, 1, projected_text("root")),
        summary("anchor", Some("root"), 0, 1, 0, projected_text("anchor")),
    ]);
    let between = projected_text_insertion(&before, "root", 0, 1, 1, "created");
    assert!(verify_create_transition(
        &before,
        &between,
        &EntityId::new("created").expect("created"),
        &EntityId::new("root").expect("root"),
        WireInsertPosition::FirstChild,
        &text_block("created"),
    ));
    let subtree = vec!["created".to_owned()];
    assert!(verify_delete_transition(&between, &before, &subtree));
    assert_eq!(between.items.len(), before.items.len() + subtree.len());
    assert!(!verify_create_transition(
        &before,
        &between,
        &EntityId::new("anchor").expect("anchor"),
        &EntityId::new("root").expect("root"),
        WireInsertPosition::FirstChild,
        &text_block("created"),
    ));
}
