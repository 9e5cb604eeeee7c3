//! Verified core of bounded Anytype body-block and chat-message workflows.

pub mod admission_laws;
pub mod attempt_laws;
pub mod attempts;
pub mod binding;
pub mod catalog;
pub mod change;
pub mod change_laws;
pub mod chat_add;
pub mod chat_add_laws;
pub mod chat_delete;
pub mod chat_delete_laws;
pub mod compose;
pub mod creation;
pub mod creation_laws;
pub mod domain;
pub mod encoding;
pub mod encoding_laws;
pub mod error;
pub mod fingerprint;
pub mod flows;
pub mod frame_laws;
pub mod frames;
pub mod hashing;
pub mod input;
pub mod json;
pub mod json_binding;
pub mod json_laws;
pub mod language_laws;
pub mod laws;
pub mod marks;
pub mod model;
pub mod outside;
pub mod page_laws;
pub mod output_laws;
pub mod paging;
pub mod plan;
pub mod projection;
pub mod projection_laws;
pub mod relocation;
pub mod relocation_laws;
pub mod report_laws;
pub mod request_binding;
pub mod rich;
pub mod rich_flow;
pub mod rich_flow_laws;
pub mod rich_laws;
pub mod rich_plan;
pub mod size_laws;
pub mod subtree_laws;
pub mod text;
pub mod transition;
pub mod tree;
pub mod tree_laws;
pub mod verification_laws;
pub mod wire;
