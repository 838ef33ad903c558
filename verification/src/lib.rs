//! Verified core of the Shiori desktop assistant: text rules, keyword guards,
//! frontmatter and YAML list editing, path resolution and the decisions that
//! drive the conversation loop and the backend services.
use vstd::prelude::*;

pub mod text;
pub mod text_transform;
pub mod numbers;
pub mod guards;
pub mod tool_call;
pub mod paths;
pub mod config;
pub mod yaml_edit;
pub mod pending;
pub mod frontmatter;
pub mod filing;
pub mod services;
pub mod chat;
pub mod library;
pub mod recording;
pub mod daemon;
pub mod model_switch;
pub mod speech;
pub mod model_list;

verus! {

} // verus!
