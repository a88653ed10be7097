use vstd::prelude::*;

pub mod context;
pub mod events;
pub mod ignore_rules;
pub mod index;
pub mod mcp;
pub mod path;
pub mod plugins;
pub mod search;
pub mod security;
pub mod text;
pub mod tunnel;
pub mod workspace;

verus! {
} // verus!
