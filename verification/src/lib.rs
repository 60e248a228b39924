//! Core logic of a workspace-monitor daemon: a catalog of workspaces and
//! derived git worktrees, an RPC dispatcher over line-delimited JSON, a
//! client authentication step, per-session request correlation, and a
//! bounded lossy event bus.

pub mod args;
pub mod client;
pub mod files;
pub mod git;
pub mod json;
pub mod names;
pub mod params;
pub mod rpc;
pub mod session;
pub mod settings;
pub mod state;
pub mod sorting;
pub mod text;
pub mod wire;
pub mod workspace;

pub use workspace::WorkspaceKind;
