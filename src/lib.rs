//! A multi-tenant function-serving runtime: per-host route tables, swappable
//! snapshots for hot reload, and the request dispatch decisions around them.

pub mod cli;
pub mod error;
pub mod host;
pub mod laws;
pub mod project;
pub mod queue;
pub mod request;
pub mod router;
pub mod swap;
pub mod tenant;
pub mod text;

pub use cli::{BuildOpts, InitOpts, Opts, RunOpts, SubCommand};
pub use error::AppError;
pub use host::normalize_host;
pub use project::{
    calc_hash_for_files, calc_project_hash, needs_swap, outside_build_dir, truncate_digest,
    FileChangedEvent, BUILD_DIR,
};
pub use queue::{Message, WorkQueue};
pub use request::{assemble_req, Req, Res};
pub use router::{AppRouter, Matched, RouteRule, Segment};
pub use swap::{Swappable, SwappableAppRouter};
pub use tenant::{AppState, TenentRouter};
