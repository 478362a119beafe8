//! Verified core of the `ripd` continuity server: provider configuration,
//! tool-call bookkeeping, task logs and task control, and the small parsers
//! that sit between them.

pub mod text;
pub mod provider;
pub mod json;
pub mod tool_choice;
pub mod task_logs;
pub mod paths;
pub mod kernel;
pub mod tasks;
pub mod assoc;
pub mod streaming;
pub mod text_order;
pub mod ids;
pub mod agent;
pub mod task_status;
pub mod session;
pub mod observability;
pub mod compat;
pub mod fixture;
pub mod provider_request;
pub mod provider_env;
pub mod event_stream;
pub mod registry;
pub mod route_errors;
pub mod authority_lock;
pub mod context_selection;
pub mod sse_bytes;
pub mod task_run;
