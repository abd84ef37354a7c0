//! Verified core of the one-for-all bridge.

pub mod actions;
pub mod ax_find;
pub mod ax_walk;
pub mod broker_client;
pub mod caps;
pub mod cdp;
pub mod cli;
pub mod client_laws;
pub mod clipboard;
pub mod controller;
pub mod digest;
pub mod dock;
pub mod error;
pub mod gesture;
pub mod json;
pub mod jsonrpc_code;
pub mod latency;
pub mod limit_laws;
pub mod log_dirs;
pub mod mcp;
pub mod menu;
pub mod metrics;
pub mod native_laws;
pub mod notification_center;
pub mod patterns;
pub mod permission;
pub mod policy_laws;
pub mod privacy;
pub mod quicklook;
pub mod record_laws;
pub mod redact;
pub mod report_laws;
pub mod schema;
pub mod script_laws;
pub mod scripting;
pub mod search_laws;
pub mod slots;
pub mod spaces;
pub mod spotlight;
pub mod statusmenu;
pub mod subscribe;
pub mod text;
pub mod text_map;
pub mod tool_names;
pub mod tools;
pub mod trace;
pub mod trace_file;
pub mod trace_laws;
pub mod trace_registry;
pub mod trace_run;
pub mod trace_wire;
pub mod types;
pub mod vision_frame;
pub mod window;
pub mod wire;
pub mod wire_laws;
