//! Fleet classification, dynamic grouping and request planning for a console
//! that operates a replicated, optionally sharded PostgreSQL topology.
pub mod args;
pub mod consistency;
pub mod decimal;
pub mod facts;
pub mod formats;
pub mod groups;
pub mod inventory;
pub mod macros;
pub mod order;
pub mod overview;
pub mod render;
pub mod repl;
pub mod request;
pub mod server;
pub mod settings;
pub mod split;
pub mod text;
