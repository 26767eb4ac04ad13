//! Core of a live document-preview backend.
//!
//! On every edit the hosting process recompiles a markup document with an
//! external typesetting engine and pushes only the visual deltas to a
//! renderer.  This crate holds the verified core of that system:
//!
//! * the incremental block-diff engine that turns a freshly compiled
//!   document into a minimal patch against the previously sent state;
//! * the compiler-host state (live buffer, root directory, file cache,
//!   clock arithmetic) that the typesetting engine queries;
//! * the decision logic of the JSON-RPC client that talks to an external
//!   language-server process (lifecycle, request ids, response
//!   correlation, wire framing).
//!
//! Everything that performs I/O — spawning processes, reading files,
//! invoking the typesetting engine — lives outside this crate and hands
//! plain values in and out.

pub mod date;
pub mod decode;
pub mod diff;
pub mod digits;
pub mod frame;
pub mod hash;
pub mod host;
pub mod lines;
pub mod rpc;
