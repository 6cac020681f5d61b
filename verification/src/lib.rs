//! A library for a browser-resident manga reader: the archive codec that maps
//! single-file volume archives to and from a three-table keyed store, the
//! synchronized persistence reducer that keeps an in-memory working copy
//! consistent with its stored counterpart, the pagination model, and the OCR
//! text-box editing state machine.

pub mod archive;
pub mod codec;
pub mod drag;
pub mod errors;
pub mod json;
pub mod models;
pub mod notify;
pub mod page;
pub mod reader;
pub mod store;
pub mod sync;
pub mod textblock;
