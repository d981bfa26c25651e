//! Real-time collaborative editing of drafts: the wire protocol spoken by
//! each connected peer, the per-document session that serialises edits and
//! fans them out, the registry that keeps exactly one session per document,
//! and the plain records of the surrounding tracker.
pub mod api_model;
pub mod convert;
pub mod db_model;
pub mod doc;
pub mod frame;
pub mod link;
pub mod notification;
pub mod registry;
pub mod requests;
pub mod session;
pub mod task;
