//! The decision core of a tool server around Frama-C: how statuses are read,
//! how proof goals are classified and reported, how receipts are canonicalised,
//! and how requests, paths and options are validated.

pub mod advice;
pub mod alarms;
pub mod capability;
pub mod error;
pub mod goals;
pub mod json;
pub mod labels;
pub mod markers;
pub mod options;
pub mod order;
pub mod outside;
pub mod parselog;
pub mod paths;
pub mod proofread;
pub mod receipt;
pub mod reload;
pub mod requests;
pub mod sandbox;
pub mod selfcheck;
pub mod session;
pub mod stable;
pub mod status;
pub mod store;
pub mod suggest;
pub mod surface;
pub mod text;
pub mod triage;
pub mod types;
pub mod verdicts;
pub mod version;
pub mod wpclass;
pub mod wpcli;
pub mod wpconfig;
pub mod wpmodel;
pub mod wpout;
