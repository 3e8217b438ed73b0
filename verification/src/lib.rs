//! System level helpers for a migration tool: file status, path handling on raw bytes, error
//! mapping for system calls, the copying of directory trees and the signalling of the processes
//! that keep a path open.
//!
//! The decisions are made here, on plain values, and are proved against their contracts. The
//! system calls themselves are made by the caller, who hands back what the system answered.

pub mod calls;
pub mod copy;
pub mod copy_done;
pub mod copy_laws;
pub mod copy_links;
pub mod copy_trace;
pub mod copy_tree;
pub mod error;
pub mod fuser;
pub mod fuser_done;
pub mod fuser_laws;
pub mod fuser_trace;
pub mod inodes;
pub mod listing;
pub mod number;
pub mod path;
pub mod stat;
pub mod text;
pub mod uname;
