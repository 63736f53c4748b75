//! Verified core of an rclone front end: the rules that build rclone command
//! lines, read rclone's output, format sizes, and drive the browser state.
use vstd::prelude::*;

pub mod operations;
pub mod rclone_install;
pub mod text;
pub mod ui;

verus! {

} // verus!
