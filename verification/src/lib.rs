use vstd::prelude::*;

pub mod alert;
pub mod ansi;
pub mod clock;
pub mod config;
pub mod appcore;
pub mod credentials;
pub mod dialogs;
pub mod filter;
pub mod json;
pub mod models;
pub mod palette;
pub mod parser;
pub mod paths;
pub mod pattern;
pub mod session;
pub mod size;
pub mod source;
pub mod ssh;
pub mod strmap;
pub mod tail;
pub mod text;
pub mod view;

verus! {
} // verus!
