use vstd::prelude::*;

pub mod text;
pub mod word;
pub mod program;
pub mod dry_run;
pub mod grbl;
pub mod text_map;
pub mod controller;
pub mod safety;
pub mod run;
pub mod mock;
pub mod preferences;
pub mod lexer;
pub mod journal;
pub mod restart;
pub mod heightmap;
pub mod recovery;
pub mod modal;
pub mod readiness;
pub mod request;
pub mod script;
pub mod digest;
pub mod engine;
pub mod pcb;
pub mod gerber;
pub mod profile;

verus! {

} // verus!
