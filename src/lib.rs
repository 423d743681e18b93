//! A parser for a minimal line-oriented request protocol with two verbs,
//! `PUBLISH <payload>` and `RETRIEVE`, one request per `\n`-terminated line.
use vstd::prelude::*;

pub mod command;
pub mod text;

pub use command::{parse, Command, Error};

verus! {

} // verus!
