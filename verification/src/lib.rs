use vstd::prelude::*;

pub mod comparer;
pub mod explore;
pub mod explorer;
pub mod constant;
pub mod fic;
pub mod fold;
pub mod join;
pub mod logger;
pub mod mirror;
pub mod paramcli;
pub mod progression;
pub mod readconf;
pub mod scriptgen;
pub mod span;
pub mod text;
pub mod writer;

verus! {

} // verus!
