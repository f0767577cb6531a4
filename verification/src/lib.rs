//! Migration of the changes of a Perforce depot into Mercurial repositories.
//!
//! The library holds what is decided and computed on the way: which program is to run and
//! how ([`process`]), what the depot and the repository answer ([`perforce`], [`mercurial`]),
//! how a commit names the change it holds ([`marker`]), which changes make a batch
//! ([`batch`]), and how one cycle of one mapping goes from step to step ([`worker`]). It
//! starts no program and reads no file: its caller does what it asks for and hands back
//! what came of it.

pub mod batch;
pub mod config;
pub mod date;
pub mod lines;
pub mod marker;
pub mod mercurial;
pub mod perforce;
pub mod process;
pub mod text;
pub mod worker;
