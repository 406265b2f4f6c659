//! Read-only inspection of a git working copy: whether it is modified or
//! dirty, and a bounded window of its most recent commits.
//!
//! The library holds the rules and runs nothing itself. An inspection starts
//! from a snapshot, [`Info::new`], and adds to it with two queries,
//! [`Info::status_info`] and [`Info::commit_info`]. A [`Query`] names the git
//! command that it needs next ([`Query::pending`]); the caller runs it in the
//! directory under inspection and hands back the [`Outcome`]
//! ([`Query::advance`]), until the query is done and gives the new snapshot
//! ([`Query::finish`]).
//!
//! The contracts speak of mathematical models of the values: the view of each
//! type, and spec functions such as `history` for what a log gives. What git,
//! chrono and serde_json do is not proved; the few places where the library
//! relies on the latter two are named in `date_codec` and `commit`.

pub mod branch;
pub mod command;
pub mod commit;
pub mod date_codec;
pub mod info;
pub mod laws;
pub mod status;
pub mod text;

pub use command::{GitCommand, Outcome};
pub use commit::Commit;
pub use date_codec::Timestamp;
pub use info::{Info, Query, QueryError, Stage};
pub use status::{Status, Summary};
