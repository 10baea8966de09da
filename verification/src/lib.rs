//! A dotfile manager's decision core.
//!
//! Managed files live in a store directory with three subtrees: `link/`
//! (canonical copies), `backup/` (safety copies taken before an overwrite)
//! and `source/` (reserved). Adopting a file ("add") moves it into `link/`
//! and leaves a symlink behind; "sync" materializes stored entries back
//! into the home directory where nothing stands at their home-relative
//! path.
//!
//! Every decision — what is safe to adopt, what to back up, what to copy
//! where — is made here, over plain values: paths as component sequences
//! and probe results describing what the filesystem reported. The outcome
//! of a decision is a plan, a list of [`fsmodel::Action`] values whose
//! meaning is pinned down by a specification-level filesystem model. An
//! unverified shell performs the probes and carries the planned actions
//! out.

pub mod fsmodel;
pub mod laws;
pub mod paths;
pub mod plan;
