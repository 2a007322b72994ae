//! Slug identity and history for a single-author blog: how a post gets its
//! address, keeps every address it ever had, and how an old address leads to
//! the current one.
//!
//! A post is addressed by a slug, made of its title and the day of its last
//! revision ([`generator`]). Where slugs begin alike, the new one is numbered
//! ([`policy`]). The [`directory`] keeps every slug that was ever issued; a
//! slug that is no longer current points to the one that is. The [`store`]
//! keeps the posts and an archive of the versions that revisions replaced.
//! The [`coordinator`] publishes, revises and reads, each as one step that
//! happens whole or not at all.
//!
//! What these steps do to the stored state is written down in [`state`], as
//! functions from one state to the next. On those rest the promises that
//! reach beyond a single call: what every reachable state looks like
//! ([`consistency`]), that a new slug is always free ([`minting`]), and what
//! becomes of slugs over a run of revisions ([`laws`]).
//!
//! A server around this library takes its routes from [`site`], the decision
//! on who may publish from [`access`], and its static files from [`assets`].

pub mod access;
pub mod assets;
pub mod clock;
pub mod consistency;
pub mod coordinator;
pub mod digits;
pub mod directory;
pub mod draft;
pub mod error;
pub mod generator;
pub mod ident;
pub mod laws;
pub mod minting;
pub mod policy;
pub mod post;
pub mod reading;
pub mod site;
pub mod state;
pub mod store;
pub mod text;
