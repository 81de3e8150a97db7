//! State reconciliation for a server-rendered application that is hydrated in
//! the browser, and the shell of its HTML documents.
//!
//! For every request for state the render context decides between state that
//! is already active and state from a frozen snapshot of the application. The
//! rules are verified: every public function states in its contract what it
//! returns and what it changes, over the mathematical views of the types, and
//! the laws that relate several calls are proved as lemmas beside them.
//!
//! - [`render_ctx`]: the render context and its rules.
//! - [`page_state_store`]: the bounded store of page state and of preloads.
//! - [`state`]: state values and the global state.
//! - [`frozen_app`]: frozen snapshots, their written form, and the
//!   preferences for thawing.
//! - [`router`]: what the render context reads of the router.
//! - [`html_shell`]: the shell of an HTML document.
//! - [`text`] and [`table`]: what the others are built from.
//! - [`json`]: the boundary to `serde_json`, which is trusted.

pub mod errors;
pub mod frozen_app;
pub mod html_shell;
pub mod json;
pub mod page_state_store;
pub mod render_ctx;
pub mod router;
pub mod state;
pub mod table;
pub mod text;
