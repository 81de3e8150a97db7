//! The errors that the render context reports to its callers.

use crate::frozen_app::SnapshotError;
use vstd::prelude::*;

verus! {

/// An error of the render context.
#[derive(Clone, Copy, Debug, PartialEq, Eq, Structural)]
pub enum ClientError {
    /// The text handed to `thaw` is no snapshot; `source` says why.
    ThawFailed { source: SnapshotError },
    /// The text handed to a registration is no serialized state.
    StateInvalid,
    /// The page to preload was not found.
    PreloadNotFound,
    /// The page to preload is not localized: it would lead to locale detection.
    PreloadLocaleDetection,
}

} // verus!
