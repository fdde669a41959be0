//! Weather-matched desktop wallpapers.
//!
//! The library holds the logic of a small desktop utility that swaps the
//! wallpaper to an image matching the current weather: a closed taxonomy of
//! weather tags with a condition parser, wallpaper records tagged with the
//! weather they depict, a store that merges freshly scanned files with
//! persisted records, a selection engine that draws a wallpaper from a
//! weighted distribution with day/night fallback, and the navigable state
//! machine behind the interactive tag editor.  Reading directories, fetching
//! weather data, rendering previews and setting the desktop background are
//! left to the surrounding binary; the functions here take and return plain
//! values and state what they compute.

use vstd::prelude::*;

pub mod files;
pub mod text;
pub mod selection;
pub mod settings;
pub mod wallpaper;
pub mod wallpaper_tags;
pub mod weather;

verus! {

/// Everything that can go wrong in the library and in the shell around it.
///
/// `Interrupted` is a control signal, not a failure: it reports that the user
/// cancelled an interactive step of the tag editor.  `InvalidInput` marks an
/// out-of-range index during `Goto` navigation; the caller re-prompts rather
/// than aborting.  `NoWallpapersAvailable` is fatal: selection was invoked on
/// an empty pool.
#[derive(Clone, Copy, Debug, PartialEq, Eq, Structural)]
pub enum Error {
    WeatherFetchFail,
    ConditionLookupFail,
    InvalidWallpaper,
    ImagePrintFail,
    Interrupted,
    InvalidInput,
    NoWallpapersAvailable,
}

} // verus!
