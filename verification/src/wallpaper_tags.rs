//! The tag editor: a navigable state machine over the wallpaper list.
//!
//! The editor stands at an index into the ordered wallpaper list; committing
//! an edit stores the chosen weather and moves one step forward, and reaching
//! the length of the list ends the walk.  When the user cancels an
//! interactive step, an interrupted menu offers moving forward or backward,
//! jumping to a chosen index (validated and re-prompted), resetting all tags,
//! or quitting; the last two jump to the terminal state.  The shell owns the
//! prompts and the persistence around the walk; the transitions themselves
//! are here.

use vstd::prelude::*;
use vstd::pervasive::VecAdditionalExecFns;

use crate::wallpaper::{Wallpaper, WallpaperView};
use crate::weather::{TagSet, Weather, WeatherTag};
use crate::Error;

verus! {

/// What the user picks from the interrupted menu.  `Quit` stands for going
/// back to the main menu; like `Reset` it jumps to the terminal state.
#[derive(Clone, Copy, Debug, PartialEq, Eq, Structural)]
pub enum EditAction {
    Next,
    Prev,
    Goto(usize),
    Reset,
    Quit,
}

/// What time of day an edited wallpaper depicts.
#[derive(Clone, Copy, Debug, PartialEq, Eq, Structural)]
pub enum DayNightChoice {
    Day,
    Night,
    Both,
}

/// The index the editor stands at after an interrupted-menu action, from
/// index `index` in a list of `n` wallpapers.  `n` is the terminal state.
pub open spec fn spec_next_index(index: int, n: int, action: EditAction) -> int {
    match action {
        EditAction::Next => index + 1,
        EditAction::Prev => if index == 0 {
            0
        } else {
            index - 1
        },
        EditAction::Goto(k) => k as int,
        EditAction::Reset => n,
        EditAction::Quit => n,
    }
}

/// Performs one interrupted-menu transition.  A `Goto` index has been
/// validated by the caller; the result never exceeds the terminal state `n`.
pub fn interrupted_transition(index: usize, n: usize, action: EditAction) -> (r: usize)
    requires
        index < n,
        match action {
            EditAction::Goto(k) => k < n,
            _ => true,
        },
    ensures
        r == spec_next_index(index as int, n as int, action),
        r <= n,
{
    match action {
        EditAction::Next => index + 1,
        EditAction::Prev => if index == 0 {
            0
        } else {
            index - 1
        },
        EditAction::Goto(k) => k,
        EditAction::Reset => n,
        EditAction::Quit => n,
    }
}

/// Validates a `Goto` target: an index is accepted exactly when it addresses
/// a wallpaper of a list of `n`; anything else is `InvalidInput`, and the
/// shell re-prompts rather than aborting.
pub fn validate_goto(k: usize, n: usize) -> (r: Result<(), Error>)
    ensures
        r is Ok <==> k < n,
        r is Err ==> r->Err_0 == Error::InvalidInput,
{
    if k < n {
        Ok(())
    } else {
        Err(Error::InvalidInput)
    }
}

/// Stepping back and then forward from any interior position returns to
/// exactly the wallpaper the editor stood at.
pub proof fn lemma_prev_then_next(i: int, n: int)
    requires
        0 < i < n,
    ensures
        spec_next_index(spec_next_index(i, n, EditAction::Prev), n, EditAction::Next) == i,
{
}

/// A validated jump lands exactly on the requested index.
pub proof fn lemma_goto_lands(i: int, n: int, k: usize)
    ensures
        spec_next_index(i, n, EditAction::Goto(k)) == k,
{
}

/// The weather a finished edit stands for: the tags ticked in the menu and
/// the chosen day/night applicability.
pub fn weather_from_selection(tags: &Vec<WeatherTag>, day_night: DayNightChoice) -> (r: Weather)
    ensures
        r@.tags == tags@.to_set(),
        r@.is_day == (match day_night {
            DayNightChoice::Day => Some(true),
            DayNightChoice::Night => Some(false),
            DayNightChoice::Both => None::<bool>,
        }),
{
    let ts = TagSet::from_tags(tags);
    let is_day = match day_night {
        DayNightChoice::Day => Some(true),
        DayNightChoice::Night => Some(false),
        DayNightChoice::Both => None,
    };
    Weather::new(ts, is_day)
}

/// Commits one edit: stores the chosen weather on the wallpaper at `index`,
/// leaves every other record untouched, and moves the editor one step
/// forward.
pub fn commit_edit(wallpapers: &mut Vec<Wallpaper>, index: usize, weather: Weather) -> (r: usize)
    requires
        index < old(wallpapers)@.len(),
    ensures
        final(wallpapers)@.len() == old(wallpapers)@.len(),
        final(wallpapers)@[index as int]@ == (WallpaperView {
            weather: weather@,
            ..old(wallpapers)@[index as int]@
        }),
        forall|j: int|
            0 <= j < old(wallpapers)@.len() && j != index ==> final(wallpapers)@[j] == old(
                wallpapers,
            )@[j],
        r == index + 1,
{
    let n = wallpapers.len();
    let mut edited = wallpapers[index].clone();
    edited.set_weather(weather);
    wallpapers.set(index, edited);
    proof {
        assert(index < n);
    }
    index + 1
}

} // verus!
