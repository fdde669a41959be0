//! Wallpaper records and their selection weight.
//!
//! A wallpaper is identified by its path alone: two records with the same
//! path are the same wallpaper, whatever tags they carry.  The weight of a
//! wallpaper under a weather snapshot is the number of tags the two share,
//! doubled for favourites; the selection engine draws proportionally to it.

use vstd::prelude::*;

use crate::weather::{all_tags, lemma_all_tags_complete, TagSet, Weather, WeatherTag, WeatherView};

verus! {

/// The weight multiplier of a favourited wallpaper.
pub const FAV_WEIGHT_MULT: usize = 2;

/// The largest weight a wallpaper can have: every tag of the taxonomy
/// matched, on a favourite.
pub const MAX_WEIGHT: usize = 7 * FAV_WEIGHT_MULT;

/// The abstract value of a wallpaper record.
#[verifier::ext_equal]
pub struct WallpaperView {
    pub filename: Seq<char>,
    pub path: Seq<char>,
    pub weather: WeatherView,
    pub favourited: bool,
}

/// One wallpaper record: the image file it stands for, the weather it
/// depicts, and whether the user favourited it.
#[derive(Debug)]
pub struct Wallpaper {
    filename: String,
    path: String,
    weather: Weather,
    favourited: bool,
}

impl View for Wallpaper {
    type V = WallpaperView;

    closed spec fn view(&self) -> WallpaperView {
        WallpaperView {
            filename: self.filename@,
            path: self.path@,
            weather: self.weather@,
            favourited: self.favourited,
        }
    }
}

impl DeepView for Wallpaper {
    type V = WallpaperView;

    open spec fn deep_view(&self) -> WallpaperView {
        self.view()
    }
}

/// Every set of weather tags is finite and no larger than the taxonomy.
pub proof fn lemma_tag_set_bound(s: Set<WeatherTag>)
    ensures
        s.finite(),
        s.len() <= all_tags().len(),
{
    let u = all_tags().to_set();
    vstd::seq_lib::seq_to_set_is_finite(all_tags());
    all_tags().lemma_cardinality_of_set();
    assert forall|t: WeatherTag| s.contains(t) implies u.contains(t) by {
        lemma_all_tags_complete(t);
    }
    assert(s.subset_of(u));
    vstd::set_lib::lemma_len_subset(s, u);
}

/// How many tags a wallpaper shares with the weather.
pub open spec fn spec_matching_tag_count(w: WallpaperView, q: WeatherView) -> int {
    w.weather.tags.intersect(q.tags).len() as int
}

/// The selection weight of a wallpaper under a weather snapshot: the number
/// of shared tags, doubled when the wallpaper is favourited.
pub open spec fn spec_weight(w: WallpaperView, q: WeatherView) -> int {
    if w.favourited {
        spec_matching_tag_count(w, q) * FAV_WEIGHT_MULT
    } else {
        spec_matching_tag_count(w, q)
    }
}

/// Weights are counts, never negative; a wallpaper that shares no tag with
/// the weather and is not favourited weighs exactly zero.
pub proof fn lemma_weight_nonnegative(w: WallpaperView, q: WeatherView)
    ensures
        spec_weight(w, q) >= 0,
        w.weather.tags.intersect(q.tags).is_empty() && !w.favourited ==> spec_weight(w, q) == 0,
{
    lemma_tag_set_bound(w.weather.tags.intersect(q.tags));
    if w.weather.tags.intersect(q.tags).is_empty() {
        assert(w.weather.tags.intersect(q.tags) =~= Set::<WeatherTag>::empty());
        vstd::set_lib::lemma_set_empty_equivalency_len(w.weather.tags.intersect(q.tags));
    }
}

impl Wallpaper {
    /// A record for a freshly discovered image file: it depicts no particular
    /// weather yet, counts as a day image, and is not favourited.
    pub fn new(filename: String, path: String) -> (r: Wallpaper)
        ensures
            r@.filename == filename@,
            r@.path == path@,
            r@.weather.tags == Set::<WeatherTag>::empty(),
            r@.weather.is_day == Some(true),
            r@.favourited == false,
    {
        Wallpaper { filename, path, weather: Weather::default(), favourited: false }
    }

    /// Rebuilds a record from persisted parts.
    pub fn from_parts(filename: String, path: String, weather: Weather, favourited: bool) -> (r:
        Wallpaper)
        ensures
            r@ == (WallpaperView {
                filename: filename@,
                path: path@,
                weather: weather@,
                favourited,
            }),
    {
        Wallpaper { filename, path, weather, favourited }
    }

    /// The name of the image file.
    pub fn filename(&self) -> (r: &String)
        ensures
            r@ == self@.filename,
    {
        &self.filename
    }

    /// The path of the image file; it alone is the record's identity.
    pub fn path(&self) -> (r: &String)
        ensures
            r@ == self@.path,
    {
        &self.path
    }

    /// The weather this wallpaper depicts.
    pub fn weather(&self) -> (r: &Weather)
        ensures
            r@ == self@.weather,
    {
        &self.weather
    }

    /// Replaces the weather this wallpaper depicts; the tag editor commits
    /// edits through this.
    pub fn set_weather(&mut self, weather: Weather)
        ensures
            final(self)@ == (WallpaperView { weather: weather@, ..old(self)@ }),
    {
        self.weather = weather;
    }

    /// Has the user favourited this wallpaper?
    pub fn is_favourited(&self) -> (r: bool)
        ensures
            r == self@.favourited,
    {
        self.favourited
    }

    /// Flips the favourite flag.
    pub fn toggle_favourited(&mut self)
        ensures
            final(self)@ == (WallpaperView { favourited: !old(self)@.favourited, ..old(self)@ }),
    {
        self.favourited = !self.favourited;
    }

    /// Is the backing file still there?  The caller passes the paths that
    /// exist on disk; a record whose path is not among them is invalid and is
    /// pruned on the next load/save cycle.
    pub fn is_valid(&self, existing_paths: &Vec<String>) -> (r: bool)
        ensures
            r == existing_paths.deep_view().contains(self@.path),
    {
        let mut i: usize = 0;
        while i < existing_paths.len()
            invariant
                0 <= i <= existing_paths.len(),
                forall|j: int| 0 <= j < i ==> existing_paths.deep_view()[j] != self@.path,
            decreases existing_paths.len() - i,
        {
            if existing_paths[i] == self.path {
                proof {
                    assert(existing_paths.deep_view()[i as int] == self@.path);
                }
                return true;
            }
            i += 1;
        }
        false
    }

    /// The selection weight of this wallpaper under the given weather: the
    /// number of shared tags, doubled when favourited.
    pub fn get_weight(&self, weather: &Weather) -> (r: usize)
        ensures
            r == spec_weight(self@, weather@),
            r <= MAX_WEIGHT,
    {
        let matching = self.weather.tags().count_common(weather.tags());
        proof {
            lemma_tag_set_bound(self@.weather.tags.intersect(weather@.tags));
        }
        if self.favourited {
            matching * FAV_WEIGHT_MULT
        } else {
            matching
        }
    }
}

impl Clone for Wallpaper {
    /// Clones the record; the copy has the same abstract value.
    fn clone(&self) -> (r: Self)
        ensures
            r@ == self@,
    {
        let r = Wallpaper {
            filename: self.filename.clone(),
            path: self.path.clone(),
            weather: self.weather.clone(),
            favourited: self.favourited,
        };
        proof {
            assert(r@ =~= self@);
        }
        r
    }
}

impl PartialEq for Wallpaper {
    /// Two records are the same wallpaper exactly when their paths agree;
    /// tags and flags do not enter identity.
    fn eq(&self, other: &Self) -> (r: bool) {
        self.path == other.path
    }
}

impl vstd::std_specs::cmp::PartialEqSpecImpl for Wallpaper {
    open spec fn obeys_eq_spec() -> bool {
        true
    }

    open spec fn eq_spec(&self, other: &Self) -> bool {
        self@.path == other@.path
    }
}

impl Eq for Wallpaper {

}

} // verus!
