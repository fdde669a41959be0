//! The selection engine: drawing a wallpaper to match the weather.
//!
//! Every wallpaper of the pool gets a weight: the number of tags it shares
//! with the current weather, doubled for favourites.  The engine prefers the
//! wallpapers whose day/night flag fits the moment; within that subset it
//! draws with probability proportional to the weight, and falls back to a
//! uniform draw when every weight is zero.  When no wallpaper fits the time
//! of day at all, the whole pool is weighed instead, so a non-empty pool
//! always yields a wallpaper.  Only the empty pool is an error.

use vstd::prelude::*;

use crate::wallpaper::{spec_weight, Wallpaper, WallpaperView, MAX_WEIGHT};
use crate::weather::{Weather, WeatherView};
use crate::Error;

verus! {

/// The sum of a sequence of weights.
pub open spec fn spec_sum(s: Seq<usize>) -> int
    decreases s.len(),
{
    if s.len() == 0 {
        0
    } else {
        spec_sum(s.drop_last()) + s.last()
    }
}

/// A wallpaper fits the time of day when it applies to both day and night,
/// or when its flag equals the weather's.
pub open spec fn spec_day_compatible(w: WallpaperView, q: WeatherView) -> bool {
    w.weather.is_day is None || w.weather.is_day == q.is_day
}

/// The day-compatibility predicate, for filtering a pool.
pub open spec fn spec_day_pred(q: WeatherView) -> spec_fn(WallpaperView) -> bool {
    |w: WallpaperView| spec_day_compatible(w, q)
}

/// Does the wallpaper fit the time of day of the weather snapshot?
pub fn day_compatible(w: &Wallpaper, q: &Weather) -> (r: bool)
    ensures
        r == spec_day_compatible(w@, q@),
{
    match w.weather().is_day() {
        None => true,
        Some(d) => match q.is_day() {
            Some(qd) => d == qd,
            None => false,
        },
    }
}

/// Relies on rand's `WeightedIndex::new`, `Distribution::sample` and
/// `thread_rng`: drawing from a weighted index yields the position of a
/// positive weight, and building the index fails exactly when every weight
/// is zero, the weights being nonempty, non-negative and of bounded sum.
#[verifier::external_body]
fn sample_weighted(weights: &Vec<usize>) -> (r: Option<usize>)
    requires
        weights@.len() > 0,
        spec_sum(weights@) <= usize::MAX,
    ensures
        match r {
            Some(i) => i < weights@.len() && weights@[i as int] > 0,
            None => forall|k: int| 0 <= k < weights@.len() ==> weights@[k] == 0,
        },
{
    match rand::distributions::WeightedIndex::new(weights.iter().copied()) {
        Ok(dist) => Some(rand::distributions::Distribution::sample(
            &dist,
            &mut rand::thread_rng(),
        )),
        Err(_) => None,
    }
}

/// Relies on rand's `Rng::gen_range` and `thread_rng`: sampling the range
/// `0..n` yields a value below `n`; the range is non-empty since `n > 0`.
#[verifier::external_body]
fn sample_below(n: usize) -> (r: usize)
    requires
        n > 0,
    ensures
        r < n,
{
    rand::Rng::gen_range(&mut rand::thread_rng(), 0..n)
}

/// Chooses uniformly from a non-empty pool.
pub fn rand_choice<'a>(wallpapers: &'a Vec<Wallpaper>) -> (r: &'a Wallpaper)
    requires
        wallpapers@.len() > 0,
    ensures
        exists|i: int| 0 <= i < wallpapers@.len() && *r == wallpapers@[i],
{
    let idx = sample_below(wallpapers.len());
    &wallpapers[idx]
}

/// Weighs every wallpaper of a non-empty pool by its matching tags and
/// favourite flag, then draws one with probability proportional to its
/// weight.  When every weight is zero the draw is uniform instead, so the
/// call always yields a wallpaper.
pub fn weighted_choice<'a>(weather: &Weather, wallpapers: &'a Vec<Wallpaper>) -> (r: &'a Wallpaper)
    requires
        wallpapers@.len() > 0,
        wallpapers@.len() * MAX_WEIGHT <= usize::MAX,
    ensures
        exists|i: int| 0 <= i < wallpapers@.len() && *r == wallpapers@[i],
        (exists|i: int|
            0 <= i < wallpapers@.len() && spec_weight(wallpapers@[i]@, weather@) > 0)
            ==> spec_weight(r@, weather@) > 0,
{
    let mut weights: Vec<usize> = Vec::new();
    let mut i: usize = 0;
    while i < wallpapers.len()
        invariant
            0 <= i <= wallpapers@.len(),
            wallpapers@.len() * MAX_WEIGHT <= usize::MAX,
            weights@.len() == i,
            forall|j: int| 0 <= j < i ==> weights@[j] == spec_weight(wallpapers@[j]@, weather@),
            spec_sum(weights@) <= i * MAX_WEIGHT,
        decreases wallpapers@.len() - i,
    {
        let ghost before = weights@;
        let w = wallpapers[i].get_weight(weather);
        weights.push(w);
        proof {
            assert(weights@.drop_last() =~= before);
            assert(spec_sum(weights@) == spec_sum(before) + w);
            assert((i + 1) * MAX_WEIGHT == i * MAX_WEIGHT + MAX_WEIGHT) by (nonlinear_arith);
        }
        i += 1;
    }
    match sample_weighted(&weights) {
        Some(idx) => {
            proof {
                assert(weights@[idx as int] == spec_weight(wallpapers@[idx as int]@, weather@));
            }
            &wallpapers[idx]
        },
        None => {
            proof {
                assert forall|i: int| 0 <= i < wallpapers@.len()
                    implies spec_weight(wallpapers@[i]@, weather@) <= 0 by {
                    assert(weights@[i] == 0);
                }
            }
            rand_choice(wallpapers)
        },
    }
}

/// Chooses the wallpaper to show under the given weather.
///
/// The pool is first narrowed to the wallpapers that fit the time of day;
/// a weighted draw picks from that subset, falling back to a uniform draw
/// when no tags match anywhere.  When nothing fits the time of day the whole
/// pool is drawn from instead, so the call fails only on an empty pool, and
/// then with `NoWallpapersAvailable`.
pub fn choose_wallpaper(weather: &Weather, wallpapers: &Vec<Wallpaper>) -> (r: Result<
    Wallpaper,
    Error,
>)
    requires
        wallpapers@.len() * MAX_WEIGHT <= usize::MAX,
    ensures
        r is Err <==> wallpapers@.len() == 0,
        match r {
            Ok(w) => {
                &&& exists|i: int| 0 <= i < wallpapers@.len() && w@ == wallpapers@[i]@
                &&& (exists|i: int|
                    0 <= i < wallpapers@.len() && spec_day_compatible(wallpapers@[i]@, weather@))
                    ==> spec_day_compatible(w@, weather@)
                &&& (exists|i: int|
                    0 <= i < wallpapers@.len() && spec_day_compatible(wallpapers@[i]@, weather@)
                        && spec_weight(wallpapers@[i]@, weather@) > 0) ==> (spec_day_compatible(
                    w@,
                    weather@,
                ) && spec_weight(w@, weather@) > 0)
                &&& ((forall|i: int|
                    0 <= i < wallpapers@.len() ==> !spec_day_compatible(
                        wallpapers@[i]@,
                        weather@,
                    )) && (exists|i: int|
                    0 <= i < wallpapers@.len() && spec_weight(wallpapers@[i]@, weather@) > 0))
                    ==> spec_weight(w@, weather@) > 0
            },
            Err(e) => e == Error::NoWallpapersAvailable,
        },
{
    broadcast use vstd::prelude::Seq::lemma_filter_push;

    if wallpapers.len() == 0 {
        return Err(Error::NoWallpapersAvailable);
    }
    let ghost pool = wallpapers.deep_view();
    let ghost pred = spec_day_pred(weather@);
    let mut filtered: Vec<Wallpaper> = Vec::new();
    let mut i: usize = 0;
    proof {
        assert(pool.take(0) =~= Seq::<WallpaperView>::empty());
        reveal(Seq::filter);
    }
    while i < wallpapers.len()
        invariant
            0 <= i <= wallpapers@.len(),
            pool == wallpapers.deep_view(),
            pred == spec_day_pred(weather@),
            filtered.deep_view() == pool.take(i as int).filter(pred),
        decreases wallpapers@.len() - i,
    {
        let ghost w = pool[i as int];
        let ghost before = filtered.deep_view();
        proof {
            assert(w == wallpapers@[i as int]@);
            assert(pool.take(i as int + 1) =~= pool.take(i as int).push(w));
            pool.take(i as int).lemma_filter_push(w, pred);
        }
        if day_compatible(&wallpapers[i], weather) {
            filtered.push(wallpapers[i].clone());
            proof {
                assert(filtered.deep_view() =~= before.push(w));
            }
        }
        i += 1;
    }
    proof {
        assert(pool.take(pool.len() as int) =~= pool);
    }
    if filtered.len() > 0 {
        proof {
            pool.lemma_filter_len(pred);
            vstd::arithmetic::mul::lemma_mul_inequality(
                filtered@.len() as int,
                wallpapers@.len() as int,
                MAX_WEIGHT as int,
            );
        }
        let c = weighted_choice(weather, &filtered);
        proof {
            let j = choose|j: int| 0 <= j < filtered@.len() && *c == filtered@[j];
            assert(c@ == filtered.deep_view()[j]);
            pool.lemma_filter_pred(pred, j);
            pool.lemma_filter_contains_rev(pred, c@);
            assert(spec_day_compatible(c@, weather@));
            assert(pool.contains(c@));
            let k = choose|k: int| 0 <= k < pool.len() && pool[k] == c@;
            assert(c@ == wallpapers@[k]@);
            if exists|i: int|
                0 <= i < wallpapers@.len() && spec_day_compatible(wallpapers@[i]@, weather@)
                    && spec_weight(wallpapers@[i]@, weather@) > 0 {
                let i = choose|i: int|
                    0 <= i < wallpapers@.len() && spec_day_compatible(wallpapers@[i]@, weather@)
                        && spec_weight(wallpapers@[i]@, weather@) > 0;
                assert(pool[i] == wallpapers@[i]@);
                pool.lemma_filter_contains(pred, i);
                let m = choose|m: int|
                    0 <= m < pool.filter(pred).len() && pool.filter(pred)[m] == pool[i];
                assert(filtered.deep_view()[m] == pool[i]);
                assert(spec_weight(filtered@[m]@, weather@) > 0);
                assert(spec_weight(c@, weather@) > 0);
            }
            assert(exists|i: int| 0 <= i < wallpapers@.len() && c@ == wallpapers@[i]@);
        }
        Ok(c.clone())
    } else {
        proof {
            assert(pool.filter(pred).len() == 0);
            assert forall|k: int|
                0 <= k < wallpapers@.len()
                implies !spec_day_compatible(wallpapers@[k]@, weather@) by {
                if spec_day_compatible(pool[k], weather@) {
                    pool.lemma_filter_contains(pred, k);
                }
            }
        }
        let c = weighted_choice(weather, wallpapers);
        proof {
            let k = choose|k: int| 0 <= k < wallpapers@.len() && *c == wallpapers@[k];
            assert(c@ == wallpapers@[k]@);
        }
        Ok(c.clone())
    }
}

} // verus!
