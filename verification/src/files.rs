//! The wallpaper store: merging scanned files with persisted records.
//!
//! A load merges the persisted records with the files a directory scan
//! found: persisted records whose file still exists are kept as they are,
//! with their manually assigned tags; scanned files not yet recorded enter
//! with a default weather; records whose file is gone are pruned.  The shell
//! performs the scan and the reading and writing; the merge itself is here,
//! and with it the laws that a load/save cycle is idempotent and that a load
//! right after a save gives the saved records back, restricted to the files
//! that still exist.

use vstd::prelude::*;

use crate::text::{ci_equal, str_eq_ignore_case};
use crate::wallpaper::{Wallpaper, WallpaperView};

verus! {

/// A file can serve as a wallpaper when its extension is png, jpg or bmp,
/// compared without regard to ASCII case.
pub open spec fn spec_valid_extension(ext: Seq<char>) -> bool {
    ||| ci_equal(ext, "png"@)
    ||| ci_equal(ext, "jpg"@)
    ||| ci_equal(ext, "bmp"@)
}

/// Does the extension belong to a supported image format?
pub fn check_extension(ext: &str) -> (r: bool)
    ensures
        r == spec_valid_extension(ext@),
{
    str_eq_ignore_case(ext, "png") || str_eq_ignore_case(ext, "jpg") || str_eq_ignore_case(
        ext,
        "bmp",
    )
}

/// The paths of a sequence of records, in the same order.
pub open spec fn spec_paths(s: Seq<WallpaperView>) -> Seq<Seq<char>> {
    s.map_values(|w: WallpaperView| w.path)
}

/// The predicate a persisted record must pass to survive a load: its file
/// still exists.
pub open spec fn spec_still_valid(existing: Seq<Seq<char>>) -> spec_fn(WallpaperView) -> bool {
    |w: WallpaperView| existing.contains(w.path)
}

/// The persisted records that survive a load: those whose file still exists.
pub open spec fn spec_kept(saved: Seq<WallpaperView>, existing: Seq<Seq<char>>) -> Seq<
    WallpaperView,
> {
    saved.filter(spec_still_valid(existing))
}

/// The scanned records that enter the store, in scan order: each one whose
/// path was not seen before, where `seen` starts as the paths already in the
/// store and grows with every record taken.
pub open spec fn spec_new(scanned: Seq<WallpaperView>, seen: Seq<Seq<char>>) -> Seq<WallpaperView>
    decreases scanned.len(),
{
    if scanned.len() == 0 {
        Seq::empty()
    } else {
        let c = scanned[0];
        if seen.contains(c.path) {
            spec_new(scanned.drop_first(), seen)
        } else {
            seq![c] + spec_new(scanned.drop_first(), seen.push(c.path))
        }
    }
}

/// The merged store: the still-valid persisted records first, then the
/// genuinely new scanned files, deduplicated by path with persisted records
/// taking precedence over fresh defaults.
pub open spec fn spec_merge(
    saved: Seq<WallpaperView>,
    scanned: Seq<WallpaperView>,
    existing: Seq<Seq<char>>,
) -> Seq<WallpaperView> {
    spec_kept(saved, existing) + spec_new(scanned, spec_paths(spec_kept(saved, existing)))
}

/// Is one of the records at this path already?
fn store_contains_path(list: &Vec<Wallpaper>, path: &String) -> (r: bool)
    ensures
        r == spec_paths(list.deep_view()).contains(path@),
{
    let mut i: usize = 0;
    while i < list.len()
        invariant
            0 <= i <= list.len(),
            forall|j: int| 0 <= j < i ==> list.deep_view()[j].path != path@,
        decreases list.len() - i,
    {
        if *list[i].path() == *path {
            proof {
                assert(list.deep_view()[i as int] == list@[i as int]@);
                assert(spec_paths(list.deep_view())[i as int] == path@);
            }
            return true;
        }
        proof {
            assert(list.deep_view()[i as int] == list@[i as int]@);
        }
        i += 1;
    }
    proof {
        assert forall|j: int| 0 <= j < spec_paths(list.deep_view()).len()
            implies spec_paths(list.deep_view())[j] != path@ by {
            assert(spec_paths(list.deep_view())[j] == list.deep_view()[j].path);
        }
    }
    false
}

/// Merges the persisted records with the files a scan of the wallpaper
/// directory found.  `existing_paths` are the paths that exist on disk:
/// persisted records are pruned against them.  Scanned records keep their
/// scan order and enter only when no record of the same path is there yet.
pub fn merge_wallpapers(
    saved: &Vec<Wallpaper>,
    scanned: &Vec<Wallpaper>,
    existing_paths: &Vec<String>,
) -> (r: Vec<Wallpaper>)
    ensures
        r.deep_view() == spec_merge(
            saved.deep_view(),
            scanned.deep_view(),
            existing_paths.deep_view(),
        ),
{
    broadcast use vstd::prelude::Seq::lemma_filter_push;

    let ghost existing = existing_paths.deep_view();
    let mut result: Vec<Wallpaper> = Vec::new();
    let mut i: usize = 0;
    proof {
        assert(saved.deep_view().take(0) =~= Seq::<WallpaperView>::empty());
        reveal(Seq::filter);
    }
    while i < saved.len()
        invariant
            0 <= i <= saved.len(),
            existing == existing_paths.deep_view(),
            result.deep_view() == spec_kept(saved.deep_view().take(i as int), existing),
        decreases saved.len() - i,
    {
        let ghost w = saved.deep_view()[i as int];
        let ghost before = result.deep_view();
        proof {
            assert(w == saved@[i as int]@);
            assert(saved.deep_view().take(i as int + 1) =~= saved.deep_view().take(
                i as int,
            ).push(w));
            saved.deep_view().take(i as int).lemma_filter_push(w, spec_still_valid(existing));
        }
        if saved[i].is_valid(existing_paths) {
            result.push(saved[i].clone());
            proof {
                assert(result.deep_view() =~= before.push(w));
            }
        }
        i += 1;
    }
    proof {
        assert(saved.deep_view().take(saved.deep_view().len() as int) =~= saved.deep_view());
    }
    let ghost kept = result.deep_view();
    let ghost full = spec_merge(saved.deep_view(), scanned.deep_view(), existing);
    let mut j: usize = 0;
    proof {
        assert(spec_paths(kept) =~= spec_paths(spec_kept(saved.deep_view(), existing)));
        assert(scanned.deep_view().skip(0) =~= scanned.deep_view());
    }
    while j < scanned.len()
        invariant
            0 <= j <= scanned.len(),
            full == result.deep_view() + spec_new(
                scanned.deep_view().skip(j as int),
                spec_paths(result.deep_view()),
            ),
        decreases scanned.len() - j,
    {
        let ghost rest = scanned.deep_view().skip(j as int);
        let ghost before = result.deep_view();
        let ghost seen = spec_paths(before);
        let ghost c = scanned.deep_view()[j as int];
        proof {
            assert(c == scanned@[j as int]@);
            assert(rest[0] == c);
            assert(rest.drop_first() =~= scanned.deep_view().skip(j as int + 1));
        }
        if store_contains_path(&result, scanned[j].path()) {
            proof {
                assert(spec_new(rest, seen) == spec_new(rest.drop_first(), seen));
            }
        } else {
            result.push(scanned[j].clone());
            proof {
                assert(result.deep_view() =~= before.push(c));
                assert(spec_paths(before.push(c)) =~= seen.push(c.path));
                assert(spec_new(rest, seen) == seq![c] + spec_new(
                    rest.drop_first(),
                    seen.push(c.path),
                ));
                assert(before + (seq![c] + spec_new(rest.drop_first(), seen.push(c.path)))
                    =~= before.push(c) + spec_new(rest.drop_first(), seen.push(c.path)));
            }
        }
        j += 1;
    }
    proof {
        assert(scanned.deep_view().skip(scanned.deep_view().len() as int)
            =~= Seq::<WallpaperView>::empty());
        assert(full =~= result.deep_view());
    }
    result
}

/// A sequence whose elements all pass a predicate is unchanged by filtering.
proof fn lemma_filter_identity<A>(s: Seq<A>, pred: spec_fn(A) -> bool)
    requires
        forall|i: int| 0 <= i < s.len() ==> pred(#[trigger] s[i]),
    ensures
        s.filter(pred) == s,
    decreases s.len(),
{
    reveal(Seq::filter);
    if s.len() == 0 {
        assert(s.filter(pred) =~= s);
    } else {
        lemma_filter_identity(s.drop_last(), pred);
        assert(s.filter(pred) =~= s);
    }
}

/// When every scanned path was seen already, nothing enters the store.
proof fn lemma_new_all_seen(scanned: Seq<WallpaperView>, seen: Seq<Seq<char>>)
    requires
        forall|k: int| 0 <= k < scanned.len() ==> seen.contains(#[trigger] scanned[k].path),
    ensures
        spec_new(scanned, seen) == Seq::<WallpaperView>::empty(),
    decreases scanned.len(),
{
    if scanned.len() == 0 {
        assert(spec_new(scanned, seen) =~= Seq::<WallpaperView>::empty());
    } else {
        let rest = scanned.drop_first();
        assert(seen.contains(scanned[0].path));
        assert forall|k: int| 0 <= k < rest.len() implies seen.contains(#[trigger] rest[k].path) by {
            assert(rest[k] == scanned[k + 1]);
        }
        lemma_new_all_seen(rest, seen);
    }
}

/// Every record that enters the store came from the scan.
proof fn lemma_new_elements(scanned: Seq<WallpaperView>, seen: Seq<Seq<char>>)
    ensures
        forall|i: int| 0 <= i < spec_new(scanned, seen).len() ==> scanned.contains(
            #[trigger] spec_new(scanned, seen)[i],
        ),
    decreases scanned.len(),
{
    if scanned.len() == 0 {
    } else {
        let c = scanned[0];
        let rest = scanned.drop_first();
        if seen.contains(c.path) {
            lemma_new_elements(rest, seen);
            assert forall|i: int| 0 <= i < spec_new(scanned, seen).len() implies scanned.contains(
                #[trigger] spec_new(scanned, seen)[i],
            ) by {
                let x = spec_new(rest, seen)[i];
                assert(rest.contains(x));
                let k = choose|k: int| 0 <= k < rest.len() && rest[k] == x;
                assert(scanned[k + 1] == x);
            }
        } else {
            let sub = spec_new(rest, seen.push(c.path));
            lemma_new_elements(rest, seen.push(c.path));
            assert forall|i: int| 0 <= i < spec_new(scanned, seen).len() implies scanned.contains(
                #[trigger] spec_new(scanned, seen)[i],
            ) by {
                assert(spec_new(scanned, seen) == seq![c] + sub);
                if i == 0 {
                    assert(spec_new(scanned, seen)[0] == c);
                    assert(scanned.contains(c)) by {
                        assert(scanned[0] == c);
                    }
                } else {
                    let x = (seq![c] + sub)[i];
                    assert(x == sub[i - 1]);
                    assert(rest.contains(x));
                    let k = choose|k: int| 0 <= k < rest.len() && rest[k] == x;
                    assert(scanned[k + 1] == x);
                }
            }
        }
    }
}

/// After a merge, every scanned path is accounted for: it was seen before,
/// or a record with it entered the store.
proof fn lemma_new_covers(scanned: Seq<WallpaperView>, seen: Seq<Seq<char>>)
    ensures
        forall|k: int| 0 <= k < scanned.len() ==> seen.contains(#[trigger] scanned[k].path)
            || spec_paths(spec_new(scanned, seen)).contains(scanned[k].path),
    decreases scanned.len(),
{
    if scanned.len() == 0 {
    } else {
        let c = scanned[0];
        let rest = scanned.drop_first();
        if seen.contains(c.path) {
            lemma_new_covers(rest, seen);
            assert forall|k: int|
                0 <= k < scanned.len() && !seen.contains(#[trigger] scanned[k].path)
                implies spec_paths(spec_new(scanned, seen)).contains(scanned[k].path) by {
                assert(k > 0);
                assert(rest[k - 1] == scanned[k]);
                let i = choose|i: int|
                    0 <= i < spec_paths(spec_new(rest, seen)).len() && spec_paths(
                        spec_new(rest, seen),
                    )[i] == rest[k - 1].path;
                assert(spec_paths(spec_new(scanned, seen))[i] == scanned[k].path);
            }
        } else {
            let sub = spec_new(rest, seen.push(c.path));
            let out = spec_new(scanned, seen);
            assert(out == seq![c] + sub);
            lemma_new_covers(rest, seen.push(c.path));
            assert forall|k: int|
                0 <= k < scanned.len() && !seen.contains(#[trigger] scanned[k].path)
                implies spec_paths(out).contains(scanned[k].path) by {
                if k == 0 {
                    assert(out[0] == c);
                    assert(spec_paths(out)[0] == c.path);
                } else {
                    assert(rest[k - 1] == scanned[k]);
                    if seen.push(c.path).contains(scanned[k].path) {
                        let m = choose|m: int|
                            0 <= m < seen.push(c.path).len()
                                && seen.push(c.path)[m] == scanned[k].path;
                        assert(m == seen.len());
                        assert(scanned[k].path == c.path);
                        assert(spec_paths(out)[0] == c.path);
                    } else {
                        let i = choose|i: int|
                            0 <= i < spec_paths(sub).len()
                                && spec_paths(sub)[i] == rest[k - 1].path;
                        assert(out[i + 1] == sub[i]);
                        assert(spec_paths(out)[i + 1] == scanned[k].path);
                    }
                }
            }
        }
    }
}

/// Loading is idempotent: merging the merged store once more, against the
/// same scan and the same files on disk, changes nothing.  Saving after a
/// second load therefore writes exactly the records, in the order, that the
/// first save wrote.  The scan only reports files that exist, which is what
/// the premise states.
#[verifier::rlimit(60)]
pub proof fn lemma_merge_idempotent(
    saved: Seq<WallpaperView>,
    scanned: Seq<WallpaperView>,
    existing: Seq<Seq<char>>,
)
    requires
        forall|k: int| 0 <= k < scanned.len() ==> existing.contains(#[trigger] scanned[k].path),
    ensures
        spec_merge(spec_merge(saved, scanned, existing), scanned, existing) == spec_merge(
            saved,
            scanned,
            existing,
        ),
{
    let kept = spec_kept(saved, existing);
    let fresh = spec_new(scanned, spec_paths(kept));
    let m = kept + fresh;
    assert(spec_merge(saved, scanned, existing) == m);
    assert forall|i: int| 0 <= i < m.len() implies spec_still_valid(existing)(#[trigger] m[i]) by {
        if i < kept.len() {
            saved.lemma_filter_pred(spec_still_valid(existing), i);
            assert(m[i] == kept[i]);
        } else {
            lemma_new_elements(scanned, spec_paths(kept));
            let x = fresh[i - kept.len()];
            assert(m[i] == x);
            assert(scanned.contains(x));
            let k = choose|k: int| 0 <= k < scanned.len() && scanned[k] == x;
            assert(existing.contains(scanned[k].path));
        }
    }
    lemma_filter_identity(m, spec_still_valid(existing));
    assert(spec_kept(m, existing) == m);
    lemma_new_covers(scanned, spec_paths(kept));
    assert forall|k: int| 0 <= k < scanned.len() implies spec_paths(m).contains(
        #[trigger] scanned[k].path,
    ) by {
        if spec_paths(kept).contains(scanned[k].path) {
            let i = choose|i: int|
                0 <= i < spec_paths(kept).len() && spec_paths(kept)[i] == scanned[k].path;
            assert(m[i] == kept[i]);
            assert(spec_paths(m)[i] == scanned[k].path);
        } else {
            let i = choose|i: int|
                0 <= i < spec_paths(fresh).len() && spec_paths(fresh)[i] == scanned[k].path;
            assert(m[kept.len() + i] == fresh[i]);
            assert(spec_paths(m)[kept.len() + i] == scanned[k].path);
        }
    }
    lemma_new_all_seen(scanned, spec_paths(m));
    assert(spec_merge(m, scanned, existing) =~= m);
}

/// The round trip: a load right after a save hands the saved records back,
/// restricted to the files that still exist.  The premise says the scan
/// found no file beyond those the still-valid saved records already cover.
pub proof fn lemma_merge_round_trip(
    saved: Seq<WallpaperView>,
    scanned: Seq<WallpaperView>,
    existing: Seq<Seq<char>>,
)
    requires
        forall|k: int| 0 <= k < scanned.len() ==> spec_paths(spec_kept(saved, existing)).contains(
            #[trigger] scanned[k].path,
        ),
    ensures
        spec_merge(saved, scanned, existing) == spec_kept(saved, existing),
{
    lemma_new_all_seen(scanned, spec_paths(spec_kept(saved, existing)));
    assert(spec_merge(saved, scanned, existing) =~= spec_kept(saved, existing));
}

} // verus!
