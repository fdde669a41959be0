use weather_wallpaper::files::merge_wallpapers;
use weather_wallpaper::wallpaper::Wallpaper;
use weather_wallpaper::weather::{TagSet, Weather, WeatherTag};

fn tagged(path: &str, tags: Vec<WeatherTag>) -> Wallpaper {
    let weather = Weather::new(TagSet::from_tags(&tags), Some(true));
    Wallpaper::from_parts(String::from(path), String::from(path), weather, false)
}

fn fresh(path: &str) -> Wallpaper {
    Wallpaper::new(String::from(path), String::from(path))
}

fn paths(store: &Vec<Wallpaper>) -> Vec<String> {
    store.iter().map(|w| w.path().clone()).collect()
}

#[test]
fn merge_prunes_missing_files() {
    let saved = vec![tagged("/a.png", vec![WeatherTag::Sun]), tagged("/gone.png", vec![])];
    let scanned = vec![fresh("/a.png")];
    let existing = vec![String::from("/a.png")];
    let merged = merge_wallpapers(&saved, &scanned, &existing);
    assert_eq!(paths(&merged), vec![String::from("/a.png")]);
}

#[test]
fn merge_keeps_saved_tags_over_fresh_defaults() {
    let saved = vec![tagged("/a.png", vec![WeatherTag::Sun])];
    let scanned = vec![fresh("/a.png"), fresh("/b.png")];
    let existing = vec![String::from("/a.png"), String::from("/b.png")];
    let merged = merge_wallpapers(&saved, &scanned, &existing);
    assert_eq!(
        paths(&merged),
        vec![String::from("/a.png"), String::from("/b.png")]
    );
    // the persisted tags survive; the new file enters untagged
    assert!(merged[0].weather().tags().contains(WeatherTag::Sun));
    assert!(merged[1].weather().tags().is_empty());
}

#[test]
fn merge_deduplicates_scanned_files() {
    let saved: Vec<Wallpaper> = Vec::new();
    let scanned = vec![fresh("/a.png"), fresh("/a.png"), fresh("/b.png")];
    let existing = vec![String::from("/a.png"), String::from("/b.png")];
    let merged = merge_wallpapers(&saved, &scanned, &existing);
    assert_eq!(
        paths(&merged),
        vec![String::from("/a.png"), String::from("/b.png")]
    );
}

#[test]
fn merge_twice_changes_nothing() {
    let saved = vec![
        tagged("/a.png", vec![WeatherTag::Sun]),
        tagged("/gone.png", vec![WeatherTag::Rain]),
    ];
    let scanned = vec![fresh("/a.png"), fresh("/b.png")];
    let existing = vec![String::from("/a.png"), String::from("/b.png")];
    let once = merge_wallpapers(&saved, &scanned, &existing);
    let twice = merge_wallpapers(&once, &scanned, &existing);
    assert_eq!(paths(&once), paths(&twice));
    assert_eq!(once.len(), twice.len());
    for (a, b) in once.iter().zip(twice.iter()) {
        assert!(a == b);
        assert_eq!(a.is_favourited(), b.is_favourited());
        assert_eq!(a.weather().is_day(), b.weather().is_day());
        assert_eq!(a.weather().tags().count_common(b.weather().tags()),
                   a.weather().tags().count_common(a.weather().tags()));
    }
}

#[test]
fn merge_round_trip_restores_saved_records() {
    // save a store, then load with a scan that only finds those same files:
    // the result is the saved store restricted to the files that still exist
    let saved = vec![
        tagged("/a.png", vec![WeatherTag::Sun]),
        tagged("/gone.png", vec![WeatherTag::Rain]),
        tagged("/b.png", vec![WeatherTag::Fog]),
    ];
    let scanned = vec![fresh("/a.png"), fresh("/b.png")];
    let existing = vec![String::from("/a.png"), String::from("/b.png")];
    let merged = merge_wallpapers(&saved, &scanned, &existing);
    assert_eq!(
        paths(&merged),
        vec![String::from("/a.png"), String::from("/b.png")]
    );
    assert!(merged[0].weather().tags().contains(WeatherTag::Sun));
    assert!(merged[1].weather().tags().contains(WeatherTag::Fog));
}

#[test]
fn merge_of_empty_store_registers_all_scanned_files() {
    let saved: Vec<Wallpaper> = Vec::new();
    let scanned = vec![fresh("/a.png"), fresh("/b.png")];
    let existing = vec![String::from("/a.png"), String::from("/b.png")];
    let merged = merge_wallpapers(&saved, &scanned, &existing);
    assert_eq!(
        paths(&merged),
        vec![String::from("/a.png"), String::from("/b.png")]
    );
    assert!(!merged[0].is_favourited());
    assert_eq!(merged[0].weather().is_day(), Some(true));
}
