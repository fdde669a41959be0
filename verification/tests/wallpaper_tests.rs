use weather_wallpaper::files::check_extension;
use weather_wallpaper::wallpaper::Wallpaper;
use weather_wallpaper::weather::{TagSet, Weather, WeatherTag};

fn tagged(path: &str, tags: Vec<WeatherTag>, is_day: Option<bool>, favourited: bool) -> Wallpaper {
    let weather = Weather::new(TagSet::from_tags(&tags), is_day);
    let mut w = Wallpaper::from_parts(String::from(path), String::from(path), weather, false);
    if favourited {
        w.toggle_favourited();
    }
    w
}

#[test]
fn new_wallpaper_defaults() {
    let w = Wallpaper::new(String::from("a.png"), String::from("/pics/a.png"));
    assert_eq!(*w.filename(), String::from("a.png"));
    assert_eq!(*w.path(), String::from("/pics/a.png"));
    assert!(w.weather().tags().is_empty());
    assert_eq!(w.weather().is_day(), Some(true));
    assert!(!w.is_favourited());
}

#[test]
fn toggle_favourited_flips() {
    let mut w = Wallpaper::new(String::from("a.png"), String::from("/a.png"));
    w.toggle_favourited();
    assert!(w.is_favourited());
    w.toggle_favourited();
    assert!(!w.is_favourited());
}

#[test]
fn validity_is_membership_of_existing_paths() {
    let w = Wallpaper::new(String::from("a.png"), String::from("/pics/a.png"));
    let existing = vec![String::from("/pics/b.png"), String::from("/pics/a.png")];
    assert!(w.is_valid(&existing));
    assert!(!w.is_valid(&vec![String::from("/pics/b.png")]));
    assert!(!w.is_valid(&Vec::new()));
}

#[test]
fn identity_is_the_path_alone() {
    let plain = tagged("/a.png", vec![], Some(true), false);
    let tagged_twin = tagged("/a.png", vec![WeatherTag::Sun], Some(false), true);
    let other = tagged("/b.png", vec![], Some(true), false);
    assert!(plain == tagged_twin);
    assert!(plain != other);
}

#[test]
fn weight_counts_matching_tags() {
    let weather = Weather::new(TagSet::from_tags(&vec![WeatherTag::Sun, WeatherTag::Fog]), Some(true));
    let both = tagged("/a.png", vec![WeatherTag::Sun, WeatherTag::Fog], Some(true), false);
    let one = tagged("/b.png", vec![WeatherTag::Sun, WeatherTag::Rain], Some(true), false);
    assert_eq!(both.get_weight(&weather), 2);
    assert_eq!(one.get_weight(&weather), 1);
}

#[test]
fn weight_zero_on_disjoint_tags() {
    let weather = Weather::new(TagSet::from_tags(&vec![WeatherTag::Sun]), Some(true));
    let w = tagged("/a.png", vec![WeatherTag::Rain], Some(true), false);
    assert_eq!(w.get_weight(&weather), 0);
}

#[test]
fn favourite_doubles_matches_only() {
    let weather = Weather::new(TagSet::from_tags(&vec![WeatherTag::Sun, WeatherTag::Fog]), Some(true));
    let fav_matching = tagged("/a.png", vec![WeatherTag::Sun, WeatherTag::Fog], Some(true), true);
    let fav_untagged = tagged("/c.png", vec![], Some(true), true);
    assert_eq!(fav_matching.get_weight(&weather), 4);
    // the multiplier applies to matched tags only: with none matched a
    // favourite still weighs zero
    assert_eq!(fav_untagged.get_weight(&weather), 0);
}

#[test]
fn extension_check_accepts_images_any_case() {
    assert!(check_extension("png"));
    assert!(check_extension("JPG"));
    assert!(check_extension("Bmp"));
    assert!(!check_extension("gif"));
    assert!(!check_extension("txt"));
    assert!(!check_extension(""));
    assert!(!check_extension("pngx"));
}
