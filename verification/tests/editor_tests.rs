use weather_wallpaper::settings::{Config, DEFAULT_INTERVAL_MILLIS};
use weather_wallpaper::wallpaper::Wallpaper;
use weather_wallpaper::wallpaper_tags::{
    commit_edit, interrupted_transition, validate_goto, weather_from_selection, DayNightChoice,
    EditAction,
};
use weather_wallpaper::weather::WeatherTag;
use weather_wallpaper::Error;

#[test]
fn prev_then_next_returns_to_the_same_index() {
    for i in 1..5 {
        let back = interrupted_transition(i, 6, EditAction::Prev);
        let there = interrupted_transition(back, 6, EditAction::Next);
        assert_eq!(there, i);
    }
}

#[test]
fn prev_at_the_start_stays_at_the_start() {
    assert_eq!(interrupted_transition(0, 4, EditAction::Prev), 0);
}

#[test]
fn next_from_the_last_wallpaper_ends_the_walk() {
    assert_eq!(interrupted_transition(3, 4, EditAction::Next), 4);
}

#[test]
fn goto_lands_exactly_on_the_target() {
    assert_eq!(interrupted_transition(2, 5, EditAction::Goto(4)), 4);
    assert_eq!(interrupted_transition(2, 5, EditAction::Goto(0)), 0);
}

#[test]
fn goto_validation_rejects_out_of_range_targets() {
    assert!(validate_goto(0, 3).is_ok());
    assert!(validate_goto(2, 3).is_ok());
    assert_eq!(validate_goto(3, 3).unwrap_err(), Error::InvalidInput);
    assert_eq!(validate_goto(10, 3).unwrap_err(), Error::InvalidInput);
    assert_eq!(validate_goto(0, 0).unwrap_err(), Error::InvalidInput);
}

#[test]
fn reset_and_quit_jump_to_the_terminal_state() {
    assert_eq!(interrupted_transition(1, 5, EditAction::Reset), 5);
    assert_eq!(interrupted_transition(1, 5, EditAction::Quit), 5);
}

#[test]
fn selection_becomes_weather() {
    let w = weather_from_selection(&vec![WeatherTag::Rain, WeatherTag::Storm], DayNightChoice::Night);
    assert!(w.tags().contains(WeatherTag::Rain));
    assert!(w.tags().contains(WeatherTag::Storm));
    assert!(!w.tags().contains(WeatherTag::Sun));
    assert_eq!(w.is_day(), Some(false));

    let day = weather_from_selection(&Vec::new(), DayNightChoice::Day);
    assert!(day.tags().is_empty());
    assert_eq!(day.is_day(), Some(true));

    let both = weather_from_selection(&vec![WeatherTag::Fog], DayNightChoice::Both);
    assert_eq!(both.is_day(), None);
}

#[test]
fn commit_edit_updates_one_record_and_advances() {
    let mut wallpapers = vec![
        Wallpaper::new(String::from("a.png"), String::from("/a.png")),
        Wallpaper::new(String::from("b.png"), String::from("/b.png")),
    ];
    let edited = weather_from_selection(&vec![WeatherTag::Snow], DayNightChoice::Both);
    let next = commit_edit(&mut wallpapers, 0, edited);
    assert_eq!(next, 1);
    assert!(wallpapers[0].weather().tags().contains(WeatherTag::Snow));
    assert_eq!(wallpapers[0].weather().is_day(), None);
    assert!(wallpapers[1].weather().tags().is_empty());
    assert_eq!(wallpapers[1].weather().is_day(), Some(true));
}

#[test]
fn default_refresh_interval_is_five_minutes() {
    let c = Config::default();
    assert_eq!(c.interval_millis(), 5 * 60 * 1000);
    assert_eq!(c.interval_millis(), DEFAULT_INTERVAL_MILLIS);
}

#[test]
fn refresh_interval_can_be_replaced() {
    let mut c = Config::new(1000);
    assert_eq!(c.interval_millis(), 1000);
    c.set_interval_millis(90_000);
    assert_eq!(c.interval_millis(), 90_000);
}
