use weather_wallpaper::weather::{
    get_current_weather, TagSet, Weather, WeatherData, WeatherTag,
};
use weather_wallpaper::Error;

#[test]
fn parse_partly_cloudy_text() {
    let r = WeatherTag::parse(&String::from("Partly cloudy")).unwrap();
    assert!(r.contains(WeatherTag::PartCloud));
    // "Cloudy" is a substring of "Partly cloudy", so the permissive
    // substring policy reports the cloud tag as well.
    assert!(r.contains(WeatherTag::Cloud));
    assert!(!r.contains(WeatherTag::Sun));
    assert!(!r.contains(WeatherTag::Rain));
}

#[test]
fn parse_text_is_case_insensitive() {
    let r = WeatherTag::parse(&String::from("HEAVY DRIZZLE")).unwrap();
    assert!(r.contains(WeatherTag::Rain));
    let r = WeatherTag::parse(&String::from("clear skies")).unwrap();
    assert!(r.contains(WeatherTag::Sun));
}

#[test]
fn parse_unknown_text_fails() {
    let r = WeatherTag::parse(&String::from("volcanic ash"));
    assert_eq!(r.unwrap_err(), Error::ConditionLookupFail);
}

#[test]
fn parse_code_partcloud_exactly() {
    let r = WeatherTag::parse_code(1).unwrap();
    assert!(r.contains(WeatherTag::PartCloud));
    assert!(!r.contains(WeatherTag::Sun));
    assert!(!r.contains(WeatherTag::Cloud));
    assert!(!r.contains(WeatherTag::Rain));
    assert!(!r.contains(WeatherTag::Storm));
    assert!(!r.contains(WeatherTag::Fog));
    assert!(!r.contains(WeatherTag::Snow));
}

#[test]
fn parse_code_sleet_is_rain_and_snow() {
    let r = WeatherTag::parse_code(9).unwrap();
    assert!(r.contains(WeatherTag::Rain));
    assert!(r.contains(WeatherTag::Snow));
    assert!(!r.contains(WeatherTag::Sun));
}

#[test]
fn parse_unknown_code_fails() {
    let r = WeatherTag::parse_code(999);
    assert_eq!(r.unwrap_err(), Error::ConditionLookupFail);
}

#[test]
fn synonyms_of_sun() {
    let syns = WeatherTag::Sun.synonyms();
    assert_eq!(syns, vec![String::from("Sun"), String::from("Clear")]);
}

#[test]
fn all_lists_seven_tags_once() {
    let all = WeatherTag::all();
    assert_eq!(all.len(), 7);
    for (i, a) in all.iter().enumerate() {
        for (j, b) in all.iter().enumerate() {
            if i != j {
                assert!(a != b);
            }
        }
    }
}

#[test]
fn tag_set_insert_and_count() {
    let mut a = TagSet::empty();
    assert!(a.is_empty());
    a.insert(WeatherTag::Sun);
    a.insert(WeatherTag::Rain);
    a.insert(WeatherTag::Sun);
    assert!(a.contains(WeatherTag::Sun));
    assert!(a.contains(WeatherTag::Rain));
    assert!(!a.contains(WeatherTag::Fog));
    assert!(!a.is_empty());

    let b = TagSet::from_tags(&vec![WeatherTag::Sun, WeatherTag::Fog, WeatherTag::Sun]);
    assert_eq!(a.count_common(&b), 1);
    assert_eq!(b.count_common(&b), 2);
    assert_eq!(TagSet::empty().count_common(&a), 0);
}

#[test]
fn weather_default_is_untagged_day() {
    let w = Weather::default();
    assert!(w.tags().is_empty());
    assert_eq!(w.is_day(), Some(true));
}

#[test]
fn weather_setters() {
    let mut w = Weather::default();
    w.set_is_day(None);
    assert_eq!(w.is_day(), None);
    w.set_tags(TagSet::from_tags(&vec![WeatherTag::Storm]));
    assert!(w.tags().contains(WeatherTag::Storm));
    assert_eq!(w.is_day(), None);
}

#[test]
fn current_weather_from_provider_data() {
    let data = WeatherData::new(String::from("Sunny"), 0, true);
    assert_eq!(data.text(), String::from("Sunny"));
    assert_eq!(data.code(), 0);
    assert!(data.is_day());
    let w = get_current_weather(&data).unwrap();
    assert!(w.tags().contains(WeatherTag::Sun));
    assert_eq!(w.is_day(), Some(true));
}

#[test]
fn current_weather_unknown_condition_fails() {
    let data = WeatherData::new(String::from("Sandstorm"), 12345, false);
    let r = get_current_weather(&data);
    assert_eq!(r.unwrap_err(), Error::ConditionLookupFail);
}
