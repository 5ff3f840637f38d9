//! The weather model, the cache's logic and the Open-Meteo mapping.

use asciiweather::config::Config;
use asciiweather::error::AppError;
use asciiweather::weather::cache::{humanize_age, slug, slug_of_lowered, trimmed, Cache, Entry};
use asciiweather::weather::model::{parse_units, timestamps_fit};
use asciiweather::weather::open_meteo::{
    build_forecast, classify, decode_wmo, encode, first_location, forecast_url, geocode_url, malformed_response,
    normalize, wind_direction, Current, Daily, ForecastResponse, GeocodeHit, GeocodeResponse, Hourly,
};
use asciiweather::weather::{Intensity, Location, Units, WeatherCondition, WeatherData};

fn sample() -> WeatherData {
    WeatherData {
        location: Location {
            name: "Chennai".into(),
            country: "India".into(),
            latitude: 130_878_400,
            longitude: 802_784_700,
        },
        observed_at: "2026-08-20T14:15".into(),
        temperature: 27_300,
        feels_like: 32_700,
        humidity: 87,
        wind_speed: 14_000,
        wind_direction: 225,
        cloud_cover: 92,
        precipitation: 1_400,
        precipitation_probability: Some(72),
        condition: WeatherCondition::Rain,
        intensity: Intensity::Moderate,
        sunrise: Some("2026-08-20T05:56".into()),
        sunset: Some("2026-08-20T18:22".into()),
        units: Units::Metric,
        forecast: vec![],
    }
}

#[test]
fn fresh_within_ttl_and_stale_after() {
    let entry = Entry { fetched_at: 1_000, data: sample() };
    assert!(entry.is_fresh(1_400, 600));
    assert!(!entry.is_fresh(1_600, 600));
    assert_eq!(entry.age_seconds(1_420), 420);
}

#[test]
fn clock_going_backwards_does_not_panic() {
    let entry = Entry { fetched_at: 5_000, data: sample() };
    assert_eq!(entry.age_seconds(1_000), 0);
}

#[test]
fn slugs_are_filesystem_safe() {
    assert_eq!(slug("New York"), "new-york");
    assert_eq!(slug(" ../../etc/passwd "), "------etc-passwd");
    assert_eq!(slug("São Paulo"), "s-o-paulo");
    assert_eq!(slug(""), "-");
    assert!(slug(&"x".repeat(500)).len() <= 64);
}

#[test]
fn trimming_drops_unicode_whitespace_only_at_the_ends() {
    assert_eq!(trimmed("\u{3000} a b\t\n"), vec![' ', 'a', ' ', 'b'][1..].to_vec());
    assert_eq!(trimmed("   "), Vec::<char>::new());
}

#[test]
fn cache_files_are_named_by_slug_and_units() {
    let cache = Cache::new("/home/me/.cache/asciiweather".into());
    assert_eq!(cache.path_for("Chennai", Units::Metric), "/home/me/.cache/asciiweather/chennai.m.json");
    assert_eq!(cache.path_for("New York", Units::Imperial), "/home/me/.cache/asciiweather/new-york.i.json");
    assert_eq!(Cache::new("dir/".into()).path_for("x", Units::Metric), "dir/x.m.json");
    assert_eq!(Cache::new(String::new()).path_for("x", Units::Metric), "x.m.json");
}

#[test]
fn ages_read_naturally() {
    assert_eq!(humanize_age(20), "just now");
    assert_eq!(humanize_age(60), "1 minute ago");
    assert_eq!(humanize_age(420), "7 minutes ago");
    assert_eq!(humanize_age(7_200), "2 hours ago");
    assert_eq!(humanize_age(200_000), "2 days ago");
}

#[test]
fn wmo_codes_map_to_conditions_and_intensity() {
    assert_eq!(decode_wmo(0).0, WeatherCondition::Clear);
    assert_eq!(decode_wmo(3).0, WeatherCondition::Cloudy);
    assert_eq!(decode_wmo(45).0, WeatherCondition::Fog);
    assert_eq!(decode_wmo(65), (WeatherCondition::HeavyRain, Intensity::Heavy));
    assert_eq!(decode_wmo(75), (WeatherCondition::HeavySnow, Intensity::Heavy));
    assert_eq!(decode_wmo(95).0, WeatherCondition::Thunderstorm);
    assert_eq!(decode_wmo(1234).0, WeatherCondition::Unknown);
}

#[test]
fn encodes_query_values() {
    assert_eq!(encode("New York"), "New+York");
    assert_eq!(encode("São Paulo"), "S%C3%A3o+Paulo");
}

#[test]
fn the_requests_name_what_they_ask_for() {
    assert_eq!(
        geocode_url("  São Paulo "),
        "https://geocoding-api.open-meteo.com/v1/search?name=S%C3%A3o+Paulo&count=1&language=en&format=json"
    );
    let url = forecast_url("13.0878", "80.2785", Units::Imperial);
    assert!(url.starts_with("https://api.open-meteo.com/v1/forecast?latitude=13.0878&longitude=80.2785&current="));
    assert!(url.contains("&forecast_days=5&timezone=auto&temperature_unit=fahrenheit"));
    assert!(forecast_url("1", "2", Units::Metric).ends_with("&forecast_days=5&timezone=auto"));
}

#[test]
fn failures_are_classified_for_the_user() {
    assert_eq!(
        classify(Some(503), "x".into()),
        AppError::Service("weather service returned HTTP 503".into())
    );
    assert_eq!(classify(None, "dns failure".into()), AppError::Network("dns failure".into()));
    assert_eq!(malformed_response("eof"), AppError::Service("malformed response: eof".into()));
}

#[test]
fn geocoding_takes_the_first_hit() {
    let body = GeocodeResponse {
        results: vec![
            GeocodeHit { name: "Chennai".into(), country: None, latitude: 130_878_400, longitude: 802_784_700 },
            GeocodeHit { name: "Other".into(), country: Some("X".into()), latitude: 0, longitude: 0 },
        ],
    };
    let loc = first_location(&body).unwrap();
    assert_eq!(loc.name, "Chennai");
    assert_eq!(loc.country, "");
    assert_eq!(loc.latitude, 130_878_400);
    assert!(first_location(&GeocodeResponse { results: vec![] }).is_none());
}

fn reply(time: &str) -> ForecastResponse {
    ForecastResponse {
        current: Current {
            time: time.into(),
            temperature_2m: 27_300,
            relative_humidity_2m: 87,
            apparent_temperature: 32_700,
            precipitation: 1_400,
            weather_code: 63,
            cloud_cover: 92,
            wind_speed_10m: 14_000,
            wind_direction_10m: 224_600,
        },
        hourly: Some(Hourly {
            time: vec!["2026-08-20T13:00".into(), "2026-08-20T14:00".into()],
            precipitation_probability: vec![Some(10), Some(72)],
        }),
        daily: Some(Daily {
            time: vec!["2026-08-20".into(), "2026-08-21".into(), "2026-08-22".into(), "2026-08-23".into()],
            weather_code: vec![63, 80, 95],
            temperature_2m_max: vec![35_000, 36_000, 37_000, 38_000],
            temperature_2m_min: vec![26_000, 25_000, 24_000],
            sunrise: vec!["2026-08-20T05:56".into()],
            sunset: vec!["2026-08-20T18:22".into()],
            precipitation_probability_max: vec![Some(85)],
        }),
    }
}

#[test]
fn normalizes_forecast_response() {
    let location = sample().location;
    let data = normalize(reply("2026-08-20T14:15"), location.clone(), Units::Metric);
    assert_eq!(data.location, location);
    assert_eq!(data.condition, WeatherCondition::Rain);
    assert_eq!(data.intensity, Intensity::Moderate);
    assert_eq!(data.humidity, 87);
    assert_eq!(data.wind_direction, 225);
    assert_eq!(data.precipitation_probability, Some(72));
    assert_eq!(data.sunrise.as_deref(), Some("2026-08-20T05:56"));
    assert_eq!(data.sunset.as_deref(), Some("2026-08-20T18:22"));
    assert_eq!(data.forecast.len(), 3);
    assert_eq!(data.forecast[0].precipitation_probability, Some(85));
    assert_eq!(data.forecast[1].precipitation_probability, None);
    assert_eq!(data.forecast[2].condition, WeatherCondition::Thunderstorm);
    assert_eq!(data.wind_cardinal(), "SW");
    assert!(!data.is_night());

    // A reading from another day gets no sunrise, and an odd hour no chance.
    let other = normalize(reply("2026-08-21T09:00"), location, Units::Metric);
    assert!(other.sunrise.is_none() && other.sunset.is_none());
    assert_eq!(other.precipitation_probability, None);
}

#[test]
fn a_reply_without_series_still_normalizes() {
    let mut body = reply("2026-08-20T14");
    body.hourly = None;
    body.daily = None;
    let data = normalize(body, sample().location, Units::Imperial);
    assert!(data.forecast.is_empty() && data.sunrise.is_none());
    assert_eq!(data.precipitation_probability, None);
    assert_eq!(data.units, Units::Imperial);
}

#[test]
fn the_outlook_stops_at_the_shortest_series() {
    let daily = reply("x").daily.unwrap();
    assert_eq!(build_forecast(&daily).len(), 3);
}

#[test]
fn wind_directions_round_and_wrap() {
    assert_eq!(wind_direction(224_600), 225);
    assert_eq!(wind_direction(359_500), 0);
    assert_eq!(wind_direction(-5_000), 0);
    assert_eq!(wind_direction(90_400), 90);
    assert_eq!(wind_direction(10_000_000_000), 65_535 % 360);
}

#[test]
fn units_parse_case_insensitively() {
    assert_eq!(parse_units("Celsius"), Ok(Units::Metric));
    assert_eq!(parse_units("F"), Ok(Units::Imperial));
    assert_eq!(parse_units("Kelvin"), Err("unknown units `kelvin` (expected metric or imperial)".to_string()));
    assert_eq!(Units::Metric.temp_symbol(), "°C");
    assert_eq!(Units::Imperial.wind_symbol(), "mph");
}

#[test]
fn night_and_labels_come_from_the_reading() {
    let mut w = sample();
    assert!(!w.is_night());
    w.observed_at = "2026-08-20T22:10".into();
    assert!(w.is_night());
    w.observed_at = "2026-08-21T03:00".into();
    assert!(!w.is_night(), "another day's sunrise says nothing");
    assert!(timestamps_fit(&w));
    assert_eq!(w.location.label(), "Chennai, India");
    w.location.country = String::new();
    assert_eq!(w.location.label(), "Chennai");
    assert_eq!(WeatherCondition::PartlyCloudy.label(), "Partly Cloudy");
    assert!(WeatherCondition::Thunderstorm.is_rainy() && !WeatherCondition::Fog.is_snowy());
    w.wind_direction = 0;
    assert_eq!(w.wind_cardinal(), "N");
    w.wind_direction = 338;
    assert_eq!(w.wind_cardinal(), "N");
    w.wind_direction = 90;
    assert_eq!(w.wind_cardinal(), "E");
}

#[test]
fn defaults_are_sensible() {
    let config = Config::default();
    assert_eq!(config.units(), Units::Metric);
    assert_eq!(config.ttl_seconds(), 600);
    assert_eq!(config.width(), None);
    assert!(config.general.location.is_none());
}

#[test]
fn set_validates_values() {
    let mut config = Config::default();
    config.set("location", "New York").unwrap();
    config.set("units", "F").unwrap();
    config.set("width", "auto").unwrap();
    assert_eq!(config.general.location.as_deref(), Some("New York"));
    assert_eq!(config.general.units, "imperial");

    assert!(config.set("units", "kelvin").is_err());
    assert!(config.set("width", "wide").is_err());
    assert!(config.set("ttl_minutes", "soon").is_err());
    assert!(config.set("nonsense", "1").is_err());
}

#[test]
fn set_explains_what_it_refused() {
    let mut config = Config::default();
    assert_eq!(
        config.set("width", "wide"),
        Err(AppError::Config("`wide` is not a valid width (auto or a column count)".into()))
    );
    assert_eq!(
        config.set("nonsense", "1"),
        Err(AppError::Config("unknown setting `nonsense` (try: location, units, color, width, ttl_minutes)".into()))
    );
    assert_eq!(config, Config::default());
    config.set("width", "60").unwrap();
    config.set("color", "false").unwrap();
    config.set("ttl_minutes", "30").unwrap();
    assert_eq!(config.width(), Some(60));
    assert!(!config.render.color);
    assert_eq!(config.ttl_seconds(), 1_800);
    config.set("ttl_minutes", "18446744073709551615").unwrap();
    assert_eq!(config.ttl_seconds(), u64::MAX);
    assert!(config.set("ttl_minutes", "18446744073709551616").is_err());
    assert!(config.set("color", "True").is_err());
}

#[test]
fn entries_list_every_setting() {
    let config = Config::default();
    let entries = config.entries();
    assert_eq!(
        entries,
        vec![
            ("location", "—".to_string()),
            ("units", "metric".to_string()),
            ("color", "true".to_string()),
            ("width", "auto".to_string()),
            ("ttl_minutes", "10".to_string()),
        ]
    );
}

#[test]
fn day_cuts_matter_only_with_both_sun_times() {
    let mut w = sample();
    w.observed_at = "2026-08-2é:00".into();
    assert!(!timestamps_fit(&w));
    w.sunset = None;
    assert!(timestamps_fit(&w));
    assert!(!w.is_night());
    w.sunset = Some("2026-08-20T18:22".into());
    w.sunrise = None;
    assert!(timestamps_fit(&w));
    assert!(!w.is_night());
    w.sunrise = Some("short".into());
    assert!(timestamps_fit(&w));
    assert!(!w.is_night());
}

#[test]
fn lowered_queries_become_dashed_keys() {
    assert_eq!(slug_of_lowered("new york"), "new-york");
    assert_eq!(slug_of_lowered("são paulo"), "s-o-paulo");
    assert_eq!(slug_of_lowered("MiXed"), "MiXed");
    assert_eq!(slug_of_lowered(""), "-");
    assert_eq!(slug_of_lowered(&"ab".repeat(40)), "ab".repeat(32));
}
