//! Open-Meteo's side of things: the query values, the condition codes and
//! what a forecast reply turns into. Sending the requests and decoding the
//! JSON happen elsewhere; this module gets the decoded reply as plain values.
//!
//! Measured quantities arrive in thousandths, coordinates in ten-millionths
//! of a degree, as everywhere in the model.

use vstd::prelude::*;
use vstd::string::StringSliceAdditionalSpecFns;
use crate::error::AppError;
use crate::text::{decimal, push_char, push_decimal, string_of};
use crate::weather::cache::{trim, trimmed};
use crate::weather::model::{
    DailyForecast, Intensity, Location, Units, WeatherCondition, WeatherData, utf8, rainy, snowy,
};

verus! {

/// Days of outlook asked for.
pub const FORECAST_DAYS: usize = 5;

/// One geocoding hit.
#[derive(Debug, Clone)]
pub struct GeocodeHit {
    pub name: String,
    pub country: Option<String>,
    /// Degrees north, in ten-millionths.
    pub latitude: i64,
    /// Degrees east, in ten-millionths.
    pub longitude: i64,
}

/// The geocoding reply; a miss has no results.
#[derive(Debug, Clone)]
pub struct GeocodeResponse {
    pub results: Vec<GeocodeHit>,
}

/// The current conditions of a forecast reply.
#[derive(Debug, Clone)]
pub struct Current {
    pub time: String,
    /// Thousandths of a degree.
    pub temperature_2m: i64,
    pub relative_humidity_2m: u8,
    /// Thousandths of a degree.
    pub apparent_temperature: i64,
    /// Thousandths of a mm (or inch).
    pub precipitation: i64,
    pub weather_code: u16,
    pub cloud_cover: u8,
    /// Thousandths of a km/h (or mph).
    pub wind_speed_10m: i64,
    /// Thousandths of a degree.
    pub wind_direction_10m: i64,
}

/// The hourly series of a forecast reply.
#[derive(Debug, Clone)]
pub struct Hourly {
    pub time: Vec<String>,
    pub precipitation_probability: Vec<Option<u8>>,
}

/// The daily series of a forecast reply; a missing series is empty.
#[derive(Debug, Clone)]
pub struct Daily {
    pub time: Vec<String>,
    pub weather_code: Vec<u16>,
    /// Thousandths of a degree.
    pub temperature_2m_max: Vec<i64>,
    /// Thousandths of a degree.
    pub temperature_2m_min: Vec<i64>,
    pub sunrise: Vec<String>,
    pub sunset: Vec<String>,
    pub precipitation_probability_max: Vec<Option<u8>>,
}

#[derive(Debug, Clone)]
pub struct ForecastResponse {
    pub current: Current,
    pub hourly: Option<Hourly>,
    pub daily: Option<Daily>,
}

/// A byte that goes into a query value as it is.
pub open spec fn unreserved(b: u8) -> bool {
    (65 <= b <= 90) || (97 <= b <= 122) || (48 <= b <= 57) || b == 45 || b == 95 || b == 46
        || b == 126
}

/// An upper-case hexadecimal digit.
pub open spec fn hex_digit(d: int) -> char {
    if d < 10 {
        (48 + d) as char
    } else {
        (55 + d) as char
    }
}

/// Minimal percent-encoding: unreserved bytes kept, a space as `+`, any
/// other byte as `%` and two upper-case hex digits.
pub open spec fn encode_bytes(bytes: Seq<u8>) -> Seq<char>
    decreases bytes.len(),
{
    if bytes.len() == 0 {
        Seq::empty()
    } else {
        let b = bytes.last();
        encode_bytes(bytes.drop_last()) + if unreserved(b) {
            seq![b as char]
        } else if b == 32 {
            seq!['+']
        } else {
            seq!['%', hex_digit(b as int / 16), hex_digit(b as int % 16)]
        }
    }
}

fn hex(d: u8) -> (c: char)
    requires
        d < 16,
    ensures
        c == hex_digit(d as int),
{
    if d < 10 {
        (48u8 + d) as char
    } else {
        (55u8 + d) as char
    }
}

/// Minimal percent-encoding for a query-string value.
pub fn encode(value: &str) -> (out: String)
    ensures
        out@ == encode_bytes(utf8(value@)),
{
    let bytes = value.as_bytes();
    let mut out = String::new();
    let mut i: usize = 0;
    while i < bytes.len()
        invariant
            i <= bytes@.len(),
            bytes@ == utf8(value@),
            out@ == encode_bytes(bytes@.take(i as int)),
        decreases bytes.len() - i,
    {
        let b = bytes[i];
        let ghost before = out@;
        assert(bytes@.take(i as int + 1).drop_last() =~= bytes@.take(i as int));
        assert(bytes@.take(i as int + 1).last() == b);
        if (65 <= b && b <= 90) || (97 <= b && b <= 122) || (48 <= b && b <= 57) || b == 45 || b
            == 95 || b == 46 || b == 126 {
            push_char(&mut out, b as char);
            assert(out@ =~= before + seq![b as char]);
        } else if b == 32 {
            push_char(&mut out, '+');
            assert(out@ =~= before + seq!['+']);
        } else {
            push_char(&mut out, '%');
            push_char(&mut out, hex(b / 16));
            push_char(&mut out, hex(b % 16));
            assert(out@ =~= before + seq!['%', hex_digit(b as int / 16), hex_digit(b as int % 16)]);
        }
        i += 1;
    }
    assert(bytes@.take(bytes@.len() as int) =~= bytes@);
    out
}

/// The geocoding request for a place name: its trimmed text, encoded, as
/// the `name` of a one-result English JSON search.
pub open spec fn geocode_url_spec(query: Seq<char>) -> Seq<char> {
    "https://geocoding-api.open-meteo.com/v1/search?name="@ + encode_bytes(utf8(trim(query))) + "&count=1&language=en&format=json"@
}

pub fn geocode_url(query: &str) -> (url: String)
    ensures
        url@ == geocode_url_spec(query@),
{
    let t = trimmed(query);
    let ts = string_of(t.as_slice());
    let mut url = String::from_str("https://geocoding-api.open-meteo.com/v1/search?name=");
    url.append(encode(ts.as_str()).as_str());
    url.append("&count=1&language=en&format=json");
    url
}

/// The extra query parameters that ask for imperial units.
pub open spec fn unit_params_text(u: Units) -> Seq<char> {
    match u {
        Units::Metric => ""@,
        Units::Imperial => "&temperature_unit=fahrenheit&wind_speed_unit=mph&precipitation_unit=inch"@,
    }
}

pub fn unit_params(units: Units) -> (s: &'static str)
    ensures
        s@ == unit_params_text(units),
{
    match units {
        Units::Metric => "",
        Units::Imperial => "&temperature_unit=fahrenheit&wind_speed_unit=mph&precipitation_unit=inch",
    }
}

/// The forecast request for a place, given its coordinates as text with
/// four decimals: current conditions, the hourly chance of precipitation and
/// a five-day daily outlook, in the place's own time zone.
pub open spec fn forecast_url_spec(latitude: Seq<char>, longitude: Seq<char>, u: Units) -> Seq<char> {
    "https://api.open-meteo.com/v1/forecast?latitude="@ + latitude + "&longitude="@ + longitude
        + "&current=temperature_2m,relative_humidity_2m,apparent_temperature,precipitation,weather_code,cloud_cover,wind_speed_10m,wind_direction_10m&hourly=precipitation_probability&daily=weather_code,temperature_2m_max,temperature_2m_min,sunrise,sunset,precipitation_probability_max&forecast_days="@
        + decimal(FORECAST_DAYS as nat) + "&timezone=auto"@ + unit_params_text(u)
}

pub fn forecast_url(latitude: &str, longitude: &str, units: Units) -> (url: String)
    ensures
        url@ == forecast_url_spec(latitude@, longitude@, units),
{
    let mut url = String::from_str("https://api.open-meteo.com/v1/forecast?latitude=");
    url.append(latitude);
    url.append("&longitude=");
    url.append(longitude);
    url.append("&current=temperature_2m,relative_humidity_2m,apparent_temperature,precipitation,weather_code,cloud_cover,wind_speed_10m,wind_direction_10m&hourly=precipitation_probability&daily=weather_code,temperature_2m_max,temperature_2m_min,sunrise,sunset,precipitation_probability_max&forecast_days=");
    push_decimal(&mut url, FORECAST_DAYS as u64);
    url.append("&timezone=auto");
    url.append(unit_params(units));
    url
}

/// The place of the first geocoding hit, if any; an unknown country is empty.
pub fn first_location(body: &GeocodeResponse) -> (loc: Option<Location>)
    ensures
        body.results@.len() == 0 <==> loc is None,
        loc matches Some(l) ==> {
            let hit = body.results@[0];
            &&& l.name@ == hit.name@
            &&& l.country@ == (match hit.country {
                Some(c) => c@,
                None => Seq::<char>::empty(),
            })
            &&& l.latitude == hit.latitude
            &&& l.longitude == hit.longitude
        },
{
    if body.results.len() == 0 {
        return None;
    }
    let hit = &body.results[0];
    let country = match &hit.country {
        Some(c) => c.clone(),
        None => String::new(),
    };
    Some(Location {
        name: hit.name.clone(),
        country,
        latitude: hit.latitude,
        longitude: hit.longitude,
    })
}

/// A failed request as the user hears of it: an HTTP status is the service
/// answering badly (`weather service returned HTTP 503`); anything else is
/// the network, with the transport's own message as detail.
pub fn classify(status: Option<u16>, message: String) -> (e: AppError)
    ensures
        match status {
            Some(code) => e matches AppError::Service(m) && m@ == "weather service returned HTTP "@
                + decimal(code as nat),
            None => e matches AppError::Network(m) && m@ == message@,
        },
{
    match status {
        Some(code) => {
            let mut m = String::from_str("weather service returned HTTP ");
            push_decimal(&mut m, code as u64);
            AppError::Service(m)
        },
        None => AppError::Network(message),
    }
}

/// A reply that arrived but could not be read.
pub fn malformed_response(detail: &str) -> (e: AppError)
    ensures
        e matches AppError::Service(m) && m@ == "malformed response: "@ + detail@,
{
    let mut m = String::from_str("malformed response: ");
    m.append(detail);
    AppError::Service(m)
}

/// WMO 4677 weather code -> our condition vocabulary.
pub open spec fn wmo(code: u16) -> (WeatherCondition, Intensity) {
    if code == 0 || code == 1 {
        (WeatherCondition::Clear, Intensity::Light)
    } else if code == 2 {
        (WeatherCondition::PartlyCloudy, Intensity::Light)
    } else if code == 3 {
        (WeatherCondition::Cloudy, Intensity::Moderate)
    } else if code == 45 || code == 48 {
        (WeatherCondition::Fog, Intensity::Moderate)
    } else if code == 51 || code == 56 {
        (WeatherCondition::Drizzle, Intensity::Light)
    } else if code == 53 {
        (WeatherCondition::Drizzle, Intensity::Moderate)
    } else if code == 55 || code == 57 {
        (WeatherCondition::Drizzle, Intensity::Heavy)
    } else if code == 61 || code == 66 || code == 80 {
        (WeatherCondition::Rain, Intensity::Light)
    } else if code == 63 {
        (WeatherCondition::Rain, Intensity::Moderate)
    } else if code == 81 {
        (WeatherCondition::Rain, Intensity::Heavy)
    } else if code == 65 || code == 67 || code == 82 {
        (WeatherCondition::HeavyRain, Intensity::Heavy)
    } else if code == 71 || code == 77 || code == 85 {
        (WeatherCondition::Snow, Intensity::Light)
    } else if code == 73 {
        (WeatherCondition::Snow, Intensity::Moderate)
    } else if code == 75 || code == 86 {
        (WeatherCondition::HeavySnow, Intensity::Heavy)
    } else if code == 95 {
        (WeatherCondition::Thunderstorm, Intensity::Moderate)
    } else if code == 96 || code == 99 {
        (WeatherCondition::Thunderstorm, Intensity::Heavy)
    } else {
        (WeatherCondition::Unknown, Intensity::Moderate)
    }
}

/// WMO 4677 weather code -> our condition vocabulary.
pub fn decode_wmo(code: u16) -> (r: (WeatherCondition, Intensity))
    ensures
        r == wmo(code),
{
    match code {
        0 | 1 => (WeatherCondition::Clear, Intensity::Light),
        2 => (WeatherCondition::PartlyCloudy, Intensity::Light),
        3 => (WeatherCondition::Cloudy, Intensity::Moderate),
        45 | 48 => (WeatherCondition::Fog, Intensity::Moderate),
        51 | 56 => (WeatherCondition::Drizzle, Intensity::Light),
        53 => (WeatherCondition::Drizzle, Intensity::Moderate),
        55 | 57 => (WeatherCondition::Drizzle, Intensity::Heavy),
        61 | 66 | 80 => (WeatherCondition::Rain, Intensity::Light),
        63 => (WeatherCondition::Rain, Intensity::Moderate),
        81 => (WeatherCondition::Rain, Intensity::Heavy),
        65 | 67 | 82 => (WeatherCondition::HeavyRain, Intensity::Heavy),
        71 | 77 | 85 => (WeatherCondition::Snow, Intensity::Light),
        73 => (WeatherCondition::Snow, Intensity::Moderate),
        75 | 86 => (WeatherCondition::HeavySnow, Intensity::Heavy),
        95 => (WeatherCondition::Thunderstorm, Intensity::Moderate),
        96 | 99 => (WeatherCondition::Thunderstorm, Intensity::Heavy),
        _ => (WeatherCondition::Unknown, Intensity::Moderate),
    }
}

/// The wind direction in whole degrees: rounded half away from zero, held
/// to `0..=65535` as a cast to `u16` does, then taken modulo 360.
pub open spec fn wind_degrees(milli: int) -> int {
    let r = if milli >= 0 {
        (milli + 500) / 1000
    } else {
        -((-milli + 500) / 1000)
    };
    let c = if r < 0 {
        0
    } else if r > 65535 {
        65535
    } else {
        r
    };
    c % 360
}

pub fn wind_direction(milli: i64) -> (d: u16)
    ensures
        d == wind_degrees(milli as int),
        d < 360,
{
    let m = milli as i128;
    let r: i128 = if m >= 0 {
        (m + 500) / 1000
    } else {
        -((-m + 500) / 1000)
    };
    let c: u16 = if r < 0 {
        0
    } else if r > 65535 {
        65535
    } else {
        r as u16
    };
    c % 360
}


/// Whether `a` begins with the bytes `p`, as `str::starts_with` tests.
pub open spec fn starts_with_bytes(a: Seq<u8>, p: Seq<u8>) -> bool {
    p.len() <= a.len() && a.take(p.len() as int) == p
}

pub fn starts_with(a: &str, p: &str) -> (r: bool)
    ensures
        r == starts_with_bytes(utf8(a@), utf8(p@)),
{
    let x = a.as_bytes();
    let y = p.as_bytes();
    if y.len() > x.len() {
        return false;
    }
    let mut i: usize = 0;
    while i < y.len()
        invariant
            i <= y@.len() <= x@.len(),
            x@ == utf8(a@),
            y@ == utf8(p@),
            forall|j: int| 0 <= j < i ==> x@[j] == y@[j],
        decreases y.len() - i,
    {
        if x[i] != y[i] {
            assert(x@.take(y@.len() as int)[i as int] != y@[i as int]);
            return false;
        }
        i += 1;
    }
    assert(x@.take(y@.len() as int) =~= y@);
    true
}

/// The first index from `i` on whose text begins with `key`.
pub open spec fn first_from(times: Seq<String>, key: Seq<u8>, i: int) -> Option<int>
    decreases times.len() - i,
{
    if i < 0 || i >= times.len() {
        None
    } else if starts_with_bytes(utf8(times[i]@), key) {
        Some(i)
    } else {
        first_from(times, key, i + 1)
    }
}

/// The first thirteen bytes of a timestamp (`YYYY-MM-DDTHH`), when it has
/// them and they end on a character boundary.
pub open spec fn hour_key(time: Seq<char>) -> Option<Seq<u8>> {
    if utf8(time).len() >= 13 && vstd::utf8::is_char_boundary(utf8(time), 13) {
        Some(utf8(time).take(13))
    } else {
        None
    }
}

/// The hourly chance of precipitation for the hour of `time`: the series
/// is aligned to whole hours, the current reading is not.
pub open spec fn hour_chance(hourly: Option<Hourly>, time: Seq<char>) -> Option<u8> {
    match (hourly, hour_key(time)) {
        (Some(h), Some(key)) => match first_from(h.time@, key, 0) {
            Some(j) => if j < h.precipitation_probability@.len() {
                h.precipitation_probability@[j]
            } else {
                None
            },
            None => None,
        },
        _ => None,
    }
}

fn hourly_chance(hourly: &Option<Hourly>, time: &String) -> (r: Option<u8>)
    ensures
        r == hour_chance(*hourly, time@),
{
    match hourly {
        None => None,
        Some(h) => {
            let t = time.as_str();
            assert(t.spec_bytes() == utf8(time@));
            let n = t.as_bytes().len();
            if n < 13 {
                return None;
            }
            let ok = t.is_char_boundary(13);
            if !ok {
                return None;
            }
            let (hour, _) = t.split_at(13);
            assert(utf8(hour@) == utf8(time@).take(13));
            let mut j: usize = 0;
            while j < h.time.len()
                invariant
                    j <= h.time@.len(),
                    *hourly == Some(*h),
                    utf8(hour@) == utf8(time@).take(13),
                    hour_key(time@) == Some(utf8(hour@)),
                    first_from(h.time@, utf8(hour@), 0) == first_from(h.time@, utf8(hour@), j as int),
                decreases h.time.len() - j,
            {
                if starts_with(h.time[j].as_str(), hour) {
                    assert(first_from(h.time@, utf8(hour@), j as int) == Some(j as int));
                    return if j < h.precipitation_probability.len() {
                        h.precipitation_probability[j]
                    } else {
                        None
                    };
                }
                j += 1;
            }
            None
        },
    }
}

/// Whether the daily series starts on the day of `time`.
pub open spec fn starts_today(daily: Option<Daily>, time: Seq<char>) -> bool {
    match daily {
        Some(d) => d.time@.len() > 0 && starts_with_bytes(utf8(time), utf8(d.time@[0]@)),
        None => false,
    }
}

/// The first entry of a series, when the series starts today.
pub open spec fn today_value(daily: Option<Daily>, time: Seq<char>, series: Seq<String>) -> Option<Seq<char>> {
    if starts_today(daily, time) && series.len() > 0 {
        Some(series[0]@)
    } else {
        None
    }
}

/// The number of days with a date, a code and both temperatures.
pub open spec fn complete_days(d: Daily) -> int {
    let a = d.time@.len() as int;
    let b = d.weather_code@.len() as int;
    let c = d.temperature_2m_max@.len() as int;
    let e = d.temperature_2m_min@.len() as int;
    let ab = if a < b { a } else { b };
    let ce = if c < e { c } else { e };
    if ab < ce { ab } else { ce }
}

/// Day `i` of the outlook, taken from the same position of every series.
pub open spec fn day_matches(f: DailyForecast, d: Daily, i: int) -> bool {
    &&& f.date@ == d.time@[i]@
    &&& f.condition == wmo(d.weather_code@[i]).0
    &&& f.temp_max == d.temperature_2m_max@[i]
    &&& f.temp_min == d.temperature_2m_min@[i]
    &&& f.precipitation_probability == if i < d.precipitation_probability_max@.len() {
        d.precipitation_probability_max@[i]
    } else {
        None
    }
}

/// The daily outlook: one entry per day that has a date, a code and both
/// temperatures, in order; a chance only where the series has one.
pub fn build_forecast(daily: &Daily) -> (out: Vec<DailyForecast>)
    ensures
        out@.len() == complete_days(*daily),
        forall|i: int| 0 <= i < out@.len() ==> day_matches(#[trigger] out@[i], *daily, i),
{
    let mut out: Vec<DailyForecast> = Vec::new();
    let mut i: usize = 0;
    while i < daily.time.len()
        invariant
            i <= daily.time@.len(),
            out@.len() == if i < complete_days(*daily) { i as int } else { complete_days(*daily) },
            forall|k: int| 0 <= k < out@.len() ==> day_matches(#[trigger] out@[k], *daily, k),
        decreases daily.time.len() - i,
    {
        if i < daily.weather_code.len() && i < daily.temperature_2m_max.len() && i
            < daily.temperature_2m_min.len() {
            let chance = if i < daily.precipitation_probability_max.len() {
                daily.precipitation_probability_max[i]
            } else {
                None
            };
            let day = DailyForecast {
                date: daily.time[i].clone(),
                condition: decode_wmo(daily.weather_code[i]).0,
                temp_max: daily.temperature_2m_max[i],
                temp_min: daily.temperature_2m_min[i],
                precipitation_probability: chance,
            };
            let ghost before = out@;
            out.push(day);
            assert(forall|k: int| 0 <= k < before.len() ==> out@[k] == before[k]);
        }
        i += 1;
    }
    out
}

/// Everything `normalize` takes from the reply, field by field.
pub open spec fn normalized(w: WeatherData, body: ForecastResponse, location: Location, units: Units) -> bool {
    let c = body.current;
    &&& w.location == location
    &&& w.observed_at@ == c.time@
    &&& w.temperature == c.temperature_2m
    &&& w.feels_like == c.apparent_temperature
    &&& w.humidity == c.relative_humidity_2m
    &&& w.wind_speed == c.wind_speed_10m
    &&& w.wind_direction == wind_degrees(c.wind_direction_10m as int)
    &&& w.cloud_cover == c.cloud_cover
    &&& w.precipitation == c.precipitation
    &&& w.precipitation_probability == hour_chance(body.hourly, c.time@)
    &&& (w.condition, w.intensity) == wmo(c.weather_code)
    &&& w.units == units
    &&& match body.daily {
        Some(d) => {
            &&& (match w.sunrise {
                Some(r) => today_value(body.daily, c.time@, d.sunrise@) == Some(r@),
                None => today_value(body.daily, c.time@, d.sunrise@) is None,
            })
            &&& (match w.sunset {
                Some(r) => today_value(body.daily, c.time@, d.sunset@) == Some(r@),
                None => today_value(body.daily, c.time@, d.sunset@) is None,
            })
            &&& w.forecast@.len() == complete_days(d)
            &&& forall|i: int| 0 <= i < w.forecast@.len() ==> day_matches(#[trigger] w.forecast@[i], d, i)
        },
        None => w.sunrise is None && w.sunset is None && w.forecast@.len() == 0,
    }
}

fn empty_daily() -> (d: Daily)
    ensures
        d.time@.len() == 0,
        d.weather_code@.len() == 0,
        d.temperature_2m_max@.len() == 0,
        d.temperature_2m_min@.len() == 0,
        d.sunrise@.len() == 0,
        d.sunset@.len() == 0,
        d.precipitation_probability_max@.len() == 0,
{
    Daily {
        time: Vec::new(),
        weather_code: Vec::new(),
        temperature_2m_max: Vec::new(),
        temperature_2m_min: Vec::new(),
        sunrise: Vec::new(),
        sunset: Vec::new(),
        precipitation_probability_max: Vec::new(),
    }
}

fn first_if(today: bool, series: &Vec<String>) -> (r: Option<String>)
    ensures
        match r {
            Some(s) => today && series@.len() > 0 && s@ == series@[0]@,
            None => !(today && series@.len() > 0),
        },
{
    if today && series.len() > 0 {
        Some(series[0].clone())
    } else {
        None
    }
}

/// A forecast reply as the program's own reading of the weather.
pub fn normalize(body: ForecastResponse, location: Location, units: Units) -> (w: WeatherData)
    ensures
        normalized(w, body, location, units),
{
    let ghost b = body;
    let (condition, intensity) = decode_wmo(body.current.weather_code);
    let precipitation_probability = hourly_chance(&body.hourly, &body.current.time);
    let today = match &body.daily {
        Some(d) => d.time.len() > 0 && starts_with(body.current.time.as_str(), d.time[0].as_str()),
        None => false,
    };
    assert(today == starts_today(b.daily, b.current.time@));
    let daily = match body.daily {
        Some(d) => d,
        None => empty_daily(),
    };
    let sunrise = first_if(today, &daily.sunrise);
    let sunset = first_if(today, &daily.sunset);
    let forecast = build_forecast(&daily);
    let current = body.current;
    let w = WeatherData {
        observed_at: current.time,
        temperature: current.temperature_2m,
        feels_like: current.apparent_temperature,
        humidity: current.relative_humidity_2m,
        wind_speed: current.wind_speed_10m,
        wind_direction: wind_direction(current.wind_direction_10m),
        cloud_cover: current.cloud_cover,
        precipitation: current.precipitation,
        precipitation_probability,
        condition,
        intensity,
        sunrise,
        sunset,
        units,
        forecast,
        location,
    };
    w
}

/// WMO 4677 codes of falling snow: snowfall (71, 73, 75), snow grains (77)
/// and snow showers (85, 86).
pub open spec fn wmo_snowfall(code: u16) -> bool {
    code == 71 || code == 73 || code == 75 || code == 77 || code == 85 || code == 86
}

/// WMO 4677 codes of falling rain: rain (61, 63, 65), freezing rain (66, 67)
/// and rain showers (80, 81, 82).
pub open spec fn wmo_rainfall(code: u16) -> bool {
    code == 61 || code == 63 || code == 65 || code == 66 || code == 67 || code == 80 || code == 81
        || code == 82
}

/// WMO 4677 codes of drizzle, freezing drizzle included.
pub open spec fn wmo_drizzle(code: u16) -> bool {
    code == 51 || code == 53 || code == 55 || code == 56 || code == 57
}

/// WMO 4677 codes of thunderstorms, with or without hail.
pub open spec fn wmo_thunder(code: u16) -> bool {
    code == 95 || code == 96 || code == 99
}

/// The slight grade of each WMO 4677 family of precipitation.
pub open spec fn wmo_slight(code: u16) -> bool {
    code == 51 || code == 56 || code == 61 || code == 66 || code == 71 || code == 77 || code == 80
        || code == 85
}

/// The moderate grade of drizzle, rain and snowfall.
pub open spec fn wmo_moderate(code: u16) -> bool {
    code == 53 || code == 63 || code == 73
}

/// The heavy (dense, violent) grade of each WMO 4677 family of
/// precipitation.
pub open spec fn wmo_heavy(code: u16) -> bool {
    code == 55 || code == 57 || code == 65 || code == 67 || code == 75 || code == 82 || code == 86
}

/// A WMO code decodes to what falls: snow codes to a snowy condition (heavy
/// snow exactly for the heavy grades), rain codes to rain (heavy rain
/// exactly for the heavy grades), drizzle to drizzle, thunder to a
/// thunderstorm, and nothing falls for any other code. The slight grades
/// read light, the moderate ones moderate and the heavy ones heavy (and
/// moderate rain showers, 81, heavy; hail makes a thunderstorm heavy).
/// Clear, partly cloudy, overcast and fog keep their WMO names; any other
/// code is unknown.
pub proof fn wmo_codes_keep_what_falls(code: u16)
    ensures
        wmo_snowfall(code) ==> snowy(wmo(code).0) && !rainy(wmo(code).0),
        wmo_snowfall(code) ==> (wmo(code).0 == WeatherCondition::HeavySnow <==> wmo_heavy(code)),
        wmo_rainfall(code) ==> (wmo(code).0 == WeatherCondition::Rain || wmo(code).0
            == WeatherCondition::HeavyRain),
        wmo_rainfall(code) ==> (wmo(code).0 == WeatherCondition::HeavyRain <==> wmo_heavy(code)),
        wmo_drizzle(code) ==> wmo(code).0 == WeatherCondition::Drizzle,
        wmo_thunder(code) ==> wmo(code).0 == WeatherCondition::Thunderstorm,
        !wmo_snowfall(code) && !wmo_rainfall(code) && !wmo_drizzle(code) && !wmo_thunder(code)
            ==> !rainy(wmo(code).0) && !snowy(wmo(code).0),
        wmo_slight(code) ==> wmo(code).1 == Intensity::Light,
        wmo_moderate(code) ==> wmo(code).1 == Intensity::Moderate,
        wmo_heavy(code) ==> wmo(code).1 == Intensity::Heavy,
        code == 81 ==> wmo(code).1 == Intensity::Heavy,
        code == 95 ==> wmo(code).1 == Intensity::Moderate,
        code == 96 || code == 99 ==> wmo(code).1 == Intensity::Heavy,
        code <= 1 ==> wmo(code) == (WeatherCondition::Clear, Intensity::Light),
        code == 2 ==> wmo(code) == (WeatherCondition::PartlyCloudy, Intensity::Light),
        code == 3 ==> wmo(code) == (WeatherCondition::Cloudy, Intensity::Moderate),
        code == 45 || code == 48 ==> wmo(code) == (WeatherCondition::Fog, Intensity::Moderate),
        !(code <= 3 || code == 45 || code == 48 || wmo_snowfall(code) || wmo_rainfall(code)
            || wmo_drizzle(code) || wmo_thunder(code)) ==> wmo(code) == (
        WeatherCondition::Unknown,
        Intensity::Moderate,
        ),
{
}

/// Whether `part` occurs in `text`.
pub open spec fn occurs_in(part: Seq<char>, text: Seq<char>) -> bool {
    exists|i: int| 0 <= i && i + part.len() <= text.len() && #[trigger] text.subrange(i, i + part.len()) == part
}

proof fn lemma_occurs_in_suffix(head: Seq<char>, tail: Seq<char>, part: Seq<char>, at: int)
    requires
        0 <= at,
        at + part.len() <= tail.len(),
        tail.subrange(at, at + part.len()) == part,
    ensures
        occurs_in(part, head + tail),
{
    let i = head.len() + at;
    assert((head + tail).subrange(i, i + part.len()) =~= tail.subrange(at, at + part.len()));
}

/// An imperial forecast request asks for every quantity the card labels in
/// imperial units (temperature, wind speed and precipitation); a metric one
/// asks for the service's own units and ends with the time zone. Either asks
/// for the place's latitude and longitude, in that order, and five days.
pub proof fn imperial_requests_ask_for_imperial_units(latitude: Seq<char>, longitude: Seq<char>, u: Units)
    ensures
        forecast_url_spec(latitude, longitude, u).take(48) == "https://api.open-meteo.com/v1/forecast?latitude="@,
        occurs_in("?latitude="@ + latitude + "&longitude="@ + longitude + "&"@, forecast_url_spec(latitude, longitude, u)),
        occurs_in("&forecast_days=5&timezone=auto"@, forecast_url_spec(latitude, longitude, u)),
        occurs_in("&temperature_unit=fahrenheit"@, forecast_url_spec(latitude, longitude, Units::Imperial)),
        occurs_in("&wind_speed_unit=mph"@, forecast_url_spec(latitude, longitude, Units::Imperial)),
        occurs_in("&precipitation_unit=inch"@, forecast_url_spec(latitude, longitude, Units::Imperial)),
        forecast_url_spec(latitude, longitude, Units::Metric).len() >= 14,
        forecast_url_spec(latitude, longitude, Units::Metric).subrange(
            forecast_url_spec(latitude, longitude, Units::Metric).len() - 14,
            forecast_url_spec(latitude, longitude, Units::Metric).len() as int,
        ) == "&timezone=auto"@,
{
    let url = forecast_url_spec(latitude, longitude, Units::Imperial);
    let params = unit_params_text(Units::Imperial);
    let base = "https://api.open-meteo.com/v1/forecast?latitude="@;
    let current = "&current=temperature_2m,relative_humidity_2m,apparent_temperature,precipitation,weather_code,cloud_cover,wind_speed_10m,wind_direction_10m&hourly=precipitation_probability&daily=weather_code,temperature_2m_max,temperature_2m_min,sunrise,sunset,precipitation_probability_max&forecast_days="@;
    let any = forecast_url_spec(latitude, longitude, u);
    reveal_strlit("https://api.open-meteo.com/v1/forecast?latitude=");
    reveal_strlit("?latitude=");
    reveal_strlit("&longitude=");
    reveal_strlit("&");
    reveal_strlit("&forecast_days=5&timezone=auto");
    reveal_strlit("&timezone=auto");
    reveal_strlit("&current=temperature_2m,relative_humidity_2m,apparent_temperature,precipitation,weather_code,cloud_cover,wind_speed_10m,wind_direction_10m&hourly=precipitation_probability&daily=weather_code,temperature_2m_max,temperature_2m_min,sunrise,sunset,precipitation_probability_max&forecast_days=");
    assert(decimal(5) =~= seq!['5']) by {
        reveal_with_fuel(decimal, 2);
    }
    let rest = "&longitude="@ + longitude + current + decimal(FORECAST_DAYS as nat) + "&timezone=auto"@
        + unit_params_text(u);
    assert(any =~= base + latitude + rest);
    assert(any.take(48) =~= base);
    let lead = "https://api.open-meteo.com/v1/forecast"@;
    reveal_strlit("https://api.open-meteo.com/v1/forecast");
    let coords = "?latitude="@ + latitude + "&longitude="@ + longitude + "&"@;
    let after = current.drop_first() + decimal(FORECAST_DAYS as nat) + "&timezone=auto"@ + unit_params_text(u);
    assert(any =~= lead + (coords + after));
    assert((coords + after).subrange(0, coords.len() as int) =~= coords);
    lemma_occurs_in_suffix(lead, coords + after, coords, 0);
    let front = base + latitude + "&longitude="@ + longitude + current.subrange(0, current.len() - 15);
    let days = "&forecast_days=5&timezone=auto"@;
    assert(current.subrange(current.len() - 15, current.len() as int) + decimal(FORECAST_DAYS as nat)
        + "&timezone=auto"@ =~= days);
    assert(any =~= front + (days + unit_params_text(u)));
    assert((days + unit_params_text(u)).subrange(0, days.len() as int) =~= days);
    lemma_occurs_in_suffix(front, days + unit_params_text(u), days, 0);
    let head = "https://api.open-meteo.com/v1/forecast?latitude="@ + latitude + "&longitude="@ + longitude
        + "&current=temperature_2m,relative_humidity_2m,apparent_temperature,precipitation,weather_code,cloud_cover,wind_speed_10m,wind_direction_10m&hourly=precipitation_probability&daily=weather_code,temperature_2m_max,temperature_2m_min,sunrise,sunset,precipitation_probability_max&forecast_days="@
        + decimal(FORECAST_DAYS as nat) + "&timezone=auto"@;
    assert(url == head + params);
    reveal_strlit("&temperature_unit=fahrenheit&wind_speed_unit=mph&precipitation_unit=inch");
    reveal_strlit("&temperature_unit=fahrenheit");
    reveal_strlit("&wind_speed_unit=mph");
    reveal_strlit("&precipitation_unit=inch");
    assert(params.subrange(0, 28) =~= "&temperature_unit=fahrenheit"@);
    lemma_occurs_in_suffix(head, params, "&temperature_unit=fahrenheit"@, 0);
    assert(params.subrange(28, 48) =~= "&wind_speed_unit=mph"@);
    lemma_occurs_in_suffix(head, params, "&wind_speed_unit=mph"@, 28);
    assert(params.subrange(48, 72) =~= "&precipitation_unit=inch"@);
    lemma_occurs_in_suffix(head, params, "&precipitation_unit=inch"@, 48);
    let m = forecast_url_spec(latitude, longitude, Units::Metric);
    let body = "https://api.open-meteo.com/v1/forecast?latitude="@ + latitude + "&longitude="@ + longitude
        + "&current=temperature_2m,relative_humidity_2m,apparent_temperature,precipitation,weather_code,cloud_cover,wind_speed_10m,wind_direction_10m&hourly=precipitation_probability&daily=weather_code,temperature_2m_max,temperature_2m_min,sunrise,sunset,precipitation_probability_max&forecast_days="@
        + decimal(FORECAST_DAYS as nat);
    reveal_strlit("&timezone=auto");
    reveal_strlit("");
    assert(m =~= body + "&timezone=auto"@);
    assert(m.subrange(m.len() - 14, m.len() as int) =~= "&timezone=auto"@);
}

} // verus!
