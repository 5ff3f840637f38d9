//! Normalized weather domain model.
//!
//! Nothing in here knows about HTTP, JSON shapes or provider condition codes.
//! Measured quantities are kept in thousandths (a temperature of 27.3 degrees
//! is `27_300`), coordinates in ten-millionths of a degree.

use vstd::prelude::*;
use vstd::string::StringSliceAdditionalSpecFns;
use crate::text::{chars_of, push_all};

verus! {

/// The UTF-8 bytes of a string.
pub open spec fn utf8(s: Seq<char>) -> Seq<u8> {
    vstd::utf8::encode_utf8(s)
}

/// Byte-wise lexicographic order, which is how `str` compares.
pub open spec fn bytes_lt(a: Seq<u8>, b: Seq<u8>) -> bool
    decreases a.len(),
{
    if a.len() == 0 {
        b.len() > 0
    } else if b.len() == 0 {
        false
    } else if a[0] != b[0] {
        a[0] < b[0]
    } else {
        bytes_lt(a.drop_first(), b.drop_first())
    }
}

/// Whether `a` sorts before `b` as strings.
pub fn str_lt(a: &str, b: &str) -> (r: bool)
    ensures
        r == bytes_lt(utf8(a@), utf8(b@)),
{
    let x = a.as_bytes();
    let y = b.as_bytes();
    let mut i: usize = 0;
    assert(x@.skip(0) == x@ && y@.skip(0) == y@);
    while i < x.len() && i < y.len()
        invariant
            i <= x@.len(),
            i <= y@.len(),
            x@ == utf8(a@),
            y@ == utf8(b@),
            bytes_lt(x@, y@) == bytes_lt(x@.skip(i as int), y@.skip(i as int)),
        decreases x.len() - i,
    {
        if x[i] != y[i] {
            return x[i] < y[i];
        }
        assert(x@.skip(i as int).drop_first() == x@.skip(i as int + 1));
        assert(y@.skip(i as int).drop_first() == y@.skip(i as int + 1));
        i += 1;
    }
    i < y.len()
}

#[derive(Debug, Clone, Copy, PartialEq, Eq, Structural)]
pub enum Units {
    Metric,
    Imperial,
}

pub open spec fn temp_symbol_text(u: Units) -> Seq<char> {
    match u {
        Units::Metric => "°C"@,
        Units::Imperial => "°F"@,
    }
}

pub open spec fn wind_symbol_text(u: Units) -> Seq<char> {
    match u {
        Units::Metric => "km/h"@,
        Units::Imperial => "mph"@,
    }
}

/// ASCII lower-casing of one character.
pub open spec fn ascii_lower(c: char) -> char {
    if 'A' <= c <= 'Z' {
        ((c as int) + 32) as char
    } else {
        c
    }
}

/// ASCII lower-casing of a string.
pub open spec fn ascii_lowercase(s: Seq<char>) -> Seq<char> {
    s.map_values(|c: char| ascii_lower(c))
}

pub fn to_ascii_lower(c: char) -> (r: char)
    ensures
        r == ascii_lower(c),
{
    if 'A' <= c && c <= 'Z' {
        ((c as u8) + 32) as char
    } else {
        c
    }
}

/// ASCII lower-case copy of a string.
pub fn ascii_lowercase_of(s: &str) -> (r: Vec<char>)
    ensures
        r@ == ascii_lowercase(s@),
{
    let cs = chars_of(s);
    let mut out: Vec<char> = Vec::new();
    let mut i: usize = 0;
    while i < cs.len()
        invariant
            i <= cs.len(),
            cs@ == s@,
            out@ == ascii_lowercase(s@.take(i as int)),
        decreases cs.len() - i,
    {
        out.push(to_ascii_lower(cs[i]));
        assert(ascii_lowercase(s@.take(i as int + 1)) == ascii_lowercase(s@.take(i as int)).push(
            ascii_lower(s@[i as int]),
        ));
        i += 1;
    }
    assert(s@.take(cs.len() as int) == s@);
    out
}

/// Whether two character slices hold the same text.
pub fn chars_eq(a: &[char], b: &[char]) -> (r: bool)
    ensures
        r == (a@ == b@),
{
    if a.len() != b.len() {
        return false;
    }
    let mut i: usize = 0;
    while i < a.len()
        invariant
            i <= a.len(),
            a.len() == b.len(),
            forall|j: int| 0 <= j < i ==> a@[j] == b@[j],
        decreases a.len() - i,
    {
        if a[i] != b[i] {
            return false;
        }
        i += 1;
    }
    assert(a@ =~= b@);
    true
}

/// Whether a character slice holds the text of a string slice.
pub fn chars_eq_str(a: &[char], b: &str) -> (r: bool)
    ensures
        r == (a@ == b@),
{
    let bs = chars_of(b);
    chars_eq(a, bs.as_slice())
}

/// What `units` parses to, or the message of the error.
pub open spec fn parse_units_spec(s: Seq<char>) -> Result<Units, Seq<char>> {
    let l = ascii_lowercase(s);
    if l == "metric"@ || l == "c"@ || l == "celsius"@ {
        Ok(Units::Metric)
    } else if l == "imperial"@ || l == "f"@ || l == "fahrenheit"@ {
        Ok(Units::Imperial)
    } else {
        Err("unknown units `"@ + l + "` (expected metric or imperial)"@)
    }
}

/// Parses a units name case-insensitively: `metric`, `c`, `celsius`,
/// `imperial`, `f` or `fahrenheit`.
pub fn parse_units(s: &str) -> (r: Result<Units, String>)
    ensures
        match (r, parse_units_spec(s@)) {
            (Ok(u), Ok(v)) => u == v,
            (Err(m), Err(n)) => m@ == n,
            _ => false,
        },
{
    let l = ascii_lowercase_of(s);
    if chars_eq_str(l.as_slice(), "metric") || chars_eq_str(l.as_slice(), "c") || chars_eq_str(
        l.as_slice(),
        "celsius",
    ) {
        Ok(Units::Metric)
    } else if chars_eq_str(l.as_slice(), "imperial") || chars_eq_str(l.as_slice(), "f")
        || chars_eq_str(l.as_slice(), "fahrenheit") {
        Ok(Units::Imperial)
    } else {
        let mut m = String::from_str("unknown units `");
        push_all(&mut m, l.as_slice());
        m.append("` (expected metric or imperial)");
        Err(m)
    }
}

impl Units {
    pub fn temp_symbol(self) -> (s: &'static str)
        ensures
            s@ == temp_symbol_text(self),
    {
        match self {
            Units::Metric => "°C",
            Units::Imperial => "°F",
        }
    }

    pub fn wind_symbol(self) -> (s: &'static str)
        ensures
            s@ == wind_symbol_text(self),
    {
        match self {
            Units::Metric => "km/h",
            Units::Imperial => "mph",
        }
    }
}

impl std::str::FromStr for Units {
    type Err = String;

    fn from_str(s: &str) -> (r: Result<Self, Self::Err>)
        ensures
            match (r, parse_units_spec(s@)) {
                (Ok(u), Ok(v)) => u == v,
                (Err(m), Err(n)) => m@ == n,
                _ => false,
            },
    {
        parse_units(s)
    }
}

#[derive(Debug, Clone, PartialEq)]
pub struct Location {
    pub name: String,
    pub country: String,
    /// Degrees north, in ten-millionths.
    pub latitude: i64,
    /// Degrees east, in ten-millionths.
    pub longitude: i64,
}

pub open spec fn location_label(name: Seq<char>, country: Seq<char>) -> Seq<char> {
    if country.len() == 0 {
        name
    } else {
        name + ", "@ + country
    }
}

impl Location {
    /// `Chennai, India`, or just the name when the country is unknown.
    pub fn label(&self) -> (s: String)
        ensures
            s@ == location_label(self.name@, self.country@),
    {
        if self.country.as_str().unicode_len() == 0 {
            self.name.clone()
        } else {
            let mut s = self.name.clone();
            s.append(", ");
            s.append(self.country.as_str());
            s
        }
    }
}

#[derive(Debug, Clone, Copy, PartialEq, Eq, Structural)]
pub enum WeatherCondition {
    Clear,
    PartlyCloudy,
    Cloudy,
    Fog,
    Drizzle,
    Rain,
    HeavyRain,
    Snow,
    HeavySnow,
    Thunderstorm,
    Unknown,
}

pub open spec fn condition_label(c: WeatherCondition) -> Seq<char> {
    match c {
        WeatherCondition::Clear => "Clear"@,
        WeatherCondition::PartlyCloudy => "Partly Cloudy"@,
        WeatherCondition::Cloudy => "Cloudy"@,
        WeatherCondition::Fog => "Fog"@,
        WeatherCondition::Drizzle => "Drizzle"@,
        WeatherCondition::Rain => "Rain"@,
        WeatherCondition::HeavyRain => "Heavy Rain"@,
        WeatherCondition::Snow => "Snow"@,
        WeatherCondition::HeavySnow => "Heavy Snow"@,
        WeatherCondition::Thunderstorm => "Thunderstorm"@,
        WeatherCondition::Unknown => "Unknown"@,
    }
}

pub open spec fn rainy(c: WeatherCondition) -> bool {
    c == WeatherCondition::Drizzle || c == WeatherCondition::Rain || c
        == WeatherCondition::HeavyRain || c == WeatherCondition::Thunderstorm
}

pub open spec fn snowy(c: WeatherCondition) -> bool {
    c == WeatherCondition::Snow || c == WeatherCondition::HeavySnow
}

impl WeatherCondition {
    /// Human label used in the scene caption.
    pub fn label(self) -> (s: &'static str)
        ensures
            s@ == condition_label(self),
    {
        match self {
            WeatherCondition::Clear => "Clear",
            WeatherCondition::PartlyCloudy => "Partly Cloudy",
            WeatherCondition::Cloudy => "Cloudy",
            WeatherCondition::Fog => "Fog",
            WeatherCondition::Drizzle => "Drizzle",
            WeatherCondition::Rain => "Rain",
            WeatherCondition::HeavyRain => "Heavy Rain",
            WeatherCondition::Snow => "Snow",
            WeatherCondition::HeavySnow => "Heavy Snow",
            WeatherCondition::Thunderstorm => "Thunderstorm",
            WeatherCondition::Unknown => "Unknown",
        }
    }

    pub fn is_rainy(self) -> (b: bool)
        ensures
            b == rainy(self),
    {
        match self {
            WeatherCondition::Drizzle | WeatherCondition::Rain | WeatherCondition::HeavyRain
            | WeatherCondition::Thunderstorm => true,
            _ => false,
        }
    }

    pub fn is_snowy(self) -> (b: bool)
        ensures
            b == snowy(self),
    {
        match self {
            WeatherCondition::Snow | WeatherCondition::HeavySnow => true,
            _ => false,
        }
    }
}

#[derive(Debug, Clone, Copy, PartialEq, Eq, PartialOrd, Ord, Structural)]
pub enum Intensity {
    Light,
    Moderate,
    Heavy,
}

#[derive(Debug, Clone, PartialEq)]
pub struct DailyForecast {
    /// Local calendar date, `YYYY-MM-DD`.
    pub date: String,
    pub condition: WeatherCondition,
    /// Thousandths of a degree.
    pub temp_max: i64,
    /// Thousandths of a degree.
    pub temp_min: i64,
    pub precipitation_probability: Option<u8>,
}

#[derive(Debug, Clone, PartialEq)]
pub struct WeatherData {
    pub location: Location,
    /// Local observation time, `YYYY-MM-DDTHH:MM`.
    pub observed_at: String,
    /// Thousandths of a degree.
    pub temperature: i64,
    /// Thousandths of a degree.
    pub feels_like: i64,
    pub humidity: u8,
    /// Thousandths of a km/h (metric) or mph (imperial).
    pub wind_speed: i64,
    /// Degrees, where the wind comes from.
    pub wind_direction: u16,
    pub cloud_cover: u8,
    /// Thousandths of a mm (metric) or inch (imperial).
    pub precipitation: i64,
    pub precipitation_probability: Option<u8>,
    pub condition: WeatherCondition,
    pub intensity: Intensity,
    /// Local sunrise/sunset for the observation day, `YYYY-MM-DDTHH:MM`.
    pub sunrise: Option<String>,
    pub sunset: Option<String>,
    pub units: Units,
    pub forecast: Vec<DailyForecast>,
}

/// Whether the first ten bytes of two timestamps can be cut off as strings
/// for comparing their days: true unless both texts are at least ten bytes
/// long and byte ten of either falls inside a character.
pub open spec fn day_cuts_ok(a: Seq<char>, b: Seq<char>) -> bool {
    utf8(a).len() >= 10 && utf8(b).len() >= 10 ==> vstd::utf8::is_char_boundary(utf8(a), 10)
        && vstd::utf8::is_char_boundary(utf8(b), 10)
}

/// Both timestamps are at least ten bytes long and agree on their first ten
/// bytes (the `YYYY-MM-DD` part).
pub open spec fn same_day_spec(a: Seq<char>, b: Seq<char>) -> bool {
    utf8(a).len() >= 10 && utf8(b).len() >= 10 && utf8(a).take(10) == utf8(b).take(10)
}

pub open spec fn is_night_spec(w: WeatherData) -> bool {
    match (w.sunrise, w.sunset) {
        (Some(rise), Some(set)) => same_day_spec(w.observed_at@, rise@) && (bytes_lt(
            utf8(w.observed_at@),
            utf8(rise@),
        ) || !bytes_lt(utf8(w.observed_at@), utf8(set@))),
        _ => false,
    }
}

/// The inputs on which day/night can be told without cutting a character in
/// half: the days are compared only when both sun times are given.
pub open spec fn timestamps_ok(w: WeatherData) -> bool {
    match (w.sunrise, w.sunset) {
        (Some(rise), Some(_)) => day_cuts_ok(w.observed_at@, rise@),
        _ => true,
    }
}

/// Index into `N NE E SE S SW W NW` for a wind direction in degrees.
pub open spec fn cardinal_index(dir: int) -> int {
    ((2 * dir + 45) % 720) / 90
}

pub open spec fn cardinal_text(i: int) -> Seq<char> {
    if i == 0 {
        "N"@
    } else if i == 1 {
        "NE"@
    } else if i == 2 {
        "E"@
    } else if i == 3 {
        "SE"@
    } else if i == 4 {
        "S"@
    } else if i == 5 {
        "SW"@
    } else if i == 6 {
        "W"@
    } else {
        "NW"@
    }
}

fn day_cuts_fit(a: &str, b: &str) -> (r: bool)
    ensures
        r == day_cuts_ok(a@, b@),
{
    assert(a.spec_bytes() == utf8(a@));
    assert(b.spec_bytes() == utf8(b@));
    if a.as_bytes().len() < 10 || b.as_bytes().len() < 10 {
        true
    } else {
        a.is_char_boundary(10) && b.is_char_boundary(10)
    }
}

/// Whether day and night can be told for this reading (see `timestamps_ok`).
pub fn timestamps_fit(w: &WeatherData) -> (b: bool)
    ensures
        b == timestamps_ok(*w),
{
    match (&w.sunrise, &w.sunset) {
        (Some(rise), Some(_)) => day_cuts_fit(w.observed_at.as_str(), rise.as_str()),
        _ => true,
    }
}

fn same_day(a: &str, b: &str) -> (r: bool)
    requires
        day_cuts_ok(a@, b@),
    ensures
        r == same_day_spec(a@, b@),
{
    let x = a.as_bytes();
    let y = b.as_bytes();
    if x.len() < 10 || y.len() < 10 {
        return false;
    }
    let mut i: usize = 0;
    while i < 10
        invariant
            i <= 10,
            x@.len() >= 10,
            y@.len() >= 10,
            x@ == utf8(a@),
            y@ == utf8(b@),
            forall|j: int| 0 <= j < i ==> x@[j] == y@[j],
        decreases 10 - i,
    {
        if x[i] != y[i] {
            assert(x@.take(10)[i as int] != y@.take(10)[i as int]);
            return false;
        }
        i += 1;
    }
    assert(x@.take(10) =~= y@.take(10));
    true
}

impl WeatherData {
    /// Day/night comes from sunrise/sunset, never from the host clock.
    ///
    /// Both timestamps are local ISO-8601 with the same shape, so a
    /// lexicographic compare is a correct chronological compare.
    pub fn is_night(&self) -> (b: bool)
        requires
            timestamps_ok(*self),
        ensures
            b == is_night_spec(*self),
    {
        match (&self.sunrise, &self.sunset) {
            (Some(rise), Some(set)) => {
                if same_day(self.observed_at.as_str(), rise.as_str()) {
                    str_lt(self.observed_at.as_str(), rise.as_str()) || !str_lt(
                        self.observed_at.as_str(),
                        set.as_str(),
                    )
                } else {
                    false
                }
            },
            _ => false,
        }
    }

    /// The compass point the wind blows from.
    pub fn wind_cardinal(&self) -> (s: &'static str)
        ensures
            s@ == cardinal_text(cardinal_index(self.wind_direction as int)),
    {
        let i = ((2 * (self.wind_direction as u32) + 45) % 720) / 90;
        if i == 0 {
            "N"
        } else if i == 1 {
            "NE"
        } else if i == 2 {
            "E"
        } else if i == 3 {
            "SE"
        } else if i == 4 {
            "S"
        } else if i == 5 {
            "SW"
        } else if i == 6 {
            "W"
        } else {
            "NW"
        }
    }
}

/// `a` comes first in byte-wise lexicographic order at position `i`: the two
/// agree before it, and there `a` has ended while `b` goes on, or `a` has the
/// smaller byte.
pub open spec fn first_at(a: Seq<u8>, b: Seq<u8>, i: int) -> bool {
    &&& 0 <= i <= a.len()
    &&& i <= b.len()
    &&& a.take(i) == b.take(i)
    &&& ((i == a.len() && i < b.len()) || (i < a.len() && i < b.len() && a[i] < b[i]))
}

/// String order is lexicographic on the bytes: `a` sorts before `b` exactly
/// when, at the first place they differ, `a` has ended or has the smaller
/// byte.
pub proof fn strings_sort_lexicographically(a: Seq<u8>, b: Seq<u8>)
    ensures
        bytes_lt(a, b) <==> exists|i: int| first_at(a, b, i),
    decreases a.len(),
{
    if a.len() == 0 {
        if b.len() > 0 {
            assert(a.take(0) =~= b.take(0));
            assert(first_at(a, b, 0));
        }
    } else if b.len() == 0 {
    } else if a[0] != b[0] {
        if a[0] < b[0] {
            assert(a.take(0) =~= b.take(0));
            assert(first_at(a, b, 0));
        } else {
            assert forall|i: int| !first_at(a, b, i) by {
                if first_at(a, b, i) && i > 0 {
                    assert(a.take(i)[0] == b.take(i)[0]);
                }
            }
        }
    } else {
        let a1 = a.drop_first();
        let b1 = b.drop_first();
        strings_sort_lexicographically(a1, b1);
        if bytes_lt(a1, b1) {
            let j = choose|j: int| first_at(a1, b1, j);
            assert(a.take(j + 1) =~= seq![a[0]] + a1.take(j));
            assert(b.take(j + 1) =~= seq![b[0]] + b1.take(j));
            assert(first_at(a, b, j + 1));
        } else {
            assert forall|i: int| !first_at(a, b, i) by {
                if first_at(a, b, i) {
                    if i == 0 {
                    } else {
                        assert(a1.take(i - 1) =~= a.take(i).drop_first());
                        assert(b1.take(i - 1) =~= b.take(i).drop_first());
                        assert(first_at(a1, b1, i - 1));
                    }
                }
            }
        }
    }
}

/// Day and night come from the sun times of the observation's own day: an
/// observation before sunrise or at or after sunset is at night, one from
/// sunrise up to sunset is by day; without both sun times, or on another
/// day than the sunrise's (the first ten bytes, `YYYY-MM-DD`, differ), it
/// counts as day.
pub proof fn night_is_outside_sunrise_to_sunset(w: WeatherData)
    ensures
        w.sunrise is None || w.sunset is None ==> !is_night_spec(w),
        w.sunrise is Some && w.sunset is Some ==> ({
            let obs = utf8(w.observed_at@);
            let rise = utf8(w.sunrise->0@);
            let set = utf8(w.sunset->0@);
            let today = obs.len() >= 10 && rise.len() >= 10 && obs.take(10) == rise.take(10);
            &&& (!today ==> !is_night_spec(w))
            &&& (today && bytes_lt(obs, rise) ==> is_night_spec(w))
            &&& (today && !bytes_lt(obs, set) ==> is_night_spec(w))
            &&& (today && !bytes_lt(obs, rise) && bytes_lt(obs, set) ==> !is_night_spec(w))
        }),
{
}

} // verus!
