//! The settings of `~/.config/asciiweather/config.toml` — small on purpose.
//! Reading and writing the file is left to the caller; this module holds the
//! values, their defaults, and what `config set` accepts.

use vstd::prelude::*;
use crate::error::AppError;
use crate::text::{chars_of, decimal, parse_upto, push_decimal, read_upto};
use crate::weather::model::{Units, chars_eq_str, parse_units, parse_units_spec};

verus! {

#[derive(Debug, Clone, PartialEq)]
pub struct Config {
    pub general: General,
    pub render: Render,
    pub cache: Cache,
}

#[derive(Debug, Clone, PartialEq)]
pub struct General {
    /// Used when no location is given on the command line.
    pub location: Option<String>,
    pub units: String,
}

#[derive(Debug, Clone, PartialEq)]
pub struct Render {
    pub color: bool,
    /// `"auto"` or a column count.
    pub width: String,
}

#[derive(Debug, Clone, PartialEq)]
pub struct Cache {
    pub ttl_minutes: u64,
}

/// The settings as plain values.
pub struct ConfigView {
    pub location: Option<Seq<char>>,
    pub units: Seq<char>,
    pub color: bool,
    pub width: Seq<char>,
    pub ttl_minutes: u64,
}

impl View for Config {
    type V = ConfigView;

    open spec fn view(&self) -> ConfigView {
        ConfigView {
            location: match self.general.location {
                Some(l) => Some(l@),
                None => None,
            },
            units: self.general.units@,
            color: self.render.color,
            width: self.render.width@,
            ttl_minutes: self.cache.ttl_minutes,
        }
    }
}

impl Default for General {
    fn default() -> (g: Self)
        ensures
            g.location is None,
            g.units@ == "metric"@,
    {
        General { location: None, units: String::from_str("metric") }
    }
}

impl Default for Render {
    fn default() -> (r: Self)
        ensures
            r.color,
            r.width@ == "auto"@,
    {
        Render { color: true, width: String::from_str("auto") }
    }
}

impl Default for Cache {
    fn default() -> (c: Self)
        ensures
            c.ttl_minutes == 10,
    {
        Cache { ttl_minutes: 10 }
    }
}

/// No location, metric, colour on, automatic width, ten minutes of cache.
pub open spec fn default_view() -> ConfigView {
    ConfigView { location: None, units: "metric"@, color: true, width: "auto"@, ttl_minutes: 10 }
}

impl Default for Config {
    fn default() -> (c: Self)
        ensures
            c@ == default_view(),
    {
        Config { general: General::default(), render: Render::default(), cache: Cache::default() }
    }
}

/// The units a setting names, metric when it names none.
pub open spec fn units_of(s: Seq<char>) -> Units {
    match parse_units_spec(s) {
        Ok(u) => u,
        Err(_) => Units::Metric,
    }
}

/// A number as `str::parse` reads it for a type whose largest value is `limit`.
pub open spec fn number(s: Seq<char>, limit: nat) -> Option<nat> {
    parse_upto(s, limit)
}

/// The width setting as a column count; `None` means "ask the terminal".
pub open spec fn width_of(s: Seq<char>) -> Option<nat> {
    number(s, usize::MAX as nat)
}

/// `true` or `false`, exactly, as `bool` parses.
pub open spec fn parse_bool(s: Seq<char>) -> Option<bool> {
    if s == "true"@ {
        Some(true)
    } else if s == "false"@ {
        Some(false)
    } else {
        None
    }
}

pub open spec fn bool_text(b: bool) -> Seq<char> {
    if b {
        "true"@
    } else {
        "false"@
    }
}

/// The settings a user can change, as `(key, value)` pairs.
pub open spec fn entries_spec(c: ConfigView) -> Seq<(Seq<char>, Seq<char>)> {
    seq![
        ("location"@, match c.location {
            Some(l) => l,
            None => "—"@,
        }),
        ("units"@, c.units),
        ("color"@, bool_text(c.color)),
        ("width"@, c.width),
        ("ttl_minutes"@, decimal(c.ttl_minutes as nat)),
    ]
}

/// ``"`{value}` is not a valid {key} ({what})"``
pub open spec fn invalid_text(key: Seq<char>, value: Seq<char>, what: Seq<char>) -> Seq<char> {
    "`"@ + value + "` is not a valid "@ + key + " ("@ + what + ")"@
}

/// What `config set key value` does: the new settings, or the message of
/// the refusal (the settings then stay as they were).
pub open spec fn set_spec(c: ConfigView, key: Seq<char>, value: Seq<char>) -> Result<ConfigView, Seq<char>> {
    if key == "location"@ {
        Ok(ConfigView { location: Some(value), ..c })
    } else if key == "units"@ {
        match parse_units_spec(value) {
            Ok(Units::Metric) => Ok(ConfigView { units: "metric"@, ..c }),
            Ok(Units::Imperial) => Ok(ConfigView { units: "imperial"@, ..c }),
            Err(_) => Err(invalid_text(key, value, "metric or imperial"@)),
        }
    } else if key == "color"@ {
        match parse_bool(value) {
            Some(b) => Ok(ConfigView { color: b, ..c }),
            None => Err(invalid_text(key, value, "true or false"@)),
        }
    } else if key == "width"@ {
        if value != "auto"@ && width_of(value) is None {
            Err(invalid_text(key, value, "auto or a column count"@))
        } else {
            Ok(ConfigView { width: value, ..c })
        }
    } else if key == "ttl_minutes"@ {
        match number(value, u64::MAX as nat) {
            Some(n) => Ok(ConfigView { ttl_minutes: n as u64, ..c }),
            None => Err(invalid_text(key, value, "a number of minutes"@)),
        }
    } else {
        Err("unknown setting `"@ + key + "` (try: location, units, color, width, ttl_minutes)"@)
    }
}

fn invalid(key: &str, value: &str, what: &str) -> (e: AppError)
    ensures
        e matches AppError::Config(m) && m@ == invalid_text(key@, value@, what@),
{
    let mut m = String::from_str("`");
    m.append(value);
    m.append("` is not a valid ");
    m.append(key);
    m.append(" (");
    m.append(what);
    m.append(")");
    AppError::Config(m)
}

fn same_text(s: &str, word: &str) -> (b: bool)
    ensures
        b == (s@ == word@),
{
    chars_eq_str(chars_of(s).as_slice(), word)
}

impl Config {
    pub fn units(&self) -> (u: Units)
        ensures
            u == units_of(self.general.units@),
    {
        match parse_units(self.general.units.as_str()) {
            Ok(u) => u,
            Err(_) => Units::Metric,
        }
    }

    /// The cache time-to-live in seconds (saturating).
    pub fn ttl_seconds(&self) -> (s: u64)
        ensures
            s == if self.cache.ttl_minutes * 60 > u64::MAX { u64::MAX as int } else { self.cache.ttl_minutes * 60 },
    {
        match self.cache.ttl_minutes.checked_mul(60) {
            Some(s) => s,
            None => u64::MAX,
        }
    }

    /// `None` means "ask the terminal".
    pub fn width(&self) -> (w: Option<usize>)
        ensures
            match w {
                Some(n) => width_of(self.render.width@) == Some(n as nat),
                None => width_of(self.render.width@) is None,
            },
    {
        match read_upto(chars_of(self.render.width.as_str()).as_slice(), usize::MAX as u64) {
            Some(n) => Some(n as usize),
            None => None,
        }
    }

    /// The settings a user can change, as `(key, value)` pairs.
    pub fn entries(&self) -> (v: Vec<(&'static str, String)>)
        ensures
            v@.map_values(|p: (&'static str, String)| (p.0@, p.1@)) == entries_spec(self@),
    {
        let location = match &self.general.location {
            Some(l) => l.clone(),
            None => String::from_str("—"),
        };
        let color = if self.render.color {
            String::from_str("true")
        } else {
            String::from_str("false")
        };
        let mut ttl = String::new();
        push_decimal(&mut ttl, self.cache.ttl_minutes);
        let mut v: Vec<(&'static str, String)> = Vec::new();
        v.push(("location", location));
        v.push(("units", self.general.units.clone()));
        v.push(("color", color));
        v.push(("width", self.render.width.clone()));
        v.push(("ttl_minutes", ttl));
        assert(v@.map_values(|p: (&'static str, String)| (p.0@, p.1@)) =~= entries_spec(self@));
        v
    }

    /// Change one setting, checking the value first.
    pub fn set(&mut self, key: &str, value: &str) -> (r: Result<(), AppError>)
        ensures
            match (r, set_spec(old(self)@, key@, value@)) {
                (Ok(()), Ok(c)) => final(self)@ == c,
                (Err(AppError::Config(m)), Err(t)) => m@ == t && final(self)@ == old(self)@,
                _ => false,
            },
    {
        if same_text(key, "location") {
            self.general.location = Some(String::from_str(value));
            Ok(())
        } else if same_text(key, "units") {
            match parse_units(value) {
                Ok(Units::Metric) => {
                    self.general.units = String::from_str("metric");
                    Ok(())
                },
                Ok(Units::Imperial) => {
                    self.general.units = String::from_str("imperial");
                    Ok(())
                },
                Err(_) => Err(invalid(key, value, "metric or imperial")),
            }
        } else if same_text(key, "color") {
            if same_text(value, "true") {
                self.render.color = true;
                Ok(())
            } else if same_text(value, "false") {
                self.render.color = false;
                Ok(())
            } else {
                Err(invalid(key, value, "true or false"))
            }
        } else if same_text(key, "width") {
            if !same_text(value, "auto") && read_upto(chars_of(value).as_slice(), usize::MAX as u64).is_none() {
                Err(invalid(key, value, "auto or a column count"))
            } else {
                self.render.width = String::from_str(value);
                Ok(())
            }
        } else if same_text(key, "ttl_minutes") {
            match read_upto(chars_of(value).as_slice(), u64::MAX) {
                Some(n) => {
                    self.cache.ttl_minutes = n;
                    Ok(())
                },
                None => Err(invalid(key, value, "a number of minutes")),
            }
        } else {
            let mut m = String::from_str("unknown setting `");
            m.append(key);
            m.append("` (try: location, units, color, width, ttl_minutes)");
            Err(AppError::Config(m))
        }
    }
}

/// Setting `units` stores a name that reads back as the units the value
/// named, whichever of their spellings was given, and touches nothing else;
/// a value that names no units is refused. `metric` and `imperial` name
/// different units.
pub proof fn set_units_reads_back(c: ConfigView, value: Seq<char>)
    ensures
        set_spec(c, "units"@, value) is Ok <==> parse_units_spec(value) is Ok,
        set_spec(c, "units"@, value) matches Ok(c2) ==> {
            &&& parse_units_spec(value) == Ok::<Units, Seq<char>>(units_of(c2.units))
            &&& parse_units_spec(c2.units) == parse_units_spec(value)
            &&& c2 == ConfigView { units: c2.units, ..c }
        },
        parse_units_spec("metric"@) == Ok::<Units, Seq<char>>(Units::Metric),
        parse_units_spec("imperial"@) == Ok::<Units, Seq<char>>(Units::Imperial),
{
    reveal_strlit("units");
    reveal_strlit("location");
    reveal_strlit("metric");
    reveal_strlit("imperial");
    reveal_strlit("c");
    reveal_strlit("celsius");
    assert("units"@.len() != "location"@.len());
    assert(crate::weather::model::ascii_lowercase("metric"@) =~= "metric"@);
    assert(crate::weather::model::ascii_lowercase("imperial"@) =~= "imperial"@);
    assert(parse_units_spec("metric"@) == Ok::<Units, Seq<char>>(Units::Metric));
    assert(parse_units_spec("imperial"@) == Ok::<Units, Seq<char>>(Units::Imperial));
}

} // verus!
