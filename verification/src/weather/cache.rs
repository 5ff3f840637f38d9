//! The cache's logic: how old an entry is, whether it may still be used, how
//! its age reads, and which file holds it. Reading and writing the files is
//! left to the caller.
//!
//! One small JSON file per location under `~/.cache/asciiweather/`. No database:
//! the working set is a handful of entries and the reader is a short-lived CLI.

use vstd::prelude::*;
use crate::text::{chars_of, decimal, push_char, push_decimal, to_lower, lowercase};
use crate::weather::model::{Units, WeatherData};

verus! {

#[derive(Debug, Clone)]
pub struct Entry {
    /// Unix seconds at which this entry was written.
    pub fetched_at: u64,
    pub data: WeatherData,
}

pub open spec fn age_of(fetched_at: u64, now: u64) -> int {
    if now > fetched_at {
        now - fetched_at
    } else {
        0
    }
}

impl Entry {
    /// Seconds since the entry was written; zero if the clock went backwards.
    pub fn age_seconds(&self, now: u64) -> (a: u64)
        ensures
            a == age_of(self.fetched_at, now),
    {
        now.saturating_sub(self.fetched_at)
    }

    /// An entry is fresh while it is younger than the time-to-live.
    pub fn is_fresh(&self, now: u64, ttl_seconds: u64) -> (b: bool)
        ensures
            b == (age_of(self.fetched_at, now) < ttl_seconds),
    {
        self.age_seconds(now) < ttl_seconds
    }
}

/// `7 minutes ago`: the count, the unit, an `s` unless the count is one.
pub open spec fn plural_text(n: nat, unit: Seq<char>) -> Seq<char> {
    decimal(n) + " "@ + unit + (if n == 1 {
        ""@
    } else {
        "s"@
    }) + " ago"@
}

/// `just now` under a minute, then minutes up to an hour and a half, hours up
/// to a day, days after that.
pub open spec fn humanize_age_spec(seconds: nat) -> Seq<char> {
    if seconds <= 59 {
        "just now"@
    } else if seconds <= 5399 {
        plural_text(seconds / 60, "minute"@)
    } else if seconds <= 86_399 {
        plural_text(seconds / 3600, "hour"@)
    } else {
        plural_text(seconds / 86_400, "day"@)
    }
}

fn plural(n: u64, unit: &str) -> (s: String)
    ensures
        s@ == plural_text(n as nat, unit@),
{
    let mut s = String::new();
    push_decimal(&mut s, n);
    s.append(" ");
    s.append(unit);
    if n != 1 {
        s.append("s");
    }
    s.append(" ago");
    proof {
        reveal_strlit("");
    }
    assert(s@ =~= plural_text(n as nat, unit@));
    s
}

/// `43 minutes ago`, `2 hours ago` — for the stale-cache notice.
pub fn humanize_age(seconds: u64) -> (s: String)
    ensures
        s@ == humanize_age_spec(seconds as nat),
{
    if seconds <= 59 {
        String::from_str("just now")
    } else if seconds <= 5399 {
        plural(seconds / 60, "minute")
    } else if seconds <= 86_399 {
        plural(seconds / 3600, "hour")
    } else {
        plural(seconds / 86_400, "day")
    }
}

/// The characters `char::is_whitespace` accepts: Unicode White_Space.
pub open spec fn is_white(c: char) -> bool {
    let u = c as u32;
    (0x9 <= u <= 0xd) || u == 0x20 || u == 0x85 || u == 0xa0 || u == 0x1680 || (0x2000 <= u
        <= 0x200a) || u == 0x2028 || u == 0x2029 || u == 0x202f || u == 0x205f || u == 0x3000
}

fn white(c: char) -> (b: bool)
    ensures
        b == is_white(c),
{
    let u = c as u32;
    (0x9 <= u && u <= 0xd) || u == 0x20 || u == 0x85 || u == 0xa0 || u == 0x1680 || (0x2000 <= u
        && u <= 0x200a) || u == 0x2028 || u == 0x2029 || u == 0x202f || u == 0x205f || u == 0x3000
}

/// Whitespace removed from the front.
pub open spec fn trim_start(s: Seq<char>) -> Seq<char>
    decreases s.len(),
{
    if s.len() > 0 && is_white(s[0]) {
        trim_start(s.drop_first())
    } else {
        s
    }
}

/// Whitespace removed from the back.
pub open spec fn trim_end(s: Seq<char>) -> Seq<char>
    decreases s.len(),
{
    if s.len() > 0 && is_white(s.last()) {
        trim_end(s.drop_last())
    } else {
        s
    }
}

/// `str::trim`: leading and trailing whitespace removed.
pub open spec fn trim(s: Seq<char>) -> Seq<char> {
    trim_end(trim_start(s))
}

/// The characters of `s` without leading and trailing whitespace.
pub fn trimmed(s: &str) -> (out: Vec<char>)
    ensures
        out@ == trim(s@),
{
    let cs = chars_of(s);
    let mut lo: usize = 0;
    assert(cs@.skip(0) =~= cs@);
    while lo < cs.len() && white(cs[lo])
        invariant
            lo <= cs@.len(),
            cs@ == s@,
            trim_start(s@) == trim_start(cs@.skip(lo as int)),
        decreases cs.len() - lo,
    {
        assert(cs@.skip(lo as int).drop_first() =~= cs@.skip(lo as int + 1));
        lo += 1;
    }
    assert(trim_start(s@) == cs@.skip(lo as int)) by {
        assert(cs@.skip(0) =~= cs@);
    }
    let mut hi: usize = cs.len();
    while hi > lo && white(cs[hi - 1])
        invariant
            lo <= hi <= cs@.len(),
            cs@ == s@,
            trim(s@) == trim_end(cs@.subrange(lo as int, hi as int)),
        decreases hi,
    {
        assert(cs@.subrange(lo as int, hi as int).drop_last() =~= cs@.subrange(lo as int, hi - 1));
        hi -= 1;
    }
    let mut out: Vec<char> = Vec::new();
    let mut i: usize = lo;
    while i < hi
        invariant
            lo <= i <= hi <= cs@.len(),
            out@ == cs@.subrange(lo as int, i as int),
        decreases hi - i,
    {
        out.push(cs[i]);
        assert(out@ =~= cs@.subrange(lo as int, i + 1));
        i += 1;
    }
    out
}

pub open spec fn is_ascii_alnum(c: char) -> bool {
    ('0' <= c <= '9') || ('a' <= c <= 'z') || ('A' <= c <= 'Z')
}

/// Every character kept if ASCII alphanumeric, else turned into `-`.
pub open spec fn dashes(s: Seq<char>) -> Seq<char> {
    s.map_values(|c: char| if is_ascii_alnum(c) { c } else { '-' })
}

/// A lower-cased query with everything but ASCII letters and digits turned
/// into `-`, cut to 64 characters, `-` when nothing is left.
pub open spec fn slug_of_lowered_spec(lower: Seq<char>) -> Seq<char> {
    let m = dashes(lower);
    let t = if m.len() > 64 {
        m.take(64)
    } else {
        m
    };
    if t.len() == 0 {
        seq!['-']
    } else {
        t
    }
}

/// Filesystem-safe, case-insensitive key for a free-text query: the trimmed,
/// lower-cased query, made safe by `slug_of_lowered_spec`.
pub open spec fn slug_spec(query: Seq<char>) -> Seq<char> {
    slug_of_lowered_spec(lowercase(trim(query)))
}

/// Filesystem-safe, case-insensitive key for a free-text query.
pub fn slug(query: &str) -> (s: String)
    ensures
        s@ == slug_spec(query@),
{
    let t = trimmed(query);
    let mut ts = String::new();
    let mut k: usize = 0;
    while k < t.len()
        invariant
            k <= t@.len(),
            ts@ == t@.take(k as int),
        decreases t.len() - k,
    {
        push_char(&mut ts, t[k]);
        assert(t@.take(k as int + 1) =~= t@.take(k as int).push(t@[k as int]));
        k += 1;
    }
    assert(t@.take(t@.len() as int) =~= t@);
    let lower = to_lower(ts.as_str());
    slug_of_lowered(lower.as_str())
}

/// The slug of a query that is already trimmed and lower-cased.
pub fn slug_of_lowered(lower: &str) -> (s: String)
    ensures
        s@ == slug_of_lowered_spec(lower@),
{
    let cs = chars_of(lower);
    let ghost m = dashes(lower@);
    let mut out = String::new();
    let mut i: usize = 0;
    while i < cs.len() && i < 64
        invariant
            i <= cs@.len(),
            i <= 64,
            cs@ == lower@,
            m == dashes(cs@),
            out@ == m.take(i as int),
        decreases cs.len() - i,
    {
        let c = cs[i];
        let d = if ('0' <= c && c <= '9') || ('a' <= c && c <= 'z') || ('A' <= c && c <= 'Z') {
            c
        } else {
            '-'
        };
        push_char(&mut out, d);
        assert(m.take(i as int + 1) =~= m.take(i as int).push(m[i as int]));
        i += 1;
    }
    proof {
        if m.len() <= 64 {
            assert(m.take(m.len() as int) =~= m);
        }
    }
    if i == 0 {
        push_char(&mut out, '-');
        assert(out@ =~= seq!['-']);
    }
    out
}

/// A cache key is safe to use as a file name anywhere: between one and 64
/// characters, each an ASCII letter, a digit or `-` (so never `/`, `.` or a
/// space), whatever the query.
pub proof fn slugs_are_file_names(query: Seq<char>)
    ensures
        1 <= slug_spec(query).len() <= 64,
        forall|i: int|
            0 <= i < slug_spec(query).len() ==> is_ascii_alnum(#[trigger] slug_spec(query)[i])
                || slug_spec(query)[i] == '-',
{
}

/// Where the cache files live.
#[derive(Debug, Clone)]
pub struct Cache {
    dir: String,
}

pub open spec fn unit_tag(u: Units) -> Seq<char> {
    match u {
        Units::Metric => "m"@,
        Units::Imperial => "i"@,
    }
}

/// The file name of an entry: the query's slug and the units.
pub open spec fn file_name(query: Seq<char>, u: Units) -> Seq<char> {
    slug_spec(query) + "."@ + unit_tag(u) + ".json"@
}

/// A relative name under a directory, as `Path::join` puts it.
pub open spec fn joined(dir: Seq<char>, name: Seq<char>) -> Seq<char> {
    if dir.len() == 0 || dir.last() == '/' {
        dir + name
    } else {
        dir + "/"@ + name
    }
}

impl Cache {
    pub fn new(dir: String) -> (c: Self)
        ensures
            c.dir() == dir@,
    {
        Cache { dir }
    }

    pub closed spec fn dir(&self) -> Seq<char> {
        self.dir@
    }

    /// Keyed by the *query* the user typed, so an offline run can skip geocoding
    /// as well as the forecast call.
    pub fn path_for(&self, query: &str, units: Units) -> (p: String)
        ensures
            p@ == joined(self.dir(), file_name(query@, units)),
    {
        let mut name = slug(query);
        name.append(".");
        name.append(
            match units {
                Units::Metric => "m",
                Units::Imperial => "i",
            },
        );
        name.append(".json");
        let mut p = self.dir.clone();
        let n = self.dir.as_str().unicode_len();
        if n > 0 && self.dir.as_str().get_char(n - 1) != '/' {
            p.append("/");
        }
        p.append(name.as_str());
        assert(p@ =~= joined(self.dir(), file_name(query@, units)));
        p
    }
}


/// Cache keys ignore case and surrounding blanks but not units: two queries
/// that lower-case to the same trimmed text share an entry, and metric and
/// imperial readings never do.
pub proof fn cache_keys_ignore_case_but_not_units(a: Seq<char>, b: Seq<char>, u: Units)
    ensures
        lowercase(trim(a)) == lowercase(trim(b)) ==> file_name(a, u) == file_name(b, u),
        file_name(a, Units::Metric) != file_name(a, Units::Imperial),
{
    reveal_strlit(".");
    reveal_strlit("m");
    reveal_strlit("i");
    let n = slug_spec(a).len() as int;
    assert(file_name(a, Units::Metric)[n + 1] == 'm');
    assert(file_name(a, Units::Imperial)[n + 1] == 'i');
}

} // verus!
