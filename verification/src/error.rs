//! User-facing errors. Raw transport/HTTP detail is kept behind `--debug`.

use vstd::prelude::*;

verus! {

#[derive(Debug, Clone, PartialEq)]
pub enum AppError {
    /// Could not reach the weather service at all.
    Network(String),
    /// Reached it, but it answered badly (5xx, rate limit, garbage body).
    Service(String),
    /// Geocoding found nothing for the query.
    UnknownLocation(String),
    /// No location on the command line and none configured.
    NoLocation,
    /// Configuration / cache / filesystem trouble.
    Config(String),
}

/// An error as plain values.
pub enum ErrorView {
    Network(Seq<char>),
    Service(Seq<char>),
    UnknownLocation(Seq<char>),
    NoLocation,
    Config(Seq<char>),
}

impl View for AppError {
    type V = ErrorView;

    open spec fn view(&self) -> ErrorView {
        match self {
            AppError::Network(m) => ErrorView::Network(m@),
            AppError::Service(m) => ErrorView::Service(m@),
            AppError::UnknownLocation(q) => ErrorView::UnknownLocation(q@),
            AppError::NoLocation => ErrorView::NoLocation,
            AppError::Config(m) => ErrorView::Config(m@),
        }
    }
}

pub open spec fn headline_text(e: AppError) -> Seq<char> {
    match e {
        AppError::Network(_) => "No network connection."@,
        AppError::Service(_) => "Weather service is temporarily unavailable."@,
        AppError::UnknownLocation(q) => "Could not find \""@ + q@ + "\"."@,
        AppError::NoLocation => "No default location configured."@,
        AppError::Config(m) => m@,
    }
}

pub open spec fn hint_lines(e: AppError) -> Seq<Seq<char>> {
    match e {
        AppError::Network(_) => seq!["No cached weather for this location yet."@],
        AppError::Service(_) => seq!["Try again in a moment."@],
        AppError::UnknownLocation(_) => seq!["Try:"@, "  asciiweather Chennai"@],
        AppError::NoLocation => seq![
            "Try:"@,
            "  asciiweather Chennai"@,
            "  asciiweather config set location Chennai"@,
        ],
        AppError::Config(_) => Seq::empty(),
    }
}

pub open spec fn detail_text(e: AppError) -> Option<Seq<char>> {
    match e {
        AppError::Network(d) => Some(d@),
        AppError::Service(d) => Some(d@),
        AppError::Config(d) => Some(d@),
        _ => None,
    }
}

pub open spec fn exit_code_of(e: AppError) -> i32 {
    match e {
        AppError::UnknownLocation(_) => 3,
        AppError::Network(_) => 4,
        AppError::Service(_) => 4,
        _ => 1,
    }
}

pub open spec fn transient(e: AppError) -> bool {
    e is Network || e is Service
}

pub open spec fn strings_of(v: Seq<String>) -> Seq<Seq<char>> {
    v.map_values(|s: String| s@)
}

impl AppError {
    /// Short headline, always safe to show.
    pub fn headline(&self) -> (s: String)
        ensures
            s@ == headline_text(*self),
    {
        match self {
            AppError::Network(_) => String::from_str("No network connection."),
            AppError::Service(_) => String::from_str("Weather service is temporarily unavailable."),
            AppError::UnknownLocation(q) => {
                let mut s = String::from_str("Could not find \"");
                s.append(q.as_str());
                s.append("\".");
                s
            },
            AppError::NoLocation => String::from_str("No default location configured."),
            AppError::Config(m) => m.clone(),
        }
    }

    /// Extra hint lines printed under the headline.
    pub fn hint(&self) -> (v: Vec<String>)
        ensures
            strings_of(v@) == hint_lines(*self),
    {
        let mut v: Vec<String> = Vec::new();
        match self {
            AppError::Network(_) => {
                v.push(String::from_str("No cached weather for this location yet."));
            },
            AppError::Service(_) => {
                v.push(String::from_str("Try again in a moment."));
            },
            AppError::UnknownLocation(_) => {
                v.push(String::from_str("Try:"));
                v.push(String::from_str("  asciiweather Chennai"));
            },
            AppError::NoLocation => {
                v.push(String::from_str("Try:"));
                v.push(String::from_str("  asciiweather Chennai"));
                v.push(String::from_str("  asciiweather config set location Chennai"));
            },
            AppError::Config(_) => {},
        }
        assert(strings_of(v@) =~= hint_lines(*self));
        v
    }

    /// Technical detail, only shown with `--debug`.
    pub fn detail(&self) -> (d: Option<&str>)
        ensures
            match d {
                Some(t) => detail_text(*self) == Some(t@),
                None => detail_text(*self) is None,
            },
    {
        match self {
            AppError::Network(d) => Some(d.as_str()),
            AppError::Service(d) => Some(d.as_str()),
            AppError::Config(d) => Some(d.as_str()),
            _ => None,
        }
    }

    pub fn exit_code(&self) -> (c: i32)
        ensures
            c == exit_code_of(*self),
    {
        match self {
            AppError::UnknownLocation(_) => 3,
            AppError::Network(_) | AppError::Service(_) => 4,
            _ => 1,
        }
    }

    /// Whether stale cached data is an acceptable substitute for this failure.
    pub fn is_transient(&self) -> (b: bool)
        ensures
            b == transient(*self),
    {
        match self {
            AppError::Network(_) | AppError::Service(_) => true,
            _ => false,
        }
    }
}

/// The exit code tells a script whether retrying later could help: exactly
/// the transient failures exit with 4, an unknown place with 3, anything
/// else with 1.
pub proof fn exit_code_marks_transient_failures(e: AppError)
    ensures
        (exit_code_of(e) == 4) <==> transient(e),
        (exit_code_of(e) == 3) <==> e is UnknownLocation,
        exit_code_of(e) == 1 || exit_code_of(e) == 3 || exit_code_of(e) == 4,
{
}

} // verus!
