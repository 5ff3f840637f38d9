//! Where a reading comes from: the cache, the provider, or, when the provider
//! fails for a reason that may pass, whatever the cache still has.
//!
//! The decision is a small state machine. The caller performs each step it
//! asks for (read the cache, ask the provider where the place is, fetch its
//! weather, store the result) and hands back what happened.

pub mod cache;
pub mod model;
pub mod open_meteo;

pub use model::{DailyForecast, Intensity, Location, Units, WeatherCondition, WeatherData};

use vstd::prelude::*;
use crate::error::{AppError, ErrorView, headline_text, transient};
use cache::{Entry, age_of, humanize_age, humanize_age_spec};

verus! {

/// Weather plus, if it came from a stale cache, the reason why.
#[derive(Debug, Clone, PartialEq)]
pub struct Reading {
    pub data: WeatherData,
    pub notice: Option<String>,
}

/// How far a resolution has got.
#[derive(Debug, Clone, Copy, PartialEq, Eq, Structural)]
pub enum Stage {
    Start,
    ReadingCache,
    Locating,
    Fetching,
    Finished,
}

/// What the caller is asked to do next.
#[derive(Debug)]
pub enum Step {
    /// Read the cache entry for the query and units, then report `Cached`.
    ReadCache,
    /// Ask the provider where the query is, then report `Located`.
    Geocode,
    /// Ask the provider for the weather at this place, then report `Fetched`.
    Fetch(Location),
    /// Done. When `store` is set the reading is fresh from the provider and
    /// belongs in the cache (written at `now`) before it is returned.
    Finish { result: Result<Reading, AppError>, store: bool },
}

/// What happened when the caller performed a step.
#[derive(Debug)]
pub enum Event {
    Cached(Option<Entry>),
    Located(Result<Option<Location>, AppError>),
    Fetched(Result<WeatherData, AppError>),
}

/// A step as plain values; a reading as its data and the text of its notice.
pub enum StepView {
    ReadCache,
    Geocode,
    Fetch(Location),
    Finish(Result<(WeatherData, Option<Seq<char>>), ErrorView>, bool),
}

impl View for Step {
    type V = StepView;

    open spec fn view(&self) -> StepView {
        match self {
            Step::ReadCache => StepView::ReadCache,
            Step::Geocode => StepView::Geocode,
            Step::Fetch(l) => StepView::Fetch(*l),
            Step::Finish { result, store } => StepView::Finish(
                match result {
                    Ok(r) => Ok(
                        (
                            r.data,
                            match r.notice {
                                Some(n) => Some(n@),
                                None => None,
                            },
                        ),
                    ),
                    Err(e) => Err(e@),
                },
                *store,
            ),
        }
    }
}

/// One resolution of a query: its parameters, its stage, and the cache entry
/// it found (if it looked).
pub struct Resolver {
    query: String,
    units: Units,
    ttl_seconds: u64,
    now: u64,
    use_cache: bool,
    stage: Stage,
    cached: Option<Entry>,
}

pub struct ResolverView {
    pub query: Seq<char>,
    pub units: Units,
    pub ttl_seconds: u64,
    pub now: u64,
    pub use_cache: bool,
    pub stage: Stage,
    pub cached: Option<Entry>,
}

impl View for Resolver {
    type V = ResolverView;

    closed spec fn view(&self) -> ResolverView {
        ResolverView {
            query: self.query@,
            units: self.units,
            ttl_seconds: self.ttl_seconds,
            now: self.now,
            use_cache: self.use_cache,
            stage: self.stage,
            cached: self.cached,
        }
    }
}

/// The event that answers the step taken at this stage.
pub open spec fn answers(stage: Stage, e: Event) -> bool {
    match e {
        Event::Cached(_) => stage == Stage::ReadingCache,
        Event::Located(_) => stage == Stage::Locating,
        Event::Fetched(_) => stage == Stage::Fetching,
    }
}

pub open spec fn fresh(e: Entry, now: u64, ttl: u64) -> bool {
    age_of(e.fetched_at, now) < ttl
}

/// `No network connection. Showing cached weather from 7 minutes ago.`
pub open spec fn stale_notice(e: AppError, entry: Entry, now: u64) -> Seq<char> {
    headline_text(e) + " Showing cached weather from "@ + humanize_age_spec(
        age_of(entry.fetched_at, now) as nat,
    ) + "."@
}

/// A failure settles the resolution: a transient one falls back to the
/// cached entry with a notice, if there is one; anything else is the error.
pub open spec fn fall_back(s: ResolverView, e: AppError) -> StepView {
    match s.cached {
        Some(entry) => if transient(e) {
            StepView::Finish(Ok((entry.data, Some(stale_notice(e, entry, s.now)))), false)
        } else {
            StepView::Finish(Err(e@), false)
        },
        None => StepView::Finish(Err(e@), false),
    }
}

pub open spec fn with_stage(s: ResolverView, stage: Stage) -> ResolverView {
    ResolverView { stage, ..s }
}

/// The first step: read the cache, unless told not to.
pub open spec fn start_spec(s: ResolverView) -> (ResolverView, StepView) {
    if s.use_cache {
        (with_stage(s, Stage::ReadingCache), StepView::ReadCache)
    } else {
        (with_stage(s, Stage::Locating), StepView::Geocode)
    }
}

/// The cache/provider decision in one place: fresh cache wins, then the
/// network, then — only for transient failures — whatever the cache still has.
pub open spec fn advance_spec(s: ResolverView, e: Event) -> (ResolverView, StepView) {
    match e {
        Event::Cached(c) => match c {
            Some(entry) => if fresh(entry, s.now, s.ttl_seconds) {
                (with_stage(s, Stage::Finished), StepView::Finish(Ok((entry.data, None)), false))
            } else {
                (ResolverView { stage: Stage::Locating, cached: c, ..s }, StepView::Geocode)
            },
            None => (ResolverView { stage: Stage::Locating, cached: c, ..s }, StepView::Geocode),
        },
        Event::Located(l) => match l {
            Ok(Some(loc)) => (with_stage(s, Stage::Fetching), StepView::Fetch(loc)),
            Ok(None) => (
                with_stage(s, Stage::Finished),
                StepView::Finish(Err(ErrorView::UnknownLocation(s.query)), false),
            ),
            Err(err) => (with_stage(s, Stage::Finished), fall_back(s, err)),
        },
        Event::Fetched(f) => match f {
            Ok(data) => (with_stage(s, Stage::Finished), StepView::Finish(Ok((data, None)), true)),
            Err(err) => (with_stage(s, Stage::Finished), fall_back(s, err)),
        },
    }
}

fn finish_err(err: AppError) -> (s: Step)
    ensures
        s@ == StepView::Finish(Err(err@), false),
{
    Step::Finish { result: Err(err), store: false }
}

impl Resolver {
    pub fn new(query: &str, units: Units, ttl_seconds: u64, now: u64, use_cache: bool) -> (r: Self)
        ensures
            r@ == (ResolverView {
                query: query@,
                units,
                ttl_seconds,
                now,
                use_cache,
                stage: Stage::Start,
                cached: None,
            }),
    {
        Resolver {
            query: String::from_str(query),
            units,
            ttl_seconds,
            now,
            use_cache,
            stage: Stage::Start,
            cached: None,
        }
    }

    pub fn stage(&self) -> (s: Stage)
        ensures
            s == self@.stage,
    {
        self.stage
    }

    /// The first step to take.
    pub fn start(self) -> (out: (Resolver, Step))
        requires
            self@.stage == Stage::Start,
        ensures
            (out.0@, out.1@) == start_spec(self@),
    {
        let mut r = self;
        if r.use_cache {
            r.stage = Stage::ReadingCache;
            (r, Step::ReadCache)
        } else {
            r.stage = Stage::Locating;
            (r, Step::Geocode)
        }
    }

    fn fall_back(self, err: AppError) -> (out: (Resolver, Step))
        ensures
            out.0@.stage == Stage::Finished,
            out.1@ == fall_back(self@, err),
    {
        let mut r = self;
        r.stage = Stage::Finished;
        let mut cached: Option<Entry> = None;
        std::mem::swap(&mut cached, &mut r.cached);
        match cached {
            Some(entry) => {
                if err.is_transient() {
                    let mut notice = err.headline();
                    notice.append(" Showing cached weather from ");
                    notice.append(humanize_age(entry.age_seconds(r.now)).as_str());
                    notice.append(".");
                    assert(notice@ =~= stale_notice(err, entry, r.now));
                    let step = Step::Finish {
                        result: Ok(Reading { data: entry.data, notice: Some(notice) }),
                        store: false,
                    };
                    (r, step)
                } else {
                    (r, finish_err(err))
                }
            },
            None => (r, finish_err(err)),
        }
    }

    /// The step that follows from what happened.
    pub fn advance(self, event: Event) -> (out: (Resolver, Step))
        requires
            answers(self@.stage, event),
        ensures
            out.1@ == advance_spec(self@, event).1,
            out.0@.stage == advance_spec(self@, event).0.stage,
            !(out.1@ is Finish) ==> out.0@ == advance_spec(self@, event).0,
    {
        let mut r = self;
        match event {
            Event::Cached(c) => {
                let fresh_hit = match &c {
                    Some(entry) => entry.is_fresh(r.now, r.ttl_seconds),
                    None => false,
                };
                if fresh_hit {
                    r.stage = Stage::Finished;
                    match c {
                        Some(entry) => (r, Step::Finish {
                            result: Ok(Reading { data: entry.data, notice: None }),
                            store: false,
                        }),
                        None => (r, Step::Geocode),
                    }
                } else {
                    r.stage = Stage::Locating;
                    r.cached = c;
                    (r, Step::Geocode)
                }
            },
            Event::Located(l) => match l {
                Ok(Some(loc)) => {
                    r.stage = Stage::Fetching;
                    (r, Step::Fetch(loc))
                },
                Ok(None) => {
                    r.stage = Stage::Finished;
                    let q = r.query.clone();
                    (r, finish_err(AppError::UnknownLocation(q)))
                },
                Err(err) => r.fall_back(err),
            },
            Event::Fetched(f) => match f {
                Ok(data) => {
                    r.stage = Stage::Finished;
                    (r, Step::Finish { result: Ok(Reading { data, notice: None }), store: true })
                },
                Err(err) => r.fall_back(err),
            },
        }
    }
}

/// A fresh cache entry answers the query on its own: the resolution ends
/// there, with the cached data and no notice, and nothing is asked of the
/// provider.
pub proof fn fresh_cache_skips_the_network(s: ResolverView, entry: Entry)
    requires
        fresh(entry, s.now, s.ttl_seconds),
    ensures
        advance_spec(s, Event::Cached(Some(entry))).1 == StepView::Finish(Ok((entry.data, None)), false),
{
}

/// An expired or missing entry sends the query to the provider, and keeps
/// the entry in hand for a fall-back.
pub proof fn stale_or_missing_entry_asks_the_provider(s: ResolverView, c: Option<Entry>)
    requires
        !(c matches Some(entry) && fresh(entry, s.now, s.ttl_seconds)),
    ensures
        advance_spec(s, Event::Cached(c)).1 == StepView::Geocode,
        advance_spec(s, Event::Cached(c)).0.cached == c,
{
}

/// With the cache turned off the first thing done is a request, and no
/// cached entry can ever be served.
pub proof fn no_cache_forces_a_request(s: ResolverView)
    requires
        !s.use_cache,
        s.cached is None,
    ensures
        start_spec(s).1 == StepView::Geocode,
        start_spec(s).0.cached is None,
        forall|e: AppError| (#[trigger] fall_back(start_spec(s).0, e)) == StepView::Finish(Err(e@), false),
{
}

/// Fresh weather from the provider is returned as it is, without a notice,
/// and is to be stored in the cache.
pub proof fn fresh_data_is_stored(s: ResolverView, data: WeatherData)
    ensures
        advance_spec(s, Event::Fetched(Ok(data))).1 == StepView::Finish(Ok((data, None)), true),
{
}

/// A transient failure (network or service) falls back to the cached entry
/// when there is one, saying so in a notice that gives the failure and the
/// entry's age; without an entry, and for any other failure, the failure is
/// the answer. Either way nothing is stored.
pub proof fn only_transient_failures_fall_back(s: ResolverView, err: AppError)
    ensures
        (transient(err) && s.cached is Some) ==> fall_back(s, err) == StepView::Finish(
            Ok((s.cached->0.data, Some(stale_notice(err, s.cached->0, s.now)))),
            false,
        ),
        !(transient(err) && s.cached is Some) ==> fall_back(s, err) == StepView::Finish(Err(err@), false),
        advance_spec(s, Event::Located(Err(err))).1 == fall_back(s, err),
        advance_spec(s, Event::Fetched(Err(err))).1 == fall_back(s, err),
{
}

/// A place the provider does not know is an error naming the query, even
/// when the cache holds an entry for it.
pub proof fn unknown_place_is_never_papered_over(s: ResolverView)
    ensures
        advance_spec(s, Event::Located(Ok(None))).1 == StepView::Finish(
            Err(ErrorView::UnknownLocation(s.query)),
            false,
        ),
{
}

} // verus!
