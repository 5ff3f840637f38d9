//! Cache and provider-failure behaviour, driven through the resolution state
//! machine with a fake provider and an in-memory cache, so the suite never
//! touches the network or the disk.

use std::cell::{Cell, RefCell};
use std::collections::HashMap;

use asciiweather::error::AppError;
use asciiweather::weather::cache::{Cache, Entry};
use asciiweather::weather::{Event, Intensity, Location, Reading, Resolver, Step, Units, WeatherCondition, WeatherData};

struct FakeProvider {
    outcome: Box<dyn Fn() -> Result<WeatherData, AppError>>,
    calls: Cell<usize>,
}

impl FakeProvider {
    fn ok(temperature: i64) -> Self {
        FakeProvider { outcome: Box::new(move || Ok(sample(temperature))), calls: Cell::new(0) }
    }

    fn failing(err: fn() -> AppError) -> Self {
        FakeProvider { outcome: Box::new(move || Err(err())), calls: Cell::new(0) }
    }

    fn geocode(&self, query: &str) -> Result<Option<Location>, AppError> {
        self.calls.set(self.calls.get() + 1);
        if query == "Nowhereville" {
            return Ok(None);
        }
        match (self.outcome)() {
            Ok(data) => Ok(Some(data.location)),
            Err(err) => Err(err),
        }
    }

    fn fetch(&self, _location: &Location, _units: Units) -> Result<WeatherData, AppError> {
        (self.outcome)()
    }
}

fn sample(temperature: i64) -> WeatherData {
    WeatherData {
        location: Location {
            name: "Chennai".into(),
            country: "India".into(),
            latitude: 130_878_400,
            longitude: 802_784_700,
        },
        observed_at: "2026-08-20T14:15".into(),
        temperature,
        feels_like: 32_700,
        humidity: 87,
        wind_speed: 14_000,
        wind_direction: 225,
        cloud_cover: 92,
        precipitation: 1_400,
        precipitation_probability: Some(72),
        condition: WeatherCondition::Rain,
        intensity: Intensity::Moderate,
        sunrise: Some("2026-08-20T05:56".into()),
        sunset: Some("2026-08-20T18:22".into()),
        units: Units::Metric,
        forecast: vec![],
    }
}

/// Entries kept by file path, as the real cache would name the files.
struct MemCache {
    files: RefCell<HashMap<String, Entry>>,
    names: Cache,
}

impl MemCache {
    fn new() -> Self {
        MemCache { files: RefCell::new(HashMap::new()), names: Cache::new("/cache".into()) }
    }

    fn read(&self, query: &str, units: Units) -> Option<Entry> {
        self.files.borrow().get(&self.names.path_for(query, units)).cloned()
    }

    fn write(&self, query: &str, units: Units, fetched_at: u64, data: &WeatherData) {
        self.files
            .borrow_mut()
            .insert(self.names.path_for(query, units), Entry { fetched_at, data: data.clone() });
    }
}

fn resolve(
    provider: &FakeProvider,
    cache: &MemCache,
    query: &str,
    units: Units,
    ttl_seconds: u64,
    now: u64,
    use_cache: bool,
) -> Result<Reading, AppError> {
    let (mut resolver, mut step) = Resolver::new(query, units, ttl_seconds, now, use_cache).start();
    loop {
        let event = match step {
            Step::ReadCache => Event::Cached(cache.read(query, units)),
            Step::Geocode => Event::Located(provider.geocode(query)),
            Step::Fetch(location) => Event::Fetched(provider.fetch(&location, units)),
            Step::Finish { result, store } => {
                if store {
                    if let Ok(reading) = &result {
                        cache.write(query, units, now, &reading.data);
                    }
                }
                return result;
            }
        };
        let (next, next_step) = resolver.advance(event);
        resolver = next;
        step = next_step;
    }
}

const TTL: u64 = 600;

#[test]
fn a_fresh_cache_entry_skips_the_network_entirely() {
    let cache = MemCache::new();
    let provider = FakeProvider::ok(27_300);

    let first = resolve(&provider, &cache, "Chennai", Units::Metric, TTL, 1_000, true).unwrap();
    assert_eq!(first.data.temperature, 27_300);
    assert!(first.notice.is_none());
    assert_eq!(provider.calls.get(), 1);

    // 5 minutes later, still inside the TTL.
    let second = resolve(&provider, &cache, "Chennai", Units::Metric, TTL, 1_300, true).unwrap();
    assert_eq!(second.data.temperature, 27_300);
    assert_eq!(provider.calls.get(), 1, "cache hit must not call the provider");
}

#[test]
fn an_expired_entry_is_refreshed() {
    let cache = MemCache::new();

    let warm = FakeProvider::ok(27_300);
    resolve(&warm, &cache, "Chennai", Units::Metric, TTL, 1_000, true).unwrap();

    let fresh = FakeProvider::ok(31_000);
    let reading = resolve(&fresh, &cache, "Chennai", Units::Metric, TTL, 9_999, true).unwrap();
    assert_eq!(reading.data.temperature, 31_000);
    assert!(reading.notice.is_none());
    assert_eq!(fresh.calls.get(), 1);
}

#[test]
fn no_cache_forces_a_request_even_when_the_entry_is_fresh() {
    let cache = MemCache::new();
    resolve(&FakeProvider::ok(27_300), &cache, "Chennai", Units::Metric, TTL, 1_000, true).unwrap();

    let provider = FakeProvider::ok(31_000);
    let reading = resolve(&provider, &cache, "Chennai", Units::Metric, TTL, 1_100, false).unwrap();
    assert_eq!(reading.data.temperature, 31_000);
    assert_eq!(provider.calls.get(), 1);
}

#[test]
fn a_network_outage_falls_back_to_stale_data_with_a_notice() {
    let cache = MemCache::new();
    resolve(&FakeProvider::ok(27_300), &cache, "Chennai", Units::Metric, TTL, 1_000, true).unwrap();

    // 7 minutes later the entry has expired (TTL 5 min) and the network is gone.
    let offline = FakeProvider::failing(|| AppError::Network("dns failure".into()));
    let reading = resolve(&offline, &cache, "Chennai", Units::Metric, 300, 1_000 + 420, true).unwrap();

    assert_eq!(reading.data.temperature, 27_300);
    let notice = reading.notice.expect("a stale reading must say so");
    assert!(notice.contains("No network connection."));
    assert!(notice.contains("7 minutes ago"), "{notice}");
    assert_eq!(notice, "No network connection. Showing cached weather from 7 minutes ago.");
}

#[test]
fn an_outage_with_no_cache_at_all_is_an_error() {
    let offline = FakeProvider::failing(|| AppError::Service("HTTP 503".into()));
    let err = resolve(&offline, &MemCache::new(), "Chennai", Units::Metric, TTL, 1_000, true).unwrap_err();

    assert_eq!(err.exit_code(), 4);
    assert_eq!(err.headline(), "Weather service is temporarily unavailable.");
}

#[test]
fn an_unknown_place_is_never_papered_over_with_stale_data() {
    let cache = MemCache::new();
    resolve(&FakeProvider::ok(27_300), &cache, "Chennai", Units::Metric, TTL, 1_000, true).unwrap();

    let err = resolve(&FakeProvider::ok(27_300), &cache, "Nowhereville", Units::Metric, TTL, 1_000, true)
        .unwrap_err();

    assert_eq!(err.exit_code(), 3);
    assert!(err.headline().contains("Nowhereville"));
    assert!(!err.is_transient());
}

#[test]
fn a_config_failure_is_never_papered_over_either() {
    let cache = MemCache::new();
    resolve(&FakeProvider::ok(27_300), &cache, "Chennai", Units::Metric, TTL, 1_000, true).unwrap();
    let broken = FakeProvider::failing(|| AppError::Config("disk full".into()));
    let err = resolve(&broken, &cache, "Chennai", Units::Metric, TTL, 99_000, true).unwrap_err();
    assert_eq!(err, AppError::Config("disk full".into()));
    assert_eq!(err.exit_code(), 1);
}

#[test]
fn queries_share_entries_across_case_but_not_across_units() {
    let cache = MemCache::new();
    resolve(&FakeProvider::ok(27_300), &cache, "Chennai", Units::Metric, TTL, 1_000, true).unwrap();
    assert!(cache.read("  chennai ", Units::Metric).is_some());
    assert!(cache.read("Chennai", Units::Imperial).is_none());
}

#[test]
fn the_resolver_asks_for_one_thing_at_a_time() {
    let (r, step) = Resolver::new("Chennai", Units::Metric, TTL, 1_000, true).start();
    assert!(matches!(step, Step::ReadCache));
    let (r, step) = r.advance(Event::Cached(None));
    assert!(matches!(step, Step::Geocode));
    let (_, step) = r.advance(Event::Located(Ok(Some(sample(1).location))));
    assert!(matches!(step, Step::Fetch(ref l) if l.name == "Chennai"));
}
