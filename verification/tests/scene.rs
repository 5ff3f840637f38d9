//! The rendering pipeline, end to end, without a network, a terminal or a clock.
//!
//! `WeatherData -> generate -> SceneModel -> lines`

use asciiweather::render::ascii::{panel, scene_lines, Layout};
use asciiweather::render::color::{self, Paint};
use asciiweather::scene::model::{Sprite, Tier};
use asciiweather::scene::primitives::{bolt, cloud, fog_band, horizon, moon, sun, wind_streak, Glyphs, Size};
use asciiweather::scene::rng::Rng;
use asciiweather::scene::{default_seed, generate, RenderOptions, SceneModel, Style};
use asciiweather::weather::{Intensity, Location, Units, WeatherCondition, WeatherData};

fn weather(condition: WeatherCondition, intensity: Intensity, night: bool) -> WeatherData {
    WeatherData {
        location: Location {
            name: "Chennai".into(),
            country: "India".into(),
            latitude: 130_878_400,
            longitude: 802_784_700,
        },
        observed_at: if night { "2026-08-20T22:10" } else { "2026-08-20T14:15" }.into(),
        temperature: 27_300,
        feels_like: 32_700,
        humidity: 87,
        wind_speed: 9_000,
        wind_direction: 225,
        cloud_cover: match condition {
            WeatherCondition::Clear => 5,
            WeatherCondition::PartlyCloudy => 40,
            _ => 92,
        },
        precipitation: 1_400,
        precipitation_probability: Some(72),
        condition,
        intensity,
        sunrise: Some("2026-08-20T05:56".into()),
        sunset: Some("2026-08-20T18:22".into()),
        units: Units::Metric,
        forecast: vec![],
    }
}

fn scene(condition: WeatherCondition, intensity: Intensity, night: bool, width: usize) -> SceneModel {
    generate(&weather(condition, intensity, night), &RenderOptions::new(width, 42))
}

fn styles(scene: &SceneModel) -> Vec<Style> {
    scene
        .layers()
        .iter()
        .flat_map(|layer| layer.iter().map(|s| s.style))
        .collect()
}

fn text(scene: &SceneModel) -> String {
    color::to_string(&scene_lines(scene), false, scene.night)
}

const ALL: [(WeatherCondition, Intensity); 11] = [
    (WeatherCondition::Clear, Intensity::Light),
    (WeatherCondition::PartlyCloudy, Intensity::Light),
    (WeatherCondition::Cloudy, Intensity::Moderate),
    (WeatherCondition::Fog, Intensity::Moderate),
    (WeatherCondition::Drizzle, Intensity::Light),
    (WeatherCondition::Rain, Intensity::Moderate),
    (WeatherCondition::HeavyRain, Intensity::Heavy),
    (WeatherCondition::Snow, Intensity::Moderate),
    (WeatherCondition::HeavySnow, Intensity::Heavy),
    (WeatherCondition::Thunderstorm, Intensity::Heavy),
    (WeatherCondition::Unknown, Intensity::Moderate),
];

#[test]
fn every_condition_draws_something_inside_its_canvas() {
    for (condition, intensity) in ALL {
        for night in [false, true] {
            let scene = scene(condition, intensity, night, 46);
            assert!(scene.sprite_count() > 0, "{condition:?} night={night} produced an empty scene");
            for layer in scene.layers() {
                for sprite in layer {
                    let (x0, y0, x1, y1) = sprite.bbox();
                    assert!(
                        x0 >= 0 && y0 >= 0 && x1 <= scene.width as i32 + 1 && y1 <= scene.height as i32,
                        "{condition:?} sprite {sprite:?} escapes {}x{}",
                        scene.width,
                        scene.height
                    );
                }
            }
        }
    }
}

#[test]
fn each_condition_uses_the_right_vocabulary() {
    let has = |c, i, n, style| styles(&scene(c, i, n, 46)).contains(&style);

    assert!(has(WeatherCondition::Clear, Intensity::Light, false, Style::Sun));
    assert!(has(WeatherCondition::Clear, Intensity::Light, true, Style::Moon));
    assert!(has(WeatherCondition::PartlyCloudy, Intensity::Light, false, Style::Cloud));
    assert!(has(WeatherCondition::Cloudy, Intensity::Moderate, false, Style::Cloud));
    assert!(!has(WeatherCondition::Cloudy, Intensity::Moderate, false, Style::Sun));
    assert!(has(WeatherCondition::Fog, Intensity::Moderate, false, Style::Fog));
    assert!(has(WeatherCondition::Rain, Intensity::Moderate, false, Style::Rain));
    assert!(has(WeatherCondition::HeavyRain, Intensity::Heavy, false, Style::Rain));
    assert!(has(WeatherCondition::Snow, Intensity::Moderate, false, Style::Snow));
    assert!(has(WeatherCondition::HeavySnow, Intensity::Heavy, false, Style::Snow));
    assert!(has(WeatherCondition::Thunderstorm, Intensity::Heavy, false, Style::Bolt));
    assert!(!has(WeatherCondition::Rain, Intensity::Moderate, false, Style::Snow));
    assert!(!has(WeatherCondition::Snow, Intensity::Moderate, false, Style::Rain));
    assert!(!has(WeatherCondition::Clear, Intensity::Light, false, Style::Rain));
}

#[test]
fn night_never_renders_the_same_as_day() {
    for (condition, intensity) in ALL {
        assert_ne!(
            text(&scene(condition, intensity, false, 46)),
            text(&scene(condition, intensity, true, 46)),
            "{condition:?} looks identical by day and by night"
        );
    }
}

#[test]
fn night_swaps_the_sun_for_a_moon_and_adds_stars() {
    let night = scene(WeatherCondition::Clear, Intensity::Light, true, 46);
    assert!(night.night);
    assert!(styles(&night).contains(&Style::Star));
    assert!(!styles(&night).contains(&Style::Sun));
}

#[test]
fn intensity_drives_precipitation_density() {
    let count = |intensity| scene(WeatherCondition::Rain, intensity, false, 46).precipitation.len();
    assert!(count(Intensity::Light) < count(Intensity::Moderate));
    assert!(count(Intensity::Moderate) < count(Intensity::Heavy));
}

#[test]
fn wind_slants_the_rain_and_only_shows_up_when_it_blows() {
    let mut calm = weather(WeatherCondition::Rain, Intensity::Moderate, false);
    calm.wind_speed = 3_000;
    let mut gale = calm.clone();
    gale.wind_speed = 60_000;

    let calm_scene = generate(&calm, &RenderOptions::new(46, 42));
    let gale_scene = generate(&gale, &RenderOptions::new(46, 42));

    assert!(calm_scene.wind.is_empty(), "a breeze should not be drawn");
    assert!(!gale_scene.wind.is_empty(), "a gale should be drawn");
    assert!(text(&calm_scene).contains('│'));
    assert!(text(&gale_scene).contains('╱'), "wind should slant the rain");

    // Wind direction is where it comes *from*: a westerly blows to the right.
    let mut easterly = gale.clone();
    easterly.wind_direction = 90;
    assert!(text(&generate(&easterly, &RenderOptions::new(46, 42))).contains('╲'));
}

#[test]
fn same_seed_same_scene_different_seed_different_scene() {
    let data = weather(WeatherCondition::Rain, Intensity::Moderate, false);
    let at = |seed| generate(&data, &RenderOptions::new(46, seed));

    assert_eq!(at(42), at(42));
    assert_eq!(text(&at(42)), text(&at(42)));
    assert_ne!(text(&at(42)), text(&at(43)));

    // …and the default seed is stable for a given observation.
    assert_eq!(default_seed(&data), default_seed(&data.clone()));
    let mut later = data.clone();
    later.observed_at = "2026-08-20T14:30".into();
    assert_ne!(default_seed(&data), default_seed(&later));
}

#[test]
fn animation_frames_move_without_reshaping_the_sky() {
    let data = weather(WeatherCondition::Rain, Intensity::Moderate, false);
    let frame = |n| generate(&data, &RenderOptions { frame: n, ..RenderOptions::new(46, 42) });
    assert_eq!(frame(0).clouds, frame(5).clouds, "clouds must not jitter");
    assert_ne!(frame(0).precipitation, frame(5).precipitation);
    assert_ne!(frame(0).clouds, frame(30).clouds, "clouds should drift slowly");
    assert_eq!(frame(3), frame(3));
}

#[test]
fn narrow_terminals_simplify_rather_than_overflow() {
    let tiny = scene(WeatherCondition::Rain, Intensity::Moderate, false, 20);
    let roomy = scene(WeatherCondition::Rain, Intensity::Moderate, false, 90);

    assert!(tiny.width <= 20 && roomy.width == 90);
    assert!(tiny.sprite_count() < roomy.sprite_count());
    assert!(tiny.foreground.is_empty(), "compact drops decoration");
    assert!(!roomy.foreground.is_empty());
    for line in text(&tiny).lines() {
        assert!(line.chars().count() <= 20);
    }
}

#[test]
fn plain_mode_produces_only_ascii() {
    for (condition, intensity) in ALL {
        for night in [false, true] {
            let scene = generate(
                &weather(condition, intensity, night),
                &RenderOptions { ascii: true, ..RenderOptions::new(46, 42) },
            );
            let out = color::to_string(
                &panel(&weather(condition, intensity, night), &scene, &Layout::new(52, true)),
                false,
                night,
            );
            assert!(
                out.chars().all(|c| c.is_ascii() || c == '°'),
                "{condition:?} night={night} leaked non-ASCII:\n{out}"
            );
        }
    }
}

#[test]
fn tiny_widths_are_widened_to_the_minimum_and_heights_kept_at_five() {
    let data = weather(WeatherCondition::Clear, Intensity::Light, false);
    let s = generate(&data, &RenderOptions { height: Some(2), ..RenderOptions::new(3, 7) });
    assert_eq!(s.width, 14);
    assert_eq!(s.height, 5);
    assert_eq!(s.tier, Tier::Compact);
    assert_eq!(Tier::for_width(36), Tier::Normal);
    assert_eq!(Tier::for_width(60), Tier::Wide);
    assert_eq!(Tier::Wide.height(), 13);
}

#[test]
fn sprites_measure_their_art() {
    let s = Sprite::new(2, 3, Style::Cloud, vec!["ab".into(), "abcd".into()]);
    assert_eq!(s.width(), 4);
    assert_eq!(s.height(), 2);
    assert_eq!(s.bbox(), (2, 3, 6, 5));
    let g = Sprite::glyph(6, 3, Style::Rain, '|');
    assert!(s.overlaps(&g, 0) == false);
    assert!(s.overlaps(&g, 1));
    assert!(s.contains(5, 4, 0));
    assert!(!s.contains(6, 4, 0));
    assert_eq!(SceneModel::empty(10, 5, Tier::Compact, false).sprite_count(), 0);
}

#[test]
fn art_blocks_are_non_empty_and_bounded() {
    for size in [Size::Small, Size::Medium, Size::Large] {
        for block in [sun(size), moon(size), cloud(size)] {
            assert!(!block.is_empty());
            assert!(block.iter().all(|l| l.chars().count() <= 16));
        }
    }
    assert_eq!(bolt().len(), 4);
}

#[test]
fn sizes_are_ordered() {
    let w = |b: Vec<String>| b.iter().map(|l| l.chars().count()).max().unwrap();
    assert!(w(cloud(Size::Small)) < w(cloud(Size::Medium)));
    assert!(w(cloud(Size::Medium)) < w(cloud(Size::Large)));
    assert!(w(sun(Size::Small)) < w(sun(Size::Large)));
}

#[test]
fn bands_and_horizons_fill_exactly_the_requested_width() {
    let glyphs = Glyphs::new(true);
    for width in [1usize, 7, 40, 100] {
        let mut rng = Rng::new(9);
        assert_eq!(fog_band(width, &glyphs, &mut rng).chars().count(), width);
        assert_eq!(horizon(width, &glyphs, &mut rng).chars().count(), width);
    }
}

#[test]
fn wind_points_both_ways() {
    let glyphs = Glyphs::new(true);
    assert_eq!(wind_streak(4, true, &glyphs), "---->");
    assert_eq!(wind_streak(4, false, &glyphs), "<----");
}

#[test]
fn plain_art_is_pure_ascii() {
    let glyphs = Glyphs::new(true);
    let mut rng = Rng::new(1);
    let mut all = String::new();
    for size in [Size::Small, Size::Medium, Size::Large] {
        for block in [sun(size), moon(size), cloud(size)] {
            all.push_str(&block.join(""));
        }
    }
    all.push_str(&bolt().join(""));
    all.push_str(&fog_band(30, &glyphs, &mut rng));
    all.push_str(&horizon(30, &glyphs, &mut rng));
    all.push_str(&wind_streak(3, true, &glyphs));
    all.extend(glyphs.snow.iter().chain(glyphs.star.iter()));
    all.push(glyphs.rain);
    assert!(all.is_ascii(), "plain mode must stay ASCII: {all}");
}

fn take(seed: u64, n: usize) -> Vec<u64> {
    let mut rng = Rng::new(seed);
    (0..n).map(|_| rng.next_u64()).collect()
}

#[test]
fn same_seed_same_stream() {
    assert_eq!(take(42, 8), take(42, 8));
}

#[test]
fn different_seeds_diverge() {
    assert_ne!(take(1, 8), take(2, 8));
}

#[test]
fn stays_inside_bounds() {
    let mut r = Rng::new(7);
    for _ in 0..500 {
        let v = r.range(-3, 9);
        assert!((-3..=9).contains(&v));
        assert!(r.below(5) < 5);
    }
    assert_eq!(r.range(4, 4), 4);
    assert_eq!(r.below(0), 0);
}

#[test]
fn splitmix_matches_its_reference_values() {
    // SplitMix64 seeded with 0 (the state starts one golden step in).
    let mut r = Rng::new(0u64.wrapping_sub(0x9E37_79B9_7F4A_7C15));
    assert_eq!(r.next_u64(), 0xE220_A839_7B1D_CDAF);
    let mut p = Rng::new(3);
    assert_eq!(*p.pick(&[7, 8, 9]), [7, 8, 9][Rng::new(3).below(3)]);
}

#[test]
fn distinct_seeds_give_distinct_first_draws() {
    let firsts: Vec<u64> = (0..64u64).map(|s| Rng::new(s).next_u64()).collect();
    for i in 0..firsts.len() {
        for j in 0..i {
            assert_ne!(firsts[i], firsts[j], "seeds {i} and {j}");
        }
    }
}

#[test]
fn scene_rows_show_the_front_sprite_in_maximal_runs() {
    let mut s = SceneModel::empty(6, 2, Tier::Compact, false);
    s.clouds.push(Sprite::new(1, 0, Style::Cloud, vec!["aaa".to_string()]));
    s.precipitation.push(Sprite::new(2, 0, Style::Rain, vec!["r r".to_string()]));
    let rows = scene_lines(&s);
    assert_eq!(rows.len(), 2);
    let texts: Vec<(String, Paint)> = rows[0].iter().map(|sp| (sp.text.clone(), sp.paint)).collect();
    assert_eq!(
        texts,
        vec![
            (" ".to_string(), Paint::Plain),
            ("a".to_string(), Paint::Scene(Style::Cloud)),
            ("r".to_string(), Paint::Scene(Style::Rain)),
            ("a".to_string(), Paint::Scene(Style::Cloud)),
            ("r".to_string(), Paint::Scene(Style::Rain)),
            (" ".to_string(), Paint::Plain),
        ]
    );
    let blank: Vec<(String, Paint)> = rows[1].iter().map(|sp| (sp.text.clone(), sp.paint)).collect();
    assert_eq!(blank, vec![("      ".to_string(), Paint::Plain)]);
}

#[test]
fn very_wide_sheets_are_drawn_too() {
    let s = scene(WeatherCondition::Rain, Intensity::Heavy, true, 100_000);
    assert_eq!(s.width, 100_000);
    assert!(!s.precipitation.is_empty());
    assert!(!s.background.is_empty());
    for sp in s.precipitation.iter().chain(s.background.iter()) {
        assert!(sp.x >= 0 && (sp.x as usize) < s.width);
        assert!(sp.y >= 0 && (sp.y as usize) < s.height);
    }
}

#[test]
fn every_frame_has_a_scene() {
    let calm = weather(WeatherCondition::Clear, Intensity::Light, false);
    let mut stormy = weather(WeatherCondition::HeavyRain, Intensity::Heavy, false);
    stormy.wind_speed = 60_000;
    stormy.wind_direction = 90;
    for w in [&calm, &stormy] {
        for frame in [0u64, 1 << 30, (1 << 31) + 7, 6 << 32, u64::MAX] {
            let mut o = RenderOptions::new(52, 42);
            o.frame = frame;
            let s = generate(w, &o);
            for layer in s.layers() {
                for sp in layer.iter() {
                    assert!(sp.x > -40 && (sp.x as usize) < s.width + 40, "frame {frame}");
                    assert!(sp.y >= 0 && (sp.y as usize) < s.height, "frame {frame}");
                }
            }
            for d in s.precipitation.iter() {
                assert!(d.x >= 0 && (d.x as usize) < s.width);
            }
        }
    }
    // Sideways motion is taken as an `i32`: frames 6 * 2^32 apart put the
    // clouds and the drops in the same columns.
    let at = |frame: u64| {
        let mut o = RenderOptions::new(52, 42);
        o.frame = frame;
        generate(&stormy, &o)
    };
    let a = at(1000);
    let b = at(1000 + (6 << 32));
    let xs = |s: &SceneModel| s.precipitation.iter().map(|d| d.x).collect::<Vec<i32>>();
    assert_eq!(xs(&a), xs(&b));
    let cloud_xs = |s: &SceneModel| s.clouds.iter().map(|c| c.x).collect::<Vec<i32>>();
    assert_eq!(cloud_xs(&a), cloud_xs(&b));
    assert_eq!(cloud_xs(&at(0)), cloud_xs(&at(6 << 32)));
}
