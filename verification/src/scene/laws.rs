//! What holds of every scene the generator draws, whatever the reading and
//! the seed.

use vstd::prelude::*;
use crate::scene::generator::{
    RenderOptions, blows_right, clear_of, drop_spec, lightning_spec, streaks_from, wind_spec, clouds_from, density, drop_count, drops_from, drifted, falling_spec,
    generate_spec, precipitation_spec, scene_height, scene_width, sky_spec, wind_level,
    celestial_spec, cloud_floor_of, default_seed_spec, shifted,
};
use crate::scene::model::{Style, Tier, SpriteView, tier_for};
use crate::scene::primitives::{GlyphView, Size, glyph_table, wind_streak_spec};
use crate::scene::rng::{draw_below, draw_chance, draw_range, lemma_draw_range};
use crate::scene::primitives::{bump, horizon_fill, horizon_fill_len, horizon_fill_step, horizon_spec};
use crate::text::repeat;
use crate::weather::model::{Intensity, WeatherCondition, WeatherData, is_night_spec, rainy, snowy};

verus! {

/// Wind is drawn only when it blows: a breeze (below 20 km/h, or its
/// equivalent in mph) or a compact scene gets no streaks.
pub proof fn wind_is_drawn_only_when_it_blows(w: WeatherData, o: RenderOptions)
    requires
        wind_level(w) == 0 || tier_for(scene_width(o)) == Tier::Compact,
    ensures
        generate_spec(w, o).wind.len() == 0,
{
    reveal(crate::scene::generator::wind_spec);
}

/// Narrow scenes simplify: a compact scene has no horizon, any other has
/// exactly one.
pub proof fn compact_scenes_drop_the_horizon(w: WeatherData, o: RenderOptions)
    ensures
        tier_for(scene_width(o)) == Tier::Compact <==> generate_spec(w, o).foreground.len() == 0,
        tier_for(scene_width(o)) != Tier::Compact ==> generate_spec(w, o).foreground.len() == 1,
{
    reveal(crate::scene::generator::foreground_spec);
}

/// Stars come out only at night.
pub proof fn stars_only_at_night(w: WeatherData, o: RenderOptions)
    requires
        !is_night_spec(w),
    ensures
        generate_spec(w, o).background.len() == 0,
{
}

/// The sky's one light is the sun by day and the moon by night, never the
/// other.
pub proof fn night_swaps_the_sun_for_the_moon(w: WeatherData, o: RenderOptions)
    ensures
        forall|i: int|
            0 <= i < generate_spec(w, o).celestial.len() ==> (#[trigger] generate_spec(w, o).celestial[i]).style
                == if is_night_spec(w) {
                Style::Moon
            } else {
                Style::Sun
            },
        generate_spec(w, o).celestial.len() <= 1,
{
    reveal(celestial_spec);
    reveal(sky_spec);
}

proof fn lemma_clouds_from_frames(
    i: nat,
    count: nat,
    size: Size,
    width: int,
    height: int,
    celestial: Seq<SpriteView>,
    f1: int,
    f2: int,
    placed: Seq<SpriteView>,
    s: u64,
)
    requires
        f1 / 6 == f2 / 6,
    ensures
        clouds_from(i, count, size, width, height, celestial, f1, placed, s) == clouds_from(
            i,
            count,
            size,
            width,
            height,
            celestial,
            f2,
            placed,
            s,
        ),
    decreases count - i,
{
    reveal(clouds_from);
    if i < count {
        assert(forall|sp: SpriteView| #[trigger] drifted(sp, width, f1) == drifted(sp, width, f2));
        let art = crate::scene::primitives::cloud_art(
            if i == 0 {
                size
            } else {
                crate::scene::generator::capped(size, Size::Medium)
            },
        );
        let aw = crate::scene::model::art_width(art) as int;
        let span = if width - aw > 0 {
            width - aw
        } else {
            0
        };
        let band = if height / 3 - 1 > 0 {
            height / 3 - 1
        } else {
            0
        };
        let (best, s1) = crate::scene::generator::cloud_candidates(
            0,
            art,
            span,
            band,
            celestial + placed,
            None,
            s,
        );
        let placed2 = match best {
            Some(sp) => placed.push(drifted(sp, width, f1)),
            None => placed,
        };
        lemma_clouds_from_frames(i + 1, count, size, width, height, celestial, f1, f2, placed2, s1);
    }
}

/// Clouds drift, they do not jitter: frames that fall in the same run of six
/// show the same sky (sun or moon and clouds) as each other.
pub proof fn the_sky_moves_every_sixth_frame(w: WeatherData, o1: RenderOptions, o2: RenderOptions)
    requires
        o1.width == o2.width,
        o1.height == o2.height,
        o1.seed == o2.seed,
        o1.ascii == o2.ascii,
        o1.frame / 6 == o2.frame / 6,
    ensures
        generate_spec(w, o1).clouds == generate_spec(w, o2).clouds,
        generate_spec(w, o1).celestial == generate_spec(w, o2).celestial,
{
    reveal(sky_spec);
    let cp = crate::scene::generator::cloud_plan_spec(w, tier_for(scene_width(o1)));
    let night = is_night_spec(w);
    let s0 = crate::scene::rng::seeded(o1.seed);
    let show = cp.0 <= 1 && w.condition != WeatherCondition::Fog;
    let (cel, s1) = if show {
        let (c, s1) = celestial_spec(
            night,
            tier_for(scene_width(o1)),
            scene_width(o1),
            cp.0 == 0 && !crate::scene::generator::wet(w),
            s0,
        );
        (seq![c], s1)
    } else {
        (Seq::empty(), s0)
    };
    lemma_clouds_from_frames(
        0,
        cp.0 as nat,
        cp.1,
        scene_width(o1),
        scene_height(w, o1),
        cel,
        o1.frame as int,
        o2.frame as int,
        Seq::empty(),
        s1,
    );
    assert(sky_spec(w, o1) == sky_spec(w, o2));
}

pub open spec fn rank(i: Intensity) -> int {
    match i {
        Intensity::Light => 0,
        Intensity::Moderate => 1,
        Intensity::Heavy => 2,
    }
}

proof fn lemma_drops_len(
    k: nat,
    count: nat,
    w: WeatherData,
    g: crate::scene::primitives::GlyphView,
    clouds: Seq<SpriteView>,
    width: int,
    top: int,
    span: int,
    frame: int,
    out: Seq<SpriteView>,
    s: u64,
)
    ensures
        drops_from(k, count, w, g, clouds, width, top, span, frame, out, s).0.len() == out.len() + (
        if k < count {
            count - k
        } else {
            0
        }),
    decreases count - k,
{
    if k < count {
        let (d, s1) = crate::scene::generator::drop_spec(w, g, clouds, width, top, span, frame, s);
        lemma_drops_len(k + 1, count, w, g, clouds, width, top, span, frame, out.push(d), s1);
    }
}

proof fn lemma_drop_count_monotone(a: int, d1: int, d2: int)
    requires
        a >= 0,
        d1 <= d2,
    ensures
        drop_count(a, 1, d1) <= drop_count(a, 1, d2),
{
    assert(a * 1 * d1 <= a * 1 * d2) by (nonlinear_arith)
        requires
            a >= 0,
            d1 <= d2,
    ;
    assert((a * 1 * d1 + 5000) / 10000 <= (a * 1 * d2 + 5000) / 10000) by (nonlinear_arith)
        requires
            a * 1 * d1 <= a * 1 * d2,
    ;
}

/// Intensity drives density: with the same condition, a heavier intensity
/// asks for more drops per cell, and the same scene gets at least as many
/// falling drops (thunderstorms add bolts and are left out).
pub proof fn heavier_precipitation_is_denser(
    w: WeatherData,
    o: RenderOptions,
    lighter: Intensity,
    heavier: Intensity,
)
    requires
        rank(lighter) < rank(heavier),
        w.condition != WeatherCondition::Thunderstorm,
    ensures
        density(WeatherData { intensity: lighter, ..w }) < density(WeatherData { intensity: heavier, ..w }),
        generate_spec(WeatherData { intensity: lighter, ..w }, o).precipitation.len() <= generate_spec(
            WeatherData { intensity: heavier, ..w },
            o,
        ).precipitation.len(),
{
    let w1 = WeatherData { intensity: lighter, ..w };
    let w2 = WeatherData { intensity: heavier, ..w };
    reveal(sky_spec);
    reveal(falling_spec);
    assert(sky_spec(w1, o) == sky_spec(w2, o));
    assert(scene_height(w1, o) == scene_height(w2, o));
    let (cel, cl, s2) = sky_spec(w1, o);
    let night = is_night_spec(w1);
    let width = scene_width(o);
    let height = scene_height(w1, o);
    let s3 = if night {
        crate::scene::generator::stars_spec(
            w.cloud_cover as int,
            cl,
            cel,
            width,
            height,
            glyph_table(o.ascii).star,
            o.frame as int,
            s2,
        ).1
    } else {
        s2
    };
    reveal(precipitation_spec);
    let floor = cloud_floor_of(cl);
    let top = if floor > 1 {
        floor
    } else {
        1
    };
    let bottom = height - 1;
    if (rainy(w.condition) || snowy(w.condition)) && bottom > top {
        let span = bottom - top;
        let g = glyph_table(o.ascii);
        let c1 = drop_count(width, span, density(w1));
        let c2 = drop_count(width, span, density(w2));
        assert(width * span >= 0) by (nonlinear_arith)
            requires
                width >= 0,
                span >= 0,
        ;
        assert(width * span * density(w1) == (width * span) * 1 * density(w1)) by (nonlinear_arith);
        assert(width * span * density(w2) == (width * span) * 1 * density(w2)) by (nonlinear_arith);
        lemma_drop_count_monotone(width * span, density(w1), density(w2));
        assert(c1 >= 0) by (nonlinear_arith)
            requires
                width >= 0,
                span >= 0,
                density(w1) >= 0,
                c1 == (width * span * density(w1) + 5000) / 10000,
        ;
        lemma_drops_len(0, c1 as nat, w1, g, cl, width, top, span, o.frame as int, Seq::empty(), s3);
        lemma_drops_len(0, c2 as nat, w2, g, cl, width, top, span, o.frame as int, Seq::empty(), s3);
    }
}

/// The default seed is a function of the place name and the observation
/// time alone: the same reading redraws the same picture.
pub proof fn default_seed_follows_the_reading(a: WeatherData, b: WeatherData)
    requires
        a.location.name@ == b.location.name@,
        a.observed_at@ == b.observed_at@,
    ensures
        default_seed_spec(a) == default_seed_spec(b),
{
}

/// The glyph a raindrop is drawn with: slanted the way the wind blows once
/// it blows (20 km/h and up), else by intensity.
pub open spec fn rain_glyph(w: WeatherData, g: GlyphView) -> char {
    if wind_level(w) > 0 {
        if blows_right(w) {
            g.slant_right
        } else {
            g.slant_left
        }
    } else {
        match w.intensity {
            Intensity::Light => g.drizzle,
            Intensity::Moderate => g.rain,
            Intensity::Heavy => g.rain_heavy,
        }
    }
}

pub open spec fn drops_drawn_with(v: Seq<SpriteView>, c: char) -> bool {
    forall|k: int| 0 <= k < v.len() && (#[trigger] v[k]).style == Style::Rain ==> v[k].art == seq![seq![c]]
}

proof fn lemma_drops_glyph(
    k: nat,
    count: nat,
    w: WeatherData,
    g: GlyphView,
    clouds: Seq<SpriteView>,
    width: int,
    top: int,
    span: int,
    frame: int,
    out: Seq<SpriteView>,
    s: u64,
)
    requires
        drops_drawn_with(out, rain_glyph(w, g)),
    ensures
        drops_drawn_with(drops_from(k, count, w, g, clouds, width, top, span, frame, out, s).0, rain_glyph(w, g)),
    decreases count - k,
{
    if k < count {
        let (d, s1) = drop_spec(w, g, clouds, width, top, span, frame, s);
        assert(drops_drawn_with(out.push(d), rain_glyph(w, g))) by {
            assert forall|j: int| 0 <= j < out.push(d).len() && (#[trigger] out.push(d)[j]).style == Style::Rain
                implies out.push(d)[j].art == seq![seq![rain_glyph(w, g)]] by {
                if j < out.len() {
                    assert(out.push(d)[j] == out[j]);
                }
            }
        }
        lemma_drops_glyph(k + 1, count, w, g, clouds, width, top, span, frame, out.push(d), s1);
    }
}

proof fn lemma_clear_of_glyph(drops: Seq<SpriteView>, bolt: Seq<SpriteView>, c: char)
    requires
        drops_drawn_with(drops, c),
    ensures
        drops_drawn_with(clear_of(drops, bolt), c),
    decreases drops.len(),
{
    if drops.len() > 0 {
        assert(drops_drawn_with(drops.drop_last(), c)) by {
            assert forall|j: int| 0 <= j < drops.drop_last().len() && (#[trigger] drops.drop_last()[j]).style == Style::Rain
                implies drops.drop_last()[j].art == seq![seq![c]] by {
                assert(drops.drop_last()[j] == drops[j]);
            }
        }
        lemma_clear_of_glyph(drops.drop_last(), bolt, c);
        let rest = clear_of(drops.drop_last(), bolt);
        assert(drops_drawn_with(rest.push(drops.last()), c)) by {
            assert forall|j: int| 0 <= j < rest.push(drops.last()).len() && (#[trigger] rest.push(drops.last())[j]).style == Style::Rain
                implies rest.push(drops.last())[j].art == seq![seq![c]] by {
                if j < rest.len() {
                    assert(rest.push(drops.last())[j] == rest[j]);
                } else {
                    assert(drops.last() == drops[drops.len() - 1]);
                }
            }
        }
    }
}

/// Wind slants the rain the way it blows: once the wind is up every raindrop
/// is the slanted glyph for its direction (a westerly leans right), and in a
/// calm every raindrop is the glyph of the rain's intensity.
pub proof fn rain_slants_with_the_wind(w: WeatherData, o: RenderOptions)
    ensures
        drops_drawn_with(generate_spec(w, o).precipitation, rain_glyph(w, glyph_table(o.ascii))),
{
    reveal(sky_spec);
    reveal(falling_spec);
    reveal(precipitation_spec);
    reveal(lightning_spec);
    let g = glyph_table(o.ascii);
    let c = rain_glyph(w, g);
    let (cel, cl, s2) = sky_spec(w, o);
    let width = scene_width(o);
    let height = scene_height(w, o);
    let night = is_night_spec(w);
    let s3 = if night {
        crate::scene::generator::stars_spec(w.cloud_cover as int, cl, cel, width, height, g.star, o.frame as int, s2).1
    } else {
        s2
    };
    let floor = cloud_floor_of(cl);
    let top = if floor > 1 { floor } else { 1 };
    let bottom = height - 1;
    if (rainy(w.condition) || snowy(w.condition)) && bottom > top {
        let span = bottom - top;
        let n = drop_count(width, span, density(w));
        lemma_drops_glyph(0, n as nat, w, g, cl, width, top, span, o.frame as int, Seq::empty(), s3);
    }
    let drops = precipitation_spec(w, g, cl, width, height, floor, o.frame as int, s3).0;
    assert(drops_drawn_with(drops, c));
    let bolt = lightning_spec(cl, floor, o.frame as int);
    lemma_clear_of_glyph(drops, bolt, c);
    let both = clear_of(drops, bolt) + bolt;
    assert(drops_drawn_with(both, c)) by {
        assert forall|j: int| 0 <= j < both.len() && (#[trigger] both[j]).style == Style::Rain
            implies both[j].art == seq![seq![c]] by {
            if j < clear_of(drops, bolt).len() {
                assert(both[j] == clear_of(drops, bolt)[j]);
            } else {
                assert(both[j] == bolt[j - clear_of(drops, bolt).len()]);
            }
        }
    }
}

/// A streak as the wind draws it: one line, pointing the way the wind blows.
pub open spec fn streak_points(sp: SpriteView, right: bool) -> bool {
    &&& sp.style == Style::Wind
    &&& sp.x >= 0
    &&& sp.art.len() == 1
    &&& sp.art[0].len() >= 2
    &&& if right {
        sp.art[0].last() == '>'
    } else {
        sp.art[0][0] == '<'
    }
}

proof fn lemma_streaks(
    i: nat,
    streaks: nat,
    right: bool,
    wind: char,
    width: int,
    height: int,
    out: Seq<SpriteView>,
    s: u64,
)
    requires
        forall|k: int| 0 <= k < out.len() ==> streak_points(#[trigger] out[k], right),
    ensures
        streaks_from(i, streaks, right, wind, '>', width, height, out, s).0.len() == out.len() + if i < streaks {
            streaks - i
        } else {
            0
        },
        forall|k: int|
            0 <= k < streaks_from(i, streaks, right, wind, '>', width, height, out, s).0.len() ==> streak_points(
                #[trigger] streaks_from(i, streaks, right, wind, '>', width, height, out, s).0[k],
                right,
            ),
    decreases streaks - i,
{
    if i < streaks {
        let (s1, len) = draw_range(s, 3, 6);
        let art = wind_streak_spec(len as nat, right, wind, '>');
        let span = if width - art.len() > 0 { width - art.len() } else { 0 };
        let y = if height - 3 - i > 1 { height - 3 - i } else { 1 };
        let (s2, x) = draw_range(s1, 0, span);
        lemma_draw_range(s1, 0, span);
        let sp = SpriteView { x, y, art: seq![art], style: Style::Wind };
        assert(streak_points(sp, right));
        let out2 = out.push(sp);
        assert forall|k: int| 0 <= k < out2.len() implies streak_points(#[trigger] out2[k], right) by {
            if k < out.len() {
                assert(out2[k] == out[k]);
            }
        }
        lemma_streaks(i + 1, streaks, right, wind, width, height, out2, s2);
    }
}

/// Wind is drawn as one streak from 20 km/h and two from 45 km/h (outside
/// compact scenes), each a single line that points the way the wind blows:
/// its head `>` at the right end for a wind from 180° to 359°, else `<` at
/// the left end.
pub proof fn wind_streaks_count_and_point(w: WeatherData, o: RenderOptions)
    requires
        wind_level(w) > 0,
        tier_for(scene_width(o)) != Tier::Compact,
    ensures
        generate_spec(w, o).wind.len() == if wind_level(w) == 2 { 2int } else { 1int },
        forall|k: int|
            0 <= k < generate_spec(w, o).wind.len() ==> streak_points(#[trigger] generate_spec(w, o).wind[k], blows_right(w)),
{
    reveal(wind_spec);
    let g = glyph_table(o.ascii);
    assert(g.wind_head == '>');
    let n: nat = if wind_level(w) == 2 { 2 } else { 1 };
    // Every argument of the streaks but the generator state is fixed by the
    // reading and the options, so the lemma holds for whatever state comes.
    assert forall|st: u64| #![trigger streaks_from(0, n, blows_right(w), g.wind, '>', scene_width(o), scene_height(w, o), Seq::<SpriteView>::empty(), st)]
        streaks_from(0, n, blows_right(w), g.wind, '>', scene_width(o), scene_height(w, o), Seq::<SpriteView>::empty(), st).0.len() == n
        && forall|k: int| 0 <= k < streaks_from(0, n, blows_right(w), g.wind, '>', scene_width(o), scene_height(w, o), Seq::<SpriteView>::empty(), st).0.len()
            ==> streak_points(#[trigger] streaks_from(0, n, blows_right(w), g.wind, '>', scene_width(o), scene_height(w, o), Seq::<SpriteView>::empty(), st).0[k], blows_right(w)) by {
        lemma_streaks(0, n, blows_right(w), g.wind, scene_width(o), scene_height(w, o), Seq::empty(), st);
    }
}

/// A character a horizon may hold: the ground glyph or one of the bumps'.
pub open spec fn horizon_char(c: char, ground: char) -> bool {
    c == ground || c == '.' || c == '-' || c == '_' || c == '/' || c == '\\'
}

pub open spec fn horizon_line(s: Seq<char>, ground: char) -> bool {
    forall|i: int| 0 <= i < s.len() ==> horizon_char(#[trigger] s[i], ground)
}

proof fn lemma_horizon_concat(a: Seq<char>, b: Seq<char>, ground: char)
    requires
        horizon_line(a, ground),
        horizon_line(b, ground),
    ensures
        horizon_line(a + b, ground),
{
    assert forall|i: int| 0 <= i < (a + b).len() implies horizon_char(#[trigger] (a + b)[i], ground) by {
        if i < a.len() {
            assert((a + b)[i] == a[i]);
        } else {
            assert((a + b)[i] == b[i - a.len()]);
        }
    }
}

proof fn lemma_bump_chars(i: int, ground: char)
    ensures
        horizon_line(bump(i), ground),
{
    reveal_strlit(".-.");
    reveal_strlit(".--.");
    reveal_strlit("._.");
    reveal_strlit("/\\");
    assert(horizon_line(".-."@, ground));
    assert(horizon_line(".--."@, ground));
    assert(horizon_line("._."@, ground));
    assert(horizon_line("/\\"@, ground));
}

proof fn lemma_horizon_fill_chars(line: Seq<char>, width: nat, ground: char, s: u64)
    requires
        horizon_line(line, ground),
    ensures
        horizon_line(horizon_fill(line, width, ground, s).0, ground),
    decreases if line.len() < width { width - line.len() } else { 0 },
{
    reveal(horizon_fill);
    if line.len() < width {
        let (s1, run) = draw_range(s, 3, 10);
        let (s2, bumpy) = draw_chance(s1, 55);
        let (s3, i) = draw_below(s2, 4);
        lemma_draw_range(s, 3, 10);
        horizon_fill_step(line, width, ground, s);
        assert(horizon_line(repeat(ground, run as nat), ground));
        lemma_horizon_concat(line, repeat(ground, run as nat), ground);
        if bumpy {
            lemma_bump_chars(i as int, ground);
            lemma_horizon_concat(line + repeat(ground, run as nat), bump(i as int), ground);
            lemma_horizon_fill_chars(line + repeat(ground, run as nat) + bump(i as int), width, ground, s3);
        } else {
            lemma_horizon_fill_chars(line + repeat(ground, run as nat), width, ground, s2);
        }
    }
}

/// A horizon is exactly as wide as asked and made only of the ground glyph
/// and the characters of its bumps (`.`, `-`, `_`, `/`, `\`).
pub proof fn horizons_are_ground_and_bumps(width: nat, ground: char, s: u64)
    ensures
        horizon_spec(width, ground, s).0.len() == width,
        horizon_line(horizon_spec(width, ground, s).0, ground),
{
    lemma_horizon_fill_chars(Seq::empty(), width, ground, s);
    horizon_fill_len(Seq::empty(), width, ground, s);
    let full = horizon_fill(Seq::empty(), width, ground, s).0;
    assert forall|i: int| 0 <= i < full.take(width as int).len() implies horizon_char(
        #[trigger] full.take(width as int)[i],
        ground,
    ) by {
        assert(full.take(width as int)[i] == full[i]);
    }
}

} // verus!
