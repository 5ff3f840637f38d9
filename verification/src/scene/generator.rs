//! Turns weather semantics into a scene. This layer answers "what should this
//! weather look like?", never "how do I paint a terminal?".

use vstd::prelude::*;
use vstd::wrapping::u64_specs::wrapping_mul;
use crate::scene::model::{
    Sprite, SpriteView, SceneModel, SceneView, Style, Tier, tier_for, tier_height, art_width,
    lines_view, views, glyph_view, overlaps_spec, contains_spec, dims_ok, art_cols, copy_lines,
    sprite_width, sprite_height,
};
use crate::scene::primitives::{
    Glyphs, GlyphView, Size, glyph_table, sun_art, moon_art, cloud_art, bolt_art, sun, moon, cloud, bolt,
    fog_band, fog_band_spec, wind_streak, wind_streak_spec, horizon, horizon_spec, lemma_art_dims,
};
use crate::scene::rng::{Rng, draw_range, draw_below, draw_chance, seeded, lemma_draw_range, lemma_draw_below};
use crate::weather::model::{
    WeatherData, WeatherCondition, Intensity, Units, rainy, snowy, is_night_spec, timestamps_ok,
    utf8,
};

verus! {

/// The largest scene, in columns or rows, that the generator draws: sprite
/// coordinates reach four times a sheet's size and are `i32`.
pub open spec fn max_cells() -> int {
    268_435_456
}

/// `v` as a cast to `i32` reads it: its low 32 bits, in two's complement.
/// Arithmetic on the animation frame wraps this way, so every frame of the
/// `u64` range has a scene.
pub open spec fn wrap_i32(v: int) -> int {
    let m = v % 4_294_967_296;
    if m >= 2_147_483_648 {
        m - 4_294_967_296
    } else {
        m
    }
}

/// `v` modulo 2^64, as `u64` arithmetic wraps.
pub open spec fn wrap_u64(v: int) -> int {
    v % 18_446_744_073_709_551_616
}

/// Everything the generator needs besides the weather itself.
#[derive(Debug, Clone)]
pub struct RenderOptions {
    /// Scene width in columns.
    pub width: usize,
    /// Scene height; defaults to the tier's natural height.
    pub height: Option<usize>,
    pub seed: u64,
    /// Animation frame. 0 is the canonical still image.
    pub frame: u64,
    /// Restrict art to pure ASCII.
    pub ascii: bool,
}

impl RenderOptions {
    pub fn new(width: usize, seed: u64) -> (o: Self)
        ensures
            o.width == width,
            o.height is None,
            o.seed == seed,
            o.frame == 0,
            !o.ascii,
    {
        RenderOptions { width, height: None, seed, frame: 0, ascii: false }
    }
}

/// FNV-1a over `bytes`, starting from `h`.
pub open spec fn fnv(h: u64, bytes: Seq<u8>) -> u64
    decreases bytes.len(),
{
    if bytes.len() == 0 {
        h
    } else {
        fnv(wrapping_mul(h ^ (bytes[0] as u64), 0x0000_0100_0000_01B3u64), bytes.drop_first())
    }
}

/// The seed a reading draws with: FNV-1a of the place name followed by the
/// observation time.
pub open spec fn default_seed_spec(w: WeatherData) -> u64 {
    fnv(fnv(0xcbf2_9ce4_8422_2325u64, utf8(w.location.name@)), utf8(w.observed_at@))
}

proof fn lemma_fnv_push(h: u64, bytes: Seq<u8>, b: u8)
    ensures
        fnv(h, bytes.push(b)) == wrapping_mul(fnv(h, bytes) ^ (b as u64), 0x0000_0100_0000_01B3u64),
    decreases bytes.len(),
{
    if bytes.len() > 0 {
        assert(bytes.push(b).drop_first() == bytes.drop_first().push(b));
        lemma_fnv_push(
            wrapping_mul(h ^ (bytes[0] as u64), 0x0000_0100_0000_01B3u64),
            bytes.drop_first(),
            b,
        );
    } else {
        assert(bytes.push(b).drop_first() == bytes);
        let h2 = wrapping_mul(h ^ (b as u64), 0x0000_0100_0000_01B3u64);
        assert(fnv(h2, bytes) == h2);
    }
}

fn fnv_bytes(h: u64, bytes: &[u8]) -> (r: u64)
    ensures
        r == fnv(h, bytes@),
{
    let mut hash = h;
    let mut i: usize = 0;
    while i < bytes.len()
        invariant
            i <= bytes.len(),
            hash == fnv(h, bytes@.take(i as int)),
        decreases bytes.len() - i,
    {
        proof {
            lemma_fnv_push(h, bytes@.take(i as int), bytes@[i as int]);
            assert(bytes@.take(i as int).push(bytes@[i as int]) == bytes@.take(i as int + 1));
        }
        hash = (hash ^ (bytes[i] as u64)).wrapping_mul(0x0000_0100_0000_01B3);
        i += 1;
    }
    assert(bytes@.take(bytes.len() as int) == bytes@);
    hash
}

/// Stable per-observation seed: the same reading always draws the same scene,
/// a new reading redraws it. Callers can override with `--seed`.
pub fn default_seed(weather: &WeatherData) -> (seed: u64)
    ensures
        seed == default_seed_spec(*weather),
{
    let h = fnv_bytes(0xcbf2_9ce4_8422_2325, weather.location.name.as_str().as_bytes());
    fnv_bytes(h, weather.observed_at.as_str().as_bytes())
}

pub open spec fn size_rank(s: Size) -> int {
    match s {
        Size::Small => 0,
        Size::Medium => 1,
        Size::Large => 2,
    }
}

/// The smaller of a size and a cap.
pub open spec fn capped(s: Size, cap: Size) -> Size {
    if size_rank(s) > size_rank(cap) {
        cap
    } else {
        s
    }
}

fn min_of(s: Size, cap: Size) -> (r: Size)
    ensures
        r == capped(s, cap),
{
    let rank = |x: Size| -> (r: u8)
        ensures
            r == size_rank(x),
        {
            match x {
                Size::Small => 0,
                Size::Medium => 1,
                Size::Large => 2,
            }
        };
    if rank(s) > rank(cap) {
        cap
    } else {
        s
    }
}

/// How many clouds, and how big. Condition sets the shape, cloud cover nudges it.
pub open spec fn cloud_plan_spec(w: WeatherData, tier: Tier) -> (int, Size) {
    let (count, size) = match w.condition {
        WeatherCondition::Clear => (if w.cloud_cover > 45 { 1int } else { 0int }, Size::Small),
        WeatherCondition::PartlyCloudy => (1int, Size::Medium),
        WeatherCondition::Cloudy => (2int, Size::Large),
        WeatherCondition::Fog | WeatherCondition::Drizzle | WeatherCondition::Unknown => (
            1int,
            Size::Medium,
        ),
        WeatherCondition::Rain | WeatherCondition::Snow => (2int, Size::Medium),
        WeatherCondition::HeavyRain | WeatherCondition::HeavySnow
        | WeatherCondition::Thunderstorm => (2int, Size::Large),
    };
    let count = if tier == Tier::Wide && count >= 2 && w.cloud_cover > 80 {
        3
    } else {
        count
    };
    match tier {
        Tier::Compact => (if count < 1 { count } else { 1 }, Size::Small),
        Tier::Normal => (if count < 2 { count } else { 2 }, capped(size, Size::Medium)),
        Tier::Wide => (if count < 3 { count } else { 3 }, size),
    }
}

fn cloud_plan(weather: &WeatherData, tier: Tier) -> (r: (usize, Size))
    ensures
        (r.0 as int, r.1) == cloud_plan_spec(*weather, tier),
{
    let (mut count, mut size): (usize, Size) = match weather.condition {
        WeatherCondition::Clear => (if weather.cloud_cover > 45 { 1 } else { 0 }, Size::Small),
        WeatherCondition::PartlyCloudy => (1, Size::Medium),
        WeatherCondition::Cloudy => (2, Size::Large),
        WeatherCondition::Fog | WeatherCondition::Drizzle | WeatherCondition::Unknown => (
            1,
            Size::Medium,
        ),
        WeatherCondition::Rain | WeatherCondition::Snow => (2, Size::Medium),
        WeatherCondition::HeavyRain | WeatherCondition::HeavySnow
        | WeatherCondition::Thunderstorm => (2, Size::Large),
    };
    if tier == Tier::Wide && count >= 2 && weather.cloud_cover > 80 {
        count = 3;
    }
    match tier {
        Tier::Compact => {
            if count > 1 {
                count = 1;
            }
            size = Size::Small;
        },
        Tier::Normal => {
            if count > 2 {
                count = 2;
            }
            size = min_of(size, Size::Medium);
        },
        Tier::Wide => {
            if count > 3 {
                count = 3;
            }
        },
    }
    (count, size)
}

/// The art of the sun or the moon at a tier.
pub open spec fn celestial_art(night: bool, tier: Tier) -> Seq<Seq<char>> {
    let size = if tier == Tier::Compact {
        Size::Small
    } else {
        Size::Large
    };
    if night {
        moon_art(size)
    } else {
        sun_art(size)
    }
}

/// `centered` means the sky is otherwise empty, so the sun/moon becomes the
/// subject of the picture rather than a corner detail.
#[verifier::opaque]
pub open spec fn celestial_spec(night: bool, tier: Tier, width: int, centered: bool, s: u64) -> (
    SpriteView,
    u64,
) {
    let art = celestial_art(night, tier);
    let span = width - art_width(art);
    let (s1, x) = if centered {
        let (s1, d) = draw_range(s, -2, 2);
        (s1, span / 2 + d)
    } else {
        let (s1, left) = draw_chance(s, 50);
        let (s2, d) = draw_range(s1, 1, 4);
        if left {
            (s2, d)
        } else {
            (s2, span - d)
        }
    };
    let hi = if span > 0 {
        span
    } else {
        0
    };
    let x = if x < 0 {
        0
    } else if x > hi {
        hi
    } else {
        x
    };
    (SpriteView { x, y: 0, art, style: if night { Style::Moon } else { Style::Sun } }, s1)
}

fn celestial(night: bool, tier: Tier, width: usize, centered: bool, rng: &mut Rng) -> (sp: Sprite)
    requires
        1 <= width <= max_cells(),
    ensures
        (sp@, final(rng)@) == celestial_spec(night, tier, width as int, centered, old(rng)@),
        art_width(sp@.art) <= 13,
        sp@.art.len() <= 5,
        0 <= sp@.x <= width,
        sp@.y == 0,
{
    reveal(celestial_spec);
    proof {
        lemma_art_dims();
    }
    let size = match tier {
        Tier::Compact => Size::Small,
        Tier::Normal | Tier::Wide => Size::Large,
    };
    let art = if night {
        moon(size)
    } else {
        sun(size)
    };
    let art_width = art_cols(&art) as i32;
    let span = width as i32 - art_width;
    let x = if centered {
        span / 2 + rng.range(-2, 2)
    } else if rng.chance(50) {
        rng.range(1, 4)
    } else {
        span - rng.range(1, 4)
    };
    let hi = if span > 0 {
        span
    } else {
        0
    };
    let x = if x < 0 {
        0
    } else if x > hi {
        hi
    } else {
        x
    };
    let style = if night {
        Style::Moon
    } else {
        Style::Sun
    };
    Sprite::new(x, 0, style, art)
}

} // verus!

verus! {

/// Sprites of at most 16 by 16 cells lying within `-16..=width` by `0..=height`.
pub open spec fn placed_within(s: Seq<SpriteView>, width: int, height: int) -> bool {
    forall|j: int|
        0 <= j < s.len() ==> -16 <= #[trigger] s[j].x <= width && 0 <= s[j].y <= height
            && art_width(s[j].art) <= 16 && s[j].art.len() <= 16
}

proof fn lemma_within_dims(s: Seq<SpriteView>, width: int, height: int)
    requires
        placed_within(s, width, height),
    ensures
        all_dims_ok(s),
{
    assert forall|j: int| 0 <= j < s.len() implies #[trigger] dims_ok(s[j]) by {
        assert(-16 <= s[j].x);
    }
}

/// Every sprite's width and height fit in `i32`.
pub open spec fn all_dims_ok(s: Seq<SpriteView>) -> bool {
    forall|j: int| 0 <= j < s.len() ==> #[trigger] dims_ok(s[j])
}

pub open spec fn opt_view(o: Option<Sprite>) -> Option<SpriteView> {
    match o {
        Some(s) => Some(s@),
        None => None,
    }
}

/// The candidate comes within one cell of another sprite.
pub open spec fn clash(c: SpriteView, others: Seq<SpriteView>) -> bool {
    exists|j: int| 0 <= j < others.len() && #[trigger] overlaps_spec(c, others[j], 1)
}

fn clashes(cand: &Sprite, celestial: &Vec<Sprite>, placed: &Vec<Sprite>) -> (b: bool)
    requires
        dims_ok(cand@),
        all_dims_ok(views(celestial@)),
        all_dims_ok(views(placed@)),
    ensures
        b == clash(cand@, views(celestial@) + views(placed@)),
{
    let ghost others = views(celestial@) + views(placed@);
    let mut j: usize = 0;
    while j < celestial.len()
        invariant
            j <= celestial.len(),
            dims_ok(cand@),
            all_dims_ok(views(celestial@)),
            others == views(celestial@) + views(placed@),
            forall|k: int| 0 <= k < j ==> !overlaps_spec(cand@, #[trigger] others[k], 1),
        decreases celestial.len() - j,
    {
        assert(views(celestial@)[j as int] == celestial@[j as int]@);
        if cand.overlaps(&celestial[j], 1) {
            assert(overlaps_spec(cand@, others[j as int], 1));
            return true;
        }
        j += 1;
    }
    let mut j: usize = 0;
    while j < placed.len()
        invariant
            j <= placed.len(),
            dims_ok(cand@),
            all_dims_ok(views(placed@)),
            others == views(celestial@) + views(placed@),
            forall|k: int| 0 <= k < celestial.len() + j ==> !overlaps_spec(cand@, #[trigger] others[k], 1),
        decreases placed.len() - j,
    {
        assert(views(placed@)[j as int] == placed@[j as int]@);
        assert(others[celestial.len() + j] == placed@[j as int]@);
        if cand.overlaps(&placed[j], 1) {
            assert(overlaps_spec(cand@, others[celestial.len() + j], 1));
            return true;
        }
        j += 1;
    }
    false
}

/// Up to sixteen random spots for a cloud: the first one clear of everything
/// already in the sky, or failing that the first one tried.
pub open spec fn cloud_candidates(
    k: nat,
    art: Seq<Seq<char>>,
    span: int,
    band: int,
    others: Seq<SpriteView>,
    best: Option<SpriteView>,
    s: u64,
) -> (Option<SpriteView>, u64)
    decreases 16 - k,
{
    if k >= 16 {
        (best, s)
    } else {
        let (s1, x) = draw_range(s, 0, span);
        let (s2, y) = draw_range(s1, 0, band);
        let cand = SpriteView { x, y, art, style: Style::Cloud };
        if !clash(cand, others) {
            (Some(cand), s2)
        } else {
            cloud_candidates(
                k + 1,
                art,
                span,
                band,
                others,
                if best is Some {
                    best
                } else {
                    Some(cand)
                },
                s2,
            )
        }
    }
}

proof fn lemma_candidates(
    k: nat,
    art: Seq<Seq<char>>,
    span: int,
    band: int,
    others: Seq<SpriteView>,
    best: Option<SpriteView>,
    s: u64,
)
    requires
        0 <= span,
        0 <= band,
        best matches Some(b) ==> b.art == art && 0 <= b.x <= span && 0 <= b.y <= band,
    ensures
        cloud_candidates(k, art, span, band, others, best, s).0 matches Some(b) ==> b.art == art
            && 0 <= b.x <= span && 0 <= b.y <= band && b.style == Style::Cloud || best == Some(b),
    decreases 16 - k,
{
    if k < 16 {
        let (s1, x) = draw_range(s, 0, span);
        let (s2, y) = draw_range(s1, 0, band);
        lemma_draw_range(s, 0, span);
        lemma_draw_range(s1, 0, band);
        let cand = SpriteView { x, y, art, style: Style::Cloud };
        if clash(cand, others) {
            let nb = if best is Some {
                best
            } else {
                Some(cand)
            };
            lemma_candidates(k + 1, art, span, band, others, nb, s2);
        }
    }
}

fn cloud_candidates_exec(
    k: usize,
    art: &Vec<String>,
    span: i32,
    band: i32,
    celestial: &Vec<Sprite>,
    placed: &Vec<Sprite>,
    best: Option<Sprite>,
    rng: &mut Rng,
) -> (r: Option<Sprite>)
    requires
        k <= 16,
        0 <= span <= max_cells(),
        0 <= band <= max_cells(),
        art_width(lines_view(art@)) <= 16,
        art@.len() <= 16,
        all_dims_ok(views(celestial@)),
        all_dims_ok(views(placed@)),
    ensures
        (opt_view(r), final(rng)@) == cloud_candidates(
            k as nat,
            lines_view(art@),
            span as int,
            band as int,
            views(celestial@) + views(placed@),
            opt_view(best),
            old(rng)@,
        ),
    decreases 16 - k,
{
    if k >= 16 {
        return best;
    }
    let x = rng.range(0, span);
    let y = rng.range(0, band);
    let cand = Sprite::new(x, y, Style::Cloud, copy_lines(art));
    if !clashes(&cand, celestial, placed) {
        Some(cand)
    } else {
        let next = match best {
            Some(b) => Some(b),
            None => Some(cand),
        };
        cloud_candidates_exec(k + 1, art, span, band, celestial, placed, next, rng)
    }
}

/// A cloud moved `frame / 6` columns to the right (as an `i32`), wrapping
/// around the sky.
pub open spec fn drifted(sp: SpriteView, width: int, frame: int) -> SpriteView {
    let drift = wrap_i32(frame / 6);
    let aw = art_width(sp.art) as int;
    if drift > 0 {
        SpriteView { x: wrap_i32(sp.x + drift) % (width + aw) - aw, ..sp }
    } else {
        sp
    }
}

/// Clouds `i..count`, placed after `placed`, and the generator state after them.
#[verifier::opaque]
pub open spec fn clouds_from(
    i: nat,
    count: nat,
    size: Size,
    width: int,
    height: int,
    celestial: Seq<SpriteView>,
    frame: int,
    placed: Seq<SpriteView>,
    s: u64,
) -> (Seq<SpriteView>, u64)
    decreases count - i,
{
    if i >= count {
        (placed, s)
    } else {
        let art = cloud_art(
            if i == 0 {
                size
            } else {
                capped(size, Size::Medium)
            },
        );
        let aw = art_width(art) as int;
        let span = if width - aw > 0 {
            width - aw
        } else {
            0
        };
        let band = if height / 3 - 1 > 0 {
            height / 3 - 1
        } else {
            0
        };
        let (best, s1) = cloud_candidates(0, art, span, band, celestial + placed, None, s);
        let placed2 = match best {
            Some(sp) => placed.push(drifted(sp, width, frame)),
            None => placed,
        };
        clouds_from(i + 1, count, size, width, height, celestial, frame, placed2, s1)
    }
}

#[verifier::rlimit(40)]
fn clouds(
    count: usize,
    size: Size,
    width: usize,
    height: usize,
    celestial: &Vec<Sprite>,
    frame: u64,
    rng: &mut Rng,
) -> (out: Vec<Sprite>)
    requires
        count <= 3,
        1 <= width <= max_cells(),
        height <= max_cells(),
        all_dims_ok(views(celestial@)),
    ensures
        (views(out@), final(rng)@) == clouds_from(
            0,
            count as nat,
            size,
            width as int,
            height as int,
            views(celestial@),
            frame as int,
            Seq::empty(),
            old(rng)@,
        ),
        all_dims_ok(views(out@)),
        placed_within(views(out@), width as int, height as int),
        out@.len() <= count,
{
    reveal(clouds_from);
    proof {
        lemma_art_dims();
    }
    let mut placed: Vec<Sprite> = Vec::new();
    let band_raw: i32 = (height / 3) as i32 - 1;
    let band: i32 = if band_raw > 0 {
        band_raw
    } else {
        0
    };
    let mut i: usize = 0;
    assert(views(placed@) =~= Seq::<SpriteView>::empty());
    while i < count
        invariant
            i <= count <= 3,
            1 <= width <= max_cells(),
            height <= max_cells(),
            band == (if height / 3 - 1 > 0 {
                height / 3 - 1
            } else {
                0
            }),
            all_dims_ok(views(celestial@)),
            all_dims_ok(views(placed@)),
            placed_within(views(placed@), width as int, height as int),
            placed@.len() <= i,
            clouds_from(
                i as nat,
                count as nat,
                size,
                width as int,
                height as int,
                views(celestial@),
                frame as int,
                views(placed@),
                rng@,
            ) == clouds_from(
                0,
                count as nat,
                size,
                width as int,
                height as int,
                views(celestial@),
                frame as int,
                Seq::empty(),
                old(rng)@,
            ),
        decreases count - i,
    {
        proof {
            lemma_art_dims();
            reveal(clouds_from);
        }
        let art = cloud(if i == 0 {
            size
        } else {
            min_of(size, Size::Medium)
        });
        let art_width = art_cols(&art) as i32;
        let span_raw = width as i32 - art_width;
        let span: i32 = if span_raw > 0 {
            span_raw
        } else {
            0
        };
        let ghost s0 = rng@;
        let best = cloud_candidates_exec(0, &art, span, band, celestial, &placed, None, rng);
        proof {
            lemma_candidates(
                0,
                lines_view(art@),
                span as int,
                band as int,
                views(celestial@) + views(placed@),
                None,
                s0,
            );
        }
        match best {
            Some(mut sprite) => {
                let drift: i32 = u64_to_i32_wrapping(frame / 6);
                if drift > 0 {
                    let total: i64 = (width as i64) + (art_width as i64);
                    let moved: i32 = to_i32_wrapping((sprite.x as i64) + (drift as i64));
                    sprite.x = (rem_euclid(moved as i64, total) as i32) - art_width;
                }
                let ghost before = placed@;
                placed.push(sprite);
                assert(views(placed@) =~= views(before).push(sprite@));
                proof {
                    lemma_within_dims(views(placed@), width as int, height as int);
                }
            },
            None => {},
        }
        i += 1;
    }
    placed
}

} // verus!

verus! {

fn u64_to_i32_wrapping(v: u64) -> (r: i32)
    ensures
        r == wrap_i32(v as int),
{
    let m: u64 = v % 4_294_967_296;
    if m >= 2_147_483_648 {
        ((m as i64) - 4_294_967_296) as i32
    } else {
        m as i32
    }
}

fn to_i32_wrapping(v: i64) -> (r: i32)
    requires
        v > i64::MIN,
    ensures
        r == wrap_i32(v as int),
{
    let m: i64 = rem_euclid(v, 4_294_967_296);
    if m >= 2_147_483_648 {
        (m - 4_294_967_296) as i32
    } else {
        m as i32
    }
}

/// `v` modulo `n`, in `0..n`.
fn rem_euclid(v: i64, n: i64) -> (r: i64)
    requires
        n > 0,
        v > i64::MIN,
    ensures
        r == v % n,
        0 <= r < n,
{
    if v >= 0 {
        let r = ((v as u64) % (n as u64)) as i64;
        r
    } else {
        let a: u64 = ((-v - 1) as u64) % (n as u64);
        let r = n - 1 - (a as i64);
        proof {
            let vi = v as int;
            let ni = n as int;
            let ai = a as int;
            let q = (-vi - 1) / ni;
            assert(-vi - 1 == q * ni + ai) by (nonlinear_arith)
                requires
                    ai == (-vi - 1) % ni,
                    q == (-vi - 1) / ni,
                    ni > 0,
            ;
            assert(0 <= ai < ni) by (nonlinear_arith)
                requires
                    ai == (-vi - 1) % ni,
                    ni > 0,
            ;
            assert(vi == (-q - 1) * ni + (ni - 1 - ai)) by (nonlinear_arith)
                requires
                    -vi - 1 == q * ni + ai,
            ;
            assert(vi % ni == ni - 1 - ai) by (nonlinear_arith)
                requires
                    vi == (-q - 1) * ni + (ni - 1 - ai),
                    0 <= ni - 1 - ai < ni,
            ;
        }
        r
    }
}

/// Whether a sky cell lies within one cell of a sprite.
pub open spec fn occupied(x: int, y: int, others: Seq<SpriteView>) -> bool {
    exists|j: int| 0 <= j < others.len() && #[trigger] contains_spec(others[j], x, y, 1)
}

/// How many stars a night sky asks for: about 3.5% of the open sky, and
/// never fewer than three.
pub open spec fn star_count(width: int, rows: int, cloud_cover: int) -> int {
    let open = if cloud_cover >= 100 {
        0
    } else {
        100 - cloud_cover
    };
    let n = (width * rows * 35 * open) / 100_000;
    if n > 3 {
        n
    } else {
        3
    }
}

/// The glyph of the next star, and the generator state after choosing it.
pub open spec fn star_glyph(star: Seq<char>, frame: int, placed: int, s: u64) -> (char, u64) {
    if frame > 0 && (frame / 4 + placed) % 9 == 0 {
        (star[2], s)
    } else {
        let (s3, r) = draw_below(s, 10);
        (
            if r == 0 {
                star[2]
            } else if r <= 3 {
                star[1]
            } else {
                star[0]
            },
            s3,
        )
    }
}

/// Star attempts `a..total`, stopping once `count` stars are placed.
pub open spec fn stars_from(
    a: nat,
    total: nat,
    count: nat,
    width: int,
    rows: int,
    others: Seq<SpriteView>,
    star: Seq<char>,
    frame: int,
    out: Seq<SpriteView>,
    s: u64,
) -> (Seq<SpriteView>, u64)
    decreases total - a,
{
    if a >= total || out.len() >= count {
        (out, s)
    } else {
        let (s1, x) = draw_range(s, 0, width - 1);
        let (s2, y) = draw_range(s1, 0, rows - 1);
        if occupied(x, y, others) {
            stars_from(a + 1, total, count, width, rows, others, star, frame, out, s2)
        } else {
            let (g, s3) = star_glyph(star, frame, out.len() as int, s2);
            stars_from(
                a + 1,
                total,
                count,
                width,
                rows,
                others,
                star,
                frame,
                out.push(glyph_view(x, y, Style::Star, g)),
                s3,
            )
        }
    }
}

pub open spec fn sky_rows(height: int) -> int {
    if height >= 3 {
        height - 3
    } else {
        0
    }
}

/// The stars of a night sky, kept clear of the clouds and the moon.
#[verifier::opaque]
pub open spec fn stars_spec(
    cloud_cover: int,
    clouds: Seq<SpriteView>,
    celestial: Seq<SpriteView>,
    width: int,
    height: int,
    star: Seq<char>,
    frame: int,
    s: u64,
) -> (Seq<SpriteView>, u64) {
    let rows = sky_rows(height);
    let count = star_count(width, rows, cloud_cover);
    stars_from(
        0,
        (count * 4) as nat,
        count as nat,
        width,
        rows,
        clouds + celestial,
        star,
        frame,
        Seq::empty(),
        s,
    )
}

fn is_occupied(x: i32, y: i32, clouds: &Vec<Sprite>, celestial: &Vec<Sprite>) -> (b: bool)
    requires
        all_dims_ok(views(clouds@)),
        all_dims_ok(views(celestial@)),
    ensures
        b == occupied(x as int, y as int, views(clouds@) + views(celestial@)),
{
    let ghost others = views(clouds@) + views(celestial@);
    let mut j: usize = 0;
    while j < clouds.len()
        invariant
            j <= clouds.len(),
            all_dims_ok(views(clouds@)),
            others == views(clouds@) + views(celestial@),
            forall|k: int| 0 <= k < j ==> !contains_spec(#[trigger] others[k], x as int, y as int, 1),
        decreases clouds.len() - j,
    {
        assert(views(clouds@)[j as int] == clouds@[j as int]@);
        if clouds[j].contains(x, y, 1) {
            assert(contains_spec(others[j as int], x as int, y as int, 1));
            return true;
        }
        j += 1;
    }
    let mut j: usize = 0;
    while j < celestial.len()
        invariant
            j <= celestial.len(),
            all_dims_ok(views(celestial@)),
            others == views(clouds@) + views(celestial@),
            forall|k: int|
                0 <= k < clouds.len() + j ==> !contains_spec(#[trigger] others[k], x as int, y as int, 1),
        decreases celestial.len() - j,
    {
        assert(views(celestial@)[j as int] == celestial@[j as int]@);
        assert(others[clouds.len() + j] == celestial@[j as int]@);
        if celestial[j].contains(x, y, 1) {
            assert(contains_spec(others[clouds.len() + j], x as int, y as int, 1));
            return true;
        }
        j += 1;
    }
    false
}

fn stars(
    cloud_cover: u8,
    clouds: &Vec<Sprite>,
    celestial: &Vec<Sprite>,
    width: usize,
    height: usize,
    glyphs: &Glyphs,
    frame: u64,
    rng: &mut Rng,
) -> (out: Vec<Sprite>)
    requires
        1 <= width <= max_cells(),
        height <= max_cells(),
        (width as int) * (height as int) <= usize::MAX,
        all_dims_ok(views(clouds@)),
        all_dims_ok(views(celestial@)),
    ensures
        (views(out@), final(rng)@) == stars_spec(
            cloud_cover as int,
            views(clouds@),
            views(celestial@),
            width as int,
            height as int,
            glyphs.star@,
            frame as int,
            old(rng)@,
        ),
        all_dims_ok(views(out@)),
{
    reveal(stars_spec);
    let open: u64 = if cloud_cover >= 100 {
        0
    } else {
        100 - cloud_cover as u64
    };
    let rows: usize = if height >= 3 {
        height - 3
    } else {
        0
    };
    assert((width as int) * (rows as int) <= usize::MAX) by (nonlinear_arith)
        requires
            (width as int) * (height as int) <= usize::MAX,
            rows <= height,
    ;
    let wr: u64 = (width as u64) * (rows as u64);
    assert(wr * 35 * open <= wr * 3500) by (nonlinear_arith)
        requires
            open <= 100,
    ;
    let raw: u64 = ((wr as u128) * 35 * (open as u128) / 100_000) as u64;
    assert(raw as int * 28 <= wr as int) by (nonlinear_arith)
        requires
            raw as int == (wr as int * 35 * open) / 100_000,
            open <= 100,
    ;
    let count: usize = if raw > 3 {
        raw as usize
    } else {
        3
    };
    assert(count as int == star_count(width as int, rows as int, cloud_cover as int)) by (
    nonlinear_arith)
        requires
            raw as int == (wr as int * 35 * open) / 100_000,
            wr as int == (width as int) * (rows as int),
            count as int == (if raw > 3 {
                raw as int
            } else {
                3
            }),
            open as int == (if cloud_cover >= 100 {
                0
            } else {
                100 - cloud_cover
            }),
    ;
    let total: usize = count * 4;
    let mut out: Vec<Sprite> = Vec::new();
    let mut a: usize = 0;
    assert(views(out@) =~= Seq::<SpriteView>::empty());
    while a < total && out.len() < count
        invariant
            a <= total,
            total == count * 4,
            count * 4 <= usize::MAX,
            1 <= width <= max_cells(),
            rows <= max_cells(),
            out@.len() <= count,
            all_dims_ok(views(clouds@)),
            all_dims_ok(views(celestial@)),
            all_dims_ok(views(out@)),
            stars_from(
                a as nat,
                total as nat,
                count as nat,
                width as int,
                rows as int,
                views(clouds@) + views(celestial@),
                glyphs.star@,
                frame as int,
                views(out@),
                rng@,
            ) == stars_from(
                0,
                total as nat,
                count as nat,
                width as int,
                rows as int,
                views(clouds@) + views(celestial@),
                glyphs.star@,
                frame as int,
                Seq::empty(),
                old(rng)@,
            ),
        decreases total - a,
    {
        let x = rng.range(0, width as i32 - 1);
        let y = rng.range(0, rows as i32 - 1);
        if !is_occupied(x, y, clouds, celestial) {
            let glyph = if frame > 0 && (frame / 4 + out.len() as u64) % 9 == 0 {
                glyphs.star[2]
            } else {
                let r = rng.below(10);
                if r == 0 {
                    glyphs.star[2]
                } else if r <= 3 {
                    glyphs.star[1]
                } else {
                    glyphs.star[0]
                }
            };
            let sp = Sprite::glyph(x, y, Style::Star, glyph);
            let ghost before = out@;
            out.push(sp);
            assert(views(out@) =~= views(before).push(sp@));
            assert(dims_ok(sp@)) by {
                reveal_with_fuel(art_width, 2);
            }
        }
        a += 1;
    }
    out
}

} // verus!

verus! {

/// 0 for a breeze, 1 from 20 km/h, 2 from 45 km/h.
pub open spec fn wind_level(w: WeatherData) -> int {
    let v = w.wind_speed as int;
    match w.units {
        Units::Metric => if v >= 45_000 {
            2
        } else if v >= 20_000 {
            1
        } else {
            0
        },
        Units::Imperial => if v * 1609 >= 45_000_000 {
            2
        } else if v * 1609 >= 20_000_000 {
            1
        } else {
            0
        },
    }
}

fn wind_level_of(weather: &WeatherData) -> (l: i32)
    ensures
        l == wind_level(*weather),
{
    let v = weather.wind_speed as i128;
    let scaled: i128 = match weather.units {
        Units::Metric => v * 1000,
        Units::Imperial => v * 1609,
    };
    if scaled >= 45_000_000 {
        2
    } else if scaled >= 20_000_000 {
        1
    } else {
        0
    }
}

/// Wind direction is where it comes *from*: a westerly blows to the right.
pub open spec fn blows_right(w: WeatherData) -> bool {
    180 <= w.wind_direction < 360
}

/// Drops per cell, in ten-thousandths.
pub open spec fn density(w: WeatherData) -> int {
    let base = match w.intensity {
        Intensity::Light => 600int,
        Intensity::Moderate => 1100int,
        Intensity::Heavy => 1700int,
    };
    if w.condition == WeatherCondition::HeavyRain || w.condition == WeatherCondition::HeavySnow {
        base * 5 / 4
    } else {
        base
    }
}

/// Drops in a `width` by `span` sheet at `density` ten-thousandths per cell, rounded.
pub open spec fn drop_count(width: int, span: int, density: int) -> int {
    (width * span * density + 5000) / 10000
}

/// Where the next drop starts, what it looks like, and where frame `frame` finds it.
pub open spec fn drop_spec(
    w: WeatherData,
    g: GlyphView,
    clouds: Seq<SpriteView>,
    width: int,
    top: int,
    span: int,
    frame: int,
    s: u64,
) -> (SpriteView, u64) {
    let (s1, x0) = if clouds.len() == 0 {
        draw_range(s, 0, width - 1)
    } else {
        let (sa, ci) = draw_below(s, clouds.len());
        let c = clouds[ci as int];
        let (sb, dx) = draw_range(sa, -2, sprite_width(c) + 1);
        (sb, c.x + dx)
    };
    let period = if span > 1 {
        span
    } else {
        1
    };
    let (s2, y0) = draw_below(s1, period as nat);
    let snow = snowy(w.condition);
    let (s3, speed) = if snow {
        (s2, 1int)
    } else {
        let (sc, b) = draw_below(s2, 2);
        (sc, 1 + b as int)
    };
    let level = wind_level(w);
    let right = blows_right(w);
    let (s4, glyph) = if snow {
        let (sd, r) = draw_below(s3, 6);
        (
            sd,
            g.snow[if r == 0 {
                2
            } else if r <= 2 {
                1
            } else {
                0
            }],
        )
    } else if level > 0 {
        (
            s3,
            if right {
                g.slant_right
            } else {
                g.slant_left
            },
        )
    } else {
        (
            s3,
            match w.intensity {
                Intensity::Light => g.drizzle,
                Intensity::Moderate => g.rain,
                Intensity::Heavy => g.rain_heavy,
            },
        )
    };
    let y = top + wrap_u64(y0 + frame * speed) % period;
    let drift = wrap_i32(wrap_i32(level * wrap_i32(frame)) * if right {
        1int
    } else {
        -1int
    });
    let x = wrap_i32(x0 + drift) % width;
    (glyph_view(x, y, if snow { Style::Snow } else { Style::Rain }, glyph), s4)
}

/// Drops `k..count`, appended to `out`.
pub open spec fn drops_from(
    k: nat,
    count: nat,
    w: WeatherData,
    g: GlyphView,
    clouds: Seq<SpriteView>,
    width: int,
    top: int,
    span: int,
    frame: int,
    out: Seq<SpriteView>,
    s: u64,
) -> (Seq<SpriteView>, u64)
    decreases count - k,
{
    if k >= count {
        (out, s)
    } else {
        let (d, s1) = drop_spec(w, g, clouds, width, top, span, frame, s);
        drops_from(k + 1, count, w, g, clouds, width, top, span, frame, out.push(d), s1)
    }
}

/// Falling particles: rain or snow out of the clouds, between the cloud floor
/// and the ground.
#[verifier::opaque]
pub open spec fn precipitation_spec(
    w: WeatherData,
    g: GlyphView,
    clouds: Seq<SpriteView>,
    width: int,
    height: int,
    cloud_floor: int,
    frame: int,
    s: u64,
) -> (Seq<SpriteView>, u64) {
    if !rainy(w.condition) && !snowy(w.condition) {
        (Seq::empty(), s)
    } else {
        let top = if cloud_floor > 1 {
            cloud_floor
        } else {
            1
        };
        let bottom = height - 1;
        if bottom <= top {
            (Seq::empty(), s)
        } else {
            let span = bottom - top;
            let count = drop_count(width, span, density(w));
            drops_from(0, count as nat, w, g, clouds, width, top, span, frame, Seq::empty(), s)
        }
    }
}

fn drop_exec(
    weather: &WeatherData,
    glyphs: &Glyphs,
    clouds: &Vec<Sprite>,
    width: usize,
    top: i32,
    span: u64,
    frame: u64,
    level: i32,
    rng: &mut Rng,
) -> (d: Sprite)
    requires
        1 <= width <= max_cells(),
        0 <= top <= 4 * max_cells(),
        1 <= span <= max_cells(),
        level == wind_level(*weather),
        placed_within(views(clouds@), max_cells(), 3 * max_cells()),
        glyphs@.snow.len() == 3,
    ensures
        (d@, final(rng)@) == drop_spec(
            *weather,
            glyphs@,
            views(clouds@),
            width as int,
            top as int,
            span as int,
            frame as int,
            old(rng)@,
        ),
{
    let x0: i64 = if clouds.len() == 0 {
        rng.range(0, width as i32 - 1) as i64
    } else {
        let ci = rng.below(clouds.len());
        let c = &clouds[ci];
        assert(views(clouds@)[ci as int] == c@);
        assert(-16 <= views(clouds@)[ci as int].x);
        proof {
            lemma_within_dims(views(clouds@), max_cells(), 3 * max_cells());
        }
        let cw = c.width();
        (c.x as i64) + (rng.range(-2, cw + 1) as i64)
    };
    let period: u64 = if span > 1 {
        span
    } else {
        1
    };
    let y0 = rng.below(period as usize) as u64;
    let snow = weather.condition.is_snowy();
    let speed: u64 = if snow {
        1
    } else {
        1 + rng.below(2) as u64
    };
    let right = 180 <= weather.wind_direction && weather.wind_direction < 360;
    let glyph = if snow {
        let r = rng.below(6);
        glyphs.snow[if r == 0 {
            2
        } else if r <= 2 {
            1
        } else {
            0
        }]
    } else if level > 0 {
        if right {
            glyphs.slant_right
        } else {
            glyphs.slant_left
        }
    } else {
        match weather.intensity {
            Intensity::Light => glyphs.drizzle,
            Intensity::Moderate => glyphs.rain,
            Intensity::Heavy => glyphs.rain_heavy,
        }
    };
    assert((frame as int) * (speed as int) <= 2 * 18_446_744_073_709_551_615) by (nonlinear_arith)
        requires
            speed <= 2,
            frame <= 18_446_744_073_709_551_615,
    ;
    let sum: u128 = (y0 as u128) + (frame as u128) * (speed as u128);
    let advanced = ((sum % 18_446_744_073_709_551_616u128) as u64) % period;
    let y = top + advanced as i32;
    let sign: i64 = if right {
        1
    } else {
        -1
    };
    let fi: i32 = u64_to_i32_wrapping(frame);
    let slanted: i32 = to_i32_wrapping((level as i64) * (fi as i64));
    let drift: i32 = to_i32_wrapping((slanted as i64) * sign);
    let moved: i32 = to_i32_wrapping(x0 + (drift as i64));
    let x = rem_euclid(moved as i64, width as i64) as i32;
    let style = if snow {
        Style::Snow
    } else {
        Style::Rain
    };
    Sprite::glyph(x, y, style, glyph)
}

fn precipitation(
    weather: &WeatherData,
    glyphs: &Glyphs,
    clouds: &Vec<Sprite>,
    width: usize,
    height: usize,
    cloud_floor: i32,
    frame: u64,
    rng: &mut Rng,
) -> (out: Vec<Sprite>)
    requires
        1 <= width <= max_cells(),
        height <= max_cells(),
        0 <= cloud_floor <= 4 * max_cells(),
        (width as int) * (height as int) <= usize::MAX,
        placed_within(views(clouds@), max_cells(), 3 * max_cells()),
        glyphs@.snow.len() == 3,
    ensures
        (views(out@), final(rng)@) == precipitation_spec(
            *weather,
            glyphs@,
            views(clouds@),
            width as int,
            height as int,
            cloud_floor as int,
            frame as int,
            old(rng)@,
        ),
        all_dims_ok(views(out@)),
{
    reveal(precipitation_spec);
    let mut out: Vec<Sprite> = Vec::new();
    assert(views(out@) =~= Seq::<SpriteView>::empty());
    if !weather.condition.is_rainy() && !weather.condition.is_snowy() {
        return out;
    }
    let top: i32 = if cloud_floor > 1 {
        cloud_floor
    } else {
        1
    };
    let bottom: i32 = height as i32 - 1;
    if bottom <= top {
        return out;
    }
    let span = (bottom - top) as u64;
    let base: u64 = match weather.intensity {
        Intensity::Light => 600,
        Intensity::Moderate => 1100,
        Intensity::Heavy => 1700,
    };
    let d: u64 = if weather.condition == WeatherCondition::HeavyRain || weather.condition
        == WeatherCondition::HeavySnow {
        base * 5 / 4
    } else {
        base
    };
    assert((width as int) * (span as int) <= usize::MAX) by (nonlinear_arith)
        requires
            (width as int) * (height as int) <= usize::MAX,
            span <= height,
    ;
    let area: u64 = (width as u64) * span;
    assert(area * d <= area * 2125) by (nonlinear_arith)
        requires
            d <= 2125,
    ;
    let count: usize = (((area as u128) * (d as u128) + 5000) / 10000) as usize;
    assert(count as int == drop_count(width as int, span as int, density(*weather)));
    let level = wind_level_of(weather);
    let mut k: usize = 0;
    while k < count
        invariant
            k <= count,
            1 <= width <= max_cells(),
            0 <= top <= 4 * max_cells(),
            1 <= span <= max_cells(),
            level == wind_level(*weather),
            placed_within(views(clouds@), max_cells(), 3 * max_cells()),
            glyphs@.snow.len() == 3,
            all_dims_ok(views(out@)),
            drops_from(
                k as nat,
                count as nat,
                *weather,
                glyphs@,
                views(clouds@),
                width as int,
                top as int,
                span as int,
                frame as int,
                views(out@),
                rng@,
            ) == drops_from(
                0,
                count as nat,
                *weather,
                glyphs@,
                views(clouds@),
                width as int,
                top as int,
                span as int,
                frame as int,
                Seq::empty(),
                old(rng)@,
            ),
        decreases count - k,
    {
        let dr = drop_exec(weather, glyphs, clouds, width, top, span, frame, level, rng);
        let ghost before = out@;
        out.push(dr);
        assert(views(out@) =~= views(before).push(dr@));
        assert(dims_ok(dr@)) by {
            reveal_with_fuel(art_width, 2);
        }
        k += 1;
    }
    out
}

} // verus!

verus! {

/// Index of the widest cloud (the last one among equals), or -1 without clouds.
pub open spec fn widest(clouds: Seq<SpriteView>) -> int
    decreases clouds.len(),
{
    if clouds.len() == 0 {
        -1
    } else {
        let j = widest(clouds.drop_last());
        if j < 0 || sprite_width(clouds.last()) >= sprite_width(clouds[j]) {
            clouds.len() - 1
        } else {
            j
        }
    }
}

proof fn lemma_widest(clouds: Seq<SpriteView>)
    ensures
        clouds.len() == 0 ==> widest(clouds) == -1,
        clouds.len() > 0 ==> 0 <= widest(clouds) < clouds.len(),
    decreases clouds.len(),
{
    if clouds.len() > 0 {
        lemma_widest(clouds.drop_last());
    }
}

/// A bolt below the biggest cloud. It strobes over time but is always present
/// on frame 0, so the still image shows the storm.
#[verifier::opaque]
pub open spec fn lightning_spec(clouds: Seq<SpriteView>, cloud_floor: int, frame: int) -> Seq<
    SpriteView,
> {
    let j = widest(clouds);
    let x = if j >= 0 {
        clouds[j].x + sprite_width(clouds[j]) / 2 - 1
    } else {
        0
    };
    if frame == 0 || frame % 17 < 3 {
        seq![
            SpriteView {
                x: if x > 0 {
                    x
                } else {
                    0
                },
                y: cloud_floor,
                art: bolt_art(),
                style: Style::Bolt,
            },
        ]
    } else {
        Seq::empty()
    }
}

fn lightning(clouds: &Vec<Sprite>, cloud_floor: i32, frame: u64) -> (out: Vec<Sprite>)
    requires
        clouds@.len() <= 16,
        placed_within(views(clouds@), max_cells(), 3 * max_cells()),
    ensures
        views(out@) == lightning_spec(views(clouds@), cloud_floor as int, frame as int),
        placed_within(views(out@), 2 * max_cells(), 4 * max_cells()) || !(0 <= cloud_floor <= 4
            * max_cells()),
{
    reveal(lightning_spec);
    proof {
        lemma_within_dims(views(clouds@), max_cells(), 3 * max_cells());
        lemma_art_dims();
    }
    let mut best: i64 = -1;
    let mut i: usize = 0;
    while i < clouds.len()
        invariant
            i <= clouds.len(),
            all_dims_ok(views(clouds@)),
            clouds@.len() <= 16,
            best == widest(views(clouds@).take(i as int)),
            -1 <= best < i,
        decreases clouds.len() - i,
    {
        proof {
            lemma_widest(views(clouds@).take(i as int));
            assert(views(clouds@).take(i as int + 1).drop_last() == views(clouds@).take(i as int));
            assert(views(clouds@)[i as int] == clouds@[i as int]@);
            assert(dims_ok(views(clouds@)[i as int]));
            if best >= 0 {
                assert(views(clouds@)[best as int] == clouds@[best as int]@);
                assert(dims_ok(views(clouds@)[best as int]));
                assert(views(clouds@).take(i as int + 1)[best as int] == views(clouds@)[best as int]);
            }
        }
        if best < 0 || clouds[i].width() >= clouds[best as usize].width() {
            best = i as i64;
        }
        i += 1;
    }
    assert(views(clouds@).take(clouds.len() as int) == views(clouds@));
    let x: i32 = if best >= 0 {
        let c = &clouds[best as usize];
        assert(views(clouds@)[best as int] == c@);
        assert(-16 <= views(clouds@)[best as int].x);
        c.x + c.width() / 2 - 1
    } else {
        0
    };
    let mut out: Vec<Sprite> = Vec::new();
    if frame == 0 || frame % 17 < 3 {
        let bx = if x > 0 {
            x
        } else {
            0
        };
        out.push(Sprite::new(bx, cloud_floor, Style::Bolt, bolt()));
    }
    assert(views(out@) =~= lightning_spec(views(clouds@), cloud_floor as int, frame as int));
    out
}

/// The drop comes within two cells of the bolt.
pub open spec fn struck(bolt: Seq<SpriteView>, d: SpriteView) -> bool {
    exists|j: int| 0 <= j < bolt.len() && #[trigger] overlaps_spec(bolt[j], d, 2)
}

/// The drops that keep clear of the bolt, in order.
pub open spec fn clear_of(drops: Seq<SpriteView>, bolt: Seq<SpriteView>) -> Seq<SpriteView>
    decreases drops.len(),
{
    if drops.len() == 0 {
        Seq::empty()
    } else {
        let rest = clear_of(drops.drop_last(), bolt);
        if struck(bolt, drops.last()) {
            rest
        } else {
            rest.push(drops.last())
        }
    }
}

fn keep_clear(drops: Vec<Sprite>, bolt: &Vec<Sprite>) -> (out: Vec<Sprite>)
    requires
        all_dims_ok(views(drops@)),
        all_dims_ok(views(bolt@)),
    ensures
        views(out@) == clear_of(views(drops@), views(bolt@)),
{
    let mut out: Vec<Sprite> = Vec::new();
    let mut i: usize = 0;
    assert(views(out@) =~= clear_of(views(drops@).take(0), views(bolt@)));
    while i < drops.len()
        invariant
            i <= drops.len(),
            all_dims_ok(views(drops@)),
            all_dims_ok(views(bolt@)),
            views(out@) == clear_of(views(drops@).take(i as int), views(bolt@)),
        decreases drops.len() - i,
    {
        assert(views(drops@).take(i as int + 1).drop_last() == views(drops@).take(i as int));
        assert(views(drops@)[i as int] == drops@[i as int]@);
        assert(dims_ok(views(drops@)[i as int]));
        let mut hit = false;
        let mut j: usize = 0;
        while j < bolt.len()
            invariant
                j <= bolt.len(),
                i < drops.len(),
                all_dims_ok(views(drops@)),
                all_dims_ok(views(bolt@)),
                hit == (exists|k: int| 0 <= k < j && #[trigger] overlaps_spec(views(bolt@)[k], drops@[i as int]@, 2)),
            decreases bolt.len() - j,
        {
            assert(views(bolt@)[j as int] == bolt@[j as int]@);
            assert(dims_ok(views(bolt@)[j as int]));
            assert(views(drops@)[i as int] == drops@[i as int]@);
            assert(dims_ok(views(drops@)[i as int]));
            if bolt[j].overlaps(&drops[i], 2) {
                hit = true;
            }
            j += 1;
        }
        if !hit {
            let ghost before = out@;
            out.push(drops[i].duplicate());
            assert(views(out@) =~= views(before).push(drops@[i as int]@));
        }
        i += 1;
    }
    assert(views(drops@).take(drops.len() as int) == views(drops@));
    out
}

/// Bands of haze stacked below the cloud, every other row from `y`.
pub open spec fn fog_from(y: int, height: int, width: nat, fog: char, out: Seq<SpriteView>, s: u64) -> (
    Seq<SpriteView>,
    u64,
)
    decreases height - y,
{
    if y >= height - 1 {
        (out, s)
    } else {
        let (band, s1) = fog_band_spec(width, fog, s);
        fog_from(
            y + 2,
            height,
            width,
            fog,
            out.push(SpriteView { x: 0, y, art: seq![band], style: Style::Fog }),
            s1,
        )
    }
}

#[verifier::opaque]
pub open spec fn fog_spec(cloud_floor: int, width: nat, height: int, fog: char, s: u64) -> (
    Seq<SpriteView>,
    u64,
) {
    fog_from(
        if cloud_floor > 1 {
            cloud_floor
        } else {
            1
        },
        height,
        width,
        fog,
        Seq::empty(),
        s,
    )
}

fn fog(cloud_floor: i32, width: usize, height: usize, glyphs: &Glyphs, rng: &mut Rng) -> (out: Vec<
    Sprite,
>)
    requires
        1 <= width <= max_cells(),
        height <= max_cells(),
        0 <= cloud_floor <= 4 * max_cells(),
    ensures
        (views(out@), final(rng)@) == fog_spec(
            cloud_floor as int,
            width as nat,
            height as int,
            glyphs.fog,
            old(rng)@,
        ),
{
    reveal(fog_spec);
    let mut out: Vec<Sprite> = Vec::new();
    let mut y: i32 = if cloud_floor > 1 {
        cloud_floor
    } else {
        1
    };
    assert(views(out@) =~= Seq::<SpriteView>::empty());
    while y < height as i32 - 1
        invariant
            1 <= width <= max_cells(),
            height <= max_cells(),
            1 <= y <= 4 * max_cells() + 2,
            fog_from(y as int, height as int, width as nat, glyphs.fog, views(out@), rng@)
                == fog_spec(cloud_floor as int, width as nat, height as int, glyphs.fog, old(rng)@),
        decreases height - y,
    {
        let band = crate::scene::primitives::fog_band(width, glyphs, rng);
        let mut art: Vec<String> = Vec::new();
        art.push(band);
        let sp = Sprite::new(0, y, Style::Fog, art);
        let ghost before = out@;
        out.push(sp);
        assert(sp@.art =~= seq![band@]);
        assert(views(out@) =~= views(before).push(sp@));
        y += 2;
    }
    out
}

/// The lowest row any of these sprites reaches (exclusive), if there are any.
pub open spec fn bottom_of(s: Seq<SpriteView>) -> Option<int>
    decreases s.len(),
{
    if s.len() == 0 {
        None
    } else {
        let b = s.last().y + sprite_height(s.last());
        match bottom_of(s.drop_last()) {
            Some(r) => Some(if b > r { b } else { r }),
            None => Some(b),
        }
    }
}

fn bottom_exec(a: &Vec<Sprite>, b: &Vec<Sprite>) -> (r: Option<i64>)
    requires
        a@.len() <= 16,
        b@.len() <= 16,
        all_dims_ok(views(a@)),
        all_dims_ok(views(b@)),
    ensures
        match (r, bottom_of(views(a@) + views(b@))) {
            (Some(x), Some(y)) => x == y,
            (None, None) => true,
            _ => false,
        },
{
    let ghost all = views(a@) + views(b@);
    let mut best: Option<i64> = None;
    let mut i: usize = 0;
    let n = a.len() + b.len();
    while i < n
        invariant
            i <= n,
            n == a@.len() + b@.len(),
            all == views(a@) + views(b@),
            all_dims_ok(views(a@)),
            all_dims_ok(views(b@)),
            match (best, bottom_of(all.take(i as int))) {
                (Some(x), Some(y)) => x == y,
                (None, None) => true,
                _ => false,
            },
            best matches Some(x) ==> i32::MIN <= x <= 2 * (i32::MAX as int),
        decreases n - i,
    {
        assert(all.take(i as int + 1).drop_last() == all.take(i as int));
        let sp = if i < a.len() {
            assert(all[i as int] == a@[i as int]@);
            assert(dims_ok(views(a@)[i as int]));
            &a[i]
        } else {
            assert(all[i as int] == b@[i - a.len()]@);
            assert(dims_ok(views(b@)[i - a.len()]));
            &b[i - a.len()]
        };
        assert(sp@ == all[i as int]);
        assert(dims_ok(sp@));
        let v = sp.y as i64 + sp.height() as i64;
        best = match best {
            Some(r) => Some(if v > r { v } else { r }),
            None => Some(v),
        };
        i += 1;
    }
    assert(all.take(n as int) == all);
    best
}

/// Moves every sprite down by `k` rows.
pub open spec fn shifted(s: Seq<SpriteView>, k: int) -> Seq<SpriteView> {
    s.map_values(|v: SpriteView| SpriteView { y: v.y + k, ..v })
}

/// How far a dry sky moves down so the art sits between the top and the
/// horizon instead of clinging to the ceiling.
#[verifier::opaque]
pub open spec fn settle_shift(celestial: Seq<SpriteView>, clouds: Seq<SpriteView>, height: int) -> int {
    let bottom = match bottom_of(celestial + clouds) {
        Some(b) => b,
        None => 0,
    };
    let d = (height - 1 - bottom) / 2;
    if d > 0 {
        d
    } else {
        0
    }
}

fn shift_all(v: &Vec<Sprite>, k: i32) -> (out: Vec<Sprite>)
    requires
        forall|j: int| 0 <= j < v@.len() ==> in_range_y(#[trigger] v@[j].y as int + k),
    ensures
        views(out@) == shifted(views(v@), k as int),
        out@.len() == v@.len(),
{
    let mut out: Vec<Sprite> = Vec::new();
    let mut i: usize = 0;
    while i < v.len()
        invariant
            i <= v.len(),
            forall|j: int| 0 <= j < v@.len() ==> in_range_y(#[trigger] v@[j].y as int + k),
            views(out@) == shifted(views(v@), k as int).take(i as int),
        decreases v.len() - i,
    {
        let mut sp = v[i].duplicate();
        assert(in_range_y(v@[i as int].y as int + k));
        sp.y = sp.y + k;
        assert(sp@ == shifted(views(v@), k as int)[i as int]);
        let ghost before = out@;
        out.push(sp);
        assert(views(out@) =~= views(before).push(sp@));
        assert(shifted(views(v@), k as int).take(i as int + 1) =~= shifted(views(v@), k as int).take(
            i as int,
        ).push(shifted(views(v@), k as int)[i as int]));
        i += 1;
    }
    assert(shifted(views(v@), k as int).take(v.len() as int) =~= shifted(views(v@), k as int));
    out
}

pub open spec fn in_range_y(v: int) -> bool {
    i32::MIN <= v <= i32::MAX
}

/// Wind streaks `i..streaks`, appended to `out`.
pub open spec fn streaks_from(
    i: nat,
    streaks: nat,
    right: bool,
    wind: char,
    head: char,
    width: int,
    height: int,
    out: Seq<SpriteView>,
    s: u64,
) -> (Seq<SpriteView>, u64)
    decreases streaks - i,
{
    if i >= streaks {
        (out, s)
    } else {
        let (s1, len) = draw_range(s, 3, 6);
        let art = wind_streak_spec(len as nat, right, wind, head);
        let span = if width - art.len() > 0 {
            width - art.len()
        } else {
            0
        };
        let y = if height - 3 - i > 1 {
            height - 3 - i
        } else {
            1
        };
        let (s2, x) = draw_range(s1, 0, span);
        streaks_from(
            i + 1,
            streaks,
            right,
            wind,
            head,
            width,
            height,
            out.push(SpriteView { x, y, art: seq![art], style: Style::Wind }),
            s2,
        )
    }
}

/// Sky streaks that show a wind of 20 km/h and more, doubled from 45 km/h.
#[verifier::opaque]
pub open spec fn wind_spec(w: WeatherData, tier: Tier, width: int, height: int, g: GlyphView, s: u64) -> (
    Seq<SpriteView>,
    u64,
) {
    let level = wind_level(w);
    if tier == Tier::Compact || level == 0 {
        (Seq::empty(), s)
    } else {
        streaks_from(
            0,
            if level == 2 {
                2
            } else {
                1
            },
            blows_right(w),
            g.wind,
            g.wind_head,
            width,
            height,
            Seq::empty(),
            s,
        )
    }
}

fn wind(
    weather: &WeatherData,
    tier: Tier,
    width: usize,
    height: usize,
    glyphs: &Glyphs,
    rng: &mut Rng,
) -> (out: Vec<Sprite>)
    requires
        1 <= width <= max_cells(),
        height <= max_cells(),
    ensures
        (views(out@), final(rng)@) == wind_spec(
            *weather,
            tier,
            width as int,
            height as int,
            glyphs@,
            old(rng)@,
        ),
{
    reveal(wind_spec);
    let mut out: Vec<Sprite> = Vec::new();
    assert(views(out@) =~= Seq::<SpriteView>::empty());
    let level = wind_level_of(weather);
    if tier == Tier::Compact || level == 0 {
        return out;
    }
    let right = 180 <= weather.wind_direction && weather.wind_direction < 360;
    let streaks: i32 = if level == 2 {
        2
    } else {
        1
    };
    let mut i: i32 = 0;
    while i < streaks
        invariant
            0 <= i <= streaks <= 2,
            1 <= width <= max_cells(),
            height <= max_cells(),
            right == blows_right(*weather),
            streaks_from(
                i as nat,
                streaks as nat,
                right,
                glyphs.wind,
                glyphs.wind_head,
                width as int,
                height as int,
                views(out@),
                rng@,
            ) == wind_spec(*weather, tier, width as int, height as int, glyphs@, old(rng)@),
        decreases streaks - i,
    {
        let len = rng.range(3, 6);
        let art = wind_streak(len as usize, right, glyphs);
        let art_len = art.as_str().unicode_len();
        let span: i32 = if (width as i32) - (art_len as i32) > 0 {
            (width as i32) - (art_len as i32)
        } else {
            0
        };
        let y: i32 = if height as i32 - 3 - i > 1 {
            height as i32 - 3 - i
        } else {
            1
        };
        let x = rng.range(0, span);
        let mut lines: Vec<String> = Vec::new();
        lines.push(art);
        let sp = Sprite::new(x, y, Style::Wind, lines);
        assert(sp@.art =~= seq![art@]);
        let ghost before = out@;
        out.push(sp);
        assert(views(out@) =~= views(before).push(sp@));
        i += 1;
    }
    out
}

} // verus!

verus! {

proof fn lemma_bottom_bounds(s: Seq<SpriteView>, width: int, height: int)
    requires
        placed_within(s, width, height),
        height >= 0,
    ensures
        bottom_of(s) matches Some(b) ==> 0 <= b <= height + 16,
    decreases s.len(),
{
    if s.len() > 0 {
        let t = s.drop_last();
        assert forall|j: int| 0 <= j < t.len() implies -16 <= #[trigger] t[j].x <= width && 0
            <= t[j].y <= height && art_width(t[j].art) <= 16 && t[j].art.len() <= 16 by {
            assert(t[j] == s[j]);
            assert(-16 <= s[j].x);
        }
        lemma_bottom_bounds(t, width, height);
        assert(-16 <= s[s.len() - 1].x);
    }
}

proof fn lemma_within_concat(a: Seq<SpriteView>, b: Seq<SpriteView>, width: int, height: int)
    requires
        placed_within(a, width, height),
        placed_within(b, width, height),
    ensures
        placed_within(a + b, width, height),
{
    assert forall|j: int| 0 <= j < (a + b).len() implies -16 <= #[trigger] (a + b)[j].x <= width
        && 0 <= (a + b)[j].y <= height && art_width((a + b)[j].art) <= 16 && (a + b)[j].art.len()
        <= 16 by {
        if j < a.len() {
            assert((a + b)[j] == a[j]);
            assert(-16 <= a[j].x);
        } else {
            assert((a + b)[j] == b[j - a.len()]);
            assert(-16 <= b[j - a.len()].x);
        }
    }
}

proof fn lemma_within_widen(s: Seq<SpriteView>, width: int, height: int, w2: int, h2: int)
    requires
        placed_within(s, width, height),
        width <= w2,
        height <= h2,
    ensures
        placed_within(s, w2, h2),
{
    assert forall|j: int| 0 <= j < s.len() implies -16 <= #[trigger] s[j].x <= w2 && 0 <= s[j].y
        <= h2 && art_width(s[j].art) <= 16 && s[j].art.len() <= 16 by {
        assert(-16 <= s[j].x);
    }
}

proof fn lemma_shift_within(s: Seq<SpriteView>, width: int, height: int, k: int)
    requires
        placed_within(s, width, height),
        0 <= k,
    ensures
        placed_within(shifted(s, k), width, height + k),
{
    assert forall|j: int| 0 <= j < shifted(s, k).len() implies -16 <= #[trigger] shifted(s, k)[j].x
        <= width && 0 <= shifted(s, k)[j].y <= height + k && art_width(shifted(s, k)[j].art) <= 16
        && shifted(s, k)[j].art.len() <= 16 by {
        assert(-16 <= s[j].x);
    }
}

/// The narrowest scene the generator draws.
pub open spec fn scene_width(o: RenderOptions) -> int {
    if o.width > 14 {
        o.width as int
    } else {
        14
    }
}

pub open spec fn wet(w: WeatherData) -> bool {
    rainy(w.condition) || snowy(w.condition)
}

/// The requested height, or the tier's natural one (three rows less for a
/// dry sky, which needs no room for falling things); never below five.
pub open spec fn scene_height(w: WeatherData, o: RenderOptions) -> int {
    let tier = tier_for(scene_width(o));
    let h = match o.height {
        Some(h) => h as int,
        None => if wet(w) {
            tier_height(tier) as int
        } else {
            tier_height(tier) - 3
        },
    };
    if h > 5 {
        h
    } else {
        5
    }
}

/// The sun or moon and the clouds of a scene, settled into place, and the
/// generator state after them.
#[verifier::opaque]
pub open spec fn sky_spec(w: WeatherData, o: RenderOptions) -> (Seq<SpriteView>, Seq<SpriteView>, u64) {
    let width = scene_width(o);
    let tier = tier_for(width);
    let height = scene_height(w, o);
    let night = is_night_spec(w);
    let s0 = seeded(o.seed);
    let (count, size) = cloud_plan_spec(w, tier);
    let show = count <= 1 && w.condition != WeatherCondition::Fog;
    let (cel, s1) = if show {
        let (c, s1) = celestial_spec(night, tier, width, count == 0 && !wet(w), s0);
        (seq![c], s1)
    } else {
        (Seq::empty(), s0)
    };
    let (cl, s2) = clouds_from(0, count as nat, size, width, height, cel, o.frame as int, Seq::empty(), s1);
    let k = if !wet(w) && w.condition != WeatherCondition::Fog {
        settle_shift(cel, cl, height)
    } else {
        0
    };
    if k == 0 {
        (cel, cl, s2)
    } else {
        (shifted(cel, k), shifted(cl, k), s2)
    }
}

/// The row below the lowest cloud, or 2 without clouds.
pub open spec fn cloud_floor_of(clouds: Seq<SpriteView>) -> int {
    match bottom_of(clouds) {
        Some(b) => b,
        None => 2,
    }
}

/// Rain or snow, with the bolt of a storm clearing its way.
#[verifier::opaque]
pub open spec fn falling_spec(w: WeatherData, o: RenderOptions, clouds: Seq<SpriteView>, s: u64) -> (
    Seq<SpriteView>,
    u64,
) {
    let floor = cloud_floor_of(clouds);
    let (drops, s4) = precipitation_spec(
        w,
        glyph_table(o.ascii),
        clouds,
        scene_width(o),
        scene_height(w, o),
        floor,
        o.frame as int,
        s,
    );
    if w.condition == WeatherCondition::Thunderstorm {
        let bolt = lightning_spec(clouds, floor, o.frame as int);
        (clear_of(drops, bolt) + bolt, s4)
    } else {
        (drops, s4)
    }
}

/// The ground line of a scene that has room for one.
#[verifier::opaque]
pub open spec fn foreground_spec(width: int, height: int, tier: Tier, ground: char, s: u64) -> Seq<
    SpriteView,
> {
    if tier != Tier::Compact {
        seq![
            SpriteView {
                x: 0,
                y: height - 1,
                art: seq![horizon_spec(width as nat, ground, s).0],
                style: Style::Ground,
            },
        ]
    } else {
        Seq::empty()
    }
}

/// The scene `generate` draws for a reading and a set of options.
pub open spec fn generate_spec(w: WeatherData, o: RenderOptions) -> SceneView {
    let g = glyph_table(o.ascii);
    let width = scene_width(o);
    let tier = tier_for(width);
    let height = scene_height(w, o);
    let night = is_night_spec(w);
    let (cel2, cl2, s2) = sky_spec(w, o);
    let (bg, s3) = if night {
        stars_spec(w.cloud_cover as int, cl2, cel2, width, height, g.star, o.frame as int, s2)
    } else {
        (Seq::empty(), s2)
    };
    let (precip, s4) = falling_spec(w, o, cl2, s3);
    let (atm, s5) = if w.condition == WeatherCondition::Fog {
        fog_spec(cloud_floor_of(cl2), width as nat, height, g.fog, s4)
    } else {
        (Seq::empty(), s4)
    };
    let (wd, s6) = wind_spec(w, tier, width, height, g, s5);
    SceneView {
        width: width as nat,
        height: height as nat,
        tier,
        night,
        background: bg,
        celestial: cel2,
        clouds: cl2,
        precipitation: precip,
        atmosphere: atm,
        wind: wd,
        foreground: foreground_spec(width, height, tier, g.ground, s6),
    }
}

/// The options `generate` can honour: a scene of at most `max_cells` columns
/// and rows whose area (which the star count is taken from) fits a `usize`.
pub open spec fn options_ok(o: RenderOptions) -> bool {
    &&& o.width <= max_cells()
    &&& (o.height matches Some(h) ==> h <= max_cells() && scene_width(o) * h <= usize::MAX)
}

proof fn lemma_area_fits(w: WeatherData, o: RenderOptions)
    requires
        options_ok(o),
    ensures
        scene_width(o) * scene_height(w, o) <= usize::MAX,
{
    let sw = scene_width(o);
    let sh = scene_height(w, o);
    if let Some(h) = o.height {
        if h > 5 {
            assert(sh == h);
        } else {
            assert(sw * sh <= 268_435_456 * 5) by (nonlinear_arith)
                requires
                    0 <= sw <= 268_435_456,
                    sh == 5,
            ;
        }
    } else {
        assert(sw * sh <= 268_435_456 * 13) by (nonlinear_arith)
            requires
                0 <= sw <= 268_435_456,
                0 <= sh <= 13,
        ;
    }
}

#[verifier::rlimit(60)]
fn sky(
    weather: &WeatherData,
    opts: &RenderOptions,
    width: usize,
    tier: Tier,
    height: usize,
    night: bool,
    rng: &mut Rng,
) -> (r: (Vec<Sprite>, Vec<Sprite>))
    requires
        options_ok(*opts),
        width == scene_width(*opts),
        tier == tier_for(width as int),
        height == scene_height(*weather, *opts),
        night == is_night_spec(*weather),
        old(rng)@ == seeded(opts.seed),
    ensures
        (views(r.0@), views(r.1@), final(rng)@) == sky_spec(*weather, *opts),
        placed_within(views(r.0@), max_cells(), 3 * max_cells()),
        placed_within(views(r.1@), max_cells(), 3 * max_cells()),
        r.1@.len() <= 3,
        r.0@.len() <= 1,
{
    reveal(sky_spec);
    reveal(settle_shift);
    proof {
        lemma_art_dims();
    }
    let wet = weather.condition.is_rainy() || weather.condition.is_snowy();
    let (cloud_count, cloud_size) = cloud_plan(weather, tier);
    let show_celestial = cloud_count <= 1 && weather.condition != WeatherCondition::Fog;
    let mut celestial_v: Vec<Sprite> = Vec::new();
    if show_celestial {
        let c = celestial(night, tier, width, cloud_count == 0 && !wet, rng);
        celestial_v.push(c);
    }
    assert(views(celestial_v@) =~= (if show_celestial {
        seq![celestial_v@[0]@]
    } else {
        Seq::empty()
    }));
    proof {
        if show_celestial {
            let c = views(celestial_v@)[0];
            assert(art_width(c.art) <= 13 && c.art.len() <= 5);
            assert(placed_within(views(celestial_v@), width as int, height as int));
        }
        lemma_within_dims(views(celestial_v@), width as int, height as int);
    }
    let clouds_v = clouds(cloud_count, cloud_size, width, height, &celestial_v, opts.frame, rng);
    proof {
        lemma_within_concat(views(celestial_v@), views(clouds_v@), width as int, height as int);
        lemma_within_dims(views(celestial_v@) + views(clouds_v@), width as int, height as int);
        assert forall|j: int| 0 <= j < celestial_v@.len() implies #[trigger] dims_ok(
            views(celestial_v@)[j],
        ) by {
            assert((views(celestial_v@) + views(clouds_v@))[j] == views(celestial_v@)[j]);
        }
        lemma_bottom_bounds(views(celestial_v@) + views(clouds_v@), width as int, height as int);
    }
    let mut shift: i32 = 0;
    if !wet && weather.condition != WeatherCondition::Fog {
        let bottom = match bottom_exec(&celestial_v, &clouds_v) {
            Some(b) => b,
            None => 0,
        };
        let num = height as i64 - 1 - bottom;
        shift = if num > 1 {
            (num / 2) as i32
        } else {
            0
        };
        assert(shift == settle_shift(views(celestial_v@), views(clouds_v@), height as int));
    }
    proof {
        lemma_shift_within(views(celestial_v@), width as int, height as int, shift as int);
        lemma_shift_within(views(clouds_v@), width as int, height as int, shift as int);
        lemma_within_widen(shifted(views(celestial_v@), shift as int), width as int, height + shift, max_cells(), 3 * max_cells());
        lemma_within_widen(shifted(views(clouds_v@), shift as int), width as int, height + shift, max_cells(), 3 * max_cells());
        lemma_within_widen(views(celestial_v@), width as int, height as int, max_cells(), 3 * max_cells());
        lemma_within_widen(views(clouds_v@), width as int, height as int, max_cells(), 3 * max_cells());
    }
    assert forall|j: int| 0 <= j < clouds_v@.len() implies in_range_y(
        #[trigger] clouds_v@[j].y as int + shift,
    ) by {
        assert(views(clouds_v@)[j] == clouds_v@[j]@);
        assert(-16 <= views(clouds_v@)[j].x);
    }
    assert forall|j: int| 0 <= j < celestial_v@.len() implies in_range_y(
        #[trigger] celestial_v@[j].y as int + shift,
    ) by {
        assert(views(celestial_v@)[j] == celestial_v@[j]@);
        assert(-16 <= views(celestial_v@)[j].x);
    }
    if shift != 0 {
        (shift_all(&celestial_v, shift), shift_all(&clouds_v, shift))
    } else {
        (celestial_v, clouds_v)
    }
}

fn falling(
    weather: &WeatherData,
    opts: &RenderOptions,
    glyphs: &Glyphs,
    clouds_v: &Vec<Sprite>,
    width: usize,
    height: usize,
    rng: &mut Rng,
) -> (out: Vec<Sprite>)
    requires
        options_ok(*opts),
        width == scene_width(*opts),
        height == scene_height(*weather, *opts),
        glyphs@ == glyph_table(opts.ascii),
        placed_within(views(clouds_v@), max_cells(), 3 * max_cells()),
        clouds_v@.len() <= 3,
    ensures
        (views(out@), final(rng)@) == falling_spec(*weather, *opts, views(clouds_v@), old(rng)@),
{
    reveal(falling_spec);
    proof {
        lemma_area_fits(*weather, *opts);
        lemma_art_dims();
        lemma_within_dims(views(clouds_v@), max_cells(), 3 * max_cells());
        lemma_bottom_bounds(views(clouds_v@), max_cells(), 3 * max_cells());
    }
    let no_sprites: Vec<Sprite> = Vec::new();
    assert(views(clouds_v@) + views(no_sprites@) =~= views(clouds_v@));
    let cloud_floor: i32 = match bottom_exec(clouds_v, &no_sprites) {
        Some(b) => b as i32,
        None => 2,
    };
    let drops = precipitation(
        weather,
        glyphs,
        clouds_v,
        width,
        height,
        cloud_floor,
        opts.frame,
        rng,
    );
    if weather.condition == WeatherCondition::Thunderstorm {
        let bolt_v = lightning(clouds_v, cloud_floor, opts.frame);
        proof {
            lemma_within_dims(views(bolt_v@), 2 * max_cells(), 4 * max_cells());
        }
        let mut kept = keep_clear(drops, &bolt_v);
        let mut j: usize = 0;
        let ghost base = views(kept@);
        while j < bolt_v.len()
            invariant
                j <= bolt_v.len(),
                views(kept@) == base + views(bolt_v@).take(j as int),
            decreases bolt_v.len() - j,
        {
            let ghost before = kept@;
            kept.push(bolt_v[j].duplicate());
            assert(views(kept@) =~= views(before).push(bolt_v@[j as int]@));
            assert(views(bolt_v@).take(j as int + 1) =~= views(bolt_v@).take(j as int).push(
                bolt_v@[j as int]@,
            ));
            j += 1;
        }
        assert(views(bolt_v@).take(bolt_v.len() as int) =~= views(bolt_v@));
        kept
    } else {
        drops
    }
}

fn ground_line(width: usize, height: usize, tier: Tier, glyphs: &Glyphs, rng: &mut Rng) -> (out: Vec<Sprite>)
    requires
        14 <= width <= max_cells(),
        5 <= height <= max_cells(),
    ensures
        views(out@) == foreground_spec(width as int, height as int, tier, glyphs.ground, old(rng)@),
{
    reveal(foreground_spec);
    let mut out: Vec<Sprite> = Vec::new();
    if tier != Tier::Compact {
        let h = horizon(width, glyphs, rng);
        let mut lines: Vec<String> = Vec::new();
        lines.push(h);
        let ground = Sprite::new(0, height as i32 - 1, Style::Ground, lines);
        assert(ground@.art =~= seq![h@]);
        out.push(ground);
        assert(views(out@) =~= seq![ground@]);
    } else {
        assert(views(out@) =~= Seq::<SpriteView>::empty());
    }
    out
}

#[verifier::rlimit(60)]
pub fn generate(weather: &WeatherData, opts: &RenderOptions) -> (scene: SceneModel)
    requires
        options_ok(*opts),
        timestamps_ok(*weather),
    ensures
        scene@ == generate_spec(*weather, *opts),
{
    let glyphs = Glyphs::new(opts.ascii);
    let width = if opts.width > 14 {
        opts.width
    } else {
        14
    };
    let tier = Tier::for_width(width);
    let wet = weather.condition.is_rainy() || weather.condition.is_snowy();
    let raw_height = match opts.height {
        Some(h) => h,
        None => if wet {
            tier.height()
        } else {
            tier.height() - 3
        },
    };
    let height = if raw_height > 5 {
        raw_height
    } else {
        5
    };
    let night = weather.is_night();
    let mut scene = SceneModel::empty(width, height, tier, night);
    let mut rng = Rng::new(opts.seed);
    let (celestial_v, clouds_v) = sky(weather, opts, width, tier, height, night, &mut rng);
    proof {
        lemma_area_fits(*weather, *opts);
        lemma_within_dims(views(celestial_v@), max_cells(), 3 * max_cells());
        lemma_within_dims(views(clouds_v@), max_cells(), 3 * max_cells());
    }
    if night {
        scene.background = stars(
            weather.cloud_cover,
            &clouds_v,
            &celestial_v,
            width,
            height,
            &glyphs,
            opts.frame,
            &mut rng,
        );
    }
    scene.precipitation = falling(weather, opts, &glyphs, &clouds_v, width, height, &mut rng);
    if weather.condition == WeatherCondition::Fog {
        proof {
            lemma_bottom_bounds(views(clouds_v@), max_cells(), 3 * max_cells());
        }
        let no_sprites: Vec<Sprite> = Vec::new();
        assert(views(clouds_v@) + views(no_sprites@) =~= views(clouds_v@));
        let cloud_floor: i32 = match bottom_exec(&clouds_v, &no_sprites) {
            Some(b) => b as i32,
            None => 2,
        };
        scene.atmosphere = fog(cloud_floor, width, height, &glyphs, &mut rng);
    }
    scene.wind = wind(weather, tier, width, height, &glyphs, &mut rng);
    scene.foreground = ground_line(width, height, tier, &glyphs, &mut rng);
    scene.celestial = celestial_v;
    scene.clouds = clouds_v;
    let ghost sv = scene@;
    let ghost gs = generate_spec(*weather, *opts);
    assert(sv.width == gs.width);
    assert(sv.height == gs.height);
    assert(sv.tier == gs.tier);
    assert(sv.night == gs.night);
    assert(sv.celestial == gs.celestial);
    assert(sv.clouds == gs.clouds);
    assert(sv.background == gs.background);
    assert(sv.precipitation == gs.precipitation);
    assert(sv.atmosphere == gs.atmosphere);
    assert(sv.wind == gs.wind);
    assert(sv.foreground == gs.foreground);
    scene
}

} // verus!
