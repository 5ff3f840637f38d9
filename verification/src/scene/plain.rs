//! `--plain` restricts the art to pure ASCII: what holds of every scene drawn
//! with the ASCII glyph set.

use vstd::prelude::*;
use crate::scene::generator::{
    RenderOptions, celestial_art, celestial_spec, clear_of, cloud_candidates, clouds_from,
    drop_spec, drops_from, falling_spec, fog_from, fog_spec, foreground_spec, generate_spec,
    lightning_spec, precipitation_spec, shifted, sky_spec, star_glyph, stars_from, stars_spec,
    streaks_from, wind_spec, capped,
};
use crate::scene::model::{SpriteView, Style, glyph_view};
use crate::scene::primitives::{glyph_table, wind_streak_spec};
use crate::scene::primitives::{
    Size, bolt_art, bump, cloud_art, fog_band_spec, fog_fill, fog_fill_step, horizon_fill,
    horizon_fill_step, horizon_spec, fog_fill_len, horizon_fill_len, moon_art, sun_art,
};
use crate::scene::rng::{draw_below, draw_chance, draw_range, lemma_draw_below, lemma_draw_range};
use crate::text::repeat;
use crate::scene::primitives::GlyphView;
use crate::weather::model::WeatherData;

verus! {

pub open spec fn is_ascii_char(c: char) -> bool {
    (c as u32) < 128
}

pub open spec fn ascii_line(s: Seq<char>) -> bool {
    forall|i: int| 0 <= i < s.len() ==> is_ascii_char(#[trigger] s[i])
}

pub open spec fn ascii_art(a: Seq<Seq<char>>) -> bool {
    forall|j: int| 0 <= j < a.len() ==> ascii_line(#[trigger] a[j])
}

pub open spec fn ascii_sprites(v: Seq<SpriteView>) -> bool {
    forall|k: int| 0 <= k < v.len() ==> ascii_art(#[trigger] v[k].art)
}

proof fn lemma_fixed_art()
    ensures
        forall|s: Size| ascii_art(#[trigger] sun_art(s)),
        forall|s: Size| ascii_art(#[trigger] moon_art(s)),
        forall|s: Size| ascii_art(#[trigger] cloud_art(s)),
        ascii_art(bolt_art()),
{
    assert forall|s: Size| ascii_art(#[trigger] sun_art(s)) by {
        reveal_strlit("  \\   |   /");
        reveal_strlit("   .-----.");
        reveal_strlit("--(       )--");
        reveal_strlit("   `-----'");
        reveal_strlit("  /   |   \\");
        reveal_strlit(" \\ | /");
        reveal_strlit(" .---.");
        reveal_strlit("-(   )-");
        reveal_strlit(" `---'");
        reveal_strlit(" / | \\");
        reveal_strlit(" \\|/");
        reveal_strlit("-( )-");
        reveal_strlit(" /|\\");
        let a = sun_art(s);
        assert forall|j: int| 0 <= j < a.len() implies ascii_line(#[trigger] a[j]) by {
            assert(ascii_line("  \\   |   /"@));
            assert(ascii_line("   .-----."@));
            assert(ascii_line("--(       )--"@));
            assert(ascii_line("   `-----'"@));
            assert(ascii_line("  /   |   \\"@));
            assert(ascii_line(" \\ | /"@));
            assert(ascii_line(" .---."@));
            assert(ascii_line("-(   )-"@));
            assert(ascii_line(" `---'"@));
            assert(ascii_line(" / | \\"@));
            assert(ascii_line(" \\|/"@));
            assert(ascii_line("-( )-"@));
            assert(ascii_line(" /|\\"@));
        }
    }
    assert forall|s: Size| ascii_art(#[trigger] moon_art(s)) by {
        reveal_strlit("   .---.");
        reveal_strlit("  /  .  \\");
        reveal_strlit(" |   o   |");
        reveal_strlit("  \\  .  /");
        reveal_strlit("   `---'");
        reveal_strlit(" .---.");
        reveal_strlit("( . o )");
        reveal_strlit(" `---'");
        reveal_strlit(".-.");
        reveal_strlit("(o)");
        reveal_strlit("`-'");
        let a = moon_art(s);
        assert forall|j: int| 0 <= j < a.len() implies ascii_line(#[trigger] a[j]) by {
            assert(ascii_line("   .---."@));
            assert(ascii_line("  /  .  \\"@));
            assert(ascii_line(" |   o   |"@));
            assert(ascii_line("  \\  .  /"@));
            assert(ascii_line("   `---'"@));
            assert(ascii_line(" .---."@));
            assert(ascii_line("( . o )"@));
            assert(ascii_line(" `---'"@));
            assert(ascii_line(".-."@));
            assert(ascii_line("(o)"@));
            assert(ascii_line("`-'"@));
        }
    }
    assert forall|s: Size| ascii_art(#[trigger] cloud_art(s)) by {
        reveal_strlit("     .-----.");
        reveal_strlit("  .-(       ).");
        reveal_strlit(" (____.________)");
        reveal_strlit("    .---.");
        reveal_strlit(" .-(     ).");
        reveal_strlit("(____._____)");
        reveal_strlit("  .--.");
        reveal_strlit(" (    ).");
        reveal_strlit("(_______)");
        let a = cloud_art(s);
        assert forall|j: int| 0 <= j < a.len() implies ascii_line(#[trigger] a[j]) by {
            assert(ascii_line("     .-----."@));
            assert(ascii_line("  .-(       )."@));
            assert(ascii_line(" (____.________)"@));
            assert(ascii_line("    .---."@));
            assert(ascii_line(" .-(     )."@));
            assert(ascii_line("(____._____)"@));
            assert(ascii_line("  .--."@));
            assert(ascii_line(" (    )."@));
            assert(ascii_line("(_______)"@));
        }
    }
    reveal_strlit("  /");
    reveal_strlit(" /__");
    reveal_strlit("   /");
    reveal_strlit("  /");
    assert forall|j: int| 0 <= j < bolt_art().len() implies ascii_line(#[trigger] bolt_art()[j]) by {
        assert(ascii_line("  /"@));
        assert(ascii_line(" /__"@));
        assert(ascii_line("   /"@));
        assert(ascii_line("  /"@));
    }
}

proof fn lemma_repeat_ascii(c: char, n: nat)
    requires
        is_ascii_char(c),
    ensures
        ascii_line(repeat(c, n)),
{
}

proof fn lemma_concat_ascii(a: Seq<char>, b: Seq<char>)
    requires
        ascii_line(a),
        ascii_line(b),
    ensures
        ascii_line(a + b),
{
    assert forall|i: int| 0 <= i < (a + b).len() implies is_ascii_char(#[trigger] (a + b)[i]) by {
        if i < a.len() {
            assert((a + b)[i] == a[i]);
        } else {
            assert((a + b)[i] == b[i - a.len()]);
        }
    }
}

proof fn lemma_take_ascii(a: Seq<char>, n: int)
    requires
        ascii_line(a),
        0 <= n <= a.len(),
    ensures
        ascii_line(a.take(n)),
{
    assert forall|i: int| 0 <= i < a.take(n).len() implies is_ascii_char(#[trigger] a.take(n)[i]) by {
        assert(a.take(n)[i] == a[i]);
    }
}

proof fn lemma_fog_fill_ascii(line: Seq<char>, width: nat, fog: char, s: u64)
    requires
        ascii_line(line),
        is_ascii_char(fog),
    ensures
        ascii_line(fog_fill(line, width, fog, s).0),
    decreases if line.len() < width { width - line.len() } else { 0 },
{
    reveal(fog_fill);
    if line.len() < width {
        let (s1, run) = draw_range(s, 3, 9);
        let (s2, gap) = draw_range(s1, 1, 4);
        lemma_draw_range(s, 3, 9);
        lemma_draw_range(s1, 1, 4);
        fog_fill_step(line, width, fog, s);
        lemma_repeat_ascii(fog, run as nat);
        lemma_repeat_ascii(' ', gap as nat);
        lemma_concat_ascii(line, repeat(fog, run as nat));
        lemma_concat_ascii(line + repeat(fog, run as nat), repeat(' ', gap as nat));
        lemma_fog_fill_ascii(line + repeat(fog, run as nat) + repeat(' ', gap as nat), width, fog, s2);
    }
}

/// A band of haze in an ASCII fog glyph is ASCII.
pub proof fn lemma_fog_band_ascii(width: nat, fog: char, s: u64)
    requires
        is_ascii_char(fog),
    ensures
        ascii_line(fog_band_spec(width, fog, s).0),
{
    lemma_fog_fill_ascii(Seq::empty(), width, fog, s);
    fog_fill_len(Seq::empty(), width, fog, s);
    lemma_take_ascii(fog_fill(Seq::empty(), width, fog, s).0, width as int);
}

proof fn lemma_bump_ascii(i: int)
    ensures
        ascii_line(bump(i)),
{
    reveal_strlit(".-.");
    reveal_strlit(".--.");
    reveal_strlit("._.");
    reveal_strlit("/\\");
    assert(ascii_line(".-."@));
    assert(ascii_line(".--."@));
    assert(ascii_line("._."@));
    assert(ascii_line("/\\"@));
}

proof fn lemma_horizon_fill_ascii(line: Seq<char>, width: nat, ground: char, s: u64)
    requires
        ascii_line(line),
        is_ascii_char(ground),
    ensures
        ascii_line(horizon_fill(line, width, ground, s).0),
    decreases if line.len() < width { width - line.len() } else { 0 },
{
    reveal(horizon_fill);
    if line.len() < width {
        let (s1, run) = draw_range(s, 3, 10);
        let (s2, bumpy) = draw_chance(s1, 55);
        let (s3, i) = draw_below(s2, 4);
        lemma_draw_range(s, 3, 10);
        horizon_fill_step(line, width, ground, s);
        lemma_repeat_ascii(ground, run as nat);
        lemma_concat_ascii(line, repeat(ground, run as nat));
        if bumpy {
            lemma_bump_ascii(i as int);
            lemma_concat_ascii(line + repeat(ground, run as nat), bump(i as int));
            lemma_horizon_fill_ascii(line + repeat(ground, run as nat) + bump(i as int), width, ground, s3);
        } else {
            lemma_horizon_fill_ascii(line + repeat(ground, run as nat), width, ground, s2);
        }
    }
}

/// A horizon in an ASCII ground glyph is ASCII.
pub proof fn lemma_horizon_ascii(width: nat, ground: char, s: u64)
    requires
        is_ascii_char(ground),
    ensures
        ascii_line(horizon_spec(width, ground, s).0),
{
    lemma_horizon_fill_ascii(Seq::empty(), width, ground, s);
    horizon_fill_len(Seq::empty(), width, ground, s);
    lemma_take_ascii(horizon_fill(Seq::empty(), width, ground, s).0, width as int);
}

proof fn lemma_glyph_ascii(x: int, y: int, style: Style, c: char)
    requires
        is_ascii_char(c),
    ensures
        ascii_art(glyph_view(x, y, style, c).art),
{
    assert(ascii_line(seq![c]));
}

proof fn lemma_push_ascii(v: Seq<SpriteView>, sp: SpriteView)
    requires
        ascii_sprites(v),
        ascii_art(sp.art),
    ensures
        ascii_sprites(v.push(sp)),
{
    assert forall|k: int| 0 <= k < v.push(sp).len() implies ascii_art(#[trigger] v.push(sp)[k].art) by {
        if k < v.len() {
            assert(v.push(sp)[k] == v[k]);
        }
    }
}

proof fn lemma_append_ascii(a: Seq<SpriteView>, b: Seq<SpriteView>)
    requires
        ascii_sprites(a),
        ascii_sprites(b),
    ensures
        ascii_sprites(a + b),
{
    assert forall|k: int| 0 <= k < (a + b).len() implies ascii_art(#[trigger] (a + b)[k].art) by {
        if k < a.len() {
            assert((a + b)[k] == a[k]);
        } else {
            assert((a + b)[k] == b[k - a.len()]);
        }
    }
}

proof fn lemma_shifted_ascii(v: Seq<SpriteView>, k: int)
    requires
        ascii_sprites(v),
    ensures
        ascii_sprites(shifted(v, k)),
{
    assert forall|j: int| 0 <= j < shifted(v, k).len() implies ascii_art(#[trigger] shifted(v, k)[j].art) by {
        assert(shifted(v, k)[j].art == v[j].art);
    }
}

proof fn lemma_candidates_art(
    k: nat,
    art: Seq<Seq<char>>,
    span: int,
    band: int,
    others: Seq<SpriteView>,
    best: Option<SpriteView>,
    s: u64,
)
    requires
        best matches Some(b) ==> b.art == art,
    ensures
        cloud_candidates(k, art, span, band, others, best, s).0 matches Some(c) ==> c.art == art,
    decreases 16 - k,
{
    if k < 16 {
        let (s1, x) = draw_range(s, 0, span);
        let (s2, y) = draw_range(s1, 0, band);
        let cand = SpriteView { x, y, art, style: Style::Cloud };
        lemma_candidates_art(k + 1, art, span, band, others, if best is Some { best } else { Some(cand) }, s2);
    }
}

proof fn lemma_clouds_ascii(
    i: nat,
    count: nat,
    size: Size,
    width: int,
    height: int,
    celestial: Seq<SpriteView>,
    frame: int,
    placed: Seq<SpriteView>,
    s: u64,
)
    requires
        ascii_sprites(placed),
    ensures
        ascii_sprites(clouds_from(i, count, size, width, height, celestial, frame, placed, s).0),
    decreases count - i,
{
    reveal(clouds_from);
    lemma_fixed_art();
    if i < count {
        let art = cloud_art(if i == 0 { size } else { capped(size, Size::Medium) });
        let aw = crate::scene::model::art_width(art) as int;
        let span = if width - aw > 0 { width - aw } else { 0 };
        let band = if height / 3 - 1 > 0 { height / 3 - 1 } else { 0 };
        let (best, s1) = cloud_candidates(0, art, span, band, celestial + placed, None, s);
        lemma_candidates_art(0, art, span, band, celestial + placed, None, s);
        let placed2 = match best {
            Some(sp) => placed.push(crate::scene::generator::drifted(sp, width, frame)),
            None => placed,
        };
        if best is Some {
            lemma_push_ascii(placed, crate::scene::generator::drifted(best->0, width, frame));
        }
        lemma_clouds_ascii(i + 1, count, size, width, height, celestial, frame, placed2, s1);
    }
}

proof fn lemma_stars_ascii(
    a: nat,
    total: nat,
    count: nat,
    width: int,
    rows: int,
    others: Seq<SpriteView>,
    star: Seq<char>,
    frame: int,
    out: Seq<SpriteView>,
    s: u64,
)
    requires
        ascii_sprites(out),
        star.len() >= 3,
        ascii_line(star),
    ensures
        ascii_sprites(stars_from(a, total, count, width, rows, others, star, frame, out, s).0),
    decreases total - a,
{
    if a < total && out.len() < count {
        let (s1, x) = draw_range(s, 0, width - 1);
        let (s2, y) = draw_range(s1, 0, rows - 1);
        if crate::scene::generator::occupied(x, y, others) {
            lemma_stars_ascii(a + 1, total, count, width, rows, others, star, frame, out, s2);
        } else {
            let (g, s3) = star_glyph(star, frame, out.len() as int, s2);
            assert(is_ascii_char(star[0]) && is_ascii_char(star[1]) && is_ascii_char(star[2]));
            lemma_glyph_ascii(x, y, Style::Star, g);
            lemma_push_ascii(out, glyph_view(x, y, Style::Star, g));
            lemma_stars_ascii(a + 1, total, count, width, rows, others, star, frame, out.push(glyph_view(x, y, Style::Star, g)), s3);
        }
    }
}

/// Every glyph of a set is ASCII.
pub open spec fn ascii_glyphs(g: GlyphView) -> bool {
    &&& is_ascii_char(g.drizzle)
    &&& is_ascii_char(g.rain)
    &&& is_ascii_char(g.rain_heavy)
    &&& is_ascii_char(g.slant_right)
    &&& is_ascii_char(g.slant_left)
    &&& g.snow.len() >= 3 && ascii_line(g.snow)
    &&& g.star.len() >= 3 && ascii_line(g.star)
    &&& is_ascii_char(g.fog)
    &&& is_ascii_char(g.wind)
    &&& is_ascii_char(g.wind_head)
    &&& is_ascii_char(g.ground)
}

/// The glyphs of `--plain` are all ASCII.
pub proof fn plain_glyphs_are_ascii()
    ensures
        ascii_glyphs(glyph_table(true)),
{
    let g = glyph_table(true);
    assert(ascii_line(g.snow));
    assert(ascii_line(g.star));
}

proof fn lemma_drops_ascii(
    k: nat,
    count: nat,
    w: WeatherData,
    g: GlyphView,
    clouds: Seq<SpriteView>,
    width: int,
    top: int,
    span: int,
    frame: int,
    out: Seq<SpriteView>,
    s: u64,
)
    requires
        ascii_sprites(out),
        ascii_glyphs(g),
    ensures
        ascii_sprites(drops_from(k, count, w, g, clouds, width, top, span, frame, out, s).0),
    decreases count - k,
{
    if k < count {
        let (d, s1) = drop_spec(w, g, clouds, width, top, span, frame, s);
        assert(is_ascii_char(g.snow[0]) && is_ascii_char(g.snow[1]) && is_ascii_char(g.snow[2]));
        assert(ascii_line(d.art[0]));
        assert(ascii_art(d.art));
        lemma_push_ascii(out, d);
        lemma_drops_ascii(k + 1, count, w, g, clouds, width, top, span, frame, out.push(d), s1);
    }
}

proof fn lemma_clear_of_ascii(drops: Seq<SpriteView>, bolt: Seq<SpriteView>)
    requires
        ascii_sprites(drops),
    ensures
        ascii_sprites(clear_of(drops, bolt)),
    decreases drops.len(),
{
    if drops.len() > 0 {
        assert(ascii_sprites(drops.drop_last())) by {
            assert forall|k: int| 0 <= k < drops.drop_last().len() implies ascii_art(#[trigger] drops.drop_last()[k].art) by {
                assert(drops.drop_last()[k] == drops[k]);
            }
        }
        lemma_clear_of_ascii(drops.drop_last(), bolt);
        assert(ascii_art(drops[drops.len() - 1].art));
        lemma_push_ascii(clear_of(drops.drop_last(), bolt), drops.last());
    }
}

proof fn lemma_fog_from_ascii(y: int, height: int, width: nat, fog: char, out: Seq<SpriteView>, s: u64)
    requires
        ascii_sprites(out),
        is_ascii_char(fog),
    ensures
        ascii_sprites(fog_from(y, height, width, fog, out, s).0),
    decreases height - y,
{
    if y < height - 1 {
        let (band, s1) = fog_band_spec(width, fog, s);
        lemma_fog_band_ascii(width, fog, s);
        assert(ascii_art(seq![band]));
        lemma_push_ascii(out, SpriteView { x: 0, y, art: seq![band], style: Style::Fog });
        lemma_fog_from_ascii(y + 2, height, width, fog, out.push(SpriteView { x: 0, y, art: seq![band], style: Style::Fog }), s1);
    }
}

proof fn lemma_streaks_ascii(
    i: nat,
    streaks: nat,
    right: bool,
    wind: char,
    head: char,
    width: int,
    height: int,
    out: Seq<SpriteView>,
    s: u64,
)
    requires
        ascii_sprites(out),
        is_ascii_char(wind),
        is_ascii_char(head),
    ensures
        ascii_sprites(streaks_from(i, streaks, right, wind, head, width, height, out, s).0),
    decreases streaks - i,
{
    if i < streaks {
        let (s1, len) = draw_range(s, 3, 6);
        let art = wind_streak_spec(len as nat, right, wind, head);
        let span = if width - art.len() > 0 { width - art.len() } else { 0 };
        let y = if height - 3 - i > 1 { height - 3 - i } else { 1 };
        let (s2, x) = draw_range(s1, 0, span);
        let n: nat = if len as nat >= 1 { len as nat } else { 1 };
        lemma_repeat_ascii(wind, n);
        if right {
            assert(ascii_line(repeat(wind, n).push(head))) by {
                assert(repeat(wind, n).push(head) =~= repeat(wind, n) + seq![head]);
                lemma_concat_ascii(repeat(wind, n), seq![head]);
            }
        } else {
            let h = if head == '>' { '<' } else { head };
            assert(ascii_line(seq![h]));
            lemma_concat_ascii(seq![h], repeat(wind, n));
        }
        assert(ascii_art(seq![art]));
        lemma_push_ascii(out, SpriteView { x, y, art: seq![art], style: Style::Wind });
        lemma_streaks_ascii(i + 1, streaks, right, wind, head, width, height, out.push(SpriteView { x, y, art: seq![art], style: Style::Wind }), s2);
    }
}

/// `--plain` restricts the art to pure ASCII: drawn with the ASCII glyph
/// set, every character of every sprite in every layer of the scene is
/// ASCII, whatever the weather, the size, the seed or the frame.
pub proof fn plain_scenes_are_ascii(w: WeatherData, o: RenderOptions)
    requires
        o.ascii,
    ensures
        ({
            let sc = generate_spec(w, o);
            &&& ascii_sprites(sc.background)
            &&& ascii_sprites(sc.celestial)
            &&& ascii_sprites(sc.clouds)
            &&& ascii_sprites(sc.precipitation)
            &&& ascii_sprites(sc.atmosphere)
            &&& ascii_sprites(sc.wind)
            &&& ascii_sprites(sc.foreground)
        }),
{
    reveal(sky_spec);
    reveal(celestial_spec);
    reveal(stars_spec);
    reveal(falling_spec);
    reveal(precipitation_spec);
    reveal(lightning_spec);
    reveal(fog_spec);
    reveal(wind_spec);
    reveal(foreground_spec);
    lemma_fixed_art();
    plain_glyphs_are_ascii();
    let g = glyph_table(o.ascii);
    let width = crate::scene::generator::scene_width(o);
    let tier = crate::scene::model::tier_for(width);
    let height = crate::scene::generator::scene_height(w, o);
    let night = crate::weather::model::is_night_spec(w);
    // The sky: the sun or moon, then the clouds, perhaps moved down together.
    let s0 = crate::scene::rng::seeded(o.seed);
    let (count, size) = crate::scene::generator::cloud_plan_spec(w, tier);
    let show = count <= 1 && w.condition != crate::weather::model::WeatherCondition::Fog;
    let (cel, s1) = if show {
        let (c, s1) = celestial_spec(night, tier, width, count == 0 && !crate::scene::generator::wet(w), s0);
        assert(ascii_art(celestial_art(night, tier)));
        lemma_push_ascii(Seq::empty(), c);
        assert(seq![c] =~= Seq::<SpriteView>::empty().push(c));
        (seq![c], s1)
    } else {
        (Seq::empty(), s0)
    };
    lemma_clouds_ascii(0, count as nat, size, width, height, cel, o.frame as int, Seq::empty(), s1);
    let (cl, _) = clouds_from(0, count as nat, size, width, height, cel, o.frame as int, Seq::empty(), s1);
    lemma_shifted_ascii(cel, crate::scene::generator::settle_shift(cel, cl, height));
    lemma_shifted_ascii(cl, crate::scene::generator::settle_shift(cel, cl, height));
    let (cel2, cl2, s2) = sky_spec(w, o);
    assert(ascii_sprites(cel2) && ascii_sprites(cl2));
    // Stars.
    if night {
        lemma_stars_ascii(
            0,
            (crate::scene::generator::star_count(width, crate::scene::generator::sky_rows(height), w.cloud_cover as int) * 4) as nat,
            crate::scene::generator::star_count(width, crate::scene::generator::sky_rows(height), w.cloud_cover as int) as nat,
            width,
            crate::scene::generator::sky_rows(height),
            cl2 + cel2,
            g.star,
            o.frame as int,
            Seq::empty(),
            s2,
        );
    }
    let (bg, s3) = if night {
        stars_spec(w.cloud_cover as int, cl2, cel2, width, height, g.star, o.frame as int, s2)
    } else {
        (Seq::empty(), s2)
    };
    // Rain, snow and lightning.
    let floor = crate::scene::generator::cloud_floor_of(cl2);
    let top = if floor > 1 { floor } else { 1 };
    let bottom = height - 1;
    if (crate::weather::model::rainy(w.condition) || crate::weather::model::snowy(w.condition)) && bottom > top {
        let span = bottom - top;
        let n = crate::scene::generator::drop_count(width, span, crate::scene::generator::density(w));
        lemma_drops_ascii(0, n as nat, w, g, cl2, width, top, span, o.frame as int, Seq::empty(), s3);
    }
    let (drops, s4) = precipitation_spec(w, g, cl2, width, height, floor, o.frame as int, s3);
    assert(ascii_sprites(drops));
    let bolt = lightning_spec(cl2, floor, o.frame as int);
    assert(ascii_sprites(bolt));
    lemma_clear_of_ascii(drops, bolt);
    lemma_append_ascii(clear_of(drops, bolt), bolt);
    let (precip, s4b) = falling_spec(w, o, cl2, s3);
    assert(ascii_sprites(precip));
    // Fog.
    lemma_fog_from_ascii(if floor > 1 { floor } else { 1 }, height, width as nat, g.fog, Seq::empty(), s4b);
    let (atm, s5) = if w.condition == crate::weather::model::WeatherCondition::Fog {
        fog_spec(floor, width as nat, height, g.fog, s4b)
    } else {
        (Seq::empty(), s4b)
    };
    // Wind.
    lemma_streaks_ascii(
        0,
        if crate::scene::generator::wind_level(w) == 2 { 2 } else { 1 },
        crate::scene::generator::blows_right(w),
        g.wind,
        g.wind_head,
        width,
        height,
        Seq::empty(),
        s5,
    );
    let (wd, s6) = wind_spec(w, tier, width, height, g, s5);
    // The horizon.
    lemma_horizon_ascii(width as nat, g.ground, s6);
    let hz = crate::scene::primitives::horizon_spec(width as nat, g.ground, s6).0;
    assert(ascii_art(seq![hz]));
    let fg = foreground_spec(width, height, tier, g.ground, s6);
    assert(ascii_sprites(fg));
}

} // verus!
