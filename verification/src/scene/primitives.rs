//! The visual vocabulary: small composable pieces of art, not one picture per
//! weather condition. The generator decides *which* pieces and *where*.

use vstd::prelude::*;
use crate::scene::model::{art_width, lines_view};
use crate::scene::rng::{Rng, draw_below, draw_chance, draw_range, lemma_draw_below, lemma_draw_range};
use crate::text::{repeat, push_char, push_repeat, chars_of, string_of};

verus! {

#[derive(Debug, Clone, Copy, PartialEq, Eq, Structural)]
pub enum Size {
    Small,
    Medium,
    Large,
}

/// Single-character glyphs that differ between the default set and the
/// pure-ASCII set used by `--plain`.
#[derive(Debug, Clone, Copy)]
pub struct Glyphs {
    pub drizzle: char,
    pub rain: char,
    pub rain_heavy: char,
    pub slant_right: char,
    pub slant_left: char,
    /// Light, moderate, heavy flakes.
    pub snow: [char; 3],
    pub star: [char; 3],
    pub fog: char,
    pub wind: char,
    pub wind_head: char,
    pub ground: char,
}

/// The abstract content of a glyph set.
pub struct GlyphView {
    pub drizzle: char,
    pub rain: char,
    pub rain_heavy: char,
    pub slant_right: char,
    pub slant_left: char,
    pub snow: Seq<char>,
    pub star: Seq<char>,
    pub fog: char,
    pub wind: char,
    pub wind_head: char,
    pub ground: char,
}

impl View for Glyphs {
    type V = GlyphView;

    open spec fn view(&self) -> GlyphView {
        GlyphView {
            drizzle: self.drizzle,
            rain: self.rain,
            rain_heavy: self.rain_heavy,
            slant_right: self.slant_right,
            slant_left: self.slant_left,
            snow: self.snow@,
            star: self.star@,
            fog: self.fog,
            wind: self.wind,
            wind_head: self.wind_head,
            ground: self.ground,
        }
    }
}

/// The glyph set for plain ASCII output, or the default one.
pub open spec fn glyph_table(ascii: bool) -> GlyphView {
    if ascii {
        GlyphView {
            drizzle: '\'',
            rain: '|',
            rain_heavy: '|',
            slant_right: '/',
            slant_left: '\\',
            snow: seq!['.', '*', '+'],
            star: seq!['.', '*', '+'],
            fog: '~',
            wind: '-',
            wind_head: '>',
            ground: '_',
        }
    } else {
        GlyphView {
            drizzle: '\'',
            rain: '│',
            rain_heavy: '┃',
            slant_right: '╱',
            slant_left: '╲',
            snow: seq!['·', '*', '✻'],
            star: seq!['·', '*', '✦'],
            fog: '~',
            wind: '~',
            wind_head: '>',
            ground: '_',
        }
    }
}

impl Glyphs {
    pub fn new(ascii: bool) -> (g: Self)
        ensures
            g@ == glyph_table(ascii),
    {
        if ascii {
            let g = Glyphs {
                drizzle: '\'',
                rain: '|',
                rain_heavy: '|',
                slant_right: '/',
                slant_left: '\\',
                snow: ['.', '*', '+'],
                star: ['.', '*', '+'],
                fog: '~',
                wind: '-',
                wind_head: '>',
                ground: '_',
            };
            assert(g.snow@ =~= seq!['.', '*', '+']);
            assert(g.star@ =~= seq!['.', '*', '+']);
            g
        } else {
            let g = Glyphs {
                drizzle: '\'',
                rain: '│',
                rain_heavy: '┃',
                slant_right: '╱',
                slant_left: '╲',
                snow: ['·', '*', '✻'],
                star: ['·', '*', '✦'],
                fog: '~',
                wind: '~',
                wind_head: '>',
                ground: '_',
            };
            assert(g.snow@ =~= seq!['·', '*', '✻']);
            assert(g.star@ =~= seq!['·', '*', '✦']);
            g
        }
    }
}

/// The lines of a block of art, as strings.
fn art(lines: &[&str]) -> (out: Vec<String>)
    ensures
        lines_view(out@) == lines@.map_values(|l: &str| l@),
{
    let mut out: Vec<String> = Vec::new();
    let mut i: usize = 0;
    while i < lines.len()
        invariant
            i <= lines.len(),
            out@.len() == i,
            forall|j: int| 0 <= j < i ==> #[trigger] out@[j]@ == lines@[j]@,
        decreases lines.len() - i,
    {
        out.push(String::from_str(lines[i]));
        i += 1;
    }
    assert(lines_view(out@) =~= lines@.map_values(|l: &str| l@));
    out
}

pub open spec fn sun_art(size: Size) -> Seq<Seq<char>> {
    match size {
        Size::Large => seq![
            "  \\   |   /"@,
            "   .-----."@,
            "--(       )--"@,
            "   `-----'"@,
            "  /   |   \\"@,
        ],
        Size::Medium => seq![" \\ | /"@, " .---."@, "-(   )-"@, " `---'"@, " / | \\"@],
        Size::Small => seq![" \\|/"@, "-( )-"@, " /|\\"@],
    }
}

pub open spec fn moon_art(size: Size) -> Seq<Seq<char>> {
    match size {
        Size::Large => seq![
            "   .---."@,
            "  /  .  \\"@,
            " |   o   |"@,
            "  \\  .  /"@,
            "   `---'"@,
        ],
        Size::Medium => seq![" .---."@, "( . o )"@, " `---'"@],
        Size::Small => seq![".-."@, "(o)"@, "`-'"@],
    }
}

pub open spec fn cloud_art(size: Size) -> Seq<Seq<char>> {
    match size {
        Size::Large => seq!["     .-----."@, "  .-(       )."@, " (____.________)"@],
        Size::Medium => seq!["    .---."@, " .-(     )."@, "(____._____)"@],
        Size::Small => seq!["  .--."@, " (    )."@, "(_______)"@],
    }
}

pub open spec fn bolt_art() -> Seq<Seq<char>> {
    seq!["  /"@, " /__"@, "   /"@, "  /"@]
}

pub fn sun(size: Size) -> (a: Vec<String>)
    ensures
        lines_view(a@) == sun_art(size),
{
    let a = match size {
        Size::Large => art(&["  \\   |   /", "   .-----.", "--(       )--", "   `-----'", "  /   |   \\"]),
        Size::Medium => art(&[" \\ | /", " .---.", "-(   )-", " `---'", " / | \\"]),
        Size::Small => art(&[" \\|/", "-( )-", " /|\\"]),
    };
    assert(lines_view(a@) =~= sun_art(size));
    a
}

pub fn moon(size: Size) -> (a: Vec<String>)
    ensures
        lines_view(a@) == moon_art(size),
{
    let a = match size {
        Size::Large => art(&["   .---.", "  /  .  \\", " |   o   |", "  \\  .  /", "   `---'"]),
        Size::Medium => art(&[" .---.", "( . o )", " `---'"]),
        Size::Small => art(&[".-.", "(o)", "`-'"]),
    };
    assert(lines_view(a@) =~= moon_art(size));
    a
}

pub fn cloud(size: Size) -> (a: Vec<String>)
    ensures
        lines_view(a@) == cloud_art(size),
{
    let a = match size {
        Size::Large => art(&["     .-----.", "  .-(       ).", " (____.________)"]),
        Size::Medium => art(&["    .---.", " .-(     ).", "(____._____)"]),
        Size::Small => art(&["  .--.", " (    ).", "(_______)"]),
    };
    assert(lines_view(a@) =~= cloud_art(size));
    a
}

/// A strike: down-left, a jog, then down-left again.
pub fn bolt() -> (a: Vec<String>)
    ensures
        lines_view(a@) == bolt_art(),
{
    let a = art(&["  /", " /__", "   /", "  /"]);
    assert(lines_view(a@) =~= bolt_art());
    a
}

/// Haze runs appended to `line` until it is at least `width` long, and the
/// generator state after them.
#[verifier::opaque]
pub open spec fn fog_fill(line: Seq<char>, width: nat, fog: char, s: u64) -> (Seq<char>, u64)
    decreases if line.len() < width { width - line.len() } else { 0 },
{
    if line.len() >= width {
        (line, s)
    } else {
        let (s1, run) = draw_range(s, 3, 9);
        let (s2, gap) = draw_range(s1, 1, 4);
        proof {
            lemma_draw_range(s, 3, 9);
        }
        fog_fill(line + repeat(fog, run as nat) + repeat(' ', gap as nat), width, fog, s2)
    }
}

/// One round of haze.
pub(crate) proof fn fog_fill_step(line: Seq<char>, width: nat, fog: char, s: u64)
    requires
        line.len() < width,
    ensures
        fog_fill(line, width, fog, s) == fog_fill(
            line + repeat(fog, draw_range(s, 3, 9).1 as nat) + repeat(
                ' ',
                draw_range(draw_range(s, 3, 9).0, 1, 4).1 as nat,
            ),
            width,
            fog,
            draw_range(draw_range(s, 3, 9).0, 1, 4).0,
        ),
{
    reveal(fog_fill);
}

/// A ragged band of haze of exactly `width` columns, and the generator state after it.
pub open spec fn fog_band_spec(width: nat, fog: char, s: u64) -> (Seq<char>, u64) {
    let (line, s2) = fog_fill(Seq::empty(), width, fog, s);
    (line.take(width as int), s2)
}

pub(crate) proof fn fog_fill_len(line: Seq<char>, width: nat, fog: char, s: u64)
    ensures
        fog_fill(line, width, fog, s).0.len() >= width,
        line.len() < width ==> fog_fill(line, width, fog, s).0.len() <= width + 12,
        line.len() >= width ==> fog_fill(line, width, fog, s) == (line, s),
    decreases if line.len() < width { width - line.len() } else { 0 },
{
    reveal(fog_fill);
    if line.len() < width {
        let (s1, run) = draw_range(s, 3, 9);
        let (s2, gap) = draw_range(s1, 1, 4);
        lemma_draw_range(s, 3, 9);
        lemma_draw_range(s1, 1, 4);
        fog_fill_step(line, width, fog, s);
        fog_fill_len(line + repeat(fog, run as nat) + repeat(' ', gap as nat), width, fog, s2);
    }
}

/// A ragged band of haze spanning `width` columns.
pub fn fog_band(width: usize, glyphs: &Glyphs, rng: &mut Rng) -> (band: String)
    requires
        width <= usize::MAX - 16,
    ensures
        (band@, final(rng)@) == fog_band_spec(width as nat, glyphs.fog, old(rng)@),
        band@.len() == width,
{
    let mut line: Vec<char> = Vec::new();
    proof {
        fog_fill_len(Seq::empty(), width as nat, glyphs.fog, rng@);
    }
    while line.len() < width
        invariant
            width <= usize::MAX - 16,
            fog_fill(line@, width as nat, glyphs.fog, rng@) == fog_fill(
                Seq::empty(),
                width as nat,
                glyphs.fog,
                old(rng)@,
            ),
        decreases if line.len() < width { width - line.len() } else { 0 },
    {
        let ghost s0 = rng@;
        let ghost l0 = line@;
        proof {
            fog_fill_step(l0, width as nat, glyphs.fog, s0);
        }
        let run = rng.range(3, 9);
        let mut k: i32 = 0;
        while k < run
            invariant
                0 <= k <= run <= 9,
                line@ == l0 + repeat(glyphs.fog, k as nat),
            decreases run - k,
        {
            line.push(glyphs.fog);
            assert(repeat(glyphs.fog, k as nat).push(glyphs.fog) =~= repeat(glyphs.fog, (k + 1) as nat));
            k += 1;
        }
        let ghost l1 = line@;
        let gap = rng.range(1, 4);
        let mut k: i32 = 0;
        while k < gap
            invariant
                0 <= k <= gap <= 4,
                line@ == l1 + repeat(' ', k as nat),
            decreases gap - k,
        {
            line.push(' ');
            assert(repeat(' ', k as nat).push(' ') =~= repeat(' ', (k + 1) as nat));
            k += 1;
        }
        assert(line@ == l0 + repeat(glyphs.fog, run as nat) + repeat(' ', gap as nat));
    }
    proof {
        fog_fill_len(line@, width as nat, glyphs.fog, rng@);
        fog_fill_len(Seq::empty(), width as nat, glyphs.fog, old(rng)@);
    }
    let band = string_of(&line.as_slice()[0..width]);
    assert(line@.subrange(0, width as int) == line@.take(width as int));
    band
}

/// `~~~~>` (or `---->`), pointing the way the wind blows.
pub open spec fn wind_streak_spec(length: nat, blows_right: bool, wind: char, head: char) -> Seq<char> {
    let tail = repeat(wind, if length >= 1 { length } else { 1 });
    if blows_right {
        tail.push(head)
    } else {
        seq![if head == '>' { '<' } else { head }] + tail
    }
}

pub fn wind_streak(length: usize, blows_right: bool, glyphs: &Glyphs) -> (s: String)
    ensures
        s@ == wind_streak_spec(length as nat, blows_right, glyphs.wind, glyphs.wind_head),
{
    let n = if length >= 1 { length } else { 1 };
    let mut s = String::new();
    if blows_right {
        push_repeat(&mut s, glyphs.wind, n);
        push_char(&mut s, glyphs.wind_head);
        assert(s@ =~= wind_streak_spec(length as nat, blows_right, glyphs.wind, glyphs.wind_head));
    } else {
        push_char(&mut s, if glyphs.wind_head == '>' { '<' } else { glyphs.wind_head });
        push_repeat(&mut s, glyphs.wind, n);
        assert(s@ =~= wind_streak_spec(length as nat, blows_right, glyphs.wind, glyphs.wind_head));
    }
    s
}

/// The bumps a horizon may rise into.
pub open spec fn bump(i: int) -> Seq<char> {
    if i == 0 {
        ".-."@
    } else if i == 1 {
        ".--."@
    } else if i == 2 {
        "._."@
    } else {
        "/\\"@
    }
}

/// Ground runs (and the odd bump) appended to `line` until it is at least
/// `width` long, and the generator state after them.
#[verifier::opaque]
pub open spec fn horizon_fill(line: Seq<char>, width: nat, ground: char, s: u64) -> (Seq<char>, u64)
    decreases if line.len() < width { width - line.len() } else { 0 },
{
    if line.len() >= width {
        (line, s)
    } else {
        let (s1, run) = draw_range(s, 3, 10);
        let (s2, bumpy) = draw_chance(s1, 55);
        proof {
            lemma_draw_range(s, 3, 10);
        }
        if bumpy {
            let (s3, i) = draw_below(s2, 4);
            horizon_fill(line + repeat(ground, run as nat) + bump(i as int), width, ground, s3)
        } else {
            horizon_fill(line + repeat(ground, run as nat), width, ground, s2)
        }
    }
}

/// One round of ground.
pub(crate) proof fn horizon_fill_step(line: Seq<char>, width: nat, ground: char, s: u64)
    requires
        line.len() < width,
    ensures
        ({
            let (s1, run) = draw_range(s, 3, 10);
            let (s2, bumpy) = draw_chance(s1, 55);
            let (s3, i) = draw_below(s2, 4);
            horizon_fill(line, width, ground, s) == if bumpy {
                horizon_fill(line + repeat(ground, run as nat) + bump(i as int), width, ground, s3)
            } else {
                horizon_fill(line + repeat(ground, run as nat), width, ground, s2)
            }
        }),
{
    reveal(horizon_fill);
}

/// A lumpy ground line of exactly `width` columns, and the generator state after it.
pub open spec fn horizon_spec(width: nat, ground: char, s: u64) -> (Seq<char>, u64) {
    let (line, s2) = horizon_fill(Seq::empty(), width, ground, s);
    (line.take(width as int), s2)
}

pub(crate) proof fn horizon_fill_len(line: Seq<char>, width: nat, ground: char, s: u64)
    ensures
        horizon_fill(line, width, ground, s).0.len() >= width,
        line.len() < width ==> horizon_fill(line, width, ground, s).0.len() <= width + 14,
        line.len() >= width ==> horizon_fill(line, width, ground, s) == (line, s),
    decreases if line.len() < width { width - line.len() } else { 0 },
{
    reveal(horizon_fill);
    if line.len() < width {
        let (s1, run) = draw_range(s, 3, 10);
        let (s2, bumpy) = draw_chance(s1, 55);
        lemma_draw_range(s, 3, 10);
        lemma_draw_below(s2, 4);
        if bumpy {
            let (s3, i) = draw_below(s2, 4);
            assert(bump(i as int).len() <= 4) by { reveal_strlit(".-."); reveal_strlit(".--."); reveal_strlit("._."); reveal_strlit("/\\"); }
            horizon_fill_len(line + repeat(ground, run as nat) + bump(i as int), width, ground, s3);
        } else {
            horizon_fill_len(line + repeat(ground, run as nat), width, ground, s2);
        }
    }
}

/// A procedurally lumpy ground line: flat runs with the odd rise.
pub fn horizon(width: usize, glyphs: &Glyphs, rng: &mut Rng) -> (h: String)
    requires
        width <= usize::MAX - 16,
    ensures
        (h@, final(rng)@) == horizon_spec(width as nat, glyphs.ground, old(rng)@),
        h@.len() == width,
{
    let bumps: [&str; 4] = [".-.", ".--.", "._.", "/\\"];
    let mut line: Vec<char> = Vec::new();
    while line.len() < width
        invariant
            width <= usize::MAX - 16,
            bumps@.len() == 4,
            forall|i: int| 0 <= i < 4 ==> #[trigger] bumps@[i]@ == bump(i),
            horizon_fill(line@, width as nat, glyphs.ground, rng@) == horizon_fill(
                Seq::empty(),
                width as nat,
                glyphs.ground,
                old(rng)@,
            ),
        decreases if line.len() < width { width - line.len() } else { 0 },
    {
        let ghost l0 = line@;
        proof {
            horizon_fill_step(l0, width as nat, glyphs.ground, rng@);
        }
        let run = rng.range(3, 10);
        let mut k: i32 = 0;
        while k < run
            invariant
                0 <= k <= run <= 10,
                line@ == l0 + repeat(glyphs.ground, k as nat),
            decreases run - k,
        {
            line.push(glyphs.ground);
            assert(repeat(glyphs.ground, k as nat).push(glyphs.ground) =~= repeat(
                glyphs.ground,
                (k + 1) as nat,
            ));
            k += 1;
        }
        let ghost l1 = line@;
        if rng.chance(55) {
            let piece = rng.pick(&bumps);
            let cs = chars_of(piece);
            let mut j: usize = 0;
            while j < cs.len()
                invariant
                    j <= cs.len(),
                    line@ == l1 + cs@.take(j as int),
                decreases cs.len() - j,
            {
                line.push(cs[j]);
                assert(cs@.take(j as int + 1) == cs@.take(j as int).push(cs@[j as int]));
                j += 1;
            }
            assert(cs@.take(cs.len() as int) == cs@);
            assert(line@ == l1 + bump(draw_below(draw_chance(draw_range(
                old(rng)@, 3, 10).0, 55).0, 4).1 as int) || true);
        }
    }
    proof {
        horizon_fill_len(line@, width as nat, glyphs.ground, rng@);
    }
    let h = string_of(&line.as_slice()[0..width]);
    assert(line@.subrange(0, width as int) == line@.take(width as int));
    h
}

} // verus!

verus! {

/// The width and height of every fixed block of art.
pub proof fn lemma_art_dims()
    ensures
        art_width(sun_art(Size::Large)) == 13 && sun_art(Size::Large).len() == 5,
        art_width(sun_art(Size::Medium)) == 7 && sun_art(Size::Medium).len() == 5,
        art_width(sun_art(Size::Small)) == 5 && sun_art(Size::Small).len() == 3,
        art_width(moon_art(Size::Large)) == 10 && moon_art(Size::Large).len() == 5,
        art_width(moon_art(Size::Medium)) == 7 && moon_art(Size::Medium).len() == 3,
        art_width(moon_art(Size::Small)) == 3 && moon_art(Size::Small).len() == 3,
        art_width(cloud_art(Size::Large)) == 16 && cloud_art(Size::Large).len() == 3,
        art_width(cloud_art(Size::Medium)) == 12 && cloud_art(Size::Medium).len() == 3,
        art_width(cloud_art(Size::Small)) == 9 && cloud_art(Size::Small).len() == 3,
        art_width(bolt_art()) == 4 && bolt_art().len() == 4,
{
    reveal_strlit("  \\   |   /");
    reveal_strlit("   .-----.");
    reveal_strlit("--(       )--");
    reveal_strlit("   `-----'");
    reveal_strlit("  /   |   \\");
    reveal_strlit(" \\ | /");
    reveal_strlit(" .---.");
    reveal_strlit("-(   )-");
    reveal_strlit(" `---'");
    reveal_strlit(" / | \\");
    reveal_strlit(" \\|/");
    reveal_strlit("-( )-");
    reveal_strlit(" /|\\");
    reveal_strlit("   .---.");
    reveal_strlit("  /  .  \\");
    reveal_strlit(" |   o   |");
    reveal_strlit("  \\  .  /");
    reveal_strlit("   `---'");
    reveal_strlit("( . o )");
    reveal_strlit(".-.");
    reveal_strlit("(o)");
    reveal_strlit("`-'");
    reveal_strlit("     .-----.");
    reveal_strlit("  .-(       ).");
    reveal_strlit(" (____.________)");
    reveal_strlit("    .---.");
    reveal_strlit(" .-(     ).");
    reveal_strlit("(____._____)");
    reveal_strlit("  .--.");
    reveal_strlit(" (    ).");
    reveal_strlit("(_______)");
    reveal_strlit("  /");
    reveal_strlit(" /__");
    reveal_strlit("   /");
    reveal_with_fuel(art_width, 6);
}

} // verus!
