//! What a weather scene *is*, independent of how it reaches a terminal.

use vstd::prelude::*;

verus! {

/// How much room the scene has to work with. Drives art sizes and how much
/// decoration the generator is allowed to spend.
#[derive(Debug, Clone, Copy, PartialEq, Eq, Structural)]
pub enum Tier {
    Compact,
    Normal,
    Wide,
}

pub open spec fn tier_for(width: int) -> Tier {
    if width <= 35 {
        Tier::Compact
    } else if width <= 59 {
        Tier::Normal
    } else {
        Tier::Wide
    }
}

pub open spec fn tier_height(t: Tier) -> nat {
    match t {
        Tier::Compact => 8,
        Tier::Normal => 11,
        Tier::Wide => 13,
    }
}

impl Tier {
    pub fn for_width(width: usize) -> (t: Tier)
        ensures
            t == tier_for(width as int),
    {
        if width <= 35 {
            Tier::Compact
        } else if width <= 59 {
            Tier::Normal
        } else {
            Tier::Wide
        }
    }

    /// Scene height that looks balanced at this tier.
    pub fn height(self) -> (h: usize)
        ensures
            h == tier_height(self),
    {
        match self {
            Tier::Compact => 8,
            Tier::Normal => 11,
            Tier::Wide => 13,
        }
    }
}

/// Semantic role of a sprite. The renderer maps these to colors; the generator
/// never picks a color itself.
#[derive(Debug, Clone, Copy, PartialEq, Eq, Structural)]
pub enum Style {
    Sun,
    Moon,
    Star,
    Cloud,
    Rain,
    Snow,
    Bolt,
    Fog,
    Wind,
    Ground,
}

/// The abstract content of a sprite.
pub struct SpriteView {
    pub x: int,
    pub y: int,
    pub art: Seq<Seq<char>>,
    pub style: Style,
}

/// The characters of each line of art.
pub open spec fn lines_view(art: Seq<String>) -> Seq<Seq<char>> {
    art.map_values(|l: String| l@)
}

/// Width of a block of art: its longest line.
pub open spec fn art_width(art: Seq<Seq<char>>) -> nat
    decreases art.len(),
{
    if art.len() == 0 {
        0
    } else {
        let w = art_width(art.drop_last());
        if art.last().len() > w {
            art.last().len()
        } else {
            w
        }
    }
}

pub open spec fn sprite_width(s: SpriteView) -> int {
    art_width(s.art) as int
}

pub open spec fn sprite_height(s: SpriteView) -> int {
    s.art.len() as int
}

/// `(x0, y0, x1, y1)`, exclusive on the far edge.
pub open spec fn bbox_of(s: SpriteView) -> (int, int, int, int) {
    (s.x, s.y, s.x + sprite_width(s), s.y + sprite_height(s))
}

pub open spec fn overlaps_spec(a: SpriteView, b: SpriteView, margin: int) -> bool {
    let (ax0, ay0, ax1, ay1) = bbox_of(a);
    let (bx0, by0, bx1, by1) = bbox_of(b);
    ax0 - margin < bx1 && bx0 < ax1 + margin && ay0 - margin < by1 && by0 < ay1 + margin
}

pub open spec fn contains_spec(s: SpriteView, px: int, py: int, margin: int) -> bool {
    let (x0, y0, x1, y1) = bbox_of(s);
    px >= x0 - margin && px < x1 + margin && py >= y0 - margin && py < y1 + margin
}

pub open spec fn in_i32(v: int) -> bool {
    i32::MIN <= v <= i32::MAX
}

/// The sprite's width and height fit in `i32`.
pub open spec fn dims_ok(s: SpriteView) -> bool {
    sprite_width(s) <= i32::MAX && sprite_height(s) <= i32::MAX
}

/// The box of the sprite, widened by `margin`, can be computed in `i32`.
pub open spec fn box_fits(s: SpriteView, margin: int) -> bool {
    &&& sprite_width(s) <= i32::MAX
    &&& sprite_height(s) <= i32::MAX
    &&& in_i32(s.x + sprite_width(s))
    &&& in_i32(s.y + sprite_height(s))
    &&& in_i32(s.x - margin)
    &&& in_i32(s.y - margin)
    &&& in_i32(s.x + sprite_width(s) + margin)
    &&& in_i32(s.y + sprite_height(s) + margin)
}

/// A block of art anchored at `(x, y)`. Spaces are transparent.
#[derive(Debug, Clone, PartialEq)]
pub struct Sprite {
    pub x: i32,
    pub y: i32,
    pub art: Vec<String>,
    pub style: Style,
}

impl View for Sprite {
    type V = SpriteView;

    open spec fn view(&self) -> SpriteView {
        SpriteView { x: self.x as int, y: self.y as int, art: lines_view(self.art@), style: self.style }
    }
}

/// The abstract content of a list of sprites.
pub open spec fn views(s: Seq<Sprite>) -> Seq<SpriteView> {
    s.map_values(|sp: Sprite| sp@)
}

/// A copy of some lines of art.
pub fn copy_lines(art: &Vec<String>) -> (r: Vec<String>)
    ensures
        lines_view(r@) == lines_view(art@),
{
    let mut r: Vec<String> = Vec::new();
    let mut i: usize = 0;
    while i < art.len()
        invariant
            i <= art.len(),
            r@.len() == i,
            forall|j: int| 0 <= j < i ==> #[trigger] r@[j]@ == art@[j]@,
        decreases art.len() - i,
    {
        r.push(art[i].clone());
        i += 1;
    }
    assert(lines_view(r@) =~= lines_view(art@));
    r
}

/// Width of some lines of art.
pub fn art_cols(art: &Vec<String>) -> (w: usize)
    ensures
        w == art_width(lines_view(art@)),
{
    let mut best: usize = 0;
    let mut i: usize = 0;
    while i < art.len()
        invariant
            i <= art.len(),
            best == art_width(lines_view(art@).take(i as int)),
        decreases art.len() - i,
    {
        let n = art[i].as_str().unicode_len();
        assert(lines_view(art@).take(i as int + 1).drop_last() == lines_view(art@).take(i as int));
        if n > best {
            best = n;
        }
        i += 1;
    }
    assert(lines_view(art@).take(art.len() as int) == lines_view(art@));
    best
}

/// A sprite of one character.
pub open spec fn glyph_view(x: int, y: int, style: Style, c: char) -> SpriteView {
    SpriteView { x, y, art: seq![seq![c]], style }
}

impl Sprite {
    pub fn new(x: i32, y: i32, style: Style, art: Vec<String>) -> (s: Self)
        ensures
            s.x == x,
            s.y == y,
            s.style == style,
            s.art == art,
    {
        Sprite { x, y, art, style }
    }

    pub fn glyph(x: i32, y: i32, style: Style, ch: char) -> (s: Self)
        ensures
            s@ == glyph_view(x as int, y as int, style, ch),
    {
        let mut line = String::new();
        crate::text::push_char(&mut line, ch);
        let mut art: Vec<String> = Vec::new();
        art.push(line);
        let s = Sprite::new(x, y, style, art);
        assert(s@.art =~= seq![seq![ch]]);
        s
    }

    /// A copy of this sprite.
    pub fn duplicate(&self) -> (r: Sprite)
        ensures
            r@ == self@,
    {
        Sprite { x: self.x, y: self.y, art: copy_lines(&self.art), style: self.style }
    }

    pub fn width(&self) -> (w: i32)
        ensures
            w == art_width(self@.art) as i32,
    {
        let mut best: usize = 0;
        let mut i: usize = 0;
        while i < self.art.len()
            invariant
                i <= self.art.len(),
                best == art_width(lines_view(self.art@).take(i as int)),
            decreases self.art.len() - i,
        {
            let n = self.art[i].as_str().unicode_len();
            assert(lines_view(self.art@).take(i as int + 1).drop_last() == lines_view(
                self.art@,
            ).take(i as int));
            if n > best {
                best = n;
            }
            i += 1;
        }
        assert(lines_view(self.art@).take(self.art.len() as int) == lines_view(self.art@));
        best as i32
    }

    pub fn height(&self) -> (h: i32)
        ensures
            h == self.art.len() as i32,
    {
        self.art.len() as i32
    }

    /// `(x0, y0, x1, y1)`, exclusive on the far edge.
    pub fn bbox(&self) -> (b: (i32, i32, i32, i32))
        requires
            box_fits(self@, 0),
        ensures
            (b.0 as int, b.1 as int, b.2 as int, b.3 as int) == bbox_of(self@),
    {
        let w = self.width();
        let h = self.height();
        (self.x, self.y, self.x + w, self.y + h)
    }

    pub fn overlaps(&self, other: &Sprite, margin: i32) -> (b: bool)
        requires
            dims_ok(self@),
            dims_ok(other@),
        ensures
            b == overlaps_spec(self@, other@, margin as int),
    {
        let ax0 = self.x as i64;
        let ay0 = self.y as i64;
        let ax1 = ax0 + self.width() as i64;
        let ay1 = ay0 + self.height() as i64;
        let bx0 = other.x as i64;
        let by0 = other.y as i64;
        let bx1 = bx0 + other.width() as i64;
        let by1 = by0 + other.height() as i64;
        let m = margin as i64;
        ax0 - m < bx1 && bx0 < ax1 + m && ay0 - m < by1 && by0 < ay1 + m
    }

    pub fn contains(&self, px: i32, py: i32, margin: i32) -> (b: bool)
        requires
            dims_ok(self@),
        ensures
            b == contains_spec(self@, px as int, py as int, margin as int),
    {
        let x0 = self.x as i64;
        let y0 = self.y as i64;
        let x1 = x0 + self.width() as i64;
        let y1 = y0 + self.height() as i64;
        let m = margin as i64;
        let px = px as i64;
        let py = py as i64;
        px >= x0 - m && px < x1 + m && py >= y0 - m && py < y1 + m
    }
}

/// The abstract content of a scene.
pub struct SceneView {
    pub width: nat,
    pub height: nat,
    pub tier: Tier,
    pub night: bool,
    pub background: Seq<SpriteView>,
    pub celestial: Seq<SpriteView>,
    pub clouds: Seq<SpriteView>,
    pub precipitation: Seq<SpriteView>,
    pub atmosphere: Seq<SpriteView>,
    pub wind: Seq<SpriteView>,
    pub foreground: Seq<SpriteView>,
}

/// The layers of a scene, back to front.
pub open spec fn layers_of(s: SceneView) -> Seq<Seq<SpriteView>> {
    seq![s.background, s.celestial, s.clouds, s.precipitation, s.atmosphere, s.wind, s.foreground]
}

/// The complete description of a drawable weather scene.
///
/// Layers are composited back-to-front in the order returned by [`Self::layers`].
#[derive(Debug, Clone, PartialEq)]
pub struct SceneModel {
    pub width: usize,
    pub height: usize,
    pub tier: Tier,
    pub night: bool,
    /// Stars and other far-background specks.
    pub background: Vec<Sprite>,
    /// Sun or moon.
    pub celestial: Vec<Sprite>,
    pub clouds: Vec<Sprite>,
    pub precipitation: Vec<Sprite>,
    /// Fog banks and haze.
    pub atmosphere: Vec<Sprite>,
    pub wind: Vec<Sprite>,
    /// Horizon line.
    pub foreground: Vec<Sprite>,
}

impl View for SceneModel {
    type V = SceneView;

    open spec fn view(&self) -> SceneView {
        SceneView {
            width: self.width as nat,
            height: self.height as nat,
            tier: self.tier,
            night: self.night,
            background: views(self.background@),
            celestial: views(self.celestial@),
            clouds: views(self.clouds@),
            precipitation: views(self.precipitation@),
            atmosphere: views(self.atmosphere@),
            wind: views(self.wind@),
            foreground: views(self.foreground@),
        }
    }
}

impl SceneModel {
    pub fn empty(width: usize, height: usize, tier: Tier, night: bool) -> (s: Self)
        ensures
            s.width == width,
            s.height == height,
            s.tier == tier,
            s.night == night,
            s.background@.len() == 0,
            s.celestial@.len() == 0,
            s.clouds@.len() == 0,
            s.precipitation@.len() == 0,
            s.atmosphere@.len() == 0,
            s.wind@.len() == 0,
            s.foreground@.len() == 0,
    {
        SceneModel {
            width,
            height,
            tier,
            night,
            background: Vec::new(),
            celestial: Vec::new(),
            clouds: Vec::new(),
            precipitation: Vec::new(),
            atmosphere: Vec::new(),
            wind: Vec::new(),
            foreground: Vec::new(),
        }
    }

    pub fn layers(&self) -> (l: [&[Sprite]; 7])
        ensures
            l[0]@ == self.background@,
            l[1]@ == self.celestial@,
            l[2]@ == self.clouds@,
            l[3]@ == self.precipitation@,
            l[4]@ == self.atmosphere@,
            l[5]@ == self.wind@,
            l[6]@ == self.foreground@,
    {
        [
            self.background.as_slice(),
            self.celestial.as_slice(),
            self.clouds.as_slice(),
            self.precipitation.as_slice(),
            self.atmosphere.as_slice(),
            self.wind.as_slice(),
            self.foreground.as_slice(),
        ]
    }

    pub fn sprite_count(&self) -> (n: usize)
        requires
            self.background@.len() + self.celestial@.len() + self.clouds@.len()
                + self.precipitation@.len() + self.atmosphere@.len() + self.wind@.len()
                + self.foreground@.len() <= usize::MAX,
        ensures
            n == self.background@.len() + self.celestial@.len() + self.clouds@.len()
                + self.precipitation@.len() + self.atmosphere@.len() + self.wind@.len()
                + self.foreground@.len(),
    {
        self.background.len() + self.celestial.len() + self.clouds.len() + self.precipitation.len()
            + self.atmosphere.len() + self.wind.len() + self.foreground.len()
    }
}

} // verus!
