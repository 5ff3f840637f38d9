//! Painting a [`SceneModel`] and its caption onto styled lines of text.
//!
//! This layer answers "how should this scene be drawn?" and knows nothing about
//! weather semantics beyond the numbers it prints.

use vstd::prelude::*;
use crate::render::color::{Line, Paint, Span, SpanView, line_text, line_view, lines_of};
use crate::scene::model::{SceneModel, SceneView, Sprite, SpriteView, Style, views, lines_view};
use crate::text::{all_digits, digits_value, parse_upto, read_upto, chars_of, to_upper, uppercase, pad_left, pad_right, push_padded_left, push_padded_right, push_char, push_all, push_repeat, push_whole, push_decimal, repeat, whole, decimal};
use crate::weather::model::{
    WeatherData, WeatherCondition, DailyForecast, Units, temp_symbol_text, wind_symbol_text, location_label,
    condition_label, snowy, cardinal_text, cardinal_index,
};

verus! {

/// Every sprite of a scene, back to front.
pub open spec fn all_sprites(s: SceneView) -> Seq<SpriteView> {
    s.background + s.celestial + s.clouds + s.precipitation + s.atmosphere + s.wind + s.foreground
}

/// The visible character a sprite puts at `(x, y)`, if any: spaces are transparent.
pub open spec fn sprite_char(s: SpriteView, x: int, y: int) -> Option<char> {
    let dy = y - s.y;
    let dx = x - s.x;
    if 0 <= dy < s.art.len() && 0 <= dx < s.art[dy].len() && s.art[dy][dx] != ' ' {
        Some(s.art[dy][dx])
    } else {
        None
    }
}

/// What shows at `(x, y)`: the character of the front-most sprite that has
/// one there, with its style, or a blank.
pub open spec fn cell_at(sprites: Seq<SpriteView>, x: int, y: int) -> (char, Option<Style>)
    decreases sprites.len(),
{
    if sprites.len() == 0 {
        (' ', None)
    } else {
        match sprite_char(sprites.last(), x, y) {
            Some(c) => (c, Some(sprites.last().style)),
            None => cell_at(sprites.drop_last(), x, y),
        }
    }
}

pub open spec fn paint_of(st: Option<Style>) -> Paint {
    match st {
        Some(s) => Paint::Scene(s),
        None => Paint::Plain,
    }
}

/// Runs of equally painted cells, as spans.
pub open spec fn group(cells: Seq<(char, Option<Style>)>) -> Seq<SpanView>
    decreases cells.len(),
{
    if cells.len() == 0 {
        Seq::empty()
    } else {
        let g = group(cells.drop_last());
        let (c, st) = cells.last();
        let p = paint_of(st);
        if g.len() > 0 && g.last().paint == p {
            g.update(g.len() - 1, SpanView { text: g.last().text.push(c), paint: p })
        } else {
            g.push(SpanView { text: seq![c], paint: p })
        }
    }
}

/// Row `y` of a scene, cell by cell.
pub open spec fn scene_row(s: SceneView, y: int) -> Seq<(char, Option<Style>)> {
    Seq::new(s.width, |x: int| cell_at(all_sprites(s), x, y))
}

/// The scene as styled lines, one per row.
pub open spec fn scene_lines_spec(s: SceneView) -> Seq<Seq<SpanView>> {
    Seq::new(s.height, |y: int| group(scene_row(s, y)))
}

/// A sprite with its art split into characters, ready to look up.
struct Stamp {
    x: i32,
    y: i32,
    rows: Vec<Vec<char>>,
    style: Style,
}

spec fn stamp_view(s: Stamp) -> SpriteView {
    SpriteView {
        x: s.x as int,
        y: s.y as int,
        art: s.rows@.map_values(|r: Vec<char>| r@),
        style: s.style,
    }
}

spec fn stamps_view(s: Seq<Stamp>) -> Seq<SpriteView> {
    s.map_values(|t: Stamp| stamp_view(t))
}

fn stamp_of(sp: &Sprite) -> (t: Stamp)
    ensures
        stamp_view(t) == sp@,
{
    let mut rows: Vec<Vec<char>> = Vec::new();
    let mut i: usize = 0;
    while i < sp.art.len()
        invariant
            i <= sp.art.len(),
            rows@.len() == i,
            forall|j: int| 0 <= j < i ==> #[trigger] rows@[j]@ == sp.art@[j]@,
        decreases sp.art.len() - i,
    {
        rows.push(chars_of(sp.art[i].as_str()));
        i += 1;
    }
    let t = Stamp { x: sp.x, y: sp.y, rows, style: sp.style };
    assert(t.rows@.map_values(|r: Vec<char>| r@) =~= lines_view(sp.art@));
    t
}

fn push_stamps(out: &mut Vec<Stamp>, layer: &Vec<Sprite>)
    ensures
        stamps_view(final(out)@) == stamps_view(old(out)@) + views(layer@),
{
    let mut i: usize = 0;
    while i < layer.len()
        invariant
            i <= layer.len(),
            stamps_view(out@) == stamps_view(old(out)@) + views(layer@).take(i as int),
        decreases layer.len() - i,
    {
        let t = stamp_of(&layer[i]);
        let ghost before = out@;
        out.push(t);
        assert(stamps_view(out@) =~= stamps_view(before).push(stamp_view(t)));
        assert(views(layer@).take(i as int + 1) =~= views(layer@).take(i as int).push(layer@[i as int]@));
        i += 1;
    }
    assert(views(layer@).take(layer.len() as int) =~= views(layer@));
}

fn stamps_of(scene: &SceneModel) -> (out: Vec<Stamp>)
    ensures
        stamps_view(out@) == all_sprites(scene@),
{
    let mut out: Vec<Stamp> = Vec::new();
    assert(stamps_view(out@) =~= Seq::<SpriteView>::empty());
    push_stamps(&mut out, &scene.background);
    push_stamps(&mut out, &scene.celestial);
    push_stamps(&mut out, &scene.clouds);
    push_stamps(&mut out, &scene.precipitation);
    push_stamps(&mut out, &scene.atmosphere);
    push_stamps(&mut out, &scene.wind);
    push_stamps(&mut out, &scene.foreground);
    assert(stamps_view(out@) =~= all_sprites(scene@));
    out
}

fn cell(stamps: &Vec<Stamp>, x: i64, y: i64) -> (c: (char, Option<Style>))
    requires
        0 <= x <= i32::MAX,
        0 <= y <= i32::MAX,
    ensures
        c == cell_at(stamps_view(stamps@), x as int, y as int),
{
    let mut k: usize = stamps.len();
    assert(stamps_view(stamps@).take(k as int) =~= stamps_view(stamps@));
    while k > 0
        invariant
            k <= stamps@.len(),
            0 <= x <= i32::MAX,
            0 <= y <= i32::MAX,
            cell_at(stamps_view(stamps@), x as int, y as int) == cell_at(
                stamps_view(stamps@).take(k as int),
                x as int,
                y as int,
            ),
        decreases k,
    {
        let t = &stamps[k - 1];
        let ghost sv = stamps_view(stamps@).take(k as int);
        assert(sv.last() == stamp_view(*t));
        assert(sv.drop_last() =~= stamps_view(stamps@).take(k - 1));
        let dy = y - t.y as i64;
        if 0 <= dy && (dy as u64) < (t.rows.len() as u64) {
            let row = &t.rows[dy as usize];
            let dx = x - t.x as i64;
            if 0 <= dx && (dx as u64) < (row.len() as u64) && row[dx as usize] != ' ' {
                return (row[dx as usize], Some(t.style));
            }
        }
        k -= 1;
    }
    (' ', None)
}

fn row_spans(cells: &Vec<(char, Option<Style>)>) -> (line: Line)
    ensures
        line_view(line@) == group(cells@),
{
    let mut spans: Vec<Span> = Vec::new();
    let mut i: usize = 0;
    while i < cells.len()
        invariant
            i <= cells.len(),
            line_view(spans@) == group(cells@.take(i as int)),
        decreases cells.len() - i,
    {
        let (c, st) = cells[i];
        let p = match st {
            Some(s) => Paint::Scene(s),
            None => Paint::Plain,
        };
        assert(cells@.take(i as int + 1).drop_last() == cells@.take(i as int));
        let ghost before = spans@;
        if spans.len() > 0 && spans[spans.len() - 1].paint == p {
            let mut last = spans.pop().unwrap();
            push_char(&mut last.text, c);
            spans.push(last);
            assert(line_view(spans@) =~= group(cells@.take(i as int + 1)));
        } else {
            let mut text = String::new();
            push_char(&mut text, c);
            spans.push(Span { text, paint: p });
            assert(line_view(spans@) =~= group(cells@.take(i as int + 1)));
        }
        i += 1;
    }
    assert(cells@.take(cells.len() as int) == cells@);
    spans
}

/// The scene as styled lines, each exactly `scene.width` columns wide.
pub fn scene_lines(scene: &SceneModel) -> (lines: Vec<Line>)
    requires
        scene.width <= i32::MAX,
        scene.height <= i32::MAX,
    ensures
        lines_of(lines@) == scene_lines_spec(scene@),
{
    let stamps = stamps_of(scene);
    let mut lines: Vec<Line> = Vec::new();
    let mut y: usize = 0;
    while y < scene.height
        invariant
            y <= scene.height <= i32::MAX,
            scene.width <= i32::MAX,
            stamps_view(stamps@) == all_sprites(scene@),
            lines_of(lines@) == scene_lines_spec(scene@).take(y as int),
        decreases scene.height - y,
    {
        let mut cells: Vec<(char, Option<Style>)> = Vec::new();
        let mut x: usize = 0;
        while x < scene.width
            invariant
                x <= scene.width <= i32::MAX,
                y < scene.height <= i32::MAX,
                stamps_view(stamps@) == all_sprites(scene@),
                cells@ == scene_row(scene@, y as int).take(x as int),
            decreases scene.width - x,
        {
            let c = cell(&stamps, x as i64, y as i64);
            cells.push(c);
            assert(cells@ =~= scene_row(scene@, y as int).take(x as int + 1));
            x += 1;
        }
        assert(cells@ =~= scene_row(scene@, y as int));
        let line = row_spans(&cells);
        let ghost before = lines@;
        lines.push(line);
        assert(lines_of(lines@) =~= lines_of(before).push(line_view(line@)));
        assert(scene_lines_spec(scene@).take(y as int + 1) =~= scene_lines_spec(scene@).take(
            y as int,
        ).push(group(scene_row(scene@, y as int))));
        y += 1;
    }
    assert(scene_lines_spec(scene@).take(scene.height as int) =~= scene_lines_spec(scene@));
    lines
}

} // verus!

verus! {

/// Border + one column of padding on each side.
pub open spec fn chrome() -> int {
    6
}

#[derive(Debug, Clone)]
pub struct Layout {
    /// Total columns the output may occupy.
    pub width: usize,
    /// Drop the frame and use ASCII-only glyphs.
    pub plain: bool,
}

/// Columns available for the scene and the caption.
pub open spec fn inner_of(l: Layout) -> int {
    if l.plain {
        l.width as int
    } else if l.width >= 6 {
        l.width - 6
    } else {
        0
    }
}

pub open spec fn separator_text(plain: bool) -> Seq<char> {
    if plain {
        "  |  "@
    } else {
        "  ·  "@
    }
}

impl Layout {
    pub fn new(width: usize, plain: bool) -> (l: Self)
        ensures
            l.width == width,
            l.plain == plain,
    {
        Layout { width, plain }
    }

    /// Columns available for the scene and the caption.
    pub fn inner_width(&self) -> (w: usize)
        ensures
            w == inner_of(*self),
    {
        if self.plain {
            self.width
        } else {
            self.width.saturating_sub(6)
        }
    }

    /// Below this, prose has to give way to abbreviations.
    fn cramped(&self) -> (b: bool)
        ensures
            b == (inner_of(*self) < 18),
    {
        self.inner_width() < 18
    }

    fn separator(&self) -> (s: &'static str)
        ensures
            s@ == separator_text(self.plain),
    {
        if self.plain {
            "  |  "
        } else {
            "  ·  "
        }
    }
}

/// Columns a line takes up.
pub open spec fn line_width(l: Seq<SpanView>) -> int
    decreases l.len(),
{
    if l.len() == 0 {
        0
    } else {
        line_width(l.drop_last()) + l.last().text.len()
    }
}

/// The width of a line as `usize` arithmetic reports it (saturated).
pub open spec fn width_of(l: Seq<SpanView>) -> int {
    if line_width(l) > usize::MAX {
        usize::MAX as int
    } else {
        line_width(l)
    }
}

proof fn lemma_line_width_nonneg(l: Seq<SpanView>)
    ensures
        line_width(l) >= 0,
    decreases l.len(),
{
    if l.len() > 0 {
        lemma_line_width_nonneg(l.drop_last());
    }
}

fn text_width(line: &Line) -> (w: usize)
    ensures
        w == width_of(line_view(line@)),
{
    let mut total: usize = 0;
    let mut i: usize = 0;
    while i < line.len()
        invariant
            i <= line@.len(),
            total == width_of(line_view(line@).take(i as int)),
        decreases line.len() - i,
    {
        let n = line[i].text.as_str().unicode_len();
        proof {
            assert(line_view(line@).take(i as int + 1).drop_last() == line_view(line@).take(i as int));
            lemma_line_width_nonneg(line_view(line@).take(i as int));
        }
        total = total.saturating_add(n);
        i += 1;
    }
    assert(line_view(line@).take(line@.len() as int) == line_view(line@));
    total
}

pub open spec fn plain_span(text: Seq<char>) -> SpanView {
    SpanView { text, paint: Paint::Plain }
}

/// A line centered in `width` columns by padding it on the left.
pub open spec fn centered_spec(l: Seq<SpanView>, width: int) -> Seq<SpanView> {
    let pad = if width > width_of(l) {
        (width - width_of(l)) / 2
    } else {
        0
    };
    if pad == 0 {
        l
    } else {
        seq![plain_span(repeat(' ', pad as nat))] + l
    }
}

fn spaces_span(n: usize) -> (s: Span)
    ensures
        s@ == plain_span(repeat(' ', n as nat)),
{
    let mut text = String::new();
    push_repeat(&mut text, ' ', n);
    assert(text@ =~= repeat(' ', n as nat));
    Span { text, paint: Paint::Plain }
}

fn centered(line: Line, width: usize) -> (out: Line)
    ensures
        line_view(out@) == centered_spec(line_view(line@), width as int),
{
    let tw = text_width(&line);
    let pad = width.saturating_sub(tw) / 2;
    if pad == 0 {
        return line;
    }
    let mut out: Line = Vec::new();
    out.push(spaces_span(pad));
    let mut i: usize = 0;
    while i < line.len()
        invariant
            i <= line@.len(),
            out@.len() == i + 1,
            line_view(out@) == seq![plain_span(repeat(' ', pad as nat))] + line_view(line@).take(
                i as int,
            ),
        decreases line.len() - i,
    {
        let t = line[i].text.clone();
        let sp = Span { text: t, paint: line[i].paint };
        assert(sp@ == line@[i as int]@);
        let ghost before = out@;
        out.push(sp);
        assert(out@ == before.push(sp));
        assert(line_view(out@) =~= line_view(before).push(sp@));
        assert(line_view(line@).take(i as int + 1) =~= line_view(line@).take(i as int).push(
            line@[i as int]@,
        ));
        assert(line_view(out@) =~= seq![plain_span(repeat(' ', pad as nat))] + line_view(
            line@,
        ).take(i as int + 1));
        i += 1;
    }
    assert(line_view(line@).take(line@.len() as int) =~= line_view(line@));
    out
}

/// The span of a single piece of text.
pub open spec fn one_span(text: Seq<char>, paint: Paint) -> Seq<SpanView> {
    seq![SpanView { text, paint }]
}

pub(crate) fn one_span_line(text: String, paint: Paint) -> (l: Line)
    ensures
        line_view(l@) == one_span(text@, paint),
{
    let mut l: Line = Vec::new();
    l.push(Span { text, paint });
    assert(line_view(l@) =~= one_span(text@, paint));
    l
}

pub open spec fn blank_line() -> Seq<SpanView> {
    Seq::empty()
}

pub(crate) fn blank() -> (l: Line)
    ensures
        line_view(l@) == blank_line(),
{
    let l: Line = Vec::new();
    assert(line_view(l@) =~= blank_line());
    l
}

} // verus!

verus! {

/// A reading in thousandths with its unit, as the caption shows it: `27°C`.
pub open spec fn temp_text(m: int, u: Units) -> Seq<char> {
    whole(m) + temp_symbol_text(u)
}

/// Temperature, place and condition, each on its own centered row.
pub open spec fn caption_spec(w: WeatherData, width: int) -> Seq<Seq<SpanView>> {
    seq![
        centered_spec(one_span(temp_text(w.temperature as int, w.units), Paint::Temperature), width),
        centered_spec(one_span(location_label(w.location.name@, w.location.country@), Paint::Place), width),
        centered_spec(one_span(condition_label(w.condition), Paint::Condition), width),
    ]
}

fn caption(weather: &WeatherData, width: usize) -> (out: Vec<Line>)
    ensures
        lines_of(out@) == caption_spec(*weather, width as int),
{
    let mut t = String::new();
    push_whole(&mut t, weather.temperature);
    t.append(weather.units.temp_symbol());
    assert(t@ =~= temp_text(weather.temperature as int, weather.units));
    let first = centered(one_span_line(t, Paint::Temperature), width);
    let second = centered(one_span_line(weather.location.label(), Paint::Place), width);
    let third = centered(
        one_span_line(String::from_str(weather.condition.label()), Paint::Condition),
        width,
    );
    let mut out: Vec<Line> = Vec::new();
    out.push(first);
    out.push(second);
    out.push(third);
    assert(lines_of(out@) =~= caption_spec(*weather, width as int));
    out
}

/// The facts under the caption, short forms when space is cramped.
pub open spec fn detail_items(w: WeatherData, cramped: bool) -> Seq<Seq<char>> {
    let base = if cramped {
        seq![
            "Feels "@ + temp_text(w.feels_like as int, w.units),
            "Hum "@ + decimal(w.humidity as nat) + "%"@,
            "Wind "@ + whole(w.wind_speed as int) + " "@ + wind_symbol_text(w.units),
        ]
    } else {
        seq![
            "Feels like "@ + temp_text(w.feels_like as int, w.units),
            "Humidity "@ + decimal(w.humidity as nat) + "%"@,
            "Wind "@ + whole(w.wind_speed as int) + " "@ + wind_symbol_text(w.units) + " "@
                + cardinal_text(cardinal_index(w.wind_direction as int)),
        ]
    };
    match w.precipitation_probability {
        Some(chance) => base.push(
            (if snowy(w.condition) {
                "Snow"@
            } else {
                "Rain"@
            }) + " "@ + decimal(chance as nat) + "%"@,
        ),
        None => base,
    }
}

/// Items packed greedily into rows: each item joins the last row when the
/// row, the separator and the item together fit in `width`.
pub open spec fn pack(items: Seq<Seq<char>>, sep: Seq<char>, width: int) -> Seq<Seq<char>>
    decreases items.len(),
{
    if items.len() == 0 {
        Seq::empty()
    } else {
        let rows = pack(items.drop_last(), sep, width);
        let item = items.last();
        if rows.len() > 0 && rows.last().len() + sep.len() + item.len() <= width {
            rows.drop_last().push(rows.last() + sep + item)
        } else {
            rows.push(item)
        }
    }
}

pub open spec fn strings_view(v: Seq<String>) -> Seq<Seq<char>> {
    v.map_values(|s: String| s@)
}

fn pack_rows(items: &Vec<String>, sep: &str, width: usize) -> (rows: Vec<String>)
    ensures
        strings_view(rows@) == pack(strings_view(items@), sep@, width as int),
{
    let mut rows: Vec<String> = Vec::new();
    let sl = sep.unicode_len();
    let mut i: usize = 0;
    while i < items.len()
        invariant
            i <= items@.len(),
            sl == sep@.len(),
            strings_view(rows@) == pack(strings_view(items@).take(i as int), sep@, width as int),
        decreases items.len() - i,
    {
        let item = items[i].clone();
        let il = item.as_str().unicode_len();
        let ghost prev = strings_view(items@).take(i as int);
        assert(strings_view(items@).take(i as int + 1).drop_last() == prev);
        assert(strings_view(items@).take(i as int + 1).last() == item@);
        let n = rows.len();
        let mut joined = false;
        if n > 0 {
            let rl = rows[n - 1].as_str().unicode_len();
            if rl <= width && sl <= width - rl && il <= width - rl - sl {
                let mut last = rows.pop().unwrap();
                let ghost before = rows@;
                last.append(sep);
                last.append(item.as_str());
                rows.push(last);
                assert(strings_view(rows@) =~= pack(prev, sep@, width as int).drop_last().push(
                    pack(prev, sep@, width as int).last() + sep@ + item@,
                ));
                joined = true;
            }
        }
        if !joined {
            let ghost before = rows@;
            rows.push(item);
            assert(strings_view(rows@) =~= strings_view(before).push(item@));
        }
        i += 1;
    }
    assert(strings_view(items@).take(items@.len() as int) == strings_view(items@));
    rows
}


fn items_of(weather: &WeatherData, cramped: bool) -> (items: Vec<String>)
    ensures
        strings_view(items@) == detail_items(*weather, cramped),
{
    let mut feels = if cramped {
        String::from_str("Feels ")
    } else {
        String::from_str("Feels like ")
    };
    push_whole(&mut feels, weather.feels_like);
    feels.append(weather.units.temp_symbol());
    let mut hum = if cramped {
        String::from_str("Hum ")
    } else {
        String::from_str("Humidity ")
    };
    push_decimal(&mut hum, weather.humidity as u64);
    hum.append("%");
    let mut wind = String::from_str("Wind ");
    push_whole(&mut wind, weather.wind_speed);
    wind.append(" ");
    wind.append(weather.units.wind_symbol());
    if !cramped {
        wind.append(" ");
        wind.append(weather.wind_cardinal());
    }
    let ghost fl = if cramped { "Feels "@ } else { "Feels like "@ };
    let ghost hl = if cramped { "Hum "@ } else { "Humidity "@ };
    assert(feels@ =~= fl + temp_text(weather.feels_like as int, weather.units));
    assert(hum@ =~= hl + decimal(weather.humidity as nat) + "%"@);
    if cramped {
        assert(wind@ =~= "Wind "@ + whole(weather.wind_speed as int) + " "@ + wind_symbol_text(weather.units));
    } else {
        assert(wind@ =~= "Wind "@ + whole(weather.wind_speed as int) + " "@ + wind_symbol_text(weather.units)
            + " "@ + cardinal_text(cardinal_index(weather.wind_direction as int)));
    }
    let mut items: Vec<String> = Vec::new();
    items.push(feels);
    items.push(hum);
    items.push(wind);
    let ghost base = strings_view(items@);
    if cramped {
        assert(base =~= seq![
            "Feels "@ + temp_text(weather.feels_like as int, weather.units),
            "Hum "@ + decimal(weather.humidity as nat) + "%"@,
            "Wind "@ + whole(weather.wind_speed as int) + " "@ + wind_symbol_text(weather.units),
        ]);
    } else {
        assert(base =~= seq![
            "Feels like "@ + temp_text(weather.feels_like as int, weather.units),
            "Humidity "@ + decimal(weather.humidity as nat) + "%"@,
            "Wind "@ + whole(weather.wind_speed as int) + " "@ + wind_symbol_text(weather.units)
                + " "@ + cardinal_text(cardinal_index(weather.wind_direction as int)),
        ]);
    }
    match weather.precipitation_probability {
        Some(chance) => {
            let mut c = if weather.condition.is_snowy() {
                String::from_str("Snow")
            } else {
                String::from_str("Rain")
            };
            c.append(" ");
            push_decimal(&mut c, chance as u64);
            c.append("%");
            items.push(c);
            assert(strings_view(items@) =~= base.push(c@));
        },
        None => {},
    }
    items
}

/// The detail rows: the packed items, each centered in the inner width.
pub open spec fn details_spec(w: WeatherData, l: Layout) -> Seq<Seq<SpanView>> {
    let width = inner_of(l);
    pack(detail_items(w, width < 18), separator_text(l.plain), width).map_values(
        |row: Seq<char>| centered_spec(one_span(row, Paint::Detail), width),
    )
}

/// `Feels like 33°C`, `Humidity 87%`, … packed into as few centered rows as fit.
fn details(weather: &WeatherData, layout: &Layout) -> (out: Vec<Line>)
    ensures
        lines_of(out@) == details_spec(*weather, *layout),
{
    let width = layout.inner_width();
    let items = items_of(weather, layout.cramped());
    let rows = pack_rows(&items, layout.separator(), width);
    let ghost want = details_spec(*weather, *layout);
    let mut out: Vec<Line> = Vec::new();
    let mut i: usize = 0;
    while i < rows.len()
        invariant
            i <= rows@.len(),
            width == inner_of(*layout),
            want.len() == rows@.len(),
            forall|j: int|
                0 <= j < rows@.len() ==> #[trigger] want[j] == centered_spec(
                    one_span(rows@[j]@, Paint::Detail),
                    width as int,
                ),
            lines_of(out@) == want.take(i as int),
        decreases rows.len() - i,
    {
        let row = rows[i].clone();
        let line = centered(one_span_line(row, Paint::Detail), width);
        let ghost before = out@;
        out.push(line);
        assert(lines_of(out@) =~= lines_of(before).push(line_view(line@)));
        assert(want.take(i as int + 1) =~= want.take(i as int).push(want[i as int]));
        i += 1;
    }
    assert(want.take(rows@.len() as int) =~= want);
    out
}


/// The first `room` columns of a line, the span that crosses the limit cut short.
pub open spec fn trunc_spans(l: Seq<SpanView>, room: int) -> Seq<SpanView>
    decreases l.len(),
{
    if l.len() == 0 {
        Seq::empty()
    } else if l[0].text.len() <= room {
        seq![l[0]] + trunc_spans(l.drop_first(), room - l[0].text.len())
    } else {
        seq![SpanView { text: l[0].text.take(room), paint: l[0].paint }]
    }
}

/// A line cut to at most `max` columns (unchanged when it fits).
pub open spec fn truncate_spec(l: Seq<SpanView>, max: int) -> Seq<SpanView> {
    if width_of(l) <= max {
        l
    } else {
        trunc_spans(l, max)
    }
}

fn prefix(s: &String, n: usize) -> (r: String)
    requires
        n <= s@.len(),
    ensures
        r@ == s@.take(n as int),
{
    let cs = chars_of(s.as_str());
    let mut r = String::new();
    let mut i: usize = 0;
    while i < n
        invariant
            i <= n <= cs@.len(),
            cs@ == s@,
            r@ == s@.take(i as int),
        decreases n - i,
    {
        push_char(&mut r, cs[i]);
        assert(s@.take(i as int + 1) == s@.take(i as int).push(s@[i as int]));
        i += 1;
    }
    r
}

/// Hard guarantee that no line can push past the frame.
fn truncate(line: Line, max: usize) -> (out: Line)
    ensures
        line_view(out@) == truncate_spec(line_view(line@), max as int),
{
    if text_width(&line) <= max {
        return line;
    }
    let ghost lv = line_view(line@);
    let mut out: Line = Vec::new();
    let mut used: usize = 0;
    let mut done = false;
    let mut i: usize = 0;
    assert(lv.skip(0) =~= lv);
    assert(line_view(out@) + lv =~= lv);
    while i < line.len() && !done
        invariant
            i <= line@.len(),
            lv == line_view(line@),
            used <= max,
            !done ==> trunc_spans(lv, max as int) == line_view(out@) + trunc_spans(
                lv.skip(i as int),
                max - used,
            ),
            done ==> trunc_spans(lv, max as int) == line_view(out@),
        decreases line.len() - i,
    {
        let room = max - used;
        let len = line[i].text.as_str().unicode_len();
        let ghost rest = lv.skip(i as int);
        assert(rest[0] == line@[i as int]@);
        assert(rest.drop_first() =~= lv.skip(i as int + 1));
        let ghost before = out@;
        if len <= room {
            used = used + len;
            let t = line[i].text.clone();
            out.push(Span { text: t, paint: line[i].paint });
            assert(line_view(out@) =~= line_view(before) + seq![rest[0]]);
        } else {
            let t = prefix(&line[i].text, room);
            out.push(Span { text: t, paint: line[i].paint });
            assert(line_view(out@) =~= line_view(before) + seq![
                SpanView { text: rest[0].text.take(room as int), paint: rest[0].paint },
            ]);
            done = true;
        }
        i += 1;
    }
    if !done {
        assert(lv.skip(line@.len() as int) =~= Seq::<SpanView>::empty());
        assert(line_view(out@) + Seq::<SpanView>::empty() =~= line_view(out@));
    }
    out
}

/// The vertical edge of the frame.
pub open spec fn bar() -> SpanView {
    SpanView { text: "│"@, paint: Paint::Frame }
}

/// A body line inside the frame: edge, two columns of padding, the content
/// cut to the inner width, padding up to the inner width plus two, edge.
pub open spec fn frame_line_spec(c: Seq<SpanView>, l: Layout) -> Seq<SpanView> {
    if l.plain {
        c
    } else {
        let t = truncate_spec(c, inner_of(l));
        let pad = if inner_of(l) > width_of(t) {
            inner_of(l) - width_of(t)
        } else {
            0
        };
        seq![bar(), plain_span("  "@)] + t + seq![plain_span(repeat(' ', (pad + 2) as nat)), bar()]
    }
}

fn frame_line(content: Line, layout: &Layout) -> (out: Line)
    ensures
        line_view(out@) == frame_line_spec(line_view(content@), *layout),
{
    if layout.plain {
        return content;
    }
    let inner = layout.inner_width();
    let content = truncate(content, inner);
    let pad = inner.saturating_sub(text_width(&content));
    let mut out: Line = Vec::new();
    out.push(Span::new("│", Paint::Frame));
    out.push(Span::plain("  "));
    let mut i: usize = 0;
    while i < content.len()
        invariant
            i <= content@.len(),
            out@.len() == i + 2,
            line_view(out@) == seq![bar(), plain_span("  "@)] + line_view(content@).take(i as int),
        decreases content.len() - i,
    {
        let t = content[i].text.clone();
        let sp = Span { text: t, paint: content[i].paint };
        let ghost before = out@;
        out.push(sp);
        assert(line_view(out@) =~= line_view(before).push(sp@));
        assert(line_view(content@).take(i as int + 1) =~= line_view(content@).take(i as int).push(
            content@[i as int]@,
        ));
        i += 1;
    }
    assert(line_view(content@).take(content@.len() as int) =~= line_view(content@));
    out.push(spaces_span(pad + 2));
    out.push(Span::new("│", Paint::Frame));
    out
}


/// A horizontal edge: the two corners joined by a run of `─` the full width.
pub open spec fn rule_spec(left: char, right: char, l: Layout) -> Seq<SpanView> {
    let run = if l.width >= 2 {
        (l.width - 2) as nat
    } else {
        0
    };
    one_span(seq![left] + repeat('─', run) + seq![right], Paint::Frame)
}

fn rule(left: char, right: char, layout: &Layout) -> (out: Line)
    ensures
        line_view(out@) == rule_spec(left, right, *layout),
{
    let mut t = String::new();
    push_char(&mut t, left);
    push_repeat(&mut t, '─', layout.width.saturating_sub(2));
    push_char(&mut t, right);
    assert(t@ =~= seq![left] + repeat('─', (if layout.width >= 2 { (layout.width - 2) as nat } else { 0 })) + seq![right]);
    one_span_line(t, Paint::Frame)
}

/// Every line of a body put through `frame_line_spec`.
pub open spec fn frame_all(body: Seq<Seq<SpanView>>, l: Layout) -> Seq<Seq<SpanView>> {
    body.map_values(|b: Seq<SpanView>| frame_line_spec(b, l))
}

/// The body in the rounded box (top edge, a blank row, the body, a blank
/// row, bottom edge), or untouched in plain mode.
pub open spec fn framed_spec(body: Seq<Seq<SpanView>>, l: Layout) -> Seq<Seq<SpanView>> {
    if l.plain {
        body
    } else {
        seq![rule_spec('╭', '╮', l), frame_line_spec(blank_line(), l)] + frame_all(body, l) + seq![
            frame_line_spec(blank_line(), l),
            rule_spec('╰', '╯', l),
        ]
    }
}

/// A copy of a line, span for span.
fn copy_line(line: &Line) -> (out: Line)
    ensures
        line_view(out@) == line_view(line@),
{
    let mut out: Line = Vec::new();
    let mut i: usize = 0;
    while i < line.len()
        invariant
            i <= line@.len(),
            line_view(out@) == line_view(line@).take(i as int),
        decreases line.len() - i,
    {
        let t = line[i].text.clone();
        let sp = Span { text: t, paint: line[i].paint };
        let ghost before = out@;
        out.push(sp);
        assert(line_view(out@) =~= line_view(before).push(sp@));
        assert(line_view(line@).take(i as int + 1) =~= line_view(line@).take(i as int).push(
            line@[i as int]@,
        ));
        i += 1;
    }
    assert(line_view(line@).take(line@.len() as int) =~= line_view(line@));
    out
}

/// Wrap a body in the rounded box, or return it untouched in plain mode.
pub fn framed(body: Vec<Line>, layout: &Layout) -> (out: Vec<Line>)
    ensures
        lines_of(out@) == framed_spec(lines_of(body@), *layout),
{
    if layout.plain {
        return body;
    }
    let mut out: Vec<Line> = Vec::new();
    out.push(rule('╭', '╮', layout));
    out.push(frame_line(blank(), layout));
    let ghost whole_body = lines_of(body@);
    let ghost start = lines_of(out@);
    assert(start =~= seq![rule_spec('╭', '╮', *layout), frame_line_spec(blank_line(), *layout)]);
    let mut k: usize = 0;
    while k < body.len()
        invariant
            k <= body@.len(),
            whole_body == lines_of(body@),
            lines_of(out@) == start + frame_all(whole_body.take(k as int), *layout),
        decreases body.len() - k,
    {
        let framed_line = frame_line(copy_line(&body[k]), layout);
        let ghost o0 = out@;
        out.push(framed_line);
        assert(lines_of(out@) =~= lines_of(o0).push(line_view(framed_line@)));
        assert(whole_body.take(k as int + 1) =~= whole_body.take(k as int).push(whole_body[k as int]));
        assert(frame_all(whole_body.take(k as int + 1), *layout) =~= frame_all(
            whole_body.take(k as int),
            *layout,
        ).push(frame_line_spec(whole_body[k as int], *layout)));
        k += 1;
    }
    assert(whole_body.take(body@.len() as int) =~= whole_body);
    let ghost o2 = out@;
    let closing = frame_line(blank(), layout);
    out.push(closing);
    assert(lines_of(out@) =~= lines_of(o2).push(frame_line_spec(blank_line(), *layout)));
    let ghost o1 = out@;
    out.push(rule('╰', '╯', layout));
    assert(lines_of(out@) =~= lines_of(o1).push(rule_spec('╰', '╯', *layout)));
    assert(lines_of(out@) =~= framed_spec(whole_body, *layout));
    out
}


proof fn lemma_line_width_concat(a: Seq<SpanView>, b: Seq<SpanView>)
    ensures
        line_width(a + b) == line_width(a) + line_width(b),
    decreases b.len(),
{
    if b.len() == 0 {
        assert(a + b =~= a);
    } else {
        lemma_line_width_concat(a, b.drop_last());
        assert((a + b).drop_last() =~= a + b.drop_last());
        assert((a + b).last() == b.last());
    }
}

proof fn lemma_line_width_one(x: SpanView)
    ensures
        line_width(seq![x]) == x.text.len(),
{
    assert(seq![x].drop_last() =~= Seq::<SpanView>::empty());
    assert(line_width(Seq::<SpanView>::empty()) == 0);
}

proof fn lemma_trunc_width(l: Seq<SpanView>, room: int)
    requires
        room >= 0,
    ensures
        line_width(trunc_spans(l, room)) <= room,
    decreases l.len(),
{
    if l.len() > 0 {
        if l[0].text.len() <= room {
            lemma_trunc_width(l.drop_first(), room - l[0].text.len());
            lemma_line_width_concat(seq![l[0]], trunc_spans(l.drop_first(), room - l[0].text.len()));
            lemma_line_width_one(l[0]);
        } else {
            lemma_line_width_one(SpanView { text: l[0].text.take(room), paint: l[0].paint });
        }
    }
}

proof fn lemma_truncate_fits(c: Seq<SpanView>, max: int)
    requires
        0 <= max < usize::MAX,
    ensures
        line_width(truncate_spec(c, max)) <= max,
        width_of(truncate_spec(c, max)) == line_width(truncate_spec(c, max)),
{
    if width_of(c) > max {
        lemma_trunc_width(c, max);
    }
    lemma_line_width_nonneg(truncate_spec(c, max));
}

proof fn lemma_frame_line_width(c: Seq<SpanView>, l: Layout)
    requires
        !l.plain,
        l.width >= 6,
    ensures
        line_width(frame_line_spec(c, l)) == l.width,
{
    reveal_strlit("│");
    reveal_strlit("  ");
    let inner = inner_of(l);
    let t = truncate_spec(c, inner);
    lemma_truncate_fits(c, inner);
    let pad = inner - width_of(t);
    let head = seq![bar(), plain_span("  "@)];
    let tail = seq![plain_span(repeat(' ', (pad + 2) as nat)), bar()];
    lemma_line_width_concat(head + t, tail);
    lemma_line_width_concat(head, t);
    lemma_line_width_concat(seq![bar()], seq![plain_span("  "@)]);
    assert(head =~= seq![bar()] + seq![plain_span("  "@)]);
    lemma_line_width_one(bar());
    lemma_line_width_one(plain_span("  "@));
    assert(tail =~= seq![plain_span(repeat(' ', (pad + 2) as nat))] + seq![bar()]);
    lemma_line_width_concat(seq![plain_span(repeat(' ', (pad + 2) as nat))], seq![bar()]);
    lemma_line_width_one(plain_span(repeat(' ', (pad + 2) as nat)));
}

proof fn lemma_rule_width(left: char, right: char, l: Layout)
    requires
        l.width >= 2,
    ensures
        line_width(rule_spec(left, right, l)) == l.width,
        rule_spec(left, right, l)[0].text[0] == left,
        rule_spec(left, right, l)[0].text.last() == right,
{
    lemma_line_width_one(rule_spec(left, right, l)[0]);
}

/// Framed output is a box exactly as wide as the layout: every line, edges
/// included, takes `layout.width` columns, whatever the body holds.
pub proof fn framed_fills_the_width(body: Seq<Seq<SpanView>>, l: Layout)
    requires
        !l.plain,
        l.width >= 6,
    ensures
        framed_spec(body, l).len() == body.len() + 4,
        forall|i: int|
            0 <= i < framed_spec(body, l).len() ==> line_width(#[trigger] framed_spec(body, l)[i])
                == l.width,
{
    let f = framed_spec(body, l);
    assert forall|i: int| 0 <= i < f.len() implies line_width(#[trigger] f[i]) == l.width by {
        if i == 0 {
            lemma_rule_width('╭', '╮', l);
        } else if i == f.len() - 1 {
            lemma_rule_width('╰', '╯', l);
        } else if i == 1 || i == f.len() - 2 {
            lemma_frame_line_width(blank_line(), l);
        } else {
            assert(f[i] == frame_line_spec(body[i - 2], l));
            lemma_frame_line_width(body[i - 2], l);
        }
    }
}

/// Framed output is closed on all sides: it opens with `╭…╮`, closes with
/// `╰…╯`, and every line between starts and ends with the `│` edge.
pub proof fn framed_is_closed(body: Seq<Seq<SpanView>>, l: Layout)
    requires
        !l.plain,
        l.width >= 2,
    ensures
        ({
            let f = framed_spec(body, l);
            &&& f[0] == one_span(seq!['╭'] + repeat('─', (l.width - 2) as nat) + seq!['╮'], Paint::Frame)
            &&& f.last() == one_span(seq!['╰'] + repeat('─', (l.width - 2) as nat) + seq!['╯'], Paint::Frame)
            &&& forall|i: int| 1 <= i < f.len() - 1 ==> (#[trigger] f[i])[0] == bar() && f[i].last() == bar()
        }),
{
    let f = framed_spec(body, l);
    assert forall|i: int| 1 <= i < f.len() - 1 implies (#[trigger] f[i])[0] == bar() && f[i].last() == bar() by {
        if i == 1 || i == f.len() - 2 {
        } else {
            assert(f[i] == frame_line_spec(body[i - 2], l));
        }
    }
}


/// Everything under the frame: the scene, a blank row, the caption, a blank
/// row, the details.
pub open spec fn panel_body(w: WeatherData, s: SceneView, l: Layout) -> Seq<Seq<SpanView>> {
    scene_lines_spec(s) + seq![blank_line()] + caption_spec(w, inner_of(l)) + seq![blank_line()]
        + details_spec(w, l)
}

pub(crate) fn append_lines(out: &mut Vec<Line>, more: Vec<Line>)
    ensures
        lines_of(final(out)@) == lines_of(old(out)@) + lines_of(more@),
{
    let ghost start = lines_of(out@);
    let mut i: usize = 0;
    while i < more.len()
        invariant
            i <= more@.len(),
            lines_of(out@) == start + lines_of(more@).take(i as int),
        decreases more.len() - i,
    {
        let line = copy_line(&more[i]);
        let ghost before = out@;
        out.push(line);
        assert(lines_of(out@) =~= lines_of(before).push(line_view(line@)));
        assert(lines_of(more@).take(i as int + 1) =~= lines_of(more@).take(i as int).push(
            line_view(more@[i as int]@),
        ));
        i += 1;
    }
    assert(lines_of(more@).take(more@.len() as int) =~= lines_of(more@));
}

/// Every line cut to at most `max` columns.
pub open spec fn truncate_all(ls: Seq<Seq<SpanView>>, max: int) -> Seq<Seq<SpanView>> {
    ls.map_values(|l: Seq<SpanView>| truncate_spec(l, max))
}

/// The full default output: scene, caption and details, in the frame, or in
/// plain mode each line cut to the width so that nothing overflows.
pub open spec fn panel_spec(w: WeatherData, s: SceneView, l: Layout) -> Seq<Seq<SpanView>> {
    if l.plain {
        truncate_all(panel_body(w, s, l), l.width as int)
    } else {
        framed_spec(panel_body(w, s, l), l)
    }
}

/// The full default output: scene, caption, details, optionally framed.
pub fn panel(weather: &WeatherData, scene: &SceneModel, layout: &Layout) -> (out: Vec<Line>)
    requires
        scene.width <= i32::MAX,
        scene.height <= i32::MAX,
    ensures
        lines_of(out@) == panel_spec(*weather, scene@, *layout),
{
    let inner = layout.inner_width();
    let mut body: Vec<Line> = Vec::new();
    append_lines(&mut body, scene_lines(scene));
    let ghost b0 = lines_of(body@);
    body.push(blank());
    assert(lines_of(body@) =~= b0.push(blank_line()));
    append_lines(&mut body, caption(weather, inner));
    let ghost b1 = lines_of(body@);
    body.push(blank());
    assert(lines_of(body@) =~= b1.push(blank_line()));
    append_lines(&mut body, details(weather, layout));
    assert(lines_of(body@) =~= panel_body(*weather, scene@, *layout));
    if !layout.plain {
        return framed(body, layout);
    }
    let ghost whole = lines_of(body@);
    let mut out: Vec<Line> = Vec::new();
    let mut i: usize = 0;
    while i < body.len()
        invariant
            i <= body@.len(),
            whole == lines_of(body@),
            lines_of(out@) == truncate_all(whole.take(i as int), layout.width as int),
        decreases body.len() - i,
    {
        let line = truncate(copy_line(&body[i]), layout.width);
        let ghost before = out@;
        out.push(line);
        assert(lines_of(out@) =~= lines_of(before).push(line_view(line@)));
        assert(whole.take(i as int + 1) =~= whole.take(i as int).push(whole[i as int]));
        assert(truncate_all(whole.take(i as int + 1), layout.width as int) =~= truncate_all(
            whole.take(i as int),
            layout.width as int,
        ).push(truncate_spec(whole[i as int], layout.width as int)));
        i += 1;
    }
    assert(whole.take(body@.len() as int) =~= whole);
    out
}

/// The panel never overflows the requested width: framed, every line is
/// exactly the width; plain, every line is cut to at most the width.
pub proof fn panel_never_overflows(w: WeatherData, s: SceneView, l: Layout)
    requires
        l.width < usize::MAX,
        !l.plain ==> l.width >= 6,
    ensures
        forall|i: int|
            0 <= i < panel_spec(w, s, l).len() ==> line_width(#[trigger] panel_spec(w, s, l)[i])
                <= l.width,
        !l.plain ==> forall|i: int|
            0 <= i < panel_spec(w, s, l).len() ==> line_width(#[trigger] panel_spec(w, s, l)[i])
                == l.width,
{
    let body = panel_body(w, s, l);
    if l.plain {
        assert forall|i: int| 0 <= i < panel_spec(w, s, l).len() implies line_width(
            #[trigger] panel_spec(w, s, l)[i],
        ) <= l.width by {
            lemma_truncate_fits(body[i], l.width as int);
        }
    } else {
        framed_fills_the_width(body, l);
    }
}

/// Two-character condition icon. Legible without emoji; ASCII when plain.
pub open spec fn icon_text(c: WeatherCondition, plain: bool) -> Seq<char> {
    if !plain {
        match c {
            WeatherCondition::Clear => "☀ "@,
            WeatherCondition::PartlyCloudy => "☀☁"@,
            WeatherCondition::Cloudy => "☁☁"@,
            WeatherCondition::Fog => "≡≡"@,
            WeatherCondition::Drizzle => "☁'"@,
            WeatherCondition::Rain => "☁│"@,
            WeatherCondition::HeavyRain => "☁┃"@,
            WeatherCondition::Snow => "☁*"@,
            WeatherCondition::HeavySnow => "☁✻"@,
            WeatherCondition::Thunderstorm => "☁⚡"@,
            WeatherCondition::Unknown => "? "@,
        }
    } else {
        match c {
            WeatherCondition::Clear => "* "@,
            WeatherCondition::PartlyCloudy => "*~"@,
            WeatherCondition::Cloudy => "~~"@,
            WeatherCondition::Fog => "=="@,
            WeatherCondition::Drizzle => "~'"@,
            WeatherCondition::Rain => "~|"@,
            WeatherCondition::HeavyRain => "~|"@,
            WeatherCondition::Snow => "~*"@,
            WeatherCondition::HeavySnow => "~*"@,
            WeatherCondition::Thunderstorm => "~!"@,
            WeatherCondition::Unknown => "? "@,
        }
    }
}

/// Two-character condition icon. Legible without emoji; ASCII when plain.
pub fn icon(condition: WeatherCondition, plain: bool) -> (s: &'static str)
    ensures
        s@ == icon_text(condition, plain),
{
    if !plain {
        match condition {
            WeatherCondition::Clear => "☀ ",
            WeatherCondition::PartlyCloudy => "☀☁",
            WeatherCondition::Cloudy => "☁☁",
            WeatherCondition::Fog => "≡≡",
            WeatherCondition::Drizzle => "☁'",
            WeatherCondition::Rain => "☁│",
            WeatherCondition::HeavyRain => "☁┃",
            WeatherCondition::Snow => "☁*",
            WeatherCondition::HeavySnow => "☁✻",
            WeatherCondition::Thunderstorm => "☁⚡",
            WeatherCondition::Unknown => "? ",
        }
    } else {
        match condition {
            WeatherCondition::Clear => "* ",
            WeatherCondition::PartlyCloudy => "*~",
            WeatherCondition::Cloudy => "~~",
            WeatherCondition::Fog => "==",
            WeatherCondition::Drizzle => "~'",
            WeatherCondition::Rain | WeatherCondition::HeavyRain => "~|",
            WeatherCondition::Snow | WeatherCondition::HeavySnow => "~*",
            WeatherCondition::Thunderstorm => "~!",
            WeatherCondition::Unknown => "? ",
        }
    }
}

/// `☁│  27°C  ·  Chennai  ·  Rain  ·  87%  ·  14 km/h`: the icon (not in
/// plain mode), temperature, place name, condition, humidity and wind.
pub open spec fn compact_text(w: WeatherData, l: Layout) -> Seq<char> {
    let sep = separator_text(l.plain);
    (if l.plain {
        Seq::empty()
    } else {
        icon_text(w.condition, false) + " "@
    }) + temp_text(w.temperature as int, w.units) + sep + w.location.name@ + sep
        + condition_label(w.condition) + sep + decimal(w.humidity as nat) + "%"@ + sep + whole(
        w.wind_speed as int,
    ) + " "@ + wind_symbol_text(w.units)
}

/// `☁│  27°C  ·  Chennai  ·  Rain  ·  87%  ·  14 km/h`
pub fn compact_line(weather: &WeatherData, layout: &Layout) -> (out: Line)
    ensures
        line_view(out@) == one_span(compact_text(*weather, *layout), Paint::Plain),
{
    let sep = layout.separator();
    let mut text = String::new();
    if !layout.plain {
        text.append(icon(weather.condition, false));
        text.append(" ");
    }
    let ghost t0 = text@;
    push_whole(&mut text, weather.temperature);
    text.append(weather.units.temp_symbol());
    text.append(sep);
    text.append(weather.location.name.as_str());
    text.append(sep);
    text.append(weather.condition.label());
    text.append(sep);
    push_decimal(&mut text, weather.humidity as u64);
    text.append("%");
    text.append(sep);
    push_whole(&mut text, weather.wind_speed);
    text.append(" ");
    text.append(weather.units.wind_symbol());
    assert(text@ =~= compact_text(*weather, *layout));
    one_span_line(text, Paint::Plain)
}

/// The stale-cache / degraded-mode banner: a warning mark, a space, the message.
pub open spec fn notice_text(message: Seq<char>, plain: bool) -> Seq<char> {
    (if plain {
        "!"@
    } else {
        "⚠"@
    }) + " "@ + message
}

/// The stale-cache / degraded-mode banner.
pub fn notice(message: &str, layout: &Layout) -> (out: Line)
    ensures
        line_view(out@) == one_span(notice_text(message@, layout.plain), Paint::Notice),
{
    let mut t = if layout.plain {
        String::from_str("!")
    } else {
        String::from_str("⚠")
    };
    t.append(" ");
    t.append(message);
    one_span_line(t, Paint::Notice)
}


/// The pieces of a string between `-` separators (`str::split('-')`):
/// always at least one, possibly empty.
pub open spec fn fields(s: Seq<char>) -> Seq<Seq<char>>
    decreases s.len(),
{
    if s.len() == 0 {
        seq![Seq::empty()]
    } else {
        let f = fields(s.drop_last());
        if s.last() == '-' {
            f.push(Seq::empty())
        } else {
            f.update(f.len() - 1, f.last().push(s.last()))
        }
    }
}

/// Month offsets of Sakamoto's algorithm.
pub open spec fn month_offset(m: int) -> int {
    if m == 1 {
        0
    } else if m == 2 {
        3
    } else if m == 3 {
        2
    } else if m == 4 {
        5
    } else if m == 5 {
        0
    } else if m == 6 {
        3
    } else if m == 7 {
        5
    } else if m == 8 {
        1
    } else if m == 9 {
        4
    } else if m == 10 {
        6
    } else if m == 11 {
        2
    } else {
        4
    }
}

/// Division rounding toward zero, as integer `/` does.
pub open spec fn div_trunc(a: int, b: int) -> int {
    if a >= 0 {
        a / b
    } else {
        -((-a) / b)
    }
}

/// The year Sakamoto's algorithm works with: January and February count
/// with the year before.
pub open spec fn shifted_year(y: int, m: int) -> int {
    if m < 3 {
        y - 1
    } else {
        y
    }
}

pub open spec fn sakamoto_sum(y: int, m: int, d: int) -> int {
    let y = shifted_year(y, m);
    y + div_trunc(y, 4) - div_trunc(y, 100) + div_trunc(y, 400) + month_offset(m) + d
}

pub open spec fn day_name(i: int) -> Seq<char> {
    if i == 0 {
        "Sun"@
    } else if i == 1 {
        "Mon"@
    } else if i == 2 {
        "Tue"@
    } else if i == 3 {
        "Wed"@
    } else if i == 4 {
        "Thu"@
    } else if i == 5 {
        "Fri"@
    } else {
        "Sat"@
    }
}

/// The year, month and day of a `YYYY-MM-DD` date, when its first three
/// fields are numbers (year and day within `i32`) and the month is 1 to 12.
pub open spec fn date_parts(date: Seq<char>) -> Option<(nat, nat, nat)> {
    let f = fields(date);
    if f.len() < 3 {
        None
    } else {
        match (parse_upto(f[0], i32::MAX as nat), parse_upto(f[1], 12), parse_upto(f[2], i32::MAX as nat)) {
            (Some(y), Some(m), Some(d)) => if m >= 1 {
                Some((y, m, d))
            } else {
                None
            },
            _ => None,
        }
    }
}

/// Weekday abbreviation for a `YYYY-MM-DD` date.
pub open spec fn weekday_spec(date: Seq<char>) -> Option<Seq<char>> {
    match date_parts(date) {
        Some((y, m, d)) => Some(day_name(sakamoto_sum(y as int, m as int, d as int) % 7)),
        None => None,
    }
}

proof fn lemma_fields_one(s: Seq<char>)
    requires
        all_digits(s),
    ensures
        fields(s) == seq![s],
    decreases s.len(),
{
    if s.len() > 0 {
        let t = s.drop_last();
        assert(all_digits(t)) by {
            assert forall|i: int| 0 <= i < t.len() implies crate::text::is_digit(#[trigger] t[i]) by {
                assert(t[i] == s[i]);
            }
        }
        lemma_fields_one(t);
        assert(crate::text::is_digit(s[s.len() - 1]));
        assert(t.push(s.last()) =~= s);
    } else {
        assert(s =~= Seq::<char>::empty());
    }
}

proof fn lemma_fields_append(p: Seq<char>, s: Seq<char>)
    requires
        all_digits(s),
    ensures
        fields(p + seq!['-'] + s) == fields(p).push(s),
    decreases s.len(),
{
    let u = p + seq!['-'] + s;
    if s.len() == 0 {
        assert(u.drop_last() =~= p);
        assert(s =~= Seq::<char>::empty());
    } else {
        let t = s.drop_last();
        assert(all_digits(t)) by {
            assert forall|i: int| 0 <= i < t.len() implies crate::text::is_digit(#[trigger] t[i]) by {
                assert(t[i] == s[i]);
            }
        }
        lemma_fields_append(p, t);
        assert(u.drop_last() =~= p + seq!['-'] + t);
        assert(crate::text::is_digit(s[s.len() - 1]));
        assert(u.last() == s.last());
        assert(t.push(s.last()) =~= s);
        assert(fields(u) =~= fields(p).push(s));
    }
}

/// A `YYYY-MM-DD` date is read field by field: the year, the month and the
/// day, in that order, each the number its digits spell.
pub proof fn dates_read_year_month_day(y: Seq<char>, m: Seq<char>, d: Seq<char>)
    requires
        y.len() > 0 && m.len() > 0 && d.len() > 0,
        all_digits(y) && all_digits(m) && all_digits(d),
        digits_value(y) <= i32::MAX,
        1 <= digits_value(m) <= 12,
        digits_value(d) <= i32::MAX,
    ensures
        date_parts(y + "-"@ + m + "-"@ + d) == Some((digits_value(y), digits_value(m), digits_value(d))),
{
    reveal_strlit("-");
    assert("-"@ =~= seq!['-']);
    lemma_fields_one(y);
    lemma_fields_append(y, m);
    lemma_fields_append(y + "-"@ + m, d);
    let f = fields(y + "-"@ + m + "-"@ + d);
    assert(f =~= seq![y, m, d]);
    assert(crate::text::is_digit(y[0]) && crate::text::is_digit(m[0]) && crate::text::is_digit(d[0]));
}

/// Gregorian leap years.
pub open spec fn leap_year(y: int) -> bool {
    y % 4 == 0 && (y % 100 != 0 || y % 400 == 0)
}

/// The number of days in month `m` of year `y`.
pub open spec fn month_days(y: int, m: int) -> int {
    if m == 2 {
        if leap_year(y) {
            29
        } else {
            28
        }
    } else if m == 4 || m == 6 || m == 9 || m == 11 {
        30
    } else {
        31
    }
}

/// The calendar date after `(y, m, d)`.
pub open spec fn next_date(y: int, m: int, d: int) -> (int, int, int) {
    if d < month_days(y, m) {
        (y, m, d + 1)
    } else if m < 12 {
        (y, m + 1, 1)
    } else {
        (y + 1, 1, 1)
    }
}

proof fn lemma_year_step(y: int)
    requires
        y >= 1,
    ensures
        (y + div_trunc(y, 4) - div_trunc(y, 100) + div_trunc(y, 400)) - ((y - 1) + div_trunc(y - 1, 4)
            - div_trunc(y - 1, 100) + div_trunc(y - 1, 400)) == if leap_year(y) {
            2int
        } else {
            1int
        },
{
    assert(y / 4 - (y - 1) / 4 == if y % 4 == 0 { 1int } else { 0int });
    assert(y / 100 - (y - 1) / 100 == if y % 100 == 0 { 1int } else { 0int });
    assert(y / 400 - (y - 1) / 400 == if y % 400 == 0 { 1int } else { 0int });
    assert(y % 400 == 0 ==> y % 100 == 0 && y % 4 == 0);
    assert(y % 100 == 0 ==> y % 4 == 0);
}

/// Weekdays follow the calendar: from any date (from year 1 on) to the next,
/// across month and year ends and leap days, the weekday moves on by one,
/// and 2026-08-20 is a Thursday; so every date gets its real weekday. The
/// weekday a date's text is given is the one of its parts.
pub proof fn weekdays_follow_the_calendar(y: int, m: int, d: int, date: Seq<char>)
    requires
        y >= 1,
        1 <= m <= 12,
        1 <= d <= month_days(y, m),
    ensures
        ({
            let (y2, m2, d2) = next_date(y, m, d);
            sakamoto_sum(y2, m2, d2) % 7 == (sakamoto_sum(y, m, d) + 1) % 7
        }),
        day_name(sakamoto_sum(2026, 8, 20) % 7) == "Thu"@,
        date_parts(date) matches Some((a, b, c)) ==> weekday_spec(date) == Some(
            day_name(sakamoto_sum(a as int, b as int, c as int) % 7),
        ),
{
    let (y2, m2, d2) = next_date(y, m, d);
    if d == month_days(y, m) && m == 2 {
        lemma_year_step(y);
    }
    assert(sakamoto_sum(2026, 8, 20) == 2538);
}

/// The dates on which the weekday sum stays within `i32`.
pub open spec fn weekday_fits(date: Seq<char>) -> bool {
    match date_parts(date) {
        Some((y, m, d)) => {
            let ys = shifted_year(y as int, m as int);
            &&& ys + div_trunc(ys, 4) <= i32::MAX
            &&& sakamoto_sum(y as int, m as int, d as int) <= i32::MAX
        },
        None => true,
    }
}

fn split_fields(s: &str) -> (out: Vec<Vec<char>>)
    ensures
        out@.len() == fields(s@).len(),
        forall|i: int| 0 <= i < out@.len() ==> (#[trigger] out@[i])@ == fields(s@)[i],
{
    let cs = chars_of(s);
    let mut out: Vec<Vec<char>> = Vec::new();
    out.push(Vec::new());
    let mut i: usize = 0;
    assert(cs@.take(0) =~= Seq::<char>::empty());
    while i < cs.len()
        invariant
            i <= cs@.len(),
            cs@ == s@,
            out@.len() == fields(cs@.take(i as int)).len(),
            out@.len() >= 1,
            forall|j: int| 0 <= j < out@.len() ==> (#[trigger] out@[j])@ == fields(cs@.take(i as int))[j],
        decreases cs.len() - i,
    {
        let ghost prev = cs@.take(i as int);
        assert(cs@.take(i as int + 1).drop_last() =~= prev);
        assert(cs@.take(i as int + 1).last() == cs@[i as int]);
        if cs[i] == '-' {
            out.push(Vec::new());
        } else {
            let n = out.len();
            let mut last = out.pop().unwrap();
            last.push(cs[i]);
            out.push(last);
            assert(out@.len() == n);
        }
        i += 1;
    }
    assert(cs@.take(cs@.len() as int) =~= s@);
    out
}

/// The year, month and day of a date (see `date_parts`).
fn parts_of(date: &str) -> (r: Option<(u64, u64, u64)>)
    ensures
        match r {
            Some((y, m, d)) => date_parts(date@) == Some((y as nat, m as nat, d as nat)),
            None => date_parts(date@) is None,
        },
{
    let f = split_fields(date);
    if f.len() < 3 {
        return None;
    }
    let y = match read_upto(f[0].as_slice(), 2147483647u64) {
        Some(v) => v,
        None => return None,
    };
    let month = match read_upto(f[1].as_slice(), 12u64) {
        Some(v) => v,
        None => return None,
    };
    let day = match read_upto(f[2].as_slice(), 2147483647u64) {
        Some(v) => v,
        None => return None,
    };
    if month < 1 {
        return None;
    }
    Some((y, month, day))
}

fn offset_of(month: u64) -> (o: i64)
    requires
        1 <= month <= 12,
    ensures
        o == month_offset(month as int),
{
    if month == 1 {
        0
    } else if month == 2 {
        3
    } else if month == 3 {
        2
    } else if month == 4 {
        5
    } else if month == 5 {
        0
    } else if month == 6 {
        3
    } else if month == 7 {
        5
    } else if month == 8 {
        1
    } else if month == 9 {
        4
    } else if month == 10 {
        6
    } else if month == 11 {
        2
    } else {
        4
    }
}

/// Whether the weekday of a date can be worked out within `i32`.
pub fn weekday_fits_exec(date: &str) -> (b: bool)
    ensures
        b == weekday_fits(date@),
{
    match parts_of(date) {
        None => true,
        Some((y, m, d)) => {
            let mut ys: i64 = y as i64;
            if m < 3 {
                ys = ys - 1;
            }
            let q4 = if ys < 0 { 0 } else { ys / 4 };
            let q100 = if ys < 0 { 0 } else { ys / 100 };
            let q400 = if ys < 0 { 0 } else { ys / 400 };
            assert(q4 == div_trunc(ys as int, 4));
            assert(q100 == div_trunc(ys as int, 100));
            assert(q400 == div_trunc(ys as int, 400));
            let first = ys + q4;
            let sum = first - q100 + q400 + offset_of(m) + d as i64;
            first <= 2147483647 && sum <= 2147483647
        },
    }
}

/// Whether every day after the first has a weekday that fits (see
/// `forecast_dates_fit`).
pub fn forecast_dates_fit_exec(weather: &WeatherData) -> (b: bool)
    ensures
        b == forecast_dates_fit(*weather),
{
    let mut i: usize = 1;
    while i < weather.forecast.len()
        invariant
            1 <= i,
            i <= weather.forecast@.len() || weather.forecast@.len() == 0,
            forall|j: int| 1 <= j < i && j < weather.forecast@.len() ==> weekday_fits((#[trigger] weather.forecast@[j]).date@),
        decreases weather.forecast.len() - i,
    {
        if !weekday_fits_exec(weather.forecast[i].date.as_str()) {
            return false;
        }
        i += 1;
    }
    true
}

/// Weekday abbreviation for a `YYYY-MM-DD` date (Sakamoto's algorithm).
pub fn weekday(date: &str) -> (r: Option<&'static str>)
    requires
        weekday_fits(date@),
    ensures
        match r {
            Some(name) => weekday_spec(date@) == Some(name@),
            None => weekday_spec(date@) is None,
        },
{
    let (y, month, day) = match parts_of(date) {
        Some(p) => p,
        None => return None,
    };
    let mut year: i32 = y as i32;
    let d: i32 = day as i32;
    if month < 3 {
        year -= 1;
    }
    let offset: i32 = if month == 1 {
        0
    } else if month == 2 {
        3
    } else if month == 3 {
        2
    } else if month == 4 {
        5
    } else if month == 5 {
        0
    } else if month == 6 {
        3
    } else if month == 7 {
        5
    } else if month == 8 {
        1
    } else if month == 9 {
        4
    } else if month == 10 {
        6
    } else if month == 11 {
        2
    } else {
        4
    };
    let q4 = year / 4;
    let q100 = year / 100;
    let q400 = year / 400;
    assert(q4 == div_trunc(year as int, 4));
    assert(q100 == div_trunc(year as int, 100));
    assert(q400 == div_trunc(year as int, 400));
    let sum = year + q4 - q100 + q400 + offset + d;
    let index = if sum < 0 { sum + 7 } else { sum % 7 };
    assert(index == sakamoto_sum(y as int, month as int, day as int) % 7);
    Some(
        if index == 0 {
            "Sun"
        } else if index == 1 {
            "Mon"
        } else if index == 2 {
            "Tue"
        } else if index == 3 {
            "Wed"
        } else if index == 4 {
            "Thu"
        } else if index == 5 {
            "Fri"
        } else {
            "Sat"
        },
    )
}


/// The day column: `Today` for the first row, else the weekday, else `—`.
pub open spec fn day_label(day: DailyForecast, index: int) -> Seq<char> {
    if index == 0 {
        "Today"@
    } else {
        match weekday_spec(day.date@) {
            Some(name) => name,
            None => "—"@,
        }
    }
}

/// The chance column: `   40%`, or blanks when the day has no chance.
pub open spec fn chance_text(p: Option<u8>) -> Seq<char> {
    match p {
        Some(chance) => pad_left(decimal(chance as nat), 5) + "%"@,
        None => "      "@,
    }
}

/// `Today   ☀☁   31° / 26°   40%`
pub open spec fn forecast_row(day: DailyForecast, index: int, plain: bool, show_chance: bool) -> Seq<SpanView> {
    seq![
        SpanView { text: pad_right(day_label(day, index), 6), paint: Paint::Plain },
        SpanView { text: icon_text(day.condition, plain) + "  "@, paint: Paint::Condition },
        SpanView { text: pad_left(whole(day.temp_max as int), 3) + "°"@, paint: Paint::Temperature },
        SpanView { text: " / "@ + whole(day.temp_min as int) + "°"@, paint: Paint::Detail },
    ] + if show_chance {
        seq![SpanView { text: chance_text(day.precipitation_probability), paint: Paint::Detail }]
    } else {
        Seq::empty()
    }
}

/// The widest of some lines.
pub open spec fn widest(rows: Seq<Seq<SpanView>>) -> int
    decreases rows.len(),
{
    if rows.len() == 0 {
        0
    } else {
        let w = widest(rows.drop_last());
        if width_of(rows.last()) > w {
            width_of(rows.last())
        } else {
            w
        }
    }
}

/// Whether the chance column shows: there is room and some day has a chance.
pub open spec fn shows_chance(w: WeatherData, inner: int) -> bool {
    inner >= 34 && exists|i: int| 0 <= i < w.forecast@.len() && (#[trigger] w.forecast@[i]).precipitation_probability is Some
}

pub open spec fn forecast_rows(w: WeatherData, plain: bool, show_chance: bool) -> Seq<Seq<SpanView>> {
    Seq::new(w.forecast@.len(), |i: int| forecast_row(w.forecast@[i], i, plain, show_chance))
}

/// The forecast block: a centered heading (place in capitals and the unit),
/// a blank row, then one row per day, the rows indented together so the
/// block as a whole is centered.
pub open spec fn forecast_spec(w: WeatherData, l: Layout) -> Seq<Seq<SpanView>> {
    let inner = inner_of(l);
    let rows = forecast_rows(w, l.plain, shows_chance(w, inner));
    let wide = widest(rows);
    let pad = if inner > wide {
        (inner - wide) / 2
    } else {
        0
    };
    let indented = if pad > 0 {
        rows.map_values(|r: Seq<SpanView>| seq![plain_span(repeat(' ', pad as nat))] + r)
    } else {
        rows
    };
    let heading = uppercase(location_label(w.location.name@, w.location.country@)) + "  ·  "@
        + temp_symbol_text(w.units);
    seq![centered_spec(one_span(heading, Paint::Place), inner), blank_line()] + indented
}

/// The days whose weekday can be worked out without overflowing.
pub open spec fn forecast_dates_fit(w: WeatherData) -> bool {
    forall|i: int| 1 <= i < w.forecast@.len() ==> weekday_fits((#[trigger] w.forecast@[i]).date@)
}

fn span_of(text: String, paint: Paint) -> (s: Span)
    ensures
        s@ == (SpanView { text: text@, paint }),
{
    Span { text, paint }
}

fn forecast_row_exec(day: &DailyForecast, index: usize, plain: bool, show_chance: bool) -> (row: Line)
    requires
        index > 0 ==> weekday_fits(day.date@),
    ensures
        line_view(row@) == forecast_row(*day, index as int, plain, show_chance),
{
    let name: &str = if index == 0 {
        "Today"
    } else {
        match weekday(day.date.as_str()) {
            Some(n) => n,
            None => "—",
        }
    };
    assert(name@ == day_label(*day, index as int));
    let mut t0 = String::new();
    push_padded_right(&mut t0, chars_of(name).as_slice(), 6);
    let mut t1 = String::from_str(icon(day.condition, plain));
    t1.append("  ");
    let mut hi = String::new();
    push_whole(&mut hi, day.temp_max);
    let mut t2 = String::new();
    push_padded_left(&mut t2, chars_of(hi.as_str()).as_slice(), 3);
    t2.append("°");
    let mut t3 = String::from_str(" / ");
    push_whole(&mut t3, day.temp_min);
    t3.append("°");
    let mut row: Line = Vec::new();
    row.push(span_of(t0, Paint::Plain));
    row.push(span_of(t1, Paint::Condition));
    row.push(span_of(t2, Paint::Temperature));
    row.push(span_of(t3, Paint::Detail));
    let ghost base = line_view(row@);
    if show_chance {
        let t4 = match day.precipitation_probability {
            Some(chance) => {
                let mut d = String::new();
                push_decimal(&mut d, chance as u64);
                let mut t = String::new();
                push_padded_left(&mut t, chars_of(d.as_str()).as_slice(), 5);
                t.append("%");
                t
            },
            None => String::from_str("      "),
        };
        assert(t4@ =~= chance_text(day.precipitation_probability));
        row.push(span_of(t4, Paint::Detail));
        assert(line_view(row@) =~= base.push(SpanView { text: t4@, paint: Paint::Detail }));
    }
    assert(line_view(row@) =~= forecast_row(*day, index as int, plain, show_chance));
    row
}

/// `Today   ☀☁   31° / 26°   40%`
pub fn forecast_lines(weather: &WeatherData, layout: &Layout) -> (out: Vec<Line>)
    requires
        forecast_dates_fit(*weather),
    ensures
        lines_of(out@) == forecast_spec(*weather, *layout),
{
    let inner = layout.inner_width();
    let n = weather.forecast.len();
    let mut any = false;
    let mut i: usize = 0;
    while i < n
        invariant
            i <= n == weather.forecast@.len(),
            any == exists|j: int| 0 <= j < i && (#[trigger] weather.forecast@[j]).precipitation_probability is Some,
        decreases n - i,
    {
        if weather.forecast[i].precipitation_probability.is_some() {
            any = true;
        }
        i += 1;
    }
    let show_chance = inner >= 34 && any;
    assert(show_chance == shows_chance(*weather, inner as int));
    let ghost rows_spec = forecast_rows(*weather, layout.plain, show_chance);
    let mut rows: Vec<Line> = Vec::new();
    let mut wide: usize = 0;
    let mut k: usize = 0;
    while k < n
        invariant
            k <= n == weather.forecast@.len(),
            forecast_dates_fit(*weather),
            rows_spec == forecast_rows(*weather, layout.plain, show_chance),
            lines_of(rows@) == rows_spec.take(k as int),
            wide == widest(rows_spec.take(k as int)),
        decreases n - k,
    {
        let row = forecast_row_exec(&weather.forecast[k], k, layout.plain, show_chance);
        let w = text_width(&row);
        let ghost before = rows@;
        assert(rows_spec.take(k as int + 1).drop_last() =~= rows_spec.take(k as int));
        assert(rows_spec.take(k as int + 1).last() == line_view(row@));
        if w > wide {
            wide = w;
        }
        rows.push(row);
        assert(lines_of(rows@) =~= lines_of(before).push(line_view(row@)));
        k += 1;
    }
    assert(rows_spec.take(n as int) =~= rows_spec);
    let pad = inner.saturating_sub(wide) / 2;
    let mut heading = to_upper(weather.location.label().as_str());
    heading.append("  ·  ");
    heading.append(weather.units.temp_symbol());
    let mut out: Vec<Line> = Vec::new();
    out.push(centered(one_span_line(heading, Paint::Place), inner));
    out.push(blank());
    let ghost start = lines_of(out@);
    let ghost indented = if pad > 0 {
        rows_spec.map_values(|r: Seq<SpanView>| seq![plain_span(repeat(' ', pad as nat))] + r)
    } else {
        rows_spec
    };
    let mut j: usize = 0;
    while j < rows.len()
        invariant
            j <= rows@.len() == rows_spec.len(),
            lines_of(rows@) == rows_spec,
            indented == (if pad > 0 {
                rows_spec.map_values(|r: Seq<SpanView>| seq![plain_span(repeat(' ', pad as nat))] + r)
            } else {
                rows_spec
            }),
            lines_of(out@) == start + indented.take(j as int),
        decreases rows.len() - j,
    {
        let mut line: Line = Vec::new();
        if pad > 0 {
            line.push(spaces_span(pad));
        }
        append_spans(&mut line, &rows[j]);
        assert(lines_of(rows@)[j as int] == line_view(rows@[j as int]@));
        assert(line_view(line@) == indented[j as int]);
        let ghost before = out@;
        out.push(line);
        assert(lines_of(out@) =~= lines_of(before).push(indented[j as int]));
        assert(indented.take(j as int + 1) =~= indented.take(j as int).push(indented[j as int]));
        j += 1;
    }
    assert(indented.take(rows@.len() as int) =~= indented);
    assert(lines_of(out@) =~= forecast_spec(*weather, *layout));
    out
}

fn append_spans(out: &mut Line, more: &Line)
    ensures
        line_view(final(out)@) == line_view(old(out)@) + line_view(more@),
{
    let ghost start = line_view(out@);
    let mut i: usize = 0;
    while i < more.len()
        invariant
            i <= more@.len(),
            line_view(out@) == start + line_view(more@).take(i as int),
        decreases more.len() - i,
    {
        let t = more[i].text.clone();
        let sp = Span { text: t, paint: more[i].paint };
        let ghost before = out@;
        out.push(sp);
        assert(line_view(out@) =~= line_view(before).push(sp@));
        assert(line_view(more@).take(i as int + 1) =~= line_view(more@).take(i as int).push(
            more@[i as int]@,
        ));
        i += 1;
    }
    assert(line_view(more@).take(more@.len() as int) =~= line_view(more@));
}


proof fn lemma_group_width(cells: Seq<(char, Option<Style>)>)
    ensures
        line_width(group(cells)) == cells.len(),
    decreases cells.len(),
{
    if cells.len() > 0 {
        let g = group(cells.drop_last());
        lemma_group_width(cells.drop_last());
        let (c, st) = cells.last();
        let p = paint_of(st);
        if g.len() > 0 && g.last().paint == p {
            let u = g.update(g.len() - 1, SpanView { text: g.last().text.push(c), paint: p });
            assert(u.drop_last() =~= g.drop_last());
            assert(g == g.drop_last().push(g.last()));
            assert(line_width(g) == line_width(g.drop_last()) + g.last().text.len());
        } else {
            assert(g.push(SpanView { text: seq![c], paint: p }).drop_last() =~= g);
        }
    }
}

/// Every row of a scene takes exactly the scene's width, and there is one
/// row per line of height: the art never spills past its canvas.
pub proof fn scene_rows_fill_the_scene_width(s: SceneView)
    ensures
        scene_lines_spec(s).len() == s.height,
        forall|y: int| 0 <= y < s.height ==> line_width(#[trigger] scene_lines_spec(s)[y]) == s.width,
{
    assert forall|y: int| 0 <= y < s.height implies line_width(#[trigger] scene_lines_spec(s)[y]) == s.width by {
        lemma_group_width(scene_row(s, y));
    }
}


proof fn lemma_line_text_concat(a: Seq<SpanView>, b: Seq<SpanView>)
    ensures
        line_text(a + b) == line_text(a) + line_text(b),
    decreases b.len(),
{
    if b.len() == 0 {
        assert(a + b =~= a);
        assert(line_text(a) + Seq::<char>::empty() =~= line_text(a));
    } else {
        lemma_line_text_concat(a, b.drop_last());
        assert((a + b).drop_last() =~= a + b.drop_last());
        assert((a + b).last() == b.last());
        assert(line_text(a) + line_text(b.drop_last()) + b.last().text =~= line_text(a) + (line_text(
            b.drop_last(),
        ) + b.last().text));
    }
}

proof fn lemma_line_text_one(x: SpanView)
    ensures
        line_text(seq![x]) == x.text,
{
    assert(seq![x].drop_last() =~= Seq::<SpanView>::empty());
    assert(line_text(Seq::<SpanView>::empty()) == Seq::<char>::empty());
    assert(Seq::<char>::empty() + x.text =~= x.text);
}

proof fn lemma_text_len(l: Seq<SpanView>)
    ensures
        line_text(l).len() == line_width(l),
    decreases l.len(),
{
    if l.len() > 0 {
        lemma_text_len(l.drop_last());
    }
}

proof fn lemma_trunc_spans(l: Seq<SpanView>, room: int)
    requires
        room >= 0,
    ensures
        line_width(trunc_spans(l, room)) == if line_width(l) < room { line_width(l) } else { room },
        trunc_spans(l, room).len() <= l.len(),
        forall|i: int| 0 <= i < trunc_spans(l, room).len() ==> (#[trigger] trunc_spans(l, room)[i]).paint == l[i].paint,
        line_width(trunc_spans(l, room)) <= line_text(l).len(),
        line_text(trunc_spans(l, room)) == line_text(l).take(line_width(trunc_spans(l, room))),
        line_text(l).len() == line_width(l),
    decreases l.len(),
{
    lemma_text_len(l);
    if l.len() == 0 {
        assert(line_text(l) =~= Seq::<char>::empty());
        assert(Seq::<char>::empty().take(0) =~= Seq::<char>::empty());
    } else {
        let x = l[0];
        let rest = l.drop_first();
        assert(l =~= seq![x] + rest);
        lemma_line_width_concat(seq![x], rest);
        lemma_line_width_one(x);
        lemma_line_text_concat(seq![x], rest);
        lemma_line_text_one(x);
        if x.text.len() <= room {
            let t = trunc_spans(rest, room - x.text.len());
            lemma_trunc_spans(rest, room - x.text.len());
            lemma_line_width_concat(seq![x], t);
            lemma_line_text_concat(seq![x], t);
            assert(trunc_spans(l, room) == seq![x] + t);
            assert forall|i: int| 0 <= i < (seq![x] + t).len() implies (#[trigger] (seq![x] + t)[i]).paint
                == l[i].paint by {
                if i > 0 {
                    assert((seq![x] + t)[i] == t[i - 1]);
                    assert(rest[i - 1] == l[i]);
                }
            }
            assert(line_text(l).take(x.text.len() + line_width(t)) =~= x.text + line_text(rest).take(
                line_width(t),
            ));
        } else {
            let y = SpanView { text: x.text.take(room), paint: x.paint };
            lemma_line_width_one(y);
            lemma_line_text_one(y);
            lemma_line_width_nonneg(rest);
            assert(line_text(l).take(room) =~= x.text.take(room));
        }
    }
}

/// Cutting a line keeps its first `max` columns: the result is
/// `min(width, max)` wide, its text is the start of the line's text, every
/// span keeps the paint of the span it was cut from, and a line that fits
/// comes back unchanged.
pub proof fn truncation_keeps_a_prefix(l: Seq<SpanView>, max: int)
    requires
        0 <= max < usize::MAX,
    ensures
        line_width(truncate_spec(l, max)) == if line_width(l) < max { line_width(l) } else { max },
        line_text(truncate_spec(l, max)) == line_text(l).take(line_width(truncate_spec(l, max))),
        truncate_spec(l, max).len() <= l.len(),
        forall|i: int| 0 <= i < truncate_spec(l, max).len() ==> (#[trigger] truncate_spec(l, max)[i]).paint == l[i].paint,
        line_width(l) <= max ==> truncate_spec(l, max) == l,
{
    lemma_trunc_spans(l, max);
    lemma_line_width_nonneg(l);
    if width_of(l) <= max {
        assert(line_text(l).take(line_width(l)) =~= line_text(l));
    }
}


pub open spec fn cell_chars(cells: Seq<(char, Option<Style>)>) -> Seq<char> {
    cells.map_values(|c: (char, Option<Style>)| c.0)
}

proof fn lemma_group_text(cells: Seq<(char, Option<Style>)>)
    ensures
        line_text(group(cells)) == cell_chars(cells),
    decreases cells.len(),
{
    if cells.len() == 0 {
        assert(cell_chars(cells) =~= Seq::<char>::empty());
    } else {
        let g = group(cells.drop_last());
        lemma_group_text(cells.drop_last());
        let (c, st) = cells.last();
        let p = paint_of(st);
        assert(cell_chars(cells) =~= cell_chars(cells.drop_last()).push(c));
        if g.len() > 0 && g.last().paint == p {
            let u = g.update(g.len() - 1, SpanView { text: g.last().text.push(c), paint: p });
            assert(u.drop_last() =~= g.drop_last());
            assert(line_text(g) == line_text(g.drop_last()) + g.last().text);
            assert(line_text(u) =~= line_text(g).push(c));
        } else {
            let u = g.push(SpanView { text: seq![c], paint: p });
            assert(u.drop_last() =~= g);
            assert(line_text(u) =~= line_text(g).push(c));
        }
    }
}

pub open spec fn maximal_runs(g: Seq<SpanView>) -> bool {
    &&& forall|i: int, j: int| 0 <= i && j == i + 1 && j < g.len() ==> (#[trigger] g[i]).paint != (#[trigger] g[j]).paint
    &&& forall|i: int| 0 <= i < g.len() ==> (#[trigger] g[i]).text.len() > 0
}

proof fn lemma_runs_step(g: Seq<SpanView>, c: char, p: Paint)
    requires
        maximal_runs(g),
    ensures
        g.len() > 0 && g.last().paint == p ==> maximal_runs(
            g.update(g.len() - 1, SpanView { text: g.last().text.push(c), paint: p }),
        ),
        !(g.len() > 0 && g.last().paint == p) ==> maximal_runs(g.push(SpanView { text: seq![c], paint: p })),
{
    if g.len() > 0 && g.last().paint == p {
        let u = g.update(g.len() - 1, SpanView { text: g.last().text.push(c), paint: p });
        assert forall|i: int, j: int| 0 <= i && j == i + 1 && j < u.len() implies (#[trigger] u[i]).paint
            != (#[trigger] u[j]).paint by {
            assert(u[i].paint == g[i].paint);
            assert(u[j].paint == g[j].paint);
        }
        assert forall|i: int| 0 <= i < u.len() implies (#[trigger] u[i]).text.len() > 0 by {
            if i < g.len() - 1 {
                assert(u[i] == g[i]);
            }
        }
    } else {
        let u = g.push(SpanView { text: seq![c], paint: p });
        assert forall|i: int, j: int| 0 <= i && j == i + 1 && j < u.len() implies (#[trigger] u[i]).paint
            != (#[trigger] u[j]).paint by {
            assert(u[i] == g[i]);
            if j < g.len() {
                assert(u[j] == g[j]);
            }
        }
        assert forall|i: int| 0 <= i < u.len() implies (#[trigger] u[i]).text.len() > 0 by {
            if i < g.len() {
                assert(u[i] == g[i]);
            }
        }
    }
}

/// The paint of each column of a line.
pub open spec fn line_paints(g: Seq<SpanView>) -> Seq<Paint>
    decreases g.len(),
{
    if g.len() == 0 {
        Seq::empty()
    } else {
        line_paints(g.drop_last()) + Seq::new(g.last().text.len(), |i: int| g.last().paint)
    }
}

pub open spec fn cell_paints(cells: Seq<(char, Option<Style>)>) -> Seq<Paint> {
    cells.map_values(|c: (char, Option<Style>)| paint_of(c.1))
}

proof fn lemma_group_paints(cells: Seq<(char, Option<Style>)>)
    ensures
        line_paints(group(cells)) == cell_paints(cells),
    decreases cells.len(),
{
    if cells.len() == 0 {
        assert(cell_paints(cells) =~= Seq::<Paint>::empty());
    } else {
        let g = group(cells.drop_last());
        lemma_group_paints(cells.drop_last());
        let (c, st) = cells.last();
        let p = paint_of(st);
        assert(cell_paints(cells) =~= cell_paints(cells.drop_last()).push(p));
        if g.len() > 0 && g.last().paint == p {
            let u = g.update(g.len() - 1, SpanView { text: g.last().text.push(c), paint: p });
            assert(u.drop_last() =~= g.drop_last());
            assert(line_paints(u) =~= line_paints(g).push(p));
        } else {
            let u = g.push(SpanView { text: seq![c], paint: p });
            assert(u.drop_last() =~= g);
            assert(line_paints(u) =~= line_paints(g).push(p));
        }
    }
}

proof fn lemma_group_runs(cells: Seq<(char, Option<Style>)>)
    ensures
        maximal_runs(group(cells)),
    decreases cells.len(),
{
    if cells.len() > 0 {
        lemma_group_runs(cells.drop_last());
        let c = cells.last().0;
        let p = paint_of(cells.last().1);
        lemma_runs_step(group(cells.drop_last()), c, p);
    }
}

/// Every row of a scene reads, character for character, what the front-most
/// sprite shows at each column, painted in that sprite's style (a blank in
/// no paint where none shows), and its spans are maximal runs: none is empty
/// and no two neighbours share a paint.
pub proof fn scene_rows_show_the_front_sprite(s: SceneView, y: int)
    requires
        0 <= y < s.height,
    ensures
        line_text(scene_lines_spec(s)[y]).len() == s.width,
        forall|x: int| 0 <= x < s.width ==> (#[trigger] line_text(scene_lines_spec(s)[y])[x]) == cell_at(all_sprites(s), x, y).0,
        line_paints(scene_lines_spec(s)[y]).len() == s.width,
        forall|x: int| 0 <= x < s.width ==> (#[trigger] line_paints(scene_lines_spec(s)[y])[x]) == paint_of(cell_at(all_sprites(s), x, y).1),
        maximal_runs(scene_lines_spec(s)[y]),
{
    let row = scene_row(s, y);
    assert(scene_lines_spec(s)[y] == group(row));
    lemma_group_text(row);
    lemma_group_paints(row);
    lemma_group_runs(row);
    assert forall|x: int| 0 <= x < s.width implies (#[trigger] line_text(scene_lines_spec(s)[y])[x]) == cell_at(all_sprites(s), x, y).0 by {
        assert(cell_chars(row)[x] == row[x].0);
    }
    assert forall|x: int| 0 <= x < s.width implies (#[trigger] line_paints(scene_lines_spec(s)[y])[x]) == paint_of(cell_at(all_sprites(s), x, y).1) by {
        assert(cell_paints(row)[x] == paint_of(row[x].1));
    }
}

} // verus!
