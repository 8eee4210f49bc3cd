//! Where the terminal front end puts things: the pixel grid centred in the
//! terminal, and centred text that is cut down, with an ellipsis, until it
//! fits inside a one-cell border.

use unicode_width::UnicodeWidthStr;
use vstd::prelude::*;

verus! {

/// The number of terminal columns that a string takes.
pub uninterp spec fn display_width(s: Seq<char>) -> nat;

/// Relies on `unicode_width::UnicodeWidthStr::width`: the columns that `s`
/// takes, which depend on its characters alone; an empty string takes none.
#[verifier::external_body]
fn str_width(s: &str) -> (r: usize)
    ensures
        r == display_width(s@),
        s@.len() == 0 ==> r == 0,
{
    UnicodeWidthStr::width(s)
}

/// Relies on `String::push`: appends `c` to `s`.
#[verifier::external_body]
fn push_char(s: &mut String, c: char)
    ensures
        final(s)@ == old(s)@.push(c),
{
    s.push(c)
}

/// One piece of text to print at column `x` of row `y`.
pub struct Placed {
    pub x: usize,
    pub y: usize,
    pub text: String,
}

/// A `Placed` as a value.
pub open spec fn placed_view(p: Placed) -> (usize, usize, Seq<char>) {
    (p.x, p.y, p.text@)
}

/// The ellipsis that ends a shortened line, and stands for dropped lines.
pub open spec fn ellipsis() -> Seq<char> {
    seq!['…']
}

/// The line cut to its first `(len - 1) / 2` characters, then an ellipsis.
pub open spec fn shortened(line: Seq<char>) -> Seq<char> {
    line.subrange(0, (line.len() - 1) / 2) + ellipsis()
}

/// The offset that centres something in `free` spare cells, the odd cell
/// going before it; `None` when there is no room.
pub open spec fn centre_offset(free: int) -> Option<int> {
    if free < 0 {
        None
    } else {
        Some((free + 1) / 2)
    }
}

/// A measure that shortening decreases.
pub open spec fn line_measure(line: Seq<char>) -> nat {
    line.len() + if line == ellipsis() { 0nat } else { 1nat }
}

/// The column at which `line` prints, centred between the borders of a
/// terminal `term_w` wide, and the text printed: the line, shortened as
/// often as needed to fit. `None` when not even an ellipsis fits, or when
/// an empty line does not fit.
pub open spec fn fit_line(term_w: int, line: Seq<char>) -> Option<(int, Seq<char>)>
    decreases line_measure(line),
{
    match centre_offset(term_w - 2 - display_width(line)) {
        Some(x) => Some((x + 1, line)),
        None => if line == ellipsis() || line.len() == 0 {
            None
        } else {
            if line_measure(shortened(line)) < line_measure(line) {
                fit_line(term_w, shortened(line))
            } else {
                None
            }
        },
    }
}

/// The lines that remain of `lines` in a terminal `term_h` high with a
/// border above and below: while they do not fit, the first half of them
/// is kept and an ellipsis line added; one line that does not fit is
/// dropped.
pub open spec fn fit_lines(term_h: int, lines: Seq<Seq<char>>) -> Seq<Seq<char>>
    decreases lines.len(),
{
    let h = lines.len() as int;
    if h + 2 <= term_h {
        lines
    } else if h > 2 {
        fit_lines(term_h, lines.subrange(0, (h - 1) / 2).push(ellipsis()))
    } else if h > 1 {
        fit_lines(term_h, seq![ellipsis()])
    } else {
        Seq::empty()
    }
}

/// The lines `lines` printed one per row from row `top` on, each centred,
/// leaving out those that `fit_line` drops.
pub open spec fn place_lines(term_w: int, top: int, lines: Seq<Seq<char>>) -> Seq<(usize, usize, Seq<char>)>
    decreases lines.len(),
{
    if lines.len() == 0 {
        Seq::empty()
    } else {
        let k = lines.len() - 1;
        let before = place_lines(term_w, top, lines.drop_last());
        match fit_line(term_w, lines.last()) {
            Some((x, s)) => before.push((x as usize, (top + k) as usize, s)),
            None => before,
        }
    }
}

/// The first row of `h` lines centred between the borders of a terminal
/// `term_h` high.
pub open spec fn text_top(term_h: int, h: int) -> int {
    match centre_offset(term_h - 2 - h) {
        Some(y) => y + 1,
        None => 0,
    }
}

/// Where the pixel grid starts: a pixel is two cells wide and one high,
/// centred in the terminal; `None` when the terminal is too small.
pub open spec fn grid_origin_spec(term_w: int, term_h: int, pixels_w: int, pixels_h: int) -> Option<(int, int)> {
    if term_w < 2 * pixels_w || term_h < pixels_h {
        None
    } else {
        Some(((term_w - 2 * pixels_w) / 2, (term_h - pixels_h) / 2))
    }
}

/// Where the pixel grid of a `pixels_w` by `pixels_h` screen starts in a
/// `term_w` by `term_h` terminal, or `None` if it does not fit.
pub fn grid_origin(term_w: usize, term_h: usize, pixels_w: usize, pixels_h: usize) -> (r: Option<(usize, usize)>)
    ensures
        r == match grid_origin_spec(term_w as int, term_h as int, pixels_w as int, pixels_h as int) {
            Some((x, y)) => Some((x as usize, y as usize)),
            None => None,
        },
{
    // `term_w < 2 * pixels_w` without forming the product.
    if pixels_w > term_w / 2 || term_h < pixels_h {
        None
    } else {
        Some(((term_w - 2 * pixels_w) / 2, (term_h - pixels_h) / 2))
    }
}

/// The column, counted from the terminal's edge, at which a line `width`
/// cells wide is centred between the borders of a terminal `term_w` wide;
/// `None` if it does not fit.
pub fn centre_column(term_w: usize, width: usize) -> (r: Option<usize>)
    ensures
        r == match centre_offset(term_w - 2 - width) {
            Some(x) => Some((x + 1) as usize),
            None => None::<usize>,
        },
{
    if term_w < 2 || width > term_w - 2 {
        None
    } else {
        Some((term_w - 2 - width + 1) / 2 + 1)
    }
}

/// `line` cut to its first `(len - 1) / 2` characters, then an ellipsis.
pub fn shorten(line: &str) -> (r: String)
    requires
        line@.len() > 0,
    ensures
        r@ == shortened(line@),
{
    let n = line.unicode_len();
    let keep = (n - 1) / 2;
    let mut out = String::new();
    let mut i: usize = 0;
    while i < keep
        invariant
            keep == (line@.len() - 1) / 2,
            i <= keep,
            out@ == line@.subrange(0, i as int),
        decreases keep - i,
    {
        push_char(&mut out, line.get_char(i));
        i = i + 1;
        assert(out@ =~= line@.subrange(0, i as int));
    }
    push_char(&mut out, '…');
    assert(out@ =~= shortened(line@));
    out
}

fn is_ellipsis(s: &str) -> (r: bool)
    ensures
        r == (s@ == ellipsis()),
{
    if s.unicode_len() == 1 {
        let c = s.get_char(0);
        assert(c == '…' ==> s@ =~= ellipsis());
        c == '…'
    } else {
        false
    }
}

proof fn lemma_shortening_decreases(line: Seq<char>)
    requires
        line.len() > 0,
        line != ellipsis(),
    ensures
        line_measure(shortened(line)) < line_measure(line),
{
    let s = shortened(line);
    assert(s.len() == (line.len() - 1) / 2 + 1);
}

/// Centres `line` between the borders of a terminal `term_w` wide,
/// shortening it until it fits. Returns the column and the text to print.
pub fn centre_line(term_w: usize, line: &str) -> (r: Option<(usize, String)>)
    ensures
        match fit_line(term_w as int, line@) {
            Some((x, s)) => r matches Some((c, t)) && c == x && t@ == s,
            None => r is None,
        },
{
    let mut cur = String::new();
    let mut k: usize = 0;
    let n = line.unicode_len();
    while k < n
        invariant
            k <= n == line@.len(),
            cur@ == line@.subrange(0, k as int),
        decreases n - k,
    {
        push_char(&mut cur, line.get_char(k));
        k = k + 1;
        assert(cur@ =~= line@.subrange(0, k as int));
    }
    assert(cur@ =~= line@);
    loop
        invariant
            fit_line(term_w as int, cur@) == fit_line(term_w as int, line@),
        decreases line_measure(cur@),
    {
        let w = str_width(cur.as_str());
        match centre_column(term_w, w) {
            Some(x) => {
                return Some((x, cur));
            },
            None => {},
        }
        if is_ellipsis(cur.as_str()) || cur.as_str().unicode_len() == 0 {
            return None;
        }
        proof {
            lemma_shortening_decreases(cur@);
        }
        cur = shorten(cur.as_str());
    }
}

/// What each string holds.
pub open spec fn views(lines: Seq<String>) -> Seq<Seq<char>> {
    Seq::new(lines.len(), |i: int| lines[i]@)
}

/// What each piece holds.
pub open spec fn placed_views(ps: Seq<Placed>) -> Seq<(usize, usize, Seq<char>)> {
    Seq::new(ps.len(), |i: int| placed_view(ps[i]))
}

fn ellipsis_string() -> (r: String)
    ensures
        r@ == ellipsis(),
{
    let mut s = String::new();
    push_char(&mut s, '…');
    assert(s@ =~= ellipsis());
    s
}

/// The first `n` of `lines`, copied, followed by an ellipsis line.
fn first_lines(lines: &Vec<String>, n: usize) -> (r: Vec<String>)
    requires
        n <= lines@.len(),
    ensures
        r@.len() == n + 1,
        views(r@) == views(lines@).subrange(0, n as int).push(ellipsis()),
{
    let mut r: Vec<String> = Vec::new();
    let mut i: usize = 0;
    while i < n
        invariant
            i <= n <= lines@.len(),
            r@.len() == i,
            views(r@) == views(lines@).subrange(0, i as int),
        decreases n - i,
    {
        let ghost before = r@;
        r.push(lines[i].clone());
        assert forall|j: int| 0 <= j <= i implies #[trigger] views(r@)[j] == views(lines@)[j] by {
            if j < i {
                assert(views(before)[j] == views(lines@).subrange(0, i as int)[j]);
            }
        }
        i = i + 1;
        assert(views(r@) =~= views(lines@).subrange(0, i as int));
    }
    let ghost before = r@;
    r.push(ellipsis_string());
    assert forall|j: int| 0 <= j < n implies #[trigger] views(r@)[j] == views(lines@)[j] by {
        assert(views(before)[j] == views(lines@).subrange(0, n as int)[j]);
    }
    assert(views(r@) =~= views(lines@).subrange(0, n as int).push(ellipsis()));
    r
}

/// Shows `lines`, one per row, centred in a `term_w` by `term_h` terminal
/// inside its one-cell border. Too many lines are cut to their first half
/// and an ellipsis line, as often as needed; too long a line is shortened
/// (see `centre_line`).
pub fn centre_text(term_w: usize, term_h: usize, lines: &Vec<String>) -> (r: Vec<Placed>)
    ensures
        ({
            let kept = fit_lines(term_h as int, views(lines@));
            placed_views(r@) == place_lines(term_w as int, text_top(term_h as int, kept.len() as int), kept)
        }),
{
    let mut cur: Vec<String> = first_lines(lines, lines.len());
    cur.pop();
    assert(views(cur@) =~= views(lines@)) by {
        assert(cur@.len() == lines@.len());
        assert forall|j: int| 0 <= j < cur@.len() implies #[trigger] views(cur@)[j] == views(lines@)[j] by {
            assert(views(cur@)[j] == views(lines@).subrange(0, lines@.len() as int).push(ellipsis())[j]);
        }
    }
    loop
        invariant
            fit_lines(term_h as int, views(cur@)) == fit_lines(term_h as int, views(lines@)),
        ensures
            fit_lines(term_h as int, views(cur@)) == fit_lines(term_h as int, views(lines@)),
            fit_lines(term_h as int, views(cur@)) == views(cur@),
        decreases cur@.len(),
    {
        let h = cur.len();
        if term_h >= 2 && h <= term_h - 2 {
            break;
        } else if h > 2 {
            cur = first_lines(&cur, (h - 1) / 2);
        } else if h > 1 {
            let mut one: Vec<String> = Vec::new();
            one.push(ellipsis_string());
            assert(views(one@) =~= seq![ellipsis()]);
            cur = one;
        } else {
            cur = Vec::new();
            assert(views(cur@) =~= Seq::<Seq<char>>::empty());
            assert(fit_lines(term_h as int, views(cur@)) == Seq::<Seq<char>>::empty());
            break;
        }
    }
    let h = cur.len();
    let top: usize = if term_h >= 2 && h <= term_h - 2 {
        (term_h - 2 - h + 1) / 2 + 1
    } else {
        0
    };
    assert(fit_lines(term_h as int, views(cur@)) == views(cur@));
    let mut out: Vec<Placed> = Vec::new();
    let mut i: usize = 0;
    while i < h
        invariant
            i <= h == cur@.len(),
            top == text_top(term_h as int, h as int),
            top <= term_h,
            placed_views(out@) == place_lines(term_w as int, top as int, views(cur@).subrange(0, i as int)),
        decreases h - i,
    {
        assert(views(cur@).subrange(0, i + 1).drop_last() =~= views(cur@).subrange(0, i as int));
        match centre_line(term_w, cur[i].as_str()) {
            Some((x, text)) => {
                out.push(Placed { x, y: top + i, text });
            },
            None => {},
        }
        i = i + 1;
        assert(placed_views(out@) =~= place_lines(term_w as int, top as int, views(cur@).subrange(0, i as int)));
    }
    assert(views(cur@).subrange(0, h as int) =~= views(cur@));
    out
}

/// `n` copies of `c`.
pub open spec fn repeated(c: char, n: nat) -> Seq<char> {
    Seq::new(n, |i: int| c)
}

fn repeat_char(c: char, n: usize) -> (r: String)
    ensures
        r@ == repeated(c, n as nat),
{
    let mut s = String::new();
    let mut i: usize = 0;
    while i < n
        invariant
            i <= n,
            s@ == repeated(c, i as nat),
        decreases n - i,
    {
        push_char(&mut s, c);
        i = i + 1;
        assert(s@ =~= repeated(c, i as nat));
    }
    s
}

/// The vertical edges of a box at column `x`, `w` wide, for its rows
/// `y + 1` to `y + n`.
pub open spec fn box_sides(x: int, y: int, w: int, n: nat) -> Seq<(usize, usize, Seq<char>)>
    decreases n,
{
    if n == 0 {
        Seq::empty()
    } else {
        box_sides(x, y, w, (n - 1) as nat).push((x as usize, (y + n) as usize, seq!['│'])).push(
            ((x + w - 1) as usize, (y + n) as usize, seq!['│']),
        )
    }
}

/// The outline of a `w` by `h` box with its top left corner at (`x`, `y`):
/// top and bottom edges, then the sides row by row, then the corners.
/// Nothing for a box narrower or lower than two cells.
pub open spec fn box_spec(x: int, y: int, w: int, h: int) -> Seq<(usize, usize, Seq<char>)> {
    if w < 2 || h < 2 {
        Seq::empty()
    } else {
        let edge = repeated('─', (w - 2) as nat);
        seq![((x + 1) as usize, y as usize, edge), ((x + 1) as usize, (y + h - 1) as usize, edge)] + box_sides(
            x,
            y,
            w,
            (h - 2) as nat,
        ) + seq![
            (x as usize, y as usize, seq!['┌']),
            (x as usize, (y + h - 1) as usize, seq!['└']),
            ((x + w - 1) as usize, y as usize, seq!['┐']),
            ((x + w - 1) as usize, (y + h - 1) as usize, seq!['┘']),
        ]
    }
}

fn one_char(c: char) -> (r: String)
    ensures
        r@ == seq![c],
{
    let mut s = String::new();
    push_char(&mut s, c);
    assert(s@ =~= seq![c]);
    s
}

/// The pieces that draw the outline of a `w` by `h` box whose top left
/// corner is at (`x`, `y`).
pub fn box_outline(x: usize, y: usize, w: usize, h: usize) -> (r: Vec<Placed>)
    requires
        x + w <= usize::MAX,
        y + h <= usize::MAX,
    ensures
        placed_views(r@) == box_spec(x as int, y as int, w as int, h as int),
{
    let mut out: Vec<Placed> = Vec::new();
    if w < 2 || h < 2 {
        assert(placed_views(out@) =~= Seq::<(usize, usize, Seq<char>)>::empty());
        return out;
    }
    out.push(Placed { x: x + 1, y, text: repeat_char('─', w - 2) });
    out.push(Placed { x: x + 1, y: y + h - 1, text: repeat_char('─', w - 2) });
    let ghost edges = placed_views(out@);
    assert(edges =~= seq![
        ((x + 1) as usize, y as usize, repeated('─', (w - 2) as nat)),
        ((x + 1) as usize, (y + h - 1) as usize, repeated('─', (w - 2) as nat)),
    ]);
    let mut i: usize = 1;
    while i < h - 1
        invariant
            1 <= i <= h - 1,
            h >= 2,
            w >= 2,
            x + w <= usize::MAX,
            y + h <= usize::MAX,
            placed_views(out@) == edges + box_sides(x as int, y as int, w as int, (i - 1) as nat),
        decreases h - 1 - i,
    {
        let ghost before = placed_views(out@);
        out.push(Placed { x, y: y + i, text: one_char('│') });
        out.push(Placed { x: x + w - 1, y: y + i, text: one_char('│') });
        assert(placed_views(out@) =~= before.push((x, (y + i) as usize, seq!['│'])).push(
            ((x + w - 1) as usize, (y + i) as usize, seq!['│']),
        ));
        assert(box_sides(x as int, y as int, w as int, i as nat) == box_sides(
            x as int,
            y as int,
            w as int,
            (i - 1) as nat,
        ).push((x, (y + i) as usize, seq!['│'])).push(((x + w - 1) as usize, (y + i) as usize, seq!['│'])));
        i = i + 1;
        assert(placed_views(out@) =~= edges + box_sides(x as int, y as int, w as int, (i - 1) as nat));
    }
    let ghost body = placed_views(out@);
    out.push(Placed { x, y, text: one_char('┌') });
    out.push(Placed { x, y: y + h - 1, text: one_char('└') });
    out.push(Placed { x: x + w - 1, y, text: one_char('┐') });
    out.push(Placed { x: x + w - 1, y: y + h - 1, text: one_char('┘') });
    assert(placed_views(out@) =~= box_spec(x as int, y as int, w as int, h as int));
    out
}

} // verus!
