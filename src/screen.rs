//! A monochrome frame buffer with XOR sprite drawing that wraps around its
//! edges, and the state of the sixteen keys during one frame.

use crate::keymap::{key_from_char, key_map};
use crate::modulo::Modulo;
use vstd::prelude::*;

verus! {

/// The index of the pixel at (`x`, `y`), both wrapped onto a `w` by `h`
/// screen.
pub open spec fn pixel_index(w: int, h: int, x: int, y: int) -> int {
    (y % h) * w + (x % w)
}

/// Whether bit `i` (0 is the least significant) of `row` is set.
pub open spec fn sprite_bit(row: u8, i: u8) -> bool {
    row & (1u8 << i) != 0
}

/// Flips the pixels of the first `c` columns of a sprite row drawn at
/// (`x`, `y`), the leftmost column being the row's most significant bit.
/// Returns the pixels and whether any of them went from set to clear.
pub open spec fn draw_row(px: Seq<bool>, w: int, h: int, x: int, y: int, row: u8, c: int) -> (Seq<bool>, bool)
    decreases c,
{
    if c <= 0 {
        (px, false)
    } else {
        let (p1, hit) = draw_row(px, w, h, x, y, row, c - 1);
        if sprite_bit(row, (8 - c) as u8) {
            let i = pixel_index(w, h, x + c - 1, y);
            (p1.update(i, !p1[i]), hit || p1[i])
        } else {
            (p1, hit)
        }
    }
}

/// Draws the rows `rows` from (`x`, `y`) down, one row per line. Returns
/// the pixels and whether any of them went from set to clear.
pub open spec fn draw_rows(px: Seq<bool>, w: int, h: int, x: int, y: int, rows: Seq<u8>) -> (Seq<bool>, bool)
    decreases rows.len(),
{
    if rows.len() == 0 {
        (px, false)
    } else {
        let n = rows.len() - 1;
        let (p1, hit1) = draw_rows(px, w, h, x, y, rows.drop_last());
        let (p2, hit2) = draw_row(p1, w, h, x, y + n, rows.last(), 8);
        (p2, hit1 || hit2)
    }
}

proof fn lemma_index_in_bounds(w: int, h: int, x: int, y: int)
    requires
        0 <= x < w,
        0 <= y < h,
    ensures
        0 <= y * w + x < w * h,
        w <= w * h,
        h <= w * h,
{
    assert(0 <= y * w + x < w * h && w <= w * h && h <= w * h) by (nonlinear_arith)
        requires
            0 <= x < w,
            0 <= y < h,
    ;
}

/// The pixels of a `width` by `height` screen, row by row.
pub struct FrameBuffer {
    width: usize,
    height: usize,
    pixels: Vec<bool>,
}

impl View for FrameBuffer {
    type V = Seq<bool>;

    closed spec fn view(&self) -> Seq<bool> {
        self.pixels@
    }
}

impl FrameBuffer {
    pub closed spec fn width_spec(&self) -> int {
        self.width as int
    }

    pub closed spec fn height_spec(&self) -> int {
        self.height as int
    }

    pub closed spec fn wf(&self) -> bool {
        &&& self.width * self.height <= isize::MAX
        &&& self.pixels@.len() == self.width * self.height
    }

    /// A clear screen of `width` by `height` pixels.
    pub fn new(width: usize, height: usize) -> (r: FrameBuffer)
        requires
            width * height <= isize::MAX,
        ensures
            r.wf(),
            r.width_spec() == width,
            r.height_spec() == height,
            r@ == Seq::new((width * height) as nat, |i: int| false),
    {
        let n = width * height;
        let mut pixels: Vec<bool> = Vec::new();
        let mut k: usize = 0;
        while k < n
            invariant
                k <= n == width * height,
                pixels@ == Seq::new(k as nat, |i: int| false),
            decreases n - k,
        {
            pixels.push(false);
            k = k + 1;
        }
        FrameBuffer { width, height, pixels }
    }

    pub fn width(&self) -> (r: usize)
        ensures
            r == self.width_spec(),
    {
        self.width
    }

    pub fn height(&self) -> (r: usize)
        ensures
            r == self.height_spec(),
    {
        self.height
    }

    /// Whether the pixel at column `x` of row `y` is set.
    pub fn pixel(&self, x: usize, y: usize) -> (r: bool)
        requires
            self.wf(),
            x < self.width_spec(),
            y < self.height_spec(),
        ensures
            r == self@[y * self.width_spec() + x],
    {
        proof {
            lemma_index_in_bounds(self.width as int, self.height as int, x as int, y as int);
        }
        self.pixels[y * self.width + x]
    }

    /// Clears every pixel.
    pub fn clear(&mut self)
        requires
            old(self).wf(),
        ensures
            final(self).wf(),
            final(self).width_spec() == old(self).width_spec(),
            final(self).height_spec() == old(self).height_spec(),
            final(self)@ == Seq::new(old(self)@.len(), |i: int| false),
    {
        let n = self.pixels.len();
        let mut k: usize = 0;
        while k < n
            invariant
                k <= n == self.pixels@.len(),
                self.wf(),
                self.width == old(self).width,
                self.height == old(self).height,
                forall|i: int| 0 <= i < k ==> !self.pixels@[i],
            decreases n - k,
        {
            self.pixels.set(k, false);
            k = k + 1;
        }
        assert(self.pixels@ =~= Seq::new(old(self)@.len(), |i: int| false));
    }

    /// Flips the pixel at (`x`, `y`), both wrapped onto the screen.
    /// Returns the pixel's new value.
    pub fn flip(&mut self, x: isize, y: isize) -> (r: bool)
        requires
            old(self).wf(),
            old(self).width_spec() > 0,
            old(self).height_spec() > 0,
        ensures
            final(self).wf(),
            final(self).width_spec() == old(self).width_spec(),
            final(self).height_spec() == old(self).height_spec(),
            ({
                let i = pixel_index(old(self).width_spec(), old(self).height_spec(), x as int, y as int);
                &&& final(self)@ == old(self)@.update(i, !old(self)@[i])
                &&& r == !old(self)@[i]
            }),
    {
        proof {
            lemma_index_in_bounds(self.width as int, self.height as int, 0, 0);
        }
        let xm = x.modulo(self.width as isize);
        let ym = y.modulo(self.height as isize);
        proof {
            lemma_index_in_bounds(self.width as int, self.height as int, xm as int, ym as int);
        }
        let i = self.width * ym + xm;
        let on = !self.pixels[i];
        self.pixels.set(i, on);
        on
    }

    /// Draws one sprite row at (`x`, `y`), its most significant bit
    /// leftmost. Returns whether any pixel went from set to clear.
    pub fn flip_sprite(&mut self, x: isize, y: isize, sprite: u8) -> (r: bool)
        requires
            old(self).wf(),
            old(self).width_spec() > 0,
            old(self).height_spec() > 0,
            x + 8 <= isize::MAX,
        ensures
            final(self).wf(),
            final(self).width_spec() == old(self).width_spec(),
            final(self).height_spec() == old(self).height_spec(),
            (final(self)@, r) == draw_row(
                old(self)@,
                old(self).width_spec(),
                old(self).height_spec(),
                x as int,
                y as int,
                sprite,
                8,
            ),
    {
        let ghost (w, h) = (self.width_spec(), self.height_spec());
        let mut flip_to_false = false;
        let mut c: usize = 0;
        while c < 8
            invariant
                c <= 8,
                x + 8 <= isize::MAX,
                self.wf(),
                self.width_spec() == w,
                self.height_spec() == h,
                w > 0,
                h > 0,
                (self@, flip_to_false) == draw_row(old(self)@, w, h, x as int, y as int, sprite, c as int),
            decreases 8 - c,
        {
            let i: u8 = 7 - c as u8;
            if sprite & (1u8 << i) != 0 {
                if self.flip(x + c as isize, y) == false {
                    flip_to_false = true;
                }
            }
            c = c + 1;
        }
        flip_to_false
    }

    /// Draws `sprites` from (`x`, `y`) down, one byte per row, flipping
    /// pixels and wrapping around the edges. Returns whether any pixel went
    /// from set to clear.
    pub fn flip_sprites(&mut self, x: isize, y: isize, sprites: &[u8]) -> (r: bool)
        requires
            old(self).wf(),
            old(self).width_spec() > 0,
            old(self).height_spec() > 0,
            x + 8 <= isize::MAX,
            y + sprites@.len() <= isize::MAX,
        ensures
            final(self).wf(),
            final(self).width_spec() == old(self).width_spec(),
            final(self).height_spec() == old(self).height_spec(),
            (final(self)@, r) == draw_rows(
                old(self)@,
                old(self).width_spec(),
                old(self).height_spec(),
                x as int,
                y as int,
                sprites@,
            ),
    {
        let ghost (w, h) = (self.width_spec(), self.height_spec());
        let mut flip_to_false = false;
        let mut k: usize = 0;
        let mut row_y: isize = y;
        while k < sprites.len()
            invariant
                k <= sprites@.len(),
                row_y == y + k,
                x + 8 <= isize::MAX,
                y + sprites@.len() <= isize::MAX,
                self.wf(),
                self.width_spec() == w,
                self.height_spec() == h,
                w > 0,
                h > 0,
                (self@, flip_to_false) == draw_rows(
                    old(self)@,
                    w,
                    h,
                    x as int,
                    y as int,
                    sprites@.subrange(0, k as int),
                ),
            decreases sprites@.len() - k,
        {
            assert(sprites@.subrange(0, k + 1).drop_last() =~= sprites@.subrange(0, k as int));
            let hit = self.flip_sprite(x, row_y, sprites[k]);
            flip_to_false = hit || flip_to_false;
            k = k + 1;
            row_y = row_y + 1;
        }
        assert(sprites@.subrange(0, sprites@.len() as int) =~= sprites@);
        flip_to_false
    }
}

/// A key event from the host, as far as the chip cares.
#[derive(Clone, Copy, Debug, PartialEq, Eq)]
pub enum Key {
    /// Escape: a quit request.
    Esc,
    /// A character key.
    Char(char),
    /// Any other key, or an event that is no key.
    Other,
}

/// What a blocking key wait makes of the event `key`: `Some(None)` ends the
/// wait with a quit request, `Some(Some(k))` ends it with hex key `k`, and
/// `None` goes on waiting.
pub fn awaited_key(key: Key) -> (r: Option<Option<u8>>)
    ensures
        match key {
            Key::Esc => r == Some(None::<u8>),
            Key::Char(ch) => match r {
                Some(Some(k)) => k < 16 && key_map()[k as int] == ch && forall|j: int|
                    0 <= j < k ==> key_map()[j] != ch,
                Some(None) => false,
                None => forall|j: int| 0 <= j < 16 ==> key_map()[j] != ch,
            },
            Key::Other => r is None,
        },
{
    match key {
        Key::Esc => Some(None),
        Key::Char(ch) => match key_from_char(ch) {
            Some(k) => Some(Some(k as u8)),
            None => None,
        },
        Key::Other => None,
    }
}

/// The first hex key whose character is `ch`, if any.
pub open spec fn key_first(ch: char) -> Option<int> {
    if exists|k: int| 0 <= k < 16 && key_map()[k] == ch {
        Some(choose|k: int| 0 <= k < 16 && key_map()[k] == ch && forall|j: int| 0 <= j < k ==> key_map()[j] != ch)
    } else {
        None
    }
}

proof fn lemma_key_first(ch: char, r: Option<usize>)
    requires
        match r {
            Some(k) => k < 16 && key_map()[k as int] == ch && forall|j: int| 0 <= j < k ==> key_map()[j] != ch,
            None => forall|j: int| 0 <= j < 16 ==> key_map()[j] != ch,
        },
    ensures
        match r {
            Some(k) => key_first(ch) == Some(k as int),
            None => key_first(ch) == None::<int>,
        },
{
    if let Some(k) = r {
        let c = choose|k: int| 0 <= k < 16 && key_map()[k] == ch && forall|j: int| 0 <= j < k ==> key_map()[j] != ch;
        assert(0 <= k < 16 && key_map()[k as int] == ch);
        if c < k {
            assert(key_map()[c] != ch);
        } else if c > k {
            assert(key_map()[k as int] != ch);
        }
    }
}

/// Which of the sixteen keys went down during the current frame.
pub struct KeyState {
    down: Vec<bool>,
}

impl View for KeyState {
    type V = Seq<bool>;

    closed spec fn view(&self) -> Seq<bool> {
        self.down@
    }
}

impl KeyState {
    /// No key down.
    pub fn new() -> (r: KeyState)
        ensures
            r@ == Seq::new(16, |k: int| false),
    {
        let mut down: Vec<bool> = Vec::new();
        let mut k: usize = 0;
        while k < 16
            invariant
                k <= 16,
                down@ == Seq::new(k as nat, |i: int| false),
            decreases 16 - k,
        {
            down.push(false);
            k = k + 1;
        }
        KeyState { down }
    }

    /// Forgets every key, as at the start of a frame.
    pub fn release_all(&mut self)
        ensures
            final(self)@ == Seq::new(16, |k: int| false),
    {
        *self = KeyState::new();
    }

    /// Whether key `which` went down; there is no key from 16 on.
    pub fn keydown(&self, which: usize) -> (r: bool)
        requires
            self@.len() == 16,
        ensures
            r == (which < 16 && self@[which as int]),
    {
        which < 16 && self.down[which]
    }

    /// Handles a key event during a frame: Escape is a quit request, and a
    /// character of a hex key records that key as down. Returns whether
    /// to quit.
    pub fn handle(&mut self, key: Key) -> (r: bool)
        requires
            old(self)@.len() == 16,
        ensures
            r == (key == Key::Esc),
            final(self)@.len() == 16,
            match key {
                Key::Char(ch) => match key_first(ch) {
                    Some(k) => final(self)@ == old(self)@.update(k, true),
                    None => final(self)@ == old(self)@,
                },
                _ => final(self)@ == old(self)@,
            },
    {
        match key {
            Key::Esc => true,
            Key::Char(ch) => {
                let k = self.press_char(ch);
                proof {
                    lemma_key_first(ch, k);
                }
                false
            },
            Key::Other => false,
        }
    }

    /// Records the key that the keyboard character `ch` stands for as down,
    /// and returns it; a character of no key changes nothing.
    pub fn press_char(&mut self, ch: char) -> (r: Option<usize>)
        requires
            old(self)@.len() == 16,
        ensures
            match r {
                Some(k) => k < 16 && key_map()[k as int] == ch && final(self)@ == old(self)@.update(
                    k as int,
                    true,
                ),
                None => final(self)@ == old(self)@ && forall|j: int| 0 <= j < 16 ==> key_map()[j] != ch,
            },
    {
        let k = key_from_char(ch);
        match k {
            Some(key) => self.down.set(key, true),
            None => {},
        }
        k
    }
}

} // verus!
