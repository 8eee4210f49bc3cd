//! The layout of the hexadecimal keypad on a QWERTY keyboard.
//!
//! ```text
//! QWERTY KEYBOARD     HEX KEYBOARD
//!     1 2 3 4           1 2 3 F
//!     q w e r           4 5 6 E
//!     a s d f           7 8 9 D
//!     z x c v           A 0 B C
//! ```

use vstd::prelude::*;

verus! {

/// The character of each hex key, indexed by the key.
pub open spec fn key_map() -> Seq<char> {
    seq!['x', '1', '2', '3', 'q', 'w', 'e', 'a', 's', 'd', 'z', 'c', 'v', 'f', 'r', '4']
}

fn key_map_text() -> (r: &'static str)
    ensures
        r@ == key_map(),
{
    proof {
        reveal_strlit("x123qweasdzcvfr4");
    }
    "x123qweasdzcvfr4"
}

/// `Some(x)` when `pred` holds, else `None`.
pub fn select<T>(pred: bool, x: T) -> (r: Option<T>)
    ensures
        r == (if pred {
            Some(x)
        } else {
            None
        }),
{
    if pred {
        Some(x)
    } else {
        None
    }
}

/// The hex key that the keyboard character `ch` stands for, if any.
pub fn key_from_char(ch: char) -> (r: Option<usize>)
    ensures
        match r {
            Some(k) => k < 16 && key_map()[k as int] == ch && forall|j: int|
                0 <= j < k ==> key_map()[j] != ch,
            None => forall|j: int| 0 <= j < 16 ==> key_map()[j] != ch,
        },
{
    let map = key_map_text();
    let mut i: usize = 0;
    while i < 16
        invariant
            i <= 16,
            map@ == key_map(),
            forall|j: int| 0 <= j < i ==> key_map()[j] != ch,
        decreases 16 - i,
    {
        let found = select(map.get_char(i) == ch, i);
        if found.is_some() {
            return found;
        }
        i = i + 1;
    }
    None
}

} // verus!
