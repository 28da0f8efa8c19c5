//! ASCII to scancodes.
//!
//! Only keys that need no shift are covered: lower case letters, digits, and a few
//! others. That is enough for the bootstrap script, and no lock or shift state has
//! to be tracked.

use vstd::prelude::*;

verus! {

/// The Set 2 scancode of an ASCII character, or 0 if it has none.
pub open spec fn set2_code(c: u8) -> u8 {
    match c {
        0x61 => 0x1C,  // a
        0x62 => 0x32,  // b
        0x63 => 0x21,  // c
        0x64 => 0x23,  // d
        0x65 => 0x24,  // e
        0x66 => 0x2B,  // f
        0x67 => 0x34,  // g
        0x68 => 0x33,  // h
        0x69 => 0x43,  // i
        0x6A => 0x3B,  // j
        0x6B => 0x42,  // k
        0x6C => 0x4B,  // l
        0x6D => 0x3A,  // m
        0x6E => 0x31,  // n
        0x6F => 0x44,  // o
        0x70 => 0x4D,  // p
        0x71 => 0x15,  // q
        0x72 => 0x2D,  // r
        0x73 => 0x1B,  // s
        0x74 => 0x2C,  // t
        0x75 => 0x3C,  // u
        0x76 => 0x2A,  // v
        0x77 => 0x1D,  // w
        0x78 => 0x22,  // x
        0x79 => 0x35,  // y
        0x7A => 0x1A,  // z
        0x30 => 0x45,  // 0
        0x31 => 0x16,  // 1
        0x32 => 0x1E,  // 2
        0x33 => 0x26,  // 3
        0x34 => 0x25,  // 4
        0x35 => 0x2E,  // 5
        0x36 => 0x36,  // 6
        0x37 => 0x3D,  // 7
        0x38 => 0x3E,  // 8
        0x39 => 0x46,  // 9
        0x20 => 0x29,  // space
        0x0D => 0x5A,  // return
        0x09 => 0x0D,  // tab
        0x08 => 0x66,  // backspace
        0x2D => 0x4E,  // -
        0x3D => 0x55,  // =
        0x5B => 0x54,  // [
        0x5D => 0x5B,  // ]
        0x3B => 0x4C,  // ;
        0x27 => 0x52,  // '
        0x2C => 0x41,  // ,
        0x2E => 0x49,  // .
        0x2F => 0x4A,  // /
        0x60 => 0x0E,  // `
        0x5C => 0x5D,  // \
        _ => 0,
    }
}

/// The ASCII character of a Set 2 scancode, or 0 if there is none.
pub open spec fn set2_char(code: u8) -> u8 {
    match code {
        0x1C => 0x61,
        0x32 => 0x62,
        0x21 => 0x63,
        0x23 => 0x64,
        0x24 => 0x65,
        0x2B => 0x66,
        0x34 => 0x67,
        0x33 => 0x68,
        0x43 => 0x69,
        0x3B => 0x6A,
        0x42 => 0x6B,
        0x4B => 0x6C,
        0x3A => 0x6D,
        0x31 => 0x6E,
        0x44 => 0x6F,
        0x4D => 0x70,
        0x15 => 0x71,
        0x2D => 0x72,
        0x1B => 0x73,
        0x2C => 0x74,
        0x3C => 0x75,
        0x2A => 0x76,
        0x1D => 0x77,
        0x22 => 0x78,
        0x35 => 0x79,
        0x1A => 0x7A,
        0x45 => 0x30,
        0x16 => 0x31,
        0x1E => 0x32,
        0x26 => 0x33,
        0x25 => 0x34,
        0x2E => 0x35,
        0x36 => 0x36,
        0x3D => 0x37,
        0x3E => 0x38,
        0x46 => 0x39,
        0x29 => 0x20,
        0x5A => 0x0D,
        0x0D => 0x09,
        0x66 => 0x08,
        0x4E => 0x2D,
        0x55 => 0x3D,
        0x54 => 0x5B,
        0x5B => 0x5D,
        0x4C => 0x3B,
        0x52 => 0x27,
        0x41 => 0x2C,
        0x49 => 0x2E,
        0x4A => 0x2F,
        0x0E => 0x60,
        0x5D => 0x5C,
        _ => 0,
    }
}

/// A character that has a scancode can be told from its scancode.
pub proof fn law_scancodes_differ(c: u8)
    ensures
        set2_code(c) != 0 ==> set2_char(set2_code(c)) == c && c < 128 && set2_code(c) < 0x80,
{
}

/// The Set 2 scancode of an ASCII character, or 0 if it has none.
pub fn ascii_to_set2(c: u8) -> (r: u8)
    requires
        c < 128,
    ensures
        r == set2_code(c),
{
    match c {
        0x61 => 0x1C,  // a
        0x62 => 0x32,  // b
        0x63 => 0x21,  // c
        0x64 => 0x23,  // d
        0x65 => 0x24,  // e
        0x66 => 0x2B,  // f
        0x67 => 0x34,  // g
        0x68 => 0x33,  // h
        0x69 => 0x43,  // i
        0x6A => 0x3B,  // j
        0x6B => 0x42,  // k
        0x6C => 0x4B,  // l
        0x6D => 0x3A,  // m
        0x6E => 0x31,  // n
        0x6F => 0x44,  // o
        0x70 => 0x4D,  // p
        0x71 => 0x15,  // q
        0x72 => 0x2D,  // r
        0x73 => 0x1B,  // s
        0x74 => 0x2C,  // t
        0x75 => 0x3C,  // u
        0x76 => 0x2A,  // v
        0x77 => 0x1D,  // w
        0x78 => 0x22,  // x
        0x79 => 0x35,  // y
        0x7A => 0x1A,  // z
        0x30 => 0x45,  // 0
        0x31 => 0x16,  // 1
        0x32 => 0x1E,  // 2
        0x33 => 0x26,  // 3
        0x34 => 0x25,  // 4
        0x35 => 0x2E,  // 5
        0x36 => 0x36,  // 6
        0x37 => 0x3D,  // 7
        0x38 => 0x3E,  // 8
        0x39 => 0x46,  // 9
        0x20 => 0x29,  // space
        0x0D => 0x5A,  // return
        0x09 => 0x0D,  // tab
        0x08 => 0x66,  // backspace
        0x2D => 0x4E,  // -
        0x3D => 0x55,  // =
        0x5B => 0x54,  // [
        0x5D => 0x5B,  // ]
        0x3B => 0x4C,  // ;
        0x27 => 0x52,  // '
        0x2C => 0x41,  // ,
        0x2E => 0x49,  // .
        0x2F => 0x4A,  // /
        0x60 => 0x0E,  // `
        0x5C => 0x5D,  // \
        _ => 0,
    }
}

/// The scancodes of all ASCII characters.
pub fn build_table() -> (r: [u8; 128])
    ensures
        forall|c: u8| c < 128 ==> #[trigger] r@[c as int] == set2_code(c),
{
    let mut t: [u8; 128] = [0;128];
    let mut c: u8 = 0;
    while c < 128
        invariant
            c <= 128,
            t@.len() == 128,
            forall|k: u8| k < c ==> #[trigger] t@[k as int] == set2_code(k),
        decreases 128 - c,
    {
        t[c as usize] = ascii_to_set2(c);
        c = c + 1;
    }
    t
}

/// The keys have the codes of the standard Set 2 keyboard, row by row and key by key, and
/// the table holds the same codes. No other character has one.
pub proof fn law_codes_of_the_keyboard(c: u8, code: u8, table: [u8; 128])
    requires
        c < 128,
        call_ensures(ascii_to_set2, (c,), code),
        call_ensures(build_table, (), table),
    ensures
        table@[c as int] == code,
        // The top row: ` 1 2 3 4 5 6 7 8 9 0 - = and backspace.
        c == 0x60 ==> code == 0x0E,
        c == 0x31 ==> code == 0x16,
        c == 0x32 ==> code == 0x1E,
        c == 0x33 ==> code == 0x26,
        c == 0x34 ==> code == 0x25,
        c == 0x35 ==> code == 0x2E,
        c == 0x36 ==> code == 0x36,
        c == 0x37 ==> code == 0x3D,
        c == 0x38 ==> code == 0x3E,
        c == 0x39 ==> code == 0x46,
        c == 0x30 ==> code == 0x45,
        c == 0x2D ==> code == 0x4E,
        c == 0x3D ==> code == 0x55,
        c == 0x08 ==> code == 0x66,
        // Tab, q w e r t y u i o p [ ] and the backslash.
        c == 0x09 ==> code == 0x0D,
        c == 0x71 ==> code == 0x15,
        c == 0x77 ==> code == 0x1D,
        c == 0x65 ==> code == 0x24,
        c == 0x72 ==> code == 0x2D,
        c == 0x74 ==> code == 0x2C,
        c == 0x79 ==> code == 0x35,
        c == 0x75 ==> code == 0x3C,
        c == 0x69 ==> code == 0x43,
        c == 0x6F ==> code == 0x44,
        c == 0x70 ==> code == 0x4D,
        c == 0x5B ==> code == 0x54,
        c == 0x5D ==> code == 0x5B,
        c == 0x5C ==> code == 0x5D,
        // a s d f g h j k l ; ' and return.
        c == 0x61 ==> code == 0x1C,
        c == 0x73 ==> code == 0x1B,
        c == 0x64 ==> code == 0x23,
        c == 0x66 ==> code == 0x2B,
        c == 0x67 ==> code == 0x34,
        c == 0x68 ==> code == 0x33,
        c == 0x6A ==> code == 0x3B,
        c == 0x6B ==> code == 0x42,
        c == 0x6C ==> code == 0x4B,
        c == 0x3B ==> code == 0x4C,
        c == 0x27 ==> code == 0x52,
        c == 0x0D ==> code == 0x5A,
        // z x c v b n m , . / and the space bar.
        c == 0x7A ==> code == 0x1A,
        c == 0x78 ==> code == 0x22,
        c == 0x63 ==> code == 0x21,
        c == 0x76 ==> code == 0x2A,
        c == 0x62 ==> code == 0x32,
        c == 0x6E ==> code == 0x31,
        c == 0x6D ==> code == 0x3A,
        c == 0x2C ==> code == 0x41,
        c == 0x2E ==> code == 0x49,
        c == 0x2F ==> code == 0x4A,
        c == 0x20 ==> code == 0x29,
        // Letters, digits and these, and nothing else.
        code != 0 <==> 0x61 <= c <= 0x7A || 0x30 <= c <= 0x39 || c == 0x60 || c == 0x2D || c == 0x3D
            || c == 0x08 || c == 0x09 || 0x5B <= c <= 0x5D || c == 0x3B || c == 0x27 || c == 0x0D
            || c == 0x2C || c == 0x2E || c == 0x2F || c == 0x20,
{
}

} // verus!
