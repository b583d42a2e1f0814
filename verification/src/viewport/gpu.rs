//! Integer bookkeeping of the renderer: element flags packed for the GPU,
//! and the element kind an ID pick pass draws.

use vstd::prelude::*;

use crate::viewport::request::PickMode;

verus! {

pub const FLAG_SELECTED: u8 = 1;

pub const FLAG_ACTIVE: u8 = 2;

pub const FLAG_HIDDEN: u8 = 4;

/// The flag byte of one mesh element.
pub open spec fn element_flag_spec(selected: bool, hidden: bool, active: bool) -> u8 {
    ((if selected { 1u8 } else { 0u8 }) | (if active { 2u8 } else { 0u8 }) | (if hidden { 4u8 } else { 0u8 })) as u8
}

/// The flag byte of one mesh element: selected, active and hidden bits.
pub fn element_flag(selected: bool, hidden: bool, active: bool) -> (r: u8)
    ensures
        r == element_flag_spec(selected, hidden, active),
        (r & FLAG_SELECTED != 0) == selected,
        (r & FLAG_ACTIVE != 0) == active,
        (r & FLAG_HIDDEN != 0) == hidden,
{
    let s: u8 = if selected { FLAG_SELECTED } else { 0 };
    let a: u8 = if active { FLAG_ACTIVE } else { 0 };
    let h: u8 = if hidden { FLAG_HIDDEN } else { 0 };
    let r = s | a | h;
    assert((s == 0 || s == 1) && (a == 0 || a == 2) && (h == 0 || h == 4) ==> {
        &&& ((s | a | h) & 1 != 0) == (s == 1)
        &&& ((s | a | h) & 2 != 0) == (a == 2)
        &&& ((s | a | h) & 4 != 0) == (h == 4)
    }) by (bit_vector);
    r
}

/// Which element kind an ID pass draws for a pick mode.
pub open spec fn wanted_kind_spec(mode: PickMode) -> u32 {
    match mode {
        PickMode::Object => 0,
        PickMode::Face => 1,
        PickMode::Edge => 2,
        PickMode::Vertex => 3,
    }
}

pub fn wanted_kind(mode: PickMode) -> (r: u32)
    ensures
        r == wanted_kind_spec(mode),
{
    match mode {
        PickMode::Object => 0,
        PickMode::Face => 1,
        PickMode::Edge => 2,
        PickMode::Vertex => 3,
    }
}

/// Element `i` of `flags`, or 0 past the end.
pub open spec fn byte_or_zero(flags: Seq<u8>, i: int) -> int {
    if 0 <= i < flags.len() {
        flags[i] as int
    } else {
        0
    }
}

/// How many words `pack` makes of `n` bytes: four bytes a word, at least
/// one word.
pub open spec fn packed_len(n: nat) -> nat {
    if n == 0 {
        1
    } else {
        ((n + 3) / 4) as nat
    }
}

/// Word `w` of the packed flags: elements `4w` to `4w + 3`, the first in
/// the lowest byte.
pub open spec fn packed_word(flags: Seq<u8>, w: int) -> int {
    byte_or_zero(flags, 4 * w) + byte_or_zero(flags, 4 * w + 1) * 0x100 + byte_or_zero(flags, 4 * w + 2) * 0x1_0000
        + byte_or_zero(flags, 4 * w + 3) * 0x100_0000
}

/// Element `base + k` of `flags`, or 0 past the end.
fn byte_at(flags: &[u8], base: usize, k: usize) -> (r: u8)
    requires
        base <= flags@.len(),
    ensures
        r == byte_or_zero(flags@, base + k),
{
    if k < flags.len() - base {
        flags[base + k]
    } else {
        0
    }
}

/// Pack one byte per element into words.
pub fn pack(flags: &[u8]) -> (out: Vec<u32>)
    ensures
        out@.len() == packed_len(flags@.len()),
        forall|w: int| 0 <= w < out@.len() ==> out@[w] == packed_word(flags@, w),
{
    let n = flags.len();
    let words: usize = if n == 0 {
        1
    } else {
        n / 4 + if n % 4 == 0 { 0 } else { 1 }
    };
    let mut out: Vec<u32> = Vec::new();
    let mut w: usize = 0;
    while w < words
        invariant
            n == flags@.len(),
            words == packed_len(n as nat),
            w <= words,
            out@.len() == w,
            forall|k: int| 0 <= k < w ==> out@[k] == packed_word(flags@, k),
        decreases words - w,
    {
        assert(4 * w <= n) by (nonlinear_arith)
            requires
                w < words,
                n == 0 ==> words == 1,
                n > 0 ==> words == (n + 3) / 4,
        ;
        let base = 4 * w;
        let b0 = byte_at(flags, base, 0);
        let b1 = byte_at(flags, base, 1);
        let b2 = byte_at(flags, base, 2);
        let b3 = byte_at(flags, base, 3);
        let word: u32 = (b0 as u32) | ((b1 as u32) << 8u32) | ((b2 as u32) << 16u32) | ((b3 as u32) << 24u32);
        assert(word == b0 + b1 * 0x100 + b2 * 0x1_0000 + b3 * 0x100_0000) by (bit_vector)
            requires
                word == (b0 as u32) | ((b1 as u32) << 8u32) | ((b2 as u32) << 16u32) | ((b3 as u32) << 24u32),
        ;
        out.push(word);
        w = w + 1;
    }
    out
}

/// Each element's flag byte can be read back from its word.
pub proof fn law_pack_byte(flags: Seq<u8>, out: Seq<u32>, i: int)
    requires
        out.len() == packed_len(flags.len()),
        forall|w: int| 0 <= w < out.len() ==> out[w] == packed_word(flags, w),
        0 <= i < flags.len(),
    ensures
        (out[i / 4] >> (8 * (i % 4)) as u32) & 0xff == flags[i],
{
    let w = i / 4;
    assert(0 <= w < out.len()) by {
        assert(flags.len() > 0);
    }
    let k = i % 4;
    let word = out[w];
    let b0 = byte_or_zero(flags, 4 * w) as u8;
    let b1 = byte_or_zero(flags, 4 * w + 1) as u8;
    let b2 = byte_or_zero(flags, 4 * w + 2) as u8;
    let b3 = byte_or_zero(flags, 4 * w + 3) as u8;
    assert(word == b0 + b1 * 0x100 + b2 * 0x1_0000 + b3 * 0x100_0000);
    assert((word >> 0u32) & 0xff == b0 && (word >> 8u32) & 0xff == b1 && (word >> 16u32) & 0xff == b2 && (word >> 24u32) & 0xff == b3) by (bit_vector)
        requires
            word == b0 + b1 * 0x100 + b2 * 0x1_0000 + b3 * 0x100_0000,
    ;
    assert(i == 4 * w + k);
    if k == 0 {
        assert(flags[i] == b0);
    } else if k == 1 {
        assert(flags[i] == b1);
    } else if k == 2 {
        assert(flags[i] == b2);
    } else {
        assert(flags[i] == b3);
    }
}

} // verus!
