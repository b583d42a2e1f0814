//! DEFLATE (RFC 1951) inside a zlib wrapper (RFC 1950).
//!
//! The stream is read least significant bit first within each byte; Huffman
//! codes are matched most significant bit first, as RFC 1951 prescribes.

use vstd::arithmetic::div_mod::*;
use vstd::arithmetic::power2::*;
use vstd::prelude::*;

verus! {

// ---------------------------------------------------------------------------
// The bit stream
// ---------------------------------------------------------------------------

/// Bit `i` of the stream `d`: bit `i % 8` of byte `i / 8`.
pub open spec fn bit_at(d: Seq<u8>, i: int) -> nat {
    ((d[i / 8] >> ((i % 8) as u8)) & 1u8) as nat
}

/// The `n` bits from position `s`, first bit least significant.
pub open spec fn bits_val(d: Seq<u8>, s: int, n: nat) -> nat
    decreases n,
{
    if n == 0 {
        0
    } else {
        bit_at(d, s) + 2 * bits_val(d, s + 1, (n - 1) as nat)
    }
}

/// Reading `n` bits at `pos`: their value and the position after them, or
/// `None` when the stream ends first.
pub open spec fn read_bits(d: Seq<u8>, pos: int, n: nat) -> Option<(nat, int)> {
    if pos + n <= 8 * d.len() {
        Some((bits_val(d, pos, n), pos + n))
    } else {
        None
    }
}

/// The next byte boundary at or after `pos`.
pub open spec fn align_up(pos: int) -> int {
    if pos % 8 == 0 {
        pos
    } else {
        pos + 8 - pos % 8
    }
}

pub proof fn lemma_bits_val_bound(d: Seq<u8>, s: int, n: nat)
    ensures
        bits_val(d, s, n) < pow2(n),
    decreases n,
{
    if n > 0 {
        lemma_bits_val_bound(d, s + 1, (n - 1) as nat);
        lemma_pow2_unfold(n);
        assert(bit_at(d, s) <= 1) by {
            let b = d[s / 8];
            let k = (s % 8) as u8;
            assert(b >> k & 1u8 <= 1u8) by (bit_vector);
        }
    } else {
        lemma_pow2_pos(0);
    }
}

pub proof fn lemma_bits_val_split(d: Seq<u8>, s: int, a: nat, b: nat)
    ensures
        bits_val(d, s, a + b) == bits_val(d, s, a) + pow2(a) * bits_val(d, s + a, b),
    decreases a,
{
    if a == 0 {
        lemma2_to64();
    } else {
        lemma_bits_val_split(d, s + 1, (a - 1) as nat, b);
        lemma_pow2_unfold(a);
        assert((a + b - 1) as nat == (a - 1) as nat + b);
        let x = bits_val(d, s + 1, (a - 1) as nat);
        let y = bits_val(d, s + 1 + (a - 1), b);
        let p = pow2((a - 1) as nat);
        assert(2 * (x + p * y) == 2 * x + (2 * p) * y) by (nonlinear_arith);
    }
}

/// The eight bits of a byte, read from a byte boundary, are the byte.
pub proof fn lemma_bits_val_byte(d: Seq<u8>, q: int, k: nat)
    requires
        0 <= q < d.len(),
        k <= 8,
    ensures
        bits_val(d, 8 * q + k, (8 - k) as nat) == (d[q] >> (k as u8)) as nat,
    decreases 8 - k,
{
    let b = d[q];
    if k == 8 {
        assert(b >> 8u8 == 0u8) by (bit_vector);
    } else {
        lemma_bits_val_byte(d, q, k + 1);
        assert((8 * q + k) / 8 == q && (8 * q + k) % 8 == k) by (nonlinear_arith)
            requires
                0 <= k < 8,
        ;
        let kk = k as u8;
        assert(((b >> kk) & 1u8) + 2 * (b >> ((kk + 1) as u8)) == (b >> kk)) by (bit_vector)
            requires
                kk < 8,
        ;
        assert(8 * q + k + 1 == 8 * q + (k + 1));
        assert((k + 1) as u8 == ((kk + 1) as u8));
    }
}

proof fn lemma_pow2_le16(e: nat)
    requires
        e <= 16,
    ensures
        1 <= pow2(e) <= 0x10000,
{
    lemma2_to64();
    lemma_pow2_pos(e);
    if e < 16 {
        lemma_pow2_strictly_increases(e, 16);
    }
}

// ---------------------------------------------------------------------------
// The bit reader
// ---------------------------------------------------------------------------

pub struct BitReader<'a> {
    d: &'a [u8],
    pos: usize,
    bit: u32,
    acc: u32,
}

impl<'a> BitReader<'a> {
    /// The bytes being read.
    pub closed spec fn data(&self) -> Seq<u8> {
        self.d@
    }

    /// How many bits have been consumed so far.
    pub closed spec fn consumed(&self) -> int {
        self.pos * 8 - self.bit
    }

    /// The buffered bits are exactly the ones after `consumed()` up to the
    /// next unread byte.
    pub closed spec fn wf(&self) -> bool {
        &&& self.bit < 8
        &&& self.pos <= self.d@.len()
        &&& self.pos * 8 >= self.bit
        &&& self.acc == bits_val(self.d@, self.consumed(), self.bit as nat)
    }

    pub fn new(d: &'a [u8]) -> (r: Self)
        ensures
            r.wf(),
            r.data() == d@,
            r.consumed() == 0,
    {
        BitReader { d, pos: 0, bit: 0, acc: 0 }
    }

    /// The next `n` bits as a number, first bit least significant; `None`
    /// when the data ends first.
    pub fn bits(&mut self, n: u32) -> (r: Option<u32>)
        requires
            old(self).wf(),
            n <= 16,
        ensures
            final(self).data() == old(self).data(),
            final(self).consumed() >= old(self).consumed(),
            match read_bits(old(self).data(), old(self).consumed(), n as nat) {
                Some((v, p)) => r == Some(v as u32) && final(self).wf() && final(self).consumed() == p,
                None => r is None,
            },
    {
        let ghost c = self.consumed();
        let ghost d = self.d@;
        while self.bit < n
            invariant
                self.d@ == d,
                d == old(self).data(),
                c == old(self).consumed(),
                n <= 16,
                self.bit < n + 8,
                self.pos <= d.len(),
                self.pos * 8 >= self.bit,
                self.pos * 8 - self.bit == c,
                self.acc == bits_val(d, c, self.bit as nat),
            decreases d.len() - self.pos,
        {
            if self.pos >= self.d.len() {
                assert(self.data() == old(self).data());
                return None;
            }
            let byte = self.d[self.pos] as u32;
            proof {
                let bt = self.bit;
                let acc = self.acc;
                lemma_bits_val_bound(d, c, bt as nat);
                lemma_bits_val_split(d, c, bt as nat, 8);
                lemma_bits_val_byte(d, self.pos as int, 0);
                let bb = d[self.pos as int];
                assert(bb >> 0u8 == bb) by (bit_vector);
                assert(bits_val(d, c + bt, 8) == byte);
                lemma_pow2_le16(bt as nat);
                vstd::bits::lemma_u32_shl_is_mul(1u32, bt);
                assert(acc < (1u32 << bt));
                assert(acc < (1u32 << bt) && byte < 256 && bt < 16 ==> (acc | (byte << bt)) == acc + byte * (1u32 << bt)) by (bit_vector);
                assert((acc | (byte << bt)) == acc + byte * pow2(bt as nat));
                assert(byte * pow2(bt as nat) < 0x100_0000) by (nonlinear_arith)
                    requires byte < 256, pow2(bt as nat) <= 0x10000;
                assert(acc + byte * pow2(bt as nat) == bits_val(d, c, (bt + 8) as nat)) by (nonlinear_arith)
                    requires bits_val(d, c, (bt + 8) as nat) == bits_val(d, c, bt as nat) + pow2(bt as nat) * bits_val(d, c + bt, 8),
                        bits_val(d, c + bt, 8) == byte, acc == bits_val(d, c, bt as nat);
            }
            self.acc = self.acc | (byte << self.bit);
            self.pos = self.pos + 1;
            self.bit = self.bit + 8;
        }
        let ghost acc0 = self.acc;
        let ghost b0 = self.bit;
        proof {
            lemma_bits_val_split(d, c, n as nat, (b0 - n) as nat);
            lemma_bits_val_bound(d, c, n as nat);
            lemma_bits_val_bound(d, c + n, (b0 - n) as nat);
            lemma_pow2_le16(n as nat);
            vstd::bits::lemma_u32_shl_is_mul(1u32, n);
            let x = bits_val(d, c, n as nat);
            let y = bits_val(d, c + n, (b0 - n) as nat);
            let p = pow2(n as nat);
            lemma_pow2_pos(n as nat);
            vstd::bits::lemma_u32_low_bits_mask_is_mod(acc0, n as nat);
            vstd::bits::lemma_u32_shr_is_div(acc0, n);
            assert(acc0 == y * p + x) by (nonlinear_arith)
                requires acc0 == x + p * y;
            lemma_fundamental_div_mod_converse(acc0 as int, p as int, y as int, x as int);
        }
        let v = self.acc & ((1u32 << n) - 1);
        self.acc = self.acc >> n;
        self.bit = self.bit - n;
        Some(v)
    }

    /// Drop the rest of the current byte.
    pub fn align_byte(&mut self)
        requires
            old(self).wf(),
        ensures
            final(self).wf(),
            final(self).data() == old(self).data(),
            final(self).consumed() == align_up(old(self).consumed()),
    {
        proof {
            let p = self.pos as int;
            let b = self.bit as int;
            assert((p * 8 - b) % 8 == (if b == 0 { 0 } else { 8 - b })) by (nonlinear_arith)
                requires 0 <= b < 8, p * 8 >= b;
        }
        self.acc = 0;
        self.bit = 0;
    }
}


// ---------------------------------------------------------------------------
// Canonical Huffman codes (RFC 1951 §3.2.2)
// ---------------------------------------------------------------------------

/// The symbols whose code length is `l`, in increasing order.
pub open spec fn syms_of_len(lens: Seq<u8>, l: nat) -> Seq<nat>
    decreases lens.len(),
{
    if lens.len() == 0 {
        seq![]
    } else {
        let p = syms_of_len(lens.drop_last(), l);
        if lens.last() == l {
            p.push((lens.len() - 1) as nat)
        } else {
            p
        }
    }
}

/// How many symbols have code length `l`.
pub open spec fn count_of(lens: Seq<u8>, l: nat) -> nat {
    syms_of_len(lens, l).len()
}

/// The smallest code of length `l` (for `l >= 1`): codes of one length are
/// consecutive, and each length starts where the previous one ended, doubled.
pub open spec fn first_code(lens: Seq<u8>, l: nat) -> nat
    decreases l,
{
    if l <= 1 {
        0
    } else {
        2 * (first_code(lens, (l - 1) as nat) + count_of(lens, (l - 1) as nat))
    }
}

/// Where the symbols of length `l` start in the table sorted by length, then
/// by symbol.
pub open spec fn first_index(lens: Seq<u8>, l: nat) -> nat
    decreases l,
{
    if l <= 1 {
        0
    } else {
        first_index(lens, (l - 1) as nat) + count_of(lens, (l - 1) as nat)
    }
}

/// The symbols of lengths `1 .. l`, sorted by length, then by symbol.
pub open spec fn sorted_syms(lens: Seq<u8>, l: nat) -> Seq<nat>
    decreases l,
{
    if l <= 1 {
        seq![]
    } else {
        sorted_syms(lens, (l - 1) as nat) + syms_of_len(lens, (l - 1) as nat)
    }
}

/// Matching a code, one bit at a time, most significant bit first: `code`
/// holds the `l - 1` bits read so far. The result is the symbol and the
/// position after its code, or `None` when the data ends or no code of up to
/// fifteen bits matches.
pub open spec fn huff_step(lens: Seq<u8>, d: Seq<u8>, pos: int, l: nat, code: nat) -> Option<(nat, int)>
    decreases 16 - l,
{
    if l == 0 || l > 15 {
        None
    } else if pos + l > 8 * d.len() {
        None
    } else {
        let c = 2 * code + bit_at(d, pos + l - 1);
        let f = first_code(lens, l);
        if f <= c < f + count_of(lens, l) {
            Some((syms_of_len(lens, l)[c - f], pos + l))
        } else {
            huff_step(lens, d, pos, l + 1, c)
        }
    }
}

/// Decoding one symbol of the code with lengths `lens` at `pos`.
pub open spec fn huff_decode(lens: Seq<u8>, d: Seq<u8>, pos: int) -> Option<(nat, int)> {
    huff_step(lens, d, pos, 1, 0)
}

pub proof fn lemma_syms_of_len(lens: Seq<u8>, l: nat)
    ensures
        syms_of_len(lens, l).len() <= lens.len(),
        forall|i: int| 0 <= i < syms_of_len(lens, l).len() ==> #[trigger] syms_of_len(lens, l)[i] < lens.len() && lens[syms_of_len(lens, l)[i] as int] == l,
    decreases lens.len(),
{
    if lens.len() > 0 {
        lemma_syms_of_len(lens.drop_last(), l);
    }
}

pub proof fn lemma_sorted_syms(lens: Seq<u8>, m: nat)
    ensures
        sorted_syms(lens, m).len() == first_index(lens, m),
        forall|k: nat, r: int| 1 <= k < m && 0 <= r < count_of(lens, k) ==>
            #[trigger] sorted_syms(lens, m)[first_index(lens, k) + r] == #[trigger] syms_of_len(lens, k)[r],
    decreases m,
{
    if m > 1 {
        lemma_sorted_syms(lens, (m - 1) as nat);
        assert forall|k: nat, r: int| 1 <= k < m && 0 <= r < count_of(lens, k) implies
            #[trigger] sorted_syms(lens, m)[first_index(lens, k) + r] == #[trigger] syms_of_len(lens, k)[r] by {
            if k < m - 1 {
                lemma_first_index_mono(lens, k + 1, (m - 1) as nat);
            }
        }
    }
}

pub proof fn lemma_first_index_mono(lens: Seq<u8>, a: nat, b: nat)
    requires
        a <= b,
    ensures
        first_index(lens, a) <= first_index(lens, b),
    decreases b,
{
    if a < b {
        lemma_first_index_mono(lens, a, (b - 1) as nat);
    }
}

/// Codes of up to fifteen bits for at most 2^15 symbols stay below 2^30.
pub proof fn lemma_first_code_bound(lens: Seq<u8>, l: nat)
    requires
        1 <= l,
    ensures
        first_code(lens, l) + 2 * lens.len() <= lens.len() * pow2(l),
    decreases l,
{
    lemma_syms_of_len(lens, (l - 1) as nat);
    lemma_pow2_unfold(l);
    if l == 1 {
        lemma2_to64();
    } else {
        lemma_first_code_bound(lens, (l - 1) as nat);
        let n = lens.len();
        let p = pow2((l - 1) as nat);
        assert(n * pow2(l) == 2 * (n * p)) by (nonlinear_arith)
            requires pow2(l) == 2 * p;
    }
}

pub proof fn lemma_first_index_bound(lens: Seq<u8>, l: nat)
    ensures
        first_index(lens, l) <= l * lens.len(),
    decreases l,
{
    if l > 1 {
        lemma_first_index_bound(lens, (l - 1) as nat);
        lemma_syms_of_len(lens, (l - 1) as nat);
        assert((l - 1) * lens.len() + lens.len() == l * lens.len()) by (nonlinear_arith);
    }
}

pub proof fn lemma_huff_step_advances(lens: Seq<u8>, d: Seq<u8>, pos: int, l: nat, code: nat)
    requires
        l >= 1,
    ensures
        huff_step(lens, d, pos, l, code) matches Some((s, p)) ==> pos < p <= 8 * d.len() && p <= pos + 15
            && s < lens.len(),
    decreases 16 - l,
{
    if 1 <= l <= 15 && pos + l <= 8 * d.len() {
        let c = 2 * code + bit_at(d, pos + l - 1);
        let f = first_code(lens, l);
        lemma_syms_of_len(lens, l);
        if !(f <= c < f + count_of(lens, l)) {
            lemma_huff_step_advances(lens, d, pos, l + 1, c);
        }
    }
}

/// A canonical Huffman decoder: per code length, the first code, where its
/// symbols start in `symbols`, and how many there are.
pub struct Huffman {
    lengths: Vec<(u32, u32, u32)>,
    symbols: Vec<u16>,
    lens: Ghost<Seq<u8>>,
}

impl Huffman {
    /// The code lengths the decoder was built from.
    pub closed spec fn code_lengths(&self) -> Seq<u8> {
        self.lens@
    }

    pub closed spec fn wf(&self) -> bool {
        let lens = self.lens@;
        &&& lens.len() <= 0x8000
        &&& self.lengths@.len() == 15
        &&& forall|l: nat| 1 <= l <= 15 ==> #[trigger] self.lengths@[l - 1] == (
            first_code(lens, l) as u32,
            first_index(lens, l) as u32,
            count_of(lens, l) as u32,
        )
        &&& forall|l: nat| 1 <= l <= 15 ==> #[trigger] first_code(lens, l) + count_of(lens, l) < 0x4000_0000
        &&& self.symbols@.map_values(|x: u16| x as nat) == sorted_syms(lens, 16)
    }

    /// Build the decoder for these code lengths (0 means unused). A DEFLATE
    /// table has at most 288 of them; the bound keeps the canonical codes
    /// within 30 bits.
    pub(crate) fn build(code_lengths: &[u8]) -> (r: Option<Huffman>)
        requires
            code_lengths@.len() <= 0x8000,
            forall|i: int| 0 <= i < code_lengths@.len() ==> code_lengths@[i] <= 15,
        ensures
            r matches Some(h) && h.wf() && h.code_lengths() == code_lengths@,
    {
        let ghost lens = code_lengths@;
        let n = code_lengths.len();
        let mut count: Vec<u32> = vec![0u32; 16];
        let mut j: usize = 0;
        while j < n
            invariant
                n == lens.len(),
                lens == code_lengths@,
                n <= 0x8000,
                forall|i: int| 0 <= i < lens.len() ==> lens[i] <= 15,
                j <= n,
                count@.len() == 16,
                forall|k: nat| k < 16 ==> #[trigger] count@[k as int] == count_of(lens.take(j as int), k),
            decreases n - j,
        {
            let l = code_lengths[j] as usize;
            proof {
                assert(lens.take(j + 1).drop_last() =~= lens.take(j as int));
                assert forall|k: nat| k < 16 implies count_of(lens.take(j + 1), k) == count_of(lens.take(j as int), k) + (if k == l { 1nat } else { 0nat }) by {
                    reveal_with_fuel(syms_of_len, 1);
                }
                lemma_syms_of_len(lens.take(j as int), l as nat);
            }
            let c = count[l] + 1;
            count.set(l, c);
            j = j + 1;
        }
        proof {
            assert(lens.take(n as int) =~= lens);
        }
        count.set(0, 0);
        let mut lengths: Vec<(u32, u32, u32)> = Vec::new();
        let mut code: u32 = 0;
        let mut index: u32 = 0;
        let mut len: usize = 1;
        while len <= 15
            invariant
                1 <= len <= 16,
                n == lens.len(),
                n <= 0x8000,
                count@.len() == 16,
                forall|k: nat| 1 <= k < 16 ==> #[trigger] count@[k as int] == count_of(lens, k),
                2 * code == first_code(lens, len as nat),
                index == first_index(lens, len as nat),
                lengths@.len() == len - 1,
                forall|l: nat| 1 <= l < len ==> #[trigger] lengths@[l - 1] == (
                    first_code(lens, l) as u32,
                    first_index(lens, l) as u32,
                    count_of(lens, l) as u32,
                ),
                forall|l: nat| 1 <= l < len ==> #[trigger] first_code(lens, l) + count_of(lens, l) < 0x4000_0000,
            decreases 16 - len,
        {
            proof {
                lemma_first_code_bound(lens, len as nat);
                lemma_pow2_le16(len as nat);
                lemma_syms_of_len(lens, len as nat);
                lemma_first_index_bound(lens, len as nat);
                lemma2_to64();
                if len < 15 {
                    lemma_pow2_strictly_increases(len as nat, 15);
                }
                assert(n * pow2(len as nat) <= 0x8000 * 0x8000) by (nonlinear_arith)
                    requires n <= 0x8000, pow2(len as nat) <= 0x8000;
                assert(len * n <= 15 * 0x8000) by (nonlinear_arith)
                    requires n <= 0x8000, len <= 15;
                lemma_pow2_strictly_increases(len as nat, 16);
                lemma2_to64();
            }
            code = code * 2;
            let cnt = count[len];
            lengths.push((code, index, cnt));
            code = code + cnt;
            index = index + cnt;
            len = len + 1;
        }
        let mut symbols: Vec<u16> = Vec::new();
        let mut len: usize = 1;
        while len <= 15
            invariant
                1 <= len <= 16,
                n == lens.len(),
                lens == code_lengths@,
                n <= 0x8000,
                symbols@.map_values(|x: u16| x as nat) == sorted_syms(lens, len as nat),
            decreases 16 - len,
        {
            let mut sym: usize = 0;
            while sym < n
                invariant
                    1 <= len <= 15,
                    n == lens.len(),
                    lens == code_lengths@,
                    n <= 0x8000,
                    sym <= n,
                    symbols@.map_values(|x: u16| x as nat) == sorted_syms(lens, len as nat) + syms_of_len(lens.take(sym as int), len as nat),
                decreases n - sym,
            {
                proof {
                    let t = lens.take(sym + 1);
                    assert(t.drop_last() =~= lens.take(sym as int));
                    assert(t.last() == lens[sym as int]);
                    assert(t.len() - 1 == sym);
                }
                if code_lengths[sym] as usize == len {
                    let ghost before = symbols@;
                    symbols.push(sym as u16);
                    proof {
                        assert(symbols@.map_values(|x: u16| x as nat) =~= before.map_values(|x: u16| x as nat).push(sym as nat));
                        assert(syms_of_len(lens.take(sym + 1), len as nat) == syms_of_len(lens.take(sym as int), len as nat).push(sym as nat));
                        assert(symbols@.map_values(|x: u16| x as nat) =~= sorted_syms(lens, len as nat) + syms_of_len(lens.take(sym + 1), len as nat));
                    }
                } else {
                    proof {
                        assert(symbols@.map_values(|x: u16| x as nat) =~= sorted_syms(lens, len as nat) + syms_of_len(lens.take(sym + 1), len as nat));
                    }
                }
                sym = sym + 1;
            }
            proof {
                assert(lens.take(n as int) =~= lens);
                assert(sorted_syms(lens, (len + 1) as nat) == sorted_syms(lens, len as nat) + syms_of_len(lens, len as nat));
            }
            len = len + 1;
        }
        Some(Huffman { lengths, symbols, lens: Ghost(lens) })
    }

    /// Read one symbol: the first code length whose range holds the bits read
    /// so far decides.
    pub fn decode(&self, br: &mut BitReader) -> (r: Option<u16>)
        requires
            self.wf(),
            old(br).wf(),
        ensures
            final(br).data() == old(br).data(),
            final(br).consumed() >= old(br).consumed(),
            match huff_decode(self.code_lengths(), old(br).data(), old(br).consumed()) {
                Some((s, p)) => r == Some(s as u16) && final(br).wf() && final(br).consumed() == p,
                None => r is None,
            },
    {
        let ghost lens = self.lens@;
        let ghost d = br.data();
        let ghost p0 = br.consumed();
        let mut code: u32 = 0;
        let mut len: usize = 1;
        proof {
            lemma2_to64();
        }
        while len <= 15
            invariant
                self.wf(),
                lens == self.lens@,
                1 <= len <= 16,
                br.wf(),
                br.data() == d,
                d == old(br).data(),
                p0 == old(br).consumed(),
                br.consumed() == p0 + len - 1,
                code < pow2((len - 1) as nat),
                huff_decode(lens, d, p0) == huff_step(lens, d, p0, len as nat, code as nat),
            decreases 16 - len,
        {
            let b = match br.bits(1) {
                Some(b) => b,
                None => return None,
            };
            proof {
                lemma_pow2_le16((len - 1) as nat);
                lemma_bits_val_bound(d, p0 + len - 1, 1);
                lemma2_to64();
                assert(b <= 1);
                assert(code < 0x8000 && b <= 1 ==> (code << 1u32) | b == 2 * code + b) by (bit_vector);
                lemma_pow2_unfold(len as nat);
            }
            code = (code << 1) | b;
            let (first, index, count) = self.lengths[len - 1];
            if count > 0 && code >= first && code < first + count {
                proof {
                    lemma_sorted_syms(lens, 16);
                    lemma_syms_of_len(lens, len as nat);
                    lemma_first_index_bound(lens, len as nat);
                    lemma_first_index_mono(lens, (len + 1) as nat, 16);
                    assert(len * lens.len() <= 15 * 0x8000) by (nonlinear_arith)
                        requires lens.len() <= 0x8000, len <= 15;
                    let r = code - first;
                    assert(self.symbols@.map_values(|x: u16| x as nat)[first_index(lens, len as nat) + r] == syms_of_len(lens, len as nat)[r]);
                }
                return Some(self.symbols[(index + code - first) as usize]);
            }
            len = len + 1;
        }
        None
    }
}

// ---------------------------------------------------------------------------
// Tables of RFC 1951 §3.2.5 and §3.2.7
// ---------------------------------------------------------------------------

/// Base match length of length code `257 + i`.
pub open spec fn length_base(i: int) -> nat {
    if i == 0 { 3 } else
    if i == 1 { 4 } else
    if i == 2 { 5 } else
    if i == 3 { 6 } else
    if i == 4 { 7 } else
    if i == 5 { 8 } else
    if i == 6 { 9 } else
    if i == 7 { 10 } else
    if i == 8 { 11 } else
    if i == 9 { 13 } else
    if i == 10 { 15 } else
    if i == 11 { 17 } else
    if i == 12 { 19 } else
    if i == 13 { 23 } else
    if i == 14 { 27 } else
    if i == 15 { 31 } else
    if i == 16 { 35 } else
    if i == 17 { 43 } else
    if i == 18 { 51 } else
    if i == 19 { 59 } else
    if i == 20 { 67 } else
    if i == 21 { 83 } else
    if i == 22 { 99 } else
    if i == 23 { 115 } else
    if i == 24 { 131 } else
    if i == 25 { 163 } else
    if i == 26 { 195 } else
    if i == 27 { 227 } else {
        258
    }
}

/// Extra bits after length code `257 + i`.
pub open spec fn length_extra(i: int) -> nat {
    if i == 0 { 0 } else
    if i == 1 { 0 } else
    if i == 2 { 0 } else
    if i == 3 { 0 } else
    if i == 4 { 0 } else
    if i == 5 { 0 } else
    if i == 6 { 0 } else
    if i == 7 { 0 } else
    if i == 8 { 1 } else
    if i == 9 { 1 } else
    if i == 10 { 1 } else
    if i == 11 { 1 } else
    if i == 12 { 2 } else
    if i == 13 { 2 } else
    if i == 14 { 2 } else
    if i == 15 { 2 } else
    if i == 16 { 3 } else
    if i == 17 { 3 } else
    if i == 18 { 3 } else
    if i == 19 { 3 } else
    if i == 20 { 4 } else
    if i == 21 { 4 } else
    if i == 22 { 4 } else
    if i == 23 { 4 } else
    if i == 24 { 5 } else
    if i == 25 { 5 } else
    if i == 26 { 5 } else
    if i == 27 { 5 } else {
        0
    }
}

/// Base distance of distance code `i`.
pub open spec fn dist_base(i: int) -> nat {
    if i == 0 { 1 } else
    if i == 1 { 2 } else
    if i == 2 { 3 } else
    if i == 3 { 4 } else
    if i == 4 { 5 } else
    if i == 5 { 7 } else
    if i == 6 { 9 } else
    if i == 7 { 13 } else
    if i == 8 { 17 } else
    if i == 9 { 25 } else
    if i == 10 { 33 } else
    if i == 11 { 49 } else
    if i == 12 { 65 } else
    if i == 13 { 97 } else
    if i == 14 { 129 } else
    if i == 15 { 193 } else
    if i == 16 { 257 } else
    if i == 17 { 385 } else
    if i == 18 { 513 } else
    if i == 19 { 769 } else
    if i == 20 { 1025 } else
    if i == 21 { 1537 } else
    if i == 22 { 2049 } else
    if i == 23 { 3073 } else
    if i == 24 { 4097 } else
    if i == 25 { 6145 } else
    if i == 26 { 8193 } else
    if i == 27 { 12289 } else
    if i == 28 { 16385 } else {
        24577
    }
}

/// Extra bits after distance code `i`.
pub open spec fn dist_extra(i: int) -> nat {
    if i == 0 { 0 } else
    if i == 1 { 0 } else
    if i == 2 { 0 } else
    if i == 3 { 0 } else
    if i == 4 { 1 } else
    if i == 5 { 1 } else
    if i == 6 { 2 } else
    if i == 7 { 2 } else
    if i == 8 { 3 } else
    if i == 9 { 3 } else
    if i == 10 { 4 } else
    if i == 11 { 4 } else
    if i == 12 { 5 } else
    if i == 13 { 5 } else
    if i == 14 { 6 } else
    if i == 15 { 6 } else
    if i == 16 { 7 } else
    if i == 17 { 7 } else
    if i == 18 { 8 } else
    if i == 19 { 8 } else
    if i == 20 { 9 } else
    if i == 21 { 9 } else
    if i == 22 { 10 } else
    if i == 23 { 10 } else
    if i == 24 { 11 } else
    if i == 25 { 11 } else
    if i == 26 { 12 } else
    if i == 27 { 12 } else
    if i == 28 { 13 } else {
        13
    }
}

/// The order in which code-length code lengths are sent.
pub open spec fn cl_order(i: int) -> int {
    if i == 0 { 16 } else
    if i == 1 { 17 } else
    if i == 2 { 18 } else
    if i == 3 { 0 } else
    if i == 4 { 8 } else
    if i == 5 { 7 } else
    if i == 6 { 9 } else
    if i == 7 { 6 } else
    if i == 8 { 10 } else
    if i == 9 { 5 } else
    if i == 10 { 11 } else
    if i == 11 { 4 } else
    if i == 12 { 12 } else
    if i == 13 { 3 } else
    if i == 14 { 13 } else
    if i == 15 { 2 } else
    if i == 16 { 14 } else
    if i == 17 { 1 } else {
        15
    }
}

fn length_base_of(i: usize) -> (r: u16)
    requires
        i < 29,
    ensures
        r as int == length_base(i as int),
{
    match i {
        0 => 3,
        1 => 4,
        2 => 5,
        3 => 6,
        4 => 7,
        5 => 8,
        6 => 9,
        7 => 10,
        8 => 11,
        9 => 13,
        10 => 15,
        11 => 17,
        12 => 19,
        13 => 23,
        14 => 27,
        15 => 31,
        16 => 35,
        17 => 43,
        18 => 51,
        19 => 59,
        20 => 67,
        21 => 83,
        22 => 99,
        23 => 115,
        24 => 131,
        25 => 163,
        26 => 195,
        27 => 227,
        _ => 258,
    }
}

fn length_extra_of(i: usize) -> (r: u32)
    requires
        i < 29,
    ensures
        r as int == length_extra(i as int),
{
    match i {
        0 => 0,
        1 => 0,
        2 => 0,
        3 => 0,
        4 => 0,
        5 => 0,
        6 => 0,
        7 => 0,
        8 => 1,
        9 => 1,
        10 => 1,
        11 => 1,
        12 => 2,
        13 => 2,
        14 => 2,
        15 => 2,
        16 => 3,
        17 => 3,
        18 => 3,
        19 => 3,
        20 => 4,
        21 => 4,
        22 => 4,
        23 => 4,
        24 => 5,
        25 => 5,
        26 => 5,
        27 => 5,
        _ => 0,
    }
}

fn dist_base_of(i: usize) -> (r: u16)
    requires
        i < 30,
    ensures
        r as int == dist_base(i as int),
{
    match i {
        0 => 1,
        1 => 2,
        2 => 3,
        3 => 4,
        4 => 5,
        5 => 7,
        6 => 9,
        7 => 13,
        8 => 17,
        9 => 25,
        10 => 33,
        11 => 49,
        12 => 65,
        13 => 97,
        14 => 129,
        15 => 193,
        16 => 257,
        17 => 385,
        18 => 513,
        19 => 769,
        20 => 1025,
        21 => 1537,
        22 => 2049,
        23 => 3073,
        24 => 4097,
        25 => 6145,
        26 => 8193,
        27 => 12289,
        28 => 16385,
        _ => 24577,
    }
}

fn dist_extra_of(i: usize) -> (r: u32)
    requires
        i < 30,
    ensures
        r as int == dist_extra(i as int),
{
    match i {
        0 => 0,
        1 => 0,
        2 => 0,
        3 => 0,
        4 => 1,
        5 => 1,
        6 => 2,
        7 => 2,
        8 => 3,
        9 => 3,
        10 => 4,
        11 => 4,
        12 => 5,
        13 => 5,
        14 => 6,
        15 => 6,
        16 => 7,
        17 => 7,
        18 => 8,
        19 => 8,
        20 => 9,
        21 => 9,
        22 => 10,
        23 => 10,
        24 => 11,
        25 => 11,
        26 => 12,
        27 => 12,
        28 => 13,
        _ => 13,
    }
}

fn cl_order_of(i: usize) -> (r: usize)
    requires
        i < 19,
    ensures
        r as int == cl_order(i as int),
{
    match i {
        0 => 16,
        1 => 17,
        2 => 18,
        3 => 0,
        4 => 8,
        5 => 7,
        6 => 9,
        7 => 6,
        8 => 10,
        9 => 5,
        10 => 11,
        11 => 4,
        12 => 12,
        13 => 3,
        14 => 13,
        15 => 2,
        16 => 14,
        17 => 1,
        _ => 15,
    }
}

// ---------------------------------------------------------------------------
// The format
// ---------------------------------------------------------------------------

/// Code lengths of the fixed literal/length code (RFC 1951 §3.2.6).
pub open spec fn fixed_lit_lens() -> Seq<u8> {
    Seq::new(288, |i: int| if i < 144 { 8u8 } else if i < 256 { 9u8 } else if i < 280 { 7u8 } else { 8u8 })
}

/// Code lengths of the fixed distance code: thirty codes of five bits.
pub open spec fn fixed_dist_lens() -> Seq<u8> {
    Seq::new(30, |i: int| 5u8)
}

/// Appending `length` bytes, each copied from `distance` bytes back; the copy
/// may overlap what it appends.
pub open spec fn copy_back(out: Seq<u8>, distance: nat, length: nat) -> Seq<u8>
    decreases length,
{
    if length == 0 {
        out
    } else {
        copy_back(out.push(out[out.len() - distance]), distance, (length - 1) as nat)
    }
}

/// The compressed data of one block, up to and including its end-of-block
/// symbol, appended to `out`. The result is the position after the block and
/// the output so far.
#[verifier::opaque]
pub open spec fn block_data(d: Seq<u8>, pos: int, lit: Seq<u8>, dist: Seq<u8>, out: Seq<u8>) -> Option<(int, Seq<u8>)>
    decreases 8 * d.len() - pos,
{
    match huff_decode(lit, d, pos) {
        None => None,
        Some((sym, p1)) => {
            proof {
                lemma_huff_step_advances(lit, d, pos, 1, 0);
            }
            if sym < 256 {
                block_data(d, p1, lit, dist, out.push(sym as u8))
            } else if sym == 256 {
                Some((p1, out))
            } else if sym <= 285 {
                let li = sym - 257;
                match read_bits(d, p1, length_extra(li)) {
                    None => None,
                    Some((e, p2)) => match huff_decode(dist, d, p2) {
                        None => None,
                        Some((ds, p3)) => {
                            proof {
                                lemma_huff_step_advances(dist, d, p2, 1, 0);
                            }
                            if ds >= 30 {
                                None
                            } else {
                                match read_bits(d, p3, dist_extra(ds as int)) {
                                    None => None,
                                    Some((e2, p4)) => {
                                        let distance = dist_base(ds as int) + e2;
                                        if distance == 0 || distance > out.len() {
                                            None
                                        } else {
                                            block_data(d, p4, lit, dist, copy_back(out, distance, length_base(li) + e))
                                        }
                                    },
                                }
                            }
                        },
                    },
                }
            } else {
                None
            }
        },
    }
}

/// `n` copies of `b`.
pub open spec fn repeat_byte(b: u8, n: nat) -> Seq<u8> {
    Seq::new(n, |i: int| b)
}

/// Copying `n` bytes from one byte back repeats the last byte `n` times.
pub proof fn lemma_copy_back_one(out: Seq<u8>, n: nat)
    requires
        out.len() > 0,
    ensures
        copy_back(out, 1, n) == out + repeat_byte(out.last(), n),
    decreases n,
{
    if n > 0 {
        let o1 = out.push(out[out.len() - 1]);
        lemma_copy_back_one(o1, (n - 1) as nat);
        assert(o1.last() == out.last());
        assert(o1 + repeat_byte(o1.last(), (n - 1) as nat) =~= out + repeat_byte(out.last(), n));
    }
}

/// The length codes 257 to 285 cover the match lengths 3 to 258 without
/// gaps or overlaps: each code's range starts where the previous one ended,
/// the first starts at 3, and code 285 stands for exactly 258 (with no extra
/// bits), the longest match DEFLATE has.
pub proof fn law_length_codes_cover_3_to_258()
    ensures
        length_base(0) == 3,
        forall|i: int| 0 <= i < 27 ==> #[trigger] length_base(i) + pow2(length_extra(i)) == length_base(i + 1),
        length_base(27) + pow2(length_extra(27)) - 1 == 258,
        length_base(28) == 258,
        length_extra(28) == 0,
        forall|i: int| 0 <= i <= 28 ==> 3 <= #[trigger] length_base(i) && length_base(i) + pow2(length_extra(i)) - 1 <= 258,
{
    lemma2_to64();
}

/// The distance codes 0 to 29 cover the distances 1 to 32768 without gaps
/// or overlaps: code 0 starts at 1, each code's range starts where the
/// previous one ended, and code 29 ends at 32768, the window DEFLATE allows.
pub proof fn law_distance_codes_cover_1_to_32768()
    ensures
        dist_base(0) == 1,
        forall|i: int| 0 <= i < 29 ==> #[trigger] dist_base(i) + pow2(dist_extra(i)) == dist_base(i + 1),
        dist_base(29) + pow2(dist_extra(29)) - 1 == 32768,
{
    lemma2_to64();
}

/// The longest match: when the next symbol of a block is length code 285
/// and its distance code is 0 (distance 1), the block goes on with 258 more
/// copies of the last byte written, whatever came before.
pub proof fn law_code_285_copies_258(d: Seq<u8>, pos: int, lit: Seq<u8>, dist: Seq<u8>, out: Seq<u8>, p1: int, p3: int)
    requires
        out.len() > 0,
        huff_decode(lit, d, pos) == Some((285nat, p1)),
        huff_decode(dist, d, p1) == Some((0nat, p3)),
    ensures
        block_data(d, pos, lit, dist, out) == block_data(d, p3, lit, dist, out + repeat_byte(out.last(), 258)),
{
    lemma_huff_step_advances(lit, d, pos, 1, 0);
    lemma_huff_step_advances(dist, d, p1, 1, 0);
    assert(bits_val(d, p1, 0) == 0);
    assert(bits_val(d, p3, 0) == 0);
    lemma_copy_back_one(out, 258);
    reveal(block_data);
}

/// A stored block: skip to a byte boundary, read LEN and NLEN (NLEN is not
/// checked), then LEN literal bytes.
#[verifier::opaque]
pub open spec fn stored_block(d: Seq<u8>, pos: int, out: Seq<u8>) -> Option<(int, Seq<u8>)> {
    match read_bits(d, align_up(pos), 16) {
        None => None,
        Some((len, p1)) => match read_bits(d, p1, 16) {
            None => None,
            Some((_nlen, p2)) => if p2 + 8 * len <= 8 * d.len() {
                Some((p2 + 8 * len, out + d.subrange(p2 / 8, p2 / 8 + len)))
            } else {
                None
            },
        },
    }
}

/// The `hclen` three-bit code-length code lengths, placed in `cl_order`.
#[verifier::opaque]
pub open spec fn read_cl_lens(d: Seq<u8>, pos: int, hclen: nat, k: nat, cl: Seq<u8>) -> Option<(Seq<u8>, int)>
    decreases hclen - k,
{
    if k >= hclen {
        Some((cl, pos))
    } else {
        match read_bits(d, pos, 3) {
            None => None,
            Some((v, p)) => read_cl_lens(d, p, hclen, k + 1, cl.update(cl_order(k as int), v as u8)),
        }
    }
}

/// `lens` with `m` entries from `i` on set to `v`.
pub open spec fn fill(lens: Seq<u8>, i: int, m: int, v: u8) -> Seq<u8> {
    Seq::new(lens.len(), |j: int| if i <= j < i + m { v } else { lens[j] })
}

/// The literal/length and distance code lengths of a dynamic block, written
/// into `lens` from index `i` on: 0–15 are lengths, 16 repeats the previous
/// length 3–6 times, 17 and 18 skip 3–10 and 11–138 entries (left zero).
#[verifier::opaque]
pub open spec fn read_code_lens(cl: Seq<u8>, d: Seq<u8>, pos: int, lens: Seq<u8>, i: nat) -> Option<(Seq<u8>, int)>
    decreases 8 * d.len() - pos,
{
    if i >= lens.len() {
        Some((lens, pos))
    } else {
        match huff_decode(cl, d, pos) {
            None => None,
            Some((sym, p1)) => {
                proof {
                    lemma_huff_step_advances(cl, d, pos, 1, 0);
                }
                if sym <= 15 {
                    read_code_lens(cl, d, p1, lens.update(i as int, sym as u8), i + 1)
                } else if sym == 16 {
                    if i == 0 {
                        None
                    } else {
                        match read_bits(d, p1, 2) {
                            None => None,
                            Some((e, p2)) => {
                                let m = if e + 3 <= lens.len() - i { e + 3 } else { (lens.len() - i) as nat };
                                read_code_lens(cl, d, p2, fill(lens, i as int, m as int, lens[i - 1]), i + m)
                            },
                        }
                    }
                } else if sym == 17 {
                    match read_bits(d, p1, 3) {
                        None => None,
                        Some((e, p2)) => read_code_lens(cl, d, p2, lens, i + e + 3),
                    }
                } else if sym == 18 {
                    match read_bits(d, p1, 7) {
                        None => None,
                        Some((e, p2)) => read_code_lens(cl, d, p2, lens, i + e + 11),
                    }
                } else {
                    None
                }
            },
        }
    }
}

/// The rest of a dynamic block once the code lengths are known: the data
/// coded with the first `hlit` lengths for literals/lengths and the others for
/// distances.
pub open spec fn dynamic_codes(cl: Seq<u8>, d: Seq<u8>, pos: int, hlit: nat, hdist: nat, out: Seq<u8>) -> Option<(int, Seq<u8>)> {
    match read_code_lens(cl, d, pos, Seq::new(hlit + hdist, |i: int| 0u8), 0) {
        None => None,
        Some((lens, p)) => block_data(d, p, lens.take(hlit as int), lens.skip(hlit as int), out),
    }
}

/// The rest of a dynamic block after its HLIT, HDIST and HCLEN fields.
pub open spec fn dynamic_tables(d: Seq<u8>, pos: int, hlit: nat, hdist: nat, hclen: nat, out: Seq<u8>) -> Option<(int, Seq<u8>)> {
    match read_cl_lens(d, pos, hclen, 0, Seq::new(19, |i: int| 0u8)) {
        None => None,
        Some((cl, p)) => dynamic_codes(cl, d, p, hlit, hdist, out),
    }
}

/// A block with dynamic Huffman codes: HLIT, HDIST, HCLEN, the code-length
/// code, the code lengths, then the data.
#[verifier::opaque]
pub open spec fn dynamic_block(d: Seq<u8>, pos: int, out: Seq<u8>) -> Option<(int, Seq<u8>)> {
    match read_bits(d, pos, 5) {
        None => None,
        Some((a, p1)) => match read_bits(d, p1, 5) {
            None => None,
            Some((b, p2)) => match read_bits(d, p2, 4) {
                None => None,
                Some((c, p3)) => dynamic_tables(d, p3, a + 257, b + 1, c + 4, out),
            },
        },
    }
}

/// One block after its three header bits: stored, fixed or dynamic codes.
pub open spec fn block_body(d: Seq<u8>, pos: int, btype: nat, out: Seq<u8>) -> Option<(int, Seq<u8>)> {
    if btype == 0 {
        stored_block(d, pos, out)
    } else if btype == 1 {
        block_data(d, pos, fixed_lit_lens(), fixed_dist_lens(), out)
    } else if btype == 2 {
        dynamic_block(d, pos, out)
    } else {
        None
    }
}

/// Blocks from `pos` on, each with BFINAL and BTYPE, until the final one.
pub open spec fn blocks(d: Seq<u8>, pos: int, out: Seq<u8>) -> Option<Seq<u8>>
    decreases 8 * d.len() - pos,
{
    match read_bits(d, pos, 1) {
        None => None,
        Some((last, p1)) => match read_bits(d, p1, 2) {
            None => None,
            Some((btype, p2)) => match block_body(d, p2, btype, out) {
                None => None,
                Some((p3, o)) => if last == 1 {
                    Some(o)
                } else {
                    proof {
                        lemma_block_body_pos(d, p2, btype, out);
                    }
                    blocks(d, p3, o)
                },
            },
        },
    }
}

/// Inflating a zlib stream: compression method 8 and no preset dictionary;
/// the header's FCHECK bits and the Adler-32 trailer are not examined.
pub open spec fn inflate_spec(z: Seq<u8>) -> Option<Seq<u8>> {
    if z.len() < 2 || z[0] & 0x0Fu8 != 8u8 || z[1] & 0x20u8 != 0u8 {
        None
    } else {
        blocks(z.subrange(2, z.len() as int), 0, seq![])
    }
}

pub proof fn lemma_block_data_pos(d: Seq<u8>, pos: int, lit: Seq<u8>, dist: Seq<u8>, out: Seq<u8>)
    ensures
        block_data(d, pos, lit, dist, out) matches Some((p, o)) ==> pos < p <= 8 * d.len(),
    decreases 8 * d.len() - pos,
{
    reveal(block_data);
    lemma_huff_step_advances(lit, d, pos, 1, 0);
    match huff_decode(lit, d, pos) {
        None => {},
        Some((sym, p1)) => {
            if sym < 256 {
                lemma_block_data_pos(d, p1, lit, dist, out.push(sym as u8));
            } else if 256 < sym <= 285 {
                let li = sym - 257;
                match read_bits(d, p1, length_extra(li)) {
                    None => {},
                    Some((e, p2)) => {
                        lemma_huff_step_advances(dist, d, p2, 1, 0);
                        match huff_decode(dist, d, p2) {
                            None => {},
                            Some((ds, p3)) => {
                                if ds < 30 {
                                    match read_bits(d, p3, dist_extra(ds as int)) {
                                        None => {},
                                        Some((e2, p4)) => {
                                            let distance = dist_base(ds as int) + e2;
                                            if !(distance == 0 || distance > out.len()) {
                                                lemma_block_data_pos(d, p4, lit, dist, copy_back(out, distance, length_base(li) + e));
                                            }
                                        },
                                    }
                                }
                            },
                        }
                    },
                }
            }
        },
    }
}

pub proof fn lemma_read_cl_lens_pos(d: Seq<u8>, pos: int, hclen: nat, k: nat, cl: Seq<u8>)
    ensures
        read_cl_lens(d, pos, hclen, k, cl) matches Some((c, p)) ==> pos <= p,
    decreases hclen - k,
{
    reveal(read_cl_lens);
    if k < hclen {
        if let Some((v, p)) = read_bits(d, pos, 3) {
            lemma_read_cl_lens_pos(d, p, hclen, k + 1, cl.update(cl_order(k as int), v as u8));
        }
    }
}

pub proof fn lemma_read_code_lens_pos(cl: Seq<u8>, d: Seq<u8>, pos: int, lens: Seq<u8>, i: nat)
    ensures
        read_code_lens(cl, d, pos, lens, i) matches Some((l, p)) ==> pos <= p,
    decreases 8 * d.len() - pos,
{
    reveal(read_code_lens);
    if i < lens.len() {
        lemma_huff_step_advances(cl, d, pos, 1, 0);
        if let Some((sym, p1)) = huff_decode(cl, d, pos) {
            if sym <= 15 {
                lemma_read_code_lens_pos(cl, d, p1, lens.update(i as int, sym as u8), i + 1);
            } else if sym == 16 {
                if i != 0 {
                    if let Some((e, p2)) = read_bits(d, p1, 2) {
                        let m = if e + 3 <= lens.len() - i { e + 3 } else { (lens.len() - i) as nat };
                        lemma_read_code_lens_pos(cl, d, p2, fill(lens, i as int, m as int, lens[i - 1]), i + m);
                    }
                }
            } else if sym == 17 {
                if let Some((e, p2)) = read_bits(d, p1, 3) {
                    lemma_read_code_lens_pos(cl, d, p2, lens, i + e + 3);
                }
            } else if sym == 18 {
                if let Some((e, p2)) = read_bits(d, p1, 7) {
                    lemma_read_code_lens_pos(cl, d, p2, lens, i + e + 11);
                }
            }
        }
    }
}

pub proof fn lemma_block_body_pos(d: Seq<u8>, pos: int, btype: nat, out: Seq<u8>)
    ensures
        block_body(d, pos, btype, out) matches Some((p, o)) ==> pos <= p <= 8 * d.len(),
{
    if btype == 1 {
        lemma_block_data_pos(d, pos, fixed_lit_lens(), fixed_dist_lens(), out);
    } else if btype == 2 {
        reveal(dynamic_block);
        if let Some((a, p1)) = read_bits(d, pos, 5) {
            if let Some((b, p2)) = read_bits(d, p1, 5) {
                if let Some((c, p3)) = read_bits(d, p2, 4) {
                    let hlit = a + 257;
                    lemma_read_cl_lens_pos(d, p3, c + 4, 0, Seq::new(19, |i: int| 0u8));
                    if let Some((cl, p4)) = read_cl_lens(d, p3, c + 4, 0, Seq::new(19, |i: int| 0u8)) {
                        lemma_read_code_lens_pos(cl, d, p4, Seq::new(hlit + b + 1, |i: int| 0u8), 0);
                        if let Some((lens, p5)) = read_code_lens(cl, d, p4, Seq::new(hlit + b + 1, |i: int| 0u8), 0) {
                            lemma_block_data_pos(d, p5, lens.take(hlit as int), lens.skip(hlit as int), out);
                        }
                    }
                }
            }
        }
    } else {
        reveal(stored_block);
    }
}

// ---------------------------------------------------------------------------
// The inflater
// ---------------------------------------------------------------------------

impl<'a> BitReader<'a> {
    pub proof fn lemma_consumed(&self)
        requires
            self.wf(),
        ensures
            0 <= self.consumed() <= 8 * self.data().len(),
    {
    }
}

/// What `bits(n)` returned is below 2^n.
proof fn lemma_read_small(d: Seq<u8>, pos: int, n: nat)
    requires
        n <= 16,
    ensures
        read_bits(d, pos, n) matches Some((v, p)) ==> v < pow2(n) && pow2(n) <= 0x10000,
{
    lemma_bits_val_bound(d, pos, n);
    lemma_pow2_le16(n);
}

fn fixed_lit_lengths() -> (r: Vec<u8>)
    ensures
        r@ == fixed_lit_lens(),
{
    let mut v: Vec<u8> = Vec::new();
    let mut i: usize = 0;
    while i < 288
        invariant
            i <= 288,
            v@ =~= fixed_lit_lens().take(i as int),
        decreases 288 - i,
    {
        let l: u8 = if i < 144 {
            8
        } else if i < 256 {
            9
        } else if i < 280 {
            7
        } else {
            8
        };
        v.push(l);
        i = i + 1;
        proof {
            assert(v@ =~= fixed_lit_lens().take(i as int));
        }
    }
    v
}

fn fixed_dist_lengths() -> (r: Vec<u8>)
    ensures
        r@ == fixed_dist_lens(),
{
    let v: Vec<u8> = vec![5u8; 30];
    proof {
        assert(v@ =~= fixed_dist_lens());
    }
    v
}

/// Decode the symbols of one block until its end-of-block symbol.
fn inflate_block(br: &mut BitReader, lit: &Huffman, dist: &Huffman, out: &mut Vec<u8>) -> (r: Option<()>)
    requires
        old(br).wf(),
        lit.wf(),
        dist.wf(),
    ensures
        final(br).data() == old(br).data(),
        final(br).consumed() >= old(br).consumed(),
        old(out)@.is_prefix_of(final(out)@),
        match block_data(old(br).data(), old(br).consumed(), lit.code_lengths(), dist.code_lengths(), old(out)@) {
            Some((p, o)) => r is Some && final(br).wf() && final(br).consumed() == p && final(out)@ == o,
            None => r is None,
        },
{
    let ghost d = br.data();
    let ghost p0 = br.consumed();
    let ghost o0 = out@;
    let ghost ll = lit.code_lengths();
    let ghost dl = dist.code_lengths();
    loop
        invariant
            lit.wf(),
            dist.wf(),
            ll == lit.code_lengths(),
            dl == dist.code_lengths(),
            br.wf(),
            br.data() == d,
            d == old(br).data(),
            p0 == old(br).consumed(),
            o0 == old(out)@,
            br.consumed() >= p0,
            o0.is_prefix_of(out@),
            block_data(d, p0, ll, dl, o0) == block_data(d, br.consumed(), ll, dl, out@),
        decreases 8 * d.len() - br.consumed(),
    {
        let ghost cur = br.consumed();
        let ghost oc = out@;
        proof {
            br.lemma_consumed();
            lemma_huff_step_advances(ll, d, cur, 1, 0);
        }
        let sym = match lit.decode(br) {
            Some(s) => s,
            None => {
                assert(block_data(d, cur, ll, dl, oc) is None) by {
                    reveal(block_data);
                }
                return None;
            },
        };
        let ghost p1 = br.consumed();
        if sym <= 255 {
            assert(block_data(d, cur, ll, dl, oc) == block_data(d, p1, ll, dl, oc.push(sym as u8))) by {
                reveal(block_data);
            }
            out.push(sym as u8);
        } else if sym == 256 {
            assert(block_data(d, cur, ll, dl, oc) == Some((p1, oc))) by {
                reveal(block_data);
            }
            return Some(());
        } else if sym <= 285 {
            let li = sym as usize - 257;
            proof {
                lemma_read_small(d, p1, length_extra(li as int));
            }
            let e = match br.bits(length_extra_of(li)) {
                Some(e) => e,
                None => {
                    assert(block_data(d, cur, ll, dl, oc) is None) by {
                        reveal(block_data);
                    }
                    return None;
                },
            };
            let length = length_base_of(li) as usize + e as usize;
            let ghost p2 = br.consumed();
            proof {
                lemma_huff_step_advances(dl, d, p2, 1, 0);
            }
            let ds = match dist.decode(br) {
                Some(ds) => ds as usize,
                None => {
                    assert(block_data(d, cur, ll, dl, oc) is None) by {
                        reveal(block_data);
                    }
                    return None;
                },
            };
            let ghost p3 = br.consumed();
            if ds >= 30 {
                assert(block_data(d, cur, ll, dl, oc) is None) by {
                    reveal(block_data);
                }
                return None;
            }
            proof {
                lemma_read_small(d, p3, dist_extra(ds as int));
            }
            let e2 = match br.bits(dist_extra_of(ds)) {
                Some(e2) => e2,
                None => {
                    assert(block_data(d, cur, ll, dl, oc) is None) by {
                        reveal(block_data);
                    }
                    return None;
                },
            };
            let ghost p4 = br.consumed();
            let distance = dist_base_of(ds) as usize + e2 as usize;
            if distance == 0 || distance > out.len() {
                assert(block_data(d, cur, ll, dl, oc) is None) by {
                    reveal(block_data);
                }
                return None;
            }
            assert(block_data(d, cur, ll, dl, oc) == block_data(d, p4, ll, dl, copy_back(oc, distance as nat, length as nat))) by {
                reveal(block_data);
            }
            let ghost ob = out@;
            let mut k: usize = 0;
            while k < length
                invariant
                    k <= length,
                    distance >= 1,
                    distance <= ob.len(),
                    out@.len() == ob.len() + k,
                    o0.is_prefix_of(ob),
                    ob.is_prefix_of(out@),
                    copy_back(ob, distance as nat, length as nat) == copy_back(out@, distance as nat, (length - k) as nat),
                decreases length - k,
            {
                let b = out[out.len() - distance];
                out.push(b);
                k = k + 1;
            }
        } else {
            assert(block_data(d, cur, ll, dl, oc) is None) by {
                reveal(block_data);
            }
            return None;
        }
    }
}

/// A stored block: byte-aligned LEN, NLEN, then LEN bytes.
fn stored(br: &mut BitReader, out: &mut Vec<u8>) -> (r: Option<()>)
    requires
        old(br).wf(),
    ensures
        final(br).data() == old(br).data(),
        final(br).consumed() >= old(br).consumed(),
        match stored_block(old(br).data(), old(br).consumed(), old(out)@) {
            Some((p, o)) => r is Some && final(br).wf() && final(br).consumed() == p && final(out)@ == o,
            None => r is None,
        },
{
    let ghost d = br.data();
    let ghost o0 = out@;
    let ghost c0 = br.consumed();
    proof {
        br.lemma_consumed();
    }
    br.align_byte();
    let ghost a = br.consumed();
    proof {
        lemma_read_small(d, a, 16);
    }
    let len = match br.bits(16) {
        Some(v) => v as usize,
        None => {
            assert(stored_block(d, c0, o0) is None) by {
                reveal(stored_block);
            }
            return None;
        },
    };
    let _nlen = match br.bits(16) {
        Some(v) => v,
        None => {
            assert(stored_block(d, c0, o0) is None) by {
                reveal(stored_block);
            }
            return None;
        },
    };
    let ghost p2 = br.consumed();
    proof {
        assert(a % 8 == 0) by (nonlinear_arith)
            requires a == (if c0 % 8 == 0 { c0 } else { c0 + 8 - c0 % 8 });
        assert(p2 % 8 == 0) by (nonlinear_arith)
            requires p2 == a + 32, a % 8 == 0;
        assert(stored_block(d, c0, o0) == (if p2 + 8 * len <= 8 * d.len() {
            Some((p2 + 8 * len, o0 + d.subrange(p2 / 8, p2 / 8 + len)))
        } else {
            None::<(int, Seq<u8>)>
        })) by {
            reveal(stored_block);
        }
        br.lemma_consumed();
    }
    let ghost q0 = p2 / 8;
    let mut k: usize = 0;
    while k < len
        invariant
            br.wf(),
            br.data() == d,
            d == old(br).data(),
            o0 == old(out)@,
            c0 == old(br).consumed(),
            p2 % 8 == 0,
            q0 == p2 / 8,
            p2 >= c0,
            c0 >= 0,
            q0 >= 0,
            k <= len,
            q0 + k <= d.len(),
            br.consumed() == p2 + 8 * k,
            out@ =~= o0 + d.subrange(q0, q0 + k),
            stored_block(d, c0, o0) == (if p2 + 8 * len <= 8 * d.len() {
                Some((p2 + 8 * len, o0 + d.subrange(q0, q0 + len)))
            } else {
                None::<(int, Seq<u8>)>
            }),
        decreases len - k,
    {
        let ghost q = q0 + k;
        let b = match br.bits(8) {
            Some(b) => b,
            None => {
                assert(p2 + 8 * len > 8 * d.len()) by (nonlinear_arith)
                    requires p2 + 8 * k + 8 > 8 * d.len(), k < len;
                return None;
            },
        };
        proof {
            assert(q < d.len()) by (nonlinear_arith)
                requires p2 + 8 * k + 8 <= 8 * d.len(), q == q0 + k, q0 == p2 / 8, p2 % 8 == 0;
            lemma_bits_val_byte(d, q, 0);
            let bb = d[q];
            assert(bb >> 0u8 == bb) by (bit_vector);
            assert(8 * q + 0 == p2 + 8 * k) by (nonlinear_arith)
                requires q == q0 + k, q0 == p2 / 8, p2 % 8 == 0;
            assert(b == d[q]);
        }
        let ghost ob = out@;
        out.push(b as u8);
        k = k + 1;
        proof {
            br.lemma_consumed();
            assert(q0 + k <= d.len()) by (nonlinear_arith)
                requires p2 + 8 * k <= 8 * d.len(), q0 == p2 / 8, p2 % 8 == 0;
            assert(out@ =~= ob.push(d[q]));
            assert(q == q0 + k - 1);
            assert forall|j: int| 0 <= j < k implies #[trigger] d.subrange(q0, q0 + k)[j] == d.subrange(q0, q0 + k - 1).push(d[q])[j] by {
                if j < k - 1 {
                    assert(d.subrange(q0, q0 + k - 1)[j] == d[q0 + j]);
                }
            }
            assert(d.subrange(q0, q0 + k) =~= d.subrange(q0, q0 + k - 1).push(d[q]));
            assert(out@ =~= o0 + d.subrange(q0, q0 + k));
        }
    }
    Some(())
}

/// A block coded with the fixed Huffman codes.
fn fixed(br: &mut BitReader, out: &mut Vec<u8>) -> (r: Option<()>)
    requires
        old(br).wf(),
    ensures
        final(br).data() == old(br).data(),
        final(br).consumed() >= old(br).consumed(),
        match block_data(old(br).data(), old(br).consumed(), fixed_lit_lens(), fixed_dist_lens(), old(out)@) {
            Some((p, o)) => r is Some && final(br).wf() && final(br).consumed() == p && final(out)@ == o,
            None => r is None,
        },
{
    let litlen = fixed_lit_lengths();
    let dlen = fixed_dist_lengths();
    let lit = match Huffman::build(litlen.as_slice()) {
        Some(h) => h,
        None => return None,
    };
    let dist = match Huffman::build(dlen.as_slice()) {
        Some(h) => h,
        None => return None,
    };
    inflate_block(br, &lit, &dist, out)
}

/// The code lengths of a dynamic block, then its data.
fn dynamic_rest(br: &mut BitReader, cl: &Huffman, hlit: usize, hdist: usize, out: &mut Vec<u8>) -> (r: Option<()>)
    requires
        old(br).wf(),
        cl.wf(),
        257 <= hlit <= 288,
        1 <= hdist <= 32,
    ensures
        final(br).data() == old(br).data(),
        final(br).consumed() >= old(br).consumed(),
        match dynamic_codes(cl.code_lengths(), old(br).data(), old(br).consumed(), hlit as nat, hdist as nat, old(out)@) {
            Some((p, o)) => r is Some && final(br).wf() && final(br).consumed() == p && final(out)@ == o,
            None => r is None,
        },
{
    let ghost d = br.data();
    let ghost p4 = br.consumed();
    let ghost cll = cl.code_lengths();
    let n = hlit + hdist;
    let mut lengths: Vec<u8> = vec![0u8; n];
    proof {
        assert(lengths@ =~= Seq::new((hlit + hdist) as nat, |i: int| 0u8));
    }
    let mut i: usize = 0;
    while i < lengths.len()
        invariant
            cl.wf(),
            cll == cl.code_lengths(),
            br.wf(),
            br.data() == d,
            d == old(br).data(),
            p4 == old(br).consumed(),
            br.consumed() >= p4,
            n == hlit + hdist,
            n <= 320,
            i <= n + 138,
            lengths@.len() == n,
            forall|j: int| 0 <= j < n ==> lengths@[j] <= 15,
            read_code_lens(cll, d, p4, Seq::new(n as nat, |j: int| 0u8), 0) == read_code_lens(cll, d, br.consumed(), lengths@, i as nat),
        decreases 8 * d.len() - br.consumed(),
    {
        let ghost cur = br.consumed();
        let ghost lc = lengths@;
        proof {
            br.lemma_consumed();
            lemma_huff_step_advances(cll, d, cur, 1, 0);
        }
        let sym = match cl.decode(br) {
            Some(s) => s,
            None => {
                assert(read_code_lens(cll, d, cur, lc, i as nat) is None) by {
                    reveal(read_code_lens);
                }
                return None;
            },
        };
        let ghost p1 = br.consumed();
        if sym <= 15 {
            assert(read_code_lens(cll, d, cur, lc, i as nat) == read_code_lens(cll, d, p1, lc.update(i as int, sym as u8), (i + 1) as nat)) by {
                reveal(read_code_lens);
            }
            lengths.set(i, sym as u8);
            i = i + 1;
        } else if sym == 16 {
            if i == 0 {
                assert(read_code_lens(cll, d, cur, lc, i as nat) is None) by {
                    reveal(read_code_lens);
                }
                return None;
            }
            let prev = lengths[i - 1];
            proof {
                lemma_read_small(d, p1, 2);
            }
            let e = match br.bits(2) {
                Some(e) => e as usize + 3,
                None => {
                    assert(read_code_lens(cll, d, cur, lc, i as nat) is None) by {
                        reveal(read_code_lens);
                    }
                    return None;
                },
            };
            let m = if e <= n - i {
                e
            } else {
                n - i
            };
            let ghost p2 = br.consumed();
            assert(read_code_lens(cll, d, cur, lc, i as nat) == read_code_lens(cll, d, p2, fill(lc, i as int, m as int, prev), (i + m) as nat)) by {
                reveal(read_code_lens);
            }
            let ghost i0 = i;
            let mut j: usize = 0;
            while j < m
                invariant
                    i == i0 + j,
                    j <= m,
                    i0 + m <= n,
                    lengths@.len() == n,
                    prev <= 15,
                    forall|t: int| 0 <= t < n ==> lc[t] <= 15,
                    lc.len() == n,
                    lengths@ =~= fill(lc, i0 as int, j as int, prev),
                decreases m - j,
            {
                lengths.set(i, prev);
                i = i + 1;
                j = j + 1;
                proof {
                    assert(lengths@ =~= fill(lc, i0 as int, j as int, prev));
                }
            }
        } else if sym == 17 {
            proof {
                lemma_read_small(d, p1, 3);
                lemma2_to64();
            }
            let e = match br.bits(3) {
                Some(e) => e,
                None => {
                    assert(read_code_lens(cll, d, cur, lc, i as nat) is None) by {
                        reveal(read_code_lens);
                    }
                    return None;
                },
            };
            assert(read_code_lens(cll, d, cur, lc, i as nat) == read_code_lens(cll, d, br.consumed(), lc, (i + e + 3) as nat)) by {
                reveal(read_code_lens);
            }
            i = i + e as usize + 3;
        } else if sym == 18 {
            proof {
                lemma_read_small(d, p1, 7);
                lemma2_to64();
            }
            let e = match br.bits(7) {
                Some(e) => e,
                None => {
                    assert(read_code_lens(cll, d, cur, lc, i as nat) is None) by {
                        reveal(read_code_lens);
                    }
                    return None;
                },
            };
            assert(read_code_lens(cll, d, cur, lc, i as nat) == read_code_lens(cll, d, br.consumed(), lc, (i + e + 11) as nat)) by {
                reveal(read_code_lens);
            }
            i = i + e as usize + 11;
        } else {
            assert(read_code_lens(cll, d, cur, lc, i as nat) is None) by {
                reveal(read_code_lens);
            }
            return None;
        }
    }
    assert(read_code_lens(cll, d, br.consumed(), lengths@, i as nat) == Some((lengths@, br.consumed()))) by {
        reveal(read_code_lens);
    }
    let lit = match Huffman::build(vstd::slice::slice_subrange(lengths.as_slice(), 0, hlit)) {
        Some(h) => h,
        None => return None,
    };
    let dist = match Huffman::build(vstd::slice::slice_subrange(lengths.as_slice(), hlit, n)) {
        Some(h) => h,
        None => return None,
    };
    proof {
        assert(lengths@.subrange(0, hlit as int) =~= lengths@.take(hlit as int));
        assert(lengths@.subrange(hlit as int, n as int) =~= lengths@.skip(hlit as int));
    }
    inflate_block(br, &lit, &dist, out)
}

/// A block with dynamic Huffman codes.
fn dynamic(br: &mut BitReader, out: &mut Vec<u8>) -> (r: Option<()>)
    requires
        old(br).wf(),
    ensures
        final(br).data() == old(br).data(),
        final(br).consumed() >= old(br).consumed(),
        match dynamic_block(old(br).data(), old(br).consumed(), old(out)@) {
            Some((p, o)) => r is Some && final(br).wf() && final(br).consumed() == p && final(out)@ == o,
            None => r is None,
        },
{
    let ghost d = br.data();
    let ghost c0 = br.consumed();
    let ghost o0 = out@;
    proof {
        lemma_read_small(d, c0, 5);
        lemma2_to64();
    }
    let a = match br.bits(5) {
        Some(v) => v,
        None => {
            assert(dynamic_block(d, c0, o0) is None) by {
                reveal(dynamic_block);
            }
            return None;
        },
    };
    proof {
        lemma_read_small(d, br.consumed(), 5);
    }
    let b = match br.bits(5) {
        Some(v) => v,
        None => {
            assert(dynamic_block(d, c0, o0) is None) by {
                reveal(dynamic_block);
            }
            return None;
        },
    };
    proof {
        lemma_read_small(d, br.consumed(), 4);
    }
    let c = match br.bits(4) {
        Some(v) => v,
        None => {
            assert(dynamic_block(d, c0, o0) is None) by {
                reveal(dynamic_block);
            }
            return None;
        },
    };
    let hlit = a as usize + 257;
    let hdist = b as usize + 1;
    let hclen = c as usize + 4;
    let ghost p3 = br.consumed();
    assert(dynamic_block(d, c0, o0) == dynamic_tables(d, p3, hlit as nat, hdist as nat, hclen as nat, o0)) by {
        reveal(dynamic_block);
    }
    let mut cl_lengths: Vec<u8> = vec![0u8; 19];
    proof {
        assert(cl_lengths@ =~= Seq::new(19, |i: int| 0u8));
    }
    let mut k: usize = 0;
    while k < hclen
        invariant
            br.wf(),
            br.data() == d,
            d == old(br).data(),
            c0 == old(br).consumed(),
            o0 == old(out)@,
            br.consumed() >= p3,
            p3 >= c0,
            dynamic_block(d, c0, o0) == dynamic_tables(d, p3, hlit as nat, hdist as nat, hclen as nat, o0),
            hclen <= 19,
            k <= hclen,
            cl_lengths@.len() == 19,
            forall|i: int| 0 <= i < 19 ==> cl_lengths@[i] <= 7,
            read_cl_lens(d, p3, hclen as nat, 0, Seq::new(19, |i: int| 0u8)) == read_cl_lens(d, br.consumed(), hclen as nat, k as nat, cl_lengths@),
        decreases hclen - k,
    {
        let ghost cur = br.consumed();
        let ghost cc = cl_lengths@;
        let slot = cl_order_of(k);
        proof {
            lemma_read_small(d, cur, 3);
            lemma2_to64();
        }
        let v = match br.bits(3) {
            Some(v) => v,
            None => {
                assert(read_cl_lens(d, cur, hclen as nat, k as nat, cc) is None) by {
                    reveal(read_cl_lens);
                }
                return None;
            },
        };
        assert(read_cl_lens(d, cur, hclen as nat, k as nat, cc) == read_cl_lens(d, br.consumed(), hclen as nat, (k + 1) as nat, cc.update(cl_order(k as int), v as u8))) by {
            reveal(read_cl_lens);
        }
        cl_lengths.set(slot, v as u8);
        k = k + 1;
    }
    assert(read_cl_lens(d, br.consumed(), hclen as nat, k as nat, cl_lengths@) == Some((cl_lengths@, br.consumed()))) by {
        reveal(read_cl_lens);
    }
    let cl = match Huffman::build(cl_lengths.as_slice()) {
        Some(h) => h,
        None => return None,
    };
    dynamic_rest(br, &cl, hlit, hdist, out)
}

/// Inflate a zlib stream. `size_hint` only sizes the output buffer.
pub fn inflate(zlib: &[u8], size_hint: usize) -> (r: Option<Vec<u8>>)
    ensures
        match inflate_spec(zlib@) {
            Some(o) => r matches Some(v) && v@ == o,
            None => r is None,
        },
{
    if zlib.len() < 2 || zlib[0] & 0x0F != 8 || zlib[1] & 0x20 != 0 {
        return None;
    }
    let rest = vstd::slice::slice_subrange(zlib, 2, zlib.len());
    let mut br = BitReader::new(rest);
    let mut out: Vec<u8> = Vec::with_capacity(size_hint);
    let ghost d = rest@;
    loop
        invariant
            br.wf(),
            br.data() == d,
            inflate_spec(zlib@) == blocks(d, br.consumed(), out@),
        decreases 8 * d.len() - br.consumed(),
    {
        let ghost cur = br.consumed();
        let ghost oc = out@;
        proof {
            br.lemma_consumed();
            lemma_read_small(d, cur, 1);
            lemma_read_small(d, cur + 1, 2);
            lemma2_to64();
        }
        let last = match br.bits(1) {
            Some(v) => v,
            None => return None,
        };
        let btype = match br.bits(2) {
            Some(v) => v,
            None => return None,
        };
        let ghost p2 = br.consumed();
        proof {
            lemma_block_body_pos(d, p2, btype as nat, oc);
        }
        let ok = if btype == 0 {
            stored(&mut br, &mut out)
        } else if btype == 1 {
            fixed(&mut br, &mut out)
        } else if btype == 2 {
            dynamic(&mut br, &mut out)
        } else {
            None
        };
        if ok.is_none() {
            return None;
        }
        if last == 1 {
            return Some(out);
        }
    }
}

} // verus!
