//! Operators by id, searchable for the command palette.

use vstd::prelude::*;
use vstd::string::*;
use vstd::utf8::*;

use crate::operator::{OpFlags, Operator};

verus! {

/// What the registry knows of an operator.
#[derive(Clone, Copy, Debug)]
pub struct OpInfo {
    pub id: &'static str,
    pub label: &'static str,
    pub flags: OpFlags,
}

impl OpInfo {
    /// The part of the id before the first `.`, or the whole id.
    pub open spec fn category_spec(&self) -> Seq<char> {
        let id = self.id@;
        if exists|i: int| first_dot_at(id, i) {
            id.take(choose|i: int| first_dot_at(id, i))
        } else {
            id
        }
    }

    /// The part of the id before the first `.`, or the whole id.
    pub fn category(&self) -> (r: &'static str)
        ensures
            r@ == self.category_spec(),
    {
        let id = self.id;
        let n = id.unicode_len();
        let mut i: usize = 0;
        while i < n
            invariant
                id == self.id,
                n == id@.len(),
                i <= n,
                forall|j: int| 0 <= j < i ==> id@[j] != '.',
            decreases n - i,
        {
            if id.get_char(i) == '.' {
                proof {
                    assert(first_dot_at(id@, i as int));
                    let k = choose|k: int| first_dot_at(id@, k);
                    if k < i {
                        assert(id@[k] != '.');
                    } else if k > i {
                        assert(id@[i as int] != '.');
                    }
                    assert(k == i);
                }
                let r = id.substring_char(0, i);
                assert(r@ =~= id@.take(i as int));
                return r;
            }
            i = i + 1;
        }
        proof {
            if exists|k: int| first_dot_at(id@, k) {
                let k = choose|k: int| first_dot_at(id@, k);
                assert(id@[k] == '.');
            }
        }
        id
    }
}

/// Position `i` of `id` holds its first `.`.
pub open spec fn first_dot_at(id: Seq<char>, i: int) -> bool {
    &&& 0 <= i < id.len()
    &&& id[i] == '.'
    &&& forall|j: int| 0 <= j < i ==> id[j] != '.'
}

// ---------------------------------------------------------------------------
// Text helpers
// ---------------------------------------------------------------------------

/// Unicode White_Space, which is what `char::is_whitespace` tests.
pub open spec fn is_white(c: char) -> bool {
    let u = c as u32;
    (0x09 <= u <= 0x0D) || u == 0x20 || u == 0x85 || u == 0xA0 || u == 0x1680 || (0x2000 <= u <= 0x200A)
        || u == 0x2028 || u == 0x2029 || u == 0x202F || u == 0x205F || u == 0x3000
}

pub fn is_whitespace(c: char) -> (r: bool)
    ensures
        r == is_white(c),
{
    let u = c as u32;
    (0x09 <= u && u <= 0x0D) || u == 0x20 || u == 0x85 || u == 0xA0 || u == 0x1680 || (0x2000 <= u && u <= 0x200A)
        || u == 0x2028 || u == 0x2029 || u == 0x202F || u == 0x205F || u == 0x3000
}

/// What `str::to_lowercase` gives for a string (Unicode's full lowercase
/// mapping, which needs its tables).
pub uninterp spec fn lowercase(s: Seq<char>) -> Seq<char>;

/// `str::to_lowercase`: the result is `lowercase` of the argument.
#[verifier::external_body]
fn to_lowercase(s: &str) -> (r: String)
    ensures
        r@ == lowercase(s@),
{
    s.to_lowercase()
}

/// Strict order of text by code points, first difference deciding, a proper
/// prefix first: what `str`'s `Ord` gives (UTF-8 keeps code point order).
pub open spec fn text_lt(a: Seq<char>, b: Seq<char>) -> bool
    decreases a.len(),
{
    if a.len() == 0 {
        b.len() > 0
    } else if b.len() == 0 {
        false
    } else if (a[0] as int) < (b[0] as int) {
        true
    } else if (a[0] as int) > (b[0] as int) {
        false
    } else {
        text_lt(a.drop_first(), b.drop_first())
    }
}

pub proof fn lemma_text_lt_irrefl(a: Seq<char>)
    ensures
        !text_lt(a, a),
    decreases a.len(),
{
    if a.len() > 0 {
        lemma_text_lt_irrefl(a.drop_first());
    }
}

pub proof fn lemma_text_lt_trans(a: Seq<char>, b: Seq<char>, c: Seq<char>)
    requires
        text_lt(a, b),
        text_lt(b, c),
    ensures
        text_lt(a, c),
    decreases a.len(),
{
    if a.len() > 0 && b.len() > 0 && c.len() > 0 {
        if a[0] == b[0] && b[0] == c[0] {
            lemma_text_lt_trans(a.drop_first(), b.drop_first(), c.drop_first());
        }
    }
}

pub proof fn lemma_text_lt_total(a: Seq<char>, b: Seq<char>)
    ensures
        text_lt(a, b) || text_lt(b, a) || a == b,
    decreases a.len(),
{
    if a.len() > 0 && b.len() > 0 {
        lemma_text_lt_total(a.drop_first(), b.drop_first());
        if a[0] == b[0] && a.drop_first() == b.drop_first() {
            assert(a =~= seq![a[0]] + a.drop_first());
            assert(b =~= seq![b[0]] + b.drop_first());
        }

    } else if a.len() == 0 && b.len() == 0 {
        assert(a =~= b);
    }
}

/// `a < b` as `str`s compare.
pub fn text_less(a: &str, b: &str) -> (r: bool)
    ensures
        r == text_lt(a@, b@),
{
    let na = a.unicode_len();
    let nb = b.unicode_len();
    let mut i: usize = 0;
    assert(a@.skip(0) =~= a@);
    assert(b@.skip(0) =~= b@);
    while i < na && i < nb
        invariant
            na == a@.len(),
            nb == b@.len(),
            i <= na,
            i <= nb,
            text_lt(a@, b@) == text_lt(a@.skip(i as int), b@.skip(i as int)),
        decreases na - i,
    {
        let ca = a.get_char(i);
        let cb = b.get_char(i);
        proof {
            assert(a@.skip(i as int)[0] == ca);
            assert(b@.skip(i as int)[0] == cb);
            assert(a@.skip(i as int).drop_first() =~= a@.skip(i + 1));
            assert(b@.skip(i as int).drop_first() =~= b@.skip(i + 1));
        }
        if (ca as u32) < (cb as u32) {
            return true;
        }
        if (ca as u32) > (cb as u32) {
            return false;
        }
        i = i + 1;
    }
    i == na && i < nb
}

// ---------------------------------------------------------------------------
// Scoring
// ---------------------------------------------------------------------------

/// Greedy subsequence match of `q` in `t` from `t[i]` on, `qi` query
/// characters matched so far with score `s`, `prev` when `t[i - 1]` matched:
/// each match earns 1, or 3 right after another match, plus 5 at the first
/// character. The result is how many query characters matched and the score.
pub open spec fn scan(q: Seq<char>, t: Seq<char>, i: nat, qi: nat, s: int, prev: bool) -> (nat, int)
    decreases t.len() - i,
{
    if i >= t.len() {
        (qi, s)
    } else if qi < q.len() && t[i as int] == q[qi as int] {
        scan(q, t, i + 1, qi + 1, s + (if prev { 3int } else { 1int }) + (if i == 0 { 5int } else { 0int }), true)
    } else {
        scan(q, t, i + 1, qi, s, false)
    }
}

/// The match score of `q` against text `t` of `bytes` UTF-8 bytes (the
/// byte count as `str::len` gives it): `None`
/// unless every query character is found in order; longer texts lose one
/// point per eight bytes; an empty query scores 0.
pub open spec fn score_spec(q: Seq<char>, t: Seq<char>, bytes: nat) -> Option<int> {
    if q.len() == 0 {
        Some(0)
    } else {
        let (qi, s) = scan(q, t, 0, 0, 0, false);
        if qi == q.len() {
            Some(s - bytes / 8)
        } else {
            None
        }
    }
}

pub proof fn lemma_scan_bounds(q: Seq<char>, t: Seq<char>, i: nat, qi: nat, s: int, prev: bool)
    requires
        i <= t.len(),
        qi <= q.len(),
        0 <= s <= 8 * i,
    ensures
        scan(q, t, i, qi, s, prev).0 <= q.len(),
        0 <= scan(q, t, i, qi, s, prev).1 <= 8 * t.len(),
    decreases t.len() - i,
{
    if i < t.len() {
        if qi < q.len() && t[i as int] == q[qi as int] {
            lemma_scan_bounds(q, t, i + 1, qi + 1, s + (if prev { 3int } else { 1int }) + (if i == 0 { 5int } else { 0int }), true);
        } else {
            lemma_scan_bounds(q, t, i + 1, qi, s, false);
        }
    }
}

proof fn lemma_scan_done(q: Seq<char>, t: Seq<char>, i: nat, s: int, prev: bool)
    ensures
        scan(q, t, i, q.len(), s, prev) == (q.len(), s),
    decreases t.len() - i,
{
    if i < t.len() {
        lemma_scan_done(q, t, i + 1, s, false);
    }
}

proof fn lemma_scan_one_later(c: char, t: Seq<char>, i: nat)
    requires
        i >= 1,
    ensures
        scan(seq![c], t, i, 0, 0, false) == (if exists|j: int| i <= j < t.len() && t[j] == c { (1nat, 1int) } else { (0nat, 0int) }),
    decreases t.len() - i,
{
    let q = seq![c];
    if i < t.len() {
        if t[i as int] == c {
            lemma_scan_done(q, t, i + 1, 1, true);
        } else {
            lemma_scan_one_later(c, t, i + 1);
            if exists|j: int| i <= j < t.len() && t[j] == c {
                let j = choose|j: int| i <= j < t.len() && t[j] == c;
                assert(i + 1 <= j);
            }
        }
    }
}

/// A one-character query `c` matches a text exactly when the text holds
/// `c`. A match at the text's first character earns 6 (1 for the match and
/// 5 for being first), a later one 1; a text of `b` bytes then loses one
/// point per eight bytes.
pub proof fn law_one_char_score(c: char, t: Seq<char>, b: nat)
    ensures
        score_spec(seq![c], t, b) == (if t.contains(c) {
            Some((if t[0] == c { 6int } else { 1int }) - b / 8)
        } else {
            None::<int>
        }),
{
    let q = seq![c];
    if t.len() == 0 {
    } else if t[0] == c {
        lemma_scan_done(q, t, 1, 6, true);
        assert(t.contains(c)) by {
            assert(t[0] == c);
        }
    } else {
        lemma_scan_one_later(c, t, 1);
        if t.contains(c) {
            let j = choose|j: int| 0 <= j < t.len() && t[j] == c;
            assert(1 <= j);
        }
        if exists|j: int| 1 <= j < t.len() && t[j] == c {
            let j = choose|j: int| 1 <= j < t.len() && t[j] == c;
            assert(t.contains(c)) by {
                assert(t[j] == c);
            }
        }
    }
}

/// Consecutive matches earn more: a two-character query `a b` against a
/// text that starts with `a b` scores 9 (6 for the first character, 3 for
/// the match right after it), less a point per eight bytes of text.
pub proof fn law_adjacent_match_bonus(a: char, b: char, t: Seq<char>, bytes: nat)
    requires
        t.len() >= 2,
        t[0] == a,
        t[1] == b,
    ensures
        score_spec(seq![a, b], t, bytes) == Some(9 - bytes / 8),
{
    let q = seq![a, b];
    assert(q[0] == a && q[1] == b && q.len() == 2);
    assert(scan(q, t, 0, 0, 0, false) == scan(q, t, 1, 1, 6, true));
    assert(scan(q, t, 1, 1, 6, true) == scan(q, t, 2, 2, 9, true));
    lemma_scan_done(q, t, 2, 9, true);
}

/// The score in full width (no text in memory can overflow it).
fn score_wide(query: &[char], text: &str) -> (r: Option<i128>)
    ensures
        match score_spec(query@, text@, text.len() as nat) {
            Some(v) => -0x1_0000_0000_0000_0000 <= v <= 8 * 0x1_0000_0000_0000_0000 && r == Some(v as i128),
            None => r is None,
        },
{
    if query.len() == 0 {
        return Some(0);
    }
    let mut s: i128 = 0;
    let mut qi: usize = 0;
    let mut prev_hit = false;
    let n = text.unicode_len();
    let mut i: usize = 0;
    while i < n
        invariant
            n == text@.len(),
            i <= n,
            n <= usize::MAX,
            qi <= query@.len(),
            0 <= s <= 8 * i,
            scan(query@, text@, 0, 0, 0, false) == scan(query@, text@, i as nat, qi as nat, s as int, prev_hit),
        decreases n - i,
    {
        let c = text.get_char(i);
        if qi < query.len() && c == query[qi] {
            s = s + if prev_hit {
                3
            } else {
                1
            };
            if i == 0 {
                s = s + 5;
            }
            qi = qi + 1;
            prev_hit = true;
        } else {
            prev_hit = false;
        }
        i = i + 1;
    }
    let bytes = text.len();
    proof {
        assert(scan(query@, text@, i as nat, qi as nat, s as int, prev_hit) == (qi as nat, s as int));
    }
    let b8 = bytes as i128 / 8;
    if qi == query.len() {
        assert(score_spec(query@, text@, text.len() as nat) == Some(s - b8));
        Some(s - b8)
    } else {
        None
    }
}

/// Subsequence match score of `query` in `text`: higher is better, `None`
/// if not all of `query` is found in order.
pub fn score(query: &[char], text: &str) -> (r: Option<i64>)
    ensures
        match score_spec(query@, text@, text.len() as nat) {
            Some(v) => r == Some(v as i64),
            None => r is None,
        },
{
    match score_wide(query, text) {
        Some(v) => Some(v as i64),
        None => None,
    }
}

// ---------------------------------------------------------------------------
// The registry
// ---------------------------------------------------------------------------

/// The palette score of an operator: its lowercased label, else its
/// lowercased id 100 points lower.
pub open spec fn match_score(q: Seq<char>, o: OpInfo) -> Option<int> {
    let l = lowercase(o.label@);
    let d = lowercase(o.id@);
    match score_spec(q, l, (encode_utf8(l).len() as usize) as nat) {
        Some(s) => Some(s),
        None => match score_spec(q, d, (encode_utf8(d).len() as usize) as nat) {
            Some(s) => Some(s - 100),
            None => None,
        },
    }
}

/// What the palette lists for a query: registered operators that match.
pub open spec fn listed(q: Seq<char>, o: OpInfo) -> bool {
    o.flags.has(OpFlags(1)) && match_score(q, o) is Some
}

/// `a` (at index `i`) comes before `b` (at index `j`) in the palette: higher
/// score first, then label order, then registration order.
pub open spec fn ranks_before(q: Seq<char>, a: OpInfo, i: int, b: OpInfo, j: int) -> bool {
    let sa = match_score(q, a)->0;
    let sb = match_score(q, b)->0;
    sa > sb || (sa == sb && (text_lt(a.label@, b.label@) || (a.label@ == b.label@ && i < j)))
}

/// The query as the palette reads it: lowercased, whitespace dropped.
pub open spec fn palette_query(query: Seq<char>) -> Seq<char> {
    lowercase(query).filter(|c: char| !is_white(c))
}

/// Operators by id, searchable for the command palette.
pub struct Registry {
    ops: Vec<OpInfo>,
}

impl Registry {
    /// The registered operators, in registration order.
    pub closed spec fn view(&self) -> Seq<OpInfo> {
        self.ops@
    }

    /// No two operators share an id.
    #[verifier::type_invariant]
    spec fn ids_unique(&self) -> bool {
        forall|i: int, j: int| 0 <= i < j < self.ops@.len() ==> self.ops@[i].id@ != self.ops@[j].id@
    }

    pub fn new() -> (r: Registry)
        ensures
            r.view().len() == 0,
    {
        Registry { ops: Vec::new() }
    }

    /// Index of the operator with this id.
    fn find(&self, id: &str) -> (r: Option<usize>)
        ensures
            match r {
                Some(i) => i < self.view().len() && self.view()[i as int].id@ == id@,
                None => forall|i: int| 0 <= i < self.view().len() ==> self.view()[i].id@ != id@,
            },
    {
        let mut i: usize = 0;
        while i < self.ops.len()
            invariant
                i <= self.ops@.len(),
                forall|k: int| 0 <= k < i ==> self.ops@[k].id@ != id@,
            decreases self.ops@.len() - i,
        {
            if str_eq(self.ops[i].id, id) {
                return Some(i);
            }
            i = i + 1;
        }
        None
    }

    /// Add an operator unless one with its id is already there.
    pub fn register_info(&mut self, info: OpInfo)
        ensures
            (exists|i: int| 0 <= i < old(self).view().len() && old(self).view()[i].id@ == info.id@)
                ==> final(self).view() == old(self).view(),
            (forall|i: int| 0 <= i < old(self).view().len() ==> old(self).view()[i].id@ != info.id@)
                ==> final(self).view() == old(self).view().push(info),
    {
        proof {
            use_type_invariant(&*self);
        }
        match self.find(info.id) {
            Some(_) => {},
            None => {
                let mut ops: Vec<OpInfo> = Vec::new();
                std::mem::swap(&mut ops, &mut self.ops);
                ops.push(info);
                self.ops = ops;
            },
        }
    }

    /// Add operator `T` unless one with its id is already there.
    pub fn register<T: Operator>(&mut self)
        ensures
            (exists|i: int| 0 <= i < old(self).view().len() && old(self).view()[i].id@ == T::spec_info().id@)
                ==> final(self).view() == old(self).view(),
            (forall|i: int| 0 <= i < old(self).view().len() ==> old(self).view()[i].id@ != T::spec_info().id@)
                ==> final(self).view() == old(self).view().push(T::spec_info()),
    {
        self.register_info(T::info());
    }

    /// The registered operator with id `id`, if any.
    pub open spec fn get_spec(&self, id: Seq<char>) -> Option<OpInfo> {
        if exists|i: int| 0 <= i < self.view().len() && self.view()[i].id@ == id {
            Some(self.view()[choose|i: int| 0 <= i < self.view().len() && self.view()[i].id@ == id])
        } else {
            None
        }
    }

    /// The operator with this id.
    pub fn get(&self, id: &str) -> (r: Option<&OpInfo>)
        ensures
            match r {
                Some(o) => (exists|i: int| 0 <= i < self.view().len() && self.view()[i] == *o) && o.id@ == id@
                    && self.get_spec(id@) == Some(*o),
                None => (forall|i: int| 0 <= i < self.view().len() ==> self.view()[i].id@ != id@) && self.get_spec(id@) is None,
            },
    {
        proof {
            use_type_invariant(self);
        }
        match self.find(id) {
            Some(i) => {
                proof {
                    let k = choose|k: int| 0 <= k < self.view().len() && self.view()[k].id@ == id@;
                    if k != i {
                        if k < i {
                            assert(self.ops@[k].id@ != self.ops@[i as int].id@);
                        } else {
                            assert(self.ops@[i as int].id@ != self.ops@[k].id@);
                        }
                    }
                }
                Some(&self.ops[i])
            },
            None => None,
        }
    }

    pub fn len(&self) -> (r: usize)
        ensures
            r == self.view().len(),
    {
        self.ops.len()
    }

    pub fn is_empty(&self) -> (r: bool)
        ensures
            r == (self.view().len() == 0),
    {
        self.ops.len() == 0
    }

    /// The registered operators, in registration order.
    pub fn iter(&self) -> (r: &[OpInfo])
        ensures
            r@ == self.view(),
    {
        self.ops.as_slice()
    }
}

/// `reg` with `o` added at the end, unless an operator with its id is
/// already there.
pub open spec fn add_op(reg: Seq<OpInfo>, o: OpInfo) -> Seq<OpInfo> {
    if exists|i: int| 0 <= i < reg.len() && reg[i].id@ == o.id@ {
        reg
    } else {
        reg.push(o)
    }
}

/// `reg` with each of `ops` added in order.
pub open spec fn add_ops(reg: Seq<OpInfo>, ops: Seq<OpInfo>) -> Seq<OpInfo>
    decreases ops.len(),
{
    if ops.len() == 0 {
        reg
    } else {
        add_op(add_ops(reg, ops.drop_last()), ops.last())
    }
}

/// After adding `ops`, every one of their ids is registered, and whatever
/// was registered before still is, where it was.
pub proof fn lemma_add_ops(reg: Seq<OpInfo>, ops: Seq<OpInfo>)
    ensures
        add_ops(reg, ops).len() >= reg.len(),
        forall|i: int| 0 <= i < reg.len() ==> add_ops(reg, ops)[i] == reg[i],
        forall|k: int| 0 <= k < ops.len() ==> exists|i: int|
            0 <= i < add_ops(reg, ops).len() && add_ops(reg, ops)[i].id@ == (#[trigger] ops[k]).id@,
    decreases ops.len(),
{
    if ops.len() > 0 {
        let prev = add_ops(reg, ops.drop_last());
        lemma_add_ops(reg, ops.drop_last());
        let cur = add_ops(reg, ops);
        assert forall|k: int| 0 <= k < ops.len() implies exists|i: int|
            0 <= i < cur.len() && cur[i].id@ == (#[trigger] ops[k]).id@ by {
            if k < ops.len() - 1 {
                assert(ops.drop_last()[k] == ops[k]);
                let i = choose|i: int| 0 <= i < prev.len() && prev[i].id@ == ops.drop_last()[k].id@;
                assert(cur[i] == prev[i]);
            } else if !exists|i: int| 0 <= i < prev.len() && prev[i].id@ == ops.last().id@ {
                assert(cur[prev.len() as int] == ops.last());
            }
        }
    }
}

impl Registry {
    /// Register each of `infos` in order, skipping ids already there.
    pub fn register_infos(&mut self, infos: &[OpInfo])
        ensures
            final(self).view() == add_ops(old(self).view(), infos@),
    {
        let mut i: usize = 0;
        while i < infos.len()
            invariant
                i <= infos@.len(),
                self.view() == add_ops(old(self).view(), infos@.take(i as int)),
            decreases infos@.len() - i,
        {
            proof {
                assert(infos@.take(i + 1).drop_last() =~= infos@.take(i as int));
            }
            self.register_info(infos[i]);
            i = i + 1;
        }
        proof {
            assert(infos@.take(i as int) =~= infos@);
        }
    }
}

/// The palette query: `query` lowercased, whitespace dropped.
fn palette_chars(query: &str) -> (r: Vec<char>)
    ensures
        r@ == palette_query(query@),
{
    let lower = to_lowercase(query);
    let ls = lower.as_str();
    let n = ls.unicode_len();
    let mut q: Vec<char> = Vec::new();
    let mut i: usize = 0;
    while i < n
        invariant
            n == ls@.len(),
            ls@ == lowercase(query@),
            i <= n,
            q@ == ls@.take(i as int).filter(|c: char| !is_white(c)),
        decreases n - i,
    {
        let c = ls.get_char(i);
        proof {
            assert(ls@.take(i + 1).drop_last() =~= ls@.take(i as int));
            reveal_with_fuel(Seq::<char>::filter, 1);
        }
        if !is_whitespace(c) {
            q.push(c);
        }
        i = i + 1;
    }
    assert(ls@.take(n as int) =~= ls@);
    q
}

pub proof fn lemma_ranks_irrefl(q: Seq<char>, a: OpInfo, i: int)
    ensures
        !ranks_before(q, a, i, a, i),
{
    lemma_text_lt_irrefl(a.label@);
}

pub proof fn lemma_ranks_total(q: Seq<char>, a: OpInfo, i: int, b: OpInfo, j: int)
    requires
        i != j,
    ensures
        ranks_before(q, a, i, b, j) || ranks_before(q, b, j, a, i),
{
    lemma_text_lt_total(a.label@, b.label@);
}

pub proof fn lemma_ranks_trans(q: Seq<char>, a: OpInfo, i: int, b: OpInfo, j: int, c: OpInfo, k: int)
    requires
        ranks_before(q, a, i, b, j),
        ranks_before(q, b, j, c, k),
    ensures
        ranks_before(q, a, i, c, k),
{
    if text_lt(a.label@, b.label@) && text_lt(b.label@, c.label@) {
        lemma_text_lt_trans(a.label@, b.label@, c.label@);
    }
}

/// `idx` lists, best first, exactly the operators of `ops` the palette shows
/// for `q`.
pub open spec fn is_ranking(q: Seq<char>, ops: Seq<OpInfo>, idx: Seq<int>) -> bool {
    &&& forall|k: int| 0 <= k < idx.len() ==> 0 <= #[trigger] idx[k] < ops.len() && listed(q, ops[idx[k]])
    &&& forall|i: int| 0 <= i < ops.len() && #[trigger] listed(q, ops[i]) ==> idx.contains(i)
    &&& forall|a: int, b: int| 0 <= a < b < idx.len() ==> ranks_before(q, ops[idx[a]], idx[a], ops[idx[b]], idx[b])
}

impl Registry {
    /// Registered operators whose label or id matches `query` (subsequence,
    /// case-insensitive), best matches first. An empty query lists every
    /// registered operator.
    pub fn search(&self, query: &str) -> (r: Vec<&OpInfo>)
        ensures
            exists|idx: Seq<int>| {
                &&& is_ranking(palette_query(query@), self.view(), idx)
                &&& r@.len() == idx.len()
                &&& forall|k: int| 0 <= k < idx.len() ==> *r@[k] == self.view()[#[trigger] idx[k]]
            },
    {
        let q = palette_chars(query);
        let ghost qs = q@;
        let ghost ops = self.ops@;
        let mut ranked: Vec<(i128, usize)> = Vec::new();
        let mut i: usize = 0;
        while i < self.ops.len()
            invariant
                ops == self.ops@,
                qs == q@,
                i <= ops.len(),
                forall|k: int| 0 <= k < ranked@.len() ==> {
                    let (sc, j) = #[trigger] ranked@[k];
                    &&& j < i
                    &&& listed(qs, ops[j as int])
                    &&& match_score(qs, ops[j as int]) == Some(sc as int)
                },
                forall|j: int| 0 <= j < i && #[trigger] listed(qs, ops[j]) ==>
                    exists|k: int| 0 <= k < ranked@.len() && ranked@[k].1 == j,
                forall|a: int, b: int| 0 <= a < b < ranked@.len() ==>
                    ranks_before(qs, ops[ranked@[a].1 as int], ranked@[a].1 as int, ops[ranked@[b].1 as int], ranked@[b].1 as int),
            decreases ops.len() - i,
        {
            let o = &self.ops[i];
            assert(*o == ops[i as int]);
            let mut found: Option<i128> = None;
            let reg = OpFlags::register();
            if o.flags.contains(reg) {
                let lbl = to_lowercase(o.label);
                let ls = lbl.as_str();
                assert(ls@ == lowercase(o.label@));
                assert(ls.len() == (encode_utf8(lowercase(o.label@)).len() as usize));
                match score_wide(q.as_slice(), ls) {
                    Some(sc) => {
                        found = Some(sc);
                        assert(match_score(qs, ops[i as int]) == Some(sc as int));
                    },
                    None => {
                        let lid = to_lowercase(o.id);
                        let ids = lid.as_str();
                        assert(ids@ == lowercase(o.id@));
                        assert(ids.len() == (encode_utf8(lowercase(o.id@)).len() as usize));
                        match score_wide(q.as_slice(), ids) {
                            Some(sc) => {
                                found = Some(sc - 100);
                                assert(match_score(qs, ops[i as int]) == Some(sc - 100));
                            },
                            None => {
                                assert(match_score(qs, ops[i as int]) is None);
                            },
                        }
                    },
                }
            }
            proof {
                assert(reg == OpFlags(1));
                assert(found matches Some(sc) <==> listed(qs, ops[i as int]));
                assert(found matches Some(sc) ==> match_score(qs, ops[i as int]) == Some(sc as int));
            }
            if let Some(sc) = found {
                let mut p: usize = 0;
                while p < ranked.len()
                    invariant_except_break
                        ops == self.ops@,
                        i < ops.len(),
                        p <= ranked@.len(),
                        listed(qs, ops[i as int]),
                        match_score(qs, ops[i as int]) == Some(sc as int),
                        forall|k: int| 0 <= k < ranked@.len() ==> {
                            let (sk, j) = #[trigger] ranked@[k];
                            &&& j < i
                            &&& listed(qs, ops[j as int])
                            &&& match_score(qs, ops[j as int]) == Some(sk as int)
                        },
                        forall|k: int| 0 <= k < p ==> !ranks_before(qs, ops[i as int], i as int, ops[#[trigger] ranked@[k].1 as int], ranked@[k].1 as int),
                    ensures
                        p <= ranked@.len(),
                        forall|k: int| 0 <= k < p ==> !ranks_before(qs, ops[i as int], i as int, ops[#[trigger] ranked@[k].1 as int], ranked@[k].1 as int),
                        p < ranked@.len() ==> ranks_before(qs, ops[i as int], i as int, ops[ranked@[p as int].1 as int], ranked@[p as int].1 as int),
                    decreases ranked@.len() - p,
                {
                    let (sp, jp) = ranked[p];
                    let better = sc > sp || (sc == sp && (text_less(self.ops[i].label, self.ops[jp].label)
                        || (str_eq(self.ops[i].label, self.ops[jp].label) && i < jp)));
                    proof {
                        assert(better == ranks_before(qs, ops[i as int], i as int, ops[jp as int], jp as int));
                    }
                    if better {
                        break;
                    }
                    p = p + 1;
                }
                let ghost before = ranked@;
                proof {
                    assert(p < before.len() ==> ranks_before(qs, ops[i as int], i as int, ops[before[p as int].1 as int], before[p as int].1 as int));
                }
                ranked.insert(p, (sc, i));
                proof {
                    assert(ranked@ =~= before.insert(p as int, (sc, i)));
                    assert forall|j: int| 0 <= j < i + 1 && #[trigger] listed(qs, ops[j]) implies
                        exists|k: int| 0 <= k < ranked@.len() && ranked@[k].1 == j by {
                        if j == i {
                            assert(ranked@[p as int].1 == j);
                        } else {
                            let k = choose|k: int| 0 <= k < before.len() && before[k].1 == j;
                            if k < p {
                                assert(ranked@[k].1 == j);
                            } else {
                                assert(ranked@[k + 1].1 == j);
                            }
                        }
                    }
                    assert forall|a: int, b: int| 0 <= a < b < ranked@.len() implies
                        ranks_before(qs, ops[ranked@[a].1 as int], ranked@[a].1 as int, ops[ranked@[b].1 as int], ranked@[b].1 as int) by {
                        let ja = ranked@[a].1 as int;
                        let jb = ranked@[b].1 as int;
                        if a == p {
                            // the new one against a later one
                            let pp = before[p as int].1 as int;
                            if b > p + 1 {
                                lemma_ranks_trans(qs, ops[i as int], i as int, ops[pp], pp, ops[jb], jb);
                            }
                        } else if b == p {
                            lemma_ranks_total(qs, ops[i as int], i as int, ops[ja], ja);
                        }
                    }
                }
            }
            i = i + 1;
        }
        let mut out: Vec<&OpInfo> = Vec::new();
        let mut k: usize = 0;
        while k < ranked.len()
            invariant
                ops == self.ops@,
                k <= ranked@.len(),
                out@.len() == k,
                forall|t: int| 0 <= t < ranked@.len() ==> (#[trigger] ranked@[t]).1 < ops.len(),
                forall|t: int| 0 <= t < k ==> *out@[t] == ops[ranked@[t].1 as int],
            decreases ranked@.len() - k,
        {
            out.push(&self.ops[ranked[k].1]);
            k = k + 1;
        }
        let ghost idx = ranked@.map_values(|x: (i128, usize)| x.1 as int);
        assert(is_ranking(palette_query(query@), self.view(), idx)) by {
            assert forall|j: int| 0 <= j < ops.len() && #[trigger] listed(qs, ops[j]) implies idx.contains(j) by {
                let k = choose|k: int| 0 <= k < ranked@.len() && ranked@[k].1 == j;
                assert(idx[k] == j);
            }
        }
        out
    }
}

/// Whether two strings hold the same characters.
pub fn str_eq(a: &str, b: &str) -> (r: bool)
    ensures
        r == (a@ == b@),
{
    let na = a.unicode_len();
    let nb = b.unicode_len();
    if na != nb {
        return false;
    }
    let mut i: usize = 0;
    while i < na
        invariant
            na == a@.len(),
            nb == b@.len(),
            na == nb,
            i <= na,
            forall|k: int| 0 <= k < i ==> a@[k] == b@[k],
        decreases na - i,
    {
        if a.get_char(i) != b.get_char(i) {
            return false;
        }
        i = i + 1;
    }
    assert(a@ =~= b@);
    true
}

} // verus!
