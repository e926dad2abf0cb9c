//! Connection identifiers.
//!
//! Players, spectators and rooms are identified by opaque 128-bit values
//! with structural equality.  On the wire they appear as the canonical
//! hyphenated lower-case hexadecimal text (8-4-4-4-12 digits); `uid_text`
//! and `uid_from_text` convert, and `lemma_uid_text_round_trip` ties the
//! two directions together.

use crate::json::{hex_char, hex_val, is_hex, push_char, is_hex_exec, hex_val_exec, to_char_vec};
use vstd::prelude::*;

verus! {

/// An opaque 128-bit identifier.
#[derive(Debug, Clone, Copy, PartialEq, Eq, Structural)]
pub struct Uid {
    pub value: u128,
}

/// Unique identifier for players (and spectators).
pub type PlayerId = Uid;

/// Unique identifier for rooms.
pub type RoomId = Uid;

impl Uid {
    /// The identifier with the given numeric value.
    pub fn from_u128(value: u128) -> (r: Uid)
        ensures
            r.value == value,
    {
        Uid { value }
    }

    /// The all-zero identifier.
    pub fn nil() -> (r: Uid)
        ensures
            r.value == 0,
    {
        Uid { value: 0 }
    }
}

/// Sixteen to the `w`.
pub open spec fn pow16(w: nat) -> int
    decreases w,
{
    if w == 0 {
        1
    } else {
        16 * pow16((w - 1) as nat)
    }
}

/// The value `n` as exactly `w` hexadecimal digits, most significant first.
pub open spec fn hex_fixed(n: int, w: nat) -> Seq<char>
    decreases w,
{
    if w == 0 {
        Seq::empty()
    } else {
        hex_fixed(n / 16, (w - 1) as nat).push(hex_char(n % 16))
    }
}

/// The value of a sequence of hexadecimal digits, most significant first.
pub open spec fn hex_seq_val(s: Seq<char>) -> int
    decreases s.len(),
{
    if s.len() == 0 {
        0
    } else {
        hex_seq_val(s.drop_last()) * 16 + hex_val(s.last())
    }
}

/// The canonical text of an identifier: 8-4-4-4-12 hexadecimal digits.
pub open spec fn uid_str(n: int) -> Seq<char> {
    let h = hex_fixed(n, 32);
    h.subrange(0, 8) + seq!['-'] + h.subrange(8, 12) + seq!['-'] + h.subrange(12, 16)
        + seq!['-'] + h.subrange(16, 20) + seq!['-'] + h.subrange(20, 32)
}

/// The digit characters of a hyphenated identifier starting at `off`,
/// hyphens removed.
pub open spec fn uid_digits_at(s: Seq<char>, off: int) -> Seq<char> {
    s.subrange(off, off + 8) + s.subrange(off + 9, off + 13) + s.subrange(off + 14, off + 18)
        + s.subrange(off + 19, off + 23) + s.subrange(off + 24, off + 36)
}

/// The value of a hyphenated identifier starting at `off`: hyphens in their
/// places and hexadecimal digits elsewhere.
pub open spec fn uid_hyphenated_at(s: Seq<char>, off: int) -> Option<int> {
    if 0 <= off && off + 36 <= s.len() && s[off + 8] == '-' && s[off + 13] == '-' && s[off + 18]
        == '-' && s[off + 23] == '-' && (forall|k: int|
        0 <= k < 32 ==> is_hex(#[trigger] uid_digits_at(s, off)[k])) {
        Some(hex_seq_val(uid_digits_at(s, off)))
    } else {
        None
    }
}

/// The value of the simple form: thirty-two hexadecimal digits.
pub open spec fn uid_simple(s: Seq<char>) -> Option<int> {
    if s.len() == 32 && (forall|k: int| 0 <= k < 32 ==> is_hex(#[trigger] s[k])) {
        Some(hex_seq_val(s))
    } else {
        None
    }
}

/// The value an identifier text stands for, in any accepted form: the
/// hyphenated text, the simple thirty-two-digit text, the braced hyphenated
/// text, or the uniform-resource-name prefix before the hyphenated text.
pub open spec fn uid_of(s: Seq<char>) -> Option<int> {
    if s.len() == 36 {
        uid_hyphenated_at(s, 0)
    } else if s.len() == 32 {
        uid_simple(s)
    } else if s.len() == 38 && s[0] == '{' && s[37] == '}' {
        uid_hyphenated_at(s, 1)
    } else if s.len() == 45 && s.subrange(0, 9) == "urn:uuid:"@ {
        uid_hyphenated_at(s, 9)
    } else {
        None
    }
}

proof fn lemma_pow16_32()
    ensures
        pow16(32) == 0x1_0000_0000_0000_0000_0000_0000_0000_0000,
{
    assert(pow16(0) == 0x1);
    assert(pow16(1) == 0x10);
    assert(pow16(2) == 0x100);
    assert(pow16(3) == 0x1000);
    assert(pow16(4) == 0x10000);
    assert(pow16(5) == 0x100000);
    assert(pow16(6) == 0x1000000);
    assert(pow16(7) == 0x10000000);
    assert(pow16(8) == 0x100000000);
    assert(pow16(9) == 0x1000000000);
    assert(pow16(10) == 0x10000000000);
    assert(pow16(11) == 0x100000000000);
    assert(pow16(12) == 0x1000000000000);
    assert(pow16(13) == 0x10000000000000);
    assert(pow16(14) == 0x100000000000000);
    assert(pow16(15) == 0x1000000000000000);
    assert(pow16(16) == 0x10000000000000000);
    assert(pow16(17) == 0x100000000000000000);
    assert(pow16(18) == 0x1000000000000000000);
    assert(pow16(19) == 0x10000000000000000000);
    assert(pow16(20) == 0x100000000000000000000);
    assert(pow16(21) == 0x1000000000000000000000);
    assert(pow16(22) == 0x10000000000000000000000);
    assert(pow16(23) == 0x100000000000000000000000);
    assert(pow16(24) == 0x1000000000000000000000000);
    assert(pow16(25) == 0x10000000000000000000000000);
    assert(pow16(26) == 0x100000000000000000000000000);
    assert(pow16(27) == 0x1000000000000000000000000000);
    assert(pow16(28) == 0x10000000000000000000000000000);
    assert(pow16(29) == 0x100000000000000000000000000000);
    assert(pow16(30) == 0x1000000000000000000000000000000);
    assert(pow16(31) == 0x10000000000000000000000000000000);
    assert(pow16(32) == 0x100000000000000000000000000000000);
}

proof fn lemma_hex_fixed_shape(n: int, w: nat)
    requires
        n >= 0,
    ensures
        hex_fixed(n, w).len() == w,
        forall|k: int| 0 <= k < w ==> is_hex(#[trigger] hex_fixed(n, w)[k]),
    decreases w,
{
    if w > 0 {
        lemma_hex_fixed_shape(n / 16, (w - 1) as nat);
        assert(is_hex(hex_char(n % 16))) by {
            crate::json::lemma_hex_char_val(n % 16);
        }
        assert forall|k: int| 0 <= k < w implies is_hex(#[trigger] hex_fixed(n, w)[k]) by {
            if k < w - 1 {
                assert(hex_fixed(n, w)[k] == hex_fixed(n / 16, (w - 1) as nat)[k]);
            } else {
                assert(hex_fixed(n, w)[k] == hex_char(n % 16));
            }
        }
    }
}

proof fn lemma_hex_seq_val_of_fixed(n: int, w: nat)
    requires
        0 <= n < pow16(w),
    ensures
        hex_seq_val(hex_fixed(n, w)) == n,
    decreases w,
{
    if w == 0 {
        assert(hex_fixed(n, 0int as nat) =~= Seq::<char>::empty());
    } else {
        let q = n / 16;
        assert(pow16(w) == 16 * pow16((w - 1) as nat));
        assert(q < pow16((w - 1) as nat)) by (nonlinear_arith)
            requires
                0 <= n,
                n < 16 * pow16((w - 1) as nat),
                q == n / 16,
        ;
        lemma_hex_seq_val_of_fixed(q, (w - 1) as nat);
        let h = hex_fixed(n, w);
        assert(h.drop_last() =~= hex_fixed(q, (w - 1) as nat));
        assert(h.last() == hex_char(n % 16));
        assert(hex_val(hex_char(n % 16)) == n % 16) by {
            crate::json::lemma_hex_char_val(n % 16);
        }
    }
}

/// Reading the canonical text of an identifier yields its value.
pub proof fn lemma_uid_text_round_trip(n: int)
    requires
        0 <= n < 0x1_0000_0000_0000_0000_0000_0000_0000_0000,
    ensures
        uid_of(uid_str(n)) == Some(n),
{
    lemma_pow16_32();
    lemma_hex_fixed_shape(n, 32);
    let h = hex_fixed(n, 32);
    let s = uid_str(n);
    assert(s.len() == 36);
    assert(s[8] == '-' && s[13] == '-' && s[18] == '-' && s[23] == '-');
    assert(uid_digits_at(s, 0) =~= h);
    lemma_hex_seq_val_of_fixed(n, 32);
}

fn hex_char_of_nibble(d: u8) -> (c: char)
    requires
        d < 16,
    ensures
        c == hex_char(d as int),
{
    if d < 10 {
        if d == 0 { '0' }
        else if d == 1 { '1' }
        else if d == 2 { '2' }
        else if d == 3 { '3' }
        else if d == 4 { '4' }
        else if d == 5 { '5' }
        else if d == 6 { '6' }
        else if d == 7 { '7' }
        else if d == 8 { '8' }
        else { '9' }
    } else {
        if d == 10 { 'a' }
        else if d == 11 { 'b' }
        else if d == 12 { 'c' }
        else if d == 13 { 'd' }
        else if d == 14 { 'e' }
        else { 'f' }
    }
}

fn push_hex_fixed(n: u128, w: usize, out: &mut Vec<char>)
    ensures
        final (out)@ == old(out)@ + hex_fixed(n as int, w as nat),
    decreases w,
{
    if w > 0 {
        push_hex_fixed(n / 16, w - 1, out);
        out.push(hex_char_of_nibble((n % 16) as u8));
    } else {
        proof {
            assert(old(out)@ + hex_fixed(n as int, 0int as nat) =~= old(out)@);
        }
    }
}

/// The canonical text of an identifier, exactly as `uid_str` describes it.
pub fn uid_text(id: &Uid) -> (r: String)
    ensures
        r@ == uid_str(id.value as int),
{
    let mut h: Vec<char> = Vec::new();
    push_hex_fixed(id.value, 32, &mut h);
    proof {
        assert(Seq::<char>::empty() + hex_fixed(id.value as int, 32) =~= hex_fixed(
            id.value as int,
            32,
        ));
        lemma_hex_fixed_shape(id.value as int, 32);
    }
    let mut out = String::new();
    let mut p: usize = 0;
    while p < 36
        invariant
            p <= 36,
            h@ == hex_fixed(id.value as int, 32),
            h@.len() == 32,
            out@ == uid_str(id.value as int).subrange(0, p as int),
        decreases 36 - p,
    {
        let c: char = if p == 8 || p == 13 || p == 18 || p == 23 {
            '-'
        } else if p < 8 {
            h[p]
        } else if p < 13 {
            h[p - 1]
        } else if p < 18 {
            h[p - 2]
        } else if p < 23 {
            h[p - 3]
        } else {
            h[p - 4]
        };
        proof {
            assert(uid_str(id.value as int)[p as int] == c);
        }
        push_char(&mut out, c);
        p = p + 1;
        proof {
            assert(out@ =~= uid_str(id.value as int).subrange(0, p as int));
        }
    }
    proof {
        assert(uid_str(id.value as int).subrange(0, 36) =~= uid_str(id.value as int));
    }
    out
}

proof fn lemma_pow16_pos_mono(w1: nat, w2: nat)
    requires
        w1 <= w2,
    ensures
        0 < pow16(w1) <= pow16(w2),
    decreases w2,
{
    if w2 > 0 {
        if w1 == w2 {
            lemma_pow16_pos_mono((w1 - 1) as nat, (w2 - 1) as nat);
        } else {
            lemma_pow16_pos_mono(w1, (w2 - 1) as nat);
        }
    }
}

/// Reads a hyphenated identifier starting at `off`, exactly as
/// `uid_hyphenated_at` describes it.
fn parse_hyphenated(cs: &Vec<char>, off: usize) -> (r: Option<u128>)
    requires
        off + 36 <= cs@.len(),
    ensures
        match r {
            Some(v) => uid_hyphenated_at(cs@, off as int) == Some(v as int),
            None => uid_hyphenated_at(cs@, off as int) is None,
        },
{
    let n = cs.len();
    if !(cs[off + 8] == '-' && cs[off + 13] == '-' && cs[off + 18] == '-' && cs[off + 23]
        == '-') {
        return None;
    }
    let ghost d = uid_digits_at(cs@, off as int);
    let mut acc: u128 = 0;
    let mut k: usize = 0;
    while k < 32
        invariant
            k <= 32,
            n == cs@.len(),
            off + 36 <= n,
            d == uid_digits_at(cs@, off as int),
            acc as int == hex_seq_val(d.take(k as int)),
            (acc as int) < pow16(k as nat),
            forall|x: int| 0 <= x < k ==> is_hex(#[trigger] d[x]),
        decreases 32 - k,
    {
        let p: usize = if k < 8 {
            off + k
        } else if k < 12 {
            off + k + 1
        } else if k < 16 {
            off + k + 2
        } else if k < 20 {
            off + k + 3
        } else {
            off + k + 4
        };
        let c = cs[p];
        proof {
            assert(d[k as int] == cs@[p as int]);
        }
        if !is_hex_exec(c) {
            proof {
                assert(!is_hex(uid_digits_at(cs@, off as int)[k as int]));
            }
            return None;
        }
        let hv = hex_val_exec(c);
        proof {
            lemma_pow16_pos_mono((k + 1) as nat, 32);
            lemma_pow16_32();
            assert(d.take(k as int + 1).drop_last() =~= d.take(k as int));
            assert(d.take(k as int + 1).last() == d[k as int]);
        }
        acc = acc * 16 + (hv as u128);
        k = k + 1;
    }
    proof {
        assert(d.take(32) =~= d);
    }
    Some(acc)
}

/// Reads the simple thirty-two-digit form, exactly as `uid_simple`
/// describes it.
fn parse_simple(cs: &Vec<char>) -> (r: Option<u128>)
    requires
        cs@.len() == 32,
    ensures
        match r {
            Some(v) => uid_simple(cs@) == Some(v as int),
            None => uid_simple(cs@) is None,
        },
{
    let mut acc: u128 = 0;
    let mut k: usize = 0;
    while k < 32
        invariant
            k <= 32,
            cs@.len() == 32,
            acc as int == hex_seq_val(cs@.take(k as int)),
            (acc as int) < pow16(k as nat),
            forall|x: int| 0 <= x < k ==> is_hex(#[trigger] cs@[x]),
        decreases 32 - k,
    {
        let c = cs[k];
        if !is_hex_exec(c) {
            return None;
        }
        let hv = hex_val_exec(c);
        proof {
            lemma_pow16_pos_mono((k + 1) as nat, 32);
            lemma_pow16_32();
            assert(cs@.take(k as int + 1).drop_last() =~= cs@.take(k as int));
            assert(cs@.take(k as int + 1).last() == cs@[k as int]);
        }
        acc = acc * 16 + (hv as u128);
        k = k + 1;
    }
    proof {
        assert(cs@.take(32) =~= cs@);
    }
    Some(acc)
}

/// Reads an identifier from any accepted text form, exactly as `uid_of`
/// describes it: hyphenated, simple, braced or uniform-resource-name;
/// everything else is refused.
pub fn uid_from_text(s: &str) -> (r: Option<Uid>)
    ensures
        match r {
            Some(id) => uid_of(s@) == Some(id.value as int),
            None => uid_of(s@) is None,
        },
{
    let cs = to_char_vec(s);
    let n = cs.len();
    if n == 36 {
        match parse_hyphenated(&cs, 0) {
            Some(v) => Some(Uid { value: v }),
            None => None,
        }
    } else if n == 32 {
        match parse_simple(&cs) {
            Some(v) => Some(Uid { value: v }),
            None => None,
        }
    } else if n == 38 {
        if !(cs[0] == '{' && cs[37] == '}') {
            return None;
        }
        match parse_hyphenated(&cs, 1) {
            Some(v) => Some(Uid { value: v }),
            None => None,
        }
    } else if n == 45 {
        let pat = "urn:uuid:";
        proof {
            reveal_strlit("urn:uuid:");
        }
        let mut j: usize = 0;
        while j < 9
            invariant
                j <= 9,
                cs@.len() == 45,
                cs@ == s@,
                pat@ == "urn:uuid:"@,
                pat@.len() == 9,
                forall|x: int| 0 <= x < j ==> cs@[x] == pat@[x],
            decreases 9 - j,
        {
            if cs[j] != pat.get_char(j) {
                proof {
                    assert(s@.subrange(0, 9)[j as int] != "urn:uuid:"@[j as int]);
                }
                return None;
            }
            j = j + 1;
        }
        proof {
            assert(s@.subrange(0, 9) =~= "urn:uuid:"@);
        }
        match parse_hyphenated(&cs, 9) {
            Some(v) => Some(Uid { value: v }),
            None => None,
        }
    } else {
        None
    }
}

} // verus!
