//! The wire codec for the local protocol. Each request and each response is
//! one newline-free line: numbers are fixed-width lower-case hex, characters
//! are their scalar values, strings are length-prefixed, and enums carry a
//! one-character tag. Decoding accepts exactly the encodings this module
//! produces; the round-trip laws are at the end of the module.

use vstd::prelude::*;

verus! {

use vstd::arithmetic::power::{lemma_pow_increases, pow};

use crate::ipc::{CmdModel, RespModel};
use crate::models::{RepeatMode, StateModel, TrackModel};

/// Whether `c` is a lower-case hex digit.
pub open spec fn is_hex_digit(c: char) -> bool {
    (48 <= c as u32 && c as u32 <= 57) || (97 <= c as u32 && c as u32 <= 102)
}

/// The hex digit for `n` (meaningful for `0 <= n < 16`).
pub open spec fn hex_char(n: int) -> char {
    if n == 0 { '0' } else if n == 1 { '1' } else if n == 2 { '2' }
    else if n == 3 { '3' } else if n == 4 { '4' } else if n == 5 { '5' }
    else if n == 6 { '6' } else if n == 7 { '7' } else if n == 8 { '8' }
    else if n == 9 { '9' } else if n == 10 { 'a' } else if n == 11 { 'b' }
    else if n == 12 { 'c' } else if n == 13 { 'd' } else if n == 14 { 'e' }
    else { 'f' }
}

/// The value of a hex digit (meaningful when [`is_hex_digit`] holds).
pub open spec fn hex_val(c: char) -> int {
    if 48 <= c as u32 && c as u32 <= 57 {
        c as u32 - 48
    } else {
        c as u32 - 87
    }
}

proof fn lemma_pow16_vals()
    ensures
        pow(16, 0) == 1,
        pow(16, 1) == 16,
        pow(16, 2) == 0x100,
        pow(16, 6) == 0x1000000,
        pow(16, 15) == 0x1000000000000000,
        pow(16, 16) == 0x10000000000000000,
{
    reveal_with_fuel(pow, 17);
}

proof fn lemma_hex_char(n: int)
    requires
        0 <= n < 16,
    ensures
        is_hex_digit(hex_char(n)),
        hex_val(hex_char(n)) == n,
{
}

/// `x` written as exactly `k` hex digits, most significant first
/// (meaningful for `0 <= x < 16^k`).
pub open spec fn spec_enc_nat(x: int, k: nat) -> Seq<char>
    decreases k,
{
    if k == 0 {
        Seq::empty()
    } else {
        spec_enc_nat(x / 16, (k - 1) as nat).push(hex_char(x % 16))
    }
}

/// Whether every character of `s` is a hex digit.
pub open spec fn all_hex(s: Seq<char>) -> bool {
    forall|i: int| 0 <= i < s.len() ==> is_hex_digit(#[trigger] s[i])
}

/// The value of a sequence of hex digits, most significant first.
pub open spec fn hex_seq_val(s: Seq<char>) -> int
    decreases s.len(),
{
    if s.len() == 0 {
        0
    } else {
        hex_seq_val(s.drop_last()) * 16 + hex_val(s.last())
    }
}

proof fn lemma_hex_seq_val_bound(s: Seq<char>)
    requires
        all_hex(s),
    ensures
        0 <= hex_seq_val(s) < pow(16, s.len() as nat),
    decreases s.len(),
{
    if s.len() == 0 {
        lemma_pow16_vals();
    } else {
        assert(all_hex(s.drop_last())) by {
            assert(forall|i: int| 0 <= i < s.len() - 1 ==> s.drop_last()[i] == s[i]);
        }
        lemma_hex_seq_val_bound(s.drop_last());
        assert(pow(16, s.len() as nat) == 16 * pow(16, (s.len() - 1) as nat)) by {
            reveal(pow);
        }
        assert(0 <= hex_val(s.last()) < 16);
    }
}

proof fn lemma_enc_nat(x: int, k: nat)
    requires
        0 <= x < pow(16, k),
    ensures
        spec_enc_nat(x, k).len() == k,
        all_hex(spec_enc_nat(x, k)),
        hex_seq_val(spec_enc_nat(x, k)) == x,
    decreases k,
{
    if k == 0 {
        lemma_pow16_vals();
    } else {
        assert(pow(16, k) == 16 * pow(16, (k - 1) as nat)) by {
            reveal(pow);
        }
        assert(x / 16 < pow(16, (k - 1) as nat)) by {
            assert(x <= 16 * pow(16, (k - 1) as nat) - 1);
        }
        lemma_enc_nat(x / 16, (k - 1) as nat);
        lemma_hex_char(x % 16);
        let e = spec_enc_nat(x, k);
        let inner = spec_enc_nat(x / 16, (k - 1) as nat);
        assert(e.drop_last() =~= inner);
        assert(e.last() == hex_char(x % 16));
        assert(hex_seq_val(e) == hex_seq_val(inner) * 16 + (x % 16));
        assert(forall|i: int| 0 <= i < e.len() ==> is_hex_digit(#[trigger] e[i])) by {
            assert(forall|i: int| 0 <= i < inner.len() ==> e[i] == inner[i]);
        }
    }
}

/// Reads `k` hex digits as a number; fails if fewer than `k` characters
/// remain, a character is not a hex digit, or the value does not fit `u64`.
pub open spec fn spec_dec_nat(s: Seq<char>, k: nat) -> Option<u64> {
    if s.len() >= k && all_hex(s.take(k as int)) && 0 <= hex_seq_val(s.take(k as int))
        <= u64::MAX {
        Some(hex_seq_val(s.take(k as int)) as u64)
    } else {
        None
    }
}

proof fn lemma_dec_enc_nat(x: int, k: nat, rest: Seq<char>)
    requires
        0 <= x < pow(16, k),
        k <= 16,
    ensures
        spec_dec_nat(spec_enc_nat(x, k) + rest, k) == Some(x as u64),
        spec_enc_nat(x, k).len() == k,
{
    lemma_enc_nat(x, k);
    lemma_pow_increases(16, k, 16);
    lemma_pow16_vals();
    let e = spec_enc_nat(x, k);
    assert((e + rest).take(k as int) =~= e);
}

fn hex_char_of(d: u64) -> (r: char)
    requires
        d < 16,
    ensures
        r == hex_char(d as int),
{
    match d {
        0 => '0',
        1 => '1',
        2 => '2',
        3 => '3',
        4 => '4',
        5 => '5',
        6 => '6',
        7 => '7',
        8 => '8',
        9 => '9',
        10 => 'a',
        11 => 'b',
        12 => 'c',
        13 => 'd',
        14 => 'e',
        _ => 'f',
    }
}

fn hex_val_of(c: char) -> (r: Option<u64>)
    ensures
        r is Some <==> is_hex_digit(c),
        r matches Some(v) ==> v == hex_val(c) && v < 16,
{
    let u = c as u32;
    if 48 <= u && u <= 57 {
        Some((u - 48) as u64)
    } else if 97 <= u && u <= 102 {
        Some((u - 87) as u64)
    } else {
        None
    }
}

/// Appends `x` as exactly `k` hex digits.
fn enc_nat(out: &mut Vec<char>, x: u64, k: usize)
    requires
        (x as int) < pow(16, k as nat),
    ensures
        final(out)@ == old(out)@ + spec_enc_nat(x as int, k as nat),
    decreases k,
{
    if k == 0 {
        proof {
            assert(old(out)@ + spec_enc_nat(x as int, 0) =~= old(out)@);
        }
    } else {
        proof {
            assert(pow(16, k as nat) == 16 * pow(16, (k - 1) as nat)) by {
                reveal(pow);
            }
            assert((x as int) / 16 < pow(16, (k - 1) as nat)) by {
                assert(x as int <= 16 * pow(16, (k - 1) as nat) - 1);
            }
        }
        enc_nat(out, x / 16, k - 1);
        out.push(hex_char_of(x % 16));
        proof {
            assert(final(out)@ =~= old(out)@ + spec_enc_nat(x as int, k as nat));
        }
    }
}

/// Reads exactly `k` hex digits as a number, advancing `pos` on success.
fn dec_nat(v: &Vec<char>, pos: &mut usize, k: usize) -> (r: Option<u64>)
    requires
        k <= 16,
        *old(pos) <= v@.len(),
    ensures
        *final(pos) <= v@.len(),
        *final(pos) >= *old(pos),
        r matches Some(x) ==> *final(pos) == *old(pos) + k && spec_dec_nat(
            v@.skip(*old(pos) as int),
            k as nat,
        ) == Some(x),
        r is None ==> *final(pos) == *old(pos) && spec_dec_nat(
            v@.skip(*old(pos) as int),
            k as nat,
        ) is None,
{
    let ghost s = v@.skip(*pos as int);
    proof {
        lemma_pow16_vals();
    }
    let n = v.len();
    if n - *pos < k {
        return None;
    }
    let mut acc: u64 = 0;
    let mut j: usize = 0;
    while j < k
        invariant
            k <= 16,
            v@.len() <= usize::MAX,
            *pos + k <= v@.len(),
            j <= k,
            s == v@.skip(*pos as int),
            all_hex(s.take(j as int)),
            acc == hex_seq_val(s.take(j as int)),
            0 <= acc as int && (acc as int) < pow(16, j as nat),
        decreases k - j,
    {
        let c = v[*pos + j];
        proof {
            assert(s[j as int] == c);
        }
        let d = match hex_val_of(c) {
            Some(d) => d,
            None => {
                proof {
                    assert(!all_hex(s.take(k as int))) by {
                        assert(s.take(k as int)[j as int] == c);
                    }
                }
                return None;
            },
        };
        proof {
            lemma_pow_increases(16, j as nat, 15);
            lemma_pow16_vals();
            let t = s.take(j + 1);
            assert(t.drop_last() =~= s.take(j as int));
            assert(t.last() == c);
            assert(pow(16, (j + 1) as nat) == 16 * pow(16, j as nat)) by {
                reveal(pow);
            }
        }
        acc = acc * 16 + d;
        j = j + 1;
    }
    proof {
        lemma_pow_increases(16, k as nat, 16);
        lemma_pow16_vals();
    }
    *pos = *pos + k;
    Some(acc)
}


/// Whether `v` is a Unicode scalar value, i.e. the code of some character.
pub open spec fn valid_scalar(v: u64) -> bool {
    v < 0xD800 || (0xE000 <= v && v <= 0x10FFFF)
}

/// Relies on std's `char::from_u32`: `Some` exactly on Unicode scalar
/// values, returning the character with that code.
pub assume_specification[ char::from_u32 ](v: u32) -> (r: Option<char>)
    ensures
        r matches Some(c) ==> c as u32 == v,
        valid_scalar(v as u64) ==> r is Some,
;

proof fn seq_split<A>(a: Seq<A>, b: Seq<A>)
    ensures
        (a + b).take(a.len() as int) == a,
        (a + b).skip(a.len() as int) == b,
{
    assert((a + b).take(a.len() as int) =~= a);
    assert((a + b).skip(a.len() as int) =~= b);
}

proof fn seq_assoc<A>(a: Seq<A>, b: Seq<A>, c: Seq<A>)
    ensures
        (a + b) + c == a + (b + c),
{
    assert((a + b) + c =~= a + (b + c));
}

proof fn seq_skip_skip<A>(s: Seq<A>, m: int, n: int)
    requires
        0 <= m,
        0 <= n,
        m + n <= s.len(),
    ensures
        s.skip(m).skip(n) == s.skip(m + n),
{
    assert(s.skip(m).skip(n) =~= s.skip(m + n));
}

/// One character, written as its scalar value in 6 hex digits.
pub open spec fn spec_enc_char(c: char) -> Seq<char> {
    spec_enc_nat(c as int, 6)
}

/// Reads one encoded character; fails on a number that is no scalar value.
pub open spec fn spec_dec_char(s: Seq<char>) -> Option<char> {
    match spec_dec_nat(s, 6) {
        Some(x) => if valid_scalar(x) {
            Some((x as u32) as char)
        } else {
            None
        },
        None => None,
    }
}

proof fn lemma_dec_enc_char(c: char, rest: Seq<char>)
    ensures
        spec_enc_char(c).len() == 6,
        spec_dec_char(spec_enc_char(c) + rest) == Some(c),
{
    lemma_pow16_vals();
    lemma_dec_enc_nat(c as int, 6, rest);
    vstd::utf8::char_u32_cast(c, c as u32);
}

fn enc_char(out: &mut Vec<char>, c: char)
    ensures
        final(out)@ == old(out)@ + spec_enc_char(c),
{
    proof {
        lemma_pow16_vals();
    }
    enc_nat(out, c as u32 as u64, 6);
}

fn dec_char(v: &Vec<char>, pos: &mut usize) -> (r: Option<char>)
    requires
        *old(pos) <= v@.len(),
    ensures
        *final(pos) <= v@.len(),
        *final(pos) >= *old(pos),
        r matches Some(c) ==> *final(pos) == *old(pos) + 6 && spec_dec_char(
            v@.skip(*old(pos) as int),
        ) == Some(c),
        r is None ==> spec_dec_char(v@.skip(*old(pos) as int)) is None,
{
    let x = match dec_nat(v, pos, 6) {
        Some(x) => x,
        None => {
            return None;
        },
    };
    proof {
        let s = v@.skip(*old(pos) as int);
        lemma_hex_seq_val_bound(s.take(6));
        lemma_pow16_vals();
    }
    match char::from_u32(x as u32) {
        Some(c) => {
            proof {
                vstd::utf8::char_u32_cast(c, x as u32);
            }
            Some(c)
        },
        None => None,
    }
}

/// The characters of a string, one after another.
pub open spec fn spec_enc_chars(s: Seq<char>) -> Seq<char>
    decreases s.len(),
{
    if s.len() == 0 {
        Seq::empty()
    } else {
        spec_enc_char(s[0]) + spec_enc_chars(s.drop_first())
    }
}

/// Reads `k` encoded characters.
pub open spec fn spec_dec_chars(s: Seq<char>, k: nat) -> Option<Seq<char>>
    decreases k,
{
    if k == 0 {
        Some(Seq::empty())
    } else {
        match spec_dec_char(s) {
            Some(c) => match spec_dec_chars(s.skip(6), (k - 1) as nat) {
                Some(cs) => Some(seq![c] + cs),
                None => None,
            },
            None => None,
        }
    }
}

proof fn lemma_enc_chars_len(s: Seq<char>)
    ensures
        spec_enc_chars(s).len() == 6 * s.len(),
    decreases s.len(),
{
    if s.len() > 0 {
        lemma_enc_chars_len(s.drop_first());
        lemma_dec_enc_char(s[0], Seq::empty());
    }
}

proof fn lemma_enc_chars_push(a: Seq<char>, c: char)
    ensures
        spec_enc_chars(a.push(c)) == spec_enc_chars(a) + spec_enc_char(c),
    decreases a.len(),
{
    let p = a.push(c);
    assert(spec_enc_chars(Seq::<char>::empty()) == Seq::<char>::empty());
    if a.len() == 0 {
        assert(p.drop_first() =~= Seq::<char>::empty());
        assert(p[0] == c);
        assert(spec_enc_chars(p) == spec_enc_char(c) + spec_enc_chars(Seq::<char>::empty()));
        assert(spec_enc_char(c) + Seq::<char>::empty() =~= spec_enc_char(c));
        assert(spec_enc_chars(a) == Seq::<char>::empty());
        assert(Seq::<char>::empty() + spec_enc_char(c) =~= spec_enc_char(c));
    } else {
        assert(p[0] == a[0]);
        assert(p.drop_first() =~= a.drop_first().push(c));
        assert(spec_enc_chars(p) == spec_enc_char(a[0]) + spec_enc_chars(a.drop_first().push(c)));
        lemma_enc_chars_push(a.drop_first(), c);
        seq_assoc(spec_enc_char(a[0]), spec_enc_chars(a.drop_first()), spec_enc_char(c));
    }
}

proof fn lemma_dec_enc_chars(s: Seq<char>, rest: Seq<char>)
    ensures
        spec_dec_chars(spec_enc_chars(s) + rest, s.len() as nat) == Some(s),
    decreases s.len(),
{
    lemma_enc_chars_len(s);
    if s.len() == 0 {
        assert(Seq::<char>::empty() =~= s);
    } else {
        let head = spec_enc_char(s[0]);
        let tail = spec_enc_chars(s.drop_first());
        seq_assoc(head, tail, rest);
        lemma_dec_enc_char(s[0], tail + rest);
        seq_split(head, tail + rest);
        lemma_dec_enc_chars(s.drop_first(), rest);
        assert((head + (tail + rest)).skip(6) == tail + rest);
        assert(seq![s[0]] + s.drop_first() =~= s);
    }
}

/// A string: its character count, then its characters.
pub open spec fn spec_enc_string(s: Seq<char>) -> Seq<char> {
    spec_enc_nat(s.len() as int, 16) + spec_enc_chars(s)
}

/// Reads a string; the result and how many characters were consumed.
pub open spec fn spec_dec_string(s: Seq<char>) -> Option<(Seq<char>, int)> {
    match spec_dec_nat(s, 16) {
        Some(n) => match spec_dec_chars(s.skip(16), n as nat) {
            Some(cs) => Some((cs, 16 + 6 * (n as int))),
            None => None,
        },
        None => None,
    }
}

proof fn lemma_dec_enc_string(s: Seq<char>, rest: Seq<char>)
    requires
        s.len() <= u64::MAX,
    ensures
        spec_enc_string(s).len() == 16 + 6 * s.len(),
        spec_dec_string(spec_enc_string(s) + rest) == Some((s, spec_enc_string(s).len() as int)),
{
    lemma_pow16_vals();
    let lenf = spec_enc_nat(s.len() as int, 16);
    let body = spec_enc_chars(s);
    lemma_enc_chars_len(s);
    lemma_dec_enc_nat(s.len() as int, 16, body + rest);
    seq_assoc(lenf, body, rest);
    seq_split(lenf, body + rest);
    lemma_dec_enc_chars(s, rest);
    assert((lenf + (body + rest)).skip(16) == body + rest);
}

fn enc_chars_vec(out: &mut Vec<char>, cs: &Vec<char>)
    ensures
        final(out)@ == old(out)@ + spec_enc_chars(cs@),
{
    let mut i: usize = 0;
    while i < cs.len()
        invariant
            i <= cs.len(),
            out@ == old(out)@ + spec_enc_chars(cs@.take(i as int)),
        decreases cs.len() - i,
    {
        enc_char(out, cs[i]);
        i = i + 1;
        proof {
            assert(cs@.take(i as int) =~= cs@.take(i - 1).push(cs@[i - 1]));
            lemma_enc_chars_push(cs@.take(i - 1), cs@[i - 1]);
            seq_assoc(old(out)@, spec_enc_chars(cs@.take(i - 1)), spec_enc_char(cs@[i - 1]));
        }
    }
    proof {
        assert(cs@.take(cs.len() as int) =~= cs@);
    }
}

/// Appends the encoding of a string.
fn enc_string(out: &mut Vec<char>, s: &str)
    ensures
        final(out)@ == old(out)@ + spec_enc_string(s@),
{
    let cs = crate::text::str_to_chars(s);
    proof {
        lemma_pow16_vals();
        lemma_pow_increases(16, 16, 16);
    }
    assert(cs.len() <= usize::MAX);
    proof {
        assert((cs.len() as int) < pow(16, 16));
    }
    enc_nat(out, cs.len() as u64, 16);
    enc_chars_vec(out, &cs);
    proof {
        seq_assoc(old(out)@, spec_enc_nat(s@.len() as int, 16), spec_enc_chars(s@));
    }
}

/// Reads a string.
fn dec_string(v: &Vec<char>, pos: &mut usize) -> (r: Option<String>)
    requires
        *old(pos) <= v@.len(),
    ensures
        *final(pos) <= v@.len(),
        *final(pos) >= *old(pos),
        r matches Some(st) ==> spec_dec_string(v@.skip(*old(pos) as int)) == Some(
            (st@, *final(pos) - *old(pos)),
        ),
        r is None ==> spec_dec_string(v@.skip(*old(pos) as int)) is None,
{
    let ghost s = v@.skip(*old(pos) as int);
    let count = match dec_nat(v, pos, 16) {
        Some(n) => n,
        None => {
            return None;
        },
    };
    let ghost s16 = s.skip(16);
    proof {
        seq_skip_skip(v@, *old(pos) as int, 16);
    }
    let mut acc: Vec<char> = Vec::new();
    let mut i: u64 = 0;
    let ghost pos_mid = *pos;
    while i < count
        invariant
            i <= count,
            *pos <= v@.len(),
            s == v@.skip(*old(pos) as int),
            s16 == s.skip(16),
            spec_dec_nat(s, 16) == Some(count),
            s16 == v@.skip(pos_mid as int),
            pos_mid == *old(pos) + 16,
            *pos == pos_mid + 6 * i,
            acc@.len() == i,
            spec_dec_chars(s16, count as nat) == (match spec_dec_chars(
                v@.skip(*pos as int),
                (count - i) as nat,
            ) {
                Some(tail) => Some(acc@ + tail),
                None => None::<Seq<char>>,
            }),
        decreases count - i,
    {
        let ghost pos_before = *pos;
        let c = match dec_char(v, pos) {
            Some(c) => c,
            None => {
                proof {
                    assert(spec_dec_chars(v@.skip(pos_before as int), (count - i) as nat)
                        is None);
                    assert(spec_dec_chars(s16, count as nat) is None);
                    assert(spec_dec_nat(s, 16) == Some(count));
                    assert(spec_dec_chars(s.skip(16), count as nat) is None);
                    assert(spec_dec_string(s) is None);
                }
                return None;
            },
        };
        acc.push(c);
        i = i + 1;
        proof {
            seq_skip_skip(v@, pos_before as int, 6);
            let tail_rel = spec_dec_chars(v@.skip(*pos as int), (count - i) as nat);
            match tail_rel {
                Some(tail) => {
                    assert(acc@ + tail =~= acc@.drop_last() + (seq![c] + tail));
                },
                None => {},
            }
        }
    }
    proof {
        assert(spec_dec_chars(v@.skip(*pos as int), 0) == Some(Seq::<char>::empty()));
        assert(acc@ + Seq::<char>::empty() =~= acc@);
    }
    Some(crate::text::chars_to_string(&acc))
}

/// A boolean as a single marker character.
pub open spec fn spec_enc_bool(b: bool) -> Seq<char> {
    if b {
        seq!['1']
    } else {
        seq!['0']
    }
}

/// Reads a boolean marker.
pub open spec fn spec_dec_bool(s: Seq<char>) -> Option<bool> {
    if s.len() >= 1 {
        if s[0] == '1' {
            Some(true)
        } else if s[0] == '0' {
            Some(false)
        } else {
            None
        }
    } else {
        None
    }
}

fn enc_bool(out: &mut Vec<char>, b: bool)
    ensures
        final(out)@ == old(out)@ + spec_enc_bool(b),
{
    if b {
        out.push('1');
    } else {
        out.push('0');
    }
    proof {
        assert(final(out)@ =~= old(out)@ + spec_enc_bool(b));
    }
}

fn dec_bool(v: &Vec<char>, pos: &mut usize) -> (r: Option<bool>)
    requires
        *old(pos) <= v@.len(),
    ensures
        *final(pos) <= v@.len(),
        *final(pos) >= *old(pos),
        r matches Some(b) ==> *final(pos) == *old(pos) + 1 && spec_dec_bool(
            v@.skip(*old(pos) as int),
        ) == Some(b),
        r is None ==> spec_dec_bool(v@.skip(*old(pos) as int)) is None,
{
    if *pos >= v.len() {
        return None;
    }
    let c = v[*pos];
    proof {
        assert(v@.skip(*pos as int)[0] == c);
    }
    if c == '1' {
        *pos = *pos + 1;
        Some(true)
    } else if c == '0' {
        *pos = *pos + 1;
        Some(false)
    } else {
        None
    }
}

/// A repeat mode as a single tag character.
pub open spec fn spec_enc_repeat(m: RepeatMode) -> Seq<char> {
    match m {
        RepeatMode::Off => seq!['f'],
        RepeatMode::One => seq!['o'],
        RepeatMode::All => seq!['a'],
    }
}

/// Reads a repeat-mode tag.
pub open spec fn spec_dec_repeat(s: Seq<char>) -> Option<RepeatMode> {
    if s.len() >= 1 {
        if s[0] == 'f' {
            Some(RepeatMode::Off)
        } else if s[0] == 'o' {
            Some(RepeatMode::One)
        } else if s[0] == 'a' {
            Some(RepeatMode::All)
        } else {
            None
        }
    } else {
        None
    }
}

fn enc_repeat(out: &mut Vec<char>, m: RepeatMode)
    ensures
        final(out)@ == old(out)@ + spec_enc_repeat(m),
{
    match m {
        RepeatMode::Off => out.push('f'),
        RepeatMode::One => out.push('o'),
        RepeatMode::All => out.push('a'),
    }
    proof {
        assert(final(out)@ =~= old(out)@ + spec_enc_repeat(m));
    }
}

fn dec_repeat(v: &Vec<char>, pos: &mut usize) -> (r: Option<RepeatMode>)
    requires
        *old(pos) <= v@.len(),
    ensures
        *final(pos) <= v@.len(),
        *final(pos) >= *old(pos),
        r matches Some(m) ==> *final(pos) == *old(pos) + 1 && spec_dec_repeat(
            v@.skip(*old(pos) as int),
        ) == Some(m),
        r is None ==> spec_dec_repeat(v@.skip(*old(pos) as int)) is None,
{
    if *pos >= v.len() {
        return None;
    }
    let c = v[*pos];
    proof {
        assert(v@.skip(*pos as int)[0] == c);
    }
    if c == 'f' {
        *pos = *pos + 1;
        Some(RepeatMode::Off)
    } else if c == 'o' {
        *pos = *pos + 1;
        Some(RepeatMode::One)
    } else if c == 'a' {
        *pos = *pos + 1;
        Some(RepeatMode::All)
    } else {
        None
    }
}


/// An optional string: a presence marker, then the string if present.
pub open spec fn spec_enc_opt_str(a: Option<Seq<char>>) -> Seq<char> {
    match a {
        None => seq!['0'],
        Some(x) => seq!['1'] + spec_enc_string(x),
    }
}

/// Reads an optional string.
pub open spec fn spec_dec_opt_str(s: Seq<char>) -> Option<(Option<Seq<char>>, int)> {
    if s.len() < 1 {
        None
    } else if s[0] == '0' {
        Some((None, 1))
    } else if s[0] == '1' {
        match spec_dec_string(s.skip(1)) {
            Some((x, n)) => Some((Some(x), 1 + n)),
            None => None,
        }
    } else {
        None
    }
}

proof fn lemma_dec_enc_opt_str(a: Option<Seq<char>>, rest: Seq<char>)
    requires
        a matches Some(x) ==> x.len() <= u64::MAX,
    ensures
        spec_dec_opt_str(spec_enc_opt_str(a) + rest) == Some(
            (a, spec_enc_opt_str(a).len() as int),
        ),
{
    match a {
        None => {
            assert((seq!['0'] + rest)[0] == '0');
        },
        Some(x) => {
            let e = spec_enc_string(x);
            seq_assoc(seq!['1'], e, rest);
            assert((seq!['1'] + (e + rest))[0] == '1');
            assert((seq!['1'] + (e + rest)).skip(1) =~= e + rest);
            lemma_dec_enc_string(x, rest);
        },
    }
}

fn enc_opt_str(out: &mut Vec<char>, a: &Option<String>)
    ensures
        final(out)@ == old(out)@ + spec_enc_opt_str(match a {
            Some(x) => Some(x@),
            None => None,
        }),
{
    match a {
        None => {
            out.push('0');
            proof {
                assert(final(out)@ =~= old(out)@ + seq!['0']);
            }
        },
        Some(x) => {
            out.push('1');
            enc_string(out, x.as_str());
            proof {
                assert(old(out)@.push('1') =~= old(out)@ + seq!['1']);
                seq_assoc(old(out)@, seq!['1'], spec_enc_string(x@));
            }
        },
    }
}

fn dec_opt_str(v: &Vec<char>, pos: &mut usize) -> (r: Option<Option<String>>)
    requires
        *old(pos) <= v@.len(),
    ensures
        *final(pos) <= v@.len(),
        *final(pos) >= *old(pos),
        r matches Some(a) ==> spec_dec_opt_str(v@.skip(*old(pos) as int)) == Some(
            (
                match a {
                    Some(x) => Some(x@),
                    None => None,
                },
                *final(pos) - *old(pos),
            ),
        ),
        r is None ==> spec_dec_opt_str(v@.skip(*old(pos) as int)) is None,
{
    let ghost s = v@.skip(*old(pos) as int);
    if *pos >= v.len() {
        return None;
    }
    let c = v[*pos];
    proof {
        assert(s[0] == c);
    }
    if c == '0' {
        *pos = *pos + 1;
        Some(None)
    } else if c == '1' {
        *pos = *pos + 1;
        proof {
            seq_skip_skip(v@, *old(pos) as int, 1);
        }
        match dec_string(v, pos) {
            Some(x) => Some(Some(x)),
            None => None,
        }
    } else {
        None
    }
}

impl TrackModel {
    /// Whether the track fits the wire format: every string is short enough
    /// for its length field.
    pub open spec fn encodable(self) -> bool {
        &&& self.id.len() <= u64::MAX
        &&& self.url.len() <= u64::MAX
        &&& self.title.len() <= u64::MAX
        &&& (self.alias matches Some(a) ==> a.len() <= u64::MAX)
        &&& self.file_path.len() <= u64::MAX
    }
}

/// A track: its strings, numbers and availability flag in a fixed order.
pub open spec fn spec_enc_track(t: TrackModel) -> Seq<char> {
    spec_enc_string(t.id) + spec_enc_string(t.url) + spec_enc_string(t.title)
        + spec_enc_opt_str(t.alias) + spec_enc_nat(t.duration as int, 16)
        + spec_enc_nat(t.added_at as int, 16) + spec_enc_string(t.file_path)
        + spec_enc_bool(t.available)
}

/// Reads a track.
pub open spec fn spec_dec_track(s: Seq<char>) -> Option<(TrackModel, int)> {
    match spec_dec_string(s) {
        None => None,
        Some((id, n1)) => match spec_dec_string(s.skip(n1)) {
            None => None,
            Some((url, n2)) => match spec_dec_string(s.skip(n1 + n2)) {
                None => None,
                Some((title, n3)) => match spec_dec_opt_str(s.skip(n1 + n2 + n3)) {
                    None => None,
                    Some((alias, n4)) => match spec_dec_nat(s.skip(n1 + n2 + n3 + n4), 16) {
                        None => None,
                        Some(duration) => match spec_dec_nat(
                            s.skip(n1 + n2 + n3 + n4 + 16),
                            16,
                        ) {
                            None => None,
                            Some(added_at) => match spec_dec_string(
                                s.skip(n1 + n2 + n3 + n4 + 32),
                            ) {
                                None => None,
                                Some((file_path, n7)) => match spec_dec_bool(
                                    s.skip(n1 + n2 + n3 + n4 + 32 + n7),
                                ) {
                                    None => None,
                                    Some(available) => Some(
                                        (
                                            TrackModel {
                                                id,
                                                url,
                                                title,
                                                alias,
                                                duration,
                                                added_at,
                                                file_path,
                                                available,
                                            },
                                            n1 + n2 + n3 + n4 + 32 + n7 + 1,
                                        ),
                                    ),
                                },
                            },
                        },
                    },
                },
            },
        },
    }
}

proof fn lemma_dec_enc_bool(b: bool, rest: Seq<char>)
    ensures
        spec_dec_bool(spec_enc_bool(b) + rest) == Some(b),
{
    assert((spec_enc_bool(b) + rest)[0] == spec_enc_bool(b)[0]);
}

proof fn lemma_dec_enc_repeat(m: RepeatMode, rest: Seq<char>)
    ensures
        spec_dec_repeat(spec_enc_repeat(m) + rest) == Some(m),
{
    assert((spec_enc_repeat(m) + rest)[0] == spec_enc_repeat(m)[0]);
}

#[verifier::rlimit(100)]
#[verifier::spinoff_prover]
proof fn lemma_dec_enc_track(t: TrackModel, rest: Seq<char>)
    requires
        t.encodable(),
    ensures
        spec_dec_track(spec_enc_track(t) + rest) == Some((t, spec_enc_track(t).len() as int)),
{
    let e1 = spec_enc_string(t.id);
    let e2 = spec_enc_string(t.url);
    let e3 = spec_enc_string(t.title);
    let e4 = spec_enc_opt_str(t.alias);
    let e5 = spec_enc_nat(t.duration as int, 16);
    let e6 = spec_enc_nat(t.added_at as int, 16);
    let e7 = spec_enc_string(t.file_path);
    let e8 = spec_enc_bool(t.available);
    let s = spec_enc_track(t) + rest;
    let r8 = e8 + rest;
    let r7 = e7 + r8;
    let r6 = e6 + r7;
    let r5 = e5 + r6;
    let r4 = e4 + r5;
    let r3 = e3 + r4;
    let r2 = e2 + r3;
    let n1 = e1.len() as int;
    let n2 = e2.len() as int;
    let n3 = e3.len() as int;
    let n4 = e4.len() as int;
    let n7 = e7.len() as int;
    assert(s == e1 + r2) by {
        let x2 = e1 + e2;
        let x3 = x2 + e3;
        let x4 = x3 + e4;
        let x5 = x4 + e5;
        let x6 = x5 + e6;
        let x7 = x6 + e7;
        let x8 = x7 + e8;
        assert(spec_enc_track(t) == x8);
        seq_assoc(x7, e8, rest);
        seq_assoc(x6, e7, r8);
        seq_assoc(x5, e6, r7);
        seq_assoc(x4, e5, r6);
        seq_assoc(x3, e4, r5);
        seq_assoc(x2, e3, r4);
        seq_assoc(e1, e2, r3);
    }
    assert(s.skip(n1) == r2 && s.skip(n1 + n2) == r3 && s.skip(n1 + n2 + n3) == r4 && s.skip(
        n1 + n2 + n3 + n4,
    ) == r5 && s.skip(n1 + n2 + n3 + n4 + 16) == r6 && s.skip(n1 + n2 + n3 + n4 + 32) == r7
        && s.skip(n1 + n2 + n3 + n4 + 32 + n7) == r8 && e5.len() == 16 && e6.len() == 16
        && e8.len() == 1) by {
        lemma_pow16_vals();
        lemma_dec_enc_nat(t.duration as int, 16, r6);
        lemma_dec_enc_nat(t.added_at as int, 16, r7);
        seq_split(e1, r2);
        seq_split(e2, r3);
        seq_split(e3, r4);
        seq_split(e4, r5);
        seq_split(e5, r6);
        seq_split(e6, r7);
        seq_split(e7, r8);
        seq_skip_skip(s, n1, n2);
        seq_skip_skip(s, n1 + n2, n3);
        seq_skip_skip(s, n1 + n2 + n3, n4);
        seq_skip_skip(s, n1 + n2 + n3 + n4, 16);
        seq_skip_skip(s, n1 + n2 + n3 + n4 + 16, 16);
        seq_skip_skip(s, n1 + n2 + n3 + n4 + 32, n7);
    }
    assert(spec_dec_string(s) == Some((t.id, n1))) by {
        lemma_dec_enc_string(t.id, r2);
    }
    assert(spec_dec_string(s.skip(n1)) == Some((t.url, n2))) by {
        lemma_dec_enc_string(t.url, r3);
    }
    assert(spec_dec_string(s.skip(n1 + n2)) == Some((t.title, n3))) by {
        lemma_dec_enc_string(t.title, r4);
    }
    assert(spec_dec_opt_str(s.skip(n1 + n2 + n3)) == Some((t.alias, n4))) by {
        lemma_dec_enc_opt_str(t.alias, r5);
    }
    assert(spec_dec_nat(s.skip(n1 + n2 + n3 + n4), 16) == Some(t.duration)) by {
        lemma_pow16_vals();
        lemma_dec_enc_nat(t.duration as int, 16, r6);
    }
    assert(spec_dec_nat(s.skip(n1 + n2 + n3 + n4 + 16), 16) == Some(t.added_at)) by {
        lemma_pow16_vals();
        lemma_dec_enc_nat(t.added_at as int, 16, r7);
    }
    assert(spec_dec_string(s.skip(n1 + n2 + n3 + n4 + 32)) == Some((t.file_path, n7))) by {
        lemma_dec_enc_string(t.file_path, r8);
    }
    assert(spec_dec_bool(s.skip(n1 + n2 + n3 + n4 + 32 + n7)) == Some(t.available)) by {
        lemma_dec_enc_bool(t.available, rest);
    }
    assert(spec_enc_track(t).len() == n1 + n2 + n3 + n4 + 32 + n7 + 1);
}


/// Whether every track of a sequence fits the wire format.
pub open spec fn tracks_encodable(ts: Seq<TrackModel>) -> bool {
    forall|i: int| 0 <= i < ts.len() ==> (#[trigger] ts[i]).encodable()
}

/// Tracks one after another.
pub open spec fn spec_enc_track_list(ts: Seq<TrackModel>) -> Seq<char>
    decreases ts.len(),
{
    if ts.len() == 0 {
        Seq::empty()
    } else {
        spec_enc_track(ts[0]) + spec_enc_track_list(ts.drop_first())
    }
}

/// Reads `k` tracks.
pub open spec fn spec_dec_track_list(s: Seq<char>, k: nat) -> Option<(Seq<TrackModel>, int)>
    decreases k,
{
    if k == 0 {
        Some((Seq::empty(), 0))
    } else {
        match spec_dec_track(s) {
            Some((t, n)) => match spec_dec_track_list(s.skip(n), (k - 1) as nat) {
                Some((ts, m)) => Some((seq![t] + ts, n + m)),
                None => None,
            },
            None => None,
        }
    }
}

proof fn lemma_enc_track_list_push(ts: Seq<TrackModel>, t: TrackModel)
    ensures
        spec_enc_track_list(ts.push(t)) == spec_enc_track_list(ts) + spec_enc_track(t),
    decreases ts.len(),
{
    let p = ts.push(t);
    assert(spec_enc_track_list(Seq::<TrackModel>::empty()) == Seq::<char>::empty());
    if ts.len() == 0 {
        assert(p.drop_first() =~= Seq::<TrackModel>::empty());
        assert(p[0] == t);
        assert(spec_enc_track_list(p) == spec_enc_track(t) + spec_enc_track_list(
            Seq::<TrackModel>::empty(),
        ));
        assert(spec_enc_track(t) + Seq::<char>::empty() =~= spec_enc_track(t));
        assert(Seq::<char>::empty() + spec_enc_track(t) =~= spec_enc_track(t));
    } else {
        assert(p[0] == ts[0]);
        assert(p.drop_first() =~= ts.drop_first().push(t));
        assert(spec_enc_track_list(p) == spec_enc_track(ts[0]) + spec_enc_track_list(
            ts.drop_first().push(t),
        ));
        lemma_enc_track_list_push(ts.drop_first(), t);
        seq_assoc(spec_enc_track(ts[0]), spec_enc_track_list(ts.drop_first()), spec_enc_track(t));
    }
}

#[verifier::rlimit(100)]
#[verifier::spinoff_prover]
proof fn lemma_dec_enc_track_list(ts: Seq<TrackModel>, rest: Seq<char>)
    requires
        tracks_encodable(ts),
    ensures
        spec_dec_track_list(spec_enc_track_list(ts) + rest, ts.len() as nat) == Some(
            (ts, spec_enc_track_list(ts).len() as int),
        ),
    decreases ts.len(),
{
    if ts.len() == 0 {
        assert(Seq::<TrackModel>::empty() =~= ts);
        assert(spec_enc_track_list(ts) + rest =~= rest);
    } else {
        let head = spec_enc_track(ts[0]);
        let tail = spec_enc_track_list(ts.drop_first());
        seq_assoc(head, tail, rest);
        assert(ts[0].encodable());
        lemma_dec_enc_track(ts[0], tail + rest);
        seq_split(head, tail + rest);
        assert(tracks_encodable(ts.drop_first())) by {
            assert(forall|i: int| 0 <= i < ts.len() - 1 ==> ts.drop_first()[i] == ts[i + 1]);
        }
        lemma_dec_enc_track_list(ts.drop_first(), rest);
        assert((head + (tail + rest)).skip(head.len() as int) == tail + rest);
        assert(seq![ts[0]] + ts.drop_first() =~= ts);
    }
}

/// A queue: its length, then its tracks.
pub open spec fn spec_enc_tracks(ts: Seq<TrackModel>) -> Seq<char> {
    spec_enc_nat(ts.len() as int, 16) + spec_enc_track_list(ts)
}

/// Reads a queue.
pub open spec fn spec_dec_tracks(s: Seq<char>) -> Option<(Seq<TrackModel>, int)> {
    match spec_dec_nat(s, 16) {
        Some(n) => match spec_dec_track_list(s.skip(16), n as nat) {
            Some((ts, m)) => Some((ts, 16 + m)),
            None => None,
        },
        None => None,
    }
}

proof fn lemma_dec_enc_tracks(ts: Seq<TrackModel>, rest: Seq<char>)
    requires
        tracks_encodable(ts),
        ts.len() <= u64::MAX,
    ensures
        spec_dec_tracks(spec_enc_tracks(ts) + rest) == Some(
            (ts, spec_enc_tracks(ts).len() as int),
        ),
{
    lemma_pow16_vals();
    let lenf = spec_enc_nat(ts.len() as int, 16);
    let body = spec_enc_track_list(ts);
    lemma_dec_enc_nat(ts.len() as int, 16, body + rest);
    seq_assoc(lenf, body, rest);
    seq_split(lenf, body + rest);
    lemma_dec_enc_track_list(ts, rest);
    assert((lenf + (body + rest)).skip(16) == body + rest);
}

/// An optional track: a presence marker, then the track if present.
pub open spec fn spec_enc_opt_track(a: Option<TrackModel>) -> Seq<char> {
    match a {
        None => seq!['0'],
        Some(t) => seq!['1'] + spec_enc_track(t),
    }
}

/// Reads an optional track.
pub open spec fn spec_dec_opt_track(s: Seq<char>) -> Option<(Option<TrackModel>, int)> {
    if s.len() < 1 {
        None
    } else if s[0] == '0' {
        Some((None, 1))
    } else if s[0] == '1' {
        match spec_dec_track(s.skip(1)) {
            Some((t, n)) => Some((Some(t), 1 + n)),
            None => None,
        }
    } else {
        None
    }
}

proof fn lemma_dec_enc_opt_track(a: Option<TrackModel>, rest: Seq<char>)
    requires
        a matches Some(t) ==> t.encodable(),
    ensures
        spec_dec_opt_track(spec_enc_opt_track(a) + rest) == Some(
            (a, spec_enc_opt_track(a).len() as int),
        ),
{
    match a {
        None => {
            assert((seq!['0'] + rest)[0] == '0');
        },
        Some(t) => {
            let e = spec_enc_track(t);
            seq_assoc(seq!['1'], e, rest);
            assert((seq!['1'] + (e + rest))[0] == '1');
            assert((seq!['1'] + (e + rest)).skip(1) =~= e + rest);
            lemma_dec_enc_track(t, rest);
        },
    }
}

impl StateModel {
    /// Whether the state fits the wire format.
    pub open spec fn encodable(self) -> bool {
        &&& (self.current_track matches Some(t) ==> t.encodable())
        &&& tracks_encodable(self.queue)
        &&& self.queue.len() <= u64::MAX
        &&& 0 <= self.queue_index <= usize::MAX as int
    }
}

/// A playback state: current track, queue, index, flags, volume, position
/// and repeat mode, in a fixed order.
pub open spec fn spec_enc_state(st: StateModel) -> Seq<char> {
    spec_enc_opt_track(st.current_track) + spec_enc_tracks(st.queue) + spec_enc_nat(
        st.queue_index,
        16,
    ) + spec_enc_bool(st.is_playing) + spec_enc_nat(st.volume as int, 2) + spec_enc_nat(
        st.position as int,
        16,
    ) + spec_enc_bool(st.shuffle) + spec_enc_repeat(st.repeat)
}

/// Reads a playback state.
pub open spec fn spec_dec_state(s: Seq<char>) -> Option<(StateModel, int)> {
    match spec_dec_opt_track(s) {
        None => None,
        Some((current_track, n1)) => match spec_dec_tracks(s.skip(n1)) {
            None => None,
            Some((queue, n2)) => match spec_dec_nat(s.skip(n1 + n2), 16) {
                None => None,
                Some(qi) => if qi > usize::MAX as u64 {
                    None
                } else {
                    match spec_dec_bool(s.skip(n1 + n2 + 16)) {
                        None => None,
                        Some(is_playing) => match spec_dec_nat(s.skip(n1 + n2 + 17), 2) {
                            None => None,
                            Some(vol) => if vol > 255 {
                                None
                            } else {
                                match spec_dec_nat(s.skip(n1 + n2 + 19), 16) {
                                    None => None,
                                    Some(position) => match spec_dec_bool(
                                        s.skip(n1 + n2 + 35),
                                    ) {
                                        None => None,
                                        Some(shuffle) => match spec_dec_repeat(
                                            s.skip(n1 + n2 + 36),
                                        ) {
                                            None => None,
                                            Some(repeat) => Some(
                                                (
                                                    StateModel {
                                                        current_track,
                                                        queue,
                                                        queue_index: qi as int,
                                                        is_playing,
                                                        volume: vol as u8,
                                                        position,
                                                        shuffle,
                                                        repeat,
                                                    },
                                                    n1 + n2 + 37,
                                                ),
                                            ),
                                        },
                                    },
                                }
                            },
                        },
                    }
                },
            },
        },
    }
}

#[verifier::rlimit(100)]
#[verifier::spinoff_prover]
proof fn lemma_dec_enc_state(st: StateModel, rest: Seq<char>)
    requires
        st.encodable(),
    ensures
        spec_dec_state(spec_enc_state(st) + rest) == Some(
            (st, spec_enc_state(st).len() as int),
        ),
{
    let e1 = spec_enc_opt_track(st.current_track);
    let e2 = spec_enc_tracks(st.queue);
    let e3 = spec_enc_nat(st.queue_index, 16);
    let e4 = spec_enc_bool(st.is_playing);
    let e5 = spec_enc_nat(st.volume as int, 2);
    let e6 = spec_enc_nat(st.position as int, 16);
    let e7 = spec_enc_bool(st.shuffle);
    let e8 = spec_enc_repeat(st.repeat);
    let s = spec_enc_state(st) + rest;
    let r8 = e8 + rest;
    let r7 = e7 + r8;
    let r6 = e6 + r7;
    let r5 = e5 + r6;
    let r4 = e4 + r5;
    let r3 = e3 + r4;
    let r2 = e2 + r3;
    let n1 = e1.len() as int;
    let n2 = e2.len() as int;
    assert(s == e1 + r2) by {
        let x2 = e1 + e2;
        let x3 = x2 + e3;
        let x4 = x3 + e4;
        let x5 = x4 + e5;
        let x6 = x5 + e6;
        let x7 = x6 + e7;
        let x8 = x7 + e8;
        assert(spec_enc_state(st) == x8);
        seq_assoc(x7, e8, rest);
        seq_assoc(x6, e7, r8);
        seq_assoc(x5, e6, r7);
        seq_assoc(x4, e5, r6);
        seq_assoc(x3, e4, r5);
        seq_assoc(x2, e3, r4);
        seq_assoc(e1, e2, r3);
    }
    assert(s.skip(n1) == r2 && s.skip(n1 + n2) == r3 && s.skip(n1 + n2 + 16) == r4 && s.skip(
        n1 + n2 + 17,
    ) == r5 && s.skip(n1 + n2 + 19) == r6 && s.skip(n1 + n2 + 35) == r7 && s.skip(n1 + n2 + 36)
        == r8 && e3.len() == 16 && e4.len() == 1 && e5.len() == 2 && e6.len() == 16 && e7.len()
        == 1 && e8.len() == 1) by {
        lemma_pow16_vals();
        lemma_dec_enc_nat(st.queue_index, 16, r4);
        lemma_dec_enc_nat(st.volume as int, 2, r6);
        lemma_dec_enc_nat(st.position as int, 16, r7);
        seq_split(e1, r2);
        seq_split(e2, r3);
        seq_split(e3, r4);
        seq_split(e4, r5);
        seq_split(e5, r6);
        seq_split(e6, r7);
        seq_split(e7, r8);
        seq_skip_skip(s, n1, n2);
        seq_skip_skip(s, n1 + n2, 16);
        seq_skip_skip(s, n1 + n2 + 16, 1);
        seq_skip_skip(s, n1 + n2 + 17, 2);
        seq_skip_skip(s, n1 + n2 + 19, 16);
        seq_skip_skip(s, n1 + n2 + 35, 1);
        seq_skip_skip(s, n1 + n2 + 36, 1);
    }
    assert(spec_dec_opt_track(s) == Some((st.current_track, n1))) by {
        lemma_dec_enc_opt_track(st.current_track, r2);
    }
    assert(spec_dec_tracks(s.skip(n1)) == Some((st.queue, n2))) by {
        lemma_dec_enc_tracks(st.queue, r3);
    }
    assert(spec_dec_nat(s.skip(n1 + n2), 16) == Some(st.queue_index as u64)) by {
        lemma_pow16_vals();
        lemma_dec_enc_nat(st.queue_index, 16, r4);
    }
    assert(spec_dec_bool(s.skip(n1 + n2 + 16)) == Some(st.is_playing)) by {
        lemma_dec_enc_bool(st.is_playing, r5);
    }
    assert(spec_dec_nat(s.skip(n1 + n2 + 17), 2) == Some(st.volume as u64)) by {
        lemma_pow16_vals();
        lemma_dec_enc_nat(st.volume as int, 2, r6);
    }
    assert(spec_dec_nat(s.skip(n1 + n2 + 19), 16) == Some(st.position)) by {
        lemma_pow16_vals();
        lemma_dec_enc_nat(st.position as int, 16, r7);
    }
    assert(spec_dec_bool(s.skip(n1 + n2 + 35)) == Some(st.shuffle)) by {
        lemma_dec_enc_bool(st.shuffle, r8);
    }
    assert(spec_dec_repeat(s.skip(n1 + n2 + 36)) == Some(st.repeat)) by {
        lemma_dec_enc_repeat(st.repeat, rest);
    }
    assert(spec_enc_state(st).len() == n1 + n2 + 37);
}


impl CmdModel {
    /// Whether the command fits the wire format.
    pub open spec fn encodable(self) -> bool {
        match self {
            CmdModel::Play { track } => track.encodable(),
            CmdModel::PlayQueue { tracks, start_index } => {
                &&& tracks_encodable(tracks)
                &&& tracks.len() <= u64::MAX
                &&& 0 <= start_index <= usize::MAX as int
            },
            CmdModel::QueueAdd { track } => track.encodable(),
            _ => true,
        }
    }
}

/// A request: a one-character tag, then the variant's payload.
pub open spec fn spec_enc_command(c: CmdModel) -> Seq<char> {
    match c {
        CmdModel::Play { track } => seq!['P'] + spec_enc_track(track),
        CmdModel::PlayQueue { tracks, start_index } => seq!['Q'] + spec_enc_tracks(tracks)
            + spec_enc_nat(start_index, 16),
        CmdModel::Pause => seq!['U'],
        CmdModel::Resume => seq!['R'],
        CmdModel::Stop => seq!['S'],
        CmdModel::Next => seq!['N'],
        CmdModel::Previous => seq!['B'],
        CmdModel::Seek { position } => seq!['K'] + spec_enc_nat(position as int, 16),
        CmdModel::SetVolume { volume } => seq!['V'] + spec_enc_nat(volume as int, 2),
        CmdModel::SetShuffle { enabled } => seq!['H'] + spec_enc_bool(enabled),
        CmdModel::SetRepeat { mode } => seq!['M'] + spec_enc_repeat(mode),
        CmdModel::QueueAdd { track } => seq!['A'] + spec_enc_track(track),
        CmdModel::QueueClear => seq!['C'],
        CmdModel::GetStatus => seq!['G'],
        CmdModel::Shutdown => seq!['X'],
    }
}

/// Reads a request.
pub open spec fn spec_dec_command(s: Seq<char>) -> Option<(CmdModel, int)> {
    if s.len() < 1 {
        None
    } else {
        let tag = s[0];
        let body = s.skip(1);
        if tag == 'P' {
            match spec_dec_track(body) {
                Some((track, n)) => Some((CmdModel::Play { track }, 1 + n)),
                None => None,
            }
        } else if tag == 'Q' {
            match spec_dec_tracks(body) {
                Some((tracks, n)) => match spec_dec_nat(body.skip(n), 16) {
                    Some(si) => if si > usize::MAX as u64 {
                        None
                    } else {
                        Some(
                            (
                                CmdModel::PlayQueue { tracks, start_index: si as int },
                                1 + n + 16,
                            ),
                        )
                    },
                    None => None,
                },
                None => None,
            }
        } else if tag == 'U' {
            Some((CmdModel::Pause, 1))
        } else if tag == 'R' {
            Some((CmdModel::Resume, 1))
        } else if tag == 'S' {
            Some((CmdModel::Stop, 1))
        } else if tag == 'N' {
            Some((CmdModel::Next, 1))
        } else if tag == 'B' {
            Some((CmdModel::Previous, 1))
        } else if tag == 'K' {
            match spec_dec_nat(body, 16) {
                Some(x) => Some((CmdModel::Seek { position: x }, 17)),
                None => None,
            }
        } else if tag == 'V' {
            match spec_dec_nat(body, 2) {
                Some(x) => if x > 255 {
                    None
                } else {
                    Some((CmdModel::SetVolume { volume: x as u8 }, 3))
                },
                None => None,
            }
        } else if tag == 'H' {
            match spec_dec_bool(body) {
                Some(b) => Some((CmdModel::SetShuffle { enabled: b }, 2)),
                None => None,
            }
        } else if tag == 'M' {
            match spec_dec_repeat(body) {
                Some(m) => Some((CmdModel::SetRepeat { mode: m }, 2)),
                None => None,
            }
        } else if tag == 'A' {
            match spec_dec_track(body) {
                Some((track, n)) => Some((CmdModel::QueueAdd { track }, 1 + n)),
                None => None,
            }
        } else if tag == 'C' {
            Some((CmdModel::QueueClear, 1))
        } else if tag == 'G' {
            Some((CmdModel::GetStatus, 1))
        } else if tag == 'X' {
            Some((CmdModel::Shutdown, 1))
        } else {
            None
        }
    }
}

impl RespModel {
    /// Whether the response fits the wire format.
    pub open spec fn encodable(self) -> bool {
        match self {
            RespModel::Okay => true,
            RespModel::Status(st) => st.encodable(),
            RespModel::Error(m) => m.len() <= u64::MAX,
        }
    }
}

/// A response: a one-character tag, then the variant's payload.
pub open spec fn spec_enc_response(r: RespModel) -> Seq<char> {
    match r {
        RespModel::Okay => seq!['O'],
        RespModel::Status(st) => seq!['T'] + spec_enc_state(st),
        RespModel::Error(m) => seq!['E'] + spec_enc_string(m),
    }
}

/// Reads a response.
pub open spec fn spec_dec_response(s: Seq<char>) -> Option<(RespModel, int)> {
    if s.len() < 1 {
        None
    } else {
        let tag = s[0];
        let body = s.skip(1);
        if tag == 'O' {
            Some((RespModel::Okay, 1))
        } else if tag == 'T' {
            match spec_dec_state(body) {
                Some((st, n)) => Some((RespModel::Status(st), 1 + n)),
                None => None,
            }
        } else if tag == 'E' {
            match spec_dec_string(body) {
                Some((m, n)) => Some((RespModel::Error(m), 1 + n)),
                None => None,
            }
        } else {
            None
        }
    }
}

/// A whole request line: decoding succeeds only if the line is exactly one
/// encoded request.
pub open spec fn spec_decode_command(s: Seq<char>) -> Option<CmdModel> {
    match spec_dec_command(s) {
        Some((c, n)) => if n == s.len() {
            Some(c)
        } else {
            None
        },
        None => None,
    }
}

/// A whole response line.
pub open spec fn spec_decode_response(s: Seq<char>) -> Option<RespModel> {
    match spec_dec_response(s) {
        Some((r, n)) => if n == s.len() {
            Some(r)
        } else {
            None
        },
        None => None,
    }
}

proof fn lemma_tag_skip(t: char, e: Seq<char>, rest: Seq<char>)
    ensures
        (seq![t] + e + rest)[0] == t,
        (seq![t] + e + rest).skip(1) == e + rest,
        (seq![t] + e + rest).len() == 1 + e.len() + rest.len(),
        (seq![t] + rest)[0] == t,
        (seq![t] + rest).skip(1) == rest,
{
    seq_assoc(seq![t], e, rest);
    assert((seq![t] + (e + rest))[0] == t);
    assert((seq![t] + (e + rest)).skip(1) =~= e + rest);
    assert((seq![t] + rest)[0] == t);
    assert((seq![t] + rest).skip(1) =~= rest);
}

#[verifier::rlimit(100)]
#[verifier::spinoff_prover]
proof fn lemma_dec_enc_command(c: CmdModel, rest: Seq<char>)
    requires
        c.encodable(),
    ensures
        spec_dec_command(spec_enc_command(c) + rest) == Some(
            (c, spec_enc_command(c).len() as int),
        ),
{
    match c {
        CmdModel::Play { track } => {
            lemma_tag_skip('P', spec_enc_track(track), rest);
            lemma_dec_enc_track(track, rest);
        },
        CmdModel::PlayQueue { tracks, start_index } => {
            let et = spec_enc_tracks(tracks);
            let en = spec_enc_nat(start_index, 16);
            let e = et + en;
            seq_assoc(seq!['Q'], et, en);
            assert(spec_enc_command(c) == seq!['Q'] + e);
            lemma_tag_skip('Q', e, rest);
            seq_assoc(et, en, rest);
            lemma_dec_enc_tracks(tracks, en + rest);
            seq_split(et, en + rest);
            lemma_pow16_vals();
            lemma_dec_enc_nat(start_index, 16, rest);
            assert((e + rest).skip(et.len() as int) == en + rest) by {
                assert(e + rest =~= et + (en + rest));
            }
            assert(spec_dec_tracks(e + rest) == Some((tracks, et.len() as int)));
            assert(spec_dec_nat((e + rest).skip(et.len() as int), 16) == Some(
                start_index as u64,
            ));
            assert(spec_enc_command(c).len() == 1 + et.len() + 16);
        },
        CmdModel::Seek { position } => {
            lemma_tag_skip('K', spec_enc_nat(position as int, 16), rest);
            lemma_pow16_vals();
            lemma_dec_enc_nat(position as int, 16, rest);
        },
        CmdModel::SetVolume { volume } => {
            lemma_tag_skip('V', spec_enc_nat(volume as int, 2), rest);
            lemma_pow16_vals();
            lemma_dec_enc_nat(volume as int, 2, rest);
        },
        CmdModel::SetShuffle { enabled } => {
            lemma_tag_skip('H', spec_enc_bool(enabled), rest);
            lemma_dec_enc_bool(enabled, rest);
        },
        CmdModel::SetRepeat { mode } => {
            lemma_tag_skip('M', spec_enc_repeat(mode), rest);
            lemma_dec_enc_repeat(mode, rest);
        },
        CmdModel::QueueAdd { track } => {
            lemma_tag_skip('A', spec_enc_track(track), rest);
            lemma_dec_enc_track(track, rest);
        },
        _ => {
            let e = spec_enc_command(c);
            assert((e + rest)[0] == e[0]);
        },
    }
}

#[verifier::rlimit(100)]
#[verifier::spinoff_prover]
proof fn lemma_dec_enc_response(r: RespModel, rest: Seq<char>)
    requires
        r.encodable(),
    ensures
        spec_dec_response(spec_enc_response(r) + rest) == Some(
            (r, spec_enc_response(r).len() as int),
        ),
{
    match r {
        RespModel::Okay => {
            let e = spec_enc_response(r);
            assert((e + rest)[0] == e[0]);
        },
        RespModel::Status(st) => {
            lemma_tag_skip('T', spec_enc_state(st), rest);
            lemma_dec_enc_state(st, rest);
        },
        RespModel::Error(m) => {
            lemma_tag_skip('E', spec_enc_string(m), rest);
            lemma_dec_enc_string(m, rest);
        },
    }
}

/// Law: every request value that fits the wire format encodes to a line that
/// decodes back to an equal value.
pub proof fn lemma_command_round_trip(c: CmdModel)
    requires
        c.encodable(),
    ensures
        spec_decode_command(spec_enc_command(c)) == Some(c),
{
    lemma_dec_enc_command(c, Seq::empty());
    assert(spec_enc_command(c) + Seq::<char>::empty() =~= spec_enc_command(c));
}

/// Law: every response value that fits the wire format encodes to a line
/// that decodes back to an equal value.
pub proof fn lemma_response_round_trip(r: RespModel)
    requires
        r.encodable(),
    ensures
        spec_decode_response(spec_enc_response(r)) == Some(r),
{
    lemma_dec_enc_response(r, Seq::empty());
    assert(spec_enc_response(r) + Seq::<char>::empty() =~= spec_enc_response(r));
}


/// Appends the encoding of a track.
fn enc_track(out: &mut Vec<char>, t: &crate::models::Track)
    ensures
        final(out)@ == old(out)@ + spec_enc_track(t@),
{
    let ghost base = out@;
    enc_string(out, t.id.as_str());
    enc_string(out, t.url.as_str());
    enc_string(out, t.title.as_str());
    enc_opt_str(out, &t.alias);
    proof {
        lemma_pow16_vals();
    }
    enc_nat(out, t.duration, 16);
    enc_nat(out, t.added_at, 16);
    enc_string(out, t.file_path.as_str());
    enc_bool(out, t.available);
    proof {
        let e1 = spec_enc_string(t@.id);
        let e2 = spec_enc_string(t@.url);
        let e3 = spec_enc_string(t@.title);
        let e4 = spec_enc_opt_str(t@.alias);
        let e5 = spec_enc_nat(t@.duration as int, 16);
        let e6 = spec_enc_nat(t@.added_at as int, 16);
        let e7 = spec_enc_string(t@.file_path);
        let e8 = spec_enc_bool(t@.available);
        seq_assoc(base, e1, e2);
        seq_assoc(base, e1 + e2, e3);
        seq_assoc(base, e1 + e2 + e3, e4);
        seq_assoc(base, e1 + e2 + e3 + e4, e5);
        seq_assoc(base, e1 + e2 + e3 + e4 + e5, e6);
        seq_assoc(base, e1 + e2 + e3 + e4 + e5 + e6, e7);
        seq_assoc(base, e1 + e2 + e3 + e4 + e5 + e6 + e7, e8);
    }
}

/// Reads a track.
#[verifier::rlimit(100)]
#[verifier::spinoff_prover]
fn dec_track(v: &Vec<char>, pos: &mut usize) -> (r: Option<crate::models::Track>)
    requires
        *old(pos) <= v@.len(),
    ensures
        *final(pos) <= v@.len(),
        *final(pos) >= *old(pos),
        r matches Some(t) ==> spec_dec_track(v@.skip(*old(pos) as int)) == Some(
            (t@, *final(pos) - *old(pos)),
        ),
        r is None ==> spec_dec_track(v@.skip(*old(pos) as int)) is None,
{
    let ghost s = v@.skip(*old(pos) as int);
    let ghost p0 = *pos;
    let id = match dec_string(v, pos) {
        Some(x) => x,
        None => {
            return None;
        },
    };
    proof {
        seq_skip_skip(v@, p0 as int, *pos - p0);
    }
    let ghost n1 = *pos - p0;
    let url = match dec_string(v, pos) {
        Some(x) => x,
        None => {
            return None;
        },
    };
    proof {
        seq_skip_skip(v@, p0 as int, *pos - p0);
    }
    let ghost n2 = *pos - p0 - n1;
    let title = match dec_string(v, pos) {
        Some(x) => x,
        None => {
            return None;
        },
    };
    proof {
        seq_skip_skip(v@, p0 as int, *pos - p0);
    }
    let ghost n3 = *pos - p0 - n1 - n2;
    let alias = match dec_opt_str(v, pos) {
        Some(x) => x,
        None => {
            return None;
        },
    };
    proof {
        seq_skip_skip(v@, p0 as int, *pos - p0);
    }
    let ghost n4 = *pos - p0 - n1 - n2 - n3;
    let duration = match dec_nat(v, pos, 16) {
        Some(x) => x,
        None => {
            return None;
        },
    };
    proof {
        seq_skip_skip(v@, p0 as int, *pos - p0);
    }
    let added_at = match dec_nat(v, pos, 16) {
        Some(x) => x,
        None => {
            return None;
        },
    };
    proof {
        seq_skip_skip(v@, p0 as int, *pos - p0);
    }
    let file_path = match dec_string(v, pos) {
        Some(x) => x,
        None => {
            return None;
        },
    };
    proof {
        seq_skip_skip(v@, p0 as int, *pos - p0);
    }
    let ghost n7 = *pos - p0 - n1 - n2 - n3 - n4 - 32;
    let available = match dec_bool(v, pos) {
        Some(x) => x,
        None => {
            return None;
        },
    };
    Some(crate::models::Track { id, url, title, alias, duration, added_at, file_path, available })
}

/// Appends the encoding of a queue of tracks.
fn enc_tracks_vec(out: &mut Vec<char>, ts: &Vec<crate::models::Track>)
    ensures
        final(out)@ == old(out)@ + spec_enc_tracks(ts@.map_values(|t: crate::models::Track| t@)),
{
    let ghost base = out@;
    let ghost m = ts@.map_values(|t: crate::models::Track| t@);
    proof {
        lemma_pow16_vals();
        lemma_pow_increases(16, 16, 16);
        assert(m.len() == ts@.len());
    }
    assert(ts.len() <= usize::MAX);
    enc_nat(out, ts.len() as u64, 16);
    let ghost lenf = spec_enc_nat(m.len() as int, 16);
    let mut i: usize = 0;
    while i < ts.len()
        invariant
            i <= ts.len(),
            m == ts@.map_values(|t: crate::models::Track| t@),
            out@ == base + lenf + spec_enc_track_list(m.take(i as int)),
        decreases ts.len() - i,
    {
        let ghost before = out@;
        enc_track(out, &ts[i]);
        i = i + 1;
        proof {
            assert(m.take(i as int) =~= m.take(i - 1).push(m[i - 1]));
            lemma_enc_track_list_push(m.take(i - 1), m[i - 1]);
            seq_assoc(base + lenf, spec_enc_track_list(m.take(i - 1)), spec_enc_track(m[i - 1]));
            assert(before + spec_enc_track(ts@[i-1]@) == out@);
            assert(ts@[i-1]@ == m[i - 1]);
        }
    }
    proof {
        assert(m.take(ts@.len() as int) =~= m);
        seq_assoc(base, lenf, spec_enc_track_list(m));
    }
}

/// Reads a queue of tracks.
#[verifier::rlimit(100)]
#[verifier::spinoff_prover]
fn dec_tracks(v: &Vec<char>, pos: &mut usize) -> (r: Option<Vec<crate::models::Track>>)
    requires
        *old(pos) <= v@.len(),
    ensures
        *final(pos) <= v@.len(),
        *final(pos) >= *old(pos),
        r matches Some(ts) ==> spec_dec_tracks(v@.skip(*old(pos) as int)) == Some(
            (ts@.map_values(|t: crate::models::Track| t@), *final(pos) - *old(pos)),
        ),
        r is None ==> spec_dec_tracks(v@.skip(*old(pos) as int)) is None,
{
    let ghost s = v@.skip(*old(pos) as int);
    let count = match dec_nat(v, pos, 16) {
        Some(n) => n,
        None => {
            return None;
        },
    };
    let ghost s16 = s.skip(16);
    proof {
        seq_skip_skip(v@, *old(pos) as int, 16);
    }
    let mut acc: Vec<crate::models::Track> = Vec::new();
    let mut i: u64 = 0;
    let ghost pos_mid = *pos;
    while i < count
        invariant
            i <= count,
            *pos <= v@.len(),
            s == v@.skip(*old(pos) as int),
            s16 == s.skip(16),
            spec_dec_nat(s, 16) == Some(count),
            s16 == v@.skip(pos_mid as int),
            pos_mid == *old(pos) + 16,
            *pos >= pos_mid,
            acc@.len() == i,
            spec_dec_track_list(s16, count as nat) == (match spec_dec_track_list(
                v@.skip(*pos as int),
                (count - i) as nat,
            ) {
                Some((tail, m)) => Some(
                    (
                        acc@.map_values(|t: crate::models::Track| t@) + tail,
                        (*pos - pos_mid) + m,
                    ),
                ),
                None => None::<(Seq<TrackModel>, int)>,
            }),
        decreases count - i,
    {
        let ghost pos_before = *pos;
        let t = match dec_track(v, pos) {
            Some(t) => t,
            None => {
                proof {
                    assert(spec_dec_track_list(v@.skip(pos_before as int), (count - i) as nat)
                        is None);
                    assert(spec_dec_track_list(s16, count as nat) is None);
                }
                return None;
            },
        };
        let ghost tm = t@;
        acc.push(t);
        i = i + 1;
        proof {
            seq_skip_skip(v@, pos_before as int, *pos - pos_before);
            let am = acc@.map_values(|t: crate::models::Track| t@);
            assert(am.drop_last() =~= acc@.drop_last().map_values(
                |t: crate::models::Track| t@,
            ));
            assert(am.last() == tm);
            match spec_dec_track_list(v@.skip(*pos as int), (count - i) as nat) {
                Some((tail, m)) => {
                    assert(am + tail =~= am.drop_last() + (seq![tm] + tail));
                },
                None => {},
            }
        }
    }
    proof {
        assert(spec_dec_track_list(v@.skip(*pos as int), 0) == Some(
            (Seq::<TrackModel>::empty(), 0int),
        ));
        let am = acc@.map_values(|t: crate::models::Track| t@);
        assert(am + Seq::<TrackModel>::empty() =~= am);
    }
    Some(acc)
}

fn enc_opt_track(out: &mut Vec<char>, a: &Option<crate::models::Track>)
    ensures
        final(out)@ == old(out)@ + spec_enc_opt_track(match a {
            Some(t) => Some(t@),
            None => None,
        }),
{
    match a {
        None => {
            out.push('0');
            proof {
                assert(final(out)@ =~= old(out)@ + seq!['0']);
            }
        },
        Some(t) => {
            out.push('1');
            enc_track(out, t);
            proof {
                assert(old(out)@.push('1') =~= old(out)@ + seq!['1']);
                seq_assoc(old(out)@, seq!['1'], spec_enc_track(t@));
            }
        },
    }
}

fn dec_opt_track(v: &Vec<char>, pos: &mut usize) -> (r: Option<Option<crate::models::Track>>)
    requires
        *old(pos) <= v@.len(),
    ensures
        *final(pos) <= v@.len(),
        *final(pos) >= *old(pos),
        r matches Some(a) ==> spec_dec_opt_track(v@.skip(*old(pos) as int)) == Some(
            (
                match a {
                    Some(t) => Some(t@),
                    None => None,
                },
                *final(pos) - *old(pos),
            ),
        ),
        r is None ==> spec_dec_opt_track(v@.skip(*old(pos) as int)) is None,
{
    let ghost s = v@.skip(*old(pos) as int);
    if *pos >= v.len() {
        return None;
    }
    let c = v[*pos];
    proof {
        assert(s[0] == c);
    }
    if c == '0' {
        *pos = *pos + 1;
        Some(None)
    } else if c == '1' {
        *pos = *pos + 1;
        proof {
            seq_skip_skip(v@, *old(pos) as int, 1);
        }
        match dec_track(v, pos) {
            Some(t) => Some(Some(t)),
            None => None,
        }
    } else {
        None
    }
}

/// Appends the encoding of a playback state.
fn enc_state(out: &mut Vec<char>, st: &crate::models::PlaybackState)
    ensures
        final(out)@ == old(out)@ + spec_enc_state(st@),
{
    let ghost base = out@;
    enc_opt_track(out, &st.current_track);
    enc_tracks_vec(out, &st.queue);
    proof {
        lemma_pow16_vals();
        lemma_pow_increases(16, 16, 16);
    }
    assert(st.queue_index <= usize::MAX);
    enc_nat(out, st.queue_index as u64, 16);
    enc_bool(out, st.is_playing);
    assert(st.volume <= 255);
    enc_nat(out, st.volume as u64, 2);
    enc_nat(out, st.position, 16);
    enc_bool(out, st.shuffle);
    enc_repeat(out, st.repeat);
    proof {
        let e1 = spec_enc_opt_track(st@.current_track);
        let e2 = spec_enc_tracks(st@.queue);
        let e3 = spec_enc_nat(st@.queue_index, 16);
        let e4 = spec_enc_bool(st@.is_playing);
        let e5 = spec_enc_nat(st@.volume as int, 2);
        let e6 = spec_enc_nat(st@.position as int, 16);
        let e7 = spec_enc_bool(st@.shuffle);
        let e8 = spec_enc_repeat(st@.repeat);
        seq_assoc(base, e1, e2);
        seq_assoc(base, e1 + e2, e3);
        seq_assoc(base, e1 + e2 + e3, e4);
        seq_assoc(base, e1 + e2 + e3 + e4, e5);
        seq_assoc(base, e1 + e2 + e3 + e4 + e5, e6);
        seq_assoc(base, e1 + e2 + e3 + e4 + e5 + e6, e7);
        seq_assoc(base, e1 + e2 + e3 + e4 + e5 + e6 + e7, e8);
    }
}

/// Reads a playback state.
#[verifier::rlimit(100)]
#[verifier::spinoff_prover]
fn dec_state(v: &Vec<char>, pos: &mut usize) -> (r: Option<crate::models::PlaybackState>)
    requires
        *old(pos) <= v@.len(),
    ensures
        *final(pos) <= v@.len(),
        *final(pos) >= *old(pos),
        r matches Some(st) ==> spec_dec_state(v@.skip(*old(pos) as int)) == Some(
            (st@, *final(pos) - *old(pos)),
        ),
        r is None ==> spec_dec_state(v@.skip(*old(pos) as int)) is None,
{
    let ghost s = v@.skip(*old(pos) as int);
    let ghost p0 = *pos;
    let current_track = match dec_opt_track(v, pos) {
        Some(x) => x,
        None => {
            return None;
        },
    };
    proof {
        seq_skip_skip(v@, p0 as int, *pos - p0);
    }
    let ghost n1 = *pos - p0;
    let queue = match dec_tracks(v, pos) {
        Some(x) => x,
        None => {
            return None;
        },
    };
    proof {
        seq_skip_skip(v@, p0 as int, *pos - p0);
    }
    let ghost n2 = *pos - p0 - n1;
    let qi_raw = match dec_nat(v, pos, 16) {
        Some(x) => x,
        None => {
            return None;
        },
    };
    if qi_raw > usize::MAX as u64 {
        return None;
    }
    let queue_index = qi_raw as usize;
    proof {
        seq_skip_skip(v@, p0 as int, *pos - p0);
    }
    let is_playing = match dec_bool(v, pos) {
        Some(x) => x,
        None => {
            return None;
        },
    };
    proof {
        seq_skip_skip(v@, p0 as int, *pos - p0);
    }
    let vol_raw = match dec_nat(v, pos, 2) {
        Some(x) => x,
        None => {
            return None;
        },
    };
    if vol_raw > 255 {
        return None;
    }
    let volume = vol_raw as u8;
    proof {
        seq_skip_skip(v@, p0 as int, *pos - p0);
    }
    let position = match dec_nat(v, pos, 16) {
        Some(x) => x,
        None => {
            return None;
        },
    };
    proof {
        seq_skip_skip(v@, p0 as int, *pos - p0);
    }
    let shuffle = match dec_bool(v, pos) {
        Some(x) => x,
        None => {
            return None;
        },
    };
    proof {
        seq_skip_skip(v@, p0 as int, *pos - p0);
    }
    let repeat = match dec_repeat(v, pos) {
        Some(x) => x,
        None => {
            return None;
        },
    };
    let ghost ctm = match &current_track {
        Some(t) => Some(t@),
        None => None::<TrackModel>,
    };
    let ghost qm = queue@.map_values(|t: crate::models::Track| t@);
    let st = crate::models::PlaybackState {
        current_track,
        queue,
        queue_index,
        is_playing,
        volume,
        position,
        shuffle,
        repeat,
    };
    proof {
        assert(spec_dec_opt_track(s) == Some((ctm, n1)));
        assert(spec_dec_tracks(s.skip(n1)) == Some((qm, n2)));
        assert(spec_dec_nat(s.skip(n1 + n2), 16) == Some(qi_raw));
        assert(spec_dec_bool(s.skip(n1 + n2 + 16)) == Some(is_playing));
        assert(spec_dec_nat(s.skip(n1 + n2 + 17), 2) == Some(vol_raw));
        assert(spec_dec_nat(s.skip(n1 + n2 + 19), 16) == Some(position));
        assert(spec_dec_bool(s.skip(n1 + n2 + 35)) == Some(shuffle));
        assert(spec_dec_repeat(s.skip(n1 + n2 + 36)) == Some(repeat));
        assert(st@ == StateModel {
            current_track: ctm,
            queue: qm,
            queue_index: qi_raw as int,
            is_playing,
            volume: vol_raw as u8,
            position,
            shuffle,
            repeat,
        });
        assert(*pos - p0 == n1 + n2 + 37);
        assert(spec_dec_state(s) == Some((st@, n1 + n2 + 37)));
    }
    Some(st)
}


fn push_tag(out: &mut Vec<char>, t: char)
    ensures
        final(out)@ == old(out)@ + seq![t],
{
    out.push(t);
    proof {
        assert(final(out)@ =~= old(out)@ + seq![t]);
    }
}

/// Appends the encoding of a request.
#[verifier::rlimit(100)]
#[verifier::spinoff_prover]
fn enc_command(out: &mut Vec<char>, c: &crate::ipc::DaemonCommand)
    ensures
        final(out)@ == old(out)@ + spec_enc_command(c@),
{
    let ghost base = out@;
    match c {
        crate::ipc::DaemonCommand::Play { track } => {
            push_tag(out, 'P');
            enc_track(out, track);
            proof {
                seq_assoc(base, seq!['P'], spec_enc_track(track@));
            }
        },
        crate::ipc::DaemonCommand::PlayQueue { tracks, start_index } => {
            push_tag(out, 'Q');
            enc_tracks_vec(out, tracks);
            proof {
                lemma_pow16_vals();
                lemma_pow_increases(16, 16, 16);
            }
            assert(*start_index <= usize::MAX);
            enc_nat(out, *start_index as u64, 16);
            proof {
                let et = spec_enc_tracks(tracks@.map_values(|t: crate::models::Track| t@));
                let en = spec_enc_nat(*start_index as int, 16);
                seq_assoc(base, seq!['Q'], et);
                seq_assoc(base, seq!['Q'] + et, en);
                seq_assoc(seq!['Q'], et, en);
            }
        },
        crate::ipc::DaemonCommand::Pause => push_tag(out, 'U'),
        crate::ipc::DaemonCommand::Resume => push_tag(out, 'R'),
        crate::ipc::DaemonCommand::Stop => push_tag(out, 'S'),
        crate::ipc::DaemonCommand::Next => push_tag(out, 'N'),
        crate::ipc::DaemonCommand::Previous => push_tag(out, 'B'),
        crate::ipc::DaemonCommand::Seek { position } => {
            push_tag(out, 'K');
            proof {
                lemma_pow16_vals();
            }
            enc_nat(out, *position, 16);
            proof {
                seq_assoc(base, seq!['K'], spec_enc_nat(*position as int, 16));
            }
        },
        crate::ipc::DaemonCommand::SetVolume { volume } => {
            push_tag(out, 'V');
            proof {
                lemma_pow16_vals();
            }
            enc_nat(out, *volume as u64, 2);
            proof {
                seq_assoc(base, seq!['V'], spec_enc_nat(*volume as int, 2));
            }
        },
        crate::ipc::DaemonCommand::SetShuffle { enabled } => {
            push_tag(out, 'H');
            enc_bool(out, *enabled);
            proof {
                seq_assoc(base, seq!['H'], spec_enc_bool(*enabled));
            }
        },
        crate::ipc::DaemonCommand::SetRepeat { mode } => {
            push_tag(out, 'M');
            enc_repeat(out, *mode);
            proof {
                seq_assoc(base, seq!['M'], spec_enc_repeat(*mode));
            }
        },
        crate::ipc::DaemonCommand::QueueAdd { track } => {
            push_tag(out, 'A');
            enc_track(out, track);
            proof {
                seq_assoc(base, seq!['A'], spec_enc_track(track@));
            }
        },
        crate::ipc::DaemonCommand::QueueClear => push_tag(out, 'C'),
        crate::ipc::DaemonCommand::GetStatus => push_tag(out, 'G'),
        crate::ipc::DaemonCommand::Shutdown => push_tag(out, 'X'),
    }
}

/// Reads a request.
#[verifier::rlimit(100)]
#[verifier::spinoff_prover]
fn dec_command(v: &Vec<char>, pos: &mut usize) -> (r: Option<crate::ipc::DaemonCommand>)
    requires
        *old(pos) <= v@.len(),
    ensures
        *final(pos) <= v@.len(),
        *final(pos) >= *old(pos),
        r matches Some(c) ==> spec_dec_command(v@.skip(*old(pos) as int)) == Some(
            (c@, *final(pos) - *old(pos)),
        ),
        r is None ==> spec_dec_command(v@.skip(*old(pos) as int)) is None,
{
    let ghost s = v@.skip(*old(pos) as int);
    let ghost p0 = *pos;
    if *pos >= v.len() {
        return None;
    }
    let tag = v[*pos];
    proof {
        assert(s[0] == tag);
    }
    *pos = *pos + 1;
    proof {
        seq_skip_skip(v@, p0 as int, 1);
    }
    if tag == 'P' {
        match dec_track(v, pos) {
            Some(track) => Some(crate::ipc::DaemonCommand::Play { track }),
            None => None,
        }
    } else if tag == 'Q' {
        let ghost p1 = *pos;
        let tracks = match dec_tracks(v, pos) {
            Some(x) => x,
            None => {
                return None;
            },
        };
        proof {
            seq_skip_skip(v@, p1 as int, *pos - p1);
        }
        let si_raw = match dec_nat(v, pos, 16) {
            Some(x) => x,
            None => {
                return None;
            },
        };
        if si_raw > usize::MAX as u64 {
            return None;
        }
        let start_index = si_raw as usize;
        Some(crate::ipc::DaemonCommand::PlayQueue { tracks, start_index })
    } else if tag == 'U' {
        Some(crate::ipc::DaemonCommand::Pause)
    } else if tag == 'R' {
        Some(crate::ipc::DaemonCommand::Resume)
    } else if tag == 'S' {
        Some(crate::ipc::DaemonCommand::Stop)
    } else if tag == 'N' {
        Some(crate::ipc::DaemonCommand::Next)
    } else if tag == 'B' {
        Some(crate::ipc::DaemonCommand::Previous)
    } else if tag == 'K' {
        match dec_nat(v, pos, 16) {
            Some(position) => Some(crate::ipc::DaemonCommand::Seek { position }),
            None => None,
        }
    } else if tag == 'V' {
        match dec_nat(v, pos, 2) {
            Some(x) => {
                if x > 255 {
                    None
                } else {
                    Some(crate::ipc::DaemonCommand::SetVolume { volume: x as u8 })
                }
            },
            None => None,
        }
    } else if tag == 'H' {
        match dec_bool(v, pos) {
            Some(enabled) => Some(crate::ipc::DaemonCommand::SetShuffle { enabled }),
            None => None,
        }
    } else if tag == 'M' {
        match dec_repeat(v, pos) {
            Some(mode) => Some(crate::ipc::DaemonCommand::SetRepeat { mode }),
            None => None,
        }
    } else if tag == 'A' {
        match dec_track(v, pos) {
            Some(track) => Some(crate::ipc::DaemonCommand::QueueAdd { track }),
            None => None,
        }
    } else if tag == 'C' {
        Some(crate::ipc::DaemonCommand::QueueClear)
    } else if tag == 'G' {
        Some(crate::ipc::DaemonCommand::GetStatus)
    } else if tag == 'X' {
        Some(crate::ipc::DaemonCommand::Shutdown)
    } else {
        None
    }
}

/// Appends the encoding of a response.
fn enc_response(out: &mut Vec<char>, r: &crate::ipc::DaemonResponse)
    ensures
        final(out)@ == old(out)@ + spec_enc_response(r@),
{
    let ghost base = out@;
    match r {
        crate::ipc::DaemonResponse::Okay => push_tag(out, 'O'),
        crate::ipc::DaemonResponse::Status(st) => {
            push_tag(out, 'T');
            enc_state(out, st);
            proof {
                seq_assoc(base, seq!['T'], spec_enc_state(st@));
            }
        },
        crate::ipc::DaemonResponse::Error(m) => {
            push_tag(out, 'E');
            enc_string(out, m.as_str());
            proof {
                seq_assoc(base, seq!['E'], spec_enc_string(m@));
            }
        },
    }
}

/// Reads a response.
fn dec_response(v: &Vec<char>, pos: &mut usize) -> (r: Option<crate::ipc::DaemonResponse>)
    requires
        *old(pos) <= v@.len(),
    ensures
        *final(pos) <= v@.len(),
        *final(pos) >= *old(pos),
        r matches Some(resp) ==> spec_dec_response(v@.skip(*old(pos) as int)) == Some(
            (resp@, *final(pos) - *old(pos)),
        ),
        r is None ==> spec_dec_response(v@.skip(*old(pos) as int)) is None,
{
    let ghost s = v@.skip(*old(pos) as int);
    let ghost p0 = *pos;
    if *pos >= v.len() {
        return None;
    }
    let tag = v[*pos];
    proof {
        assert(s[0] == tag);
    }
    *pos = *pos + 1;
    proof {
        seq_skip_skip(v@, p0 as int, 1);
    }
    if tag == 'O' {
        Some(crate::ipc::DaemonResponse::Okay)
    } else if tag == 'T' {
        match dec_state(v, pos) {
            Some(st) => Some(crate::ipc::DaemonResponse::Status(st)),
            None => None,
        }
    } else if tag == 'E' {
        match dec_string(v, pos) {
            Some(m) => Some(crate::ipc::DaemonResponse::Error(m)),
            None => None,
        }
    } else {
        None
    }
}

/// One request as a wire line (without the terminating newline; the encoding
/// never contains one).
pub fn encode_command(c: &crate::ipc::DaemonCommand) -> (r: String)
    ensures
        r@ == spec_enc_command(c@),
{
    let mut out: Vec<char> = Vec::new();
    enc_command(&mut out, c);
    proof {
        assert(Seq::<char>::empty() + spec_enc_command(c@) =~= spec_enc_command(c@));
    }
    crate::text::chars_to_string(&out)
}

/// Reads one request line; `None` on anything but exactly one encoded
/// request.
pub fn decode_command(line: &str) -> (r: Option<crate::ipc::DaemonCommand>)
    ensures
        r matches Some(c) ==> spec_decode_command(line@) == Some(c@),
        r is None ==> spec_decode_command(line@) is None,
{
    let v = crate::text::str_to_chars(line);
    let mut pos: usize = 0;
    proof {
        assert(v@.skip(0) =~= v@);
    }
    match dec_command(&v, &mut pos) {
        Some(c) => {
            if pos == v.len() {
                Some(c)
            } else {
                None
            }
        },
        None => None,
    }
}

/// One response as a wire line.
pub fn encode_response(resp: &crate::ipc::DaemonResponse) -> (r: String)
    ensures
        r@ == spec_enc_response(resp@),
{
    let mut out: Vec<char> = Vec::new();
    enc_response(&mut out, resp);
    proof {
        assert(Seq::<char>::empty() + spec_enc_response(resp@) =~= spec_enc_response(resp@));
    }
    crate::text::chars_to_string(&out)
}

/// Reads one response line; `None` on anything but exactly one encoded
/// response.
pub fn decode_response(line: &str) -> (r: Option<crate::ipc::DaemonResponse>)
    ensures
        r matches Some(resp) ==> spec_decode_response(line@) == Some(resp@),
        r is None ==> spec_decode_response(line@) is None,
{
    let v = crate::text::str_to_chars(line);
    let mut pos: usize = 0;
    proof {
        assert(v@.skip(0) =~= v@);
    }
    match dec_response(&v, &mut pos) {
        Some(resp) => {
            if pos == v.len() {
                Some(resp)
            } else {
                None
            }
        },
        None => None,
    }
}

} // verus!
