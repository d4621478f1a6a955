//! Character-level string utilities shared by the codec, the parsers and the
//! path helpers.

use vstd::prelude::*;

verus! {

use vstd::string::StrSliceExecFns;
use vstd::string::StringExecFns;

/// The characters of `s`, collected into a vector.
pub fn str_to_chars(s: &str) -> (r: Vec<char>)
    ensures
        r@ == s@,
{
    let n = s.unicode_len();
    let mut r: Vec<char> = Vec::new();
    let mut i: usize = 0;
    while i < n
        invariant
            n == s@.len(),
            i <= n,
            r@ == s@.take(i as int),
        decreases n - i,
    {
        let c = s.get_char(i);
        r.push(c);
        i = i + 1;
        proof {
            assert(s@.take(i as int) =~= s@.take(i - 1).push(s@[i - 1]));
        }
    }
    proof {
        assert(s@.take(n as int) =~= s@);
    }
    r
}

/// Relies on `String::push`: appends exactly the given character.
#[verifier::external_body]
pub fn push_char(s: &mut String, c: char)
    ensures
        final(s)@ == old(s)@.push(c),
{
    s.push(c);
}

/// A string holding exactly the given characters.
pub fn chars_to_string(v: &Vec<char>) -> (r: String)
    ensures
        r@ == v@,
{
    let mut r = String::new();
    let mut i: usize = 0;
    while i < v.len()
        invariant
            i <= v.len(),
            r@ == v@.take(i as int),
        decreases v.len() - i,
    {
        push_char(&mut r, v[i]);
        i = i + 1;
        proof {
            assert(v@.take(i as int) =~= v@.take(i - 1).push(v@[i - 1]));
        }
    }
    proof {
        assert(v@.take(v.len() as int) =~= v@);
    }
    r
}

/// The concatenation of two string slices.
pub fn concat_str(a: &str, b: &str) -> (r: String)
    ensures
        r@ == a@ + b@,
{
    let mut r = String::from_str(a);
    r.append(b);
    r
}

/// Whether `c` is a decimal digit.
pub open spec fn is_dec_digit(c: char) -> bool {
    48 <= c as u32 && c as u32 <= 57
}

/// The numeric value of a decimal digit.
pub open spec fn dec_digit_val(c: char) -> int {
    c as u32 - 48
}

/// The decimal digit for `n` (meaningful for `0 <= n < 10`).
pub open spec fn dec_digit_char(n: int) -> char {
    if n == 0 { '0' } else if n == 1 { '1' } else if n == 2 { '2' }
    else if n == 3 { '3' } else if n == 4 { '4' } else if n == 5 { '5' }
    else if n == 6 { '6' } else if n == 7 { '7' } else if n == 8 { '8' }
    else { '9' }
}

/// The value of a sequence of decimal digits, most significant first.
pub open spec fn dec_seq_val(s: Seq<char>) -> int
    decreases s.len(),
{
    if s.len() == 0 {
        0
    } else {
        dec_seq_val(s.drop_last()) * 10 + dec_digit_val(s.last())
    }
}

/// Whether every character of `s` is a decimal digit.
pub open spec fn all_dec_digits(s: Seq<char>) -> bool {
    forall|i: int| 0 <= i < s.len() ==> is_dec_digit(#[trigger] s[i])
}

/// The shortest decimal rendering of `n` (no leading zeros, `0` itself as "0").
pub open spec fn spec_decimal(n: int) -> Seq<char>
    decreases n,
{
    if n < 10 {
        seq![dec_digit_char(n)]
    } else {
        spec_decimal(n / 10).push(dec_digit_char(n % 10))
    }
}

/// A duration in seconds rendered as minutes, a colon, and two-digit seconds.
pub open spec fn spec_format_duration(seconds: u64) -> Seq<char> {
    spec_decimal(seconds as int / 60) + seq![':'] + seq![
        dec_digit_char((seconds as int % 60) / 10),
        dec_digit_char((seconds as int % 60) % 10),
    ]
}

fn dec_digit_exec(n: u64) -> (r: char)
    requires
        n < 10,
    ensures
        r == dec_digit_char(n as int),
{
    match n {
        0 => '0',
        1 => '1',
        2 => '2',
        3 => '3',
        4 => '4',
        5 => '5',
        6 => '6',
        7 => '7',
        8 => '8',
        _ => '9',
    }
}

fn push_decimal(out: &mut Vec<char>, n: u64)
    ensures
        final(out)@ == old(out)@ + spec_decimal(n as int),
    decreases n,
{
    if n < 10 {
        out.push(dec_digit_exec(n));
    } else {
        push_decimal(out, n / 10);
        out.push(dec_digit_exec(n % 10));
    }
}

/// Seconds rendered as "M:SS".
pub fn format_duration(seconds: u64) -> (r: String)
    ensures
        r@ == spec_format_duration(seconds),
{
    let mut out: Vec<char> = Vec::new();
    push_decimal(&mut out, seconds / 60);
    out.push(':');
    let rem = seconds % 60;
    out.push(dec_digit_exec(rem / 10));
    out.push(dec_digit_exec(rem % 10));
    proof {
        assert(out@ =~= spec_format_duration(seconds));
    }
    chars_to_string(&out)
}

/// A non-empty run of decimal digits read as a number, if it fits in `u64`.
pub open spec fn spec_parse_u64(s: Seq<char>) -> Option<u64> {
    if s.len() > 0 && all_dec_digits(s) && dec_seq_val(s) <= u64::MAX {
        Some(dec_seq_val(s) as u64)
    } else {
        None
    }
}

/// Time given either as plain seconds or as "MM:SS"; both parts of the latter
/// must be plain numbers, and the combined value must fit in `u64`.
pub open spec fn spec_parse_time(s: Seq<char>) -> Option<u64> {
    if exists|i: int| 0 <= i < s.len() && s[i] == ':' {
        let i = first_colon(s);
        if exists|j: int| i < j < s.len() && s[j] == ':' {
            None
        } else {
            match (spec_parse_u64(s.take(i)), spec_parse_u64(s.skip(i + 1))) {
                (Some(m), Some(sec)) => {
                    if m as int * 60 + sec as int <= u64::MAX {
                        Some((m as int * 60 + sec as int) as u64)
                    } else {
                        None
                    }
                },
                _ => None,
            }
        }
    } else {
        spec_parse_u64(s)
    }
}

/// The index of the first colon in `s` (meaningful only if one exists).
pub open spec fn first_colon(s: Seq<char>) -> int
    decreases s.len(),
{
    if s.len() == 0 {
        0
    } else if s[0] == ':' {
        0
    } else {
        1 + first_colon(s.drop_first())
    }
}

proof fn lemma_first_colon(s: Seq<char>)
    requires
        exists|i: int| 0 <= i < s.len() && s[i] == ':',
    ensures
        0 <= first_colon(s) < s.len(),
        s[first_colon(s)] == ':',
        forall|j: int| 0 <= j < first_colon(s) ==> s[j] != ':',
    decreases s.len(),
{
    if s.len() > 0 && s[0] != ':' {
        let i = choose|i: int| 0 <= i < s.len() && s[i] == ':';
        assert(s.drop_first()[i - 1] == ':');
        lemma_first_colon(s.drop_first());
        assert forall|j: int| 0 <= j < first_colon(s) implies s[j] != ':' by {
            if j > 0 {
                assert(s.drop_first()[j - 1] == s[j]);
            }
        }
    }
}

fn parse_u64_chars(v: &Vec<char>, lo: usize, hi: usize) -> (r: Option<u64>)
    requires
        lo <= hi <= v@.len(),
    ensures
        r == spec_parse_u64(v@.subrange(lo as int, hi as int)),
{
    let ghost s = v@.subrange(lo as int, hi as int);
    if lo == hi {
        return None;
    }
    let mut acc: u64 = 0;
    let mut i: usize = lo;
    while i < hi
        invariant
            lo <= i <= hi <= v@.len(),
            s == v@.subrange(lo as int, hi as int),
            all_dec_digits(s.take(i - lo)),
            acc == dec_seq_val(s.take(i - lo)),
        decreases hi - i,
    {
        let c = v[i];
        let u = c as u32;
        if !(48 <= u && u <= 57) {
            proof {
                assert(s[i - lo] == c);
                assert(!all_dec_digits(s));
            }
            return None;
        }
        let d: u64 = (u - 48) as u64;
        proof {
            assert(d == dec_digit_val(c));
        }
        if acc > (u64::MAX - d) / 10 {
            proof {
                let t = s.take(i - lo + 1);
                assert(t.drop_last() =~= s.take(i - lo));
                assert(t.last() == c);
                assert(dec_seq_val(t) == acc * 10 + d);
                assert(acc * 10 + d > u64::MAX);
                if all_dec_digits(s) {
                    lemma_dec_seq_val_monotone(s, i - lo + 1);
                }
            }
            return None;
        }
        acc = acc * 10 + d;
        i = i + 1;
        proof {
            let t = s.take(i - lo);
            assert(t.drop_last() =~= s.take(i - lo - 1));
            assert(t.last() == c);
        }
    }
    proof {
        assert(s.take(hi - lo) =~= s);
    }
    Some(acc)
}

/// A longer digit string never has a smaller value: the value of a prefix is a
/// lower bound for the value of the whole (digits are non-negative).
proof fn lemma_dec_seq_val_monotone(s: Seq<char>, k: int)
    requires
        0 <= k <= s.len(),
        all_dec_digits(s),
    ensures
        dec_seq_val(s) >= dec_seq_val(s.take(k)),
        dec_seq_val(s.take(k)) >= 0,
    decreases s.len() - k,
{
    if k < s.len() {
        lemma_dec_seq_val_nonneg(s.take(k));
        lemma_dec_seq_val_monotone(s, k + 1);
        let t = s.take(k + 1);
        assert(t.drop_last() =~= s.take(k));
        assert(dec_seq_val(t) == dec_seq_val(s.take(k)) * 10 + dec_digit_val(s[k]));
        lemma_dec_seq_val_nonneg(s.take(k));
    } else {
        assert(s.take(k) =~= s);
        lemma_dec_seq_val_nonneg(s);
    }
}

proof fn lemma_dec_seq_val_nonneg(s: Seq<char>)
    requires
        all_dec_digits(s),
    ensures
        dec_seq_val(s) >= 0,
    decreases s.len(),
{
    if s.len() > 0 {
        assert(all_dec_digits(s.drop_last())) by {
            assert(forall|i: int| 0 <= i < s.len() - 1 ==> s.drop_last()[i] == s[i]);
        }
        lemma_dec_seq_val_nonneg(s.drop_last());
    }
}

/// Parses a position given as seconds or as "MM:SS".
pub fn parse_time(s: &str) -> (r: Result<u64, String>)
    ensures
        r matches Ok(v) ==> spec_parse_time(s@) == Some(v),
        r is Err ==> spec_parse_time(s@) is None,
{
    let v = str_to_chars(s);
    let n = v.len();
    let mut colon: Option<usize> = None;
    let mut second_colon: bool = false;
    let mut i: usize = 0;
    while i < n
        invariant
            n == v@.len(),
            v@ == s@,
            i <= n,
            match colon {
                Some(c) => {
                    &&& c < i
                    &&& v@[c as int] == ':'
                    &&& forall|j: int| 0 <= j < c ==> v@[j] != ':'
                    &&& second_colon == exists|j: int| c < j < i && v@[j] == ':'
                },
                None => {
                    &&& !second_colon
                    &&& forall|j: int| 0 <= j < i ==> v@[j] != ':'
                },
            },
        decreases n - i,
    {
        if v[i] == ':' {
            if colon.is_none() {
                colon = Some(i);
            } else {
                second_colon = true;
            }
        }
        i = i + 1;
    }
    match colon {
        Some(c) => {
            proof {
                lemma_first_colon(s@);
                assert(first_colon(s@) == c);
            }
            if second_colon {
                return Err(String::from_str("Invalid time format. Use seconds or MM:SS"));
            }
            let mins = match parse_u64_chars(&v, 0, c) {
                Some(m) => m,
                None => {
                    proof {
                        assert(v@.subrange(0, c as int) =~= s@.take(c as int));
                    }
                    return Err(String::from_str("Invalid minutes"));
                },
            };
            proof {
                assert(v@.subrange(0, c as int) =~= s@.take(c as int));
            }
            let secs = match parse_u64_chars(&v, c + 1, n) {
                Some(x) => x,
                None => {
                    proof {
                        assert(v@.subrange(c + 1, n as int) =~= s@.skip(c + 1));
                    }
                    return Err(String::from_str("Invalid seconds"));
                },
            };
            proof {
                assert(v@.subrange(c + 1, n as int) =~= s@.skip(c + 1));
            }
            if mins > (u64::MAX - secs) / 60 {
                return Err(String::from_str("Invalid time format. Use seconds or MM:SS"));
            }
            Ok(mins * 60 + secs)
        },
        None => {
            match parse_u64_chars(&v, 0, n) {
                Some(x) => {
                    proof {
                        assert(v@.subrange(0, n as int) =~= s@);
                    }
                    Ok(x)
                },
                None => {
                    proof {
                        assert(v@.subrange(0, n as int) =~= s@);
                    }
                    Err(String::from_str("Invalid time format. Use seconds or MM:SS"))
                },
            }
        },
    }
}

} // verus!
