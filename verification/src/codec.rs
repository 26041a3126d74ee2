//! The character-level building blocks of the worker's line-delimited JSON
//! protocol: canonical decimal numerals and canonical string escaping, each
//! with an encoder, a strict parser, and proofs that parsing inverts
//! encoding. The event layer assembles these into whole protocol lines.
use vstd::prelude::*;

use crate::text::occurs_at;

verus! {

pub open spec fn is_digit(c: char) -> bool {
    '0' <= c && c <= '9'
}

pub open spec fn digit_val(c: char) -> nat
    recommends
        is_digit(c),
{
    (c as u32 - '0' as u32) as nat
}

/// The decimal digit character for a value below ten.
pub open spec fn dec_digit_char(d: nat) -> char
    recommends
        d < 10,
{
    if d == 0 {
        '0'
    } else if d == 1 {
        '1'
    } else if d == 2 {
        '2'
    } else if d == 3 {
        '3'
    } else if d == 4 {
        '4'
    } else if d == 5 {
        '5'
    } else if d == 6 {
        '6'
    } else if d == 7 {
        '7'
    } else if d == 8 {
        '8'
    } else {
        '9'
    }
}

/// The canonical decimal numeral of a natural number: no sign, no leading
/// zero except for the single digit of zero itself.
pub open spec fn dec_chars(n: nat) -> Seq<char>
    decreases n,
{
    if n < 10 {
        seq![dec_digit_char(n)]
    } else {
        dec_chars(n / 10).push(dec_digit_char(n % 10))
    }
}

/// The value of a digit string, most significant digit first.
pub open spec fn digits_val(s: Seq<char>) -> nat
    decreases s.len(),
{
    if s.len() == 0 {
        0
    } else {
        digits_val(s.drop_last()) * 10 + digit_val(s.last())
    }
}

pub proof fn lemma_dec_chars_shape(n: nat)
    ensures
        dec_chars(n).len() >= 1,
        forall|j: int| 0 <= j < dec_chars(n).len() ==> is_digit(#[trigger] dec_chars(n)[j]),
        dec_chars(n)[0] == '0' ==> n == 0,
        digits_val(dec_chars(n)) == n,
    decreases n,
{
    if n < 10 {
        let s = dec_chars(n);
        assert(s =~= seq![dec_digit_char(n)]);
        assert(s.len() == 1);
        assert(s.drop_last() =~= Seq::<char>::empty());
        assert(digits_val(s.drop_last()) == 0);
        assert(s.last() == dec_digit_char(n));
        assert(digits_val(s) == 0 * 10 + digit_val(dec_digit_char(n)));
        assert(digit_val(dec_digit_char(n)) == n);
    } else {
        lemma_dec_chars_shape(n / 10);
        let prefix = dec_chars(n / 10);
        assert(dec_chars(n) == prefix.push(dec_digit_char(n % 10)));
        assert(dec_chars(n)[0] == prefix[0]);
        assert(n / 10 >= 1);
        assert forall|j: int| 0 <= j < dec_chars(n).len() implies is_digit(
            #[trigger] dec_chars(n)[j],
        ) by {
            if j < prefix.len() {
                assert(dec_chars(n)[j] == prefix[j]);
            }
        }
        assert(dec_chars(n).drop_last() =~= prefix);
        assert(digits_val(dec_chars(n)) == (n / 10) * 10 + n % 10);
        assert(n == (n / 10) * 10 + n % 10) by (nonlinear_arith);
    }
}

/// The value of a digit string dominates the value of each of its prefixes.
pub proof fn lemma_digits_val_take(s: Seq<char>, k: int)
    requires
        0 <= k <= s.len(),
    ensures
        digits_val(s.take(k)) <= digits_val(s),
    decreases s.len(),
{
    if k < s.len() {
        assert(s.drop_last().take(k) =~= s.take(k));
        lemma_digits_val_take(s.drop_last(), k);
        assert(digits_val(s.drop_last()) <= digits_val(s.drop_last()) * 10 + digit_val(s.last()))
            by (nonlinear_arith);
    } else {
        assert(s.take(k) =~= s);
    }
}

/// Two canonical numerals that start at the same position and are each
/// followed by a non-digit denote the same number.
pub proof fn lemma_dec_token_unique(s: Seq<char>, i: int, a: nat, b: nat)
    requires
        occurs_at(s, dec_chars(a), i),
        occurs_at(s, dec_chars(b), i),
        i + dec_chars(a).len() == s.len() || !is_digit(s[i + dec_chars(a).len()]),
        i + dec_chars(b).len() == s.len() || !is_digit(s[i + dec_chars(b).len()]),
    ensures
        a == b,
{
    lemma_dec_chars_shape(a);
    lemma_dec_chars_shape(b);
    let la = dec_chars(a).len() as int;
    let lb = dec_chars(b).len() as int;
    if la < lb {
        assert(dec_chars(b)[la] == s[i + la]);
        assert(is_digit(s[i + la]));
    } else if lb < la {
        assert(dec_chars(a)[lb] == s[i + lb]);
        assert(is_digit(s[i + lb]));
    } else {
        assert(dec_chars(a) =~= dec_chars(b)) by {
            assert forall|j: int| 0 <= j < la implies dec_chars(a)[j] == dec_chars(b)[j] by {
                assert(dec_chars(a)[j] == s[i + j]);
                assert(dec_chars(b)[j] == s[i + j]);
            }
        }
    }
}

fn digit_char_of(d: u64) -> (c: char)
    requires
        d < 10,
    ensures
        c == dec_digit_char(d as nat),
{
    if d == 0 {
        '0'
    } else if d == 1 {
        '1'
    } else if d == 2 {
        '2'
    } else if d == 3 {
        '3'
    } else if d == 4 {
        '4'
    } else if d == 5 {
        '5'
    } else if d == 6 {
        '6'
    } else if d == 7 {
        '7'
    } else if d == 8 {
        '8'
    } else {
        '9'
    }
}

fn digit_of_char(c: char) -> (r: Option<u64>)
    ensures
        r is Some <==> is_digit(c),
        r is Some ==> r->Some_0 < 10 && r->Some_0 as nat == digit_val(c),
{
    if '0' <= c && c <= '9' {
        Some(((c as u32) - ('0' as u32)) as u64)
    } else {
        None
    }
}

/// Appends the canonical decimal numeral of `n`.
pub fn push_dec_u64(out: &mut Vec<char>, n: u64)
    ensures
        final(out)@ == old(out)@ + dec_chars(n as nat),
    decreases n,
{
    if n < 10 {
        out.push(digit_char_of(n));
        proof {
            assert(final(out)@ =~= old(out)@ + dec_chars(n as nat));
        }
    } else {
        push_dec_u64(out, n / 10);
        out.push(digit_char_of(n % 10));
        proof {
            assert(final(out)@ =~= old(out)@ + dec_chars(n as nat));
        }
    }
}

/// Where a canonical numeral denoting `n` sits at position `i` of `s`, with
/// no digit immediately after it.
pub open spec fn dec_token_at(s: Seq<char>, i: int, n: nat) -> bool {
    occurs_at(s, dec_chars(n), i) && (i + dec_chars(n).len() == s.len() || !is_digit(
        s[i + dec_chars(n).len()],
    ))
}

/// Parses a canonical decimal numeral starting at `from`. Strict: rejects
/// leading zeros and values beyond `u64`.
pub fn parse_dec_u64(v: &Vec<char>, from: usize) -> (r: Option<(u64, usize)>)
    ensures
        match r {
            Some((n, j)) => from <= j <= v@.len() && v@.subrange(from as int, j as int)
                == dec_chars(n as nat) && (j == v@.len() || !is_digit(v@[j as int])),
            None => true,
        },
        forall|n: u64| dec_token_at(v@, from as int, n as nat) ==> r == Some(
            (n, (from + dec_chars(n as nat).len()) as usize),
        ),
{
    let len = v.len();
    if from >= len {
        proof {
            assert forall|n: u64| !dec_token_at(v@, from as int, n as nat) by {
                lemma_dec_chars_shape(n as nat);
            }
        }
        return None;
    }
    let Some(d0) = digit_of_char(v[from]) else {
        proof {
            assert forall|n: u64| !dec_token_at(v@, from as int, n as nat) by {
                lemma_dec_chars_shape(n as nat);
                if occurs_at(v@, dec_chars(n as nat), from as int) {
                    assert(v@[from as int] == dec_chars(n as nat)[0]);
                }
            }
        }
        return None;
    };
    if d0 == 0 {
        // A leading zero is canonical only as the single numeral `0`.
        if from + 1 < len && digit_of_char(v[from + 1]).is_some() {
            proof {
                assert forall|n: u64| !dec_token_at(v@, from as int, n as nat) by {
                    lemma_dec_chars_shape(n as nat);
                    if occurs_at(v@, dec_chars(n as nat), from as int) {
                        assert(v@[from as int] == dec_chars(n as nat)[0]);
                        assert(v@[from as int] == '0') by {
                            assert(digit_val(v@[from as int]) == 0);
                        }
                        assert(n == 0);
                        assert(dec_chars(0nat).len() == 1);
                    }
                }
            }
            return None;
        }
        proof {
            assert(v@[from as int] == '0') by {
                assert(digit_val(v@[from as int]) == 0);
            }
            assert(v@.subrange(from as int, from + 1) =~= dec_chars(0nat));
            assert forall|n: u64| dec_token_at(v@, from as int, n as nat) implies Some(
                (0u64, (from + 1) as usize),
            ) == Some((n, (from + dec_chars(n as nat).len()) as usize)) by {
                lemma_dec_token_unique(v@, from as int, n as nat, 0nat);
            }
        }
        return Some((0, from + 1));
    }
    let mut acc: u64 = d0;
    let mut j: usize = from + 1;
    proof {
        assert(v@.subrange(from as int, from + 1) =~= seq![v@[from as int]]);
        assert(v@[from as int] == dec_digit_char(acc as nat)) by {
            assert(is_digit(v@[from as int]));
            assert(digit_val(v@[from as int]) == acc as nat);
        }
        assert(v@.subrange(from as int, j as int) =~= dec_chars(acc as nat));
    }
    loop
        invariant
            from < j <= len,
            len == v@.len(),
            1 <= acc,
            v@.subrange(from as int, j as int) == dec_chars(acc as nat),
        ensures
            from < j <= len,
            1 <= acc,
            v@.subrange(from as int, j as int) == dec_chars(acc as nat),
            j == len || !is_digit(v@[j as int]),
        decreases len - j,
    {
        if j >= len {
            break ;
        }
        let Some(d) = digit_of_char(v[j]) else { break  };
        if acc > (u64::MAX - d) / 10 {
            // The numeral's value would not fit; no `u64` token starts here.
            proof {
                lemma_dec_chars_shape(acc as nat);
                assert forall|n: u64| !dec_token_at(v@, from as int, n as nat) by {
                    if dec_token_at(v@, from as int, n as nat) {
                        lemma_dec_chars_shape(n as nat);
                        let ln = dec_chars(n as nat).len() as int;
                        let here = j - from;
                        // The parsed digits plus the next digit are a prefix
                        // of the numeral that supposedly starts at `from`.
                        if ln <= here {
                            assert(is_digit(v@[from + ln]) || from + ln == len) by {
                                if ln < here {
                                    assert(v@[from + ln] == v@.subrange(
                                        from as int,
                                        j as int,
                                    )[ln]);
                                    assert(is_digit(dec_chars(acc as nat)[ln]));
                                }
                            }
                            assert(is_digit(v@[from + here]));
                            assert(false);
                        } else {
                            assert(dec_chars(n as nat).take(here + 1) =~= dec_chars(
                                acc as nat,
                            ).push(v@[j as int])) by {
                                assert forall|q: int| 0 <= q <= here implies dec_chars(
                                    n as nat,
                                )[q] == v@[from + q] by {}
                                assert forall|q: int| 0 <= q < here implies dec_chars(
                                    acc as nat,
                                )[q] == v@[from + q] by {
                                    assert(dec_chars(acc as nat)[q] == v@.subrange(
                                        from as int,
                                        j as int,
                                    )[q]);
                                }
                            }
                            lemma_digits_val_take(dec_chars(n as nat), here + 1);
                            assert(digits_val(dec_chars(acc as nat).push(v@[j as int])) == acc * 10
                                + d) by {
                                assert(dec_chars(acc as nat).push(
                                    v@[j as int],
                                ).drop_last() =~= dec_chars(acc as nat));
                            }
                            assert(acc * 10 + d <= n);
                            assert(acc * 10 + d > u64::MAX) by (nonlinear_arith)
                                requires
                                    acc > (u64::MAX - d) / 10,
                                    d < 10,
                            ;
                            assert(false);
                        }
                    }
                }
            }
            return None;
        }
        proof {
            assert(acc * 10 + d <= u64::MAX) by (nonlinear_arith)
                requires
                    acc <= (u64::MAX - d) / 10,
                    d < 10,
            ;
        }
        let next = acc * 10 + d;
        proof {
            assert(next as nat / 10 == acc as nat && next as nat % 10 == d as nat)
                by (nonlinear_arith)
                requires
                    next == acc * 10 + d,
                    0 <= d < 10,
                    acc >= 1,
            ;
            assert(next >= 10);
            assert(dec_chars(next as nat) == dec_chars(acc as nat).push(
                dec_digit_char(d as nat),
            ));
            assert(v@[j as int] == dec_digit_char(d as nat)) by {
                assert(is_digit(v@[j as int]));
                assert(digit_val(v@[j as int]) == d as nat);
            }
            assert(v@.subrange(from as int, j + 1) =~= dec_chars(acc as nat).push(v@[j as int]));
        }
        acc = next;
        j += 1;
    }
    proof {
        lemma_dec_chars_shape(acc as nat);
        assert(j == len || !is_digit(v@[j as int]));
        assert forall|n: u64| dec_token_at(v@, from as int, n as nat) implies Some(
            (acc, j),
        ) =~= Some((n, (from + dec_chars(n as nat).len()) as usize)) by {
            lemma_dec_token_unique(v@, from as int, n as nat, acc as nat);
        }
    }
    Some((acc, j))
}

/// The lower-case hexadecimal digit character for a value below sixteen.
pub open spec fn hex_digit_char(d: nat) -> char
    recommends
        d < 16,
{
    if d < 10 {
        dec_digit_char(d)
    } else if d == 10 {
        'a'
    } else if d == 11 {
        'b'
    } else if d == 12 {
        'c'
    } else if d == 13 {
        'd'
    } else if d == 14 {
        'e'
    } else {
        'f'
    }
}

pub proof fn lemma_hex_digit_inj(a: nat, b: nat)
    requires
        a < 16,
        b < 16,
        hex_digit_char(a) == hex_digit_char(b),
    ensures
        a == b,
{
}

fn hex_low_of_char(c: char) -> (r: Option<u8>)
    ensures
        match r {
            Some(d) => d < 16 && hex_digit_char(d as nat) == c,
            None => forall|d: nat| d < 16 ==> hex_digit_char(d) != c,
        },
{
    if '0' <= c && c <= '9' {
        Some(((c as u32) - ('0' as u32)) as u8)
    } else if 'a' <= c && c <= 'f' {
        Some((((c as u32) - ('a' as u32)) + 10) as u8)
    } else {
        None
    }
}

/// The canonical escaping of one character inside a protocol string: the
/// quote, the backslash and the common control characters get two-character
/// escapes, other control characters a `\u00..` escape, everything else
/// stands for itself.
pub open spec fn esc_char(c: char) -> Seq<char> {
    if c == '"' {
        seq!['\\', '"']
    } else if c == '\\' {
        seq!['\\', '\\']
    } else if c == '\n' {
        seq!['\\', 'n']
    } else if c == '\r' {
        seq!['\\', 'r']
    } else if c == '\t' {
        seq!['\\', 't']
    } else if (c as u32) < 32 {
        seq![
            '\\',
            'u',
            '0',
            '0',
            hex_digit_char((c as u32 / 16) as nat),
            hex_digit_char((c as u32 % 16) as nat),
        ]
    } else {
        seq![c]
    }
}

/// The canonical escaping of a whole string.
pub open spec fn esc(s: Seq<char>) -> Seq<char>
    decreases s.len(),
{
    if s.len() == 0 {
        Seq::empty()
    } else {
        esc_char(s[0]) + esc(s.skip(1))
    }
}

pub proof fn lemma_esc_char_shape(c: char)
    ensures
        1 <= esc_char(c).len(),
        esc_char(c).len() == 1 || esc_char(c).len() == 2 || esc_char(c).len() == 6,
        esc_char(c)[0] != '"',
        (esc_char(c)[0] as u32) >= 32,
        esc_char(c).len() == 1 ==> esc_char(c) == seq![c] && (c as u32) >= 32 && c != '"' && c
            != '\\',
        esc_char(c).len() >= 2 ==> esc_char(c)[0] == '\\',
        esc_char(c).len() == 6 ==> (c as u32) < 32 && (c as u32) != 9 && (c as u32) != 10 && (
        c as u32) != 13 && esc_char(c)[1] == 'u' && esc_char(c)[2] == '0' && esc_char(c)[3] == '0'
            && esc_char(c)[4] == hex_digit_char((c as u32 / 16) as nat) && esc_char(c)[5]
            == hex_digit_char((c as u32 % 16) as nat) && (c as u32) / 16 < 16 && (c as u32) % 16
            < 16,
{
}

pub proof fn lemma_esc_single(c: char)
    ensures
        esc(seq![c]) == esc_char(c),
{
    assert(seq![c].skip(1) =~= Seq::<char>::empty());
    assert(esc(seq![c]) == esc_char(c) + esc(seq![c].skip(1)));
    assert(esc_char(c) + Seq::<char>::empty() =~= esc_char(c));
}

pub proof fn lemma_esc_concat(a: Seq<char>, b: Seq<char>)
    ensures
        esc(a + b) == esc(a) + esc(b),
    decreases a.len(),
{
    if a.len() == 0 {
        assert(a + b =~= b);
        assert(esc(a) + esc(b) =~= esc(b));
    } else {
        assert((a + b).skip(1) =~= a.skip(1) + b);
        lemma_esc_concat(a.skip(1), b);
        assert((a + b)[0] == a[0]);
        assert(esc(a + b) == esc_char(a[0]) + (esc(a.skip(1)) + esc(b)));
        assert(esc_char(a[0]) + (esc(a.skip(1)) + esc(b)) =~= (esc_char(a[0]) + esc(a.skip(1)))
            + esc(b));
    }
}

pub proof fn lemma_esc_take_succ(x: Seq<char>, k: int)
    requires
        0 <= k < x.len(),
    ensures
        esc(x.take(k + 1)) == esc(x.take(k)) + esc_char(x[k]),
{
    assert(x.take(k + 1) =~= x.take(k) + seq![x[k]]);
    lemma_esc_concat(x.take(k), seq![x[k]]);
    lemma_esc_single(x[k]);
}

/// The escaped form of a string, closed by an unescaped quote, sits at
/// position `i` of `s`.
pub open spec fn body_at(s: Seq<char>, i: int, x: Seq<char>) -> bool {
    occurs_at(s, esc(x) + seq!['"'], i)
}

/// Two escaped characters that start at the same position are the same
/// character: the escaping is prefix-deterministic.
pub proof fn lemma_esc_char_prefix(s: Seq<char>, i: int, a: char, b: char)
    requires
        occurs_at(s, esc_char(a), i),
        occurs_at(s, esc_char(b), i),
    ensures
        a == b,
{
    lemma_esc_char_shape(a);
    lemma_esc_char_shape(b);
    let ea = esc_char(a);
    let eb = esc_char(b);
    assert forall|q: int| 0 <= q < ea.len() implies ea[q] == s[i + q] by {
        assert(ea[q] == s.subrange(i, i + ea.len())[q]);
    }
    assert forall|q: int| 0 <= q < eb.len() implies eb[q] == s[i + q] by {
        assert(eb[q] == s.subrange(i, i + eb.len())[q]);
    }
    if ea.len() == 1 && eb.len() == 1 {
    } else if ea.len() == 1 || eb.len() == 1 {
        // One raw character, the other escaped: the first characters clash.
        assert(false);
    } else {
        // Both escaped; the character after the backslash decides.
        assert(ea[1] == eb[1]);
        if ea.len() == 6 && eb.len() == 6 {
            assert(ea[4] == eb[4] && ea[5] == eb[5]);
            lemma_hex_digit_inj((a as u32 / 16) as nat, (b as u32 / 16) as nat);
            lemma_hex_digit_inj((a as u32 % 16) as nat, (b as u32 % 16) as nat);
            assert(a as u32 == b as u32);
            assert(a == b);
        } else if ea.len() == 6 || eb.len() == 6 {
            assert(false);
        }
    }
}

fn esc_char_exec(c: char, out: &mut Vec<char>)
    ensures
        final(out)@ == old(out)@ + esc_char(c),
{
    if c == '"' {
        out.push('\\');
        out.push('"');
    } else if c == '\\' {
        out.push('\\');
        out.push('\\');
    } else if c == '\n' {
        out.push('\\');
        out.push('n');
    } else if c == '\r' {
        out.push('\\');
        out.push('r');
    } else if c == '\t' {
        out.push('\\');
        out.push('t');
    } else if (c as u32) < 32 {
        let code = c as u32;
        out.push('\\');
        out.push('u');
        out.push('0');
        out.push('0');
        out.push(hex_char_of((code / 16) as u8));
        out.push(hex_char_of((code % 16) as u8));
    } else {
        out.push(c);
    }
    proof {
        assert(final(out)@ =~= old(out)@ + esc_char(c));
    }
}

fn hex_char_of(d: u8) -> (c: char)
    requires
        d < 16,
    ensures
        c == hex_digit_char(d as nat),
{
    if d < 10 {
        digit_char_of(d as u64)
    } else if d == 10 {
        'a'
    } else if d == 11 {
        'b'
    } else if d == 12 {
        'c'
    } else if d == 13 {
        'd'
    } else if d == 14 {
        'e'
    } else {
        'f'
    }
}

/// Appends `"` + the escaped characters of `s` + `"`.
pub fn push_quoted(out: &mut Vec<char>, s: &str)
    ensures
        final(out)@ == old(out)@ + seq!['"'] + esc(s@) + seq!['"'],
{
    let chars = crate::text::string_to_chars(s);
    out.push('"');
    let mut i: usize = 0;
    while i < chars.len()
        invariant
            i <= chars@.len(),
            chars@ == s@,
            out@ == old(out)@ + seq!['"'] + esc(s@.take(i as int)),
        decreases chars@.len() - i,
    {
        esc_char_exec(chars[i], out);
        proof {
            lemma_esc_take_succ(s@, i as int);
            assert(out@ =~= old(out)@ + seq!['"'] + esc(s@.take(i + 1)));
        }
        i += 1;
    }
    out.push('"');
    proof {
        assert(s@.take(s@.len() as int) =~= s@);
        assert(out@ =~= old(out)@ + seq!['"'] + esc(s@) + seq!['"']);
    }
}

/// Appends every character of `lit`.
pub fn push_lit(out: &mut Vec<char>, lit: &str)
    ensures
        final(out)@ == old(out)@ + lit@,
{
    let n = lit.unicode_len();
    let mut i: usize = 0;
    while i < n
        invariant
            i <= n,
            n == lit@.len(),
            out@ == old(out)@ + lit@.take(i as int),
        decreases n - i,
    {
        out.push(lit.get_char(i));
        proof {
            assert(out@ =~= old(out)@ + lit@.take(i + 1));
        }
        i += 1;
    }
    proof {
        assert(out@ =~= old(out)@ + lit@);
    }
}

/// Checks that `lit` occurs verbatim at `from` and steps over it.
pub fn expect_lit(v: &Vec<char>, from: usize, lit: &str) -> (r: Option<usize>)
    ensures
        match r {
            Some(j) => j == from + lit@.len() && occurs_at(v@, lit@, from as int),
            None => !occurs_at(v@, lit@, from as int),
        },
{
    let n = lit.unicode_len();
    let len = v.len();
    if from > len {
        return None;
    }
    if n > len - from {
        return None;
    }
    let mut i: usize = 0;
    while i < n
        invariant
            i <= n,
            n == lit@.len(),
            len == v@.len(),
            from + n <= len,
            forall|j: int| 0 <= j < i ==> v@[from + j] == lit@[j],
        decreases n - i,
    {
        if v[from + i] != lit.get_char(i) {
            proof {
                assert(v@.subrange(from as int, from + lit@.len()) != lit@) by {
                    assert(v@.subrange(from as int, from + lit@.len())[i as int] != lit@[i as int]);
                }
            }
            return None;
        }
        i += 1;
    }
    proof {
        assert(v@.subrange(from as int, from + lit@.len()) =~= lit@);
    }
    Some(from + n)
}

/// Parses the escaped body of a protocol string up to and over its closing
/// quote. Strict: only the canonical escapes above are accepted, so a
/// successful parse re-encodes to exactly the consumed text.
#[verifier::rlimit(100)]
pub fn parse_string_body(v: &Vec<char>, from: usize) -> (r: Option<(Vec<char>, usize)>)
    ensures
        match r {
            Some((s, j)) => from <= j <= v@.len() && v@.subrange(from as int, j as int) == esc(s@)
                + seq!['"'],
            None => true,
        },
        forall|x: Seq<char>| #[trigger] body_at(v@, from as int, x) ==> r is Some
            && r->Some_0.0@ == x && r->Some_0.1 == from + esc(x).len() + 1,
{
    let len = v.len();
    if from > len {
        proof {
            assert forall|x: Seq<char>| !(#[trigger] body_at(v@, from as int, x)) by {}
        }
        return None;
    }
    let mut acc: Vec<char> = Vec::new();
    let mut i: usize = from;
    proof {
        assert(acc@ =~= Seq::<char>::empty());
        assert(esc(acc@) =~= Seq::<char>::empty());
        assert(v@.subrange(from as int, from as int) =~= esc(acc@));
        assert forall|x: Seq<char>| #[trigger] body_at(v@, from as int, x) implies acc@ == x.take(
            acc@.len() as int,
        ) && i == from + esc(x.take(acc@.len() as int)).len() by {
            assert(x.take(0) =~= Seq::<char>::empty());
            assert(esc(x.take(0)) =~= Seq::<char>::empty());
        }
    }
    loop
        invariant
            from <= i <= len,
            len == v@.len(),
            v@.subrange(from as int, i as int) == esc(acc@),
            forall|x: Seq<char>| #[trigger] body_at(v@, from as int, x) ==> acc@.len() <= x.len()
                && acc@ == x.take(acc@.len() as int) && i == from + esc(
                x.take(acc@.len() as int),
            ).len(),
        decreases len - i,
    {
        proof {
            // Everything below reasons per matching candidate `x`.
            assert forall|x: Seq<char>|
                #[trigger] body_at(v@, from as int, x) && acc@.len() < x.len() implies occurs_at(
                v@,
                esc_char(x[acc@.len() as int]),
                i as int,
            ) && from + esc(x).len() + 1 <= len && esc(x).len() >= esc(x.take(acc@.len() as int)).len()
                + esc_char(x[acc@.len() as int]).len() by {
                let k = acc@.len() as int;
                lemma_esc_take_succ(x, k);
                assert(x =~= x.take(k + 1) + x.skip(k + 1));
                lemma_esc_concat(x.take(k + 1), x.skip(k + 1));
                assert(esc(x) == esc(x.take(k)) + esc_char(x[k]) + esc(x.skip(k + 1)));
                lemma_esc_char_shape(x[k]);
                let e = esc_char(x[k]);
                let seg = esc(x) + seq!['"'];
                assert forall|q: int| 0 <= q < e.len() implies v@[i + q] == e[q] by {
                    assert(seg[(i - from) + q] == e[q]);
                    assert(v@.subrange(from as int, from + seg.len())[(i - from) + q] == v@[i + q]);
                }
                assert(v@.subrange(i as int, i + e.len()) =~= e);
            }
            assert forall|x: Seq<char>|
                #[trigger] body_at(v@, from as int, x) && acc@.len() == x.len() implies i < len
                && v@[i as int] == '"' && i == from + esc(x).len() by {
                let k = acc@.len() as int;
                assert(x.take(k) =~= x);
                let seg = esc(x) + seq!['"'];
                assert(seg[(i - from) as int] == '"');
                assert(v@.subrange(from as int, from + seg.len())[(i - from) as int]
                    == v@[i as int]);
            }
        }
        if i >= len {
            proof {
                assert forall|x: Seq<char>| !(#[trigger] body_at(v@, from as int, x)) by {
                    if body_at(v@, from as int, x) {
                        if acc@.len() < x.len() {
                            lemma_esc_char_shape(x[acc@.len() as int]);
                        }
                    }
                }
            }
            return None;
        }
        let c = v[i];
        if c == '"' {
            proof {
                assert(v@.subrange(from as int, i + 1) =~= esc(acc@) + seq!['"']);
                assert forall|x: Seq<char>| #[trigger] body_at(v@, from as int, x) implies acc@ == x
                    && i + 1 == from + esc(x).len() + 1 by {
                    if acc@.len() < x.len() {
                        lemma_esc_char_shape(x[acc@.len() as int]);
                        assert(esc_char(x[acc@.len() as int])[0] == v@.subrange(
                            i as int,
                            i + esc_char(x[acc@.len() as int]).len(),
                        )[0]);
                        assert(false);
                    }
                    assert(acc@ =~= x);
                }
            }
            return Some((acc, i + 1));
        }
        // In every remaining branch the candidate still has a character left.
        proof {
            assert forall|x: Seq<char>|
                #[trigger] body_at(v@, from as int, x) implies acc@.len() < x.len() by {
                if acc@.len() == x.len() {
                    assert(v@[i as int] == '"');
                }
            }
        }
        let ghost prev = acc@;
        let decoded: char;
        let consumed: usize;
        if c == '\\' {
            if i + 1 >= len {
                proof {
                    assert forall|x: Seq<char>| !(#[trigger] body_at(v@, from as int, x)) by {
                        if body_at(v@, from as int, x) {
                            let k = prev.len() as int;
                            lemma_esc_char_shape(x[k]);
                            assert(esc_char(x[k]).len() >= 2);
                        }
                    }
                }
                return None;
            }
            let e = v[i + 1];
            proof {
                assert forall|x: Seq<char>|
                    #[trigger] body_at(v@, from as int, x) implies esc_char(x[prev.len() as int])[0]
                    == '\\' && esc_char(x[prev.len() as int])[1] == e && esc_char(
                    x[prev.len() as int],
                ).len() >= 2 by {
                    let k = prev.len() as int;
                    lemma_esc_char_shape(x[k]);
                    let ec = esc_char(x[k]);
                    assert(ec[0] == v@.subrange(i as int, i + ec.len())[0]);
                    if ec.len() >= 2 {
                        assert(ec[1] == v@.subrange(i as int, i + ec.len())[1]);
                    }
                }
            }
            if e == '"' {
                decoded = '"';
                consumed = 2;
            } else if e == '\\' {
                decoded = '\\';
                consumed = 2;
            } else if e == 'n' {
                decoded = '\n';
                consumed = 2;
            } else if e == 'r' {
                decoded = '\r';
                consumed = 2;
            } else if e == 't' {
                decoded = '\t';
                consumed = 2;
            } else if e == 'u' {
                if len - i < 6 {
                    proof {
                        assert forall|x: Seq<char>| !(#[trigger] body_at(v@, from as int, x)) by {
                            if body_at(v@, from as int, x) {
                                let k = prev.len() as int;
                                lemma_esc_char_shape(x[k]);
                                assert(esc_char(x[k]).len() == 6);
                            }
                        }
                    }
                    return None;
                }
                let okay = v[i + 2] == '0' && v[i + 3] == '0';
                let h1 = if okay {
                    hex_low_of_char(v[i + 4])
                } else {
                    None
                };
                let h0 = if okay {
                    hex_low_of_char(v[i + 5])
                } else {
                    None
                };
                let (d1, d0) = match (h1, h0) {
                    (Some(d1), Some(d0)) => (d1, d0),
                    _ => {
                        proof {
                            assert forall|x: Seq<char>|
                                !(#[trigger] body_at(v@, from as int, x)) by {
                                if body_at(v@, from as int, x) {
                                    let k = prev.len() as int;
                                    lemma_esc_char_shape(x[k]);
                                    let ec = esc_char(x[k]);
                                    assert(ec.len() == 6);
                                    assert forall|q: int| 0 <= q < 6 implies v@[i + q]
                                        == ec[q] by {
                                        assert(ec[q] == v@.subrange(i as int, i + 6)[q]);
                                    }
                                }
                            }
                        }
                        return None;
                    },
                };
                let val: u32 = (d1 as u32) * 16 + (d0 as u32);
                if d1 > 1 || val == 9 || val == 10 || val == 13 {
                    proof {
                        assert forall|x: Seq<char>| !(#[trigger] body_at(v@, from as int, x)) by {
                            if body_at(v@, from as int, x) {
                                let k = prev.len() as int;
                                lemma_esc_char_shape(x[k]);
                                let ec = esc_char(x[k]);
                                assert(ec.len() == 6);
                                assert forall|q: int| 0 <= q < 6 implies v@[i + q] == ec[q] by {
                                    assert(ec[q] == v@.subrange(i as int, i + 6)[q]);
                                }
                                let cx = x[k];
                                lemma_hex_digit_inj(d1 as nat, (cx as u32 / 16) as nat);
                                lemma_hex_digit_inj(d0 as nat, (cx as u32 % 16) as nat);
                                assert(cx as u32 == val) by (nonlinear_arith)
                                    requires
                                        cx as u32 % 16 == d0 as u32,
                                        cx as u32 / 16 == d1 as u32,
                                        val == (d1 as u32) * 16 + (d0 as u32),
                                ;
                            }
                        }
                    }
                    return None;
                }
                decoded = (val as u8) as char;
                consumed = 6;
                proof {
                    assert(decoded as u32 == val);
                    assert(val / 16 == d1 as u32 && val % 16 == d0 as u32) by (nonlinear_arith)
                        requires
                            val == (d1 as u32) * 16 + (d0 as u32),
                            d0 < 16,
                    ;
                }
            } else {
                proof {
                    assert forall|x: Seq<char>| !(#[trigger] body_at(v@, from as int, x)) by {
                        if body_at(v@, from as int, x) {
                            let k = prev.len() as int;
                            lemma_esc_char_shape(x[k]);
                        }
                    }
                }
                return None;
            }
        } else if (c as u32) < 32 {
            proof {
                assert forall|x: Seq<char>| !(#[trigger] body_at(v@, from as int, x)) by {
                    if body_at(v@, from as int, x) {
                        let k = prev.len() as int;
                        lemma_esc_char_shape(x[k]);
                        let ec = esc_char(x[k]);
                        assert(ec[0] == v@.subrange(i as int, i + ec.len())[0]);
                    }
                }
            }
            return None;
        } else {
            decoded = c;
            consumed = 1;
        }
        proof {
            assert(v@.subrange(i as int, i + consumed) =~= esc_char(decoded));
        }
        acc.push(decoded);
        proof {
            assert(acc@ == prev.push(decoded));
            assert(prev.push(decoded) =~= prev + seq![decoded]);
            lemma_esc_concat(prev, seq![decoded]);
            lemma_esc_single(decoded);
            assert(v@.subrange(from as int, i + consumed) =~= v@.subrange(from as int, i as int)
                + v@.subrange(i as int, i + consumed));
            assert(v@.subrange(from as int, i + consumed) == esc(acc@));
            assert forall|x: Seq<char>| #[trigger] body_at(v@, from as int, x) implies acc@.len()
                <= x.len() && acc@ == x.take(acc@.len() as int) && i + consumed == from + esc(
                x.take(acc@.len() as int),
            ).len() by {
                let k = prev.len() as int;
                lemma_esc_char_prefix(v@, i as int, x[k], decoded);
                lemma_esc_take_succ(x, k);
                assert(x.take(k + 1) =~= x.take(k).push(x[k]));
                assert(acc@ =~= x.take(k + 1));
                lemma_esc_char_shape(decoded);
            }
        }
        i += consumed;
    }
}

/// The canonical form of a boolean field value.
pub open spec fn enc_bool(b: bool) -> Seq<char> {
    if b {
        "true"@
    } else {
        "false"@
    }
}

/// A complete protocol string: quote, escaped content, quote.
pub open spec fn quoted(x: Seq<char>) -> Seq<char> {
    seq!['"'] + esc(x) + seq!['"']
}

/// Parses a complete quoted string at `from`.
pub fn parse_quoted(v: &Vec<char>, from: usize) -> (r: Option<(String, usize)>)
    ensures
        match r {
            Some((s, j)) => from <= j <= v@.len() && v@.subrange(from as int, j as int) == quoted(
                s@,
            ),
            None => true,
        },
        forall|x: Seq<char>| #[trigger] occurs_at(v@, quoted(x), from as int) ==> r is Some
            && r->Some_0.0@ == x && r->Some_0.1 == from + quoted(x).len(),
{
    let len = v.len();
    if from >= len || v[from] != '"' {
        proof {
            assert forall|x: Seq<char>| !(#[trigger] occurs_at(v@, quoted(x), from as int)) by {
                if occurs_at(v@, quoted(x), from as int) {
                    assert(v@.subrange(from as int, from + quoted(x).len())[0] == '"');
                }
            }
        }
        return None;
    }
    let Some((body, j)) = parse_string_body(v, from + 1) else {
        proof {
            assert forall|x: Seq<char>| !(#[trigger] occurs_at(v@, quoted(x), from as int)) by {
                if occurs_at(v@, quoted(x), from as int) {
                    lemma_quoted_body(v@, from as int, x);
                }
            }
        }
        return None;
    };
    proof {
        assert(v@.subrange(from as int, j as int) =~= seq!['"'] + v@.subrange(from + 1, j as int));
        assert forall|x: Seq<char>| #[trigger] occurs_at(v@, quoted(x), from as int) implies body@
            == x && j == from + quoted(x).len() by {
            lemma_quoted_body(v@, from as int, x);
        }
    }
    let s = crate::text::chars_to_string(&body);
    Some((s, j))
}

/// A quoted string occurring at `i` is an opening quote followed by an
/// escaped body closed by a quote at `i + 1`.
pub proof fn lemma_quoted_body(s: Seq<char>, i: int, x: Seq<char>)
    requires
        occurs_at(s, quoted(x), i),
    ensures
        body_at(s, i + 1, x),
{
    let q = quoted(x);
    let b = esc(x) + seq!['"'];
    assert(q.len() == b.len() + 1);
    assert forall|k: int| 0 <= k < b.len() implies s[i + 1 + k] == b[k] by {
        assert(q[1 + k] == b[k]);
        assert(s.subrange(i, i + q.len())[1 + k] == s[i + 1 + k]);
    }
    assert(s.subrange(i + 1, i + 1 + b.len()) =~= b);
}

/// Escaped string bodies closed by a quote are unambiguous: two that start
/// at the same position denote the same string.
pub proof fn lemma_body_unique(v: Seq<char>, i: int, x: Seq<char>, y: Seq<char>)
    requires
        body_at(v, i, x),
        body_at(v, i, y),
    ensures
        x == y,
    decreases x.len(),
{
    if x.len() == 0 {
        assert(esc(x) + seq!['"'] =~= seq!['"']);
        assert(v[i] == '"') by {
            assert(v.subrange(i, i + 1) == seq!['"']);
            assert(v.subrange(i, i + 1)[0] == v[i]);
        }
        if y.len() != 0 {
            assert(esc(y) == esc_char(y[0]) + esc(y.skip(1)));
            assert(esc(y) + seq!['"'] =~= esc_char(y[0]) + (esc(y.skip(1)) + seq!['"']));
            crate::text::lemma_occurs_split(v, esc_char(y[0]), esc(y.skip(1)) + seq!['"'], i);
            lemma_esc_char_shape(y[0]);
            assert(esc_char(y[0])[0] == v[i]) by {
                assert(v.subrange(i, i + esc_char(y[0]).len())[0] == v[i]);
            }
            assert(false);
        }
        assert(x =~= y);
    } else if y.len() == 0 {
        assert(esc(y) + seq!['"'] =~= seq!['"']);
        assert(v[i] == '"') by {
            assert(v.subrange(i, i + 1) == seq!['"']);
            assert(v.subrange(i, i + 1)[0] == v[i]);
        }
        assert(esc(x) == esc_char(x[0]) + esc(x.skip(1)));
        assert(esc(x) + seq!['"'] =~= esc_char(x[0]) + (esc(x.skip(1)) + seq!['"']));
        crate::text::lemma_occurs_split(v, esc_char(x[0]), esc(x.skip(1)) + seq!['"'], i);
        lemma_esc_char_shape(x[0]);
        assert(esc_char(x[0])[0] == v[i]) by {
            assert(v.subrange(i, i + esc_char(x[0]).len())[0] == v[i]);
        }
        assert(false);
    } else {
        assert(esc(x) == esc_char(x[0]) + esc(x.skip(1)));
        assert(esc(x) + seq!['"'] =~= esc_char(x[0]) + (esc(x.skip(1)) + seq!['"']));
        crate::text::lemma_occurs_split(v, esc_char(x[0]), esc(x.skip(1)) + seq!['"'], i);
        assert(esc(y) == esc_char(y[0]) + esc(y.skip(1)));
        assert(esc(y) + seq!['"'] =~= esc_char(y[0]) + (esc(y.skip(1)) + seq!['"']));
        crate::text::lemma_occurs_split(v, esc_char(y[0]), esc(y.skip(1)) + seq!['"'], i);
        lemma_esc_char_prefix(v, i, x[0], y[0]);
        lemma_body_unique(v, i + esc_char(x[0]).len(), x.skip(1), y.skip(1));
        assert(x =~= y) by {
            assert(x =~= seq![x[0]] + x.skip(1));
            assert(y =~= seq![y[0]] + y.skip(1));
        }
    }
}

/// Quoted strings are unambiguous: two that start at the same position
/// denote the same string.
pub proof fn lemma_quoted_unique(v: Seq<char>, i: int, x: Seq<char>, y: Seq<char>)
    requires
        occurs_at(v, quoted(x), i),
        occurs_at(v, quoted(y), i),
    ensures
        x == y,
{
    lemma_quoted_body(v, i, x);
    lemma_quoted_body(v, i, y);
    lemma_body_unique(v, i + 1, x, y);
}

/// The canonical numeral of a signed value: a minus sign for negatives.
pub open spec fn i64_chars(t: int) -> Seq<char> {
    if t >= 0 {
        dec_chars(t as nat)
    } else {
        seq!['-'] + dec_chars((-t) as nat)
    }
}

/// Appends the canonical numeral of `t`.
pub fn push_dec_i64(out: &mut Vec<char>, t: i64)
    ensures
        final(out)@ == old(out)@ + i64_chars(t as int),
{
    if t >= 0 {
        push_dec_u64(out, t as u64);
    } else {
        out.push('-');
        let mag: u64 = ((-(t + 1)) as u64) + 1;
        push_dec_u64(out, mag);
        proof {
            assert(mag as nat == (-(t as int)) as nat);
            assert(final(out)@ =~= old(out)@ + i64_chars(t as int));
        }
    }
}

/// Where a canonical signed numeral denoting `t` sits at `i`, with no digit
/// immediately after it.
pub open spec fn i64_token_at(s: Seq<char>, i: int, t: i64) -> bool {
    occurs_at(s, i64_chars(t as int), i) && (i + i64_chars(t as int).len() == s.len() || !is_digit(
        s[i + i64_chars(t as int).len()],
    ))
}

/// Parses a canonical signed numeral in the range of `i64`.
pub fn parse_dec_i64(v: &Vec<char>, from: usize) -> (r: Option<(i64, usize)>)
    ensures
        match r {
            Some((t, j)) => from <= j <= v@.len() && v@.subrange(from as int, j as int) == i64_chars(
                t as int,
            ) && (j == v@.len() || !is_digit(v@[j as int])),
            None => true,
        },
        forall|t: i64| #[trigger] i64_token_at(v@, from as int, t) ==> r == Some(
            (t, (from + i64_chars(t as int).len()) as usize),
        ),
{
    let len = v.len();
    if from < len && v[from] == '-' {
        let inner = parse_dec_u64(v, from + 1);
        proof {
            assert forall|t: i64| #[trigger]
                i64_token_at(v@, from as int, t) implies t < 0 && dec_token_at(
                v@,
                from + 1,
                (-(t as int)) as nat,
            ) by {
                lemma_dec_chars_shape(if t >= 0 {
                    t as nat
                } else {
                    (-(t as int)) as nat
                });
                if t >= 0 {
                    assert(v@.subrange(from as int, from + i64_chars(t as int).len())[0]
                        == dec_chars(t as nat)[0]);
                } else {
                    let d = dec_chars((-(t as int)) as nat);
                    let w = i64_chars(t as int);
                    assert forall|k: int| 0 <= k < d.len() implies v@[from + 1 + k] == d[k] by {
                        assert(w[1 + k] == d[k]);
                        assert(v@.subrange(from as int, from + w.len())[1 + k] == v@[from + 1 + k]);
                    }
                    assert(v@.subrange(from + 1, from + 1 + d.len()) =~= d);
                }
            }
        }
        let Some((m, j)) = inner else {
            proof {
                assert forall|t: i64| !(#[trigger] i64_token_at(v@, from as int, t)) by {
                    if i64_token_at(v@, from as int, t) {
                        let n = (-(t as int)) as nat;
                        assert(n <= u64::MAX);
                        assert(dec_token_at(v@, from + 1, n));
                    }
                }
            }
            return None;
        };
        if m == 0 || m > 9223372036854775808u64 {
            // `-0` and magnitudes beyond `i64::MIN` are not canonical tokens.
            proof {
                assert forall|t: i64| !(#[trigger] i64_token_at(v@, from as int, t)) by {
                    if i64_token_at(v@, from as int, t) {
                        let n = (-(t as int)) as nat;
                        assert(dec_token_at(v@, from + 1, n));
                    }
                }
            }
            return None;
        }
        let t: i64 = if m == 9223372036854775808u64 {
            i64::MIN
        } else {
            -(m as i64)
        };
        proof {
            assert(v@.subrange(from as int, j as int) =~= seq!['-'] + v@.subrange(
                from + 1,
                j as int,
            ));
            assert forall|t2: i64| #[trigger] i64_token_at(v@, from as int, t2) implies t2 == t && j
                == from + i64_chars(t2 as int).len() by {
                let n = (-(t2 as int)) as nat;
                assert(dec_token_at(v@, from + 1, n));
            }
        }
        Some((t, j))
    } else {
        let inner = parse_dec_u64(v, from);
        proof {
            assert forall|t: i64| #[trigger] i64_token_at(v@, from as int, t) implies t >= 0
                && dec_token_at(v@, from as int, t as nat) by {
                if t < 0 {
                    assert(v@.subrange(from as int, from + i64_chars(t as int).len())[0] == '-');
                }
            }
        }
        let Some((m, j)) = inner else {
            return None;
        };
        if m > 9223372036854775807u64 {
            proof {
                assert forall|t: i64| !(#[trigger] i64_token_at(v@, from as int, t)) by {
                    if i64_token_at(v@, from as int, t) {
                        assert(dec_token_at(v@, from as int, t as nat));
                    }
                }
            }
            return None;
        }
        proof {
            assert forall|t2: i64| #[trigger] i64_token_at(v@, from as int, t2) implies t2
                == m as i64 && j == from + i64_chars(t2 as int).len() by {
                assert(dec_token_at(v@, from as int, t2 as nat));
            }
        }
        Some((m as i64, j))
    }
}

/// Two canonical signed numerals that start at the same position and are
/// each followed by a non-digit denote the same value.
pub proof fn lemma_i64_token_unique(s: Seq<char>, i: int, a: i64, b: i64)
    requires
        i64_token_at(s, i, a),
        i64_token_at(s, i, b),
    ensures
        a == b,
{
    lemma_i64_head(s, i, a);
    lemma_i64_head(s, i, b);
    if a >= 0 && b >= 0 {
        lemma_dec_token_unique(s, i, a as nat, b as nat);
    } else if a < 0 && b < 0 {
        lemma_dec_token_unique(s, i + 1, (-(a as int)) as nat, (-(b as int)) as nat);
    }
}

/// The first character of a signed numeral token separates the signs, and a
/// negative token contains a numeral token for its magnitude.
proof fn lemma_i64_head(s: Seq<char>, i: int, t: i64)
    requires
        i64_token_at(s, i, t),
    ensures
        t >= 0 ==> is_digit(s[i]),
        t < 0 ==> s[i] == '-' && dec_token_at(s, i + 1, (-(t as int)) as nat),
{
    if t >= 0 {
        lemma_dec_chars_shape(t as nat);
        assert(s[i] == dec_chars(t as nat)[0]) by {
            assert(s.subrange(i, i + dec_chars(t as nat).len())[0] == s[i]);
        }
    } else {
        let d = dec_chars((-(t as int)) as nat);
        let w = i64_chars(t as int);
        lemma_dec_chars_shape((-(t as int)) as nat);
        assert(s[i] == w[0]) by {
            assert(s.subrange(i, i + w.len())[0] == s[i]);
        }
        assert forall|k: int| 0 <= k < d.len() implies s[i + 1 + k] == d[k] by {
            assert(w[1 + k] == d[k]);
            assert(s.subrange(i, i + w.len())[1 + k] == s[i + 1 + k]);
        }
        assert(s.subrange(i + 1, i + 1 + d.len()) =~= d);
    }
}

/// Parses a canonical numeral that must fit in a `u8`.
pub fn parse_dec_u8(v: &Vec<char>, from: usize) -> (r: Option<(u8, usize)>)
    ensures
        match r {
            Some((n, j)) => from <= j <= v@.len() && v@.subrange(from as int, j as int) == dec_chars(
                n as nat,
            ) && (j == v@.len() || !is_digit(v@[j as int])),
            None => true,
        },
        forall|n: u8| #[trigger] dec_token_at(v@, from as int, n as nat) ==> r == Some(
            (n, (from + dec_chars(n as nat).len()) as usize),
        ),
{
    let inner = parse_dec_u64(v, from);
    proof {
        assert forall|n: u8| #[trigger] dec_token_at(v@, from as int, n as nat) implies dec_token_at(
            v@,
            from as int,
            (n as u64) as nat,
        ) by {}
    }
    let Some((m, j)) = inner else { return None };
    if m > 255 {
        proof {
            assert forall|n: u8| !(#[trigger] dec_token_at(v@, from as int, n as nat)) by {}
        }
        return None;
    }
    Some((m as u8, j))
}

} // verus!
