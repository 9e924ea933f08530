//! The marshalling format used across the system: a length-prefixed,
//! self-describing encoding. A byte string is written as its decimal length,
//! a `:`, and the raw bytes; a text string the same way with `"` and its
//! UTF-8 bytes; a symbol with `'`; a record as `<`, a symbol label, the
//! fields, `>`. This module holds the primitives and the proofs that decoding
//! undoes encoding.

use vstd::prelude::*;

verus! {

/// ASCII `:`, the separator of a byte-string encoding.
pub const SEP_BYTES: u8 = 58;

/// ASCII `"`, the separator of a text-string encoding.
pub const SEP_STR: u8 = 34;

/// ASCII `'`, the separator of a symbol encoding.
pub const SEP_SYM: u8 = 39;

/// ASCII `<`, opening a record.
pub const REC_OPEN: u8 = 60;

/// ASCII `>`, closing a record.
pub const REC_CLOSE: u8 = 62;

/// Whether `b` is an ASCII decimal digit.
pub open spec fn is_digit(b: u8) -> bool {
    48 <= b <= 57
}

/// The ASCII decimal digits of `n`, most significant first.
pub open spec fn dec_digits(n: nat) -> Seq<u8>
    decreases n,
{
    if n < 10 {
        seq![(48 + n) as u8]
    } else {
        dec_digits(n / 10).push((48 + n % 10) as u8)
    }
}

/// Ten to the `k`.
pub open spec fn pow10(k: nat) -> nat
    decreases k,
{
    if k == 0 {
        1
    } else {
        10 * pow10((k - 1) as nat)
    }
}

/// A length-prefixed run: the decimal length of `payload`, the separator
/// `sep`, then `payload` itself.
pub open spec fn enc_lp(payload: Seq<u8>, sep: u8) -> Seq<u8> {
    dec_digits(payload.len()) + seq![sep] + payload
}

/// The encoding of a byte string.
pub open spec fn enc_bytes(b: Seq<u8>) -> Seq<u8> {
    enc_lp(b, SEP_BYTES)
}

/// The encoding of a text string: its UTF-8 bytes, length-prefixed.
pub open spec fn enc_str(s: Seq<char>) -> Seq<u8> {
    enc_lp(vstd::utf8::encode_utf8(s), SEP_STR)
}

/// The encoding of a symbol.
pub open spec fn enc_sym(name: Seq<u8>) -> Seq<u8> {
    enc_lp(name, SEP_SYM)
}

/// Reads a decimal run from `s` starting at `i` with the value read so far
/// `acc`; yields the value and the index of the first byte past the digits.
pub open spec fn parse_dec(s: Seq<u8>, i: int, acc: nat) -> (nat, int)
    decreases s.len() - i,
{
    if 0 <= i < s.len() && is_digit(s[i]) {
        parse_dec(s, i + 1, acc * 10 + (s[i] - 48) as nat)
    } else {
        (acc, i)
    }
}

/// Reads a decimal number at `i`: at least one digit is required.
pub open spec fn spec_parse_num(s: Seq<u8>, i: int) -> Option<(nat, int)> {
    if 0 <= i < s.len() && is_digit(s[i]) {
        Some(parse_dec(s, i, 0))
    } else {
        None
    }
}

/// Reads a length-prefixed run at `i`: a decimal length, the separator
/// `sep`, and that many payload bytes.
pub open spec fn spec_parse_lp(s: Seq<u8>, i: int, sep: u8) -> Option<(Seq<u8>, int)> {
    match spec_parse_num(s, i) {
        Some((n, j)) => if j < s.len() && s[j] == sep && j + 1 + n <= s.len() {
            Some((s.subrange(j + 1, j + 1 + n), j + 1 + n))
        } else {
            None
        },
        None => None,
    }
}

/// The digits of a number are digits, and there is at least one.
pub proof fn lemma_dec_digits_shape(n: nat)
    ensures
        dec_digits(n).len() >= 1,
        forall|t: int| 0 <= t < dec_digits(n).len() ==> is_digit(#[trigger] dec_digits(n)[t]),
    decreases n,
{
    if n >= 10 {
        lemma_dec_digits_shape(n / 10);
    }
}

/// Reading a decimal run never moves backwards, stays in bounds, and never
/// shrinks the value read so far.
pub proof fn lemma_parse_dec_bounds(s: Seq<u8>, i: int, acc: nat)
    requires
        0 <= i <= s.len(),
    ensures
        i <= parse_dec(s, i, acc).1 <= s.len(),
        parse_dec(s, i, acc).0 >= acc,
    decreases s.len() - i,
{
    if i < s.len() && is_digit(s[i]) {
        lemma_parse_dec_bounds(s, i + 1, acc * 10 + (s[i] - 48) as nat);
    }
}

/// Reading over the digits of `n` accumulates exactly `n`.
proof fn lemma_parse_dec_skip(s: Seq<u8>, i: int, n: nat, acc: nat)
    requires
        0 <= i,
        i + dec_digits(n).len() <= s.len(),
        s.subrange(i, i + dec_digits(n).len() as int) == dec_digits(n),
    ensures
        parse_dec(s, i, acc) == parse_dec(
            s,
            i + dec_digits(n).len(),
            acc * pow10(dec_digits(n).len()) + n,
        ),
    decreases n,
{
    let k = dec_digits(n).len() as int;
    if n < 10 {
        assert(s.subrange(i, i + 1)[0] == dec_digits(n)[0]);
        assert(s[i] == (48 + n) as u8);
        assert(is_digit(s[i]));
        assert(parse_dec(s, i, acc) == parse_dec(s, i + 1, acc * 10 + n));
        assert(pow10(0) == 1);
        assert(pow10(1) == 10);
        assert(acc * pow10(1) + n == acc * 10 + n);
    } else {
        let m = n / 10;
        let d = n % 10;
        let km = dec_digits(m).len() as int;
        assert(dec_digits(n) == dec_digits(m).push((48 + d) as u8));
        assert(k == km + 1);
        assert(s.subrange(i, i + km) =~= dec_digits(m)) by {
            assert forall|t: int| 0 <= t < km implies s.subrange(i, i + km)[t] == dec_digits(
                m,
            )[t] by {
                assert(s.subrange(i, i + k)[t] == dec_digits(n)[t]);
            }
        }
        lemma_parse_dec_skip(s, i, m, acc);
        let acc2 = acc * pow10(km as nat) + m;
        assert(s.subrange(i, i + k)[km] == dec_digits(n)[km]);
        assert(s[i + km] == (48 + d) as u8);
        assert(is_digit(s[i + km]));
        assert(parse_dec(s, i + km, acc2) == parse_dec(s, i + km + 1, acc2 * 10 + d));
        let pw = pow10(km as nat);
        assert(acc2 * 10 + d == acc * (pw * 10) + (m * 10 + d)) by (nonlinear_arith)
            requires
                acc2 == acc * pw + m,
        ;
        assert(pow10(km as nat + 1) == 10 * pow10(km as nat));
        assert(m * 10 + d == n) by {
            vstd::arithmetic::div_mod::lemma_fundamental_div_mod(n as int, 10);
        }
    }
}

/// Reading a number from the digits of `n` followed by a non-digit byte
/// yields exactly `n`, stopping at that byte.
pub proof fn lemma_parse_num_exact(s: Seq<u8>, i: int, n: nat)
    requires
        0 <= i,
        i + dec_digits(n).len() < s.len(),
        s.subrange(i, i + dec_digits(n).len() as int) == dec_digits(n),
        !is_digit(s[i + dec_digits(n).len()]),
    ensures
        spec_parse_num(s, i) == Some((n, i + dec_digits(n).len())),
{
    let k = dec_digits(n).len() as int;
    lemma_dec_digits_shape(n);
    assert(s.subrange(i, i + k)[0] == dec_digits(n)[0]);
    assert(is_digit(s[i]));
    lemma_parse_dec_skip(s, i, n, 0);
    assert(parse_dec(s, i + k, 0 * pow10(k as nat) + n) == (n, i + k));
}

/// Decoding a length-prefixed run undoes encoding it, whatever follows.
pub proof fn lemma_parse_lp_exact(s: Seq<u8>, i: int, payload: Seq<u8>, sep: u8)
    requires
        0 <= i,
        !is_digit(sep),
        i + enc_lp(payload, sep).len() <= s.len(),
        s.subrange(i, i + enc_lp(payload, sep).len() as int) == enc_lp(payload, sep),
    ensures
        spec_parse_lp(s, i, sep) == Some((payload, i + enc_lp(payload, sep).len())),
{
    let e = enc_lp(payload, sep);
    let n = payload.len();
    let k = dec_digits(n).len() as int;
    assert forall|t: int| 0 <= t < e.len() implies s[i + t] == e[t] by {
        assert(s.subrange(i, i + e.len() as int)[t] == e[t]);
    }
    assert(s.subrange(i, i + k) =~= dec_digits(n)) by {
        assert forall|t: int| 0 <= t < k implies s.subrange(i, i + k)[t] == dec_digits(n)[t] by {
            assert(s[i + t] == e[t]);
        }
    }
    assert(s[i + k] == e[k]);
    assert(e[k] == sep);
    lemma_parse_num_exact(s, i, n);
    assert(s.subrange(i + k + 1, i + k + 1 + n) =~= payload) by {
        assert forall|t: int| 0 <= t < n implies s.subrange(i + k + 1, i + k + 1 + n)[t]
            == payload[t] by {
            assert(s[i + k + 1 + t] == e[k + 1 + t]);
        }
    }
}

/// Appends the decimal digits of `n`.
pub fn push_decimal(n: usize, out: &mut Vec<u8>)
    ensures
        final(out)@ == old(out)@ + dec_digits(n as nat),
    decreases n,
{
    if n < 10 {
        out.push(48 + (n as u8));
        proof {
            assert(out@ =~= old(out)@ + dec_digits(n as nat));
        }
    } else {
        push_decimal(n / 10, out);
        out.push(48 + ((n % 10) as u8));
        proof {
            assert(out@ =~= old(out)@ + dec_digits(n as nat));
        }
    }
}

/// Appends all of `src`.
pub fn push_all(src: &Vec<u8>, out: &mut Vec<u8>)
    ensures
        final(out)@ == old(out)@ + src@,
{
    let mut i: usize = 0;
    while i < src.len()
        invariant
            i <= src@.len(),
            out@ == old(out)@ + src@.subrange(0, i as int),
        decreases src@.len() - i,
    {
        out.push(src[i]);
        i = i + 1;
        proof {
            assert(old(out)@ + src@.subrange(0, i as int) =~= out@);
        }
    }
    proof {
        assert(src@.subrange(0, src@.len() as int) =~= src@);
    }
}

/// Appends the encoding of the byte string `src` with separator `sep`.
pub fn push_lp(src: &Vec<u8>, sep: u8, out: &mut Vec<u8>)
    ensures
        final(out)@ == old(out)@ + enc_lp(src@, sep),
{
    push_decimal(src.len(), out);
    out.push(sep);
    push_all(src, out);
    proof {
        assert(out@ =~= old(out)@ + enc_lp(src@, sep));
    }
}

/// Reads a decimal number at `i`. Fails exactly where the format has no
/// number there or the number cannot name a length within the input.
pub fn parse_num(s: &Vec<u8>, i: usize) -> (r: Option<(usize, usize)>)
    requires
        i <= s@.len(),
    ensures
        match r {
            Some((v, j)) => spec_parse_num(s@, i as int) == Some((v as nat, j as int)) && i < j
                <= s@.len(),
            None => spec_parse_num(s@, i as int) matches Some((n, _)) ==> n > s@.len(),
        },
{
    if i >= s.len() || !(48 <= s[i] && s[i] <= 57) {
        return None;
    }
    let len = s.len();
    let mut j: usize = i;
    let mut acc: usize = 0;
    while j < len && 48 <= s[j] && s[j] <= 57
        invariant
            len == s@.len(),
            i <= j <= len,
            i < s@.len() && is_digit(s@[i as int]),
            parse_dec(s@, i as int, 0) == parse_dec(s@, j as int, acc as nat),
            acc <= len,
        decreases s@.len() - j,
    {
        let d = (s[j] - 48) as usize;
        proof {
            assert(parse_dec(s@, j as int, acc as nat) == parse_dec(
                s@,
                j as int + 1,
                acc as nat * 10 + d as nat,
            ));
            lemma_parse_dec_bounds(s@, j as int + 1, acc as nat * 10 + d as nat);
        }
        if acc > len / 10 {
            proof {
                assert(parse_dec(s@, i as int, 0).0 >= acc * 10 + d);
                assert(acc >= len / 10 + 1);
                assert(10 * (len / 10) + len % 10 == len) by {
                    vstd::arithmetic::div_mod::lemma_fundamental_div_mod(len as int, 10);
                }
                assert(acc * 10 >= (len / 10 + 1) * 10) by (nonlinear_arith)
                    requires
                        acc >= len / 10 + 1,
                ;
                assert((len / 10 + 1) * 10 == 10 * (len / 10) + 10);
                assert(acc * 10 + d > len);
            }
            return None;
        }
        let next = acc * 10;
        proof {
            assert(next <= (len / 10) * 10) by (nonlinear_arith)
                requires
                    acc <= len / 10,
                    next == acc * 10,
            ;
            assert(10 * (len / 10) + len % 10 == len) by {
                vstd::arithmetic::div_mod::lemma_fundamental_div_mod(len as int, 10);
            }
            assert(next <= len);
        }
        if d > len - next {
            proof {
                assert(parse_dec(s@, i as int, 0).0 >= acc * 10 + d);
                assert(acc * 10 + d > len);
            }
            return None;
        }
        acc = next + d;
        j = j + 1;
    }
    proof {
        assert(j > i);
    }
    Some((acc, j))
}

/// Reads a length-prefixed run at `i`, returning a copy of the payload.
pub fn parse_lp(s: &Vec<u8>, i: usize, sep: u8) -> (r: Option<(Vec<u8>, usize)>)
    requires
        i <= s@.len(),
        !is_digit(sep),
    ensures
        match r {
            Some((p, j)) => spec_parse_lp(s@, i as int, sep) == Some((p@, j as int)) && i < j
                <= s@.len(),
            None => spec_parse_lp(s@, i as int, sep) is None,
        },
{
    let (n, j) = match parse_num(s, i) {
        Some(x) => x,
        None => {
            proof {
                if spec_parse_num(s@, i as int) matches Some((n0, j0)) {
                    lemma_parse_dec_bounds(s@, i as int, 0);
                }
            }
            return None;
        },
    };
    if j >= s.len() || s[j] != sep {
        return None;
    }
    if n > s.len() - (j + 1) {
        return None;
    }
    let base = j + 1;
    let mut p: Vec<u8> = Vec::new();
    let mut t: usize = 0;
    while t < n
        invariant
            t <= n,
            base + n <= s@.len(),
            base + n <= usize::MAX,
            base == j + 1,
            p@ == s@.subrange(base as int, base as int + t as int),
        decreases n - t,
    {
        p.push(s[base + t]);
        t = t + 1;
        proof {
            assert(s@.subrange(base as int, base as int + t as int) =~= p@);
        }
    }
    Some((p, base + n))
}

/// Relies on `String::from_utf8`: it accepts exactly the byte strings that
/// are valid UTF-8 and returns the string those bytes spell.
#[verifier::external_body]
pub fn string_from_utf8(b: Vec<u8>) -> (r: Option<String>)
    ensures
        match r {
            Some(s) => vstd::utf8::valid_utf8(b@) && s@ == vstd::utf8::decode_utf8(b@),
            None => !vstd::utf8::valid_utf8(b@),
        },
{
    match String::from_utf8(b) {
        Ok(s) => Some(s),
        Err(_) => None,
    }
}

} // verus!
