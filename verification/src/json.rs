//! JSON text primitives for the streaming envelope: quoted strings with
//! escaping, decimal numbers, fixed literals, and booleans. Each primitive
//! has a canonical rendered form, a deterministic specification-level
//! parser over positions in a text, executable render/parse functions
//! proven against them, and an inversion lemma showing the parser gives
//! back exactly what the renderer wrote.

use vstd::prelude::*;

verus! {

use crate::text::{dec_value, digit_char, digit_val, fmt_u64, is_digit, lemma_dec_prefix_le, spec_udec};
use vstd::string::{StrSliceExecFns, StringExecFns};

/// The wire form of one string character: quote and backslash are
/// escaped, everything else stands for itself.
pub open spec fn esc_char(c: char) -> Seq<char> {
    if c == '"' {
        seq!['\\', '"']
    } else if c == '\\' {
        seq!['\\', '\\']
    } else {
        seq![c]
    }
}

/// The wire form of a string body.
pub open spec fn esc(s: Seq<char>) -> Seq<char>
    decreases s.len(),
{
    if s.len() == 0 {
        Seq::empty()
    } else {
        esc(s.drop_last()) + esc_char(s.last())
    }
}

/// The wire form of a string: quoted and escaped.
pub open spec fn enc_str(s: Seq<char>) -> Seq<char> {
    seq!['"'] + esc(s) + seq!['"']
}

/// Escaping distributes over concatenation.
pub proof fn lemma_esc_concat(a: Seq<char>, b: Seq<char>)
    ensures
        esc(a + b) == esc(a) + esc(b),
    decreases b.len(),
{
    if b.len() == 0 {
        assert(a + b =~= a);
        assert(esc(a) + esc(b) =~= esc(a));
    } else {
        lemma_esc_concat(a, b.drop_last());
        assert((a + b).drop_last() =~= a + b.drop_last());
        assert((a + b).last() == b.last());
        assert(esc(a + b) == esc(a) + esc(b.drop_last()) + esc_char(b.last()));
        assert(esc(a) + esc(b.drop_last()) + esc_char(b.last()) =~= esc(a) + (esc(b.drop_last())
            + esc_char(b.last())));
        assert(esc(b.drop_last()) + esc_char(b.last()) == esc(b));
    }
}

/// The suffix of `t` from `pos` splits as `a + b`: then `a` sits at
/// `pos` character for character, and `b` is the suffix after it.
pub proof fn lemma_tail_after(t: Seq<char>, pos: int, a: Seq<char>, b: Seq<char>)
    requires
        0 <= pos <= t.len(),
        t.subrange(pos, t.len() as int) == a + b,
    ensures
        pos + a.len() + b.len() == t.len(),
        forall|j: int| 0 <= j < a.len() ==> t[pos + j] == a[j],
        t.subrange(pos + a.len(), t.len() as int) == b,
{
    assert(t.subrange(pos, t.len() as int).len() == t.len() - pos);
    assert forall|j: int| 0 <= j < a.len() implies t[pos + j] == a[j] by {
        assert(t.subrange(pos, t.len() as int)[j] == t[pos + j]);
        assert((a + b)[j] == a[j]);
    }
    assert forall|i: int|
        0 <= i < b.len() implies t.subrange(pos + a.len(), t.len() as int)[i] == b[i] by {
        assert(t.subrange(pos + a.len(), t.len() as int)[i] == t[pos + a.len() + i]);
        assert(t.subrange(pos, t.len() as int)[a.len() + i] == t[pos + a.len() + i]);
        assert((a + b)[a.len() + i] == b[i]);
    }
    assert(t.subrange(pos + a.len(), t.len() as int) =~= b);
}

/// Parse a fixed literal at `pos`: succeeds exactly when the text
/// continues with it, consuming it.
pub open spec fn sp_lit(t: Seq<char>, pos: int, lit: Seq<char>) -> Option<int> {
    if 0 <= pos && pos + lit.len() <= t.len() && t.subrange(pos, pos + lit.len()) == lit {
        Some(pos + lit.len())
    } else {
        None
    }
}

/// A literal written at `pos` is parsed back from there.
pub proof fn lemma_sp_lit_inverts(t: Seq<char>, pos: int, lit: Seq<char>, rest: Seq<char>)
    requires
        0 <= pos <= t.len(),
        t.subrange(pos, t.len() as int) == lit + rest,
    ensures
        sp_lit(t, pos, lit) == Some(pos + lit.len()),
        t.subrange(pos + lit.len(), t.len() as int) == rest,
        pos + lit.len() + rest.len() == t.len(),
{
    lemma_tail_after(t, pos, lit, rest);
    assert(t.subrange(pos, pos + lit.len()) =~= lit);
}

/// Parse a string body up to and including its closing quote, undoing
/// the escapes; `pos` is just after the opening quote.
pub open spec fn sp_str_body(t: Seq<char>, pos: int) -> Option<(Seq<char>, int)>
    decreases t.len() - pos,
{
    if pos < 0 || pos >= t.len() {
        None
    } else if t[pos] == '"' {
        Some((Seq::empty(), pos + 1))
    } else if t[pos] == '\\' {
        if pos + 1 < t.len() && (t[pos + 1] == '"' || t[pos + 1] == '\\') {
            match sp_str_body(t, pos + 2) {
                Some((s, e)) => Some((seq![t[pos + 1]] + s, e)),
                None => None,
            }
        } else {
            None
        }
    } else {
        match sp_str_body(t, pos + 1) {
            Some((s, e)) => Some((seq![t[pos]] + s, e)),
            None => None,
        }
    }
}

/// Parse a quoted string at `pos`.
pub open spec fn sp_string(t: Seq<char>, pos: int) -> Option<(Seq<char>, int)> {
    if 0 <= pos < t.len() && t[pos] == '"' {
        sp_str_body(t, pos + 1)
    } else {
        None
    }
}

/// A parsed string body ends after its opening position and within the
/// text.
pub proof fn lemma_sp_str_body_bounds(t: Seq<char>, pos: int)
    requires
        sp_str_body(t, pos) is Some,
    ensures
        pos < sp_str_body(t, pos).unwrap().1 <= t.len(),
    decreases t.len() - pos,
{
    if 0 <= pos < t.len() && t[pos] == '"' {
    } else if 0 <= pos < t.len() && t[pos] == '\\' {
        lemma_sp_str_body_bounds(t, pos + 2);
    } else if 0 <= pos < t.len() {
        lemma_sp_str_body_bounds(t, pos + 1);
    }
}

/// An escaped string body written at `pos`, followed by its closing
/// quote, parses back to the original string.
pub proof fn lemma_sp_str_body_inverts(t: Seq<char>, pos: int, s: Seq<char>, rest: Seq<char>)
    requires
        0 <= pos <= t.len(),
        t.subrange(pos, t.len() as int) == esc(s) + seq!['"'] + rest,
    ensures
        sp_str_body(t, pos) == Some((s, pos + esc(s).len() + 1)),
        t.subrange(pos + esc(s).len() + 1, t.len() as int) == rest,
        pos + esc(s).len() + 1 + rest.len() == t.len(),
    decreases s.len(),
{
    lemma_tail_after(t, pos, esc(s) + seq!['"'], rest);
    if s.len() == 0 {
        assert(esc(s) + seq!['"'] =~= seq!['"']);
        assert(t.subrange(pos, t.len() as int)[0] == t[pos]);
        assert(((esc(s) + seq!['"']) + rest)[0] == '"');
        assert(t[pos] == '"');
    } else {
        let c = s.first();
        let tail = s.drop_first();
        assert(s =~= seq![c] + tail);
        lemma_esc_concat(seq![c], tail);
        assert(esc(seq![c]) == esc_char(c)) by {
            assert(seq![c].len() == 1);
            assert(seq![c].drop_last() =~= Seq::<char>::empty());
            assert(seq![c].last() == c);
            assert(esc(seq![c]) == esc(seq![c].drop_last()) + esc_char(c));
            assert(esc(Seq::<char>::empty()) == Seq::<char>::empty());
            assert(Seq::<char>::empty() + esc_char(c) =~= esc_char(c));
        }
        assert(esc(s) == esc_char(c) + esc(tail));
        assert(t.subrange(pos, t.len() as int) == esc_char(c) + (esc(tail) + seq!['"'] + rest))
            by {
            assert(esc(s) + seq!['"'] + rest =~= esc_char(c) + (esc(tail) + seq!['"'] + rest));
        }
        lemma_tail_after(t, pos, esc_char(c), esc(tail) + seq!['"'] + rest);
        if c == '"' || c == '\\' {
            assert(t[pos] == '\\');
            assert(t[pos + 1] == c);
            lemma_sp_str_body_inverts(t, pos + 2, tail, rest);
            assert(seq![t[pos + 1]] + tail =~= s);
        } else {
            assert(t[pos] == c);
            lemma_sp_str_body_inverts(t, pos + 1, tail, rest);
            assert(seq![t[pos]] + tail =~= s);
        }
    }
}

/// End of the run of decimal digits starting at `pos`.
pub open spec fn digit_run_end(t: Seq<char>, pos: int) -> int
    decreases t.len() - pos,
{
    if 0 <= pos && pos < t.len() && is_digit(t[pos]) {
        digit_run_end(t, pos + 1)
    } else {
        pos
    }
}

/// The digit run stays within the text and is made of digits, ending at
/// a non-digit or at the end.
pub proof fn lemma_digit_run_shape(t: Seq<char>, pos: int)
    requires
        0 <= pos <= t.len(),
    ensures
        pos <= digit_run_end(t, pos) <= t.len(),
        forall|k: int| pos <= k < digit_run_end(t, pos) ==> is_digit(t[k]),
        digit_run_end(t, pos) == t.len() || !is_digit(t[digit_run_end(t, pos)]),
    decreases t.len() - pos,
{
    if pos < t.len() && is_digit(t[pos]) {
        lemma_digit_run_shape(t, pos + 1);
    }
}

/// A run of digits bounded by a non-digit (or the end) is exactly the
/// digit run.
pub proof fn lemma_digit_run_determined(t: Seq<char>, pos: int, e: int)
    requires
        0 <= pos <= e <= t.len(),
        forall|k: int| pos <= k < e ==> is_digit(t[k]),
        e == t.len() || !is_digit(t[e]),
    ensures
        digit_run_end(t, pos) == e,
    decreases e - pos,
{
    if pos < e {
        lemma_digit_run_determined(t, pos + 1, e);
    }
}

/// Parse an unsigned decimal number at `pos`: the maximal digit run,
/// read as a numeral, when there is at least one digit and the value
/// fits.
pub open spec fn sp_u64(t: Seq<char>, pos: int) -> Option<(u64, int)> {
    let e = digit_run_end(t, pos);
    if 0 <= pos && e > pos && dec_value(t.subrange(pos, e)) <= u64::MAX {
        Some((dec_value(t.subrange(pos, e)) as u64, e))
    } else {
        None
    }
}

/// The canonical decimal text is made of digits.
pub proof fn lemma_udec_digits(n: nat)
    ensures
        spec_udec(n).len() >= 1,
        forall|k: int| 0 <= k < spec_udec(n).len() ==> is_digit(spec_udec(n)[k]),
    decreases n,
{
    if n >= 10 {
        lemma_udec_digits(n / 10);
    }
}

/// A digit character reads back as its value.
proof fn lemma_digit_char_val(d: nat)
    requires
        d < 10,
    ensures
        is_digit(digit_char(d)),
        digit_val(digit_char(d)) == d,
{
}

/// Reading the canonical decimal text back gives the number.
pub proof fn lemma_udec_value(n: nat)
    ensures
        dec_value(spec_udec(n)) == n,
    decreases n,
{
    if n < 10 {
        lemma_digit_char_val(n);
        assert(spec_udec(n).drop_last() =~= Seq::<char>::empty());
        assert(spec_udec(n).last() == digit_char(n));
        assert(dec_value(spec_udec(n)) == dec_value(spec_udec(n).drop_last()) * 10 + digit_val(
            spec_udec(n).last(),
        ));
        assert(dec_value(spec_udec(n)) == n);
    } else {
        lemma_udec_value(n / 10);
        lemma_digit_char_val(n % 10);
        assert(spec_udec(n).drop_last() =~= spec_udec(n / 10));
        assert(spec_udec(n).last() == digit_char(n % 10));
        assert(dec_value(spec_udec(n)) == dec_value(spec_udec(n / 10)) * 10 + digit_val(
            digit_char(n % 10),
        ));
        assert((n / 10) * 10 + n % 10 == n) by {
            vstd::arithmetic::div_mod::lemma_fundamental_div_mod(n as int, 10);
        }
        assert(dec_value(spec_udec(n)) == n);
    }
}

/// A number written at `pos`, followed by anything but a digit, parses
/// back to itself.
pub proof fn lemma_sp_u64_inverts(t: Seq<char>, pos: int, n: u64, rest: Seq<char>)
    requires
        0 <= pos <= t.len(),
        t.subrange(pos, t.len() as int) == spec_udec(n as nat) + rest,
        rest.len() == 0 || !is_digit(rest[0]),
    ensures
        sp_u64(t, pos) == Some((n, pos + spec_udec(n as nat).len())),
        t.subrange(pos + spec_udec(n as nat).len(), t.len() as int) == rest,
        pos + spec_udec(n as nat).len() + rest.len() == t.len(),
    decreases n,
{
    let d = spec_udec(n as nat);
    lemma_tail_after(t, pos, d, rest);
    lemma_udec_digits(n as nat);
    lemma_udec_value(n as nat);
    let e = pos + d.len();
    assert(rest.len() > 0 ==> t[e] == rest[0]) by {
        if rest.len() > 0 {
            assert(t.subrange(e, t.len() as int)[0] == t[e]);
        }
    }
    assert forall|k: int| pos <= k < e implies is_digit(t[k]) by {
        assert(t[k] == d[k - pos]);
    }
    lemma_digit_run_determined(t, pos, e);
    assert(t.subrange(pos, e) =~= d);
}

/// Parse `true` or `false` at `pos`.
pub open spec fn sp_bool(t: Seq<char>, pos: int) -> Option<(bool, int)> {
    if sp_lit(t, pos, "true"@) is Some {
        Some((true, pos + 4))
    } else if sp_lit(t, pos, "false"@) is Some {
        Some((false, pos + 5))
    } else {
        None
    }
}

/// The rendered form of a boolean.
pub open spec fn enc_bool(b: bool) -> Seq<char> {
    if b {
        "true"@
    } else {
        "false"@
    }
}

/// A boolean written at `pos` parses back to itself.
pub proof fn lemma_sp_bool_inverts(t: Seq<char>, pos: int, b: bool, rest: Seq<char>)
    requires
        0 <= pos <= t.len(),
        t.subrange(pos, t.len() as int) == enc_bool(b) + rest,
    ensures
        sp_bool(t, pos) == Some((b, pos + enc_bool(b).len())),
        t.subrange(pos + enc_bool(b).len(), t.len() as int) == rest,
        pos + enc_bool(b).len() + rest.len() == t.len(),
{
    reveal_strlit("true");
    reveal_strlit("false");
    lemma_sp_lit_inverts(t, pos, enc_bool(b), rest);
    if b {
    } else {
        assert(sp_lit(t, pos, "true"@) is None) by {
            if sp_lit(t, pos, "true"@) is Some {
                assert(t.subrange(pos, pos + 4)[0] == t[pos]);
                assert(t.subrange(pos, t.len() as int)[0] == t[pos]);
                assert(("false"@ + rest)[0] == 'f');
            }
        }
    }
}

/// Append the wire form of a string (quoted, escaped).
pub fn enc_push_str(out: &mut String, s: &str)
    ensures
        final(out)@ == old(out)@ + enc_str(s@),
{
    let n = s.unicode_len();
    out.append("\"");
    let ghost base = out@;
    let mut i: usize = 0;
    let mut run_start: usize = 0;
    while i < n
        invariant
            0 <= run_start <= i <= n,
            n == s@.len(),
            out@ == base + esc(s@.subrange(0, run_start as int)),
            forall|k: int| run_start <= k < i ==> s@[k] != '"' && s@[k] != '\\',
        decreases n - i,
    {
        let c = s.get_char(i);
        if c == '"' || c == '\\' {
            proof {
                lemma_esc_normal_run(s@, run_start as int, i as int);
            }
            let run = s.substring_char(run_start, i);
            out.append(run);
            if c == '"' {
                out.append("\\\"");
                proof {
                    reveal_strlit("\\\"");
                }
            } else {
                out.append("\\\\");
                proof {
                    reveal_strlit("\\\\");
                }
            }
            proof {
                assert(s@.subrange(0, i + 1 as int).drop_last() =~= s@.subrange(0, i as int));
                assert(esc(s@.subrange(0, i + 1 as int)) == esc(s@.subrange(0, i as int))
                    + esc_char(c));
                assert(out@ =~= base + esc(s@.subrange(0, i + 1 as int)));
            }
            run_start = i + 1;
        }
        i = i + 1;
    }
    proof {
        lemma_esc_normal_run(s@, run_start as int, n as int);
        assert(s@.subrange(0, n as int) =~= s@);
    }
    let run = s.substring_char(run_start, n);
    out.append(run);
    out.append("\"");
    proof {
        reveal_strlit("\"");
        assert(out@ =~= old(out)@ + enc_str(s@));
    }
}

/// Escaping a run without quotes or backslashes copies it unchanged.
proof fn lemma_esc_normal_run(s: Seq<char>, a: int, b: int)
    requires
        0 <= a <= b <= s.len(),
        forall|k: int| a <= k < b ==> s[k] != '"' && s[k] != '\\',
    ensures
        esc(s.subrange(0, b)) == esc(s.subrange(0, a)) + s.subrange(a, b),
    decreases b - a,
{
    if a == b {
        assert(s.subrange(a, b) =~= Seq::<char>::empty());
        assert(esc(s.subrange(0, a)) + s.subrange(a, b) =~= esc(s.subrange(0, b)));
    } else {
        lemma_esc_normal_run(s, a, b - 1);
        assert(s.subrange(0, b).drop_last() =~= s.subrange(0, b - 1));
        assert(s.subrange(0, b).last() == s[b - 1]);
        assert(esc(s.subrange(0, b)) == esc(s.subrange(0, b - 1)) + esc_char(s[b - 1]));
        assert(esc_char(s[b - 1]) =~= seq![s[b - 1]]);
        assert(esc(s.subrange(0, a)) + s.subrange(a, b - 1) + seq![s[b - 1]] =~= esc(
            s.subrange(0, a),
        ) + s.subrange(a, b));
    }
}

/// Append the wire form of a number.
pub fn enc_push_u64(out: &mut String, n: u64)
    ensures
        final(out)@ == old(out)@ + spec_udec(n as nat),
{
    let d = fmt_u64(n);
    out.append(d.as_str());
}

/// Append the wire form of a boolean.
pub fn enc_push_bool(out: &mut String, b: bool)
    ensures
        final(out)@ == old(out)@ + enc_bool(b),
{
    if b {
        out.append("true");
    } else {
        out.append("false");
    }
}

/// Parse a fixed literal: the position after it, when the text
/// continues with it at `pos`.
pub fn parse_lit(t: &str, pos: usize, lit: &str) -> (r: Option<usize>)
    ensures
        r matches Some(e) ==> sp_lit(t@, pos as int, lit@) == Some(e as int) && pos <= e
            <= t@.len(),
        r is None ==> sp_lit(t@, pos as int, lit@) is None,
{
    let n = t.unicode_len();
    let m = lit.unicode_len();
    if pos > n || m > n - pos {
        return None;
    }
    let mut j: usize = 0;
    while j < m
        invariant
            0 <= j <= m,
            pos + m <= n,
            n == t@.len(),
            m == lit@.len(),
            forall|k: int| 0 <= k < j ==> t@[pos + k] == lit@[k],
        decreases m - j,
    {
        if t.get_char(pos + j) != lit.get_char(j) {
            proof {
                assert(t@.subrange(pos as int, pos + m as int)[j as int] == t@[pos + j]);
            }
            return None;
        }
        j = j + 1;
    }
    proof {
        assert(t@.subrange(pos as int, pos + m as int) =~= lit@);
    }
    Some(pos + m)
}

/// Parse a quoted string: the unescaped value and the position after
/// its closing quote.
pub fn parse_string(t: &str, pos: usize) -> (r: Option<(String, usize)>)
    ensures
        (match sp_string(t@, pos as int) {
            Some((v, e)) => {
                &&& r matches Some(p)
                &&& r.unwrap().0@ == v
                &&& r.unwrap().1 == e
                &&& pos < e <= t@.len()
            },
            None => r is None,
        }),
{
    let n = t.unicode_len();
    if pos >= n {
        return None;
    }
    if t.get_char(pos) != '"' {
        return None;
    }
    let mut acc = String::new();
    let mut i: usize = pos + 1;
    let mut run_start: usize = pos + 1;
    loop
        invariant
            pos + 1 <= run_start <= i <= n,
            n == t@.len(),
            t@[pos as int] == '"',
            forall|k: int| run_start <= k < i ==> t@[k] != '"' && t@[k] != '\\',
            (match sp_str_body(t@, i as int) {
                Some((v, e)) => sp_str_body(t@, pos + 1 as int) == Some(
                    (acc@ + t@.subrange(run_start as int, i as int) + v, e),
                ),
                None => sp_str_body(t@, pos + 1 as int) is None,
            }),
        decreases n - i,
    {
        if i >= n {
            return None;
        }
        let c = t.get_char(i);
        if c == '"' {
            proof {
                lemma_sp_str_body_bounds(t@, pos + 1 as int);
                assert(acc@ + t@.subrange(run_start as int, i as int) + Seq::<char>::empty() =~= acc@
                    + t@.subrange(run_start as int, i as int));
            }
            let run = t.substring_char(run_start, i);
            acc.append(run);
            return Some((acc, i + 1));
        } else if c == '\\' {
            if i + 1 >= n {
                return None;
            }
            let d = t.get_char(i + 1);
            if d == '"' || d == '\\' {
                let run = t.substring_char(run_start, i);
                acc.append(run);
                if d == '"' {
                    acc.append("\"");
                    proof {
                        reveal_strlit("\"");
                    }
                } else {
                    acc.append("\\");
                    proof {
                        reveal_strlit("\\");
                    }
                }
                proof {
                    match sp_str_body(t@, i + 2 as int) {
                        Some((v, e)) => {
                            assert(acc@ + t@.subrange(i + 2 as int, i + 2 as int) + v =~= acc@
                                + v);
                            assert(seq![t@[i + 1 as int]] + v == seq![d] + v);
                        },
                        None => {},
                    }
                }
                i = i + 2;
                run_start = i;
            } else {
                return None;
            }
        } else {
            proof {
                match sp_str_body(t@, i + 1 as int) {
                    Some((v, e)) => {
                        assert(acc@ + t@.subrange(run_start as int, i as int) + (seq![t@[i as int]]
                            + v) =~= acc@ + t@.subrange(run_start as int, i + 1 as int) + v);
                    },
                    None => {},
                }
            }
            i = i + 1;
        }
    }
}

/// Whether the character at `i` is a decimal digit.
fn digit_at(t: &str, i: usize) -> (r: bool)
    requires
        i < t@.len(),
    ensures
        r == is_digit(t@[i as int]),
{
    let c = t.get_char(i);
    c >= '0' && c <= '9'
}

/// Parse an unsigned decimal number: its value and the position after
/// its digits.
pub fn parse_u64(t: &str, pos: usize) -> (r: Option<(u64, usize)>)
    ensures
        (match sp_u64(t@, pos as int) {
            Some((v, e)) => {
                &&& r matches Some(p)
                &&& r.unwrap().0 == v
                &&& r.unwrap().1 == e
                &&& pos < e <= t@.len()
            },
            None => r is None,
        }),
{
    let n = t.unicode_len();
    if pos >= n {
        return None;
    }
    let mut i: usize = pos;
    while i < n && digit_at(t, i)
        invariant
            pos <= i <= n,
            n == t@.len(),
            forall|k: int| pos <= k < i ==> is_digit(t@[k]),
            digit_run_end(t@, pos as int) == digit_run_end(t@, i as int),
        decreases n - i,
    {
        i = i + 1;
    }
    let e = i;
    proof {
        lemma_digit_run_determined(t@, e as int, e as int);
    }
    if e == pos {
        return None;
    }
    let ghost seg = t@.subrange(pos as int, e as int);
    let mut k: usize = pos;
    let mut val: u64 = 0;
    while k < e
        invariant
            pos <= k <= e <= n,
            n == t@.len(),
            digit_run_end(t@, pos as int) == e,
            seg == t@.subrange(pos as int, e as int),
            forall|j: int| pos <= j < e ==> is_digit(t@[j]),
            val == dec_value(seg.subrange(0, k - pos)),
        decreases e - k,
    {
        let c = t.get_char(k);
        let d = c as u32 - '0' as u32;
        let big: u128 = val as u128 * 10 + d as u128;
        proof {
            assert(seg.subrange(0, k - pos + 1).drop_last() =~= seg.subrange(0, k - pos));
            assert(seg.subrange(0, k - pos + 1).last() == t@[k as int]);
        }
        if big > u64::MAX as u128 {
            proof {
                lemma_dec_prefix_le(seg, k - pos + 1);
            }
            return None;
        }
        val = big as u64;
        k = k + 1;
    }
    proof {
        assert(seg.subrange(0, e - pos) =~= seg);
    }
    Some((val, e))
}

/// Parse a boolean literal.
pub fn parse_bool(t: &str, pos: usize) -> (r: Option<(bool, usize)>)
    ensures
        (match sp_bool(t@, pos as int) {
            Some((v, e)) => {
                &&& r matches Some(p)
                &&& r.unwrap().0 == v
                &&& r.unwrap().1 == e
                &&& pos < e <= t@.len()
            },
            None => r is None,
        }),
{
    proof {
        reveal_strlit("true");
        reveal_strlit("false");
    }
    if let Some(e) = parse_lit(t, pos, "true") {
        Some((true, e))
    } else if let Some(e) = parse_lit(t, pos, "false") {
        Some((false, e))
    } else {
        None
    }
}

} // verus!
