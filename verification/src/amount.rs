//! Monetary amounts: arbitrary-precision decimals, held in their canonical
//! text form.
//!
//! The store never computes with amounts; it records, compares and writes
//! them back out. An amount is therefore modelled as the canonical text of a
//! decimal literal: an optional leading minus, an integer part with no
//! superfluous leading zero, and an optional fraction whose digits (trailing
//! zeros included) are kept exactly as reported, so that what is read back is
//! character for character what was stored.
use vstd::prelude::*;

use crate::text::push_char;

verus! {

/// One decimal digit.
pub open spec fn is_digit(c: char) -> bool {
    '0' <= c && c <= '9'
}

/// Every character of `s` is a decimal digit.
pub open spec fn all_digits(s: Seq<char>) -> bool {
    forall|i: int| 0 <= i < s.len() ==> is_digit(#[trigger] s[i])
}

/// How many digits `s` begins with.
pub open spec fn leading_digits(s: Seq<char>) -> int
    decreases s.len(),
{
    if s.len() > 0 && is_digit(s[0]) {
        1 + leading_digits(s.skip(1))
    } else {
        0
    }
}

/// An unsigned decimal literal: one or more digits, optionally followed by a
/// dot and one or more digits.
pub open spec fn is_unsigned_decimal(s: Seq<char>) -> bool {
    let d = leading_digits(s);
    d > 0 && (d == s.len() || (s[d] == '.' && d + 1 < s.len() && all_digits(s.skip(d + 1))))
}

/// A decimal literal: an unsigned one, or one with a single leading minus.
pub open spec fn is_decimal_literal(s: Seq<char>) -> bool {
    if s.len() > 0 && s[0] == '-' {
        is_unsigned_decimal(s.skip(1))
    } else {
        is_unsigned_decimal(s)
    }
}

/// Drops leading zeros, as long as another digit follows directly.
pub open spec fn strip_zeros(s: Seq<char>) -> Seq<char>
    decreases s.len(),
{
    if s.len() >= 2 && s[0] == '0' && is_digit(s[1]) {
        strip_zeros(s.skip(1))
    } else {
        s
    }
}

/// The canonical form of a decimal literal: the sign is kept, leading zeros
/// of the integer part are dropped, the fraction is kept exactly.
pub open spec fn canon_decimal(s: Seq<char>) -> Seq<char> {
    if s.len() > 0 && s[0] == '-' {
        seq!['-'] + strip_zeros(s.skip(1))
    } else {
        strip_zeros(s)
    }
}

/// A decimal literal that is its own canonical form.
pub open spec fn is_canonical_decimal(s: Seq<char>) -> bool {
    is_decimal_literal(s) && canon_decimal(s) == s
}

/// An arbitrary-precision decimal amount, stored as canonical text.
#[derive(Debug)]
pub struct Amount {
    text: String,
}

impl View for Amount {
    type V = Seq<char>;

    closed spec fn view(&self) -> Seq<char> {
        self.text@
    }
}

impl Clone for Amount {
    fn clone(&self) -> (r: Self)
        ensures
            r == *self,
    {
        Amount { text: self.text.clone() }
    }
}

impl Amount {
    /// The representation invariant: the text is a canonical decimal literal.
    pub open spec fn wf(self) -> bool {
        is_canonical_decimal(self@)
    }

    /// The zero amount, written `0`; the default when a report leaves an
    /// amount out.
    pub fn zero() -> (r: Amount)
        ensures
            r@ == seq!['0'],
            r.wf(),
    {
        let text = String::from_str("0");
        proof {
            reveal_strlit("0");
            assert(text@ =~= seq!['0']);
            assert(leading_digits(text@) == 1) by {
                assert(text@.skip(1) =~= Seq::<char>::empty());
                assert(leading_digits(Seq::<char>::empty()) == 0);
            }
        }
        Amount { text }
    }

    /// The canonical text of the amount.
    pub fn as_str(&self) -> (r: &str)
        ensures
            r@ == self@,
    {
        self.text.as_str()
    }

    /// Decodes a decimal literal, canonicalizing it; `None` exactly on
    /// malformed input.
    pub fn parse(s: &str) -> (r: Option<Amount>)
        ensures
            r is Some <==> is_decimal_literal(s@),
            r is Some ==> (r->0)@ == canon_decimal(s@) && (r->0).wf(),
    {
        parse_decimal(s)
    }
}

/// An amount written out and decoded again comes back unchanged: canonical
/// text decodes to exactly itself. Together with the contract of
/// [`Amount::parse`], this pins the round trip of every stored amount.
pub proof fn lemma_amount_round_trip(a: Amount)
    requires
        a.wf(),
    ensures
        is_decimal_literal(a@),
        canon_decimal(a@) == a@,
{
}

fn is_digit_char(c: char) -> (b: bool)
    ensures
        b == is_digit(c),
{
    '0' <= c && c <= '9'
}

/// `leading_digits` is exactly the scanner's count: digits up to `j`, and at
/// `j` the end or a non-digit.
proof fn lemma_leading_digits_is(s: Seq<char>, j: int)
    requires
        0 <= j <= s.len(),
        forall|i: int| 0 <= i < j ==> is_digit(#[trigger] s[i]),
        j == s.len() || !is_digit(s[j]),
    ensures
        leading_digits(s) == j,
    decreases j,
{
    if j == 0 {
    } else {
        let s1 = s.skip(1);
        assert forall|i: int| 0 <= i < j - 1 implies is_digit(#[trigger] s1[i]) by {
            assert(s1[i] == s[i + 1]);
        }
        assert(j - 1 == s1.len() || !is_digit(s1[j - 1]));
        lemma_leading_digits_is(s1, j - 1);
    }
}

/// `strip_zeros(s)` is `s.skip(t)` when the first `t` characters are zeros
/// each followed by a digit, and stripping stops at `t`.
proof fn lemma_strip_zeros_at(s: Seq<char>, t: int, d: int)
    requires
        0 <= t < d <= s.len(),
        forall|i: int| 0 <= i < d ==> is_digit(#[trigger] s[i]),
        d < s.len() ==> !is_digit(s[d]),
        forall|i: int| 0 <= i < t ==> s[i] == '0',
        t + 1 == d || s[t] != '0',
    ensures
        strip_zeros(s) == s.skip(t),
    decreases t,
{
    if t == 0 {
        // Stripping stops at once: either the head is no zero, or the next
        // character is no digit.
        if s.len() >= 2 && s[0] == '0' && is_digit(s[1]) {
            assert(false);
        }
        assert(s.skip(0) =~= s);
    } else {
        assert(s[0] == '0' && is_digit(s[1]));
        let s1 = s.skip(1);
        assert forall|i: int| 0 <= i < d - 1 implies is_digit(#[trigger] s1[i]) by {
            assert(s1[i] == s[i + 1]);
        }
        assert forall|i: int| 0 <= i < t - 1 implies s1[i] == '0' by {
            assert(s1[i] == s[i + 1]);
        }
        lemma_strip_zeros_at(s1, t - 1, d - 1);
        assert(s1.skip(t - 1) =~= s.skip(t));
    }
}

/// The shape found by the scanner makes `s` an unsigned decimal, its first
/// `t` characters are the droppable zeros, and what is left of `s` after
/// them is canonical.
proof fn lemma_scanned_shape(s: Seq<char>, t: int, d: int)
    requires
        0 <= t < d <= s.len(),
        forall|i: int| 0 <= i < d ==> is_digit(#[trigger] s[i]),
        d < s.len() ==> s[d] == '.' && d + 1 < s.len(),
        forall|i: int| d < i < s.len() ==> is_digit(#[trigger] s[i]),
        forall|i: int| 0 <= i < t ==> s[i] == '0',
        t + 1 == d || s[t] != '0',
    ensures
        is_unsigned_decimal(s),
        strip_zeros(s) == s.skip(t),
        is_unsigned_decimal(s.skip(t)),
        strip_zeros(s.skip(t)) == s.skip(t),
{
    // `s` itself matches the grammar, with the dot (or the end) at `d`.
    lemma_leading_digits_is(s, d);
    if d < s.len() {
        assert forall|i: int| 0 <= i < s.skip(d + 1).len() implies is_digit(
            #[trigger] s.skip(d + 1)[i],
        ) by {
            assert(s.skip(d + 1)[i] == s[i + d + 1]);
        }
    }
    assert(is_unsigned_decimal(s));
    // `strip_zeros` drops exactly the zeros before `t`.
    lemma_strip_zeros_at(s, t, d);
    // The tail is itself an unsigned decimal, with the dot at `d - t`.
    let u = s.skip(t);
    assert forall|i: int| 0 <= i < d - t implies is_digit(#[trigger] u[i]) by {
        assert(u[i] == s[i + t]);
    }
    lemma_leading_digits_is(u, d - t);
    if d < s.len() {
        assert(u[d - t] == '.');
        assert(u.skip(d - t + 1) =~= s.skip(d + 1));
    }
    assert(is_unsigned_decimal(u));
    // And nothing of the tail can be stripped: its head is no droppable zero.
    lemma_strip_zeros_at(u, 0, d - t);
}

#[verifier::rlimit(50)]
fn parse_decimal(s: &str) -> (r: Option<Amount>)
    ensures
        r is Some <==> is_decimal_literal(s@),
        r is Some ==> (r->0)@ == canon_decimal(s@) && (r->0).wf(),
{
    let n = s.unicode_len();
    let neg = n > 0 && s.get_char(0) == '-';
    let start: usize = if neg {
        1
    } else {
        0
    };
    let ghost body = s@.skip(start as int);
    proof {
        if !neg {
            assert(body =~= s@);
        }
    }
    // Scan the digits of the integer part.
    let mut j: usize = start;
    while j < n && is_digit_char(s.get_char(j))
        invariant
            start <= j <= n,
            n == s@.len(),
            start <= n,
            forall|i: int| start <= i < j ==> is_digit(#[trigger] s@[i]),
        decreases n - j,
    {
        j = j + 1;
    }
    proof {
        assert forall|i: int| 0 <= i < j - start implies is_digit(#[trigger] body[i]) by {
            assert(body[i] == s@[i + start]);
        }
    }
    if j == start {
        // No digit at all: not a decimal literal, whatever follows.
        proof {
            lemma_leading_digits_is(body, 0);
        }
        return None;
    }
    let dot: usize = j;
    if j < n {
        if s.get_char(j) != '.' {
            proof {
                lemma_leading_digits_is(body, j - start as int);
            }
            return None;
        }
        // Scan the digits of the fraction.
        let mut m: usize = j + 1;
        while m < n && is_digit_char(s.get_char(m))
            invariant
                j + 1 <= m <= n,
                n == s@.len(),
                forall|i: int| j + 1 <= i < m ==> is_digit(#[trigger] s@[i]),
            decreases n - m,
    {
            m = m + 1;
        }
        if m < n || m == j + 1 {
            // A non-digit inside the fraction, or an empty fraction.
            proof {
                lemma_leading_digits_is(body, j - start as int);
                if m < n {
                    assert(!is_digit(body.skip(j - start as int + 1)[m - j - 1]));
                }
            }
            return None;
        }
    }
    // Find where the droppable leading zeros end.
    let mut z: usize = start;
    while z + 1 < dot && s.get_char(z) == '0'
        invariant
            start <= z < dot,
            n == s@.len(),
            start < dot <= n,
            forall|i: int| start <= i < z ==> s@[i] == '0',
        decreases dot - z,
    {
        z = z + 1;
    }
    proof {
        assert forall|i: int| 0 <= i < z - start implies body[i] == '0' by {
            assert(body[i] == s@[i + start]);
        }
        assert forall|i: int| dot - start < i < body.len() implies is_digit(#[trigger] body[i]) by {
            assert(body[i] == s@[i + start]);
        }
        lemma_scanned_shape(body, z - start as int, dot - start as int);
    }
    // Build the canonical text: the sign, then everything from `z` on.
    let mut text = String::new();
    let ghost sign: Seq<char> = if neg {
        seq!['-']
    } else {
        Seq::empty()
    };
    if neg {
        push_char(&mut text, '-');
    }
    assert(text@ =~= sign + s@.subrange(z as int, z as int));
    let mut p: usize = z;
    while p < n
        invariant
            z <= p <= n,
            n == s@.len(),
            text@ == sign + s@.subrange(z as int, p as int),
        decreases n - p,
    {
        let c = s.get_char(p);
        push_char(&mut text, c);
        assert(text@ =~= sign + s@.subrange(z as int, p + 1));
        p = p + 1;
    }
    proof {
        let u = body.skip(z - start as int);
        assert(s@.subrange(z as int, n as int) =~= u);
        assert(text@ =~= sign + u);
        if neg {
            assert(text@.skip(1) =~= u);
            assert(canon_decimal(s@) == seq!['-'] + strip_zeros(body));
            assert(text@[0] == '-');
            assert(canon_decimal(text@) == seq!['-'] + strip_zeros(text@.skip(1)));
            assert(canon_decimal(text@) =~= text@);
        } else {
            assert(text@ =~= u);
            // The head of the canonical text is a digit, never a minus.
            assert(is_digit(u[0]));
            assert(canon_decimal(text@) == strip_zeros(text@));
            assert(canon_decimal(text@) =~= text@);
        }
        assert(text@ == canon_decimal(s@));
        assert(is_decimal_literal(text@));
    }
    Some(Amount { text })
}

} // verus!
