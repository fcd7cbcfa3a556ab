//! Text building blocks: decimal rendering, space-joined concatenation and
//! prefix tests, each proved against a short specification.

use vstd::prelude::*;

verus! {

/// The character of a decimal digit.
pub open spec fn digit_char(d: nat) -> char {
    if d == 0 { '0' }
    else if d == 1 { '1' }
    else if d == 2 { '2' }
    else if d == 3 { '3' }
    else if d == 4 { '4' }
    else if d == 5 { '5' }
    else if d == 6 { '6' }
    else if d == 7 { '7' }
    else if d == 8 { '8' }
    else { '9' }
}

/// The decimal rendering of a natural number, most significant digit first,
/// without leading zeros.
pub open spec fn decimal(n: nat) -> Seq<char>
    decreases n,
{
    if n < 10 {
        seq![digit_char(n)]
    } else {
        decimal(n / 10) + seq![digit_char(n % 10)]
    }
}

/// The decimal rendering of an integer, with a leading `-` when negative.
pub open spec fn signed_decimal(n: int) -> Seq<char> {
    if n < 0 {
        seq!['-'] + decimal((-n) as nat)
    } else {
        decimal(n as nat)
    }
}

fn digit_str(d: u64) -> (s: &'static str)
    requires
        d < 10,
    ensures
        s@ == seq![digit_char(d as nat)],
{
    if d == 0 {
        proof { reveal_strlit("0"); }
        "0"
    } else if d == 1 {
        proof { reveal_strlit("1"); }
        "1"
    } else if d == 2 {
        proof { reveal_strlit("2"); }
        "2"
    } else if d == 3 {
        proof { reveal_strlit("3"); }
        "3"
    } else if d == 4 {
        proof { reveal_strlit("4"); }
        "4"
    } else if d == 5 {
        proof { reveal_strlit("5"); }
        "5"
    } else if d == 6 {
        proof { reveal_strlit("6"); }
        "6"
    } else if d == 7 {
        proof { reveal_strlit("7"); }
        "7"
    } else if d == 8 {
        proof { reveal_strlit("8"); }
        "8"
    } else {
        proof { reveal_strlit("9"); }
        "9"
    }
}

/// Appends the decimal rendering of `n` to `out`.
pub fn push_decimal(out: &mut String, n: u64)
    ensures
        final(out)@ == old(out)@ + decimal(n as nat),
    decreases n,
{
    if n >= 10 {
        push_decimal(out, n / 10);
    }
    let d = digit_str(n % 10);
    out.append(d);
    proof {
        if n < 10 {
            assert(n % 10 == n);
        }
    }
}

/// Appends the decimal rendering of the signed `n` to `out`.
pub fn push_signed_decimal(out: &mut String, n: i64)
    ensures
        final(out)@ == old(out)@ + signed_decimal(n as int),
{
    if n < 0 {
        proof { reveal_strlit("-"); }
        out.append("-");
        let magnitude: u64 = if n == i64::MIN {
            9223372036854775808u64
        } else {
            (-n) as u64
        };
        push_decimal(out, magnitude);
    } else {
        push_decimal(out, n as u64);
    }
}

/// The decimal rendering of `n` as a new string.
pub fn decimal_string(n: u64) -> (s: String)
    ensures
        s@ == decimal(n as nat),
{
    let mut s = String::new();
    push_decimal(&mut s, n);
    s
}

/// The parts, each followed by one space, run together.
pub open spec fn spaced(parts: Seq<Seq<char>>) -> Seq<char>
    decreases parts.len(),
{
    if parts.len() == 0 {
        Seq::empty()
    } else {
        spaced(parts.drop_last()) + parts.last() + seq![' ']
    }
}

/// Joins the parts, writing one space after each of them (the last one
/// included).
pub fn concat_spaces(parts: &Vec<String>) -> (joined: String)
    ensures
        joined@ == spaced(parts.deep_view()),
{
    let mut joined = String::new();
    let mut i: usize = 0;
    while i < parts.len()
        invariant
            i <= parts.len(),
            joined@ == spaced(parts.deep_view().take(i as int)),
        decreases parts.len() - i,
    {
        proof {
            let dv = parts.deep_view();
            assert(dv.take(i + 1).drop_last() =~= dv.take(i as int));
            assert(dv.take(i + 1).last() == parts[i as int]@);
        }
        let ghost before = joined@;
        joined.append(parts[i].as_str());
        proof { reveal_strlit(" "); }
        joined.append(" ");
        proof {
            let dv = parts.deep_view();
            assert(joined@ =~= before + dv.take(i + 1).last() + seq![' ']);
        }
        i = i + 1;
    }
    proof {
        assert(parts.deep_view().take(parts.len() as int) =~= parts.deep_view());
    }
    joined
}

/// Whether `prefix` is a prefix of `s`, character by character.
pub fn has_prefix(s: &str, prefix: &str) -> (r: bool)
    ensures
        r == prefix@.is_prefix_of(s@),
{
    let n = prefix.unicode_len();
    let m = s.unicode_len();
    if n > m {
        return false;
    }
    let mut i: usize = 0;
    while i < n
        invariant
            n == prefix@.len(),
            m == s@.len(),
            n <= m,
            i <= n,
            forall|j: int| 0 <= j < i ==> prefix@[j] == s@[j],
        decreases n - i,
    {
        if prefix.get_char(i) != s.get_char(i) {
            proof {
                assert(prefix@[i as int] != s@.subrange(0, n as int)[i as int]);
            }
            return false;
        }
        i = i + 1;
    }
    proof {
        assert(prefix@ =~= s@.subrange(0, n as int));
    }
    true
}

/// The number that a string of decimal digits denotes.
pub open spec fn digits_value(s: Seq<char>) -> int
    decreases s.len(),
{
    if s.len() == 0 {
        0
    } else {
        digits_value(s.drop_last()) * 10 + (s.last() as int - '0' as int)
    }
}

/// The number that an optionally `-`-prefixed string of decimal digits
/// denotes.
pub open spec fn signed_digits_value(s: Seq<char>) -> int {
    if s.len() > 0 && s[0] == '-' {
        -digits_value(s.drop_first())
    } else {
        digits_value(s)
    }
}

/// Every character of a decimal rendering is a digit, and there is at
/// least one; the rendering denotes the number it renders.
pub proof fn law_decimal_denotes(n: nat)
    ensures
        decimal(n).len() >= 1,
        forall|i: int| 0 <= i < decimal(n).len() ==> '0' <= #[trigger] decimal(n)[i] <= '9',
        digits_value(decimal(n)) == n,
    decreases n,
{
    if n >= 10 {
        law_decimal_denotes(n / 10);
        let d = decimal(n);
        let h = decimal(n / 10);
        assert(d.drop_last() =~= h);
        assert forall|i: int| 0 <= i < d.len() implies '0' <= #[trigger] d[i] <= '9' by {
            if i < h.len() {
                assert(d[i] == h[i]);
            }
        }
        assert((n / 10) * 10 + n % 10 == n) by (nonlinear_arith);
        lemma_digit_char_value((n % 10) as nat);
        assert(d.last() == digit_char((n % 10) as nat));
        assert(digits_value(d) == digits_value(h) * 10 + (d.last() as int - '0' as int));
        assert(digits_value(d) == (n / 10) as int * 10 + (n % 10) as int);
    } else {
        lemma_digit_char_value(n);
        let d = decimal(n);
        assert(d.drop_last() =~= Seq::<char>::empty());
        assert(digits_value(d.drop_last()) == 0);
        assert(d.last() == digit_char(n));
        assert(digits_value(d) == 0 * 10 + (d.last() as int - '0' as int));
    }
}

proof fn lemma_digit_char_value(d: nat)
    requires
        d < 10,
    ensures
        digit_char(d) as int - '0' as int == d,
        '0' <= digit_char(d) <= '9',
{
}

/// A signed decimal rendering starts with `-` exactly when the number is
/// negative, and denotes the number it renders.
pub proof fn law_signed_decimal_denotes(n: int)
    ensures
        signed_decimal(n).len() >= 1,
        (signed_decimal(n)[0] == '-') == (n < 0),
        signed_digits_value(signed_decimal(n)) == n,
{
    if n < 0 {
        law_decimal_denotes((-n) as nat);
        assert(signed_decimal(n).drop_first() =~= decimal((-n) as nat));
    } else {
        law_decimal_denotes(n as nat);
        assert('0' <= decimal(n as nat)[0] <= '9');
    }
}

/// Joining two lists of parts is joining each and running the results
/// together.
pub proof fn lemma_spaced_concat(a: Seq<Seq<char>>, b: Seq<Seq<char>>)
    ensures
        spaced(a + b) == spaced(a) + spaced(b),
    decreases b.len(),
{
    if b.len() == 0 {
        assert(a + b =~= a);
        assert(spaced(a) + spaced(b) =~= spaced(a));
    } else {
        lemma_spaced_concat(a, b.drop_last());
        assert((a + b).drop_last() =~= a + b.drop_last());
        assert((a + b).last() == b.last());
        assert(spaced(a + b) =~= spaced(a) + spaced(b));
    }
}

/// No parts join to nothing; one part is followed by a single space.
pub proof fn law_spaced_small(a: Seq<char>)
    ensures
        spaced(Seq::<Seq<char>>::empty()) == Seq::<char>::empty(),
        spaced(seq![a]) == a + seq![' '],
{
    assert(seq![a].drop_last() =~= Seq::<Seq<char>>::empty());
}

/// The text holds `line` followed by a space somewhere.
pub open spec fn holds_line(text: Seq<char>, line: Seq<char>) -> bool {
    exists|i: int|
        0 <= i && i + line.len() + 1 <= text.len() && #[trigger] text.subrange(
            i,
            i + line.len() + 1,
        ) == line + seq![' ']
}

/// Every part of a list shows up in the joined text, followed by a space.
pub proof fn lemma_spaced_holds_each(parts: Seq<Seq<char>>, k: int)
    requires
        0 <= k < parts.len(),
    ensures
        holds_line(spaced(parts), parts[k]),
{
    lemma_spaced_concat(parts.take(k + 1), parts.skip(k + 1));
    assert(parts.take(k + 1) + parts.skip(k + 1) =~= parts);
    assert(parts.take(k + 1).drop_last() =~= parts.take(k));
    let off = spaced(parts.take(k)).len() as int;
    let t = spaced(parts);
    let piece = parts[k] + seq![' '];
    assert(t =~= spaced(parts.take(k)) + piece + spaced(parts.skip(k + 1)));
    assert(t.subrange(off, off + parts[k].len() + 1) =~= piece);
}

} // verus!
