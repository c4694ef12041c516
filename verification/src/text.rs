//! Text building blocks: decimal and hexadecimal numerals, joins, and the
//! test for blank text.

use vstd::prelude::*;

verus! {

/// `String::push` of the standard library: the string afterwards is the
/// string before with the character `c` added at its end. Taken from the
/// function's documentation, not proved here.
pub assume_specification[ String::push ](s: &mut String, c: char)
    ensures
        final(s)@ == old(s)@.push(c),
;

/// Whether two string slices hold the same characters.
pub fn str_eq(a: &str, b: &str) -> (same: bool)
    ensures
        same == (a@ == b@),
{
    *a == *b
}

/// `PartialEq::eq` of `str`, the `==` of string slices in the standard
/// library: it holds exactly where the two slices are made of the same
/// characters. Taken from the function's documentation, not proved here.
pub assume_specification[ <str as PartialEq>::eq ](a: &str, b: &str) -> (same: bool)
    ensures
        same == (a@ == b@),
;

/// The character for a digit below sixteen: `0` to `9`, then `a` to `f`.
pub open spec fn digit_char(d: nat) -> char {
    if d == 0 {
        '0'
    } else if d == 1 {
        '1'
    } else if d == 2 {
        '2'
    } else if d == 3 {
        '3'
    } else if d == 4 {
        '4'
    } else if d == 5 {
        '5'
    } else if d == 6 {
        '6'
    } else if d == 7 {
        '7'
    } else if d == 8 {
        '8'
    } else if d == 9 {
        '9'
    } else if d == 10 {
        'a'
    } else if d == 11 {
        'b'
    } else if d == 12 {
        'c'
    } else if d == 13 {
        'd'
    } else if d == 14 {
        'e'
    } else {
        'f'
    }
}

/// The decimal numeral of `n`, without sign and without leading zeros.
pub open spec fn decimal(n: nat) -> Seq<char>
    decreases n,
{
    if n < 10 {
        seq![digit_char(n)]
    } else {
        decimal(n / 10).push(digit_char(n % 10))
    }
}

/// The character of one digit.
pub fn digit_to_char(d: u8) -> (c: char)
    requires
        d < 16,
    ensures
        c == digit_char(d as nat),
{
    if d == 0 {
        '0'
    } else if d == 1 {
        '1'
    } else if d == 2 {
        '2'
    } else if d == 3 {
        '3'
    } else if d == 4 {
        '4'
    } else if d == 5 {
        '5'
    } else if d == 6 {
        '6'
    } else if d == 7 {
        '7'
    } else if d == 8 {
        '8'
    } else if d == 9 {
        '9'
    } else if d == 10 {
        'a'
    } else if d == 11 {
        'b'
    } else if d == 12 {
        'c'
    } else if d == 13 {
        'd'
    } else if d == 14 {
        'e'
    } else {
        'f'
    }
}

/// Appends the decimal numeral of `n` to `out`.
pub fn push_decimal(out: &mut String, n: u64)
    ensures
        final(out)@ == old(out)@ + decimal(n as nat),
    decreases n,
{
    if n < 10 {
        out.push(digit_to_char(n as u8));
        assert(old(out)@.push(digit_char(n as nat)) =~= old(out)@ + decimal(n as nat));
    } else {
        push_decimal(out, n / 10);
        out.push(digit_to_char((n % 10) as u8));
        assert((old(out)@ + decimal((n / 10) as nat)).push(digit_char((n % 10) as nat)) =~= old(
            out,
        )@ + decimal(n as nat));
    }
}

/// Whether `a` sorts before `b`: at the first place where the two differ,
/// `a` has ended or holds the character with the smaller code point.
pub open spec fn text_precedes(a: Seq<char>, b: Seq<char>) -> bool
    decreases a.len(),
{
    if b.len() == 0 {
        false
    } else if a.len() == 0 {
        true
    } else if a[0] != b[0] {
        (a[0] as int) < (b[0] as int)
    } else {
        text_precedes(a.drop_first(), b.drop_first())
    }
}

/// No text sorts before itself.
pub proof fn lemma_text_order_irreflexive(a: Seq<char>)
    ensures
        !text_precedes(a, a),
    decreases a.len(),
{
    if a.len() > 0 {
        lemma_text_order_irreflexive(a.drop_first());
    }
}

/// Of two different texts exactly one sorts before the other.
pub proof fn lemma_text_order_total(a: Seq<char>, b: Seq<char>)
    ensures
        a != b ==> (text_precedes(a, b) <==> !text_precedes(b, a)),
        a == b ==> !text_precedes(a, b) && !text_precedes(b, a),
    decreases a.len(),
{
    if a == b {
        lemma_text_order_irreflexive(a);
    } else if a.len() == 0 || b.len() == 0 {
        if a.len() == 0 && b.len() == 0 {
            assert(a =~= b);
        }
    } else if a[0] == b[0] {
        lemma_text_order_total(a.drop_first(), b.drop_first());
        if a.drop_first() == b.drop_first() {
            assert(a =~= seq![a[0]] + a.drop_first());
            assert(b =~= seq![b[0]] + b.drop_first());
        }
    }
}

/// The order of texts is transitive.
pub proof fn lemma_text_order_transitive(a: Seq<char>, b: Seq<char>, c: Seq<char>)
    requires
        text_precedes(a, b),
        text_precedes(b, c),
    ensures
        text_precedes(a, c),
    decreases a.len(),
{
    if a.len() > 0 && a[0] == b[0] && b[0] == c[0] {
        lemma_text_order_transitive(a.drop_first(), b.drop_first(), c.drop_first());
    }
}

/// Whether `a` sorts before `b`.
pub fn sorts_before(a: &str, b: &str) -> (before: bool)
    ensures
        before == text_precedes(a@, b@),
{
    let n = a.unicode_len();
    let m = b.unicode_len();
    let mut i: usize = 0;
    assert(a@.skip(0) =~= a@ && b@.skip(0) =~= b@);
    while i < n && i < m
        invariant
            n == a@.len(),
            m == b@.len(),
            i <= n,
            i <= m,
            text_precedes(a@, b@) == text_precedes(a@.skip(i as int), b@.skip(i as int)),
        decreases n - i,
    {
        let x = a.get_char(i);
        let y = b.get_char(i);
        proof {
            assert(a@.skip(i as int)[0] == x);
            assert(b@.skip(i as int)[0] == y);
            assert(a@.skip(i as int).drop_first() =~= a@.skip(i + 1));
            assert(b@.skip(i as int).drop_first() =~= b@.skip(i + 1));
        }
        if x != y {
            return (x as u32) < (y as u32);
        }
        i += 1;
    }
    i < m
}

/// The decimal numeral of `n`, with a minus sign in front where `n` is
/// negative.
pub open spec fn signed_decimal(n: int) -> Seq<char> {
    if n < 0 {
        seq!['-'] + decimal((-n) as nat)
    } else {
        decimal(n as nat)
    }
}

/// Appends the decimal numeral of `n` to `out`, with a minus sign in front
/// where `n` is negative.
pub fn push_signed_decimal(out: &mut String, n: i64)
    ensures
        final(out)@ == old(out)@ + signed_decimal(n as int),
{
    if n < 0 {
        out.push('-');
        let magnitude: u64 = ((-(n + 1)) as u64) + 1;
        push_decimal(out, magnitude);
        assert(old(out)@.push('-') + decimal(magnitude as nat) =~= old(out)@ + signed_decimal(
            n as int,
        ));
    } else {
        push_decimal(out, n as u64);
    }
}

/// Sixteen to the power of `k`.
pub open spec fn pow16(k: nat) -> nat
    decreases k,
{
    if k == 0 {
        1
    } else {
        16 * pow16((k - 1) as nat)
    }
}

/// Every power of sixteen is at least one.
pub proof fn lemma_pow16_positive(k: nat)
    ensures
        pow16(k) >= 1,
    decreases k,
{
    if k > 0 {
        lemma_pow16_positive((k - 1) as nat);
    }
}

/// The numeral of `n` in lower-case hexadecimal, with exactly `width` digits:
/// zeros in front where `n` has fewer, and only the lowest digits where it has
/// more.
pub open spec fn hex_padded(n: nat, width: nat) -> Seq<char> {
    Seq::new(width, |i: int| digit_char((n / pow16((width - 1 - i) as nat)) % 16))
}

/// Appends the sixteen hexadecimal digits of `n` to `out`.
pub fn push_hex16(out: &mut String, n: u64)
    ensures
        final(out)@ == old(out)@ + hex_padded(n as nat, 16),
{
    let mut k: usize = 0;
    let mut divisor: u64 = 0x1000_0000_0000_0000;
    proof {
        reveal_with_fuel(pow16, 16);
        assert(pow16(15) == 0x1000_0000_0000_0000);
        assert(out@ =~= old(out)@ + hex_padded(n as nat, 16).take(0));
    }
    while k < 16
        invariant
            k <= 16,
            k < 16 ==> divisor == pow16((15 - k) as nat) && divisor >= 1,
            out@ == old(out)@ + hex_padded(n as nat, 16).take(k as int),
        decreases 16 - k,
    {
        let digit = ((n / divisor) % 16) as u8;
        out.push(digit_to_char(digit));
        proof {
            let full = hex_padded(n as nat, 16);
            assert(full[k as int] == digit_char(digit as nat));
            assert(full.take(k + 1) =~= full.take(k as int).push(full[k as int]));
            assert(out@ =~= old(out)@ + full.take(k + 1));
            if k < 15 {
                assert(pow16((15 - k) as nat) == 16 * pow16((14 - k) as nat));
                lemma_pow16_positive((14 - k) as nat);
            }
        }
        k += 1;
        if k < 16 {
            divisor = divisor / 16;
        }
    }
    assert(hex_padded(n as nat, 16).take(16) =~= hex_padded(n as nat, 16));
}

/// The `lines` one after the other, with `separator` between each two.
pub open spec fn joined(lines: Seq<Seq<char>>, separator: Seq<char>) -> Seq<char>
    decreases lines.len(),
{
    if lines.len() == 0 {
        Seq::empty()
    } else if lines.len() == 1 {
        lines[0]
    } else {
        joined(lines.drop_last(), separator) + separator + lines.last()
    }
}

/// Appends the `lines` to `out`, with `separator` between each two.
pub fn push_joined(out: &mut String, lines: &Vec<String>, separator: &str)
    ensures
        final(out)@ == old(out)@ + joined(lines.deep_view(), separator@),
{
    let ghost all = lines.deep_view();
    let mut i: usize = 0;
    assert(out@ =~= old(out)@ + joined(all.take(0), separator@));
    while i < lines.len()
        invariant
            i <= lines.len(),
            all == lines.deep_view(),
            out@ == old(out)@ + joined(all.take(i as int), separator@),
        decreases lines.len() - i,
    {
        let ghost so_far = out@;
        if i > 0 {
            out.append(separator);
        }
        out.append(lines[i].as_str());
        proof {
            let done = all.take(i as int);
            let next = all.take(i + 1);
            assert(next.drop_last() =~= done);
            assert(next.last() == lines[i as int]@);
            if i == 0 {
                assert(joined(next, separator@) =~= lines[i as int]@);
                assert(joined(done, separator@) =~= Seq::<char>::empty());
            }
            assert(out@ =~= old(out)@ + joined(next, separator@));
        }
        i += 1;
    }
    assert(all.take(lines.len() as int) =~= all);
}

/// Whether `c` is white space: a tab, a line feed, a vertical tab, a form
/// feed, a carriage return, a space, or one of the other characters that
/// Unicode lists as white space.
pub open spec fn is_white_space(c: char) -> bool {
    let code = c as int;
    ||| 0x09 <= code <= 0x0d
    ||| code == 0x20
    ||| code == 0x85
    ||| code == 0xa0
    ||| code == 0x1680
    ||| 0x2000 <= code <= 0x200a
    ||| code == 0x2028
    ||| code == 0x2029
    ||| code == 0x202f
    ||| code == 0x205f
    ||| code == 0x3000
}

/// Whether `c` is white space.
pub fn char_is_white_space(c: char) -> (white: bool)
    ensures
        white == is_white_space(c),
{
    let code = c as u32;
    (0x09 <= code && code <= 0x0d) || code == 0x20 || code == 0x85 || code == 0xa0 || code
        == 0x1680 || (0x2000 <= code && code <= 0x200a) || code == 0x2028 || code == 0x2029
        || code == 0x202f || code == 0x205f || code == 0x3000
}

/// Whether `s` holds nothing but white space: the empty text is blank.
pub open spec fn is_blank_text(s: Seq<char>) -> bool {
    forall|i: int| 0 <= i < s.len() ==> is_white_space(#[trigger] s[i])
}

/// Whether `s` holds nothing but white space, so that nothing is left of it
/// once the white space at both ends is cut off.
pub fn is_blank(s: &str) -> (blank: bool)
    ensures
        blank == is_blank_text(s@),
{
    for c in it: s.chars()
        invariant
            it.seq() == s@,
            forall|i: int| 0 <= i < it.index() ==> is_white_space(#[trigger] s@[i]),
    {
        if !char_is_white_space(c) {
            return false;
        }
    }
    true
}

} // verus!
