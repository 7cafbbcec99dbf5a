//! Decimal rendering of integers as character sequences, together with the
//! digit-level facts the rest of the crate needs when it parses such text back.

use vstd::prelude::*;
use vstd::string::StrSliceExecFns;
use vstd::string::StringExecFns;

verus! {

/// Appending one character to a `String` pushes it onto the character view.
pub assume_specification[ String::push ](s: &mut String, c: char)
    ensures
        final(s)@ == old(s)@.push(c),
;

/// What the standard Unicode uppercasing returns for a given character
/// sequence.
pub uninterp spec fn upper_of(s: Seq<char>) -> Seq<char>;

/// Relies on str::to_uppercase: the result depends on the characters alone,
/// and an empty string stays empty.
#[verifier::external_body]
pub fn to_upper(s: &str) -> (r: String)
    ensures
        r@ == upper_of(s@),
        s@.len() == 0 ==> r@.len() == 0,
{
    s.to_uppercase()
}

/// Whether `c` has the Unicode white-space property, as the standard
/// library's trimming sees it.
pub open spec fn is_space_char(c: char) -> bool {
    ||| c == ' '
    ||| c == '\t'
    ||| c == '\n'
    ||| c == '\r'
    ||| c == '\u{0b}'
    ||| c == '\u{0c}'
    ||| c == '\u{85}'
    ||| c == '\u{a0}'
    ||| c == '\u{1680}'
    ||| (0x2000 <= c as u32 && c as u32 <= 0x200a)
    ||| c == '\u{2028}'
    ||| c == '\u{2029}'
    ||| c == '\u{202f}'
    ||| c == '\u{205f}'
    ||| c == '\u{3000}'
}

/// `s` holds nothing but white space, so trimming it leaves nothing.
pub open spec fn is_blank(s: Seq<char>) -> bool {
    forall|i: int| 0 <= i < s.len() ==> is_space_char(#[trigger] s[i])
}

/// Tests whether `c` is a white-space character.
pub fn char_is_space(c: char) -> (r: bool)
    ensures
        r == is_space_char(c),
{
    c == ' ' || c == '\t' || c == '\n' || c == '\r' || c == '\u{0b}' || c == '\u{0c}'
        || c == '\u{85}' || c == '\u{a0}' || c == '\u{1680}' || (0x2000 <= c as u32 && c as u32
        <= 0x200a) || c == '\u{2028}' || c == '\u{2029}' || c == '\u{202f}' || c == '\u{205f}'
        || c == '\u{3000}'
}

/// Tests whether `s` holds nothing but white space.
pub fn str_is_blank(s: &str) -> (r: bool)
    ensures
        r == is_blank(s@),
{
    let n = s.unicode_len();
    let mut i: usize = 0;
    while i < n
        invariant
            n == s@.len(),
            i <= n,
            forall|j: int| 0 <= j < i ==> is_space_char(#[trigger] s@[j]),
        decreases n - i,
    {
        if !char_is_space(s.get_char(i)) {
            return false;
        }
        i = i + 1;
    }
    true
}

/// Compares two string slices by their characters.
pub fn str_eq(a: &str, b: &str) -> (r: bool)
    ensures
        r == (a@ == b@),
{
    let n = a.unicode_len();
    if n != b.unicode_len() {
        return false;
    }
    let mut i: usize = 0;
    while i < n
        invariant
            n == a@.len(),
            n == b@.len(),
            i <= n,
            forall|j: int| 0 <= j < i ==> a@[j] == b@[j],
        decreases n - i,
    {
        if a.get_char(i) != b.get_char(i) {
            return false;
        }
        i = i + 1;
    }
    proof {
        assert(a@ =~= b@);
    }
    true
}

/// The character for one decimal digit value.
pub open spec fn digit_char(d: int) -> char {
    if d == 0 {
        '0'
    } else if d == 1 {
        '1'
    } else if d == 2 {
        '2'
    } else if d == 3 {
        '3'
    } else if d == 4 {
        '4'
    } else if d == 5 {
        '5'
    } else if d == 6 {
        '6'
    } else if d == 7 {
        '7'
    } else if d == 8 {
        '8'
    } else {
        '9'
    }
}

/// Whether `c` is one of the ten decimal digit characters.
pub open spec fn is_dec_digit(c: char) -> bool {
    c == '0' || c == '1' || c == '2' || c == '3' || c == '4' || c == '5' || c == '6' || c == '7'
        || c == '8' || c == '9'
}

/// The value of a decimal digit character; meaningless for other characters.
pub open spec fn digit_val(c: char) -> int {
    if c == '0' {
        0
    } else if c == '1' {
        1
    } else if c == '2' {
        2
    } else if c == '3' {
        3
    } else if c == '4' {
        4
    } else if c == '5' {
        5
    } else if c == '6' {
        6
    } else if c == '7' {
        7
    } else if c == '8' {
        8
    } else {
        9
    }
}

/// Every character of `s` is a decimal digit.
pub open spec fn all_digits(s: Seq<char>) -> bool {
    forall|i: int| 0 <= i < s.len() ==> is_dec_digit(#[trigger] s[i])
}

/// The subsequence of decimal digit characters of `s`, in order.
pub open spec fn digits_of(s: Seq<char>) -> Seq<char>
    decreases s.len(),
{
    if s.len() == 0 {
        Seq::empty()
    } else if is_dec_digit(s.last()) {
        digits_of(s.drop_last()).push(s.last())
    } else {
        digits_of(s.drop_last())
    }
}

/// The decimal digits of `n`, most significant first, with no leading zeros
/// (a single `'0'` for zero).
pub open spec fn dec_nat(n: nat) -> Seq<char>
    decreases n,
{
    if n < 10 {
        seq![digit_char(n as int)]
    } else {
        dec_nat(n / 10).push(digit_char((n % 10) as int))
    }
}

/// The decimal rendering of a possibly negative integer.
pub open spec fn dec_int(v: int) -> Seq<char> {
    if v < 0 {
        seq!['-'] + dec_nat((-v) as nat)
    } else {
        dec_nat(v as nat)
    }
}

/// `k` zero characters.
pub open spec fn zero_chars(k: nat) -> Seq<char> {
    Seq::new(k, |i: int| '0')
}

/// `n` rendered in decimal, left-padded with zeros to at least `w` characters.
pub open spec fn pad_nat(n: nat, w: nat) -> Seq<char> {
    let d = dec_nat(n);
    if d.len() >= w {
        d
    } else {
        zero_chars((w - d.len()) as nat) + d
    }
}

/// `v` rendered in decimal and zero-padded to a total width of at least `w`,
/// counting the minus sign towards the width, as Rust's `{:0w$}` does.
pub open spec fn pad_int(v: int, w: nat) -> Seq<char> {
    if v >= 0 {
        pad_nat(v as nat, w)
    } else {
        seq!['-'] + pad_nat((-v) as nat, if w == 0 { 0 } else { (w - 1) as nat })
    }
}

/// Every character of a decimal rendering is a digit.
pub proof fn lemma_dec_nat_digits(n: nat)
    ensures
        forall|i: int| 0 <= i < dec_nat(n).len() ==> is_dec_digit(#[trigger] dec_nat(n)[i]),
        dec_nat(n).len() >= 1,
    decreases n,
{
    if n >= 10 {
        lemma_dec_nat_digits(n / 10);
    }
}

/// Reading the digits of a decimal rendering back gives the rendered value.
pub open spec fn digits_to_nat(s: Seq<char>) -> nat
    decreases s.len(),
{
    if s.len() == 0 {
        0
    } else {
        (digits_to_nat(s.drop_last()) * 10 + digit_val(s.last())) as nat
    }
}

/// Rendering and reading back a digit are inverse operations.
pub proof fn lemma_digit_char_val(d: int)
    requires
        0 <= d < 10,
    ensures
        digit_val(digit_char(d)) == d,
        is_dec_digit(digit_char(d)),
{
}

pub proof fn lemma_dec_nat_round_trip(n: nat)
    ensures
        digits_to_nat(dec_nat(n)) == n,
    decreases n,
{
    let s = dec_nat(n);
    if n < 10 {
        lemma_digit_char_val(n as int);
        assert(s.len() == 1);
        assert(s.last() == digit_char(n as int));
        assert(s.drop_last() =~= Seq::<char>::empty());
        assert(digits_to_nat(s.drop_last()) == 0);
        assert(digits_to_nat(s) == digit_val(s.last()));
        assert(digits_to_nat(s) == n);
    } else {
        lemma_dec_nat_round_trip(n / 10);
        lemma_digit_char_val((n % 10) as int);
        assert(s == dec_nat(n / 10).push(digit_char((n % 10) as int)));
        assert(s.len() >= 1);
        assert(s.last() == digit_char((n % 10) as int));
        assert(s.drop_last() =~= dec_nat(n / 10));
        assert(digits_to_nat(s.drop_last()) == n / 10);
        assert(digits_to_nat(s) == (n / 10) * 10 + n % 10);
        assert(n == (n / 10) * 10 + n % 10);
        assert(digits_to_nat(s) == n);
    }
}

/// A digit character survives the value-then-render round trip.
pub proof fn lemma_char_digit_char(c: char)
    requires
        is_dec_digit(c),
    ensures
        digit_char(digit_val(c)) == c,
{
}

/// A positive value's rendering never starts with a zero.
pub proof fn lemma_dec_nat_leading(n: nat)
    requires
        n >= 1,
    ensures
        dec_nat(n)[0] != '0',
    decreases n,
{
    if n >= 10 {
        lemma_dec_nat_digits(n / 10);
        lemma_dec_nat_leading(n / 10);
        assert(dec_nat(n)[0] == dec_nat(n / 10)[0]);
    }
}

/// A digit string reading back as zero is all zeros.
pub proof fn lemma_digits_to_nat_zero(s: Seq<char>)
    requires
        all_digits(s),
        digits_to_nat(s) == 0,
    ensures
        forall|i: int| 0 <= i < s.len() ==> s[i] == '0',
    decreases s.len(),
{
    if s.len() > 0 {
        assert(is_dec_digit(s.last()));
        assert(digits_to_nat(s.drop_last()) * 10 + digit_val(s.last()) == 0);
        assert(s.last() == '0');
        assert(forall|i: int| 0 <= i < s.drop_last().len() ==> s.drop_last()[i] == s[i]);
        lemma_digits_to_nat_zero(s.drop_last());
    }
}

/// A canonical digit string — no leading zero unless it is the single
/// digit zero — is exactly the rendering of the value it reads back to.
pub proof fn lemma_canonical_digits(s: Seq<char>)
    requires
        all_digits(s),
        s.len() >= 1,
        s.len() == 1 || s[0] != '0',
    ensures
        dec_nat(digits_to_nat(s)) == s,
    decreases s.len(),
{
    let v = digits_to_nat(s);
    if s.len() == 1 {
        assert(digits_to_nat(Seq::<char>::empty()) == 0);
        assert(s.drop_last() =~= Seq::<char>::empty());
        assert(digits_to_nat(s.drop_last()) == 0);
        assert(s.last() == s[0]);
        assert(v == digit_val(s[0]));
        lemma_char_digit_char(s[0]);
        assert(dec_nat(v) =~= s);
    } else {
        let rest = s.drop_last();
        assert(forall|i: int| 0 <= i < rest.len() ==> rest[i] == s[i]);
        let vr = digits_to_nat(rest);
        if vr == 0 {
            lemma_digits_to_nat_zero(rest);
            assert(rest[0] == '0');
            assert(false);
        }
        lemma_canonical_digits(rest);
        assert(is_dec_digit(s.last()));
        assert(v == vr * 10 + digit_val(s.last()));
        assert(v >= 10);
        assert(v / 10 == vr && v % 10 == digit_val(s.last()));
        lemma_char_digit_char(s.last());
        assert(dec_nat(v) == dec_nat(vr).push(digit_char(digit_val(s.last()))));
        assert(dec_nat(v) =~= s);
    }
}

/// Appends the single digit character for `d` to `out`.
fn push_digit(out: &mut String, d: u8)
    requires
        d < 10,
    ensures
        final(out)@ == old(out)@.push(digit_char(d as int)),
{
    if d == 0 {
        out.append("0");
        proof {
            reveal_strlit("0");
            assert(final(out)@ =~= old(out)@.push('0'));
        }
    } else if d == 1 {
        out.append("1");
        proof {
            reveal_strlit("1");
            assert(final(out)@ =~= old(out)@.push('1'));
        }
    } else if d == 2 {
        out.append("2");
        proof {
            reveal_strlit("2");
            assert(final(out)@ =~= old(out)@.push('2'));
        }
    } else if d == 3 {
        out.append("3");
        proof {
            reveal_strlit("3");
            assert(final(out)@ =~= old(out)@.push('3'));
        }
    } else if d == 4 {
        out.append("4");
        proof {
            reveal_strlit("4");
            assert(final(out)@ =~= old(out)@.push('4'));
        }
    } else if d == 5 {
        out.append("5");
        proof {
            reveal_strlit("5");
            assert(final(out)@ =~= old(out)@.push('5'));
        }
    } else if d == 6 {
        out.append("6");
        proof {
            reveal_strlit("6");
            assert(final(out)@ =~= old(out)@.push('6'));
        }
    } else if d == 7 {
        out.append("7");
        proof {
            reveal_strlit("7");
            assert(final(out)@ =~= old(out)@.push('7'));
        }
    } else if d == 8 {
        out.append("8");
        proof {
            reveal_strlit("8");
            assert(final(out)@ =~= old(out)@.push('8'));
        }
    } else {
        out.append("9");
        proof {
            reveal_strlit("9");
            assert(final(out)@ =~= old(out)@.push('9'));
        }
    }
}

/// Appends the decimal rendering of `n` to `out`.
pub fn push_dec_u128(out: &mut String, n: u128)
    ensures
        final(out)@ == old(out)@ + dec_nat(n as nat),
    decreases n,
{
    if n >= 10 {
        push_dec_u128(out, n / 10);
        push_digit(out, (n % 10) as u8);
        assert(final(out)@ =~= old(out)@ + dec_nat(n as nat));
    } else {
        push_digit(out, n as u8);
        assert(final(out)@ =~= old(out)@ + dec_nat(n as nat));
    }
}

/// Appends the decimal rendering of `v` to `out`, with a minus sign if needed.
pub fn push_dec_i64(out: &mut String, v: i64)
    ensures
        final(out)@ == old(out)@ + dec_int(v as int),
{
    if v < 0 {
        out.append("-");
        proof {
            reveal_strlit("-");
        }
        let m: u128 = (-(v as i128)) as u128;
        push_dec_u128(out, m);
        assert(final(out)@ =~= old(out)@ + dec_int(v as int));
    } else {
        push_dec_u128(out, v as u128);
    }
}

/// The number of digits in the decimal rendering of `n`.
pub open spec fn dec_len(n: nat) -> nat
    decreases n,
{
    if n < 10 {
        1
    } else {
        dec_len(n / 10) + 1
    }
}

pub proof fn lemma_dec_nat_len(n: nat)
    ensures
        dec_nat(n).len() == dec_len(n),
    decreases n,
{
    if n >= 10 {
        lemma_dec_nat_len(n / 10);
    }
}

/// Counts the decimal digits of `n`.
fn count_digits(n: u128) -> (c: usize)
    ensures
        c == dec_len(n as nat),
        c >= 1,
    decreases n,
{
    if n < 10 {
        1
    } else {
        let rest = count_digits(n / 10);
        assert(dec_len(n as nat) == dec_len((n / 10) as nat) + 1);
        assert(dec_len((n / 10) as nat) <= 39) by {
            lemma_dec_len_bound((n / 10) as nat);
        }
        rest + 1
    }
}

/// Ten to the power `k`.
pub open spec fn pow10(k: nat) -> nat
    decreases k,
{
    if k == 0 {
        1
    } else {
        10 * pow10((k - 1) as nat)
    }
}

/// A value below `pow10(k)` has at most `k` decimal digits.
pub proof fn lemma_dec_len_at_most(n: nat, k: nat)
    requires
        k >= 1,
        n < pow10(k),
    ensures
        dec_len(n) <= k,
    decreases n,
{
    if n >= 10 {
        assert(n == 10 * (n / 10) + n % 10) by {
            vstd::arithmetic::div_mod::lemma_fundamental_div_mod(n as int, 10);
        }
        assert(n / 10 < pow10((k - 1) as nat));
        lemma_dec_len_at_most(n / 10, (k - 1) as nat);
    }
}

/// A 128-bit value has at most 39 decimal digits.
pub proof fn lemma_dec_len_bound(n: nat)
    requires
        n < 0x100000000000000000000000000000000,
    ensures
        dec_len(n) <= 39,
{
    assert(pow10(39) == 1000000000000000000000000000000000000000nat) by {
        reveal_with_fuel(pow10, 41);
    }
    lemma_dec_len_at_most(n, 39);
}

/// Appends `k` zero characters to `out`.
fn push_zeros(out: &mut String, k: usize)
    ensures
        final(out)@ == old(out)@ + zero_chars(k as nat),
{
    let mut i: usize = 0;
    while i < k
        invariant
            i <= k,
            out@ == old(out)@ + zero_chars(i as nat),
        decreases k - i,
    {
        out.append("0");
        proof {
            reveal_strlit("0");
            assert(out@ =~= old(out)@ + zero_chars((i + 1) as nat));
        }
        i = i + 1;
    }
    assert(final(out)@ =~= old(out)@ + zero_chars(k as nat));
}

/// Appends `n` in decimal, zero-padded to at least `w` characters.
pub fn push_pad_nat(out: &mut String, n: u128, w: usize)
    ensures
        final(out)@ == old(out)@ + pad_nat(n as nat, w as nat),
{
    let digits = count_digits(n);
    proof {
        lemma_dec_nat_len(n as nat);
    }
    if digits < w {
        push_zeros(out, w - digits);
    }
    push_dec_u128(out, n);
    assert(final(out)@ =~= old(out)@ + pad_nat(n as nat, w as nat));
}

/// Collects the values of the decimal digit characters of `s`, in order,
/// dropping every other character.
pub fn collect_digits(s: &str) -> (r: Vec<u8>)
    ensures
        r@.len() == digits_of(s@).len(),
        forall|j: int| 0 <= j < r@.len() ==> r@[j] as int == digit_val(#[trigger] digits_of(s@)[j]),
{
    let n = s.unicode_len();
    let mut r: Vec<u8> = Vec::new();
    let mut i: usize = 0;
    while i < n
        invariant
            n == s@.len(),
            i <= n,
            r@.len() == digits_of(s@.subrange(0, i as int)).len(),
            forall|j: int|
                0 <= j < r@.len() ==> r@[j] as int == digit_val(
                    #[trigger] digits_of(s@.subrange(0, i as int))[j],
                ),
        decreases n - i,
    {
        let c = s.get_char(i);
        proof {
            assert(s@.subrange(0, i + 1).drop_last() =~= s@.subrange(0, i as int));
            assert(s@.subrange(0, i + 1).last() == s@[i as int]);
        }
        if char_is_digit(c) {
            r.push(digit_value_of(c));
        }
        i = i + 1;
    }
    proof {
        assert(s@.subrange(0, n as int) =~= s@);
    }
    r
}

/// Tests whether `c` is a decimal digit character.
pub fn char_is_digit(c: char) -> (r: bool)
    ensures
        r == is_dec_digit(c),
{
    c == '0' || c == '1' || c == '2' || c == '3' || c == '4' || c == '5' || c == '6' || c == '7'
        || c == '8' || c == '9'
}

/// The numeric value of a decimal digit character.
pub fn digit_value_of(c: char) -> (r: u8)
    requires
        is_dec_digit(c),
    ensures
        r as int == digit_val(c),
{
    if c == '0' {
        0
    } else if c == '1' {
        1
    } else if c == '2' {
        2
    } else if c == '3' {
        3
    } else if c == '4' {
        4
    } else if c == '5' {
        5
    } else if c == '6' {
        6
    } else if c == '7' {
        7
    } else if c == '8' {
        8
    } else {
        9
    }
}

/// Appends `v` in decimal, zero-padded to a total width of at least `w`
/// characters, sign included, as Rust's `{:0w$}` renders it.
pub fn push_pad_i64(out: &mut String, v: i64, w: usize)
    ensures
        final(out)@ == old(out)@ + pad_int(v as int, w as nat),
{
    if v < 0 {
        out.append("-");
        proof {
            reveal_strlit("-");
        }
        let m: u128 = (-(v as i128)) as u128;
        push_pad_nat(out, m, if w == 0 { 0 } else { w - 1 });
        assert(final(out)@ =~= old(out)@ + pad_int(v as int, w as nat));
    } else {
        push_pad_nat(out, v as u128, w);
    }
}

} // verus!
