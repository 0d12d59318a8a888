//! Decimal rendering and parsing of whole numbers, and small string helpers.

use vstd::prelude::*;
use vstd::string::*;

verus! {

/// The ASCII digit for a value below ten.
pub open spec fn digit_char(d: nat) -> char {
    if d == 0 { '0' }
    else if d == 1 { '1' }
    else if d == 2 { '2' }
    else if d == 3 { '3' }
    else if d == 4 { '4' }
    else if d == 5 { '5' }
    else if d == 6 { '6' }
    else if d == 7 { '7' }
    else if d == 8 { '8' }
    else { '9' }
}

/// The decimal digits of `n`, most significant first, with no leading zeros
/// (zero is written `0`).
pub open spec fn decimal_text(n: nat) -> Seq<char>
    decreases n,
{
    if n < 10 {
        seq![digit_char(n)]
    } else {
        decimal_text(n / 10).push(digit_char(n % 10))
    }
}

/// `s` preceded by as many `0` as it takes to reach `width` characters.
pub open spec fn zero_pad(s: Seq<char>, width: nat) -> Seq<char> {
    if s.len() >= width {
        s
    } else {
        Seq::new((width - s.len()) as nat, |i: int| '0') + s
    }
}

/// An integer as `format!("{:0width$}")` writes it: a minus sign for a
/// negative value, then the digits zero-padded so that the whole text,
/// sign included, is at least `width` characters long.
pub open spec fn padded_integer(v: int, width: nat) -> Seq<char> {
    if v < 0 {
        seq!['-'] + zero_pad(decimal_text((-v) as nat), if width > 0 { (width - 1) as nat } else { 0 })
    } else {
        zero_pad(decimal_text(v as nat), width)
    }
}

fn digit_str(d: u64) -> (s: &'static str)
    requires
        d < 10,
    ensures
        s@ == seq![digit_char(d as nat)],
{
    if d == 0 {
        proof { reveal_strlit("0"); }
        "0"
    } else if d == 1 {
        proof { reveal_strlit("1"); }
        "1"
    } else if d == 2 {
        proof { reveal_strlit("2"); }
        "2"
    } else if d == 3 {
        proof { reveal_strlit("3"); }
        "3"
    } else if d == 4 {
        proof { reveal_strlit("4"); }
        "4"
    } else if d == 5 {
        proof { reveal_strlit("5"); }
        "5"
    } else if d == 6 {
        proof { reveal_strlit("6"); }
        "6"
    } else if d == 7 {
        proof { reveal_strlit("7"); }
        "7"
    } else if d == 8 {
        proof { reveal_strlit("8"); }
        "8"
    } else {
        proof { reveal_strlit("9"); }
        "9"
    }
}

/// Writes `n` in decimal, as `format!("{}", n)` does.
pub fn decimal(n: u64) -> (s: String)
    ensures
        s@ == decimal_text(n as nat),
    decreases n,
{
    if n < 10 {
        String::from_str(digit_str(n))
    } else {
        let mut s = decimal(n / 10);
        s.append(digit_str(n % 10));
        s
    }
}


/// Writes `n` in decimal, zero-padded on the left to at least `width`
/// characters, as `format!("{:0width$}", n)` does.
pub fn zero_padded(n: u64, width: usize) -> (s: String)
    ensures
        s@ == zero_pad(decimal_text(n as nat), width as nat),
{
    let digits = decimal(n);
    let len = digits.as_str().unicode_len();
    if len >= width {
        return digits;
    }
    let mut out = String::new();
    let mut k: usize = 0;
    while k < width - len
        invariant
            len < width,
            k <= width - len,
            out@ == Seq::new(k as nat, |i: int| '0'),
        decreases width - len - k,
    {
        proof { reveal_strlit("0"); }
        out.append("0");
        k = k + 1;
        assert(out@ =~= Seq::new(k as nat, |i: int| '0'));
    }
    out.append(digits.as_str());
    out
}

/// Writes a signed integer as `format!("{:0width$}", v)` does: the sign
/// counts towards the width and the zeros go between sign and digits.
pub fn padded_integer_text(v: i64, width: usize) -> (s: String)
    ensures
        s@ == padded_integer(v as int, width as nat),
{
    if v < 0 {
        let magnitude: u64 = (-(v + 1)) as u64 + 1;
        let inner = if width > 0 { width - 1 } else { 0 };
        let digits = zero_padded(magnitude, inner);
        proof { reveal_strlit("-"); }
        let mut out = String::from_str("-");
        out.append(digits.as_str());
        out
    } else {
        zero_padded(v as u64, width)
    }
}

/// The characters that Rust's `char::is_whitespace` accepts: those with the
/// Unicode `White_Space` property.
pub open spec fn is_whitespace_char(c: char) -> bool {
    let v = c as u32;
    ||| 0x09 <= v <= 0x0D
    ||| v == 0x20
    ||| v == 0x85
    ||| v == 0xA0
    ||| v == 0x1680
    ||| 0x2000 <= v <= 0x200A
    ||| v == 0x2028
    ||| v == 0x2029
    ||| v == 0x202F
    ||| v == 0x205F
    ||| v == 0x3000
}

/// A text is blank when nothing is left of it once surrounding whitespace
/// is trimmed, that is, when every character is whitespace.
pub open spec fn is_blank_text(s: Seq<char>) -> bool {
    forall|i: int| 0 <= i < s.len() ==> is_whitespace_char(#[trigger] s[i])
}

/// Whether a character is Unicode whitespace.
pub fn is_whitespace(c: char) -> (b: bool)
    ensures
        b == is_whitespace_char(c),
{
    let v = c as u32;
    (0x09 <= v && v <= 0x0D) || v == 0x20 || v == 0x85 || v == 0xA0 || v == 0x1680
        || (0x2000 <= v && v <= 0x200A) || v == 0x2028 || v == 0x2029 || v == 0x202F
        || v == 0x205F || v == 0x3000
}

/// Whether `s.trim()` is empty.
pub fn is_blank(s: &str) -> (b: bool)
    ensures
        b == is_blank_text(s@),
{
    let n = s.unicode_len();
    let mut i: usize = 0;
    while i < n
        invariant
            n == s@.len(),
            i <= n,
            forall|j: int| 0 <= j < i ==> is_whitespace_char(#[trigger] s@[j]),
        decreases n - i,
    {
        if !is_whitespace(s.get_char(i)) {
            return false;
        }
        i = i + 1;
    }
    true
}

/// What `s.split('-').last()` gives: the text after the last `-`, or the
/// whole text when it holds none.
pub open spec fn after_last_dash(s: Seq<char>) -> Seq<char>
    decreases s.len(),
{
    if s.len() == 0 {
        s
    } else if s.last() == '-' {
        Seq::empty()
    } else {
        after_last_dash(s.drop_last()).push(s.last())
    }
}

/// The part of `s` after its last `-` (all of `s` when there is none).
pub fn text_after_last_dash(s: &str) -> (r: String)
    ensures
        r@ == after_last_dash(s@),
{
    let n = s.unicode_len();
    let mut i: usize = n;
    assert(s@.take(n as int) =~= s@);
    assert(s@.subrange(n as int, n as int) =~= Seq::<char>::empty());
    while i > 0 && s.get_char(i - 1) != '-'
        invariant
            n == s@.len(),
            i <= n,
            after_last_dash(s@) == after_last_dash(s@.take(i as int)) + s@.subrange(i as int, n as int),
        decreases i,
    {
        let ghost c = s@[i - 1];
        assert(s@.take(i as int).drop_last() =~= s@.take(i - 1));
        assert(s@.take(i as int).last() == c);
        assert(after_last_dash(s@.take(i - 1)).push(c) + s@.subrange(i as int, n as int)
            =~= after_last_dash(s@.take(i - 1)) + s@.subrange(i - 1, n as int));
        i = i - 1;
    }
    if i > 0 {
        assert(s@.take(i as int).last() == '-');
    }
    assert(after_last_dash(s@.take(i as int)) =~= Seq::<char>::empty());
    assert(after_last_dash(s@) =~= s@.subrange(i as int, n as int));
    String::from_str(s.substring_char(i, n))
}


/// Whether a character is one of the ASCII digits `0` to `9`.
pub open spec fn is_digit_char(c: char) -> bool {
    '0' <= c && c <= '9'
}

/// The value of an ASCII digit.
pub open spec fn digit_value(c: char) -> nat {
    (c as u32 - '0' as u32) as nat
}

/// The number that a run of ASCII digits spells in base ten.
pub open spec fn digits_value(s: Seq<char>) -> nat
    decreases s.len(),
{
    if s.len() == 0 {
        0
    } else {
        digits_value(s.drop_last()) * 10 + digit_value(s.last())
    }
}

/// The digits that `u32::from_str` reads: the text after one optional
/// leading `+`.
pub open spec fn unsigned_digits(s: Seq<char>) -> Seq<char> {
    if s.len() > 0 && s[0] == '+' {
        s.drop_first()
    } else {
        s
    }
}

/// What `s.parse::<u32>()` gives, as an `Option`: a value when `s` is an
/// optional `+` followed by one or more ASCII digits whose value fits in a
/// `u32`, and nothing otherwise (no whitespace is skipped).
pub open spec fn parsed_u32(s: Seq<char>) -> Option<u32> {
    let d = unsigned_digits(s);
    if d.len() > 0 && (forall|i: int| 0 <= i < d.len() ==> is_digit_char(#[trigger] d[i]))
        && digits_value(d) <= u32::MAX {
        Some(digits_value(d) as u32)
    } else {
        None
    }
}

/// Reads a whole number typed into a form field, as `s.parse::<u32>().ok()`.
pub fn parse_whole_number(s: &str) -> (r: Option<u32>)
    ensures
        r == parsed_u32(s@),
{
    let n = s.unicode_len();
    let start: usize = if n > 0 && s.get_char(0) == '+' { 1 } else { 0 };
    let ghost d = unsigned_digits(s@);
    assert(d =~= s@.subrange(start as int, n as int));
    if start == n {
        return None;
    }
    let mut acc: u64 = 0;
    let mut over = false;
    let mut i: usize = start;
    assert(s@.subrange(start as int, start as int) =~= Seq::<char>::empty());
    while i < n
        invariant
            n == s@.len(),
            start <= i <= n,
            d =~= s@.subrange(start as int, n as int),
            d == unsigned_digits(s@),
            forall|j: int| start <= j < i ==> is_digit_char(#[trigger] s@[j]),
            over ==> digits_value(s@.subrange(start as int, i as int)) > u32::MAX,
            !over ==> acc == digits_value(s@.subrange(start as int, i as int)),
            !over ==> acc <= u32::MAX,
        decreases n - i,
    {
        let c = s.get_char(i);
        if !('0' <= c && c <= '9') {
            assert(d[i - start] == c);
            assert(!(forall|j: int| 0 <= j < d.len() ==> is_digit_char(#[trigger] d[j])));
            return None;
        }
        let ghost prev = s@.subrange(start as int, i as int);
        assert(s@.subrange(start as int, i + 1).drop_last() =~= prev);
        assert(s@.subrange(start as int, i + 1).last() == c);
        if !over {
            let v: u64 = acc * 10 + ((c as u32) - ('0' as u32)) as u64;
            if v > 4294967295 {
                over = true;
            } else {
                acc = v;
            }
        }
        i = i + 1;
    }
    assert(s@.subrange(start as int, n as int) =~= d);
    if over {
        None
    } else {
        Some(acc as u32)
    }
}

proof fn lemma_digit_char_value(d: nat)
    requires
        d < 10,
    ensures
        is_digit_char(digit_char(d)),
        digit_value(digit_char(d)) == d,
{
    if d == 0 { assert('0' as u32 == 48); }
    else if d == 1 { assert('1' as u32 == 49); }
    else if d == 2 { assert('2' as u32 == 50); }
    else if d == 3 { assert('3' as u32 == 51); }
    else if d == 4 { assert('4' as u32 == 52); }
    else if d == 5 { assert('5' as u32 == 53); }
    else if d == 6 { assert('6' as u32 == 54); }
    else if d == 7 { assert('7' as u32 == 55); }
    else if d == 8 { assert('8' as u32 == 56); }
    else { assert('9' as u32 == 57); }
}

/// The decimal text of a number holds only digits and spells that number.
pub proof fn lemma_decimal_text_digits(n: nat)
    ensures
        decimal_text(n).len() > 0,
        forall|i: int| 0 <= i < decimal_text(n).len() ==> is_digit_char(#[trigger] decimal_text(n)[i]),
        digits_value(decimal_text(n)) == n,
    decreases n,
{
    lemma_digit_char_value(n % 10);
    if n >= 10 {
        lemma_decimal_text_digits(n / 10);
        assert(decimal_text(n).drop_last() =~= decimal_text(n / 10));
        assert(decimal_text(n).last() == digit_char(n % 10));
        assert(digits_value(decimal_text(n)) == digits_value(decimal_text(n / 10)) * 10 + n % 10);
        assert((n / 10) * 10 + n % 10 == n);
    } else {
        assert(n % 10 == n);
        assert(decimal_text(n).drop_last() =~= Seq::<char>::empty());
        assert(digits_value(Seq::<char>::empty()) == 0);
        assert(decimal_text(n).last() == digit_char(n));
    }
}

/// Reading back what `decimal` writes gives the number again: every `u32`
/// survives being shown in a form field and parsed.
pub proof fn lemma_parse_decimal_round_trip(n: u32)
    ensures
        parsed_u32(decimal_text(n as nat)) == Some(n),
{
    lemma_decimal_text_digits(n as nat);
    assert(decimal_text(n as nat)[0] != '+');
    assert(unsigned_digits(decimal_text(n as nat)) == decimal_text(n as nat));
}


/// String order, as `<` compares two `String`s: the first differing
/// character decides (by code point, which is also the order of their UTF-8
/// bytes), and a proper prefix comes first.
pub open spec fn text_lt(a: Seq<char>, b: Seq<char>) -> bool
    decreases a.len(),
{
    if a.len() == 0 {
        b.len() > 0
    } else if b.len() == 0 {
        false
    } else if a[0] < b[0] {
        true
    } else if a[0] == b[0] {
        text_lt(a.drop_first(), b.drop_first())
    } else {
        false
    }
}

/// Texts made of parts of equal lengths compare by their first parts, then
/// by the rest.
pub proof fn lemma_text_lt_concat(a: Seq<char>, b: Seq<char>, c: Seq<char>, d: Seq<char>)
    requires
        a.len() == b.len(),
    ensures
        text_lt(a + c, b + d) == (text_lt(a, b) || (a == b && text_lt(c, d))),
        (a + c == b + d) == (a == b && c == d),
    decreases a.len(),
{
    if a + c == b + d {
        assert((a + c).subrange(0, a.len() as int) =~= a);
        assert((b + d).subrange(0, a.len() as int) =~= b);
        assert((a + c).subrange(a.len() as int, (a + c).len() as int) =~= c);
        assert((b + d).subrange(a.len() as int, (b + d).len() as int) =~= d);
    }
    if a.len() == 0 {
        assert(a + c =~= c);
        assert(b + d =~= d);
        assert(a =~= b);
    } else {
        assert((a + c)[0] == a[0]);
        assert((b + d)[0] == b[0]);
        assert((a + c).drop_first() =~= a.drop_first() + c);
        assert((b + d).drop_first() =~= b.drop_first() + d);
        lemma_text_lt_concat(a.drop_first(), b.drop_first(), c, d);
        if a[0] == b[0] && a.drop_first() == b.drop_first() {
            assert forall|i: int| 0 <= i < a.len() implies a[i] == b[i] by {
                if i > 0 {
                    assert(a[i] == a.drop_first()[i - 1]);
                    assert(b[i] == b.drop_first()[i - 1]);
                }
            }
            assert(a =~= b);
        }
        if a == b {
            assert(a.drop_first() =~= b.drop_first());
        }
    }
}

/// One-character texts compare as their characters do.
pub proof fn lemma_single_lt(x: char, y: char)
    ensures
        text_lt(seq![x], seq![y]) == (x < y),
{
    assert(seq![x].drop_first() =~= Seq::<char>::empty());
    assert(seq![y].drop_first() =~= Seq::<char>::empty());
    assert(seq![x][0] == x);
    assert(seq![y][0] == y);
    assert(!text_lt(Seq::<char>::empty(), Seq::<char>::empty()));
}

/// Runs of digits of the same length compare, as text, the way their values
/// do, and are equal exactly when their values are.
pub proof fn lemma_digits_order(a: Seq<char>, b: Seq<char>)
    requires
        a.len() == b.len(),
        forall|i: int| 0 <= i < a.len() ==> is_digit_char(#[trigger] a[i]),
        forall|i: int| 0 <= i < b.len() ==> is_digit_char(#[trigger] b[i]),
    ensures
        text_lt(a, b) == (digits_value(a) < digits_value(b)),
        (a == b) == (digits_value(a) == digits_value(b)),
    decreases a.len(),
{
    if a.len() == 0 {
        assert(a =~= b);
    } else {
        let a1 = a.drop_last();
        let b1 = b.drop_last();
        let x = a.last();
        let y = b.last();
        assert(a =~= a1 + seq![x]);
        assert(b =~= b1 + seq![y]);
        assert forall|i: int| 0 <= i < a1.len() implies is_digit_char(#[trigger] a1[i]) by {
            assert(a1[i] == a[i]);
        }
        assert forall|i: int| 0 <= i < b1.len() implies is_digit_char(#[trigger] b1[i]) by {
            assert(b1[i] == b[i]);
        }
        assert(is_digit_char(a[a.len() - 1]));
        assert(is_digit_char(b[b.len() - 1]));
        lemma_digits_order(a1, b1);
        lemma_text_lt_concat(a1, b1, seq![x], seq![y]);
        lemma_single_lt(x, y);
        assert(seq![x] == seq![y] <==> x == y) by {
            if seq![x] == seq![y] {
                assert(seq![x][0] == seq![y][0]);
            }
        }
        let va = digits_value(a1);
        let vb = digits_value(b1);
        let dx = digit_value(x);
        let dy = digit_value(y);
        assert(dx < 10 && dy < 10);
        assert((x < y) == (dx < dy));
        assert((x == y) == (dx == dy));
        assert(digits_value(a) == va * 10 + dx);
        assert(digits_value(b) == vb * 10 + dy);
        assert((va * 10 + dx < vb * 10 + dy) == (va < vb || (va == vb && dx < dy))) by (nonlinear_arith)
            requires
                dx < 10,
                dy < 10,
        ;
        assert((va * 10 + dx == vb * 10 + dy) == (va == vb && dx == dy)) by (nonlinear_arith)
            requires
                dx < 10,
                dy < 10,
        ;
    }
}

/// Powers of ten.
pub open spec fn pow10(k: nat) -> nat
    decreases k,
{
    if k == 0 { 1 } else { 10 * pow10((k - 1) as nat) }
}

proof fn lemma_decimal_text_fits(n: nat, w: nat)
    requires
        w >= 1,
        n < pow10(w),
    ensures
        decimal_text(n).len() <= w,
    decreases w,
{
    if n >= 10 {
        assert(w >= 2) by {
            if w == 1 {
                assert(pow10(0) == 1);
            }
        }
        assert(n / 10 < pow10((w - 1) as nat)) by (nonlinear_arith)
            requires
                n < 10 * pow10((w - 1) as nat),
        ;
        lemma_decimal_text_fits(n / 10, (w - 1) as nat);
    }
}

proof fn lemma_leading_zeros_value(z: nat, s: Seq<char>)
    ensures
        digits_value(Seq::new(z, |i: int| '0') + s) == digits_value(s),
    decreases s.len(), z,
{
    if s.len() == 0 {
        assert(Seq::new(z, |i: int| '0') + s =~= Seq::new(z, |i: int| '0'));
        if z > 0 {
            assert(Seq::new(z, |i: int| '0').drop_last() =~= Seq::new((z - 1) as nat, |i: int| '0'));
            assert(Seq::<char>::empty() + Seq::<char>::empty() =~= Seq::<char>::empty());
            lemma_leading_zeros_value((z - 1) as nat, s);
            assert(Seq::new((z - 1) as nat, |i: int| '0') + s =~= Seq::new((z - 1) as nat, |i: int| '0'));
        }
    } else {
        let t = Seq::new(z, |i: int| '0') + s;
        assert(t.drop_last() =~= Seq::new(z, |i: int| '0') + s.drop_last());
        assert(t.last() == s.last());
        lemma_leading_zeros_value(z, s.drop_last());
    }
}

/// A number below `10^width` written zero-padded to `width` takes exactly
/// `width` digits, which spell the number.
pub proof fn lemma_zero_padded_fixed(n: nat, width: nat)
    requires
        width >= 1,
        n < pow10(width),
    ensures
        zero_pad(decimal_text(n), width).len() == width,
        forall|i: int| 0 <= i < width ==> is_digit_char(#[trigger] zero_pad(decimal_text(n), width)[i]),
        digits_value(zero_pad(decimal_text(n), width)) == n,
{
    lemma_decimal_text_fits(n, width);
    lemma_decimal_text_digits(n);
    let d = decimal_text(n);
    let p = zero_pad(d, width);
    if d.len() < width {
        let z = (width - d.len()) as nat;
        lemma_leading_zeros_value(z, d);
        assert forall|i: int| 0 <= i < width implies is_digit_char(#[trigger] p[i]) by {
            if i < z {
                assert(p[i] == '0');
            } else {
                assert(p[i] == d[i - z]);
            }
        }
    }
}

} // verus!
