use vstd::prelude::*;
use vstd::string::{StrSliceExecFns, StringExecFns};
use crate::product::{Product, ProductModel};

verus! {

// The wire form of a record is text: the identifier as exactly ten decimal
// digits, the amount in minor units as exactly twenty, the character length
// of the description as exactly twenty, and then the description itself.
// Every field is zero padded, so the header is always fifty characters.

/// The decimal digit character for a value below ten.
pub open spec fn digit_char(d: nat) -> char {
    if d == 0 {
        '0'
    } else if d == 1 {
        '1'
    } else if d == 2 {
        '2'
    } else if d == 3 {
        '3'
    } else if d == 4 {
        '4'
    } else if d == 5 {
        '5'
    } else if d == 6 {
        '6'
    } else if d == 7 {
        '7'
    } else if d == 8 {
        '8'
    } else {
        '9'
    }
}

/// Whether a character is a decimal digit.
pub open spec fn is_digit(c: char) -> bool {
    c == '0' || c == '1' || c == '2' || c == '3' || c == '4' || c == '5' || c == '6' || c == '7'
        || c == '8' || c == '9'
}

/// The value of a decimal digit character.
pub open spec fn digit_val(c: char) -> nat {
    if c == '0' {
        0
    } else if c == '1' {
        1
    } else if c == '2' {
        2
    } else if c == '3' {
        3
    } else if c == '4' {
        4
    } else if c == '5' {
        5
    } else if c == '6' {
        6
    } else if c == '7' {
        7
    } else if c == '8' {
        8
    } else {
        9
    }
}

/// Whether every character of the sequence is a decimal digit.
pub open spec fn is_digits(s: Seq<char>) -> bool {
    forall|i: int| 0 <= i < s.len() ==> is_digit(#[trigger] s[i])
}

/// The numeric value of a sequence of decimal digit characters, most
/// significant first.
pub open spec fn digits_val(s: Seq<char>) -> nat
    decreases s.len(),
{
    if s.len() == 0 {
        0
    } else {
        digits_val(s.drop_last()) * 10 + digit_val(s.last())
    }
}

/// Ten to the given power.
pub open spec fn pow10(w: nat) -> nat
    decreases w,
{
    if w == 0 {
        1
    } else {
        10 * pow10((w - 1) as nat)
    }
}

/// The value written as exactly `w` decimal digits, zero padded; digits
/// beyond the width are dropped from the top.
pub open spec fn zero_padded(n: nat, w: nat) -> Seq<char>
    decreases w,
{
    if w == 0 {
        Seq::<char>::empty()
    } else {
        zero_padded(n / 10, (w - 1) as nat).push(digit_char(n % 10))
    }
}

/// The wire form of a record.
pub open spec fn spec_encode(m: ProductModel) -> Seq<char> {
    zero_padded(m.id as nat, 10) + zero_padded(m.price_cents as nat, 20) + zero_padded(
        m.description.len(),
        20,
    ) + m.description
}

/// The record a piece of text decodes to, if it decodes at all: the text
/// must be at least the header long, the three header fields must be all
/// digits, the identifier and the amount must fit their machine types, and
/// the recorded description length must be exactly what follows the header.
pub open spec fn spec_decode(s: Seq<char>) -> Option<ProductModel> {
    if s.len() < 50 {
        None
    } else {
        let id_part = s.subrange(0, 10);
        let price_part = s.subrange(10, 30);
        let len_part = s.subrange(30, 50);
        if is_digits(id_part) && is_digits(price_part) && is_digits(len_part) && digits_val(
            id_part,
        ) <= u32::MAX && digits_val(price_part) <= u64::MAX && digits_val(len_part) == s.len()
            - 50 {
            Some(
                ProductModel {
                    id: digits_val(id_part) as u32,
                    description: s.subrange(50, s.len() as int),
                    price_cents: digits_val(price_part) as u64,
                },
            )
        } else {
            None
        }
    }
}

/// The concrete powers of ten the codec works with.
proof fn lemma_pow10_vals()
    ensures
        pow10(10) == 10000000000,
        pow10(19) == 10000000000000000000,
        pow10(20) == 100000000000000000000,
{
    assert(pow10(0) == 1);
    assert(pow10(1) == 10);
    assert(pow10(2) == 100);
    assert(pow10(3) == 1000);
    assert(pow10(4) == 10000);
    assert(pow10(5) == 100000);
    assert(pow10(6) == 1000000);
    assert(pow10(7) == 10000000);
    assert(pow10(8) == 100000000);
    assert(pow10(9) == 1000000000);
    assert(pow10(10) == 10000000000);
    assert(pow10(11) == 100000000000);
    assert(pow10(12) == 1000000000000);
    assert(pow10(13) == 10000000000000);
    assert(pow10(14) == 100000000000000);
    assert(pow10(15) == 1000000000000000);
    assert(pow10(16) == 10000000000000000);
    assert(pow10(17) == 100000000000000000);
    assert(pow10(18) == 1000000000000000000);
    assert(pow10(19) == 10000000000000000000);
    assert(pow10(20) == 100000000000000000000);
}

/// Ten to a power grows with the power.
proof fn lemma_pow10_mono(a: nat, b: nat)
    requires
        a <= b,
    ensures
        pow10(a) <= pow10(b),
    decreases b,
{
    if a < b {
        lemma_pow10_mono(a, (b - 1) as nat);
    }
}

/// A digit below ten and its character round trip.
proof fn lemma_digit_char_val(d: nat)
    requires
        d < 10,
    ensures
        is_digit(digit_char(d)),
        digit_val(digit_char(d)) == d,
{
}

/// A digit character and its value round trip.
proof fn lemma_digit_val_char(c: char)
    requires
        is_digit(c),
    ensures
        digit_val(c) < 10,
        digit_char(digit_val(c)) == c,
{
}

/// Dropping the last character of a digit string leaves a digit string.
proof fn lemma_is_digits_drop_last(s: Seq<char>)
    requires
        is_digits(s),
        s.len() > 0,
    ensures
        is_digits(s.drop_last()),
{
    assert forall|i: int| 0 <= i < s.drop_last().len() implies is_digit(
        #[trigger] s.drop_last()[i],
    ) by {
        assert(s.drop_last()[i] == s[i]);
    }
}

/// Appending a digit character to a digit string leaves a digit string.
proof fn lemma_is_digits_push(s: Seq<char>, c: char)
    requires
        is_digits(s),
        is_digit(c),
    ensures
        is_digits(s.push(c)),
{
    assert forall|i: int| 0 <= i < s.push(c).len() implies is_digit(#[trigger] s.push(c)[i]) by {
        if i < s.len() {
            assert(s.push(c)[i] == s[i]);
        } else {
            assert(s.push(c)[i] == c);
        }
    }
}

/// Appending a digit multiplies the value by ten and adds the digit.
proof fn lemma_digits_val_push(s: Seq<char>, c: char)
    ensures
        digits_val(s.push(c)) == digits_val(s) * 10 + digit_val(c),
{
    assert(s.push(c).drop_last() =~= s);
    assert(s.push(c).last() == c);
}

/// Every digit string is worth less than ten to its length.
proof fn lemma_digits_val_bound(s: Seq<char>)
    requires
        is_digits(s),
    ensures
        digits_val(s) < pow10(s.len()),
    decreases s.len(),
{
    if s.len() > 0 {
        lemma_is_digits_drop_last(s);
        lemma_digits_val_bound(s.drop_last());
        lemma_digit_val_char(s.last());
    }
}

/// A value below ten to the width is worth exactly itself when written
/// zero padded at that width.
proof fn lemma_zero_padded_val(n: nat, w: nat)
    requires
        n < pow10(w),
    ensures
        zero_padded(n, w).len() == w,
        is_digits(zero_padded(n, w)),
        digits_val(zero_padded(n, w)) == n,
    decreases w,
{
    if w == 0 {
        assert(n == 0);
    } else {
        let t = zero_padded(n / 10, (w - 1) as nat);
        vstd::arithmetic::div_mod::lemma_fundamental_div_mod(n as int, 10);
        assert(n / 10 < pow10((w - 1) as nat));
        lemma_zero_padded_val(n / 10, (w - 1) as nat);
        lemma_digit_char_val(n % 10);
        lemma_is_digits_push(t, digit_char(n % 10));
        lemma_digits_val_push(t, digit_char(n % 10));
    }
}

/// A digit string is exactly the zero padded form of its value at its
/// own length.
proof fn lemma_digits_canonical(s: Seq<char>)
    requires
        is_digits(s),
    ensures
        zero_padded(digits_val(s), s.len()) == s,
    decreases s.len(),
{
    if s.len() == 0 {
        assert(zero_padded(digits_val(s), 0) =~= s);
    } else {
        let s0 = s.drop_last();
        let d: nat = digit_val(s.last());
        lemma_is_digits_drop_last(s);
        lemma_digits_canonical(s0);
        lemma_digit_val_char(s.last());
        vstd::arithmetic::div_mod::lemma_fundamental_div_mod_converse(
            digits_val(s) as int,
            10,
            digits_val(s0) as int,
            d as int,
        );
        assert(zero_padded(digits_val(s), s.len()) == zero_padded(digits_val(s0), s0.len()).push(
            digit_char(d),
        ));
        assert(s0.push(s.last()) =~= s);
    }
}

/// The one-character text of a digit below ten.
fn digit_str(d: u64) -> (r: &'static str)
    requires
        d < 10,
    ensures
        r@ == seq![digit_char(d as nat)],
{
    let r = if d == 0 {
        "0"
    } else if d == 1 {
        "1"
    } else if d == 2 {
        "2"
    } else if d == 3 {
        "3"
    } else if d == 4 {
        "4"
    } else if d == 5 {
        "5"
    } else if d == 6 {
        "6"
    } else if d == 7 {
        "7"
    } else if d == 8 {
        "8"
    } else {
        "9"
    };
    proof {
        reveal_strlit("0");
        reveal_strlit("1");
        reveal_strlit("2");
        reveal_strlit("3");
        reveal_strlit("4");
        reveal_strlit("5");
        reveal_strlit("6");
        reveal_strlit("7");
        reveal_strlit("8");
        reveal_strlit("9");
        assert(r@ =~= seq![digit_char(d as nat)]);
    }
    r
}

/// The value of a digit character, or nothing for any other character.
fn digit_of_char(c: char) -> (r: Option<u64>)
    ensures
        match r {
            Some(d) => is_digit(c) && d < 10 && d as nat == digit_val(c),
            None => !is_digit(c),
        },
{
    if c == '0' {
        Some(0)
    } else if c == '1' {
        Some(1)
    } else if c == '2' {
        Some(2)
    } else if c == '3' {
        Some(3)
    } else if c == '4' {
        Some(4)
    } else if c == '5' {
        Some(5)
    } else if c == '6' {
        Some(6)
    } else if c == '7' {
        Some(7)
    } else if c == '8' {
        Some(8)
    } else if c == '9' {
        Some(9)
    } else {
        None
    }
}

/// Writes a value as exactly `w` zero padded decimal digits.
fn encode_number(n: u64, w: usize) -> (r: String)
    ensures
        r@ == zero_padded(n as nat, w as nat),
    decreases w,
{
    if w == 0 {
        String::new()
    } else {
        let mut s = encode_number(n / 10, w - 1);
        let ds = digit_str(n % 10);
        s.append(ds);
        proof {
            assert(s@ =~= zero_padded(n as nat, w as nat));
        }
        s
    }
}

/// Reads the `w` characters of the text starting at `from` as a zero
/// padded decimal number; any character that is not a digit rejects the
/// whole field.
fn parse_number(s: &str, from: usize, w: usize) -> (r: Option<u128>)
    requires
        from + w <= s@.len(),
        from + w <= usize::MAX,
        w <= 20,
    ensures
        match r {
            Some(v) => is_digits(s@.subrange(from as int, (from + w) as int)) && v as nat
                == digits_val(s@.subrange(from as int, (from + w) as int)),
            None => !is_digits(s@.subrange(from as int, (from + w) as int)),
        },
{
    let mut acc: u128 = 0;
    let mut i: usize = 0;
    while i < w
        invariant
            i <= w,
            w <= 20,
            from + w <= s@.len(),
            from + w <= usize::MAX,
            is_digits(s@.subrange(from as int, (from + i) as int)),
            acc as nat == digits_val(s@.subrange(from as int, (from + i) as int)),
            (acc as nat) < pow10(i as nat),
        decreases w - i,
    {
        let c = s.get_char(from + i);
        match digit_of_char(c) {
            Some(d) => {
                proof {
                    let prefix = s@.subrange(from as int, (from + i) as int);
                    let extended = s@.subrange(from as int, (from + i + 1) as int);
                    assert(extended =~= prefix.push(s@[from + i]));
                    lemma_is_digits_push(prefix, c);
                    lemma_digits_val_push(prefix, c);
                    lemma_pow10_mono(i as nat, 19);
                    lemma_pow10_vals();
                }
                acc = acc * 10 + (d as u128);
            },
            None => {
                proof {
                    let whole = s@.subrange(from as int, (from + w) as int);
                    assert(whole[i as int] == s@[from + i]);
                    assert(!is_digit(whole[i as int]));
                }
                return None;
            },
        }
        i += 1;
    }
    Some(acc)
}

/// Writes a record in its wire form. Encoding is total: every record has
/// exactly one wire form.
pub fn encode(p: &Product) -> (r: String)
    ensures
        r@ == spec_encode(p@),
{
    let mut out = encode_number(p.id as u64, 10);
    let price_part = encode_number(p.price_cents, 20);
    out.append(price_part.as_str());
    let dlen = p.description.as_str().unicode_len();
    let len_part = encode_number(dlen as u64, 20);
    out.append(len_part.as_str());
    out.append(p.description.as_str());
    proof {
        assert(out@ =~= spec_encode(p@));
    }
    out
}

/// Reads a record back from its wire form. Returns a record exactly when
/// the text is the wire form of one, and then exactly that record; every
/// malformed text is rejected.
pub fn decode(s: &str) -> (r: Option<Product>)
    ensures
        match r {
            Some(p) => spec_decode(s@) == Some(p@),
            None => spec_decode(s@) is None,
        },
{
    let n = s.unicode_len();
    if n < 50 {
        return None;
    }
    let id_v = match parse_number(s, 0, 10) {
        Some(v) => v,
        None => {
            return None;
        },
    };
    let price_v = match parse_number(s, 10, 20) {
        Some(v) => v,
        None => {
            return None;
        },
    };
    let len_v = match parse_number(s, 30, 20) {
        Some(v) => v,
        None => {
            return None;
        },
    };
    if id_v > u32::MAX as u128 {
        return None;
    }
    if price_v > u64::MAX as u128 {
        return None;
    }
    if len_v != (n - 50) as u128 {
        return None;
    }
    let desc = s.substring_char(50, n);
    let p = Product { id: id_v as u32, description: desc.to_owned(), price_cents: price_v as u64 };
    proof {
        assert(spec_decode(s@) == Some(p@));
    }
    Some(p)
}

/// Encoding a record and decoding the result yields the record back, for
/// every record a machine string can hold.
pub proof fn lemma_encode_decode(m: ProductModel)
    requires
        m.fits(),
    ensures
        spec_decode(spec_encode(m)) == Some(m),
{
    let e = spec_encode(m);
    let a = zero_padded(m.id as nat, 10);
    let b = zero_padded(m.price_cents as nat, 20);
    let c = zero_padded(m.description.len(), 20);
    lemma_pow10_vals();
    lemma_zero_padded_val(m.id as nat, 10);
    lemma_zero_padded_val(m.price_cents as nat, 20);
    lemma_zero_padded_val(m.description.len(), 20);
    assert(e.subrange(0, 10) =~= a);
    assert(e.subrange(10, 30) =~= b);
    assert(e.subrange(30, 50) =~= c);
    assert(e.subrange(50, e.len() as int) =~= m.description);
    assert(spec_decode(e) == Some(m));
}

/// Whatever decodes was exactly the wire form of the record it decoded
/// to: decoding loses nothing.
pub proof fn lemma_decode_encode(s: Seq<char>, m: ProductModel)
    requires
        spec_decode(s) == Some(m),
    ensures
        spec_encode(m) == s,
{
    let id_part = s.subrange(0, 10);
    let price_part = s.subrange(10, 30);
    let len_part = s.subrange(30, 50);
    lemma_digits_canonical(id_part);
    lemma_digits_canonical(price_part);
    lemma_digits_canonical(len_part);
    assert(m.id as nat == digits_val(id_part));
    assert(m.price_cents as nat == digits_val(price_part));
    assert(m.description.len() == digits_val(len_part));
    assert(spec_encode(m) =~= s);
}

} // verus!
