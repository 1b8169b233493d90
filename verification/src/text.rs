//! Decimal digits and small text helpers shared by the file-name templates
//! and the SQL printer.

use vstd::prelude::*;
use vstd::string::*;

verus! {

/// The character that stands for the decimal digit `d`.
pub open spec fn digit_char(d: int) -> char {
    if d == 0 {
        '0'
    } else if d == 1 {
        '1'
    } else if d == 2 {
        '2'
    } else if d == 3 {
        '3'
    } else if d == 4 {
        '4'
    } else if d == 5 {
        '5'
    } else if d == 6 {
        '6'
    } else if d == 7 {
        '7'
    } else if d == 8 {
        '8'
    } else {
        '9'
    }
}

/// Whether `c` is one of `0` to `9`.
pub open spec fn is_digit(c: char) -> bool {
    '0' <= c && c <= '9'
}

/// The value of the digit character `c`; any other character counts as zero.
pub open spec fn digit_value(c: char) -> nat {
    if is_digit(c) {
        (c as int - 48) as nat
    } else {
        0
    }
}

/// Whether every character of `s` is a decimal digit.
pub open spec fn all_digits(s: Seq<char>) -> bool {
    forall|i: int| 0 <= i < s.len() ==> is_digit(#[trigger] s[i])
}

/// The number that a run of decimal digits denotes; leading zeros count for nothing.
pub open spec fn digits_value(s: Seq<char>) -> nat
    decreases s.len(),
{
    if s.len() == 0 {
        0
    } else {
        digits_value(s.drop_last()) * 10 + digit_value(s.last())
    }
}

/// The shortest decimal notation of `n`.
pub open spec fn decimal(n: nat) -> Seq<char>
    decreases n,
{
    if n < 10 {
        seq![digit_char(n as int)]
    } else {
        decimal(n / 10).push(digit_char((n % 10) as int))
    }
}

/// `count` copies of `c`.
pub open spec fn repeated(c: char, count: nat) -> Seq<char> {
    Seq::new(count, |i: int| c)
}

/// `s`, with `fill` put in front of it until it is `width` characters long.
pub open spec fn pad_left(s: Seq<char>, width: nat, fill: char) -> Seq<char> {
    if s.len() >= width {
        s
    } else {
        repeated(fill, (width - s.len()) as nat) + s
    }
}

/// The decimal notation of `n`, filled with zeros on the left up to `width` characters.
pub open spec fn zero_padded(n: nat, width: nat) -> Seq<char> {
    pad_left(decimal(n), width, '0')
}

/// The decimal notation of a signed number: a minus sign in front of a negative one.
pub open spec fn signed_decimal(n: int) -> Seq<char> {
    if n < 0 {
        seq!['-'] + decimal((-n) as nat)
    } else {
        decimal(n as nat)
    }
}

/// The decimal notation of a signed number, filled with zeros up to `width`
/// characters; the sign, where there is one, comes first and counts for the width.
pub open spec fn signed_zero_padded(n: int, width: nat) -> Seq<char> {
    if n < 0 {
        seq!['-'] + zero_padded((-n) as nat, if width >= 1 { (width - 1) as nat } else { 0 })
    } else {
        zero_padded(n as nat, width)
    }
}

/// The texts of `parts`, one after the other, with `sep` between each two.
pub open spec fn joined(parts: Seq<Seq<char>>, sep: Seq<char>) -> Seq<char>
    decreases parts.len(),
{
    if parts.len() == 0 {
        Seq::empty()
    } else if parts.len() == 1 {
        parts[0]
    } else {
        joined(parts.drop_last(), sep) + sep + parts.last()
    }
}

/// The views of a list of strings.
pub open spec fn texts(v: Seq<String>) -> Seq<Seq<char>> {
    v.map_values(|s: String| s@)
}

/// The characters of `s`, in a vector that can be indexed in constant time.
pub fn chars_of(s: &str) -> (r: Vec<char>)
    ensures
        r@ == s@,
{
    let n = s.unicode_len();
    let mut out: Vec<char> = Vec::new();
    let mut i: usize = 0;
    while i < n
        invariant
            n == s@.len(),
            i <= n,
            out@ == s@.subrange(0, i as int),
        decreases n - i,
    {
        let c = s.get_char(i);
        out.push(c);
        i = i + 1;
        assert(out@ =~= s@.subrange(0, i as int));
    }
    assert(s@.subrange(0, n as int) =~= s@);
    out
}

/// One more digit multiplies what a run is worth by ten and adds its own value.
pub proof fn lemma_digits_value_push(s: Seq<char>, c: char)
    ensures
        digits_value(s.push(c)) == digits_value(s) * 10 + digit_value(c),
        digits_value(s.push(c)) >= digits_value(s),
{
    assert(s.push(c).drop_last() =~= s);
    assert(s.push(c).last() == c);
}

/// The value of the digits of `s` between `from` and `to`, unless it is above `max`.
pub fn bounded_number(s: &Vec<char>, from: usize, to: usize, max: u64) -> (r: Option<u64>)
    requires
        from <= to <= s.len(),
        all_digits(s@.subrange(from as int, to as int)),
    ensures
        r == (if digits_value(s@.subrange(from as int, to as int)) <= max {
            Some(digits_value(s@.subrange(from as int, to as int)) as u64)
        } else {
            None
        }),
{
    let ghost run = s@.subrange(from as int, to as int);
    let mut acc: u128 = 0;
    let mut i: usize = from;
    while i < to
        invariant
            from <= i <= to <= s.len(),
            run == s@.subrange(from as int, to as int),
            all_digits(run),
            acc == digits_value(s@.subrange(from as int, i as int)),
            acc <= max,
        decreases to - i,
    {
        let c = s[i];
        proof {
            assert(run[i - from] == c);
            assert(is_digit(c));
            lemma_digits_value_push(s@.subrange(from as int, i as int), c);
            assert(s@.subrange(from as int, i as int).push(c) =~= s@.subrange(
                from as int,
                i + 1,
            ));
        }
        let d: u128 = (c as u32 - 48) as u128;
        let next: u128 = acc * 10 + d;
        if next > max as u128 {
            proof {
                lemma_digits_value_monotone(run, (i + 1 - from) as int);
                assert(run.subrange(0, i + 1 - from) =~= s@.subrange(from as int, i + 1));
            }
            return None;
        }
        acc = next;
        i = i + 1;
    }
    assert(s@.subrange(from as int, i as int) =~= run);
    Some(acc as u64)
}

/// A run of digits is worth at least as much as any of its prefixes.
pub proof fn lemma_digits_value_monotone(s: Seq<char>, k: int)
    requires
        all_digits(s),
        0 <= k <= s.len(),
    ensures
        digits_value(s.subrange(0, k)) <= digits_value(s),
    decreases s.len() - k,
{
    if k == s.len() {
        assert(s.subrange(0, k) =~= s);
    } else {
        lemma_digits_value_monotone(s, k + 1);
        assert(s.subrange(0, k + 1) =~= s.subrange(0, k).push(s[k]));
        assert(is_digit(s[k]));
        lemma_digits_value_push(s.subrange(0, k), s[k]);
    }
}

/// The one-character text of the digit `d`.
pub fn digit_str(d: u8) -> (r: &'static str)
    requires
        d < 10,
    ensures
        r@ == seq![digit_char(d as int)],
{
    proof {
        reveal_strlit("0");
        reveal_strlit("1");
        reveal_strlit("2");
        reveal_strlit("3");
        reveal_strlit("4");
        reveal_strlit("5");
        reveal_strlit("6");
        reveal_strlit("7");
        reveal_strlit("8");
        reveal_strlit("9");
    }
    let r = if d == 0 {
        "0"
    } else if d == 1 {
        "1"
    } else if d == 2 {
        "2"
    } else if d == 3 {
        "3"
    } else if d == 4 {
        "4"
    } else if d == 5 {
        "5"
    } else if d == 6 {
        "6"
    } else if d == 7 {
        "7"
    } else if d == 8 {
        "8"
    } else {
        "9"
    };
    assert(r@ =~= seq![digit_char(d as int)]);
    r
}

/// Appends the decimal notation of `n` to `out`.
pub fn push_decimal(out: &mut String, n: u128)
    ensures
        final(out)@ == old(out)@ + decimal(n as nat),
    decreases n,
{
    if n >= 10 {
        push_decimal(out, n / 10);
    }
    out.append(digit_str((n % 10) as u8));
    proof {
        if n >= 10 {
            assert(old(out)@ + decimal((n / 10) as nat) + seq![digit_char((n % 10) as int)]
                =~= old(out)@ + decimal(n as nat));
        } else {
            assert(old(out)@ + seq![digit_char((n % 10) as int)] =~= old(out)@ + decimal(
                n as nat,
            ));
        }
    }
}

/// How many digits the decimal notation of `n` has.
pub fn decimal_len(n: u128) -> (r: usize)
    ensures
        r == decimal(n as nat).len(),
        1 <= r <= 39,
    decreases n,
{
    if n >= 10 {
        let r = decimal_len(n / 10);
        proof {
            lemma_decimal_len_bound(n as nat);
        }
        r + 1
    } else {
        1
    }
}

/// A number below 10^39 has at most 39 digits; every `u128` is such a number.
pub proof fn lemma_decimal_len_bound(n: nat)
    requires
        n <= u128::MAX,
    ensures
        decimal(n).len() <= 39,
{
    reveal_with_fuel(decimal, 40);
}

/// Appends `count` copies of the character of `unit` to `out`.
pub fn push_repeated(out: &mut String, unit: &str, count: usize)
    requires
        unit@.len() == 1,
    ensures
        final(out)@ == old(out)@ + repeated(unit@[0], count as nat),
{
    let mut i: usize = 0;
    assert(old(out)@ + repeated(unit@[0], 0) =~= old(out)@);
    while i < count
        invariant
            i <= count,
            unit@.len() == 1,
            out@ == old(out)@ + repeated(unit@[0], i as nat),
        decreases count - i,
    {
        out.append(unit);
        i = i + 1;
        assert(old(out)@ + repeated(unit@[0], (i - 1) as nat) + unit@ =~= old(out)@ + repeated(
            unit@[0],
            i as nat,
        ));
    }
}

/// Appends the decimal notation of `n`, filled with zeros up to `width` characters.
pub fn push_zero_padded(out: &mut String, n: u128, width: usize)
    ensures
        final(out)@ == old(out)@ + zero_padded(n as nat, width as nat),
{
    let len = decimal_len(n);
    proof {
        reveal_strlit("0");
    }
    if len < width {
        push_repeated(out, "0", width - len);
    }
    push_decimal(out, n);
    proof {
        if len < width {
            assert(old(out)@ + repeated('0', (width - len) as nat) + decimal(n as nat)
                =~= old(out)@ + zero_padded(n as nat, width as nat));
        }
    }
}

/// Appends the decimal notation of a signed number.
pub fn push_signed_decimal(out: &mut String, n: i128)
    requires
        n > i128::MIN,
    ensures
        final(out)@ == old(out)@ + signed_decimal(n as int),
{
    if n < 0 {
        proof {
            reveal_strlit("-");
        }
        out.append("-");
        push_decimal(out, (-n) as u128);
        assert(old(out)@ + "-"@ + decimal((-n) as nat) =~= old(out)@ + signed_decimal(n as int));
    } else {
        push_decimal(out, n as u128);
    }
}

/// Appends the decimal notation of a signed number, filled with zeros up to
/// `width` characters, the sign included.
pub fn push_signed_zero_padded(out: &mut String, n: i128, width: usize)
    requires
        n > i128::MIN,
    ensures
        final(out)@ == old(out)@ + signed_zero_padded(n as int, width as nat),
{
    if n < 0 {
        proof {
            reveal_strlit("-");
        }
        out.append("-");
        let w: usize = if width >= 1 {
            width - 1
        } else {
            0
        };
        push_zero_padded(out, (-n) as u128, w);
        assert(old(out)@ + "-"@ + zero_padded((-n) as nat, w as nat) =~= old(out)@
            + signed_zero_padded(n as int, width as nat));
    } else {
        push_zero_padded(out, n as u128, width);
    }
}

/// A copy of the characters of `s` from `from` up to `to`.
pub fn slice_string(s: &str, from: usize, to: usize) -> (r: String)
    requires
        from <= to <= s@.len(),
    ensures
        r@ == s@.subrange(from as int, to as int),
{
    String::from_str(s.substring_char(from, to))
}

/// Whether the text `t` is the source `src` again, or a shorter one:
/// what is written out from a number may have lost zeros that stood in
/// front of it, and has lost none if the two are of one length.
pub open spec fn regained(t: Seq<char>, src: Seq<char>) -> bool {
    t.len() <= src.len() && (t.len() == src.len() ==> t == src)
}

/// Two texts regained in a row are regained.
pub proof fn lemma_regained_concat(t1: Seq<char>, s1: Seq<char>, t2: Seq<char>, s2: Seq<char>)
    requires
        regained(t1, s1),
        regained(t2, s2),
    ensures
        regained(t1 + t2, s1 + s2),
{
    if (t1 + t2).len() == (s1 + s2).len() {
        assert(t1 == s1 && t2 == s2);
    }
}

/// The digit of a digit character is that character.
pub proof fn lemma_digit_char_of_value(c: char)
    requires
        is_digit(c),
    ensures
        digit_char(digit_value(c) as int) == c,
        0 <= digit_value(c) <= 9,
{
}

/// A run of digits worth nothing is a run of zeros.
pub proof fn lemma_zero_value(s: Seq<char>)
    requires
        all_digits(s),
        digits_value(s) == 0,
    ensures
        s == repeated('0', s.len()),
    decreases s.len(),
{
    if s.len() > 0 {
        assert(is_digit(s.last()));
        assert(all_digits(s.drop_last())) by {
            assert forall|i: int| 0 <= i < s.drop_last().len() implies is_digit(
                #[trigger] s.drop_last()[i],
            ) by {
                assert(s.drop_last()[i] == s[i]);
            }
        }
        lemma_zero_value(s.drop_last());
        lemma_digit_char_of_value(s.last());
        assert(s =~= repeated('0', s.len())) by {
            assert forall|i: int| 0 <= i < s.len() implies s[i] == '0' by {
                if i < s.len() - 1 {
                    assert(s.drop_last()[i] == s[i]);
                }
            }
        }
    } else {
        assert(s =~= repeated('0', 0));
    }
}

/// A number written out again is the run of digits it was read from,
/// but for the zeros that stood in front.
pub proof fn lemma_decimal_of_digits(s: Seq<char>)
    requires
        all_digits(s),
        s.len() >= 1,
    ensures
        s == repeated('0', (s.len() - decimal(digits_value(s)).len()) as nat) + decimal(
            digits_value(s),
        ),
        decimal(digits_value(s)).len() <= s.len(),
    decreases s.len(),
{
    let v = digits_value(s);
    let front = s.drop_last();
    let c = s.last();
    assert(is_digit(c));
    lemma_digit_char_of_value(c);
    assert(all_digits(front)) by {
        assert forall|i: int| 0 <= i < front.len() implies is_digit(#[trigger] front[i]) by {
            assert(front[i] == s[i]);
        }
    }
    let v0 = digits_value(front);
    assert(v == v0 * 10 + digit_value(c));
    if v0 == 0 {
        lemma_zero_value(front);
        assert(decimal(v) =~= seq![c]);
        assert(s =~= repeated('0', (s.len() - 1) as nat) + seq![c]);
    } else {
        assert(front.len() >= 1);
        lemma_decimal_of_digits(front);
        assert(v >= 10);
        assert(v / 10 == v0 && v % 10 == digit_value(c));
        assert(decimal(v) == decimal(v0).push(c));
        let zeros = (front.len() - decimal(v0).len()) as nat;
        assert(s =~= front.push(c));
        assert(s =~= repeated('0', zeros) + decimal(v0).push(c));
    }
}

/// A number written out again, without padding, is regained from its digits.
pub proof fn lemma_decimal_regained(s: Seq<char>)
    requires
        all_digits(s),
        s.len() >= 1,
    ensures
        regained(decimal(digits_value(s)), s),
{
    lemma_decimal_of_digits(s);
    let d = decimal(digits_value(s));
    if d.len() == s.len() {
        assert(repeated('0', 0) + d =~= d);
    }
}

/// A number written out again with as many digits as it was read from is
/// the run of digits it was read from.
pub proof fn lemma_zero_padded_of_digits(s: Seq<char>)
    requires
        all_digits(s),
        s.len() >= 1,
    ensures
        zero_padded(digits_value(s), s.len()) == s,
{
    lemma_decimal_of_digits(s);
    let d = decimal(digits_value(s));
    if d.len() >= s.len() {
        assert(repeated('0', 0) + d =~= d);
    }
}

/// The digits of a run are worth what they are worth one by one, for two digits.
pub proof fn lemma_two_digits_value(s: Seq<char>)
    requires
        s.len() == 2,
    ensures
        digits_value(s) == digit_value(s[0]) * 10 + digit_value(s[1]),
{
    let front = s.drop_last();
    assert(front.len() == 1);
    assert(front.drop_last().len() == 0);
    assert(digits_value(front.drop_last()) == 0);
    assert(digits_value(front) == digit_value(front.last()));
    assert(front.last() == s[0]);
    assert(s.last() == s[1]);
}

/// The digits of a run are worth what they are worth one by one, for four digits.
pub proof fn lemma_four_digits_value(s: Seq<char>)
    requires
        s.len() == 4,
    ensures
        digits_value(s) == digit_value(s[0]) * 1000 + digit_value(s[1]) * 100 + digit_value(s[2])
            * 10 + digit_value(s[3]),
{
    let three = s.drop_last();
    let two = three.drop_last();
    lemma_two_digits_value(two);
    assert(two[0] == s[0] && two[1] == s[1]);
    assert(three.last() == s[2]);
    assert(s.last() == s[3]);
    assert(digits_value(three) == digits_value(two) * 10 + digit_value(s[2]));
    assert(digits_value(s) == digits_value(three) * 10 + digit_value(s[3]));
}

/// The digits that a number is written with are worth the number.
pub proof fn lemma_value_of_decimal(n: nat)
    ensures
        all_digits(decimal(n)),
        digits_value(decimal(n)) == n,
        decimal(n).len() >= 1,
    decreases n,
{
    if n < 10 {
        let s = decimal(n);
        assert(s.len() == 1);
        assert(s.drop_last().len() == 0);
        assert(digits_value(s.drop_last()) == 0);
        assert(s.last() == digit_char(n as int));
    } else {
        lemma_value_of_decimal(n / 10);
        let front = decimal(n / 10);
        let c = digit_char((n % 10) as int);
        lemma_digits_value_push(front, c);
        assert(is_digit(c));
        assert forall|i: int| 0 <= i < decimal(n).len() implies is_digit(
            #[trigger] decimal(n)[i],
        ) by {
            if i < front.len() {
                assert(decimal(n)[i] == front[i]);
            }
        }
    }
}

/// Zeros in front of a run of digits add nothing to what it is worth.
pub proof fn lemma_value_after_zeros(k: nat, s: Seq<char>)
    ensures
        digits_value(repeated('0', k) + s) == digits_value(s),
    decreases s.len(),
{
    if s.len() == 0 {
        assert(repeated('0', k) + s =~= repeated('0', k));
        lemma_value_of_zeros(k);
    } else {
        let all = repeated('0', k) + s;
        assert(all.drop_last() =~= repeated('0', k) + s.drop_last());
        assert(all.last() == s.last());
        lemma_value_after_zeros(k, s.drop_last());
    }
}

/// A run of zeros is worth nothing.
pub proof fn lemma_value_of_zeros(k: nat)
    ensures
        digits_value(repeated('0', k)) == 0,
    decreases k,
{
    if k > 0 {
        assert(repeated('0', k).drop_last() =~= repeated('0', (k - 1) as nat));
        lemma_value_of_zeros((k - 1) as nat);
    }
}

/// A number written with zeros in front is still worth the number, so
/// two numbers that are written alike are one number.
pub proof fn lemma_value_of_zero_padded(n: nat, width: nat)
    ensures
        digits_value(zero_padded(n, width)) == n,
{
    lemma_value_of_decimal(n);
    if decimal(n).len() < width {
        lemma_value_after_zeros((width - decimal(n).len()) as nat, decimal(n));
    }
}

/// The number of bytes that a string of this text takes in UTF-8, as the string reports it.
pub open spec fn byte_length(text: Seq<char>) -> usize {
    vstd::utf8::encode_utf8(text).len() as usize
}

/// The number of bytes that the text takes in UTF-8.
pub fn byte_len(s: &String) -> (r: usize)
    ensures
        r == byte_length(s@),
{
    let t = s.as_str();
    assert(t.spec_bytes() == vstd::utf8::encode_utf8(t@));
    t.len()
}

} // verus!
