//! Decimal and hexadecimal rendering of integers, parsing of unsigned
//! decimal integers, and whitespace trimming, all over `char` sequences.
use vstd::prelude::*;
use vstd::string::*;

verus! {

/// The character of digit `d` in bases up to 16 (lower case letters above 9).
pub open spec fn digit_char(d: nat) -> char {
    if d < 10 {
        (d + 48) as char
    } else {
        (d + 87) as char
    }
}

/// The digits of `n` in base `radix`, most significant first, without leading zeros.
pub open spec fn radix_chars(n: nat, radix: nat) -> Seq<char>
    decreases n,
{
    if radix < 2 || n < radix {
        seq![digit_char(n)]
    } else {
        proof {
            vstd::arithmetic::div_mod::lemma_div_decreases(n as int, radix as int);
        }
        radix_chars(n / radix, radix).push(digit_char(n % radix))
    }
}

/// Decimal rendering of `n` (what `format!("{}", n)` prints).
pub open spec fn dec_chars(n: nat) -> Seq<char> {
    radix_chars(n, 10)
}

/// Lower-case hexadecimal rendering of `n` (what `format!("{:x}", n)` prints).
pub open spec fn hex_chars(n: nat) -> Seq<char> {
    radix_chars(n, 16)
}

/// `s` right-aligned in a field of `width` characters filled with `fill`.
pub open spec fn pad_left(s: Seq<char>, width: nat, fill: char) -> Seq<char> {
    if s.len() >= width {
        s
    } else {
        Seq::new((width - s.len()) as nat, |i: int| fill) + s
    }
}

/// The one-character string literal of digit `d`.
fn digit_str(d: u64) -> (s: &'static str)
    requires
        d < 16,
    ensures
        s@ == seq![digit_char(d as nat)],
{
    if d == 0 { proof { reveal_strlit("0"); } "0" }
    else if d == 1 { proof { reveal_strlit("1"); } "1" }
    else if d == 2 { proof { reveal_strlit("2"); } "2" }
    else if d == 3 { proof { reveal_strlit("3"); } "3" }
    else if d == 4 { proof { reveal_strlit("4"); } "4" }
    else if d == 5 { proof { reveal_strlit("5"); } "5" }
    else if d == 6 { proof { reveal_strlit("6"); } "6" }
    else if d == 7 { proof { reveal_strlit("7"); } "7" }
    else if d == 8 { proof { reveal_strlit("8"); } "8" }
    else if d == 9 { proof { reveal_strlit("9"); } "9" }
    else if d == 10 { proof { reveal_strlit("a"); } "a" }
    else if d == 11 { proof { reveal_strlit("b"); } "b" }
    else if d == 12 { proof { reveal_strlit("c"); } "c" }
    else if d == 13 { proof { reveal_strlit("d"); } "d" }
    else if d == 14 { proof { reveal_strlit("e"); } "e" }
    else { proof { reveal_strlit("f"); } "f" }
}

/// Appends the digits of `n` in base `radix`.
pub fn append_radix(s: &mut String, n: u64, radix: u64)
    requires
        radix == 10 || radix == 16,
    ensures
        final(s)@ == old(s)@ + radix_chars(n as nat, radix as nat),
    decreases n,
{
    if n >= radix {
        append_radix(s, n / radix, radix);
    } else {
        proof {
            vstd::arithmetic::div_mod::lemma_small_mod(n as nat, radix as nat);
        }
    }
    s.append(digit_str(n % radix));
    assert(final(s)@ =~= old(s)@ + radix_chars(n as nat, radix as nat));
}

/// Appends `count` copies of the one-character literal `fill`.
pub fn append_fill(s: &mut String, fill: &str, count: usize)
    requires
        fill@.len() == 1,
    ensures
        final(s)@ == old(s)@ + Seq::new(count as nat, |i: int| fill@[0]),
{
    let mut k: usize = 0;
    while k < count
        invariant
            fill@.len() == 1,
            k <= count,
            s@ == old(s)@ + Seq::new(k as nat, |i: int| fill@[0]),
        decreases count - k,
    {
        s.append(fill);
        k = k + 1;
        assert(s@ =~= old(s)@ + Seq::new(k as nat, |i: int| fill@[0]));
    }
}

/// Number of digits of `n` in base `radix`.
pub fn radix_len(n: u64, radix: u64) -> (len: u64)
    requires
        radix == 10 || radix == 16,
    ensures
        len == radix_chars(n as nat, radix as nat).len(),
        len <= n + 1,
    decreases n,
{
    if n >= radix {
        let l = radix_len(n / radix, radix);
        assert(n / radix + 1 <= n) by (nonlinear_arith)
            requires n >= radix, radix >= 2;
        l + 1
    } else {
        1
    }
}

/// Appends the digits of `n` in base `radix`, right-aligned in `width` columns filled with `fill`.
pub fn append_padded(s: &mut String, n: u64, radix: u64, width: usize, fill: &str)
    requires
        radix == 10 || radix == 16,
        fill@.len() == 1,
    ensures
        final(s)@ == old(s)@ + pad_left(radix_chars(n as nat, radix as nat), width as nat, fill@[0]),
{
    let len = radix_len(n, radix);
    if len < width as u64 {
        append_fill(s, fill, width - len as usize);
    }
    append_radix(s, n, radix);
    assert(final(s)@ =~= old(s)@ + pad_left(radix_chars(n as nat, radix as nat), width as nat, fill@[0]));
}

/// The bytes of an ASCII character sequence.
pub open spec fn ascii_bytes(s: Seq<char>) -> Seq<u8> {
    s.map_values(|c: char| c as u8)
}

/// Appends the ASCII bytes of the digits of `n` in base `radix`.
pub fn append_radix_bytes(out: &mut Vec<u8>, n: u64, radix: u64)
    requires
        radix == 10 || radix == 16,
    ensures
        final(out)@ == old(out)@ + ascii_bytes(radix_chars(n as nat, radix as nat)),
    decreases n,
{
    if n >= radix {
        append_radix_bytes(out, n / radix, radix);
    } else {
        proof {
            vstd::arithmetic::div_mod::lemma_small_mod(n as nat, radix as nat);
        }
    }
    let d = n % radix;
    let b: u8 = if d < 10 { (d + 48) as u8 } else { (d + 87) as u8 };
    out.push(b);
    proof {
        let prev = if n >= radix { radix_chars((n / radix) as nat, radix as nat) } else { Seq::<char>::empty() };
        assert(radix_chars(n as nat, radix as nat) =~= prev.push(digit_char(d as nat)));
        assert(ascii_bytes(prev.push(digit_char(d as nat))) =~= ascii_bytes(prev).push(b));
    }
    assert(final(out)@ =~= old(out)@ + ascii_bytes(radix_chars(n as nat, radix as nat)));
}

/// Whether `c` has the Unicode `White_Space` property (what `char::is_whitespace` tests).
pub open spec fn is_ws(c: char) -> bool {
    ||| ('\t' <= c && c <= '\r')
    ||| c == ' '
    ||| c == '\u{85}'
    ||| c == '\u{a0}'
    ||| c == '\u{1680}'
    ||| ('\u{2000}' <= c && c <= '\u{200a}')
    ||| c == '\u{2028}'
    ||| c == '\u{2029}'
    ||| c == '\u{202f}'
    ||| c == '\u{205f}'
    ||| c == '\u{3000}'
}

/// `s` without its leading whitespace.
pub open spec fn trim_start(s: Seq<char>) -> Seq<char>
    decreases s.len(),
{
    if s.len() > 0 && is_ws(s[0]) {
        trim_start(s.drop_first())
    } else {
        s
    }
}

/// `s` without its trailing whitespace.
pub open spec fn trim_end(s: Seq<char>) -> Seq<char>
    decreases s.len(),
{
    if s.len() > 0 && is_ws(s.last()) {
        trim_end(s.drop_last())
    } else {
        s
    }
}

/// `s` without leading and trailing whitespace (what `str::trim` gives).
pub open spec fn trim(s: Seq<char>) -> Seq<char> {
    trim_end(trim_start(s))
}

/// Whether `c` is whitespace.
pub fn char_is_ws(c: char) -> (b: bool)
    ensures
        b == is_ws(c),
{
    ('\t' <= c && c <= '\r') || c == ' ' || c == '\u{85}' || c == '\u{a0}' || c == '\u{1680}'
        || ('\u{2000}' <= c && c <= '\u{200a}') || c == '\u{2028}' || c == '\u{2029}'
        || c == '\u{202f}' || c == '\u{205f}' || c == '\u{3000}'
}

proof fn lemma_trim_start_step(s: Seq<char>, lo: int)
    requires
        0 <= lo < s.len(),
        is_ws(s[lo]),
    ensures
        trim_start(s.subrange(lo, s.len() as int)) == trim_start(s.subrange(lo + 1, s.len() as int)),
{
    assert(s.subrange(lo, s.len() as int).drop_first() =~= s.subrange(lo + 1, s.len() as int));
}

proof fn lemma_trim_end_step(s: Seq<char>, lo: int, hi: int)
    requires
        0 <= lo < hi <= s.len(),
        is_ws(s[hi - 1]),
    ensures
        trim_end(s.subrange(lo, hi)) == trim_end(s.subrange(lo, hi - 1)),
{
    assert(s.subrange(lo, hi).drop_last() =~= s.subrange(lo, hi - 1));
}

/// `s` with leading and trailing whitespace removed.
pub fn trim_str(s: &str) -> (t: &str)
    ensures
        t@ == trim(s@),
{
    let n = s.unicode_len();
    let mut lo: usize = 0;
    assert(s@.subrange(0, n as int) =~= s@);
    while lo < n && char_is_ws(s.get_char(lo))
        invariant
            n == s@.len(),
            lo <= n,
            trim_start(s@) == trim_start(s@.subrange(lo as int, n as int)),
        decreases n - lo,
    {
        proof { lemma_trim_start_step(s@, lo as int); }
        lo = lo + 1;
    }
    assert(trim_start(s@) == s@.subrange(lo as int, n as int));
    let mut hi: usize = n;
    while hi > lo && char_is_ws(s.get_char(hi - 1))
        invariant
            n == s@.len(),
            lo <= hi <= n,
            trim_end(s@.subrange(lo as int, n as int)) == trim_end(s@.subrange(lo as int, hi as int)),
        decreases hi - lo,
    {
        proof { lemma_trim_end_step(s@, lo as int, hi as int); }
        hi = hi - 1;
    }
    assert(s@.subrange(lo as int, hi as int).len() == 0 || !is_ws(s@.subrange(lo as int, hi as int).last()));
    s.substring_char(lo, hi)
}

/// Whether `c` is an ASCII decimal digit.
pub open spec fn is_digit(c: char) -> bool {
    '0' <= c && c <= '9'
}

/// The value of a string of decimal digits.
pub open spec fn digits_value(s: Seq<char>) -> nat
    decreases s.len(),
{
    if s.len() == 0 {
        0
    } else {
        digits_value(s.drop_last()) * 10 + ((s.last() as nat) - 48) as nat
    }
}

/// The digits that follow an optional leading `+`.
pub open spec fn unsigned_body(s: Seq<char>) -> Seq<char> {
    if s.len() > 0 && s[0] == '+' {
        s.drop_first()
    } else {
        s
    }
}

/// How `str::parse` reads an unsigned integer no larger than `max`: an optional `+`,
/// then one or more decimal digits whose value is at most `max`; anything else fails.
pub open spec fn parse_unsigned(s: Seq<char>, max: nat) -> Option<nat> {
    let d = unsigned_body(s);
    if d.len() > 0 && (forall|i: int| 0 <= i < d.len() ==> is_digit(#[trigger] d[i]))
        && digits_value(d) <= max {
        Some(digits_value(d))
    } else {
        None
    }
}

/// The decimal rendering of `n` is made of digits whose value is `n`.
pub proof fn lemma_dec_chars_digits(n: nat)
    ensures
        dec_chars(n).len() > 0,
        forall|i: int| 0 <= i < dec_chars(n).len() ==> is_digit(#[trigger] dec_chars(n)[i]),
        digits_value(dec_chars(n)) == n,
    decreases n,
{
    if n < 10 {
        assert(dec_chars(n) == seq![digit_char(n)]);
        assert(dec_chars(n).drop_last() =~= Seq::<char>::empty());
        assert(digits_value(Seq::<char>::empty()) == 0);
        assert(dec_chars(n).last() == digit_char(n));
        assert((digit_char(n) as nat) == n + 48);
        assert(digits_value(dec_chars(n)) == digits_value(dec_chars(n).drop_last()) * 10
            + ((dec_chars(n).last() as nat) - 48) as nat);
    } else {
        lemma_dec_chars_digits(n / 10);
        let prev = dec_chars(n / 10);
        let d = digit_char(n % 10);
        assert(dec_chars(n) == prev.push(d));
        assert(dec_chars(n).drop_last() =~= prev);
        assert((d as nat) == n % 10 + 48);
        assert forall|i: int| 0 <= i < dec_chars(n).len() implies is_digit(#[trigger] dec_chars(n)[i]) by {
            if i < prev.len() {
                assert(dec_chars(n)[i] == prev[i]);
            }
        }
        assert(dec_chars(n).last() == d);
        assert(digits_value(dec_chars(n)) == digits_value(dec_chars(n).drop_last()) * 10
            + ((dec_chars(n).last() as nat) - 48) as nat);
        assert(digits_value(dec_chars(n)) == digits_value(prev) * 10 + n % 10);
        assert(n == (n / 10) * 10 + n % 10);
    }
}

/// Reading back the decimal rendering of a number no larger than `max` gives
/// the number.
pub proof fn lemma_parse_dec_chars(n: nat, max: nat)
    requires
        n <= max,
    ensures
        parse_unsigned(dec_chars(n), max) == Some(n),
{
    lemma_dec_chars_digits(n);
    assert(dec_chars(n)[0] != '+');
    assert(unsigned_body(dec_chars(n)) == dec_chars(n));
}

proof fn lemma_digits_value_prefix(d: Seq<char>, k: int)
    requires
        0 <= k <= d.len(),
        forall|i: int| 0 <= i < d.len() ==> is_digit(#[trigger] d[i]),
    ensures
        digits_value(d.subrange(0, k)) <= digits_value(d),
    decreases d.len() - k,
{
    if k < d.len() {
        lemma_digits_value_prefix(d, k + 1);
        assert(d.subrange(0, k + 1).drop_last() =~= d.subrange(0, k));
    } else {
        assert(d.subrange(0, k) =~= d);
    }
}

/// Parses an unsigned decimal integer no larger than `max` the way `str::parse` does.
pub fn parse_unsigned_str(s: &str, max: u64) -> (r: Option<u64>)
    requires
        max >= 9,
    ensures
        r matches Some(v) ==> parse_unsigned(s@, max as nat) == Some(v as nat),
        r is None ==> parse_unsigned(s@, max as nat) is None,
{
    let n = s.unicode_len();
    let mut i: usize = 0;
    if n > 0 && s.get_char(0) == '+' {
        i = 1;
    }
    let start = i;
    let ghost d = unsigned_body(s@);
    assert(d =~= s@.subrange(start as int, n as int));
    if i == n {
        return None;
    }
    let mut v: u64 = 0;
    while i < n
        invariant
            n == s@.len(),
            d == unsigned_body(s@),
            d == s@.subrange(start as int, n as int),
            start <= i <= n,
            max >= 9,
            v as nat == digits_value(d.subrange(0, i - start)),
            v <= max,
            forall|j: int| 0 <= j < i - start ==> is_digit(#[trigger] d[j]),
        decreases n - i,
    {
        let c = s.get_char(i);
        if !('0' <= c && c <= '9') {
            assert(!is_digit(d[i - start]));
            return None;
        }
        let dv = (c as u32 - 48) as u64;
        assert(d.subrange(0, i - start + 1).drop_last() =~= d.subrange(0, i - start));
        assert(digits_value(d.subrange(0, i - start + 1)) == v * 10 + dv);
        if v > (max - dv) / 10 {
            assert(v * 10 + dv > max) by (nonlinear_arith)
                requires v > (max - dv) / 10, max >= dv;
            proof {
                if forall|j: int| 0 <= j < d.len() ==> is_digit(#[trigger] d[j]) {
                    lemma_digits_value_prefix(d, i - start + 1);
                }
            }
            return None;
        }
        assert(v * 10 + dv <= max) by (nonlinear_arith)
            requires v <= (max - dv) / 10, max >= dv;
        v = v * 10 + dv;
        i = i + 1;
    }
    assert(d.subrange(0, n - start) =~= d);
    Some(v)
}
} // verus!
