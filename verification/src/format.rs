//! Text rendering of numbers, durations, sizes and lists.
use vstd::prelude::*;
use crate::precision::{round_to, rounded, DOUBLE_LIMIT};
use crate::text::{push_char, to_uppercase, chars_of};

verus! {

/// The texts of a list of strings.
pub open spec fn texts(v: Seq<String>) -> Seq<Seq<char>> {
    v.map_values(|s: String| s@)
}

/// The text of an optional string.
pub open spec fn opt_text(o: Option<String>) -> Option<Seq<char>> {
    match o {
        Some(s) => Some(s@),
        None => None,
    }
}

// ---------------------------------------------------------------------------
// Decimal numbers
// ---------------------------------------------------------------------------
pub open spec fn digit_char(d: nat) -> char {
    if d == 0 {
        '0'
    } else if d == 1 {
        '1'
    } else if d == 2 {
        '2'
    } else if d == 3 {
        '3'
    } else if d == 4 {
        '4'
    } else if d == 5 {
        '5'
    } else if d == 6 {
        '6'
    } else if d == 7 {
        '7'
    } else if d == 8 {
        '8'
    } else {
        '9'
    }
}

/// The decimal numeral of a number.
pub open spec fn decimal(n: nat) -> Seq<char>
    decreases n,
{
    if n < 10 {
        seq![digit_char(n)]
    } else {
        decimal(n / 10).push(digit_char(n % 10))
    }
}

fn digit_of(d: u64) -> (c: char)
    requires
        d < 10,
    ensures
        c == digit_char(d as nat),
{
    if d == 0 {
        '0'
    } else if d == 1 {
        '1'
    } else if d == 2 {
        '2'
    } else if d == 3 {
        '3'
    } else if d == 4 {
        '4'
    } else if d == 5 {
        '5'
    } else if d == 6 {
        '6'
    } else if d == 7 {
        '7'
    } else if d == 8 {
        '8'
    } else {
        '9'
    }
}

/// The decimal numeral of `n`.
pub fn decimal_of(n: u64) -> (r: String)
    ensures
        r@ == decimal(n as nat),
    decreases n,
{
    if n < 10 {
        let mut r: String = String::new();
        push_char(&mut r, digit_of(n));
        proof {
            assert(r@ =~= seq![digit_char(n as nat)]);
        }
        r
    } else {
        let mut r = decimal_of(n / 10);
        push_char(&mut r, digit_of(n % 10));
        r
    }
}

/// The decimal numeral of a wide number.
pub fn decimal_of_wide(n: u128) -> (r: String)
    ensures
        r@ == decimal(n as nat),
    decreases n,
{
    if n < 10 {
        decimal_of(n as u64)
    } else {
        let mut r = decimal_of_wide(n / 10);
        push_char(&mut r, digit_of((n % 10) as u64));
        r
    }
}

/// A number below one hundred, written with two digits.
pub open spec fn two_digits(n: nat) -> Seq<char> {
    seq![digit_char(n / 10), digit_char(n % 10)]
}

/// A number below one thousand, written with three digits.
pub open spec fn three_digits(n: nat) -> Seq<char> {
    seq![digit_char(n / 100), digit_char(n / 10 % 10), digit_char(n % 10)]
}

fn push_two_digits(s: &mut String, n: u64)
    requires
        n < 100,
    ensures
        final(s)@ == old(s)@ + two_digits(n as nat),
{
    push_char(s, digit_of(n / 10));
    push_char(s, digit_of(n % 10));
    proof {
        assert(s@ =~= old(s)@ + two_digits(n as nat));
    }
}

// ---------------------------------------------------------------------------
// Thousands separators
// ---------------------------------------------------------------------------
/// The decimal numeral with a comma between each group of three digits,
/// counted from the right.
pub open spec fn comma_decimal(n: nat) -> Seq<char>
    decreases n,
{
    if n < 1000 {
        decimal(n)
    } else {
        comma_decimal(n / 1000) + seq![','] + three_digits(n % 1000)
    }
}

fn comma_decimal_of(n: u64) -> (r: String)
    ensures
        r@ == comma_decimal(n as nat),
    decreases n,
{
    if n < 1000 {
        decimal_of(n)
    } else {
        let mut r = comma_decimal_of(n / 1000);
        let ghost head = r@;
        let low: u64 = n % 1000;
        push_char(&mut r, ',');
        push_char(&mut r, digit_of(low / 100));
        push_char(&mut r, digit_of(low / 10 % 10));
        push_char(&mut r, digit_of(low % 10));
        proof {
            assert(r@ =~= head + seq![','] + three_digits(low as nat));
        }
        r
    }
}

/// The number with a comma between each group of three digits.
pub fn format_with_commas(n: usize) -> (r: String)
    ensures
        r@ == comma_decimal(n as nat),
{
    comma_decimal_of(n as u64)
}

/// The text without its commas.
pub open spec fn without_commas(s: Seq<char>) -> Seq<char> {
    s.filter(|c: char| c != ',')
}

proof fn decimal_has_no_comma(n: nat)
    ensures
        without_commas(decimal(n)) == decimal(n),
    decreases n,
{
    let p = |c: char| c != ',';
    reveal(Seq::filter);
    if n < 10 {
        let s = seq![digit_char(n)];
        assert(s.drop_last() =~= Seq::<char>::empty());
        assert(s.drop_last().filter(p) =~= Seq::<char>::empty());
        assert(s.filter(p) =~= s);
    } else {
        decimal_has_no_comma(n / 10);
        let s = decimal(n);
        assert(s.drop_last() =~= decimal(n / 10));
        assert(s.filter(p) == s.drop_last().filter(p).push(s.last()));
        assert(s.filter(p) =~= s);
    }
}

proof fn decimal_of_thousands(q: nat, r: nat)
    requires
        q > 0,
        r < 1000,
    ensures
        decimal(q * 1000 + r) == decimal(q) + three_digits(r),
{
    let n = q * 1000 + r;
    assert(n / 10 == q * 100 + r / 10 && n % 10 == r % 10);
    let n1 = n / 10;
    assert(n1 / 10 == q * 10 + r / 100 && n1 % 10 == r / 10 % 10);
    let n2 = n1 / 10;
    assert(n2 / 10 == q && n2 % 10 == r / 100);
    assert(decimal(n2) == decimal(q).push(digit_char(r / 100)));
    assert(decimal(n1) == decimal(n2).push(digit_char(r / 10 % 10)));
    assert(decimal(n) == decimal(n1).push(digit_char(r % 10)));
    assert(decimal(n) =~= decimal(q) + three_digits(r));
}

/// Dropping the commas of a grouped number gives back its plain numeral.
pub proof fn commas_only_group(n: nat)
    ensures
        without_commas(comma_decimal(n)) == decimal(n),
    decreases n,
{
    let p = |c: char| c != ',';
    if n < 1000 {
        decimal_has_no_comma(n);
    } else {
        commas_only_group(n / 1000);
        let head = comma_decimal(n / 1000);
        let tail = three_digits(n % 1000);
        assert(tail.filter(p) =~= tail) by {
            reveal(Seq::filter);
            let t2 = tail.drop_last();
            let t1 = t2.drop_last();
            assert(t1.drop_last() =~= Seq::<char>::empty());
            assert(t1.drop_last().filter(p) =~= Seq::<char>::empty());
            assert(t1.filter(p) =~= t1);
            assert(t2.filter(p) =~= t2);
        }
        let comma = seq![','];
        assert(comma.filter(p) =~= Seq::<char>::empty()) by {
            reveal(Seq::filter);
            assert(comma.drop_last() =~= Seq::<char>::empty());
            assert(comma.drop_last().filter(p) =~= Seq::<char>::empty());
        }
        Seq::filter_distributes_over_add(head, comma, p);
        Seq::filter_distributes_over_add(head + comma, tail, p);
        assert(head.filter(p) + Seq::<char>::empty() =~= head.filter(p));
        decimal_of_thousands(n / 1000, n % 1000);
    }
}

// ---------------------------------------------------------------------------
// Durations
// ---------------------------------------------------------------------------
/// Minutes and seconds of a duration, the part of a second dropped.
pub open spec fn duration_text(ms: nat) -> Seq<char> {
    decimal(ms / 60000) + ":"@ + two_digits(ms / 1000 % 60)
}

/// Renders milliseconds as `m:ss`.
pub fn format_duration(ms: u64) -> (r: String)
    ensures
        r@ == duration_text(ms as nat),
{
    let total_secs: u64 = ms / 1000;
    let mins: u64 = total_secs / 60;
    let secs: u64 = total_secs % 60;
    let mut r = decimal_of(mins);
    r.append(":");
    push_two_digits(&mut r, secs);
    proof {
        assert(mins == ms / 60000);
    }
    r
}

// ---------------------------------------------------------------------------
// Byte sizes
// ---------------------------------------------------------------------------
/// The integer nearest to `a / b`; of two equally near ones, the even one.
pub open spec fn nearest(a: nat, b: nat) -> nat {
    let q = a / b;
    let r = a % b;
    if 2 * r < b {
        q
    } else if 2 * r > b {
        q + 1
    } else {
        q + q % 2
    }
}

pub(crate) fn nearest_of(a: u128, b: u128) -> (r: u128)
    requires
        0 < b < 0x100_0000_0000_0000_0000_0000_0000_0000,
        a < 0x100_0000_0000_0000_0000_0000_0000_0000,
    ensures
        r == nearest(a as nat, b as nat),
        r <= a + 1,
{
    let q: u128 = a / b;
    let m: u128 = a % b;
    proof {
        assert(a / b <= a) by (nonlinear_arith)
            requires
                b > 0,
        ;
    }
    if 2 * m < b {
        q
    } else if 2 * m > b {
        q + 1
    } else {
        q + q % 2
    }
}

/// The double-precision number nearest to an integer (ties to the even one).
pub open spec fn double_of(n: nat) -> nat {
    rounded(n, DOUBLE_LIMIT as nat)
}

/// A count of tenths as a decimal fraction.
pub open spec fn tenths_text(t: nat) -> Seq<char> {
    decimal(t / 10) + "."@ + seq![digit_char(t % 10)]
}

/// A count of hundredths as a decimal fraction.
pub open spec fn hundredths_text(t: nat) -> Seq<char> {
    decimal(t / 100) + "."@ + two_digits(t % 100)
}

fn tenths_of(t: u64) -> (r: String)
    ensures
        r@ == tenths_text(t as nat),
{
    let mut r = decimal_of(t / 10);
    r.append(".");
    let ghost head = r@;
    push_char(&mut r, digit_of(t % 10));
    proof {
        assert(r@ =~= head + seq![digit_char((t % 10) as nat)]);
    }
    r
}

fn hundredths_of(t: u64) -> (r: String)
    ensures
        r@ == hundredths_text(t as nat),
{
    let mut r = decimal_of(t / 100);
    r.append(".");
    push_two_digits(&mut r, t % 100);
    r
}

pub const KB: u64 = 1024;

pub const MB: u64 = 1048576;

pub const GB: u64 = 1073741824;

/// A byte count in the largest unit that it fills, with one decimal for
/// kilobytes and megabytes and two for gigabytes. The quotient is taken in
/// double precision and rounded to the nearest decimal, ties to even.
pub open spec fn bytes_text(n: nat) -> Seq<char> {
    if n >= GB {
        hundredths_text(nearest(100 * double_of(n), GB as nat)) + " GB"@
    } else if n >= MB {
        tenths_text(nearest(10 * n, MB as nat)) + " MB"@
    } else if n >= KB {
        tenths_text(nearest(10 * n, KB as nat)) + " KB"@
    } else {
        decimal(n) + " B"@
    }
}

/// A byte count in megabytes with one decimal. The quotient is taken in double
/// precision and rounded to the nearest decimal, ties to even.
pub open spec fn megabytes_text(n: nat) -> Seq<char> {
    tenths_text(nearest(10 * double_of(n), MB as nat))
}

/// A byte count in megabytes with one decimal.
pub fn format_megabytes(n: u64) -> (r: String)
    ensures
        r@ == megabytes_text(n as nat),
{
    let f: u128 = round_to(n as u128, DOUBLE_LIMIT);
    let h: u128 = nearest_of(10 * f, MB as u128);
    proof {
        assert(h <= 0xffff_ffff_ffff_ffff);
    }
    tenths_of(h as u64)
}

/// Compact human-readable byte size used in the now-playing marquee.
pub fn format_bytes_compact(n: u64) -> (r: String)
    ensures
        r@ == bytes_text(n as nat),
{
    if n >= GB {
        let f: u128 = round_to(n as u128, DOUBLE_LIMIT);
        let h: u128 = nearest_of(100 * f, GB as u128);
        proof {
            assert(h <= 0xffff_ffff_ffff);
        }
        let mut r = hundredths_of(h as u64);
        r.append(" GB");
        r
    } else if n >= MB {
        let h: u128 = nearest_of(10 * (n as u128), MB as u128);
        let mut r = tenths_of(h as u64);
        r.append(" MB");
        r
    } else if n >= KB {
        let h: u128 = nearest_of(10 * (n as u128), KB as u128);
        let mut r = tenths_of(h as u64);
        r.append(" KB");
        r
    } else {
        let mut r = decimal_of(n);
        r.append(" B");
        r
    }
}

// ---------------------------------------------------------------------------
// Sample rates
// ---------------------------------------------------------------------------
/// `x / p` with `x` doubled, and `p` with it, until `x` reaches `1000 * 2^52`.
pub open spec fn scaled_up(x: nat, p: nat) -> (nat, nat)
    decreases 0x3e8_0000_0000_0000_00 - x,
{
    if x == 0 || x >= 4503599627370496000 {
        (x, p)
    } else {
        scaled_up(2 * x, 2 * p)
    }
}

/// Tenths of a kilohertz. The quotient by a thousand is taken in double
/// precision, that is rounded to 53 significant bits, and then rounded to one
/// decimal; ties go to even both times.
pub open spec fn khz_tenths(hz: nat) -> nat {
    let (x, p) = scaled_up(hz, 1);
    nearest(10 * nearest(x, 1000), p)
}

fn khz_tenths_of(hz: u32) -> (t: u64)
    ensures
        t == khz_tenths(hz as nat),
{
    let mut x: u64 = hz as u64;
    let mut p: u64 = 1;
    while x != 0 && x < 4503599627370496000u64
        invariant
            scaled_up(hz as nat, 1) == scaled_up(x as nat, p as nat),
            0 < p,
            x == hz * p,
            x < 9007199254740992000,
            hz == 0 ==> p == 1,
            hz > 0 ==> p <= x,
        decreases (if x == 0 { 0 } else { 9007199254740992000 - x }),
    {
        proof {
            assert(2 * x == hz * (2 * p)) by (nonlinear_arith)
                requires
                    x == hz * p,
            ;
        }
        x = 2 * x;
        p = 2 * p;
    }
    let m: u128 = nearest_of(x as u128, 1000u128);
    let r: u128 = nearest_of(10 * m, p as u128);
    proof {
        assert(r <= 10 * m + 1);
        assert(m <= x / 1000 + 1);
    }
    r as u64
}

/// A sample rate in kilohertz with one decimal.
pub open spec fn khz_text(hz: nat) -> Seq<char> {
    tenths_text(khz_tenths(hz)) + " kHz"@
}

/// Renders a sample rate in kilohertz.
pub fn format_khz(hz: u32) -> (r: String)
    ensures
        r@ == khz_text(hz as nat),
{
    let mut r = tenths_of(khz_tenths_of(hz));
    r.append(" kHz");
    r
}

// ---------------------------------------------------------------------------
// Joining
// ---------------------------------------------------------------------------
/// The parts in order with the separator between each two.
pub open spec fn joined(parts: Seq<Seq<char>>, sep: Seq<char>) -> Seq<char>
    decreases parts.len(),
{
    if parts.len() == 0 {
        Seq::empty()
    } else if parts.len() == 1 {
        parts[0]
    } else {
        joined(parts.drop_last(), sep) + sep + parts.last()
    }
}

/// Joins the parts with a separator.
pub fn join(parts: &Vec<String>, sep: &str) -> (r: String)
    ensures
        r@ == joined(texts(parts@), sep@),
{
    let mut r: String = String::new();
    let mut i: usize = 0;
    while i < parts.len()
        invariant
            i <= parts.len(),
            r@ == joined(texts(parts@).take(i as int), sep@),
        decreases parts.len() - i,
    {
        if i > 0 {
            r.append(sep);
        }
        r.append(parts[i].as_str());
        proof {
            let t = texts(parts@).take(i + 1);
            assert(t.drop_last() =~= texts(parts@).take(i as int));
            if i == 0 {
                assert(r@ =~= parts@[0]@);
            }
        }
        i = i + 1;
    }
    proof {
        assert(texts(parts@).take(parts@.len() as int) =~= texts(parts@));
    }
    r
}

/// Two texts, one behind the other.
pub fn concat2(a: &str, b: &str) -> (r: String)
    ensures
        r@ == a@ + b@,
{
    let mut r = a.to_owned();
    r.append(b);
    r
}

/// Three texts, one behind the other.
pub fn concat3(a: &str, b: &str, c: &str) -> (r: String)
    ensures
        r@ == a@ + b@ + c@,
{
    let mut r = concat2(a, b);
    r.append(c);
    r
}

/// Five texts, one behind the other.
pub fn concat5(a: &str, b: &str, c: &str, d: &str, e: &str) -> (r: String)
    ensures
        r@ == a@ + b@ + c@ + d@ + e@,
{
    let mut r = concat3(a, b, c);
    r.append(d);
    r.append(e);
    r
}

// ---------------------------------------------------------------------------
// First letters
// ---------------------------------------------------------------------------
/// The first character of the text in upper case; a blank for an empty text.
pub open spec fn first_upper(s: Seq<char>) -> char {
    let c = if s.len() > 0 {
        s[0]
    } else {
        ' '
    };
    if crate::text::uppercase_of(c).len() > 0 {
        crate::text::uppercase_of(c)[0]
    } else {
        ' '
    }
}

/// The first character of a name in upper case, for first-letter jumps.
pub fn first_char_upper(s: &str) -> (r: char)
    ensures
        r == first_upper(s@),
{
    let v = chars_of(s);
    let c = if v.len() > 0 {
        v[0]
    } else {
        ' '
    };
    let up = to_uppercase(c);
    if up.len() > 0 {
        up[0]
    } else {
        ' '
    }
}

} // verus!
