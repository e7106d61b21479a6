//! The local time, and the time stamp that names a saved image.

use vstd::prelude::*;

verus! {

/// A moment of local time, to the second.
#[derive(Debug, Clone, Copy, PartialEq, Eq, Structural)]
pub struct LocalTime {
    pub year: i32,
    pub month: u32,
    pub day: u32,
    pub hour: u32,
    pub minute: u32,
    pub second: u32,
}

impl LocalTime {
    /// Tells whether the fields are those of a calendar and a clock: a month
    /// from 1 to 12, a day from 1 to 31, an hour up to 23, a minute and a
    /// second up to 59.
    pub open spec fn in_range(self) -> bool {
        &&& 1 <= self.month <= 12
        &&& 1 <= self.day <= 31
        &&& self.hour <= 23
        &&& self.minute <= 59
        &&& self.second <= 59
    }
}

/// `chrono::Local::now`, read field by field through `chrono::Datelike` and
/// `chrono::Timelike`. The fields are whatever the clock says; that each lies
/// in the range of its kind is what chrono documents of the six readers.
#[verifier::external_body]
pub(crate) fn local_now() -> (now: LocalTime)
    ensures
        now.in_range(),
{
    let now = chrono::Local::now();
    LocalTime {
        year: chrono::Datelike::year(&now),
        month: chrono::Datelike::month(&now),
        day: chrono::Datelike::day(&now),
        hour: chrono::Timelike::hour(&now),
        minute: chrono::Timelike::minute(&now),
        second: chrono::Timelike::second(&now),
    }
}

/// The character of the digit `d`.
pub open spec fn digit_char(d: int) -> char {
    ((0x30 + d) as u8) as char
}

/// The number `n` in decimal digits, without leading zeros.
pub open spec fn decimal(n: nat) -> Seq<char>
    decreases n,
{
    if n < 10 {
        seq![digit_char(n as int)]
    } else {
        decimal(n / 10).push(digit_char((n % 10) as int))
    }
}

/// The number `n` in decimal digits, with zeros before it where it has
/// fewer than `width` digits.
pub open spec fn zero_padded(n: nat, width: nat) -> Seq<char> {
    let digits = decimal(n);
    if digits.len() < width {
        Seq::new((width - digits.len()) as nat, |i: int| '0') + digits
    } else {
        digits
    }
}

/// A year as text: four digits for the years 0 to 9999, and a sign before
/// at least four digits for any other year.
pub open spec fn year_text(year: int) -> Seq<char> {
    if 0 <= year <= 9999 {
        zero_padded(year as nat, 4)
    } else if year < 0 {
        seq!['-'] + zero_padded((-year) as nat, 4)
    } else {
        seq!['+'] + zero_padded(year as nat, 4)
    }
}

/// The time stamp of a moment: year, month and day, then hour, minute and
/// second, as `YYYY-MM-DD_HH-MM-SS`.
pub open spec fn stamp_of(t: LocalTime) -> Seq<char> {
    year_text(t.year as int) + seq!['-'] + zero_padded(t.month as nat, 2) + seq!['-']
        + zero_padded(t.day as nat, 2) + seq!['_'] + zero_padded(t.hour as nat, 2) + seq!['-']
        + zero_padded(t.minute as nat, 2) + seq!['-'] + zero_padded(t.second as nat, 2)
}

/// Appends the decimal digits of `n` to `out`; returns how many they are.
fn push_decimal(out: &mut String, n: u64) -> (count: usize)
    ensures
        final(out)@ == old(out)@ + decimal(n as nat),
        count == decimal(n as nat).len(),
        1 <= count <= 20,
    decreases n,
{
    let ghost before = out@;
    if n < 10 {
        out.push((0x30 + n as u8) as char);
        assert(out@ =~= before + decimal(n as nat));
        1
    } else {
        let count = push_decimal(out, n / 10);
        out.push((0x30 + (n % 10) as u8) as char);
        assert(out@ =~= before + decimal(n as nat));
        proof {
            lemma_decimal_length(n as nat);
        }
        count + 1
    }
}

/// Counts the decimal digits of `n`.
fn count_digits(n: u64) -> (count: usize)
    ensures
        count == decimal(n as nat).len(),
        1 <= count <= 20,
    decreases n,
{
    proof {
        lemma_decimal_length(n as nat);
    }
    if n < 10 {
        1
    } else {
        count_digits(n / 10) + 1
    }
}

/// Appends `n` to `out`, with zeros before it up to `width` digits.
fn push_padded(out: &mut String, n: u64, width: usize)
    ensures
        final(out)@ == old(out)@ + zero_padded(n as nat, width as nat),
{
    let ghost before = out@;
    let digits = count_digits(n);
    let mut k: usize = digits;
    assert(before + Seq::new(0, |i: int| '0') =~= before);
    while k < width
        invariant
            digits <= k,
            k <= width || k == digits,
            out@ == before + Seq::new((k - digits) as nat, |i: int| '0'),
        decreases width - k,
    {
        out.push('0');
        k += 1;
        assert(before + Seq::new((k - digits) as nat, |i: int| '0') =~= (before + Seq::new(
            (k - 1 - digits) as nat,
            |i: int| '0',
        )).push('0'));
    }
    push_decimal(out, n);
    assert(out@ =~= before + zero_padded(n as nat, width as nat));
}

/// Returns the time stamp of a moment.
pub fn format_stamp(t: &LocalTime) -> (stamp: String)
    ensures
        stamp@ == stamp_of(*t),
{
    let mut out = String::new();
    if t.year < 0 {
        out.push('-');
        push_padded(&mut out, (-(t.year as i64)) as u64, 4);
    } else if t.year > 9999 {
        out.push('+');
        push_padded(&mut out, t.year as u64, 4);
    } else {
        push_padded(&mut out, t.year as u64, 4);
    }
    assert(out@ =~= year_text(t.year as int));
    out.push('-');
    push_padded(&mut out, t.month as u64, 2);
    out.push('-');
    push_padded(&mut out, t.day as u64, 2);
    out.push('_');
    push_padded(&mut out, t.hour as u64, 2);
    out.push('-');
    push_padded(&mut out, t.minute as u64, 2);
    out.push('-');
    push_padded(&mut out, t.second as u64, 2);
    assert(out@ =~= stamp_of(*t));
    out
}

/// A number has as many digits as its size asks for: one below ten, and one
/// more for every further factor of ten. All of them are digits.
pub proof fn lemma_decimal_length(n: nat)
    ensures
        decimal(n).len() >= 1,
        n < 10 ==> decimal(n).len() == 1,
        10 <= n < 100 ==> decimal(n).len() == 2,
        100 <= n < 1000 ==> decimal(n).len() == 3,
        1000 <= n < 10000 ==> decimal(n).len() == 4,
        n >= 10 ==> decimal(n).len() == decimal(n / 10).len() + 1,
        n <= u64::MAX ==> decimal(n).len() <= 20,
        forall|i: int| 0 <= i < decimal(n).len() ==> '0' <= #[trigger] decimal(n)[i] <= '9',
    decreases n,
{
    if n >= 10 {
        lemma_decimal_length(n / 10);
        if n <= u64::MAX {
            lemma_decimal_bound(n);
        }
    }
}

/// A number below a power of ten has no more digits than the power has
/// zeros.
proof fn lemma_decimal_bound(n: nat)
    requires
        n <= u64::MAX,
    ensures
        decimal(n).len() <= 20,
{
    let a = n / 10;
    let b = a / 10;
    let c = b / 10;
    let d = c / 10;
    let e = d / 10;
    let f = e / 10;
    let g = f / 10;
    let h = g / 10;
    let i = h / 10;
    let j = i / 10;
    let k = j / 10;
    let l = k / 10;
    let m = l / 10;
    let o = m / 10;
    let p = o / 10;
    let q = p / 10;
    let r = q / 10;
    let s = r / 10;
    let t = s / 10;
    assert(t < 10);
    reveal_with_fuel(decimal, 21);
}

/// Tells whether `c` is a digit.
pub open spec fn is_decimal_digit(c: char) -> bool {
    '0' <= c <= '9'
}

/// The time stamp of a moment in the years 0 to 9999 has the shape
/// `YYYY-MM-DD_HH-MM-SS`: nineteen characters, digits but for the four `-`
/// and the `_` in their places.
pub proof fn lemma_stamp_shape(t: LocalTime)
    requires
        t.in_range(),
        0 <= t.year <= 9999,
    ensures
        stamp_of(t).len() == 19,
        stamp_of(t)[4] == '-',
        stamp_of(t)[7] == '-',
        stamp_of(t)[10] == '_',
        stamp_of(t)[13] == '-',
        stamp_of(t)[16] == '-',
        forall|i: int|
            0 <= i < 19 && i != 4 && i != 7 && i != 10 && i != 13 && i != 16 ==> is_decimal_digit(
                #[trigger] stamp_of(t)[i],
            ),
{
    let year = zero_padded(t.year as nat, 4);
    let month = zero_padded(t.month as nat, 2);
    let day = zero_padded(t.day as nat, 2);
    let hour = zero_padded(t.hour as nat, 2);
    let minute = zero_padded(t.minute as nat, 2);
    let second = zero_padded(t.second as nat, 2);
    lemma_padded(t.year as nat, 4);
    lemma_padded(t.month as nat, 2);
    lemma_padded(t.day as nat, 2);
    lemma_padded(t.hour as nat, 2);
    lemma_padded(t.minute as nat, 2);
    lemma_padded(t.second as nat, 2);
    let stamp = stamp_of(t);
    assert forall|i: int|
        0 <= i < 19 && i != 4 && i != 7 && i != 10 && i != 13 && i != 16 implies is_decimal_digit(
        #[trigger] stamp[i],
    ) by {
        if i < 4 {
            assert(stamp[i] == year[i]);
        } else if i < 7 {
            assert(stamp[i] == month[i - 5]);
        } else if i < 10 {
            assert(stamp[i] == day[i - 8]);
        } else if i < 13 {
            assert(stamp[i] == hour[i - 11]);
        } else if i < 16 {
            assert(stamp[i] == minute[i - 14]);
        } else {
            assert(stamp[i] == second[i - 17]);
        }
    }
}

/// A number that fits the width is padded to exactly the width, in digits.
pub proof fn lemma_padded(n: nat, width: nat)
    requires
        (width == 2 && n < 100) || (width == 4 && n < 10000),
    ensures
        zero_padded(n, width).len() == width,
        forall|i: int| 0 <= i < width ==> is_decimal_digit(#[trigger] zero_padded(n, width)[i]),
{
    lemma_decimal_length(n);
}

} // verus!
