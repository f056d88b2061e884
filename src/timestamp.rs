use vstd::prelude::*;

verus! {

/// The ten decimal digits, in order.
pub open spec fn digit_chars() -> Seq<char> {
    seq!['0', '1', '2', '3', '4', '5', '6', '7', '8', '9']
}

pub open spec fn is_digit(c: char) -> bool {
    digit_chars().contains(c)
}

/// The decimal digits of `n`, most significant first, without leading zeros.
pub open spec fn decimal(n: nat) -> Seq<char>
    decreases n,
{
    if n < 10 {
        seq![digit_chars()[n as int]]
    } else {
        decimal(n / 10).push(digit_chars()[(n % 10) as int])
    }
}

/// The decimal digits of `n`, left-padded with zeros to at least `width` characters.
pub open spec fn padded(n: nat, width: nat) -> Seq<char> {
    let d = decimal(n);
    if d.len() < width {
        Seq::new((width - d.len()) as nat, |i: int| '0') + d
    } else {
        d
    }
}

/// A year as it appears in a backup name: four digits from 0 to 9999, and
/// outside that range a sign followed by at least four digits.
pub open spec fn year_text(y: int) -> Seq<char> {
    if 0 <= y <= 9999 {
        padded(y as nat, 4)
    } else if y > 9999 {
        seq!['+'] + padded(y as nat, 4)
    } else {
        seq!['-'] + padded((-y) as nat, 4)
    }
}

/// A local date and time of day, to the second.
#[derive(Clone, Copy, Debug, PartialEq, Eq)]
pub struct LocalTimestamp {
    pub year: i32,
    pub month: u32,
    pub day: u32,
    pub hour: u32,
    pub minute: u32,
    pub second: u32,
}

impl LocalTimestamp {
    /// The fields lie in the ranges of a calendar date and a time of day.
    pub open spec fn in_range(self) -> bool {
        &&& 1 <= self.month <= 12
        &&& 1 <= self.day <= 31
        &&& self.hour <= 23
        &&& self.minute <= 59
        &&& self.second <= 59
    }

    /// The stamp `YYYY-MM-DD_HH_MM_SS`.
    pub open spec fn text(self) -> Seq<char> {
        year_text(self.year as int) + seq!['-'] + padded(self.month as nat, 2) + seq!['-']
            + padded(self.day as nat, 2) + seq!['_'] + padded(self.hour as nat, 2) + seq!['_']
            + padded(self.minute as nat, 2) + seq!['_'] + padded(self.second as nat, 2)
    }
}

/// Appends the digit `d`.
fn append_digit(s: &mut String, d: u32)
    requires
        d < 10,
    ensures
        final(s)@ == old(s)@.push(digit_chars()[d as int]),
{
    let digits = "0123456789";
    proof {
        reveal_strlit("0123456789");
    }
    assert(digits@ =~= digit_chars());
    let one = digits.substring_char(d as usize, d as usize + 1);
    assert(one@ =~= seq![digit_chars()[d as int]]);
    s.append(one);
}

/// Appends the decimal digits of `n`.
pub(crate) fn append_decimal(s: &mut String, n: u32)
    ensures
        final(s)@ == old(s)@ + decimal(n as nat),
    decreases n,
{
    if n >= 10 {
        append_decimal(s, n / 10);
        append_digit(s, n % 10);
        assert(final(s)@ =~= old(s)@ + decimal(n as nat));
    } else {
        append_digit(s, n);
        assert(final(s)@ =~= old(s)@ + decimal(n as nat));
    }
}

/// The number of decimal digits of `n`.
fn decimal_len(n: u32) -> (r: usize)
    ensures
        r == decimal(n as nat).len(),
        r <= 10,
    decreases n,
{
    proof {
        lemma_decimal_len_bound(n as nat);
    }
    if n >= 10 {
        decimal_len(n / 10) + 1
    } else {
        1
    }
}

spec fn pow10(k: nat) -> nat
    decreases k,
{
    if k == 0 {
        1
    } else {
        10 * pow10((k - 1) as nat)
    }
}

proof fn lemma_decimal_len_below(n: nat, k: nat)
    requires
        1 <= k,
        n < pow10(k),
    ensures
        decimal(n).len() <= k,
    decreases n,
{
    if n >= 10 {
        let p = pow10((k - 1) as nat);
        if k == 1 {
            assert(pow10(1) == 10) by {
                reveal_with_fuel(pow10, 2);
            }
        } else {
            assert(n / 10 < p) by (nonlinear_arith)
                requires
                    n < 10 * p,
            ;
            lemma_decimal_len_below(n / 10, (k - 1) as nat);
        }
    }
}

proof fn lemma_decimal_len_bound(n: nat)
    requires
        n <= 0xffff_ffff,
    ensures
        decimal(n).len() <= 10,
        n < 10 ==> decimal(n).len() == 1,
        n < 100 ==> decimal(n).len() <= 2,
        n < 10000 ==> decimal(n).len() <= 4,
{
    assert(pow10(10) == 10_000_000_000) by {
        reveal_with_fuel(pow10, 11);
    }
    assert(pow10(4) == 10000) by {
        reveal_with_fuel(pow10, 5);
    }
    assert(pow10(2) == 100) by {
        reveal_with_fuel(pow10, 3);
    }
    lemma_decimal_len_below(n, 10);
    if n < 10000 {
        lemma_decimal_len_below(n, 4);
    }
    if n < 100 {
        lemma_decimal_len_below(n, 2);
    }
}

/// Appends `n` left-padded with zeros to at least `width` characters.
fn append_padded(s: &mut String, n: u32, width: usize)
    ensures
        final(s)@ == old(s)@ + padded(n as nat, width as nat),
{
    let len = decimal_len(n);
    let ghost start = s@;
    if len < width {
        let mut i: usize = len;
        while i < width
            invariant
                len <= i <= width,
                s@ == start + Seq::new((i - len) as nat, |k: int| '0'),
            decreases width - i,
        {
            append_digit(s, 0);
            assert(s@ =~= start + Seq::new((i + 1 - len) as nat, |k: int| '0'));
            i = i + 1;
        }
    }
    append_decimal(s, n);
    assert(s@ =~= start + padded(n as nat, width as nat));
}

impl LocalTimestamp {
    /// The stamp `YYYY-MM-DD_HH_MM_SS` of this date and time.
    pub fn to_text(&self) -> (r: String)
        ensures
            r@ == self.text(),
    {
        let mut s = String::new();
        if self.year > 9999 {
            s.append("+");
        } else if self.year < 0 {
            s.append("-");
        }
        let magnitude: u32 = if self.year < 0 {
            (0 - (self.year as i64)) as u32
        } else {
            self.year as u32
        };
        append_padded(&mut s, magnitude, 4);
        s.append("-");
        append_padded(&mut s, self.month, 2);
        s.append("-");
        append_padded(&mut s, self.day, 2);
        s.append("_");
        append_padded(&mut s, self.hour, 2);
        s.append("_");
        append_padded(&mut s, self.minute, 2);
        s.append("_");
        append_padded(&mut s, self.second, 2);
        proof {
            reveal_strlit("+");
            reveal_strlit("-");
            reveal_strlit("_");
        }
        assert(s@ =~= self.text());
        s
    }
}

/// Relies on chrono's conversion of `SystemTime::now()` into a local
/// `DateTime` (which accepts clock readings before 1970), read through
/// `Datelike` and `Timelike`,
/// whose documentation gives the month as 1 to 12, the day as 1 to 31, the
/// hour as 0 to 23, and the minute and second as 0 to 59.
#[verifier::external_body]
pub(crate) fn local_now() -> (r: LocalTimestamp)
    ensures
        r.in_range(),
{
    let now = chrono::DateTime::<chrono::Local>::from(std::time::SystemTime::now());
    LocalTimestamp {
        year: chrono::Datelike::year(&now),
        month: chrono::Datelike::month(&now),
        day: chrono::Datelike::day(&now),
        hour: chrono::Timelike::hour(&now),
        minute: chrono::Timelike::minute(&now),
        second: chrono::Timelike::second(&now),
    }
}

} // verus!

verus! {

proof fn lemma_decimal_digits(n: nat)
    ensures
        forall|i: int| 0 <= i < decimal(n).len() ==> is_digit(#[trigger] decimal(n)[i]),
    decreases n,
{
    if n >= 10 {
        lemma_decimal_digits(n / 10);
        let last = digit_chars()[(n % 10) as int];
        assert(is_digit(last));
        assert forall|i: int| 0 <= i < decimal(n).len() implies is_digit(#[trigger] decimal(n)[i]) by {
            if i < decimal(n / 10).len() {
                assert(decimal(n)[i] == decimal(n / 10)[i]);
            } else {
                assert(decimal(n)[i] == last);
            }
        }
    } else {
        assert(is_digit(digit_chars()[n as int]));
        assert(decimal(n) == seq![digit_chars()[n as int]]);
    }
}

/// A number below `10^width` fills exactly `width` digit positions once padded.
pub proof fn lemma_padded_shape(n: nat, width: nat)
    requires
        (width == 2 && n < 100) || (width == 4 && n < 10000),
    ensures
        padded(n, width).len() == width,
        forall|i: int| 0 <= i < width ==> is_digit(#[trigger] padded(n, width)[i]),
{
    lemma_decimal_len_bound(n);
    lemma_decimal_digits(n);
    assert(is_digit('0'));
}

} // verus!
