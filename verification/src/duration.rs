//! Lengths of time in a script.
use humantime::DurationError as HumantimeError;
use vstd::arithmetic::power2::{lemma2_to64, pow2};
use vstd::prelude::*;

use crate::script::TimeSpan;
use crate::text::{decimal_digits, same_text};

verus! {

/// Why a text is not a length of time. Places are bytes of the text.
#[derive(Clone, Copy, Debug, Eq, Hash, PartialEq, Structural)]
pub enum DurationError {
    /// A character that cannot be part of a length of time.
    InvalidCharacter(usize),
    /// No number where there should be one.
    NumberExpected(usize),
    /// A unit that does not exist, from `start` up to `end`, behind the number `value`.
    UnknownUnit { start: usize, end: usize, value: u64 },
    /// The length of time is too large.
    NumberOverflow,
    /// There is nothing.
    Empty,
}

impl DeepView for DurationError {
    type V = DurationError;

    open spec fn deep_view(&self) -> DurationError {
        *self
    }
}

/// What `humantime::parse_duration` makes of a text.
pub uninterp spec fn humantime_duration(text: Seq<char>) -> Result<TimeSpan, DurationError>;

/// A decimal digit.
pub open spec fn is_digit(c: char) -> bool {
    '0' <= c && c <= '9'
}

/// A letter that a unit of time is made of.
pub open spec fn is_unit_letter(c: char) -> bool {
    'a' <= c && c <= 'z'
}

/// Whether a length of time can hold the character.
pub open spec fn is_duration_char(c: char) -> bool {
    is_unit_letter(c) || is_digit(c) || c == ' '
}

/// The nanoseconds of 2^64 seconds, which no length of time can hold.
pub const TIME_LIMIT: u128 = 18_446_744_073_709_551_616_000_000_000;

/// 2^64, the smallest number that is too large.
pub const NUMBER_LIMIT: u128 = 18_446_744_073_709_551_616;

/// The nanoseconds of a unit of time.
pub open spec fn unit_nanoseconds(unit: Seq<char>) -> Option<nat> {
    if unit == "nanos"@ || unit == "nsec"@ || unit == "ns"@ {
        Some(1)
    } else if unit == "usec"@ || unit == "us"@ {
        Some(1_000)
    } else if unit == "millis"@ || unit == "msec"@ || unit == "ms"@ {
        Some(1_000_000)
    } else if unit == "seconds"@ || unit == "second"@ || unit == "secs"@ || unit == "sec"@ || unit
        == "s"@ {
        Some(1_000_000_000)
    } else if unit == "minutes"@ || unit == "minute"@ || unit == "min"@ || unit == "mins"@ || unit
        == "m"@ {
        Some(60_000_000_000)
    } else if unit == "hours"@ || unit == "hour"@ || unit == "hr"@ || unit == "hrs"@ || unit
        == "h"@ {
        Some(3_600_000_000_000)
    } else if unit == "days"@ || unit == "day"@ || unit == "d"@ {
        Some(86_400_000_000_000)
    } else if unit == "weeks"@ || unit == "week"@ || unit == "wk"@ || unit == "wks"@ || unit
        == "w"@ {
        Some(604_800_000_000_000)
    } else if unit == "months"@ || unit == "month"@ {
        Some(2_630_016_000_000_000)
    } else if unit == "years"@ || unit == "year"@ || unit == "yr"@ || unit == "yrs"@ || unit
        == "y"@ {
        Some(31_557_600_000_000_000)
    } else {
        None
    }
}

/// The smaller of two numbers.
pub open spec fn smaller(a: nat, b: nat) -> nat {
    if a < b {
        a
    } else {
        b
    }
}

/// How far the time of a text was added up.
#[verifier::ext_equal]
pub struct Sum {
    /// Nanoseconds so far, at most `TIME_LIMIT`
    pub total: nat,
    /// The number that waits for its unit, at most `NUMBER_LIMIT`
    pub number: Option<nat>,
    /// The letters behind the number
    pub unit: Seq<char>,
    /// The text is no length of time, what follows does not count
    pub stopped: bool,
}

impl Sum {
    /// Nothing so far.
    pub open spec fn zero() -> Sum {
        Sum { total: 0, number: None, unit: Seq::empty(), stopped: false }
    }

    /// After the end of a unit.
    pub open spec fn unit_end(self) -> Sum {
        if self.stopped || self.unit.len() == 0 {
            self
        } else {
            match (unit_nanoseconds(self.unit), self.number) {
                (Some(unit), Some(number)) => Sum {
                    total: smaller(self.total + number * unit, TIME_LIMIT as nat),
                    number: None,
                    unit: Seq::empty(),
                    stopped: false,
                },
                _ => Sum { stopped: true, ..self },
            }
        }
    }

    /// After one more character. Spaces end a unit, but not a number.
    pub open spec fn next(self, c: char) -> Sum {
        if self.stopped {
            self
        } else if is_digit(c) {
            let digit = (c as u32 - '0' as u32) as nat;
            let before = self.unit_end();
            if before.stopped {
                before
            } else {
                Sum {
                    number: Some(
                        match before.number {
                            Some(n) => smaller(n * 10 + digit, NUMBER_LIMIT as nat),
                            None => digit,
                        },
                    ),
                    ..before
                }
            }
        } else if is_unit_letter(c) {
            if self.number is Some {
                Sum { unit: self.unit.push(c), ..self }
            } else {
                Sum { stopped: true, ..self }
            }
        } else {
            self.unit_end()
        }
    }
}

/// The time of the start of a text.
pub open spec fn added_up(text: Seq<char>) -> Sum
    decreases text.len(),
{
    if text.len() == 0 {
        Sum::zero()
    } else {
        added_up(text.drop_last()).next(text.last())
    }
}

/// The nanoseconds that the time of a text adds up to, as far as it is one.
pub open spec fn total_time(text: Seq<char>) -> nat {
    added_up(text).unit_end().total
}

/// Whether the time of a text adds up to less than 2^64 seconds, as far as it is one.
pub open spec fn in_range(text: Seq<char>) -> bool {
    total_time(text) < TIME_LIMIT
}

proof fn lemma_number_added(text: Seq<char>, n: nat)
    requires
        !added_up(text).unit_end().stopped,
        added_up(text).unit_end().number is None,
        n < NUMBER_LIMIT,
    ensures
        added_up(text + decimal_digits(n)) == (Sum {
            total: total_time(text),
            number: Some(n),
            unit: Seq::empty(),
            stopped: false,
        }),
    decreases n,
{
    let digits = decimal_digits(n);
    let before = text + digits.drop_last();
    let last = digits.last();
    assert((text + digits).drop_last() =~= before);
    assert((text + digits).last() == last);
    assert(last as u32 - '0' as u32 == n % 10 && is_digit(last));
    if n < 10 {
        assert(before =~= text);
        let end = added_up(text).unit_end();
        assert(end.unit.len() == 0);
        assert(added_up(text + digits) =~= Sum { number: Some(n), ..end });
        assert(end.unit =~= Seq::empty());
    } else {
        lemma_number_added(text, n / 10);
        assert(digits.drop_last() =~= decimal_digits(n / 10));
        assert(n / 10 * 10 + n % 10 == n);
    }
}

proof fn lemma_unit_added(text: Seq<char>, unit: Seq<char>, k: int)
    requires
        0 <= k <= unit.len(),
        !added_up(text).stopped,
        added_up(text).number is Some,
        added_up(text).unit.len() == 0,
        forall|i: int| 0 <= i < unit.len() ==> is_unit_letter(#[trigger] unit[i]),
    ensures
        added_up(text + unit.take(k)) == (Sum { unit: unit.take(k), ..added_up(text) }),
    decreases k,
{
    if k == 0 {
        assert(text + unit.take(0) =~= text);
        assert(unit.take(0) =~= added_up(text).unit);
    } else {
        lemma_unit_added(text, unit, k - 1);
        let all = text + unit.take(k);
        assert(all.drop_last() =~= text + unit.take(k - 1));
        assert(all.last() == unit[k - 1]);
        assert(unit.take(k - 1).push(unit[k - 1]) =~= unit.take(k));
    }
}

/// A number with a unit behind it adds that many units to the time before it, as far as the time can
/// be held. So the time of a text is that of its parts together.
pub proof fn lemma_time_added(text: Seq<char>, n: nat, unit: Seq<char>, nanoseconds: nat)
    requires
        !added_up(text).unit_end().stopped,
        added_up(text).unit_end().number is None,
        n < NUMBER_LIMIT,
        unit_nanoseconds(unit) == Some(nanoseconds),
        unit.len() > 0,
        forall|i: int| 0 <= i < unit.len() ==> is_unit_letter(#[trigger] unit[i]),
        total_time(text) + n * nanoseconds <= TIME_LIMIT,
    ensures
        ({
            let longer = text + decimal_digits(n) + unit;
            &&& total_time(longer) == total_time(text) + n * nanoseconds
            &&& !added_up(longer).unit_end().stopped
            &&& added_up(longer).unit_end().number is None
        }),
{
    let start = text + decimal_digits(n);
    lemma_number_added(text, n);
    lemma_unit_added(start, unit, unit.len() as int);
    assert(unit.take(unit.len() as int) =~= unit);
}

/// Numbers and seconds have 64 bits.
pub proof fn lemma_limits()
    ensures
        NUMBER_LIMIT == pow2(64),
        TIME_LIMIT == pow2(64) * 1_000_000_000,
{
    lemma2_to64();
}

/// A space between parts adds no time, and neither does a text without any part.
pub proof fn lemma_space_added(text: Seq<char>)
    ensures
        total_time(Seq::empty()) == 0,
        !added_up(text).stopped ==> total_time(text.push(' ')) == total_time(text),
{
    assert(text.push(' ').drop_last() =~= text);
    assert(added_up(Seq::empty()) == Sum::zero());
}

/// The nanoseconds of a length of time.
pub open spec fn time_nanoseconds(time: TimeSpan) -> nat {
    (time.seconds * 1_000_000_000 + time.nanoseconds) as nat
}

/// The length of time that a text stands for.
pub open spec fn duration(text: Seq<char>) -> Result<TimeSpan, DurationError> {
    if in_range(text) {
        humantime_duration(text)
    } else {
        Err(DurationError::NumberOverflow)
    }
}

/// `humantime::parse_duration`. Its result is a function of the text. It adds up the time from
/// the start of the text and fails with an overflow where the time reaches 2^64 seconds, except
/// that it panics where it gets there by a whole second of nanoseconds. So the time must be in
/// range. If it succeeds, it gives what the time adds up to, less than a second of it as
/// nanoseconds. The unit of an `UnknownUnit` error is the part of the text from `start` up to
/// `end`.
#[verifier::external_body]
fn humantime_parse(text: &str) -> (duration: Result<TimeSpan, DurationError>)
    requires
        forall|i: int| 0 <= i < text@.len() ==> is_duration_char(#[trigger] text@[i]),
        in_range(text@),
    ensures
        duration == humantime_duration(text@),
        duration matches Ok(time) ==> time.nanoseconds < 1_000_000_000 && time_nanoseconds(time)
            == total_time(text@),
{
    humantime::parse_duration(text)
        .map(|d| TimeSpan { seconds: d.as_secs(), nanoseconds: d.subsec_nanos() })
        .map_err(|e| match e {
            HumantimeError::InvalidCharacter(at) => DurationError::InvalidCharacter(at),
            HumantimeError::NumberExpected(at) => DurationError::NumberExpected(at),
            HumantimeError::UnknownUnit { start, end, value, .. } => {
                DurationError::UnknownUnit { start, end, value }
            },
            HumantimeError::NumberOverflow => DurationError::NumberOverflow,
            HumantimeError::Empty => DurationError::Empty,
        })
}

/// The value of a decimal digit.
fn digit_value(c: char) -> (value: u128)
    requires
        is_digit(c),
    ensures
        value == c as u32 - '0' as u32,
        value < 10,
{
    (c as u32 - '0' as u32) as u128
}

/// Whether a unit is one of five words.
fn is_one_of(unit: &String, a: &str, b: &str, c: &str, d: &str, e: &str) -> (found: bool)
    ensures
        found == (unit@ == a@ || unit@ == b@ || unit@ == c@ || unit@ == d@ || unit@ == e@),
{
    let unit = unit.as_str();
    same_text(unit, a) || same_text(unit, b) || same_text(unit, c) || same_text(unit, d)
        || same_text(unit, e)
}

/// The nanoseconds of a unit of time.
fn get_unit(unit: &String) -> (nanoseconds: Option<u128>)
    ensures
        match nanoseconds {
            Some(n) => unit_nanoseconds(unit@) == Some(n as nat) && n <= 31_557_600_000_000_000,
            None => unit_nanoseconds(unit@) is None,
        },
{
    if is_one_of(unit, "nanos", "nsec", "ns", "ns", "ns") {
        Some(1)
    } else if is_one_of(unit, "usec", "us", "us", "us", "us") {
        Some(1_000)
    } else if is_one_of(unit, "millis", "msec", "ms", "ms", "ms") {
        Some(1_000_000)
    } else if is_one_of(unit, "seconds", "second", "secs", "sec", "s") {
        Some(1_000_000_000)
    } else if is_one_of(unit, "minutes", "minute", "min", "mins", "m") {
        Some(60_000_000_000)
    } else if is_one_of(unit, "hours", "hour", "hr", "hrs", "h") {
        Some(3_600_000_000_000)
    } else if is_one_of(unit, "days", "day", "d", "d", "d") {
        Some(86_400_000_000_000)
    } else if is_one_of(unit, "weeks", "week", "wk", "wks", "w") {
        Some(604_800_000_000_000)
    } else if is_one_of(unit, "months", "month", "month", "month", "month") {
        Some(2_630_016_000_000_000)
    } else if is_one_of(unit, "years", "year", "yr", "yrs", "y") {
        Some(31_557_600_000_000_000)
    } else {
        None
    }
}

/// How far the time of a text was added up.
struct SumState {
    total: u128,
    number: Option<u128>,
    unit: String,
    stopped: bool,
}

impl SumState {
    spec fn deep(&self) -> Sum {
        Sum {
            total: self.total as nat,
            number: match self.number {
                Some(n) => Some(n as nat),
                None => None,
            },
            unit: self.unit@,
            stopped: self.stopped,
        }
    }

    spec fn wf(&self) -> bool {
        &&& self.total <= TIME_LIMIT
        &&& self.number matches Some(n) ==> n <= NUMBER_LIMIT
    }

    fn unit_end(&mut self)
        requires
            old(self).wf(),
        ensures
            final(self).wf(),
            final(self).deep() == old(self).deep().unit_end(),
    {
        if self.stopped || self.unit.unicode_len() == 0 {
            return;
        }
        match (get_unit(&self.unit), self.number) {
            (Some(unit), Some(number)) => {
                assert(0 <= number * unit <= 18_446_744_073_709_551_616
                    * 31_557_600_000_000_000) by (nonlinear_arith)
                    requires
                        0 <= number <= 18_446_744_073_709_551_616,
                        0 <= unit <= 31_557_600_000_000_000,
                ;
                let sum: u128 = self.total + number * unit;
                self.total = if sum < TIME_LIMIT {
                    sum
                } else {
                    TIME_LIMIT
                };
                self.number = None;
                self.unit = String::new();
                assert(self.deep() =~= old(self).deep().unit_end());
            },
            _ => {
                self.stopped = true;
            },
        }
    }

    fn next(&mut self, c: char)
        requires
            old(self).wf(),
            is_duration_char(c),
        ensures
            final(self).wf(),
            final(self).deep() == old(self).deep().next(c),
    {
        if self.stopped {
            return;
        }
        if '0' <= c && c <= '9' {
            let digit: u128 = digit_value(c);
            self.unit_end();
            if self.stopped {
                return;
            }
            let number: u128 = match self.number {
                Some(n) => if n * 10 + digit < NUMBER_LIMIT {
                    n * 10 + digit
                } else {
                    NUMBER_LIMIT
                },
                None => digit,
            };
            self.number = Some(number);
        } else if c == ' ' {
            self.unit_end();
        } else {
            match self.number {
                Some(_) => {
                    self.unit.push(c);
                },
                None => {
                    self.stopped = true;
                },
            }
        }
    }
}

/// Whether the time of a text is in range.
fn check_range(text: &str) -> (ok: bool)
    requires
        forall|i: int| 0 <= i < text@.len() ==> is_duration_char(#[trigger] text@[i]),
    ensures
        ok == in_range(text@),
{
    let n: usize = text.unicode_len();
    let mut sum = SumState { total: 0, number: None, unit: String::new(), stopped: false };
    let mut i: usize = 0;
    assert(sum.deep() =~= added_up(text@.take(0)));
    while i < n
        invariant
            i <= n,
            n == text@.len(),
            forall|j: int| 0 <= j < n ==> is_duration_char(#[trigger] text@[j]),
            sum.wf(),
            sum.deep() == added_up(text@.take(i as int)),
        decreases n - i,
    {
        assert(text@.take(i + 1).drop_last() =~= text@.take(i as int));
        sum.next(text.get_char(i));
        i += 1;
    }
    assert(text@.take(n as int) =~= text@);
    sum.unit_end();
    sum.total < TIME_LIMIT
}

/// Reads a length of time, made of numbers and units like `5s 200ms`.
pub fn parse_duration(text: &str) -> (result: Result<TimeSpan, DurationError>)
    requires
        forall|i: int| 0 <= i < text@.len() ==> is_duration_char(#[trigger] text@[i]),
    ensures
        result == duration(text@),
        result matches Ok(time) ==> time.nanoseconds < 1_000_000_000 && time_nanoseconds(time)
            == total_time(text@),
{
    if check_range(text) {
        humantime_parse(text)
    } else {
        Err(DurationError::NumberOverflow)
    }
}

/// What `humantime::format_duration` shows of a length of time.
pub uninterp spec fn humantime_text(seconds: u64, nanoseconds: u32) -> Seq<char>;

/// `humantime::format_duration`. Its result is a function of the length of time.
#[verifier::external_body]
pub(crate) fn format_duration(time: TimeSpan) -> (text: String)
    requires
        time.nanoseconds < 1_000_000_000,
    ensures
        text@ == humantime_text(time.seconds, time.nanoseconds),
{
    humantime::format_duration(std::time::Duration::new(time.seconds, time.nanoseconds)).to_string()
}

} // verus!
