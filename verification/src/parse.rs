//! Spans of time as text, such as `1h 30min`.
use humantime::DurationError;
use vstd::prelude::*;

use crate::duration::{Duration, MAX_NANOS, NANOS_PER_SEC};

verus! {

/// Why a text is no span of time. Places in the text are counted in bytes.
#[derive(Clone, Debug, PartialEq, Eq)]
pub enum InvalidDuration {
    /// There is a character at that place that no span of time has.
    InvalidCharacter(usize),
    /// There is something else at that place where a number has to begin.
    NumberExpected(usize),
    /// What stands between two places, behind that value, is no unit of time.
    UnknownUnit { start: usize, end: usize, unit: String, value: u64 },
    /// The span is too long, or needs parts of a nanosecond.
    NumberOverflow,
    /// There is nothing in the text.
    Empty,
}

/// The view of `InvalidDuration`.
pub enum Fault {
    InvalidCharacter(usize),
    NumberExpected(usize),
    UnknownUnit { start: usize, end: usize, unit: Seq<char>, value: u64 },
    NumberOverflow,
    Empty,
}

impl View for InvalidDuration {
    type V = Fault;

    open spec fn view(&self) -> Fault {
        match *self {
            InvalidDuration::InvalidCharacter(at) => Fault::InvalidCharacter(at),
            InvalidDuration::NumberExpected(at) => Fault::NumberExpected(at),
            InvalidDuration::UnknownUnit { start, end, unit, value } => Fault::UnknownUnit {
                start,
                end,
                unit: unit@,
                value,
            },
            InvalidDuration::NumberOverflow => Fault::NumberOverflow,
            InvalidDuration::Empty => Fault::Empty,
        }
    }
}

/// The view of a parsed text: the length in nanoseconds, or what is wrong.
pub open spec fn outcome(parsed: Result<Duration, InvalidDuration>) -> Result<nat, Fault> {
    match parsed {
        Ok(span) => Ok(span@),
        Err(error) => Err(error@),
    }
}

/// What `humantime::parse_duration` makes of a text.
pub uninterp spec fn parsed_duration(text: Seq<char>) -> Result<nat, Fault>;

/// Whether `c` can be part of a unit of time.
pub open spec fn in_unit(c: char) -> bool {
    'a' <= c <= 'z' || 'A' <= c <= 'Z' || c == '\u{b5}'
}

/// Whether `c` is a digit.
pub open spec fn is_digit(c: char) -> bool {
    '0' <= c <= '9'
}

/// Whether a new term begins at place `i`: a unit of time ends there because a
/// digit follows, or one character before because something else follows.
pub open spec fn begins_term(text: Seq<char>, i: int) -> bool {
    &&& 1 <= i < text.len()
    &&& {
        ||| in_unit(text[i - 1]) && is_digit(text[i])
        ||| i >= 2 && in_unit(text[i - 2]) && !in_unit(text[i - 1]) && !is_digit(text[i - 1])
    }
}

/// Where the last term of `text` begins.
pub open spec fn last_term(text: Seq<char>) -> nat
    decreases text.len(),
{
    if text.len() == 0 {
        0
    } else if begins_term(text, text.len() - 1) {
        (text.len() - 1) as nat
    } else {
        last_term(text.drop_last())
    }
}

/// Whether a term can be added to what stands before it, by what each of the two
/// is parsed to: the sum is no longer than any span. A term that is itself an
/// overflow may be one only after its whole number was added, so there has to be
/// room for that.
pub open spec fn sum_fits(so_far: Result<nat, Fault>, term: Result<nat, Fault>) -> bool {
    match (so_far, term) {
        (Ok(so_far), Ok(term)) => so_far + term <= MAX_NANOS,
        (Ok(so_far), Err(Fault::NumberOverflow)) => so_far < u64::MAX * NANOS_PER_SEC,
        _ => true,
    }
}

/// Whether the terms of `text`, added one after the other as far as they can be
/// parsed, never come to more than the longest span.
pub open spec fn fits(text: Seq<char>) -> bool
    decreases text.len(),
    via last_term_is_within
{
    let last = last_term(text) as int;
    last == 0 || fits(text.take(last)) && sum_fits(
        parsed_duration(text.take(last)),
        parsed_duration(text.skip(last)),
    )
}

#[via_fn]
proof fn last_term_is_within(text: Seq<char>) {
    lemma_last_term(text);
}

proof fn lemma_last_term(text: Seq<char>)
    ensures
        last_term(text) > 0 ==> begins_term(text, last_term(text) as int),
        last_term(text) <= text.len(),
        forall|i: int| last_term(text) < i ==> !#[trigger] begins_term(text, i),
    decreases text.len(),
{
    if text.len() > 0 && !begins_term(text, text.len() - 1) {
        let shorter = text.drop_last();
        lemma_last_term(shorter);
        assert forall|i: int| last_term(text) < i implies !#[trigger] begins_term(text, i) by {
            assert(begins_term(shorter, i) == (i < shorter.len() && begins_term(text, i)));
        }
    }
}

proof fn lemma_no_further_term(text: Seq<char>)
    ensures
        last_term(text.skip(last_term(text) as int)) == 0,
{
    lemma_last_term(text);
    let last = last_term(text) as int;
    let term = text.skip(last);
    lemma_last_term(term);
    if last_term(term) > 0 {
        assert(begins_term(text, last + last_term(term)));
    }
}

/// Calls `humantime::parse_duration`, takes the seconds and nanoseconds of the span
/// that it returns, and tells its errors apart. Claimed: the outcome depends on the
/// text alone and is what `parsed_duration` names.
///
/// The function adds up its terms in turn, in whole seconds and nanoseconds, with
/// checked additions; but it lets the nanoseconds come to exactly one second, and
/// where the seconds are `u64::MAX` by then it panics. That sum is longer than any
/// span, so it cannot come up where the terms fit. It cannot come up in a single
/// term either. There so many seconds take a unit of a second or more, of which
/// only the fraction of a minute gives a whole second's worth of nanoseconds; and
/// `u64::MAX` seconds are no whole number of minutes.
#[verifier::external_body]
fn humantime_duration(text: &str) -> (parsed: Result<Duration, InvalidDuration>)
    requires
        fits(text@),
    ensures
        outcome(parsed) == parsed_duration(text@),
{
    match humantime::parse_duration(text) {
        Ok(span) => Ok(Duration::new(span.as_secs(), span.subsec_nanos())),
        Err(DurationError::InvalidCharacter(at)) => Err(InvalidDuration::InvalidCharacter(at)),
        Err(DurationError::NumberExpected(at)) => Err(InvalidDuration::NumberExpected(at)),
        Err(DurationError::UnknownUnit { start, end, unit, value }) => {
            Err(InvalidDuration::UnknownUnit { start, end, unit, value })
        },
        Err(DurationError::NumberOverflow) => Err(InvalidDuration::NumberOverflow),
        Err(DurationError::Empty) => Err(InvalidDuration::Empty),
    }
}

/// Whether a term can be added to what stands before it.
pub fn can_add(
    so_far: &Result<Duration, InvalidDuration>,
    term: &Result<Duration, InvalidDuration>,
) -> (holds: bool)
    ensures
        holds == sum_fits(outcome(*so_far), outcome(*term)),
{
    match (so_far, term) {
        (Ok(so_far), Ok(term)) => so_far.checked_add(*term).is_some(),
        (Ok(so_far), Err(InvalidDuration::NumberOverflow)) => {
            !so_far.at_least(Duration::from_secs(u64::MAX))
        },
        _ => true,
    }
}

fn unit_char(c: char) -> (holds: bool)
    ensures
        holds == in_unit(c),
{
    ('a' <= c && c <= 'z') || ('A' <= c && c <= 'Z') || c == '\u{b5}'
}

fn digit_char(c: char) -> (holds: bool)
    ensures
        holds == is_digit(c),
{
    '0' <= c && c <= '9'
}

fn term_at(text: &str, i: usize) -> (holds: bool)
    requires
        1 <= i < text@.len(),
    ensures
        holds == begins_term(text@, i as int),
{
    let before: char = text.get_char(i - 1);
    if unit_char(before) {
        digit_char(text.get_char(i))
    } else {
        i >= 2 && unit_char(text.get_char(i - 2)) && !digit_char(before)
    }
}

fn fits_up_to(text: &str, start: usize, end: usize) -> (holds: bool)
    requires
        end <= text@.len(),
        start == last_term(text@.take(end as int)),
        fits(text@.take(start as int)),
    ensures
        holds == fits(text@.take(end as int)),
{
    let ghost whole = text@.take(end as int);
    proof {
        lemma_last_term(whole);
        lemma_no_further_term(whole);
        assert(whole.take(start as int) =~= text@.take(start as int));
        assert(whole.skip(start as int) =~= text@.subrange(start as int, end as int));
        assert(text@.subrange(0, start as int) =~= text@.take(start as int));
    }
    if start == 0 {
        return true;
    }
    let so_far = humantime_duration(text.substring_char(0, start));
    let term = humantime_duration(text.substring_char(start, end));
    can_add(&so_far, &term)
}

fn adds_up(text: &str) -> (holds: bool)
    ensures
        holds == fits(text@),
{
    let len: usize = text.unicode_len();
    let mut start: usize = 0;
    let mut i: usize = 0;
    while i < len
        invariant
            len == text@.len(),
            i <= len,
            start == last_term(text@.take(i as int)),
            fits(text@.take(start as int)),
        decreases len - i,
    {
        let ghost next = text@.take(i + 1);
        assert(next.drop_last() =~= text@.take(i as int));
        assert(begins_term(next, i as int) == begins_term(text@, i as int));
        if i >= 1 && term_at(text, i) {
            if !fits_up_to(text, start, i) {
                proof {
                    if fits(text@) {
                        law_earlier_terms_fit(text@, i as int);
                    }
                }
                return false;
            }
            start = i;
        }
        i += 1;
    }
    assert(text@.take(len as int) =~= text@);
    fits_up_to(text, start, len)
}

/// The span of time that `text` writes out, such as `1h 30min`. Terms that add up
/// to more than the longest span are an overflow.
pub fn parse_duration(text: &str) -> (span: Result<Duration, InvalidDuration>)
    ensures
        outcome(span) == (if fits(text@) {
            parsed_duration(text@)
        } else {
            Err::<nat, Fault>(Fault::NumberOverflow)
        }),
{
    if adds_up(text) {
        humantime_duration(text)
    } else {
        Err(InvalidDuration::NumberOverflow)
    }
}

/// A text with a single term is always left to the parser.
pub proof fn law_single_term_fits(text: Seq<char>)
    requires
        forall|i: int| !#[trigger] begins_term(text, i),
    ensures
        fits(text),
{
    lemma_last_term(text);
}

/// If a text adds up, so does the text before any of its terms.
pub proof fn law_earlier_terms_fit(text: Seq<char>, i: int)
    requires
        begins_term(text, i),
        fits(text),
    ensures
        fits(text.take(i)),
    decreases text.len(),
{
    lemma_last_term(text);
    let last = last_term(text) as int;
    if i < last {
        let before = text.take(last);
        assert(begins_term(before, i));
        law_earlier_terms_fit(before, i);
        assert(before.take(i) =~= text.take(i));
    }
}

/// A term can be added exactly where the sum is a span; and one that is an overflow
/// itself exactly where not even its nanoseconds could make the seconds overflow.
/// Where either of the two is faulty in another way there is nothing to add.
pub proof fn law_sum_fits_exactly_when(so_far: Result<nat, Fault>, term: Result<nat, Fault>)
    ensures
        sum_fits(so_far, term) <==> !(so_far matches Ok(a) && match term {
            Ok(b) => a + b > 18_446_744_073_709_551_615_999_999_999,
            Err(fault) => fault is NumberOverflow && a >= 18_446_744_073_709_551_615_000_000_000,
        }),
{
}

/// A text is refused as too long only on account of a place in it up to where it is a
/// span of time, and of what follows there, which is a span that makes the sum too
/// long or is too long itself.
pub proof fn law_refused_only_for_its_length(text: Seq<char>)
    requires
        !fits(text),
    ensures
        exists|i: int, j: int|
            {
                &&& 0 < i < j <= text.len()
                &&& #[trigger] parsed_duration(text.take(i)) is Ok
                &&& match #[trigger] parsed_duration(text.subrange(i, j)) {
                    Ok(more) => parsed_duration(text.take(i))->Ok_0 + more
                        > 18_446_744_073_709_551_615_999_999_999,
                    Err(fault) => fault is NumberOverflow && parsed_duration(text.take(i))->Ok_0
                        >= 18_446_744_073_709_551_615_000_000_000,
                }
            },
    decreases text.len(),
{
    lemma_last_term(text);
    let last = last_term(text) as int;
    let before = text.take(last);
    if fits(before) {
        law_sum_fits_exactly_when(parsed_duration(before), parsed_duration(text.skip(last)));
        assert(text.skip(last) =~= text.subrange(last, text.len() as int));
        assert(parsed_duration(text.take(last)) is Ok);
    } else {
        law_refused_only_for_its_length(before);
        let (i, j) = choose|i: int, j: int|
            {
                &&& 0 < i < j <= before.len()
                &&& #[trigger] parsed_duration(before.take(i)) is Ok
                &&& match #[trigger] parsed_duration(before.subrange(i, j)) {
                    Ok(more) => parsed_duration(before.take(i))->Ok_0 + more
                        > 18_446_744_073_709_551_615_999_999_999,
                    Err(fault) => fault is NumberOverflow && parsed_duration(before.take(i))->Ok_0
                        >= 18_446_744_073_709_551_615_000_000_000,
                }
            };
        assert(before.take(i) =~= text.take(i));
        assert(before.subrange(i, j) =~= text.subrange(i, j));
        assert(parsed_duration(text.take(i)) is Ok);
    }
}

/// A number and its unit, written right behind a unit or one character after it, are
/// a term of their own: a text that ends in one fits exactly where what stands before
/// it does and the term can be added.
pub proof fn law_last_number_is_a_term(text: Seq<char>, i: int, unit: int)
    requires
        1 <= i < unit <= text.len(),
        forall|k: int| i <= k < unit ==> '0' <= #[trigger] text[k] <= '9',
        forall|k: int|
            unit <= k < text.len() ==> 'a' <= #[trigger] text[k] <= 'z' || 'A' <= text[k] <= 'Z',
        ('a' <= text[i - 1] <= 'z' || 'A' <= text[i - 1] <= 'Z') || (i >= 2 && text[i - 1] == ' '
            && ('a' <= text[i - 2] <= 'z' || 'A' <= text[i - 2] <= 'Z')),
    ensures
        fits(text) <==> fits(text.take(i)) && sum_fits(
            parsed_duration(text.take(i)),
            parsed_duration(text.skip(i)),
        ),
{
    lemma_last_term(text);
    let last = last_term(text) as int;
    assert(begins_term(text, i));
    if last > i {
        assert(begins_term(text, last));
        if last == i + 1 {
            assert('0' <= text[i] <= '9');
        } else {
            let x = text[last - 2];
            let y = text[last - 1];
            assert(last - 2 < unit ==> '0' <= x <= '9');
            assert(last - 1 >= unit ==> in_unit(y));
        }
    }
}

/// The outcome of parsing is the length of the span, or the fault with the place that
/// it names.
pub proof fn law_outcome_says_what_was_found(
    span: Duration,
    error: InvalidDuration,
    at: usize,
    unit: String,
    end: usize,
    value: u64,
)
    ensures
        outcome(Ok(span)) == Ok::<nat, Fault>(span@),
        outcome(Err(error)) == Err::<nat, Fault>(error@),
        error@ is Empty <==> error is Empty,
        error@ is NumberOverflow <==> error is NumberOverflow,
        error@ == Fault::InvalidCharacter(at) <==> error == InvalidDuration::InvalidCharacter(at),
        error@ == Fault::NumberExpected(at) <==> error == InvalidDuration::NumberExpected(at),
        (InvalidDuration::UnknownUnit { start: at, end, unit, value })@ == (Fault::UnknownUnit {
            start: at,
            end,
            unit: unit@,
            value,
        }),
{
}

} // verus!
