//! The range of a listing, and how it is read from request parameters.

use crate::error::{Error, ErrorView, PaginationField};
use crate::table::{lookup, Entries, Table};
use vstd::prelude::*;

verus! {

/// Whether `c` is one of the ten decimal digits.
pub open spec fn is_digit(c: char) -> bool {
    '0' <= c && c <= '9'
}

/// The number a decimal digit stands for.
pub open spec fn digit_value(c: char) -> nat {
    (c as u32 - '0' as u32) as nat
}

/// Whether `s` holds decimal digits only.
pub open spec fn all_digits(s: Seq<char>) -> bool {
    forall|i: int| 0 <= i < s.len() ==> is_digit(#[trigger] s[i])
}

/// The number that the digits `s` write in base ten; zero for no digits.
pub open spec fn decimal(s: Seq<char>) -> nat
    decreases s.len(),
{
    if s.len() == 0 {
        0
    } else {
        decimal(s.drop_last()) * 10 + digit_value(s.last())
    }
}

/// `s` without the plus sign it may begin with.
pub open spec fn unsigned_part(s: Seq<char>) -> Seq<char> {
    if s.len() > 0 && s[0] == '+' {
        s.skip(1)
    } else {
        s
    }
}

/// The position that `s` writes: an optional plus sign, then one decimal digit or more,
/// and nothing else; the number must fit in `usize`.
pub open spec fn index_of_text(s: Seq<char>) -> Option<usize> {
    let digits = unsigned_part(s);
    if digits.len() > 0 && all_digits(digits) && decimal(digits) <= usize::MAX {
        Some(decimal(digits) as usize)
    } else {
        None
    }
}

/// A longer run of digits writes no smaller a number than its beginning does.
proof fn lemma_decimal_grows(s: Seq<char>, n: int)
    requires
        0 <= n <= s.len(),
    ensures
        decimal(s.take(n)) <= decimal(s),
    decreases s.len(),
{
    if n == s.len() {
        assert(s.take(n) == s);
    } else {
        lemma_decimal_grows(s.drop_last(), n);
        assert(s.drop_last().take(n) == s.take(n));
    }
}

/// Reads a position from `text`: an optional plus sign, then decimal digits. Anything else
/// in the text, no digit at all, or a number too large for `usize` gives `None`.
pub fn parse_index(text: &str) -> (parsed: Option<usize>)
    ensures
        parsed == index_of_text(text@),
{
    let ghost digits = unsigned_part(text@);
    let ghost sign: int = text@.len() - digits.len();
    let mut value: usize = 0;
    let mut any_digit = false;
    let mut at_start = true;
    for c in it: text.chars()
        invariant
            it.seq() == text@,
            digits == unsigned_part(text@),
            sign == text@.len() - digits.len(),
            at_start == (it.index() == 0),
            any_digit == (it.index() > sign),
            !any_digit ==> value == 0,
            any_digit ==> all_digits(digits.take(it.index() - sign)) && value == decimal(
                digits.take(it.index() - sign),
            ),
    {
        let ghost read = it.index() - sign;
        if at_start && c == '+' {
            at_start = false;
        } else if c >= '0' && c <= '9' {
            at_start = false;
            let digit: usize = (c as u32 - '0' as u32) as usize;
            proof {
                assert(decimal(digits.take(read)) == value);
                assert(digits.take(read + 1).drop_last() == digits.take(read));
                lemma_decimal_grows(digits, read + 1);
            }
            let shifted: usize = match value.checked_mul(10) {
                Some(shifted) => shifted,
                None => {
                    return None;
                },
            };
            value = match shifted.checked_add(digit) {
                Some(sum) => sum,
                None => {
                    return None;
                },
            };
            any_digit = true;
        } else {
            assert(digits[read] == c);
            return None;
        }
    }
    assert(digits.take(digits.len() as int) == digits);
    if any_digit {
        Some(value)
    } else {
        None
    }
}

/// A range of positions in a listing, from `start` up to but not including `end`.
/// It never starts behind its end.
#[derive(Debug)]
pub struct Pagination {
    start: usize,
    end: usize,
}

/// A [`Pagination`] as a plain mathematical value.
pub struct PaginationView {
    pub start: int,
    pub end: int,
}

impl View for Pagination {
    type V = PaginationView;

    closed spec fn view(&self) -> PaginationView {
        PaginationView { start: self.start as int, end: self.end as int }
    }
}

impl Pagination {
    #[verifier::type_invariant]
    spec fn ordered(self) -> bool {
        self.start <= self.end
    }

    /// The first position of the range.
    pub fn start(&self) -> (start: usize)
        ensures
            start == self@.start,
            self@.start <= self@.end,
    {
        proof {
            use_type_invariant(self);
        }
        self.start
    }

    /// The position behind the last one of the range.
    pub fn end(&self) -> (end: usize)
        ensures
            end == self@.end,
            self@.start <= self@.end,
    {
        proof {
            use_type_invariant(self);
        }
        self.end
    }
}

/// The range that the parameters ask for in a listing of `max_len` items, or the reason
/// why they ask for none. The parameters `start` and `end` must both be there; each must
/// write a position, `start` being looked at first; the range must not start behind its
/// end, nor end behind the listing.
pub open spec fn resolved(params: Entries<Seq<char>>, max_len: int) -> Result<
    PaginationView,
    ErrorView,
> {
    let start = lookup(params, "start"@);
    let end = lookup(params, "end"@);
    if start is None || end is None {
        Err(ErrorView::MissingParameters)
    } else if index_of_text(start->0) is None {
        Err(ErrorView::ParseError(start->0, PaginationField::Start))
    } else if index_of_text(end->0) is None {
        Err(ErrorView::ParseError(end->0, PaginationField::End))
    } else if index_of_text(start->0)->0 > index_of_text(end->0)->0 {
        Err(ErrorView::NonProcessable)
    } else if index_of_text(end->0)->0 > max_len {
        Err(ErrorView::OutOfBounds)
    } else {
        Ok(
            PaginationView {
                start: index_of_text(start->0)->0 as int,
                end: index_of_text(end->0)->0 as int,
            },
        )
    }
}

/// Reads the range that `params` ask for and checks it against a listing of
/// `max_possible_length` items.
pub fn extract_pagination(params: Table<String>, max_possible_length: usize) -> (r: Result<
    Pagination,
    Error,
>)
    ensures
        match r {
            Ok(range) => resolved(params@, max_possible_length as int) == Ok::<
                PaginationView,
                ErrorView,
            >(range@),
            Err(error) => resolved(params@, max_possible_length as int) == Err::<
                PaginationView,
                ErrorView,
            >(error@),
        },
        ({
            let start = lookup(params@, "start"@);
            let end = lookup(params@, "end"@);
            let both = start is Some && end is Some;
            let from = index_of_text(start->0);
            let to = index_of_text(end->0);
            &&& !both <==> r is Err && r->Err_0@ == ErrorView::MissingParameters
            &&& both && from is None ==> r is Err && r->Err_0@ == ErrorView::ParseError(
                start->0,
                PaginationField::Start,
            )
            &&& both && from is Some && to is None ==> r is Err && r->Err_0@
                == ErrorView::ParseError(end->0, PaginationField::End)
            &&& both && from is Some && to is Some && from->0 > to->0 ==> r is Err && r->Err_0@
                == ErrorView::NonProcessable
            &&& both && from is Some && to is Some && from->0 <= to->0 && to->0
                > max_possible_length ==> r is Err && r->Err_0@ == ErrorView::OutOfBounds
            &&& both && from is Some && to is Some && from->0 <= to->0 <= max_possible_length
                <==> r is Ok
            &&& r is Ok ==> r->Ok_0@ == (PaginationView {
                start: from->0 as int,
                end: to->0 as int,
            })
        }),
{
    let start_key = "start".to_owned();
    let end_key = "end".to_owned();
    let (start_text, end_text) = match (params.get(&start_key), params.get(&end_key)) {
        (Some(start_text), Some(end_text)) => (start_text, end_text),
        _ => {
            return Err(Error::MissingParameters);
        },
    };
    let start: usize = match parse_index(start_text.as_str()) {
        Some(start) => start,
        None => {
            return Err(Error::ParseError(start_text.clone(), PaginationField::Start));
        },
    };
    let end: usize = match parse_index(end_text.as_str()) {
        Some(end) => end,
        None => {
            return Err(Error::ParseError(end_text.clone(), PaginationField::End));
        },
    };
    if start > end {
        return Err(Error::NonProcessable);
    }
    if end > max_possible_length {
        return Err(Error::OutOfBounds);
    }
    Ok(Pagination { start, end })
}

} // verus!
