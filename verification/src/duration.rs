//! Parsing of duration strings: a sequence of digit groups, each followed
//! by a unit letter (`h`, `m` or `s`), with the groups' values summed.

use vstd::prelude::*;

use crate::digits::{digit_val, digits_val, is_digit_char};

verus! {

/// Why a duration string was rejected.
#[derive(Clone, Copy, Debug, PartialEq, Eq)]
pub enum ParseError {
    /// The input held no characters at all.
    EmptyInput,
    /// A unit letter arrived with no digits before it, or a digit group
    /// too large for a 64-bit number.
    InvalidNumber,
    /// A group was followed by a letter that names no unit.
    InvalidUnit(char),
    /// Digits stood at the end with no unit letter after them.
    NumberWithoutUnit,
    /// The summed seconds do not fit in a 64-bit number.
    Overflow,
}

impl ParseError {
    /// The wording of each rejection.
    pub open spec fn spec_message(self) -> Seq<char> {
        match self {
            ParseError::EmptyInput => "Empty duration string"@,
            ParseError::InvalidNumber => "Invalid number"@,
            ParseError::InvalidUnit(c) => "Invalid unit: "@.push(c),
            ParseError::NumberWithoutUnit => "Number without unit at the end"@,
            ParseError::Overflow => "Duration too large"@,
        }
    }

    /// A line of text naming the rejection, with the offending unit
    /// letter spelled out.
    pub fn message(&self) -> (r: String)
        ensures
            r@ == self.spec_message(),
    {
        match self {
            ParseError::EmptyInput => String::from_str("Empty duration string"),
            ParseError::InvalidNumber => String::from_str("Invalid number"),
            ParseError::InvalidUnit(c) => {
                let mut s = String::from_str("Invalid unit: ");
                s.push(*c);
                s
            },
            ParseError::NumberWithoutUnit => String::from_str("Number without unit at the end"),
            ParseError::Overflow => String::from_str("Duration too large"),
        }
    }
}

/// Whether a character names a duration unit.
pub open spec fn is_unit_char(c: char) -> bool {
    c == 'h' || c == 'm' || c == 's'
}

/// The seconds that one unit of the given letter stands for.
pub open spec fn unit_secs(c: char) -> int {
    if c == 'h' {
        3600
    } else if c == 'm' {
        60
    } else {
        1
    }
}

/// One step at a time through the string: `pending` holds the digits read
/// since the last unit letter, `total` the seconds summed so far.
pub open spec fn parse_groups(s: Seq<char>, pending: Seq<char>, total: int) -> Result<
    int,
    ParseError,
>
    decreases s.len(),
{
    if s.len() == 0 {
        if pending.len() > 0 {
            Err(ParseError::NumberWithoutUnit)
        } else {
            Ok(total)
        }
    } else if is_digit_char(s.first()) {
        parse_groups(s.drop_first(), pending.push(s.first()), total)
    } else if pending.len() == 0 || digits_val(pending) > u64::MAX as int {
        Err(ParseError::InvalidNumber)
    } else if !is_unit_char(s.first()) {
        Err(ParseError::InvalidUnit(s.first()))
    } else {
        parse_groups(
            s.drop_first(),
            Seq::empty(),
            total + digits_val(pending) * unit_secs(s.first()),
        )
    }
}

/// What a duration string means: the summed seconds of its groups, or the
/// first reason it is rejected. An empty string is rejected outright.
pub open spec fn spec_parse_duration(s: Seq<char>) -> Result<int, ParseError> {
    if s.len() == 0 {
        Err(ParseError::EmptyInput)
    } else {
        parse_groups(s, Seq::empty(), 0)
    }
}

/// A string of digits reads as a non-negative value.
pub proof fn lemma_digits_val_nonneg(s: Seq<char>)
    requires
        forall|i: int| 0 <= i < s.len() ==> is_digit_char(s[i]),
    ensures
        digits_val(s) >= 0,
    decreases s.len(),
{
    if s.len() > 0 {
        lemma_digits_val_nonneg(s.drop_last());
        assert(digits_val(s.drop_last()) * 10 >= 0) by (nonlinear_arith)
            requires
                digits_val(s.drop_last()) >= 0,
        ;
    }
}

/// The spec-level reading never reports `Overflow`: that rejection only
/// arises when a total is moved into a 64-bit number.
pub proof fn lemma_parse_groups_no_overflow(s: Seq<char>, pending: Seq<char>, total: int)
    ensures
        parse_groups(s, pending, total) != Err::<int, ParseError>(ParseError::Overflow),
    decreases s.len(),
{
    if s.len() > 0 {
        if is_digit_char(s.first()) {
            lemma_parse_groups_no_overflow(s.drop_first(), pending.push(s.first()), total);
        } else if pending.len() > 0 && digits_val(pending) <= u64::MAX as int && is_unit_char(
            s.first(),
        ) {
            lemma_parse_groups_no_overflow(
                s.drop_first(),
                Seq::empty(),
                total + digits_val(pending) * unit_secs(s.first()),
            );
        }
    }
}

/// Whether a character can occur in a well-formed duration string.
pub open spec fn is_duration_char(c: char) -> bool {
    is_digit_char(c) || is_unit_char(c)
}

proof fn lemma_parse_groups_ok_shape(s: Seq<char>, pending: Seq<char>, total: int)
    requires
        parse_groups(s, pending, total) is Ok,
    ensures
        forall|i: int| 0 <= i < s.len() ==> is_duration_char(s[i]),
        s.len() > 0 ==> is_unit_char(s.last()),
        s.len() == 0 ==> pending.len() == 0,
    decreases s.len(),
{
    if s.len() > 0 {
        if is_digit_char(s.first()) {
            lemma_parse_groups_ok_shape(s.drop_first(), pending.push(s.first()), total);
            assert(s.drop_first().len() > 0);
            assert(s.last() == s.drop_first().last());
            assert forall|i: int| 0 <= i < s.len() implies is_duration_char(s[i]) by {
                if i > 0 {
                    assert(s[i] == s.drop_first()[i - 1]);
                }
            }
        } else {
            let rest = s.drop_first();
            let total2 = total + digits_val(pending) * unit_secs(s.first());
            lemma_parse_groups_ok_shape(rest, Seq::empty(), total2);
            if rest.len() > 0 {
                assert(s.last() == rest.last());
            } else {
                assert(s.last() == s.first());
            }
            assert forall|i: int| 0 <= i < s.len() implies is_duration_char(s[i]) by {
                if i > 0 {
                    assert(s[i] == rest[i - 1]);
                }
            }
        }
    }
}

fn is_digit_ch(c: char) -> (r: bool)
    ensures
        r == is_digit_char(c),
{
    let u = c as u32;
    48 <= u && u <= 57
}

/// Parse a duration string such as `1h30m` or `90s` into total seconds.
/// Groups of the same unit accumulate; an empty string, a missing or
/// unknown unit letter, an oversized group and an oversized total are
/// each rejected with their own error.
pub fn parse_duration(s: &str) -> (r: Result<u64, ParseError>)
    ensures
        match spec_parse_duration(s@) {
            Ok(t) => if t <= u64::MAX as int {
                r == Ok::<u64, ParseError>(t as u64)
            } else {
                r == Err::<u64, ParseError>(ParseError::Overflow)
            },
            Err(e) => r == Err::<u64, ParseError>(e),
        },
{
    let n = s.unicode_len();
    if n == 0 {
        return Err(ParseError::EmptyInput);
    }
    let mut total: u64 = 0;
    let ghost mut total_g: int = 0int;
    let mut total_over: bool = false;
    let mut cur: u64 = 0;
    let mut cur_over: bool = false;
    let mut cur_len: usize = 0;
    let mut i: usize = 0;
    proof {
        assert(s@.subrange(0, n as int) =~= s@);
        assert(s@.subrange(0, 0) =~= Seq::<char>::empty());
    }
    while i < n
        invariant
            n == s@.len(),
            0 <= i <= n,
            cur_len <= i,
            forall|j: int| i - cur_len <= j < i ==> is_digit_char(s@[j]),
            !cur_over ==> cur as int == digits_val(s@.subrange(i - cur_len, i as int)),
            cur_over ==> digits_val(s@.subrange(i - cur_len, i as int)) > u64::MAX as int,
            cur_over ==> cur_len > 0,
            total_g >= 0,
            !total_over ==> total as int == total_g,
            total_over ==> total_g > u64::MAX as int,
            spec_parse_duration(s@) == parse_groups(
                s@.subrange(i as int, n as int),
                s@.subrange(i - cur_len, i as int),
                total_g,
            ),
        decreases n - i,
    {
        let ghost suffix = s@.subrange(i as int, n as int);
        let ghost pending = s@.subrange(i - cur_len, i as int);
        proof {
            assert(suffix.len() > 0);
            assert(suffix.first() == s@[i as int]);
            assert(suffix.drop_first() =~= s@.subrange(i + 1, n as int));
        }
        let c = s.get_char(i);
        if is_digit_ch(c) {
            let d: u64 = (c as u32 - 48) as u64;
            proof {
                assert(d as int == digit_val(c));
                assert(s@.subrange(i + 1 - (cur_len + 1), i + 1) =~= pending.push(c));
                assert(pending.push(c).drop_last() =~= pending);
                lemma_digits_val_nonneg(pending);
            }
            if cur_over {
                proof {
                    assert(digits_val(pending.push(c)) == digits_val(pending) * 10 + d) by {
                        assert(pending.push(c).last() == c);
                    }
                    assert(digits_val(pending) * 10 + d > u64::MAX as int) by (nonlinear_arith)
                        requires
                            digits_val(pending) > u64::MAX as int,
                            d >= 0,
                    ;
                }
            } else {
                match cur.checked_mul(10) {
                    Some(p) => {
                        match p.checked_add(d) {
                            Some(q) => {
                                cur = q;
                            },
                            None => {
                                cur_over = true;
                            },
                        }
                    },
                    None => {
                        cur_over = true;
                    },
                }
                proof {
                    assert(digits_val(pending.push(c)) == digits_val(pending) * 10 + d) by {
                        assert(pending.push(c).last() == c);
                    }
                }
            }
            cur_len = cur_len + 1;
        } else {
            if cur_len == 0 || cur_over {
                return Err(ParseError::InvalidNumber);
            }
            let mult: u64 = match c {
                'h' => 3600,
                'm' => 60,
                's' => 1,
                _ => {
                    return Err(ParseError::InvalidUnit(c));
                },
            };
            proof {
                assert(is_unit_char(c));
                assert(mult as int == unit_secs(c));
                assert(s@.subrange(i + 1, i + 1) =~= Seq::<char>::empty());
                lemma_digits_val_nonneg(pending);
            }
            let ghost add_g = digits_val(pending) * unit_secs(c);
            proof {
                assert(add_g == cur as int * mult as int);
                assert(digits_val(pending) * unit_secs(c) >= 0) by (nonlinear_arith)
                    requires
                        digits_val(pending) >= 0,
                        unit_secs(c) >= 1,
                ;
            }
            if total_over {
                proof {
                    total_g = total_g + add_g;
                }
            } else {
                match cur.checked_mul(mult) {
                    Some(p) => {
                        match total.checked_add(p) {
                            Some(q) => {
                                total = q;
                            },
                            None => {
                                total_over = true;
                            },
                        }
                    },
                    None => {
                        total_over = true;
                    },
                }
                proof {
                    total_g = total_g + add_g;
                    assert(total_over ==> total_g > u64::MAX as int) by (nonlinear_arith)
                        requires
                            total_over ==> cur as int * mult as int > u64::MAX as int - (total_g
                                - cur as int * mult as int),
                            total_g == (total_g - cur as int * mult as int) + cur as int
                                * mult as int,
                    ;
                }
            }
            cur = 0;
            cur_len = 0;
        }
        i = i + 1;
    }
    proof {
        assert(s@.subrange(i as int, n as int) =~= Seq::<char>::empty());
    }
    if cur_len > 0 {
        return Err(ParseError::NumberWithoutUnit);
    }
    if total_over {
        return Err(ParseError::Overflow);
    }
    Ok(total)
}

/// A string that parses as a duration is never empty, ends with a unit
/// letter, and holds only digits and unit letters. Read the other way
/// round: an empty string, a string with trailing digits, or one with a
/// foreign character never yields a duration, not even a partial one.
pub proof fn lemma_parse_ok_shape(s: Seq<char>)
    ensures
        spec_parse_duration(s) is Ok ==> {
            &&& s.len() > 0
            &&& is_unit_char(s.last())
            &&& forall|i: int| 0 <= i < s.len() ==> is_duration_char(s[i])
        },
{
    if spec_parse_duration(s) is Ok {
        lemma_parse_groups_ok_shape(s, Seq::empty(), 0);
    }
}

/// The text of one duration group: the group's value in decimal, then
/// its unit letter.
pub open spec fn render_group(v: int, u: char) -> Seq<char> {
    crate::digits::dec_digits(v) + seq![u]
}

/// The text of a whole list of groups, one after the other with nothing
/// between them.
pub open spec fn render_groups(gs: Seq<(int, char)>) -> Seq<char>
    decreases gs.len(),
{
    if gs.len() == 0 {
        Seq::empty()
    } else {
        render_group(gs.first().0, gs.first().1) + render_groups(gs.drop_first())
    }
}

/// The seconds that a list of groups stands for: each value times its
/// unit's seconds, summed.
pub open spec fn groups_total(gs: Seq<(int, char)>) -> int
    decreases gs.len(),
{
    if gs.len() == 0 {
        0
    } else {
        gs.first().0 * unit_secs(gs.first().1) + groups_total(gs.drop_first())
    }
}

proof fn lemma_parse_digits_prefix(d: Seq<char>, rest: Seq<char>, pending: Seq<char>, t: int)
    requires
        forall|i: int| 0 <= i < d.len() ==> is_digit_char(d[i]),
    ensures
        parse_groups(d + rest, pending, t) == parse_groups(rest, pending + d, t),
    decreases d.len(),
{
    if d.len() == 0 {
        assert(d + rest =~= rest);
        assert(pending + d =~= pending);
    } else {
        assert((d + rest).first() == d.first());
        assert((d + rest).len() > 0);
        assert((d + rest).drop_first() =~= d.drop_first() + rest);
        assert(pending.push(d.first()) + d.drop_first() =~= pending + d);
        lemma_parse_digits_prefix(d.drop_first(), rest, pending.push(d.first()), t);
    }
}

proof fn lemma_parse_groups_render(gs: Seq<(int, char)>, t: int)
    requires
        forall|i: int| 0 <= i < gs.len() ==> 0 <= #[trigger] gs[i].0 <= u64::MAX as int
            && is_unit_char(gs[i].1),
    ensures
        parse_groups(render_groups(gs), Seq::empty(), t) == Ok::<int, ParseError>(
            t + groups_total(gs),
        ),
    decreases gs.len(),
{
    if gs.len() == 0 {
        assert(parse_groups(Seq::empty(), Seq::empty(), t) == Ok::<int, ParseError>(t));
    } else {
        let v = gs.first().0;
        let u = gs.first().1;
        let d = crate::digits::dec_digits(v);
        let rest = render_groups(gs.drop_first());
        assert(gs[0].0 == v && gs[0].1 == u);
        crate::digits::lemma_dec_digits_val(v);
        assert(render_groups(gs) =~= d + (seq![u] + rest));
        lemma_parse_digits_prefix(d, seq![u] + rest, Seq::empty(), t);
        assert(Seq::empty() + d =~= d);
        let s1 = seq![u] + rest;
        assert(s1.first() == u);
        assert(!is_digit_char(u));
        assert(digits_val(d) == v);
        assert(s1.drop_first() =~= rest);
        assert(parse_groups(s1, d, t) == parse_groups(rest, Seq::empty(), t + v * unit_secs(u)));
        assert forall|i: int| 0 <= i < gs.drop_first().len() implies 0 <= #[trigger] gs.drop_first()[i].0
            <= u64::MAX as int && is_unit_char(gs.drop_first()[i].1) by {
            assert(gs.drop_first()[i] == gs[i + 1]);
        }
        lemma_parse_groups_render(gs.drop_first(), t + v * unit_secs(u));
    }
}

/// For any non-empty list of groups with values a 64-bit number can hold,
/// the rendered string parses back to exactly the sum of each group's
/// value times its unit's seconds: serialising and re-parsing keeps the
/// total seconds.
pub proof fn lemma_parse_round_trip(gs: Seq<(int, char)>)
    requires
        gs.len() > 0,
        forall|i: int| 0 <= i < gs.len() ==> 0 <= #[trigger] gs[i].0 <= u64::MAX as int
            && is_unit_char(gs[i].1),
    ensures
        spec_parse_duration(render_groups(gs)) == Ok::<int, ParseError>(groups_total(gs)),
{
    crate::digits::lemma_dec_digits_val(gs.first().0);
    assert(render_groups(gs).len() > 0) by {
        assert(render_group(gs.first().0, gs.first().1).len() >= 2);
    }
    lemma_parse_groups_render(gs, 0);
}

} // verus!
