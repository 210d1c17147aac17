use crate::eval::check;
use crate::eval::spec_evaluate;
use crate::exercise::Exercise;
use vstd::prelude::*;

verus! {

/// ASCII whitespace, as a line read from input can carry it: space, tab,
/// line feed, form feed, carriage return.
pub open spec fn is_space(b: u8) -> bool {
    b == 32 || b == 9 || b == 10 || b == 12 || b == 13
}

fn is_space_exec(b: u8) -> (r: bool)
    ensures
        r == is_space(b),
{
    b == 32 || b == 9 || b == 10 || b == 12 || b == 13
}

/// The input with its leading and trailing whitespace removed.
pub open spec fn spec_trim(s: Seq<u8>) -> Seq<u8>
    decreases s.len(),
{
    if s.len() > 0 && is_space(s[0]) {
        spec_trim(s.skip(1))
    } else if s.len() > 0 && is_space(s.last()) {
        spec_trim(s.drop_last())
    } else {
        s
    }
}

/// Trimming is taking the subrange that remains after stripping a fully
/// blank prefix and suffix that end at non-blank characters.
proof fn lemma_trim_subrange(s: Seq<u8>, start: int, end: int)
    requires
        0 <= start <= end <= s.len(),
        forall|i: int| 0 <= i < start ==> is_space(#[trigger] s[i]),
        forall|i: int| end <= i < s.len() ==> is_space(#[trigger] s[i]),
        start < end ==> !is_space(s[start]) && !is_space(s[end - 1]),
    ensures
        spec_trim(s) == s.subrange(start, end),
    decreases s.len(),
{
    if s.len() == 0 {
        assert(s.subrange(0, 0) =~= s);
    } else if is_space(s[0]) {
        if start > 0 {
            lemma_trim_subrange(s.skip(1), start - 1, end - 1);
            assert(s.skip(1).subrange(start - 1, end - 1) =~= s.subrange(start, end));
        } else {
            assert(start == end);
            lemma_trim_subrange(s.skip(1), 0, 0);
            assert(s.skip(1).subrange(0, 0) =~= s.subrange(0, 0));
        }
    } else if is_space(s.last()) {
        assert(end < s.len());
        lemma_trim_subrange(s.drop_last(), start, end);
        assert(s.drop_last().subrange(start, end) =~= s.subrange(start, end));
    } else {
        assert(start == 0);
        assert(end == s.len());
        assert(s.subrange(0, s.len() as int) =~= s);
    }
}

/// Finds the bounds of the trimmed middle of the line: everything before
/// `start` and from `end` on is whitespace, and the middle neither starts
/// nor ends with whitespace.
fn trim_bounds(line: &Vec<u8>) -> (bounds: (usize, usize))
    ensures
        bounds.0 <= bounds.1 <= line@.len(),
        spec_trim(line@) == line@.subrange(bounds.0 as int, bounds.1 as int),
{
    let mut start: usize = 0;
    while start < line.len() && is_space_exec(line[start])
        invariant
            start <= line@.len(),
            forall|i: int| 0 <= i < start ==> is_space(#[trigger] line@[i]),
        decreases line@.len() - start,
    {
        start = start + 1;
    }
    let mut end: usize = line.len();
    while end > start && is_space_exec(line[end - 1])
        invariant
            start <= end <= line@.len(),
            forall|i: int| 0 <= i < start ==> is_space(#[trigger] line@[i]),
            forall|i: int| end <= i < line@.len() ==> is_space(#[trigger] line@[i]),
            start == line@.len() || !is_space(line@[start as int]),
        decreases end,
    {
        end = end - 1;
    }
    proof {
        lemma_trim_subrange(line@, start as int, end as int);
    }
    (start, end)
}

/// An ASCII decimal digit.
pub open spec fn is_digit(b: u8) -> bool {
    48 <= b <= 57
}

/// Whether every byte of `s` is a decimal digit.
pub open spec fn all_digits(s: Seq<u8>) -> bool {
    forall|i: int| 0 <= i < s.len() ==> is_digit(#[trigger] s[i])
}

/// The number that a sequence of decimal digit bytes denotes, most
/// significant digit first.
pub open spec fn digits_value(s: Seq<u8>) -> int
    decreases s.len(),
{
    if s.len() == 0 {
        0
    } else {
        10 * digits_value(s.drop_last()) + (s.last() - 48)
    }
}

/// A digit string denotes a non-negative number.
proof fn lemma_digits_value_nonneg(s: Seq<u8>)
    requires
        all_digits(s),
    ensures
        digits_value(s) >= 0,
    decreases s.len(),
{
    if s.len() > 0 {
        assert(all_digits(s.drop_last()));
        lemma_digits_value_nonneg(s.drop_last());
    }
}

/// Reading more digits never shrinks the denoted number.
proof fn lemma_digits_value_prefix(s: Seq<u8>, k: int)
    requires
        all_digits(s),
        0 <= k <= s.len(),
    ensures
        digits_value(s.take(k)) <= digits_value(s),
    decreases s.len() - k,
{
    if k == s.len() {
        assert(s.take(k) =~= s);
    } else {
        assert(s.take(k + 1).drop_last() =~= s.take(k));
        assert(s.take(k + 1).last() == s[k]);
        assert(all_digits(s.take(k)));
        lemma_digits_value_nonneg(s.take(k));
        lemma_digits_value_prefix(s, k + 1);
    }
}

/// What parsing a signed decimal numeral yields: an optional single leading
/// `+` or `-`, then at least one digit and nothing else, and the denoted
/// value must fit the answer type; anything else is rejected.
pub open spec fn spec_parse_i16(s: Seq<u8>) -> Option<i16> {
    if s.len() > 0 && (s[0] == 43 || s[0] == 45) {
        spec_parse_magnitude(s.skip(1), s[0] == 45)
    } else {
        spec_parse_magnitude(s, false)
    }
}

/// The digits after the sign, as a value of the answer type; rejected when
/// empty, not all digits, or out of range.
pub open spec fn spec_parse_magnitude(s: Seq<u8>, negative: bool) -> Option<i16> {
    if s.len() > 0 && all_digits(s) {
        let v = if negative {
            -digits_value(s)
        } else {
            digits_value(s)
        };
        if i16::MIN <= v <= i16::MAX {
            Some(v as i16)
        } else {
            None
        }
    } else {
        None
    }
}

/// Parses the bytes of `line` between `from` and `to` as a signed decimal
/// numeral.
fn parse_i16_range(line: &Vec<u8>, from: usize, to: usize) -> (r: Option<i16>)
    requires
        from <= to <= line@.len(),
    ensures
        r == spec_parse_i16(line@.subrange(from as int, to as int)),
{
    let ghost full = line@.subrange(from as int, to as int);
    let mut i = from;
    let mut negative = false;
    if i < to && (line[i] == 43 || line[i] == 45) {
        negative = line[i] == 45;
        i = i + 1;
        proof {
            assert(full.skip(1) =~= line@.subrange(i as int, to as int));
        }
    }
    let ghost body = line@.subrange(i as int, to as int);
    proof {
        assert(spec_parse_i16(full) == spec_parse_magnitude(body, negative));
    }
    if i == to {
        return None;
    }
    let mut acc: u32 = 0;
    let mut j = i;
    while j < to
        invariant
            from <= i <= j <= to <= line@.len(),
            i < to,
            full == line@.subrange(from as int, to as int),
            body == line@.subrange(i as int, to as int),
            spec_parse_i16(full) == spec_parse_magnitude(body, negative),
            all_digits(line@.subrange(i as int, j as int)),
            acc == digits_value(line@.subrange(i as int, j as int)),
            acc <= 32768,
        decreases to - j,
    {
        let b = line[j];
        let ghost seen = line@.subrange(i as int, j as int);
        let ghost seen_next = line@.subrange(i as int, j as int + 1);
        proof {
            assert(seen_next.drop_last() =~= seen);
            assert(seen_next.last() == b);
        }
        if b < 48 || b > 57 {
            proof {
                assert(body[j - i] == b);
                assert(!all_digits(body));
            }
            return None;
        }
        let d = (b - 48) as u32;
        let new_acc = acc * 10 + d;
        if new_acc > 32768 {
            proof {
                assert(digits_value(seen_next) == new_acc);
                if all_digits(body) {
                    assert(body.take(j - i + 1) =~= seen_next);
                    lemma_digits_value_prefix(body, j - i + 1);
                }
            }
            return None;
        }
        acc = new_acc;
        j = j + 1;
    }
    proof {
        assert(line@.subrange(i as int, j as int) =~= body);
        lemma_digits_value_nonneg(body);
    }
    if negative {
        Some((-(acc as i32)) as i16)
    } else {
        if acc > 32767 {
            None
        } else {
            Some(acc as i16)
        }
    }
}

/// Parses a whole byte string as a signed decimal numeral, the way an
/// answer line is read.
pub fn parse_answer(line: &Vec<u8>) -> (r: Option<i16>)
    ensures
        r == spec_parse_i16(line@),
{
    let r = parse_i16_range(line, 0, line.len());
    proof {
        assert(line@.subrange(0, line@.len() as int) =~= line@);
    }
    r
}

/// The bytes of the literal exit command.
pub open spec fn exit_word() -> Seq<u8> {
    seq![101u8, 120u8, 105u8, 116u8]
}

/// What a round answers to one input line.
#[derive(Copy, Clone, PartialEq, Eq, Structural, Debug)]
pub enum Reply {
    /// The trimmed line was the exit command: the session ends.
    Exit,
    /// The line did not parse as a number: report invalid input, keep the
    /// exercise.
    Invalid,
    /// The answer equals the exercise's result: advance to a new exercise.
    Correct,
    /// The answer was a number but not the result: keep the exercise.
    Wrong,
}

/// The round's whole decision on one raw input line: trim it, end on the
/// exit command, reject what is not a numeral, and otherwise compare the
/// answer with the exercise's exact result.
pub open spec fn spec_respond(line: Seq<u8>, e: Exercise) -> Reply {
    let t = spec_trim(line);
    if t == exit_word() {
        Reply::Exit
    } else {
        match spec_parse_i16(t) {
            Option::None => Reply::Invalid,
            Option::Some(v) => if v as int == spec_evaluate(e) {
                Reply::Correct
            } else {
                Reply::Wrong
            },
        }
    }
}

/// Decides one round of the session from a raw input line.
pub fn respond(line: &Vec<u8>, e: &Exercise) -> (r: Reply)
    requires
        e.wf(),
    ensures
        r == spec_respond(line@, *e),
{
    let (start, end) = trim_bounds(line);
    let ghost t = line@.subrange(start as int, end as int);
    let is_exit = end - start == 4 && line[start] == 101 && line[start + 1] == 120 && line[start
        + 2] == 105 && line[start + 3] == 116;
    proof {
        if is_exit {
            assert(t =~= exit_word());
        } else if t == exit_word() {
            assert(t.len() == 4);
            assert(t[0] == 101 && t[1] == 120 && t[2] == 105 && t[3] == 116);
            assert(false);
        }
    }
    if is_exit {
        return Reply::Exit;
    }
    match parse_i16_range(line, start, end) {
        Option::None => Reply::Invalid,
        Option::Some(v) => {
            if check(v, e) {
                Reply::Correct
            } else {
                Reply::Wrong
            }
        },
    }
}

} // verus!
