//! Tokenising one line of the ripping tool's output, and the number formats
//! that occur in its fields.

use vstd::prelude::*;
use crate::text::push_char;

verus! {

/// What has been read of a line so far: the finished fields, the field being
/// read, and whether a quote is open.
pub open spec fn csv_state(s: Seq<char>) -> (Seq<Seq<char>>, Seq<char>, bool)
    decreases s.len(),
{
    if s.len() == 0 {
        (Seq::empty(), Seq::empty(), false)
    } else {
        let (done, cur, quoted) = csv_state(s.drop_last());
        let c = s.last();
        if c == '"' {
            (done, cur, !quoted)
        } else if c == ',' && !quoted {
            (done.push(cur), Seq::empty(), quoted)
        } else {
            (done, cur.push(c), quoted)
        }
    }
}

/// The fields of a line: split at every comma outside double quotes, with the
/// quote characters themselves dropped.
pub open spec fn csv_fields(s: Seq<char>) -> Seq<Seq<char>> {
    let (done, cur, _) = csv_state(s);
    done.push(cur)
}

/// The views of a list of strings.
pub open spec fn views(v: Seq<String>) -> Seq<Seq<char>> {
    v.map_values(|f: String| f@)
}

/// Parses a single line of the protocol into its fields.
///
/// Fields are separated by commas; a double quote opens or closes a quoted
/// part, inside which commas do not separate. Quote characters are dropped and
/// there is no escaping. An empty line gives one empty field.
pub fn parse_csv_line(line: &str) -> (result: Vec<String>)
    ensures
        views(result@) == csv_fields(line@),
        result@.len() >= 1,
{
    let n = line.unicode_len();
    let mut result: Vec<String> = Vec::new();
    let mut current_field = String::new();
    let mut in_quotes = false;
    let mut i: usize = 0;
    while i < n
        invariant
            n == line@.len(),
            i <= n,
            csv_state(line@.take(i as int)) == (views(result@), current_field@, in_quotes),
        decreases n - i,
    {
        let c = line.get_char(i);
        assert(line@.take(i + 1).drop_last() =~= line@.take(i as int));
        if c == '"' {
            in_quotes = !in_quotes;
        } else if c == ',' && !in_quotes {
            let ghost before = result@;
            let field = current_field;
            let ghost fv = field@;
            current_field = String::new();
            result.push(field);
            assert(views(result@) =~= views(before).push(fv));
        } else {
            push_char(&mut current_field, c);
        }
        i = i + 1;
    }
    assert(line@.take(n as int) =~= line@);
    let ghost before = result@;
    let ghost fv = current_field@;
    result.push(current_field);
    assert(views(result@) =~= views(before).push(fv));
    result
}

/// Whether `c` is an ASCII decimal digit.
pub open spec fn is_digit(c: char) -> bool {
    '0' <= c && c <= '9'
}

/// Whether every character of `s` is an ASCII decimal digit.
pub open spec fn all_digits(s: Seq<char>) -> bool {
    forall|i: int| 0 <= i < s.len() ==> is_digit(#[trigger] s[i])
}

/// The number that a string of decimal digits denotes.
pub open spec fn digits_value(s: Seq<char>) -> nat
    decreases s.len(),
{
    if s.len() == 0 {
        0
    } else {
        digits_value(s.drop_last()) * 10 + (s.last() as u32 - '0' as u32) as nat
    }
}

/// What std's `FromStr` gives for an integer type whose values range over
/// `lo..=hi`: an optional sign (`-` only where `lo` is negative), then one or
/// more decimal digits, denoting a value in range.
pub open spec fn int_text_value(s: Seq<char>, lo: int, hi: int) -> Option<int> {
    if s.len() > 0 && s[0] == '-' && lo < 0 {
        let d = s.drop_first();
        if d.len() > 0 && all_digits(d) && lo <= -digits_value(d) {
            Some(-digits_value(d))
        } else {
            None
        }
    } else {
        let d = if s.len() > 0 && s[0] == '+' {
            s.drop_first()
        } else {
            s
        };
        if d.len() > 0 && all_digits(d) && digits_value(d) <= hi {
            Some(digits_value(d) as int)
        } else {
            None
        }
    }
}

proof fn lemma_digits_value_grows(s: Seq<char>, j: int)
    requires
        all_digits(s),
        0 <= j <= s.len(),
    ensures
        digits_value(s.take(j)) <= digits_value(s),
    decreases s.len() - j,
{
    if j < s.len() {
        lemma_digits_value_grows(s, j + 1);
        assert(s.take(j + 1).drop_last() =~= s.take(j));
    } else {
        assert(s.take(j) =~= s);
    }
}

/// The value of the digits of `s` from `start` on, where they are one or more
/// digits and the value is at most `bound`.
fn digits_at_most(s: &str, start: usize, bound: u64) -> (r: Option<u64>)
    requires
        start <= s@.len(),
    ensures
        ({
            let d = s@.subrange(start as int, s@.len() as int);
            match r {
                Some(v) => d.len() > 0 && all_digits(d) && v == digits_value(d) && v <= bound,
                None => !(d.len() > 0 && all_digits(d) && digits_value(d) <= bound),
            }
        }),
{
    let n = s.unicode_len();
    let ghost d = s@.subrange(start as int, n as int);
    if start == n {
        return None;
    }
    let mut value: u64 = 0;
    let mut i: usize = start;
    while i < n
        invariant
            n == s@.len(),
            start <= i <= n,
            d == s@.subrange(start as int, n as int),
            all_digits(d.take(i - start)),
            value == digits_value(d.take(i - start)),
            value <= bound,
        decreases n - i,
    {
        let c = s.get_char(i);
        assert(d[i - start] == c);
        if !('0' <= c && c <= '9') {
            assert(!all_digits(d));
            return None;
        }
        let digit = (c as u32 - '0' as u32) as u64;
        assert(d.take(i + 1 - start).drop_last() =~= d.take(i - start));
        assert(all_digits(d.take(i + 1 - start)));
        if digit > bound || value > (bound - digit) / 10 {
            assert(digits_value(d.take(i + 1 - start)) > bound) by (nonlinear_arith)
                requires
                    digits_value(d.take(i + 1 - start)) == value * 10 + digit,
                    digit > bound || value > (bound - digit) / 10,
            {
            }
            proof {
                if all_digits(d) {
                    lemma_digits_value_grows(d, i + 1 - start);
                }
            }
            return None;
        }
        value = value * 10 + digit;
        i = i + 1;
    }
    assert(d.take(n - start) =~= d);
    Some(value)
}

/// Parses an unsigned integer in the range `0..=hi` as std's `FromStr` does.
pub fn parse_unsigned(s: &str, hi: u64) -> (r: Option<u64>)
    ensures
        match r {
            Some(v) => int_text_value(s@, 0, hi as int) == Some(v as int),
            None => int_text_value(s@, 0, hi as int) is None,
        },
{
    let n = s.unicode_len();
    let start: usize = if n > 0 && s.get_char(0) == '+' { 1 } else { 0 };
    proof {
        if start == 1 {
            assert(s@.subrange(1, n as int) =~= s@.drop_first());
        } else {
            assert(s@.subrange(0, n as int) =~= s@);
        }
    }
    digits_at_most(s, start, hi)
}

/// Parses a signed integer in the range `lo..=hi` as std's `FromStr` does.
pub fn parse_signed(s: &str, lo: i64, hi: i64) -> (r: Option<i64>)
    requires
        lo <= 0 <= hi,
    ensures
        match r {
            Some(v) => int_text_value(s@, lo as int, hi as int) == Some(v as int),
            None => int_text_value(s@, lo as int, hi as int) is None,
        },
{
    let n = s.unicode_len();
    if n > 0 && s.get_char(0) == '-' && lo < 0 {
        assert(s@.subrange(1, n as int) =~= s@.drop_first());
        let lo_abs: u64 = if lo == i64::MIN { 9223372036854775808u64 } else { (-lo) as u64 };
        match digits_at_most(s, 1, lo_abs) {
            Some(m) => {
                if m == 9223372036854775808u64 {
                    Some(i64::MIN)
                } else {
                    Some(-(m as i64))
                }
            },
            None => None,
        }
    } else {
        match parse_unsigned(s, hi as u64) {
            Some(m) => Some(m as i64),
            None => None,
        }
    }
}

/// The pieces of `s` between occurrences of `sep`, as `str::split` gives them.
pub open spec fn split_on(s: Seq<char>, sep: char) -> Seq<Seq<char>>
    decreases s.len(),
{
    if s.len() == 0 {
        seq![Seq::empty()]
    } else {
        let parts = split_on(s.drop_last(), sep);
        if s.last() == sep {
            parts.push(Seq::empty())
        } else {
            parts.update(parts.len() - 1, parts.last().push(s.last()))
        }
    }
}

/// Splitting always gives at least one piece.
pub proof fn lemma_split_nonempty(s: Seq<char>, sep: char)
    ensures
        split_on(s, sep).len() >= 1,
    decreases s.len(),
{
    if s.len() > 0 {
        lemma_split_nonempty(s.drop_last(), sep);
    }
}

/// Splits `s` at every occurrence of `sep`.
pub fn split_at_char(s: &str, sep: char) -> (parts: Vec<String>)
    ensures
        views(parts@) == split_on(s@, sep),
{
    let n = s.unicode_len();
    let mut done: Vec<String> = Vec::new();
    let mut cur = String::new();
    let mut i: usize = 0;
    while i < n
        invariant
            n == s@.len(),
            i <= n,
            views(done@).push(cur@) == split_on(s@.take(i as int), sep),
        decreases n - i,
    {
        let c = s.get_char(i);
        assert(s@.take(i + 1).drop_last() =~= s@.take(i as int));
        proof {
            lemma_split_nonempty(s@.take(i as int), sep);
        }
        if c == sep {
            let ghost before = done@;
            let piece = cur;
            let ghost pv = piece@;
            cur = String::new();
            done.push(piece);
            assert(views(done@) =~= views(before).push(pv));
        } else {
            let ghost cv = cur@;
            push_char(&mut cur, c);
            assert(views(done@).push(cur@) =~= views(done@).push(cv).update(views(done@).len() as int, cv.push(c)));
        }
        i = i + 1;
    }
    assert(s@.take(n as int) =~= s@);
    let ghost before = done@;
    let ghost cv = cur@;
    done.push(cur);
    assert(views(done@) =~= views(before).push(cv));
    done
}

/// Why a duration text was rejected.
#[derive(Debug, Clone, Copy, PartialEq, Eq)]
pub enum DurationError {
    /// The text is not three parts separated by colons.
    Format,
    /// The hours part is not a number.
    Hour,
    /// The minutes part is not a number.
    Minute,
    /// The seconds part is not a number.
    Second,
    /// The total number of seconds does not fit in `u32`.
    Overflow,
}

/// The largest `u32`, as a mathematical integer.
pub open spec fn u32_max() -> int {
    0xffff_ffff
}

/// The seconds that an `HH:MM:SS` text denotes, or why it is rejected.
pub open spec fn duration_value(s: Seq<char>) -> Result<u32, DurationError> {
    let parts = split_on(s, ':');
    if parts.len() != 3 {
        Err(DurationError::Format)
    } else {
        let h = int_text_value(parts[0], 0, u32_max());
        let m = int_text_value(parts[1], 0, u32_max());
        let c = int_text_value(parts[2], 0, u32_max());
        if h is None {
            Err(DurationError::Hour)
        } else if m is None {
            Err(DurationError::Minute)
        } else if c is None {
            Err(DurationError::Second)
        } else {
            let total = h->0 * 3600 + m->0 * 60 + c->0;
            if total > u32_max() {
                Err(DurationError::Overflow)
            } else {
                Ok(total as u32)
            }
        }
    }
}

/// Parses a duration written `HH:MM:SS` into the total number of seconds.
///
/// Each part is an unsigned decimal number (it may exceed the usual clock
/// ranges, as in `"00:90:00"`).
pub fn parse_duration_to_seconds(duration: &str) -> (r: Result<u32, DurationError>)
    ensures
        r == duration_value(duration@),
{
    let parts = split_at_char(duration, ':');
    if parts.len() != 3 {
        return Err(DurationError::Format);
    }
    let hours = match parse_unsigned(parts[0].as_str(), 0xffff_ffff) {
        Some(v) => v,
        None => {
            return Err(DurationError::Hour);
        },
    };
    let minutes = match parse_unsigned(parts[1].as_str(), 0xffff_ffff) {
        Some(v) => v,
        None => {
            return Err(DurationError::Minute);
        },
    };
    let seconds = match parse_unsigned(parts[2].as_str(), 0xffff_ffff) {
        Some(v) => v,
        None => {
            return Err(DurationError::Second);
        },
    };
    let total: u64 = hours * 3600 + minutes * 60 + seconds;
    if total > 0xffff_ffff {
        return Err(DurationError::Overflow);
    }
    Ok(total as u32)
}

/// Parses a `usize` field as std's `FromStr` does.
pub fn parse_usize(s: &str) -> (r: Option<usize>)
    ensures
        match r {
            Some(v) => int_text_value(s@, 0, usize::MAX as int) == Some(v as int),
            None => int_text_value(s@, 0, usize::MAX as int) is None,
        },
{
    match parse_unsigned(s, usize::MAX as u64) {
        Some(v) => Some(v as usize),
        None => None,
    }
}

/// Parses an `i8` field as std's `FromStr` does.
pub fn parse_i8(s: &str) -> (r: Option<i8>)
    ensures
        match r {
            Some(v) => int_text_value(s@, i8::MIN as int, i8::MAX as int) == Some(v as int),
            None => int_text_value(s@, i8::MIN as int, i8::MAX as int) is None,
        },
{
    match parse_signed(s, i8::MIN as i64, i8::MAX as i64) {
        Some(v) => Some(v as i8),
        None => None,
    }
}

/// Parses an `i32` field as std's `FromStr` does.
pub fn parse_i32(s: &str) -> (r: Option<i32>)
    ensures
        match r {
            Some(v) => int_text_value(s@, i32::MIN as int, i32::MAX as int) == Some(v as int),
            None => int_text_value(s@, i32::MIN as int, i32::MAX as int) is None,
        },
{
    match parse_signed(s, i32::MIN as i64, i32::MAX as i64) {
        Some(v) => Some(v as i32),
        None => None,
    }
}

/// Parses an `i64` field as std's `FromStr` does.
pub fn parse_i64(s: &str) -> (r: Option<i64>)
    ensures
        match r {
            Some(v) => int_text_value(s@, i64::MIN as int, i64::MAX as int) == Some(v as int),
            None => int_text_value(s@, i64::MIN as int, i64::MAX as int) is None,
        },
{
    parse_signed(s, i64::MIN, i64::MAX)
}

proof fn lemma_quoted_run(x: Seq<char>, body: Seq<char>)
    requires
        csv_state(x).2,
        !body.contains('"'),
    ensures
        csv_state(x + body) == (csv_state(x).0, csv_state(x).1 + body, true),
    decreases body.len(),
{
    if body.len() == 0 {
        assert(x + body =~= x);
        assert(csv_state(x).1 + body =~= csv_state(x).1);
    } else {
        let b0 = body.drop_last();
        assert(!b0.contains('"')) by {
            if b0.contains('"') {
                let k = choose|k: int| 0 <= k < b0.len() && b0[k] == '"';
                assert(body[k] == '"');
            }
        }
        lemma_quoted_run(x, b0);
        assert((x + body).drop_last() =~= x + b0);
        assert(body.last() != '"') by {
            assert(body[body.len() - 1] == body.last());
        }
        assert(csv_state(x).1 + b0.push(body.last()) =~= csv_state(x).1 + body);
        assert((csv_state(x).1 + b0).push(body.last()) =~= csv_state(x).1 + body);
    }
}

/// Commas inside a quoted part do not split: a quoted part without quote
/// characters in it joins the current field whole, and the quotes are dropped.
pub proof fn lemma_quoted_commas_kept(p: Seq<char>, body: Seq<char>)
    requires
        !csv_state(p).2,
        !body.contains('"'),
    ensures
        csv_state(p + seq!['"'] + body + seq!['"']) == (csv_state(p).0, csv_state(p).1 + body, false),
{
    let x = p + seq!['"'];
    assert(x.drop_last() =~= p);
    lemma_quoted_run(x, body);
    assert((p + seq!['"'] + body + seq!['"']).drop_last() =~= x + body);
}

/// An unterminated quote runs to the end of the line: everything after it,
/// commas included, belongs to the last field.
pub proof fn lemma_unterminated_quote_runs_to_end(p: Seq<char>, body: Seq<char>)
    requires
        !csv_state(p).2,
        !body.contains('"'),
    ensures
        csv_fields(p + seq!['"'] + body) == csv_state(p).0.push(csv_state(p).1 + body),
{
    let x = p + seq!['"'];
    assert(x.drop_last() =~= p);
    lemma_quoted_run(x, body);
}

} // verus!
