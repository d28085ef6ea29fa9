//! Reading the received-packets counter out of a per-adapter IPv6 statistics
//! file (`/proc/net/dev_snmp6/<adapter>`).
//!
//! Each line of such a file is a counter name followed by its value,
//! separated by whitespace. The counter of interest is the one on the lines
//! that mention `Ip6InReceives`: its value is the second field of the line.
//! Fields are separated by any Unicode whitespace character, and lines by
//! line feeds.
use vstd::prelude::*;

verus! {

/// A line that mentions the counter is malformed.
#[derive(PartialEq, Eq, Structural, Clone, Copy, Debug)]
pub enum CounterError {
    /// The line has no second field.
    MissingValue,
    /// The second field is not a decimal number that fits in a `u64`.
    BadValue,
}

/// The name that marks the lines holding the counter.
pub open spec fn counter_key() -> Seq<char> {
    "Ip6InReceives"@
}

/// A whitespace character: one with the Unicode White_Space property.
pub open spec fn is_blank(c: char) -> bool {
    let n = c as u32;
    ||| 9 <= n <= 13
    ||| n == 32
    ||| n == 0x85
    ||| n == 0xA0
    ||| n == 0x1680
    ||| 0x2000 <= n <= 0x200A
    ||| n == 0x2028
    ||| n == 0x2029
    ||| n == 0x202F
    ||| n == 0x205F
    ||| n == 0x3000
}

/// The position of the first line feed at or after `i`, or the end of the text.
pub open spec fn next_newline(text: Seq<char>, i: int) -> int
    decreases text.len() - i,
{
    if i >= text.len() {
        text.len() as int
    } else if text[i] == '\n' {
        i
    } else {
        next_newline(text, i + 1)
    }
}

/// The position of the first non-whitespace character at or after `i`, or the end of the line.
pub open spec fn skip_blanks(line: Seq<char>, i: int) -> int
    decreases line.len() - i,
{
    if i >= line.len() {
        line.len() as int
    } else if is_blank(line[i]) {
        skip_blanks(line, i + 1)
    } else {
        i
    }
}

/// The position of the first whitespace character at or after `i`, or the end of the line.
pub open spec fn field_end(line: Seq<char>, i: int) -> int
    decreases line.len() - i,
{
    if i >= line.len() {
        line.len() as int
    } else if is_blank(line[i]) {
        i
    } else {
        field_end(line, i + 1)
    }
}

/// The second whitespace-separated field of a line, if it has one.
pub open spec fn second_field(line: Seq<char>) -> Option<Seq<char>> {
    let first_start = skip_blanks(line, 0);
    let second_start = skip_blanks(line, field_end(line, first_start));
    if second_start >= line.len() {
        None
    } else {
        Some(line.subrange(second_start, field_end(line, second_start)))
    }
}

/// Whether `line` holds `key` somewhere.
pub open spec fn mentions(line: Seq<char>, key: Seq<char>) -> bool {
    exists|k: int| 0 <= k && k + key.len() <= line.len() && #[trigger] line.subrange(k, k + key.len()) == key
}

/// Every character is a decimal digit.
pub open spec fn all_digits(s: Seq<char>) -> bool {
    forall|i: int| 0 <= i < s.len() ==> '0' <= #[trigger] s[i] <= '9'
}

/// The number that a string of decimal digits writes.
pub open spec fn digits_value(s: Seq<char>) -> int
    decreases s.len(),
{
    if s.len() == 0 {
        0
    } else {
        digits_value(s.drop_last()) * 10 + (s.last() as int - 48)
    }
}

/// A field read as an unsigned number: an optional `+`, then at least one
/// decimal digit, and a value that fits in a `u64`.
pub open spec fn parse_u64(field: Seq<char>) -> Option<u64> {
    let digits = if field.len() > 0 && field[0] == '+' { field.drop_first() } else { field };
    if digits.len() > 0 && all_digits(digits) && digits_value(digits) <= u64::MAX {
        Some(digits_value(digits) as u64)
    } else {
        None
    }
}

/// The counter on a line that mentions it.
pub open spec fn line_counter(line: Seq<char>) -> Result<u64, CounterError> {
    match second_field(line) {
        None => Err(CounterError::MissingValue),
        Some(field) => match parse_u64(field) {
            None => Err(CounterError::BadValue),
            Some(value) => Ok(value),
        },
    }
}

/// The counters on the lines that mention the counter name, in order, from
/// the line that starts at `start` on; the first malformed such line gives
/// its error. (A line never ends before it starts or past the text; the guard only makes the
/// recursion visibly well-founded.)
pub open spec fn counters_from(text: Seq<char>, start: int) -> Result<Seq<u64>, CounterError>
    decreases text.len() + 1 - start,
{
    if start >= text.len() || start < 0 {
        Ok(Seq::empty())
    } else {
        let end = next_newline(text, start);
        let line = text.subrange(start, end);
        let rest = if end < start || end > text.len() { Ok(Seq::empty()) } else { counters_from(text, end + 1) };
        if !mentions(line, counter_key()) {
            rest
        } else {
            match line_counter(line) {
                Err(e) => Err(e),
                Ok(value) => match rest {
                    Ok(values) => Ok(seq![value] + values),
                    Err(e) => Err(e),
                },
            }
        }
    }
}

/// The next line feed lies between `i` and the end of the text.
pub proof fn lemma_next_newline_bounds(text: Seq<char>, i: int)
    requires
        0 <= i,
    ensures
        i <= text.len() ==> i <= next_newline(text, i) <= text.len(),
        next_newline(text, i) < text.len() ==> text[next_newline(text, i)] == '\n',
    decreases text.len() - i,
{
    if i < text.len() && text[i] != '\n' {
        lemma_next_newline_bounds(text, i + 1);
    }
}

proof fn lemma_skip_blanks_bounds(line: Seq<char>, i: int)
    requires
        0 <= i,
    ensures
        i <= line.len() ==> i <= skip_blanks(line, i) <= line.len(),
    decreases line.len() - i,
{
    if i < line.len() && is_blank(line[i]) {
        lemma_skip_blanks_bounds(line, i + 1);
    }
}

proof fn lemma_field_end_bounds(line: Seq<char>, i: int)
    requires
        0 <= i,
    ensures
        i <= line.len() ==> i <= field_end(line, i) <= line.len(),
    decreases line.len() - i,
{
    if i < line.len() && !is_blank(line[i]) {
        lemma_field_end_bounds(line, i + 1);
    }
}

proof fn lemma_digits_value_grows(s: Seq<char>, i: int)
    requires
        all_digits(s),
        0 <= i <= s.len(),
    ensures
        0 <= digits_value(s.take(i)) <= digits_value(s),
    decreases s.len() - i,
{
    if i < s.len() {
        lemma_digits_value_grows(s, i + 1);
        assert(s.take(i + 1).drop_last() =~= s.take(i));
        assert('0' <= s[i] <= '9');
    } else {
        assert(s.take(i) =~= s);
        lemma_digits_value_nonnegative(s);
    }
}

proof fn lemma_digits_value_nonnegative(s: Seq<char>)
    requires
        all_digits(s),
    ensures
        digits_value(s) >= 0,
    decreases s.len(),
{
    if s.len() > 0 {
        assert(all_digits(s.drop_last())) by {
            assert forall|i: int| 0 <= i < s.drop_last().len() implies '0' <= #[trigger] s.drop_last()[i] <= '9' by {
                assert(s.drop_last()[i] == s[i]);
            }
        }
        lemma_digits_value_nonnegative(s.drop_last());
        assert('0' <= s[s.len() - 1] <= '9');
    }
}

/// The characters of `text`, in order.
fn chars_of(text: &str) -> (chars: Vec<char>)
    ensures
        chars@ == text@,
{
    let mut chars: Vec<char> = Vec::new();
    for c in it: text.chars()
        invariant
            it.seq() == text@,
            chars@ == it.seq().take(it.index() as int),
    {
        chars.push(c);
        assert(chars@ =~= it.seq().take(it.index() + 1));
    }
    assert(chars@ =~= text@);
    chars
}

/// The characters of `text` from `start` up to `end`.
fn copy_range(text: &Vec<char>, start: usize, end: usize) -> (part: Vec<char>)
    requires
        start <= end <= text@.len(),
    ensures
        part@ == text@.subrange(start as int, end as int),
{
    let mut part: Vec<char> = Vec::new();
    let mut i = start;
    while i < end
        invariant
            start <= i <= end <= text@.len(),
            part@ == text@.subrange(start as int, i as int),
        decreases end - i,
    {
        part.push(text[i]);
        assert(part@ =~= text@.subrange(start as int, i + 1));
        i = i + 1;
    }
    part
}

fn is_blank_char(c: char) -> (blank: bool)
    ensures
        blank == is_blank(c),
{
    let n = c as u32;
    (9 <= n && n <= 13) || n == 32 || n == 0x85 || n == 0xA0 || n == 0x1680 || (0x2000 <= n && n <= 0x200A)
        || n == 0x2028 || n == 0x2029 || n == 0x202F || n == 0x205F || n == 0x3000
}

fn find_newline(text: &Vec<char>, start: usize) -> (end: usize)
    requires
        start <= text@.len(),
    ensures
        end == next_newline(text@, start as int),
{
    let mut i = start;
    while i < text.len() && text[i] != '\n'
        invariant
            start <= i <= text@.len(),
            next_newline(text@, i as int) == next_newline(text@, start as int),
        decreases text@.len() - i,
    {
        i = i + 1;
    }
    i
}

fn skip_blank_chars(line: &Vec<char>, start: usize) -> (end: usize)
    requires
        start <= line@.len(),
    ensures
        end == skip_blanks(line@, start as int),
{
    let mut i = start;
    while i < line.len() && is_blank_char(line[i])
        invariant
            start <= i <= line@.len(),
            skip_blanks(line@, i as int) == skip_blanks(line@, start as int),
        decreases line@.len() - i,
    {
        i = i + 1;
    }
    i
}

fn find_field_end(line: &Vec<char>, start: usize) -> (end: usize)
    requires
        start <= line@.len(),
    ensures
        end == field_end(line@, start as int),
{
    let mut i = start;
    while i < line.len() && !is_blank_char(line[i])
        invariant
            start <= i <= line@.len(),
            field_end(line@, i as int) == field_end(line@, start as int),
        decreases line@.len() - i,
    {
        i = i + 1;
    }
    i
}

/// Whether `line` holds `key` somewhere.
fn line_mentions(line: &Vec<char>, key: &Vec<char>) -> (found: bool)
    ensures
        found == mentions(line@, key@),
{
    if key.len() > line.len() {
        return false;
    }
    let last = line.len() - key.len();
    let mut k: usize = 0;
    loop
        invariant
            k <= last,
            line@.len() <= usize::MAX,
            last == line@.len() - key@.len(),
            key@.len() <= line@.len(),
            forall|j: int| 0 <= j < k ==> #[trigger] line@.subrange(j, j + key@.len()) != key@,
        ensures
            forall|j: int| 0 <= j <= last ==> #[trigger] line@.subrange(j, j + key@.len()) != key@,
        decreases last - k,
    {
        let mut j: usize = 0;
        let mut same = true;
        while j < key.len()
            invariant
                k <= last,
                line@.len() <= usize::MAX,
                last == line@.len() - key@.len(),
                key@.len() <= line@.len(),
                j <= key@.len(),
                same ==> forall|m: int| 0 <= m < j ==> line@[k + m] == key@[m],
                !same ==> line@.subrange(k as int, k + key@.len()) != key@,
            decreases key@.len() - j,
        {
            if line[k + j] != key[j] {
                same = false;
                assert(line@.subrange(k as int, k + key@.len())[j as int] != key@[j as int]);
            }
            j = j + 1;
        }
        if same {
            assert(line@.subrange(k as int, k + key@.len()) =~= key@);
            return true;
        }
        if k == last {
            break;
        }
        k = k + 1;
    }
    assert forall|j: int| 0 <= j && j + key@.len() <= line@.len() implies #[trigger] line@.subrange(j, j + key@.len())
        != key@ by {
        assert(j <= last);
    }
    false
}

/// A field read as an unsigned number.
fn parse_field(field: &Vec<char>) -> (value: Option<u64>)
    ensures
        value == parse_u64(field@),
{
    let start: usize = if field.len() > 0 && field[0] == '+' { 1 } else { 0 };
    let ghost digits = if field@.len() > 0 && field@[0] == '+' { field@.drop_first() } else { field@ };
    assert(digits =~= field@.subrange(start as int, field@.len() as int));
    if start == field.len() {
        return None;
    }
    let mut value: u64 = 0;
    let mut i = start;
    while i < field.len()
        invariant
            start <= i <= field@.len(),
            digits =~= field@.subrange(start as int, field@.len() as int),
            digits == (if field@.len() > 0 && field@[0] == '+' { field@.drop_first() } else { field@ }),
            all_digits(digits.take(i - start)),
            value == digits_value(digits.take(i - start)),
        decreases field@.len() - i,
    {
        let c = field[i];
        assert(digits[i - start] == c);
        if c < '0' || c > '9' {
            assert(!all_digits(digits));
            assert(parse_u64(field@) is None);
            return None;
        }
        assert(digits.take(i + 1 - start).drop_last() =~= digits.take(i - start));
        assert(all_digits(digits.take(i + 1 - start)));
        let digit = (c as u32 - 48) as u64;
        let next = match value.checked_mul(10) {
            Some(tens) => tens.checked_add(digit),
            None => None,
        };
        match next {
            Some(n) => {
                value = n;
            },
            None => {
                proof {
                    if all_digits(digits) {
                        lemma_digits_value_grows(digits, i + 1 - start);
                        assert(digits_value(digits.take(i + 1 - start)) > u64::MAX);
                    }
                    assert(parse_u64(field@) is None);
                }
                return None;
            },
        }
        i = i + 1;
    }
    assert(digits.take(i - start) =~= digits);
    Some(value)
}

/// The counter on a line that mentions it.
fn counter_of_line(line: &Vec<char>) -> (counter: Result<u64, CounterError>)
    ensures
        counter == line_counter(line@),
{
    proof {
        lemma_skip_blanks_bounds(line@, 0);
    }
    let first_start = skip_blank_chars(line, 0);
    proof {
        lemma_field_end_bounds(line@, first_start as int);
    }
    let first_end = find_field_end(line, first_start);
    proof {
        lemma_skip_blanks_bounds(line@, first_end as int);
    }
    let second_start = skip_blank_chars(line, first_end);
    if second_start >= line.len() {
        return Err(CounterError::MissingValue);
    }
    proof {
        lemma_field_end_bounds(line@, second_start as int);
    }
    let second_end = find_field_end(line, second_start);
    let field = copy_range(line, second_start, second_end);
    match parse_field(&field) {
        Some(value) => Ok(value),
        None => Err(CounterError::BadValue),
    }
}

/// The received-packets counters in the text of an IPv6 statistics file:
/// for each line that mentions `Ip6InReceives`, in order, its second
/// whitespace-separated field read as an unsigned number. A mentioning line
/// without a second field, or with one that is not such a number, gives
/// an error (the first such line decides).
pub fn receive_counters(text: &str) -> (counters: Result<Vec<u64>, CounterError>)
    ensures
        match counters {
            Ok(values) => counters_from(text@, 0) == Ok::<Seq<u64>, CounterError>(values@),
            Err(e) => counters_from(text@, 0) == Err::<Seq<u64>, CounterError>(e),
        },
{
    let key = chars_of("Ip6InReceives");
    let text_chars = chars_of(text);
    let mut values: Vec<u64> = Vec::new();
    let mut start: usize = 0;
    while start < text_chars.len()
        invariant
            start <= text_chars@.len(),
            text_chars@ == text@,
            key@ == counter_key(),
            counters_from(text@, 0) == match counters_from(text@, start as int) {
                Ok(rest) => Ok::<Seq<u64>, CounterError>(values@ + rest),
                Err(e) => Err(e),
            },
        decreases text_chars@.len() - start,
    {
        proof {
            lemma_next_newline_bounds(text@, start as int);
        }
        let end = find_newline(&text_chars, start);
        let line = copy_range(&text_chars, start, end);
        let ghost rest = counters_from(text@, end + 1);
        if line_mentions(&line, &key) {
            match counter_of_line(&line) {
                Ok(value) => {
                    let ghost before = values@;
                    values.push(value);
                    proof {
                        if rest is Ok {
                            assert(before + (seq![value] + rest->Ok_0) =~= values@ + rest->Ok_0);
                        }
                    }
                },
                Err(e) => {
                    return Err(e);
                },
            }
        }
        if end == text_chars.len() {
            assert(counters_from(text@, end + 1) == Ok::<Seq<u64>, CounterError>(Seq::empty()));
            assert(values@ + Seq::<u64>::empty() =~= values@);
            return Ok(values);
        }
        start = end + 1;
    }
    assert(values@ + Seq::<u64>::empty() =~= values@);
    Ok(values)
}

} // verus!
