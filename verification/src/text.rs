//! Plain text handling: lines, white space, decimal numbers and quoting.
//!
//! Text is modelled as the sequence of its characters. The executable functions work on a
//! vector of characters and on index ranges into it, so that nothing is copied while scanning.

use vstd::prelude::*;

verus! {

/// Whether `c` has the Unicode property `White_Space`.
pub open spec fn is_white_space(c: char) -> bool {
    ||| '\u{9}' <= c <= '\u{d}'
    ||| c == '\u{20}'
    ||| c == '\u{85}'
    ||| c == '\u{a0}'
    ||| c == '\u{1680}'
    ||| '\u{2000}' <= c <= '\u{200a}'
    ||| c == '\u{2028}'
    ||| c == '\u{2029}'
    ||| c == '\u{202f}'
    ||| c == '\u{205f}'
    ||| c == '\u{3000}'
}

/// Returns whether `c` is white space.
pub fn white_space(c: char) -> (yes: bool)
    ensures
        yes == is_white_space(c),
{
    ('\u{9}' <= c && c <= '\u{d}') || c == '\u{20}' || c == '\u{85}' || c == '\u{a0}' || c
        == '\u{1680}' || ('\u{2000}' <= c && c <= '\u{200a}') || c == '\u{2028}' || c == '\u{2029}'
        || c == '\u{202f}' || c == '\u{205f}' || c == '\u{3000}'
}

/// `s` without the white space it begins with.
pub open spec fn trim_start(s: Seq<char>) -> Seq<char>
    decreases s.len(),
{
    if s.len() > 0 && is_white_space(s[0]) {
        trim_start(s.skip(1))
    } else {
        s
    }
}

/// `s` without the white space it ends with.
pub open spec fn trim_end(s: Seq<char>) -> Seq<char>
    decreases s.len(),
{
    if s.len() > 0 && is_white_space(s.last()) {
        trim_end(s.drop_last())
    } else {
        s
    }
}

/// `s` without the white space around it.
pub open spec fn trim(s: Seq<char>) -> Seq<char> {
    trim_end(trim_start(s))
}

/// How many characters come before the first line feed of `s`, or in `s` if it has none.
pub open spec fn line_len(s: Seq<char>) -> nat
    decreases s.len(),
{
    if s.len() == 0 || s[0] == '\n' {
        0
    } else {
        1 + line_len(s.skip(1))
    }
}

/// `s` without one carriage return at its end.
pub open spec fn without_cr(s: Seq<char>) -> Seq<char> {
    if s.len() > 0 && s.last() == '\r' {
        s.drop_last()
    } else {
        s
    }
}

/// The lines of `s`. A line ends in a line feed, or in a carriage return and a line feed,
/// neither of which belongs to it; the last line need not end in either.
pub open spec fn lines(s: Seq<char>) -> Seq<Seq<char>>
    decreases s.len(),
{
    if s.len() == 0 {
        Seq::empty()
    } else {
        let n = line_len(s) as int;
        if n < s.len() {
            seq![without_cr(s.take(n))] + lines(s.skip(n + 1))
        } else {
            seq![s]
        }
    }
}

/// The value of a sequence of decimal digits.
pub open spec fn digits_value(s: Seq<char>) -> nat
    decreases s.len(),
{
    if s.len() == 0 {
        0
    } else {
        digits_value(s.drop_last()) * 10 + digit_value(s.last())
    }
}

/// The value of one decimal digit.
pub open spec fn digit_value(c: char) -> nat {
    (c as int - '0' as int) as nat
}

/// Whether `s` is a non-empty sequence of ASCII decimal digits.
pub open spec fn is_digits(s: Seq<char>) -> bool {
    s.len() > 0 && forall|i: int| 0 <= i < s.len() ==> '0' <= #[trigger] s[i] <= '9'
}

/// `s` without one plus sign at its beginning.
pub open spec fn without_plus(s: Seq<char>) -> Seq<char> {
    if s.len() > 0 && s[0] == '+' {
        s.skip(1)
    } else {
        s
    }
}

/// The number that `s` spells in decimal, with an optional plus sign, if it spells one that
/// 64 bits can hold.
pub open spec fn decimal(s: Seq<char>) -> Option<u64> {
    let digits = without_plus(s);
    if is_digits(digits) && digits_value(digits) <= u64::MAX {
        Some(digits_value(digits) as u64)
    } else {
        None
    }
}

/// `s` in double quotes if it holds a space, and as it is otherwise.
pub open spec fn quoted(s: Seq<char>) -> Seq<char> {
    if s.contains(' ') {
        "\""@ + s + "\""@
    } else {
        s
    }
}

/// Collects the characters of `text`.
pub fn characters(text: &str) -> (chars: Vec<char>)
    ensures
        chars@ == text@,
{
    let mut chars: Vec<char> = Vec::new();
    for c in it: text.chars()
        invariant
            it.seq() == text@,
            chars@ == it.seq().take(it.index()),
    {
        chars.push(c);
    }
    chars
}

/// Finds the end of the line that begins at `from`.
pub fn line_end(text: &Vec<char>, from: usize) -> (end: usize)
    requires
        from <= text@.len(),
    ensures
        from <= end <= text@.len(),
        end == from + line_len(text@.skip(from as int)),
        end < text@.len() ==> text@[end as int] == '\n',
{
    let mut end: usize = from;
    while end < text.len() && text[end] != '\n'
        invariant
            from <= end <= text@.len(),
            line_len(text@.skip(from as int)) == end - from + line_len(text@.skip(end as int)),
        decreases text@.len() - end,
    {
        assert(text@.skip(end as int).skip(1) =~= text@.skip(end + 1));
        end = end + 1;
    }
    end
}

/// Returns whether the characters from `from` to `end` begin with `prefix`.
pub fn begins_with(text: &Vec<char>, from: usize, end: usize, prefix: &Vec<char>) -> (yes: bool)
    requires
        from <= end <= text@.len(),
    ensures
        yes == prefix@.is_prefix_of(text@.subrange(from as int, end as int)),
{
    if end - from < prefix.len() {
        return false;
    }
    let ghost part = text@.subrange(from as int, end as int);
    for i in 0..prefix.len()
        invariant
            from + prefix@.len() <= end <= text@.len(),
            part == text@.subrange(from as int, end as int),
            forall|j: int| 0 <= j < i ==> prefix@[j] == part[j],
    {
        if text[from + i] != prefix[i] {
            assert(part[i as int] != prefix@[i as int]);
            return false;
        }
    }
    assert(prefix@ =~= part.subrange(0, prefix@.len() as int));
    true
}

/// Skips the white space at the beginning of the characters from `from` to `end`.
pub fn skip_white_space(text: &Vec<char>, from: usize, end: usize) -> (start: usize)
    requires
        from <= end <= text@.len(),
    ensures
        from <= start <= end,
        text@.subrange(start as int, end as int) == trim_start(
            text@.subrange(from as int, end as int),
        ),
{
    let mut start: usize = from;
    while start < end && white_space(text[start])
        invariant
            from <= start <= end <= text@.len(),
            trim_start(text@.subrange(from as int, end as int)) == trim_start(
                text@.subrange(start as int, end as int),
            ),
        decreases end - start,
    {
        assert(text@.subrange(start as int, end as int).skip(1) =~= text@.subrange(
            start + 1,
            end as int,
        ));
        start = start + 1;
    }
    start
}

/// Drops the white space at the end of the characters from `from` to `end`.
pub fn drop_white_space(text: &Vec<char>, from: usize, end: usize) -> (stop: usize)
    requires
        from <= end <= text@.len(),
    ensures
        from <= stop <= end,
        text@.subrange(from as int, stop as int) == trim_end(
            text@.subrange(from as int, end as int),
        ),
{
    let mut stop: usize = end;
    while from < stop && white_space(text[stop - 1])
        invariant
            from <= stop <= end <= text@.len(),
            trim_end(text@.subrange(from as int, end as int)) == trim_end(
                text@.subrange(from as int, stop as int),
            ),
        decreases stop,
    {
        assert(text@.subrange(from as int, stop as int).drop_last() =~= text@.subrange(
            from as int,
            stop - 1,
        ));
        stop = stop - 1;
    }
    stop
}

/// A sequence of digits is worth at least as much as what it begins with.
proof fn lemma_digits_value_prefix(s: Seq<char>, n: int)
    requires
        0 <= n <= s.len(),
    ensures
        digits_value(s.take(n)) <= digits_value(s),
    decreases s.len() - n,
{
    if n < s.len() {
        lemma_digits_value_prefix(s, n + 1);
        assert(s.take(n + 1).drop_last() =~= s.take(n));
    } else {
        assert(s.take(n) =~= s);
    }
}

/// Reads the characters from `from` to `end` as a decimal number.
pub fn parse_decimal(text: &Vec<char>, from: usize, end: usize) -> (number: Option<u64>)
    requires
        from <= end <= text@.len(),
    ensures
        number == decimal(text@.subrange(from as int, end as int)),
{
    let ghost part = text@.subrange(from as int, end as int);
    let start: usize = if from < end && text[from] == '+' {
        from + 1
    } else {
        from
    };
    let ghost digits = without_plus(part);
    assert(digits =~= text@.subrange(start as int, end as int));
    if start == end {
        return None;
    }
    let mut value: u64 = 0;
    let mut i: usize = start;
    assert(digits.take(0) =~= Seq::<char>::empty());
    while i < end
        invariant
            start <= i <= end <= text@.len(),
            digits == text@.subrange(start as int, end as int),
            digits == without_plus(part),
            part == text@.subrange(from as int, end as int),
            forall|j: int| 0 <= j < i - start ==> '0' <= #[trigger] digits[j] <= '9',
            value == digits_value(digits.take(i - start)),
        decreases end - i,
    {
        let c = text[i];
        assert(digits[i - start] == c);
        if !('0' <= c && c <= '9') {
            return None;
        }
        let digit: u64 = (c as u32 - '0' as u32) as u64;
        assert(digits.take(i - start + 1).drop_last() =~= digits.take(i - start));
        proof {
            lemma_digits_value_prefix(digits, i - start + 1);
        }
        if value > (u64::MAX - digit) / 10 {
            return None;
        }
        value = value * 10 + digit;
        i = i + 1;
    }
    assert(digits.take(end - start) =~= digits);
    Some(value)
}

/// Returns whether `text` holds a space.
pub fn has_space(text: &str) -> (yes: bool)
    ensures
        yes == text@.contains(' '),
{
    let chars = characters(text);
    for i in 0..chars.len()
        invariant
            chars@ == text@,
            forall|j: int| 0 <= j < i ==> text@[j] != ' ',
    {
        if chars[i] == ' ' {
            return true;
        }
    }
    false
}

/// Appends `text` to `out`, quoted if it holds a space.
pub fn push_quoted(out: &mut String, text: &str)
    ensures
        final(out)@ == old(out)@ + quoted(text@),
{
    if has_space(text) {
        out.append("\"");
        out.append(text);
        out.append("\"");
        assert(out@ =~= old(out)@ + quoted(text@));
    } else {
        out.append(text);
    }
}

/// White space is what Unicode says it is: tab to carriage return, space, next line, the
/// no-break space, and the spaces and separators of other scripts.
pub proof fn lemma_white_space_is_unicode(c: char)
    ensures
        is_white_space(c) <==> ({
            let n = c as int;
            9 <= n <= 13 || n == 32 || n == 133 || n == 160 || n == 5760 || 8192 <= n <= 8202 || n
                == 8232 || n == 8233 || n == 8239 || n == 8287 || n == 12288
        }),
{
}

/// What comes before the first line feed is as long as it is.
proof fn lemma_line_len(line: Seq<char>, rest: Seq<char>)
    requires
        !line.contains('\n'),
        rest.len() > 0 ==> rest[0] == '\n',
    ensures
        line_len(line + rest) == line.len(),
    decreases line.len(),
{
    if line.len() > 0 {
        assert(line.contains(line[0]));
        assert((line + rest).skip(1) =~= line.skip(1) + rest);
        assert(!line.skip(1).contains('\n')) by {
            if line.skip(1).contains('\n') {
                let i = choose|i: int| 0 <= i < line.skip(1).len() && line.skip(1)[i] == '\n';
                assert(line[i + 1] == '\n');
            }
        }
        lemma_line_len(line.skip(1), rest);
    } else {
        assert(line + rest =~= rest);
    }
}

/// A text is split at its line feeds: what comes before one is a line, without the carriage return
/// that it may end in, and the lines of what comes after it follow. What comes after the last one
/// is a line as it is, unless it is empty.
pub proof fn lemma_lines_are_split_at_line_feeds(line: Seq<char>, rest: Seq<char>)
    requires
        !line.contains('\n'),
    ensures
        lines(line + seq!['\n'] + rest) == seq![
            if line.len() > 0 && line[line.len() - 1] == '\r' {
                line.take(line.len() - 1)
            } else {
                line
            },
        ] + lines(rest),
        line.len() > 0 ==> lines(line) == seq![line],
        lines(Seq::<char>::empty()) == Seq::<Seq<char>>::empty(),
{
    let text = line + seq!['\n'] + rest;
    assert(text =~= line + (seq!['\n'] + rest));
    lemma_line_len(line, seq!['\n'] + rest);
    assert(text.take(line.len() as int) =~= line);
    assert(text.skip(line.len() as int + 1) =~= rest);
    assert(line + Seq::<char>::empty() =~= line);
    lemma_line_len(line, Seq::empty());
    if line.len() > 0 {
        assert(line.take(line.len() - 1) =~= line.drop_last());
    }
}

/// White space is trimmed from where it begins a text.
proof fn lemma_trim_start_removes(space: Seq<char>, text: Seq<char>)
    requires
        forall|i: int| 0 <= i < space.len() ==> is_white_space(#[trigger] space[i]),
    ensures
        trim_start(space + text) == trim_start(text),
    decreases space.len(),
{
    if space.len() > 0 {
        assert((space + text).skip(1) =~= space.skip(1) + text);
        lemma_trim_start_removes(space.skip(1), text);
    } else {
        assert(space + text =~= text);
    }
}

/// White space is trimmed from where it ends a text.
proof fn lemma_trim_end_removes(text: Seq<char>, space: Seq<char>)
    requires
        forall|i: int| 0 <= i < space.len() ==> is_white_space(#[trigger] space[i]),
    ensures
        trim_end(text + space) == trim_end(text),
    decreases space.len(),
{
    if space.len() > 0 {
        assert((text + space).drop_last() =~= text + space.drop_last());
        assert((text + space).last() == space[space.len() - 1]);
        lemma_trim_end_removes(text, space.drop_last());
    } else {
        assert(text + space =~= text);
    }
}

/// Trimming removes all the white space around a text and nothing of the text.
pub proof fn lemma_trimming_leaves_the_text(before: Seq<char>, text: Seq<char>, after: Seq<char>)
    requires
        forall|i: int| 0 <= i < before.len() ==> is_white_space(#[trigger] before[i]),
        forall|i: int| 0 <= i < after.len() ==> is_white_space(#[trigger] after[i]),
        text.len() > 0,
        !is_white_space(text[0]),
        !is_white_space(text[text.len() - 1]),
    ensures
        trim(before + text + after) == text,
        trim_start(before + text + after) == text + after,
        trim(before) == Seq::<char>::empty(),
        trim_start(before) == Seq::<char>::empty(),
{
    assert(before + text + after =~= before + (text + after));
    lemma_trim_start_removes(before, text + after);
    assert((text + after)[0] == text[0]);
    lemma_trim_end_removes(text, after);
    assert(before + Seq::<char>::empty() =~= before);
    lemma_trim_start_removes(before, Seq::empty());
}

/// Numbers are read digit by digit: one more digit makes ten times as much and the digit, as long
/// as 64 bits can hold it. A plus sign may come first. Anything else is no number, and nothing
/// that follows makes it one.
pub proof fn lemma_numbers_are_read_digit_by_digit(text: Seq<char>, c: char)
    ensures
        decimal(Seq::empty()) is None,
        decimal(seq!['+']) is None,
        !('0' <= c <= '9') ==> decimal(text.push(c)) is None,
        text.len() == 0 && '0' <= c <= '9' ==> decimal(text.push(c)) is Some && decimal(
            text.push(c),
        )->0 == c as int - '0' as int,
        text == seq!['+'] && '0' <= c <= '9' ==> decimal(text.push(c)) is Some && decimal(
            text.push(c),
        )->0 == c as int - '0' as int,
        decimal(text) matches Some(n) ==> '0' <= c <= '9' ==> ({
            let more = n * 10 + (c as int - '0' as int);
            &&& more <= u64::MAX ==> decimal(text.push(c)) is Some && decimal(text.push(c))->0
                == more
            &&& more > u64::MAX ==> decimal(text.push(c)) is None
        }),
        text.len() > 0 && text != seq!['+'] && decimal(text) is None ==> decimal(
            text.push(c),
        ) is None,
{
    let more = text.push(c);
    let digits = without_plus(text);
    reveal_with_fuel(digits_value, 3);
    assert(without_plus(Seq::<char>::empty()).len() == 0);
    assert(without_plus(seq!['+']) =~= Seq::<char>::empty());
    if text.len() == 0 {
        assert(more =~= seq![c]);
        if c == '+' {
            assert(without_plus(more) =~= Seq::<char>::empty());
        } else {
            assert(without_plus(more) =~= seq![c]);
            assert(seq![c].drop_last() =~= Seq::<char>::empty());
            assert(!('0' <= c <= '9') ==> !is_digits(seq![c])) by {
                assert(seq![c][0] == c);
            }
        }
    } else {
        assert(without_plus(more) =~= digits.push(c));
        assert(digits.push(c).drop_last() =~= digits);
        assert(digits.push(c)[digits.len() as int] == c);
        assert(digits_value(digits.push(c)) == digits_value(digits) * 10 + digit_value(c));
        if is_digits(digits.push(c)) && digits.len() > 0 {
            assert forall|i: int| 0 <= i < digits.len() implies '0' <= #[trigger] digits[i]
                <= '9' by {
                assert(digits.push(c)[i] == digits[i]);
            }
        }
        if digits.len() == 0 {
            assert(text =~= seq!['+']);
            assert(digits.push(c) =~= seq![c]);
        }
        if is_digits(digits) && '0' <= c <= '9' {
            assert(is_digits(digits.push(c)));
        }
    }
}

/// A text is quoted if it holds a space, and only then, and the quotes are all that is added.
pub proof fn lemma_texts_with_spaces_are_quoted(text: Seq<char>)
    ensures
        (exists|i: int| 0 <= i < text.len() && #[trigger] text[i] == ' ') ==> quoted(text) == seq![
            '"',
        ] + text + seq!['"'],
        (forall|i: int| 0 <= i < text.len() ==> #[trigger] text[i] != ' ') ==> quoted(text) == text,
{
    reveal_strlit("\"");
    assert("\""@ =~= seq!['"']);
}

} // verus!
