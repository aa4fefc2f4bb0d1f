//! Lines of a text, white space and letter case.

use vstd::prelude::*;

verus! {

/// Whether a character is white space: the characters with the Unicode property
/// White_Space.
pub open spec fn white_space(c: char) -> bool {
    let code = c as u32;
    ||| 0x09 <= code <= 0x0d
    ||| code == 0x20 || code == 0x85 || code == 0xa0 || code == 0x1680
    ||| 0x2000 <= code <= 0x200a
    ||| code == 0x2028 || code == 0x2029 || code == 0x202f || code == 0x205f || code == 0x3000
}

/// A text in small letters, as `str::to_lowercase` writes it.
pub uninterp spec fn lowercased(text: Seq<char>) -> Seq<char>;

/// A text in capital letters, as `str::to_uppercase` writes it.
pub uninterp spec fn uppercased(text: Seq<char>) -> Seq<char>;

/// `char::is_whitespace`: it tells of the Unicode property White_Space, and the
/// contract lists the characters that have it.
pub assume_specification[ char::is_whitespace ](c: char) -> (white: bool)
    ensures
        white == white_space(c),
;

/// `str::to_lowercase`: the contract only names the result as a function of the
/// text.
pub assume_specification[ str::to_lowercase ](s: &str) -> (lower: String)
    ensures
        lower@ == lowercased(s@),
;

/// `str::to_uppercase`: the contract only names the result as a function of the
/// text.
pub assume_specification[ str::to_uppercase ](s: &str) -> (upper: String)
    ensures
        upper@ == uppercased(s@),
;

/// The place of the first occurrence of a character.
pub open spec fn first_at(text: Seq<char>, c: char) -> Option<int>
    decreases text.len(),
{
    if text.len() == 0 {
        None
    } else if text[0] == c {
        Some(0)
    } else {
        match first_at(text.drop_first(), c) {
            Some(i) => Some(i + 1),
            None => None,
        }
    }
}

/// The place of the first occurrence of a character from a place on.
pub fn find_from(text: &str, start: usize, c: char) -> (place: Option<usize>)
    requires
        start <= text@.len(),
    ensures
        match place {
            Some(i) => start <= i < text@.len() && first_at(text@.skip(start as int), c) == Some(
                i - start,
            ),
            None => first_at(text@.skip(start as int), c) is None,
        },
{
    let n: usize = text.unicode_len();
    let mut i: usize = start;
    while i < n
        invariant
            start <= i <= n,
            n == text@.len(),
            first_at(text@.skip(start as int), c) == match first_at(text@.skip(i as int), c) {
                Some(k) => Some(k + i - start),
                None => None,
            },
        decreases n - i,
    {
        assert(text@.skip(i as int)[0] == text@[i as int]);
        assert(text@.skip(i as int).drop_first() =~= text@.skip(i + 1));
        if text.get_char(i) == c {
            return Some(i);
        }
        i = i + 1;
    }
    None
}

/// The characters between two places.
pub fn between(text: &str, start: usize, end: usize) -> (part: String)
    requires
        start <= end <= text@.len(),
    ensures
        part@ == text@.subrange(start as int, end as int),
{
    text.substring_char(start, end).to_owned()
}

/// A line without the carriage return at its end.
pub open spec fn without_return(line: Seq<char>) -> Seq<char> {
    if line.len() > 0 && line.last() == '\r' {
        line.drop_last()
    } else {
        line
    }
}

/// The lines of a text: a line feed ends a line, with a carriage return before it
/// or not, and the last line needs none.
pub open spec fn lines_of(text: Seq<char>) -> Seq<Seq<char>>
    decreases text.len(),
{
    if text.len() == 0 {
        Seq::empty()
    } else {
        proof {
            lemma_first_at(text, '\n');
        }
        match first_at(text, '\n') {
            Some(i) => seq![without_return(text.take(i))] + lines_of(text.skip(i + 1)),
            None => seq![text],
        }
    }
}

/// Texts, for contracts.
pub open spec fn texts(lines: Seq<String>) -> Seq<Seq<char>> {
    lines.map_values(|line: String| line@)
}

pub proof fn lemma_first_at(text: Seq<char>, c: char)
    ensures
        first_at(text, c) matches Some(i) ==> 0 <= i < text.len(),
    decreases text.len(),
{
    if text.len() > 0 {
        lemma_first_at(text.drop_first(), c);
    }
}

/// Cut a text into its lines.
pub fn split_lines(text: &str) -> (lines: Vec<String>)
    ensures
        texts(lines@) == lines_of(text@),
{
    let n: usize = text.unicode_len();
    let mut lines: Vec<String> = Vec::new();
    let mut start: usize = 0;
    assert(text@.skip(0) =~= text@);
    assert(texts(lines@) =~= Seq::<Seq<char>>::empty());
    while start < n
        invariant
            start <= n,
            n == text@.len(),
            lines_of(text@) == texts(lines@) + lines_of(text@.skip(start as int)),
        decreases n - start,
    {
        let ghost before = texts(lines@);
        let ghost rest = text@.skip(start as int);
        proof {
            lemma_first_at(rest, '\n');
        }
        match find_from(text, start, '\n') {
            Some(end) => {
                let stop: usize = if end > start && text.get_char(end - 1) == '\r' {
                    end - 1
                } else {
                    end
                };
                let line = between(text, start, stop);
                proof {
                    assert(rest.take(end - start).len() == end - start);
                    assert(line@ =~= without_return(rest.take(end - start)));
                    assert(rest.skip(end - start + 1) =~= text@.skip(end + 1));
                }
                lines.push(line);
                assert(texts(lines@) =~= before.push(line@));
                assert(lines_of(text@) =~= texts(lines@) + lines_of(text@.skip(end + 1)));
                start = end + 1;
            },
            None => {
                let line = between(text, start, n);
                assert(line@ =~= rest);
                lines.push(line);
                assert(texts(lines@) =~= before.push(line@));
                assert(text@.skip(n as int).len() == 0);
                assert(lines_of(text@) =~= texts(lines@) + lines_of(text@.skip(n as int)));
                start = n;
            },
        }
    }
    assert(text@.skip(start as int).len() == 0);
    assert(texts(lines@) =~= lines_of(text@));
    lines
}

/// A text without the white space at its end.
pub open spec fn end_trimmed(text: Seq<char>) -> Seq<char>
    decreases text.len(),
{
    if text.len() > 0 && white_space(text.last()) {
        end_trimmed(text.drop_last())
    } else {
        text
    }
}

/// A text without the white space at its beginning.
pub open spec fn start_trimmed(text: Seq<char>) -> Seq<char>
    decreases text.len(),
{
    if text.len() > 0 && white_space(text[0]) {
        start_trimmed(text.drop_first())
    } else {
        text
    }
}

/// A text without the white space at its end.
pub fn trim_end(text: &str) -> (trimmed: String)
    ensures
        trimmed@ == end_trimmed(text@),
{
    let mut end: usize = text.unicode_len();
    assert(text@.take(end as int) =~= text@);
    while end > 0 && text.get_char(end - 1).is_whitespace()
        invariant
            end <= text@.len(),
            end_trimmed(text@) == end_trimmed(text@.take(end as int)),
        decreases end,
    {
        assert(text@.take(end as int).drop_last() =~= text@.take(end - 1));
        end = end - 1;
    }
    assert(text@.subrange(0, end as int) =~= text@.take(end as int));
    between(text, 0, end)
}

/// A text without the white space at its beginning.
pub fn trim_start(text: &str) -> (trimmed: String)
    ensures
        trimmed@ == start_trimmed(text@),
{
    let n: usize = text.unicode_len();
    let mut start: usize = 0;
    assert(text@.skip(0) =~= text@);
    while start < n && text.get_char(start).is_whitespace()
        invariant
            start <= n,
            n == text@.len(),
            start_trimmed(text@) == start_trimmed(text@.skip(start as int)),
        decreases n - start,
    {
        assert(text@.skip(start as int).drop_first() =~= text@.skip(start + 1));
        start = start + 1;
    }
    assert(text@.subrange(start as int, n as int) =~= text@.skip(start as int));
    between(text, start, n)
}

/// A text with spaces and underscores written as hyphens.
pub open spec fn hyphenated(text: Seq<char>) -> Seq<char> {
    text.map_values(
        |c: char|
            if c == ' ' || c == '_' {
                '-'
            } else {
                c
            },
    )
}

/// Whether two texts are the same but for spaces, underscores and hyphens.
pub fn same_hyphenated(left: &str, right: &str) -> (same: bool)
    ensures
        same == (hyphenated(left@) == hyphenated(right@)),
{
    let n: usize = left.unicode_len();
    if n != right.unicode_len() {
        assert(hyphenated(left@).len() != hyphenated(right@).len());
        return false;
    }
    let mut i: usize = 0;
    while i < n
        invariant
            i <= n,
            n == left@.len(),
            n == right@.len(),
            forall|k: int| 0 <= k < i ==> hyphenated(left@)[k] == hyphenated(right@)[k],
        decreases n - i,
    {
        let a = left.get_char(i);
        let b = right.get_char(i);
        let a = if a == ' ' || a == '_' {
            '-'
        } else {
            a
        };
        let b = if b == ' ' || b == '_' {
            '-'
        } else {
            b
        };
        assert(hyphenated(left@)[i as int] == a);
        assert(hyphenated(right@)[i as int] == b);
        if a != b {
            return false;
        }
        i = i + 1;
    }
    assert(hyphenated(left@) =~= hyphenated(right@));
    true
}

/// A text without a line feed is one line.
pub proof fn law_a_text_without_breaks_is_one_line(text: Seq<char>)
    requires
        text.len() > 0,
        forall|i: int| 0 <= i < text.len() ==> text[i] != '\n',
    ensures
        lines_of(text) == seq![text],
{
    lemma_nowhere(text, '\n');
}

proof fn lemma_nowhere(text: Seq<char>, c: char)
    requires
        forall|i: int| 0 <= i < text.len() ==> text[i] != c,
    ensures
        first_at(text, c) is None,
    decreases text.len(),
{
    if text.len() > 0 {
        let rest = text.drop_first();
        assert forall|i: int| 0 <= i < rest.len() implies rest[i] != c by {
            assert(rest[i] == text[i + 1]);
        }
        lemma_nowhere(rest, c);
    }
}

/// The first place of a character is where it stands first.
pub proof fn law_the_first_place_is_the_first(text: Seq<char>, c: char, at: int)
    requires
        0 <= at < text.len(),
        text[at] == c,
        forall|i: int| 0 <= i < at ==> text[i] != c,
    ensures
        first_at(text, c) == Some(at),
    decreases text.len(),
{
    if at > 0 {
        assert(text[0] != c);
        let rest = text.drop_first();
        assert forall|i: int| 0 <= i < at - 1 implies rest[i] != c by {
            assert(rest[i] == text[i + 1]);
        }
        law_the_first_place_is_the_first(rest, c, at - 1);
    }
}

/// A line feed ends a line, with a carriage return before it or not, and what
/// follows are the lines of the rest.
pub proof fn law_a_line_feed_ends_a_line(line: Seq<char>, rest: Seq<char>)
    requires
        forall|i: int| 0 <= i < line.len() ==> line[i] != '\n',
    ensures
        lines_of(line + seq!['\r', '\n'] + rest) == seq![line] + lines_of(rest),
        line.len() == 0 || line.last() != '\r' ==> lines_of(line + seq!['\n'] + rest) == seq![line]
            + lines_of(rest),
{
    let text = line + seq!['\n'] + rest;
    let n = line.len() as int;
    law_the_first_place_is_the_first(text, '\n', n);
    assert(text.take(n) =~= line);
    assert(text.skip(n + 1) =~= rest);
    let returned = line + seq!['\r', '\n'] + rest;
    law_the_first_place_is_the_first(returned, '\n', n + 1);
    assert(returned.take(n + 1) =~= line.push('\r'));
    assert(line.push('\r').drop_last() =~= line);
    assert(returned.skip(n + 2) =~= rest);
}

/// Trimming takes white space at that end and nothing else.
pub proof fn law_trimming_takes_white_space(text: Seq<char>, c: char)
    ensures
        white_space(c) ==> end_trimmed(text.push(c)) == end_trimmed(text),
        !white_space(c) ==> end_trimmed(text.push(c)) == text.push(c),
        white_space(c) ==> start_trimmed(seq![c] + text) == start_trimmed(text),
        !white_space(c) ==> start_trimmed(seq![c] + text) == seq![c] + text,
        end_trimmed(Seq::empty()).len() == 0,
        start_trimmed(Seq::empty()).len() == 0,
{
    assert(text.push(c).drop_last() =~= text);
    assert((seq![c] + text).drop_first() =~= text);
    assert((seq![c] + text)[0] == c);
}

/// Hyphenating writes hyphens for spaces and underscores, and keeps every other
/// character.
pub proof fn law_hyphens_stand_for_spaces(text: Seq<char>, i: int)
    requires
        0 <= i < text.len(),
    ensures
        hyphenated(text).len() == text.len(),
        text[i] == ' ' || text[i] == '_' ==> hyphenated(text)[i] == '-',
        text[i] != ' ' && text[i] != '_' ==> hyphenated(text)[i] == text[i],
{
}

} // verus!
