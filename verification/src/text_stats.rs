//! Line, word and character statistics of a text, and the tidying of its
//! lines.

use crate::text::{byte_len, unicode_whitespace};
use vstd::prelude::*;
use vstd::utf8::{encode_scalar, encode_utf8};

verus! {

/// Whether a word begins at index `i` of `text`: the character there is no
/// white space, and it is the first of the text or follows white space.
pub open spec fn word_starts_at(text: Seq<char>, i: int) -> bool {
    &&& 0 <= i < text.len()
    &&& !unicode_whitespace(text[i])
    &&& (i == 0 || unicode_whitespace(text[i - 1]))
}

/// The number of words in `text`: maximal runs of characters that are not
/// white space.
pub open spec fn word_count(text: Seq<char>) -> nat
    decreases text.len(),
{
    if text.len() == 0 {
        0
    } else {
        word_count(text.drop_last()) + if word_starts_at(text, text.len() - 1) {
            1nat
        } else {
            0nat
        }
    }
}

/// Appending a character adds its encoding's length to the byte length.
pub proof fn lemma_byte_len_push(text: Seq<char>, c: char)
    ensures
        byte_len(text.push(c)) == byte_len(text) + encode_scalar(c as u32).len(),
    decreases text.len(),
{
    if text.len() == 0 {
        assert(text.push(c).drop_first() == Seq::<char>::empty());
        assert(encode_utf8(Seq::<char>::empty()).len() == 0);
    } else {
        assert(text.push(c).drop_first() == text.drop_first().push(c));
        lemma_byte_len_push(text.drop_first(), c);
    }
}

/// The characters of `text`, one by one.
pub fn chars_of(text: &str) -> (chars: Vec<char>)
    ensures
        chars@ == text@,
{
    let mut chars: Vec<char> = Vec::new();
    let iter = text.chars();
    proof {
        broadcast use vstd::string::axiom_spec_iter;
    }
    let ghost mut seen: int = 0;
    for c in it: iter
        invariant
            it.seq() == text@,
            seen == it.index(),
            chars@ == text@.take(seen),
    {
        proof {
            assert(text@.take(seen + 1) == text@.take(seen).push(c));
            seen = seen + 1;
        }
        chars.push(c);
    }
    proof {
        assert(text@.take(seen) == text@);
    }
    chars
}

/// The size of `text` in bytes.
pub fn analyze_content(text: &str) -> (size: usize)
    ensures
        size == byte_len(text@),
{
    text.as_bytes().len()
}

/// The number of characters in `text`.
pub fn count_chars(text: &str) -> (count: usize)
    ensures
        count == text@.len(),
{
    text.unicode_len()
}

fn count_words_in(chars: &Vec<char>) -> (count: usize)
    ensures
        count == word_count(chars@),
{
    let mut count: usize = 0;
    let mut after_space: bool = true;
    let mut i: usize = 0;
    while i < chars.len()
        invariant
            i <= chars.len(),
            count == word_count(chars@.take(i as int)),
            count <= i,
            after_space == (i == 0 || unicode_whitespace(chars@[i - 1])),
        decreases chars.len() - i,
    {
        let space = chars[i].is_whitespace();
        proof {
            assert(chars@.take(i + 1).drop_last() == chars@.take(i as int));
        }
        if !space && after_space {
            count = count + 1;
        }
        after_space = space;
        i = i + 1;
    }
    proof {
        assert(chars@.take(i as int) == chars@);
    }
    count
}

/// The number of words in `text`, white space being what separates them.
pub fn count_words(text: &str) -> (count: usize)
    ensures
        count == word_count(text@),
{
    let chars = chars_of(text);
    count_words_in(&chars)
}

/// The characters of `text` after its last line feed.
pub open spec fn pending_line(text: Seq<char>) -> Seq<char>
    decreases text.len(),
{
    if text.len() == 0 || text.last() == '\n' {
        Seq::empty()
    } else {
        pending_line(text.drop_last()).push(text.last())
    }
}

/// A line without the carriage return that may end it.
pub open spec fn strip_carriage_return(line: Seq<char>) -> Seq<char> {
    if line.len() > 0 && line.last() == '\r' {
        line.drop_last()
    } else {
        line
    }
}

/// The lines of `text` that a line feed ends, each without its line feed
/// and without the carriage return before it, if there is one.
pub open spec fn terminated_lines(text: Seq<char>) -> Seq<Seq<char>>
    decreases text.len(),
{
    if text.len() == 0 {
        Seq::empty()
    } else if text.last() == '\n' {
        terminated_lines(text.drop_last()).push(
            strip_carriage_return(pending_line(text.drop_last())),
        )
    } else {
        terminated_lines(text.drop_last())
    }
}

/// The lines of `text`. A line ends at a line feed, or at a carriage return
/// and a line feed; what follows the last line feed is a line of its own
/// unless it is empty.
pub open spec fn lines_of(text: Seq<char>) -> Seq<Seq<char>> {
    if pending_line(text).len() > 0 {
        terminated_lines(text).push(pending_line(text))
    } else {
        terminated_lines(text)
    }
}

/// What follows the last line feed holds no line feed.
pub proof fn lemma_pending_line_has_no_line_feed(text: Seq<char>)
    ensures
        !pending_line(text).contains('\n'),
    decreases text.len(),
{
    if text.len() > 0 && text.last() != '\n' {
        let rest = pending_line(text.drop_last());
        lemma_pending_line_has_no_line_feed(text.drop_last());
        assert forall|i: int| 0 <= i < rest.push(text.last()).len() implies rest.push(
            text.last(),
        )[i] != '\n' by {
            if i < rest.len() {
                assert(rest.contains(rest[i]));
            }
        }
    }
}

/// No line holds a line feed.
pub proof fn lemma_lines_have_no_line_feed(text: Seq<char>, k: int)
    requires
        0 <= k < lines_of(text).len(),
    ensures
        !lines_of(text)[k].contains('\n'),
{
    lemma_pending_line_has_no_line_feed(text);
    if k < terminated_lines(text).len() {
        lemma_terminated_lines_have_no_line_feed(text, k);
    }
}

proof fn lemma_terminated_lines_have_no_line_feed(text: Seq<char>, k: int)
    requires
        0 <= k < terminated_lines(text).len(),
    ensures
        !terminated_lines(text)[k].contains('\n'),
    decreases text.len(),
{
    if text.len() > 0 {
        let before = text.drop_last();
        if text.last() == '\n' && k == terminated_lines(before).len() {
            let line = pending_line(before);
            lemma_pending_line_has_no_line_feed(before);
            let stripped = strip_carriage_return(line);
            assert forall|i: int| 0 <= i < stripped.len() implies stripped[i] != '\n' by {
                assert(line.contains(line[i]));
            }
        } else {
            lemma_terminated_lines_have_no_line_feed(before, k);
        }
    }
}

/// A text without a line feed is one line, unless it is empty.
pub proof fn lemma_one_line(text: Seq<char>)
    requires
        !text.contains('\n'),
    ensures
        pending_line(text) == text,
        terminated_lines(text).len() == 0,
        lines_of(text) == if text.len() > 0 {
            seq![text]
        } else {
            Seq::<Seq<char>>::empty()
        },
    decreases text.len(),
{
    if text.len() > 0 {
        let before = text.drop_last();
        assert(text.contains(text.last()));
        assert forall|i: int| 0 <= i < before.len() implies before[i] != '\n' by {
            assert(text.contains(text[i]));
        }
        lemma_one_line(before);
        assert(before.push(text.last()) == text);
    }
}

/// The line ending at the end of a text is optional: a text whose last
/// line is not empty and ends in no carriage return has the same lines with
/// and without a line feed after it.
pub proof fn lemma_final_line_feed_is_optional(text: Seq<char>)
    requires
        pending_line(text).len() > 0,
        pending_line(text).last() != '\r',
    ensures
        lines_of(text.push('\n')) == lines_of(text),
{
    assert(text.push('\n').drop_last() == text);
}

/// The stretch of `text` from `span.0` up to `span.1`.
pub open spec fn span_text(text: Seq<char>, span: (usize, usize)) -> Seq<char> {
    text.subrange(span.0 as int, span.1 as int)
}

/// Whether `spans` mark, in order, exactly the sequences `parts` within `text`.
pub open spec fn spans_mark(text: Seq<char>, spans: Seq<(usize, usize)>, parts: Seq<Seq<char>>) -> bool {
    &&& spans.len() == parts.len()
    &&& forall|k: int|
        0 <= k < spans.len() ==> {
            &&& (#[trigger] spans[k]).0 <= spans[k].1 <= text.len()
            &&& span_text(text, spans[k]) == parts[k]
        }
}

/// Where the lines of `chars` begin and end.
pub fn line_spans(chars: &Vec<char>) -> (spans: Vec<(usize, usize)>)
    ensures
        spans_mark(chars@, spans@, lines_of(chars@)),
{
    let mut spans: Vec<(usize, usize)> = Vec::new();
    let mut start: usize = 0;
    let mut i: usize = 0;
    while i < chars.len()
        invariant
            start <= i <= chars.len(),
            pending_line(chars@.take(i as int)) == chars@.subrange(start as int, i as int),
            spans_mark(chars@, spans@, terminated_lines(chars@.take(i as int))),
        decreases chars.len() - i,
    {
        proof {
            assert(chars@.take(i + 1).drop_last() == chars@.take(i as int));
        }
        if chars[i] == '\n' {
            let end: usize = if i > start && chars[i - 1] == '\r' {
                i - 1
            } else {
                i
            };
            proof {
                let line = chars@.subrange(start as int, i as int);
                assert(strip_carriage_return(line) == chars@.subrange(start as int, end as int));
                assert(chars@.subrange(i + 1, i + 1) == Seq::<char>::empty());
            }
            spans.push((start, end));
            start = i + 1;
        } else {
            proof {
                assert(chars@.subrange(start as int, i + 1) == chars@.subrange(
                    start as int,
                    i as int,
                ).push(chars@[i as int]));
            }
        }
        i = i + 1;
    }
    proof {
        assert(chars@.take(i as int) == chars@);
    }
    if start < chars.len() {
        spans.push((start, chars.len()));
    }
    spans
}

/// The number of lines in `text`.
pub fn count_lines(text: &str) -> (count: usize)
    ensures
        count == lines_of(text@).len(),
{
    let chars = chars_of(text);
    line_spans(&chars).len()
}

/// A line without the white space it begins with.
pub open spec fn trim_start_of(line: Seq<char>) -> Seq<char>
    decreases line.len(),
{
    if line.len() > 0 && unicode_whitespace(line[0]) {
        trim_start_of(line.drop_first())
    } else {
        line
    }
}

/// A line without the white space it ends with.
pub open spec fn trim_end_of(line: Seq<char>) -> Seq<char>
    decreases line.len(),
{
    if line.len() > 0 && unicode_whitespace(line.last()) {
        trim_end_of(line.drop_last())
    } else {
        line
    }
}

/// A line without the white space at either end.
pub open spec fn trim_of(line: Seq<char>) -> Seq<char> {
    trim_end_of(trim_start_of(line))
}

/// The lines put together again, with one line feed between neighbours.
pub open spec fn join_lines(lines: Seq<Seq<char>>) -> Seq<char>
    decreases lines.len(),
{
    if lines.len() == 0 {
        Seq::empty()
    } else if lines.len() == 1 {
        lines[0]
    } else {
        join_lines(lines.drop_last()) + seq!['\n'] + lines.last()
    }
}

/// The lines of `text`, each trimmed.
pub open spec fn trimmed_lines(text: Seq<char>) -> Seq<Seq<char>> {
    lines_of(text).map_values(|line: Seq<char>| trim_of(line))
}

/// `text` with every line trimmed and the lines joined by single line feeds.
pub open spec fn tidied(text: Seq<char>) -> Seq<char> {
    join_lines(trimmed_lines(text))
}

/// Narrows a span until no white space is left at either end.
fn trim_span(chars: &Vec<char>, span: (usize, usize)) -> (trimmed: (usize, usize))
    requires
        span.0 <= span.1 <= chars.len(),
    ensures
        trimmed.0 <= trimmed.1 <= chars.len(),
        span_text(chars@, trimmed) == trim_of(span_text(chars@, span)),
{
    let end: usize = span.1;
    let mut a: usize = span.0;
    while a < end && chars[a].is_whitespace()
        invariant
            span.0 <= a <= end <= chars.len(),
            trim_start_of(span_text(chars@, span)) == trim_start_of(
                chars@.subrange(a as int, end as int),
            ),
        decreases end - a,
    {
        proof {
            assert(chars@.subrange(a as int, end as int).drop_first() == chars@.subrange(
                a + 1,
                end as int,
            ));
        }
        a = a + 1;
    }
    let mut b: usize = end;
    while b > a && chars[b - 1].is_whitespace()
        invariant
            a <= b <= end <= chars.len(),
            trim_end_of(chars@.subrange(a as int, end as int)) == trim_end_of(
                chars@.subrange(a as int, b as int),
            ),
        decreases b - a,
    {
        proof {
            assert(chars@.subrange(a as int, b as int).drop_last() == chars@.subrange(
                a as int,
                b - 1,
            ));
        }
        b = b - 1;
    }
    (a, b)
}

/// Joining one line more appends it, after a line feed unless it is the first.
proof fn lemma_join_next(lines: Seq<Seq<char>>, k: int)
    requires
        0 <= k < lines.len(),
    ensures
        join_lines(lines.take(k + 1)) == if k == 0 {
            lines[0]
        } else {
            join_lines(lines.take(k)) + seq!['\n'] + lines[k]
        },
{
    assert(lines.take(k + 1).drop_last() == lines.take(k));
}

/// Trims every line of `contents` and joins the lines with single line
/// feeds; a line feed at the very end is dropped.
pub fn trim_lines(contents: &str) -> (tidy: String)
    ensures
        tidy@ == tidied(contents@),
{
    let chars = chars_of(contents);
    let spans = line_spans(&chars);
    let ghost lines = trimmed_lines(chars@);
    let mut tidy = String::new();
    let mut k: usize = 0;
    while k < spans.len()
        invariant
            k <= spans.len(),
            spans_mark(chars@, spans@, lines_of(chars@)),
            lines == trimmed_lines(chars@),
            tidy@ == join_lines(lines.take(k as int)),
        decreases spans.len() - k,
    {
        let ghost joined = tidy@;
        if k > 0 {
            tidy.push('\n');
        }
        let ghost prefix = tidy@;
        let span = spans[k];
        let (a, b) = trim_span(&chars, span);
        let mut j: usize = a;
        while j < b
            invariant
                a <= j <= b <= chars.len(),
                tidy@ == prefix + chars@.subrange(a as int, j as int),
            decreases b - j,
        {
            proof {
                assert(chars@.subrange(a as int, j + 1) == chars@.subrange(a as int, j as int).push(
                    chars@[j as int],
                ));
            }
            tidy.push(chars[j]);
            j = j + 1;
        }
        proof {
            lemma_join_next(lines, k as int);
            assert(lines[k as int] == chars@.subrange(a as int, b as int));
            if k == 0 {
                assert(joined == Seq::<char>::empty());
                assert(prefix + lines[0] == lines[0]);
            } else {
                assert(prefix == joined + seq!['\n']);
            }
        }
        k = k + 1;
    }
    proof {
        assert(lines.take(k as int) == lines);
    }
    tidy
}

/// The number of bytes that the UTF-8 encoding of `c` takes.
pub fn utf8_width(c: char) -> (width: usize)
    ensures
        width == encode_scalar(c as u32).len(),
        1 <= width <= 4,
{
    let code: u32 = c as u32;
    if code < 0x80 {
        1
    } else if code < 0x800 {
        2
    } else if code < 0x10000 {
        3
    } else {
        4
    }
}

/// The byte length of a text is the sum of the byte lengths of its parts.
pub proof fn lemma_byte_len_concat(head: Seq<char>, tail: Seq<char>)
    ensures
        byte_len(head + tail) == byte_len(head) + byte_len(tail),
    decreases head.len(),
{
    if head.len() == 0 {
        assert(head + tail == tail);
    } else {
        assert((head + tail).drop_first() == head.drop_first() + tail);
        lemma_byte_len_concat(head.drop_first(), tail);
    }
}

/// The size in bytes of the stretch of `chars` that `span` marks.
fn span_bytes(chars: &Vec<char>, span: (usize, usize)) -> (size: usize)
    requires
        span.0 <= span.1 <= chars.len(),
        byte_len(chars@) <= usize::MAX,
    ensures
        size == byte_len(span_text(chars@, span)),
{
    let a: usize = span.0;
    let b: usize = span.1;
    let mut size: usize = 0;
    let mut j: usize = a;
    while j < b
        invariant
            a <= j <= b <= chars.len(),
            byte_len(chars@) <= usize::MAX,
            size == byte_len(chars@.subrange(a as int, j as int)),
        decreases b - j,
    {
        let width = utf8_width(chars[j]);
        proof {
            let next = chars@.subrange(a as int, j + 1);
            assert(next == chars@.subrange(a as int, j as int).push(chars@[j as int]));
            lemma_byte_len_push(chars@.subrange(a as int, j as int), chars@[j as int]);
            assert(chars@ == chars@.take(a as int) + next + chars@.skip(j + 1));
            lemma_byte_len_concat(chars@.take(a as int) + next, chars@.skip(j + 1));
            lemma_byte_len_concat(chars@.take(a as int), next);
        }
        size = size + width;
        j = j + 1;
    }
    size
}

/// Whether line `k` is the longest of `lines`, counted in bytes, and the
/// last one of that length.
pub open spec fn is_longest_line(lines: Seq<Seq<char>>, k: int) -> bool {
    &&& 0 <= k < lines.len()
    &&& forall|j: int| 0 <= j < lines.len() ==> byte_len(#[trigger] lines[j]) <= byte_len(lines[k])
    &&& forall|j: int| k < j < lines.len() ==> byte_len(#[trigger] lines[j]) < byte_len(lines[k])
}

/// Which of the marked lines is the longest, and its size in bytes.
fn longest_span(chars: &Vec<char>, spans: &Vec<(usize, usize)>) -> (longest: Option<(usize, usize)>)
    requires
        spans_mark(chars@, spans@, lines_of(chars@)),
        byte_len(chars@) <= usize::MAX,
    ensures
        match longest {
            None => lines_of(chars@).len() == 0,
            Some((k, size)) => is_longest_line(lines_of(chars@), k as int) && size == byte_len(
                lines_of(chars@)[k as int],
            ),
        },
{
    if spans.len() == 0 {
        return None;
    }
    let ghost lines = lines_of(chars@);
    let mut best: usize = 0;
    let mut best_size: usize = span_bytes(chars, spans[0]);
    let mut k: usize = 1;
    while k < spans.len()
        invariant
            1 <= k <= spans.len(),
            lines == lines_of(chars@),
            spans_mark(chars@, spans@, lines),
            byte_len(chars@) <= usize::MAX,
            is_longest_line(lines.take(k as int), best as int),
            best_size == byte_len(lines[best as int]),
        decreases spans.len() - k,
    {
        let size = span_bytes(chars, spans[k]);
        proof {
            let before = lines.take(k as int);
            let after = lines.take(k + 1);
            assert forall|j: int| 0 <= j < k implies #[trigger] after[j] == before[j] by {}
        }
        if size >= best_size {
            best = k;
            best_size = size;
        }
        k = k + 1;
    }
    proof {
        assert(lines.take(k as int) == lines);
    }
    Some((best, best_size))
}

/// The longest line of `content`, counted in bytes; of several of that
/// length, the last. A text without lines has none.
pub fn find_longest_line(content: &str) -> (longest: Option<&str>)
    ensures
        match longest {
            None => lines_of(content@).len() == 0,
            Some(line) => exists|k: int|
                is_longest_line(lines_of(content@), k) && line@ == lines_of(content@)[k],
        },
{
    // The text lies in memory, so its size in bytes fits a `usize`.
    let _size = content.as_bytes().len();
    let chars = chars_of(content);
    let spans = line_spans(&chars);
    match longest_span(&chars, &spans) {
        None => None,
        Some((k, _)) => {
            let span = spans[k];
            let line = content.substring_char(span.0, span.1);
            assert(is_longest_line(lines_of(content@), k as int) && line@ == lines_of(
                content@,
            )[k as int]);
            Some(line)
        },
    }
}

/// What is counted of a text.
#[derive(Clone, Copy, Debug, PartialEq, Eq, Structural)]
pub struct FileStats {
    /// The number of lines.
    pub lines: usize,
    /// The number of words.
    pub words: usize,
    /// The number of characters.
    pub chars: usize,
    /// The size in bytes of the longest line, if there is a line.
    pub longest_line: Option<usize>,
}

/// Counts the lines, words and characters of `content` and measures its
/// longest line.
pub fn file_stats(content: &str) -> (stats: FileStats)
    ensures
        stats.lines == lines_of(content@).len(),
        stats.words == word_count(content@),
        stats.chars == content@.len(),
        match stats.longest_line {
            None => lines_of(content@).len() == 0,
            Some(size) => exists|k: int|
                is_longest_line(lines_of(content@), k) && size == byte_len(lines_of(content@)[k]),
        },
{
    // The text lies in memory, so its size in bytes fits a `usize`.
    let _size = content.as_bytes().len();
    let chars = chars_of(content);
    let spans = line_spans(&chars);
    let longest_line = match longest_span(&chars, &spans) {
        None => None,
        Some((k, size)) => {
            assert(is_longest_line(lines_of(content@), k as int) && size == byte_len(
                lines_of(content@)[k as int],
            ));
            Some(size)
        },
    };
    FileStats {
        lines: spans.len(),
        words: count_words_in(&chars),
        chars: chars.len(),
        longest_line,
    }
}

} // verus!
