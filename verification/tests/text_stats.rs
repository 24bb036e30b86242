use ai_safety::text_stats::{
    analyze_content, chars_of, count_chars, count_lines, count_words, file_stats,
    find_longest_line, line_spans, trim_lines, utf8_width, FileStats,
};

const SAMPLES: [&str; 24] = [
    "",
    "Hello, Rust!",
    "one\ntwo\nthree",
    "one\ntwo\nthree\n",
    "one\r\ntwo\r\nthree\r\n",
    "\n",
    "\n\n",
    "\r\n",
    "\r",
    "abc\r",
    "a\rb\nc",
    "a\r\r\nb",
    "a\n\nb",
    "\na",
    "  lead\ntrail  \n\t both \t\n",
    "   \n \n",
    " ",
    "word",
    "  two   words  ",
    "tab\tseparated\twords\nand lines",
    "héllo wörld\nñandú\n",
    "藏 ٣ ¾\n😀😀\nab",
    "a\u{a0}b\u{2003}c\u{3000}d",
    "same\nsize\nhere\nx",
];

#[test]
fn bytes_of_a_text() {
    assert_eq!(analyze_content("Hello, Rust!"), 12);
    assert_eq!(analyze_content(""), 0);
    assert_eq!(analyze_content("héllo"), 6);
    assert_eq!(analyze_content("😀"), 4);
    for sample in SAMPLES {
        assert_eq!(analyze_content(sample), sample.len(), "{sample:?}");
    }
}

#[test]
fn chars_of_a_text() {
    assert_eq!(count_chars("Hello, Rust!"), 12);
    assert_eq!(count_chars(""), 0);
    assert_eq!(count_chars("héllo"), 5);
    assert_eq!(count_chars("😀"), 1);
    for sample in SAMPLES {
        assert_eq!(count_chars(sample), sample.chars().count(), "{sample:?}");
        assert_eq!(chars_of(sample), sample.chars().collect::<Vec<char>>(), "{sample:?}");
    }
}

#[test]
fn words_of_a_text() {
    assert_eq!(count_words("Hello, Rust!"), 2);
    assert_eq!(count_words(""), 0);
    assert_eq!(count_words("   "), 0);
    assert_eq!(count_words("  two   words  "), 2);
    assert_eq!(count_words("one\ntwo\tthree four"), 4);
    for sample in SAMPLES {
        assert_eq!(count_words(sample), sample.split_whitespace().count(), "{sample:?}");
    }
}

#[test]
fn lines_of_a_text() {
    assert_eq!(count_lines(""), 0);
    assert_eq!(count_lines("one"), 1);
    assert_eq!(count_lines("one\n"), 1);
    assert_eq!(count_lines("one\ntwo"), 2);
    assert_eq!(count_lines("\n"), 1);
    assert_eq!(count_lines("\n\n"), 2);
    assert_eq!(count_lines("a\n\nb"), 3);
    for sample in SAMPLES {
        assert_eq!(count_lines(sample), sample.lines().count(), "{sample:?}");
    }
}

#[test]
fn spans_mark_the_lines() {
    let chars = chars_of("ab\r\n\ncd\re\nf");
    assert_eq!(line_spans(&chars), vec![(0, 2), (4, 4), (5, 9), (10, 11)]);
    for sample in SAMPLES {
        let chars = chars_of(sample);
        let marked: Vec<String> = line_spans(&chars)
            .into_iter()
            .map(|(start, end)| chars[start..end].iter().collect())
            .collect();
        let expected: Vec<String> = sample.lines().map(|line| line.to_string()).collect();
        assert_eq!(marked, expected, "{sample:?}");
    }
}

#[test]
fn a_lone_carriage_return_stays_in_its_line() {
    assert_eq!(find_longest_line("abc\r"), Some("abc\r"));
    assert_eq!(find_longest_line("a\rb\nc"), Some("a\rb"));
    assert_eq!(find_longest_line("a\r\r\nb"), Some("a\r"));
}

#[test]
fn longest_line_of_a_text() {
    assert_eq!(find_longest_line(""), None);
    assert_eq!(find_longest_line("\n"), Some(""));
    assert_eq!(find_longest_line("one\nthree\ntwo"), Some("three"));
    assert_eq!(find_longest_line("Hello, Rust!"), Some("Hello, Rust!"));
    for sample in SAMPLES {
        assert_eq!(
            find_longest_line(sample),
            sample.lines().max_by_key(|line| line.len()),
            "{sample:?}"
        );
    }
}

#[test]
fn of_equally_long_lines_the_last_is_the_longest() {
    assert_eq!(find_longest_line("same\nsize\nhere\nx"), Some("here"));
    assert_eq!(find_longest_line("aa\nbb"), Some("bb"));
}

#[test]
fn the_longest_line_is_measured_in_bytes() {
    // Four characters of three bytes each against five of one byte.
    assert_eq!(find_longest_line("abcde\n藏藏藏藏"), Some("藏藏藏藏"));
    assert_eq!(find_longest_line("藏藏\nabcde"), Some("藏藏"));
    assert_eq!(find_longest_line("藏\nabcde"), Some("abcde"));
}

#[test]
fn width_of_each_size_of_character() {
    assert_eq!(utf8_width('\0'), 1);
    assert_eq!(utf8_width('a'), 1);
    assert_eq!(utf8_width('\u{7f}'), 1);
    assert_eq!(utf8_width('\u{80}'), 2);
    assert_eq!(utf8_width('é'), 2);
    assert_eq!(utf8_width('\u{7ff}'), 2);
    assert_eq!(utf8_width('\u{800}'), 3);
    assert_eq!(utf8_width('藏'), 3);
    assert_eq!(utf8_width('\u{d7ff}'), 3);
    assert_eq!(utf8_width('\u{e000}'), 3);
    assert_eq!(utf8_width('\u{ffff}'), 3);
    assert_eq!(utf8_width('\u{10000}'), 4);
    assert_eq!(utf8_width('😀'), 4);
    assert_eq!(utf8_width('\u{10ffff}'), 4);
    for c in ['a', 'é', '藏', '😀', '\u{a0}', '\u{2003}'] {
        assert_eq!(utf8_width(c), c.len_utf8(), "{c:?}");
    }
}

#[test]
fn tidying_trims_each_line() {
    assert_eq!(trim_lines("  lead\ntrail  \n\t both \t\n"), "lead\ntrail\nboth");
    assert_eq!(trim_lines(""), "");
    assert_eq!(trim_lines("\n"), "");
    assert_eq!(trim_lines("\n\n"), "\n");
    assert_eq!(trim_lines("   \n \n"), "\n");
    assert_eq!(trim_lines("a\r\nb\r\n"), "a\nb");
    assert_eq!(trim_lines(" a  b "), "a  b");
    for sample in SAMPLES {
        let expected = sample.lines().map(|line| line.trim()).collect::<Vec<&str>>().join("\n");
        assert_eq!(trim_lines(sample), expected, "{sample:?}");
    }
}

#[test]
fn stats_of_a_text() {
    assert_eq!(
        file_stats("one two\nthree\n\nfour five six"),
        FileStats { lines: 4, words: 6, chars: 28, longest_line: Some(13) }
    );
    assert_eq!(
        file_stats(""),
        FileStats { lines: 0, words: 0, chars: 0, longest_line: None }
    );
    assert_eq!(
        file_stats("héllo wörld\nñandú\n"),
        FileStats { lines: 2, words: 3, chars: 18, longest_line: Some(13) }
    );
    for sample in SAMPLES {
        let stats = file_stats(sample);
        assert_eq!(stats.lines, sample.lines().count(), "{sample:?}");
        assert_eq!(stats.words, sample.split_whitespace().count(), "{sample:?}");
        assert_eq!(stats.chars, sample.chars().count(), "{sample:?}");
        assert_eq!(
            stats.longest_line,
            sample.lines().map(|line| line.len()).max(),
            "{sample:?}"
        );
    }
}
