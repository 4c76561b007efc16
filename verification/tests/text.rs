use martian_robots::command::Command;
use martian_robots::decimal::{parse_i8, render_i8};
use martian_robots::error::ParseErrorKind;
use martian_robots::orientation::Orientation;
use martian_robots::text::{is_whitespace, lines, to_chars, words, Lines};

/// Every string of up to `max_len` characters over `alphabet`.
fn strings_over(alphabet: &[char], max_len: usize) -> Vec<String> {
    let mut all: Vec<String> = vec![String::new()];
    let mut last: Vec<String> = vec![String::new()];
    for _ in 0..max_len {
        let mut next: Vec<String> = Vec::new();
        for s in &last {
            for c in alphabet {
                let mut longer = s.clone();
                longer.push(*c);
                next.push(longer);
            }
        }
        all.extend(next.iter().cloned());
        last = next;
    }
    all
}

fn owned(parts: Vec<&[char]>) -> Vec<String> {
    parts.into_iter().map(|p| p.iter().collect::<String>()).collect()
}

fn chars_of(s: &str) -> Vec<char> {
    s.chars().collect()
}

#[test]
fn to_chars_gives_every_character() {
    assert_eq!(to_chars(""), Vec::<char>::new());
    assert_eq!(to_chars("5 3\n"), vec!['5', ' ', '3', '\n']);
    assert_eq!(to_chars("a\u{e9}\u{3000}\u{1f916}z"), vec!['a', '\u{e9}', '\u{3000}', '\u{1f916}', 'z']);
}

#[test]
fn white_space_is_what_std_calls_white_space() {
    let mut code: u32 = 0;
    while code <= 0x10FFFF {
        if let Some(c) = char::from_u32(code) {
            assert_eq!(is_whitespace(c), c.is_whitespace(), "U+{:04X}", code);
        }
        code += 1;
    }
}

#[test]
fn lines_by_example() {
    let text = chars_of("5 3\r\n\n1 1 E\nRF\r");
    assert_eq!(owned(lines(&text)), vec!["5 3", "", "1 1 E", "RF\r"]);
    assert_eq!(owned(lines(&chars_of(""))), Vec::<String>::new());
    assert_eq!(owned(lines(&chars_of("\n"))), vec![""]);
    assert_eq!(owned(lines(&chars_of("a\n"))), vec!["a"]);
    assert_eq!(owned(lines(&chars_of("a\n\n"))), vec!["a", ""]);
    assert_eq!(owned(lines(&chars_of("a\r\r\nb"))), vec!["a\r", "b"]);
    assert_eq!(owned(lines(&chars_of("\r\n\r"))), vec!["", "\r"]);
}

#[test]
fn lines_are_the_lines_of_std() {
    for s in strings_over(&['a', ' ', '\n', '\r'], 7) {
        let text = chars_of(&s);
        let expected: Vec<String> = s.lines().map(|l| l.to_string()).collect();
        assert_eq!(owned(lines(&text)), expected, "{:?}", s);
    }
}

#[test]
fn words_by_example() {
    assert_eq!(owned(words(&chars_of("1 1 E"))), vec!["1", "1", "E"]);
    assert_eq!(owned(words(&chars_of("  12\t-3 \u{2003} N\u{a0}"))), vec!["12", "-3", "N"]);
    assert_eq!(owned(words(&chars_of(""))), Vec::<String>::new());
    assert_eq!(owned(words(&chars_of(" \t "))), Vec::<String>::new());
    assert_eq!(owned(words(&chars_of("x"))), vec!["x"]);
    // A zero-width space is no white space.
    assert_eq!(owned(words(&chars_of("a\u{200b}b"))), vec!["a\u{200b}b"]);
}

#[test]
fn words_are_the_words_of_std() {
    for s in strings_over(&['a', 'b', ' ', '\t', '\u{3000}'], 6) {
        let line = chars_of(&s);
        let expected: Vec<String> = s.split_whitespace().map(|w| w.to_string()).collect();
        assert_eq!(owned(words(&line)), expected, "{:?}", s);
    }
}

#[test]
fn cursor_walks_the_lines_once() {
    let text = chars_of("a\n\nbc");
    let mut cursor = Lines::new(&text);
    assert_eq!(cursor.line_number(), 0);
    assert_eq!(cursor.next(), Some(&['a'][..]));
    assert_eq!(cursor.line_number(), 1);
    assert_eq!(cursor.next(), Some(&[][..]));
    assert_eq!(cursor.next(), Some(&['b', 'c'][..]));
    assert_eq!(cursor.line_number(), 3);
    assert_eq!(cursor.next(), None);
    assert_eq!(cursor.next(), None);
    assert_eq!(cursor.line_number(), 3);
}

#[test]
fn integers_by_example() {
    assert_eq!(parse_i8(&chars_of("0")), Some(0));
    assert_eq!(parse_i8(&chars_of("50")), Some(50));
    assert_eq!(parse_i8(&chars_of("127")), Some(127));
    assert_eq!(parse_i8(&chars_of("128")), None);
    assert_eq!(parse_i8(&chars_of("-128")), Some(-128));
    assert_eq!(parse_i8(&chars_of("-129")), None);
    assert_eq!(parse_i8(&chars_of("+7")), Some(7));
    assert_eq!(parse_i8(&chars_of("-0")), Some(0));
    assert_eq!(parse_i8(&chars_of("0000000000000000000000000000000000000042")), Some(42));
    assert_eq!(parse_i8(&chars_of("-000128")), Some(-128));
    assert_eq!(parse_i8(&chars_of("99999999999999999999999999999999999999999999")), None);
    assert_eq!(parse_i8(&chars_of("")), None);
    assert_eq!(parse_i8(&chars_of("-")), None);
    assert_eq!(parse_i8(&chars_of("+")), None);
    assert_eq!(parse_i8(&chars_of("+-1")), None);
    assert_eq!(parse_i8(&chars_of("--1")), None);
    assert_eq!(parse_i8(&chars_of("1-")), None);
    assert_eq!(parse_i8(&chars_of("1x")), None);
    assert_eq!(parse_i8(&chars_of(" 1")), None);
    assert_eq!(parse_i8(&chars_of("1_0")), None);
    assert_eq!(parse_i8(&chars_of("1.0")), None);
    assert_eq!(parse_i8(&chars_of("0x10")), None);
    // Digits of other scripts are no digits.
    assert_eq!(parse_i8(&chars_of("\u{663}")), None);
    assert_eq!(parse_i8(&chars_of("\u{ff11}")), None);
}

#[test]
fn integers_are_read_as_std_reads_them() {
    for s in strings_over(&['-', '+', '0', '1', '2', '8', '9', 'x'], 5) {
        assert_eq!(parse_i8(&chars_of(&s)), s.parse::<i8>().ok(), "{:?}", s);
    }
}

#[test]
fn integers_are_written_as_std_writes_them() {
    assert_eq!(render_i8(0), "0");
    assert_eq!(render_i8(7), "7");
    assert_eq!(render_i8(50), "50");
    assert_eq!(render_i8(100), "100");
    assert_eq!(render_i8(101), "101");
    assert_eq!(render_i8(127), "127");
    assert_eq!(render_i8(-1), "-1");
    assert_eq!(render_i8(-10), "-10");
    assert_eq!(render_i8(-128), "-128");
    let mut v: i8 = i8::MIN;
    loop {
        assert_eq!(render_i8(v), v.to_string());
        if v == i8::MAX {
            break;
        }
        v += 1;
    }
}

#[test]
fn written_integers_read_back() {
    let mut v: i8 = i8::MIN;
    loop {
        assert_eq!(parse_i8(&chars_of(&render_i8(v))), Some(v));
        if v == i8::MAX {
            break;
        }
        v += 1;
    }
}

#[test]
fn headings_round_trip() {
    let all = [
        (Orientation::North, "N"),
        (Orientation::East, "E"),
        (Orientation::South, "S"),
        (Orientation::West, "W"),
    ];
    for (heading, letter) in all {
        assert_eq!(heading.to_string(), letter);
        assert_eq!(Orientation::parse(letter), Ok(heading));
        assert_eq!(Orientation::parse(&heading.to_string()), Ok(heading));
        assert_eq!(Orientation::from_chars(&chars_of(letter)), Ok(heading));
        assert_eq!(Orientation::parse(letter).unwrap().to_string(), letter);
    }
}

#[test]
fn other_words_are_no_headings() {
    for word in ["", "n", "e", "s", "w", "NE", "N ", " N", "North", "3", "X", "NN", "\u{ff2e}"] {
        assert_eq!(Orientation::parse(word), Err(ParseErrorKind::BadOrientation), "{:?}", word);
        assert_eq!(
            Orientation::from_chars(&chars_of(word)),
            Err(ParseErrorKind::BadOrientation),
            "{:?}",
            word
        );
    }
}

#[test]
fn command_letters() {
    assert_eq!(Command::parse('F'), Ok(Command::Forward));
    assert_eq!(Command::parse('L'), Ok(Command::Left));
    assert_eq!(Command::parse('R'), Ok(Command::Right));
    let mut code: u32 = 0;
    while code < 0x3000 {
        if let Some(c) = char::from_u32(code) {
            if c != 'F' && c != 'L' && c != 'R' {
                assert_eq!(Command::parse(c), Err(ParseErrorKind::BadCommand(c)));
            }
        }
        code += 1;
    }
}
