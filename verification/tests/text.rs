use rmesg::grammar::{scan_line, Spans};
use rmesg::kmsgfile::device_file;
use rmesg::text::{chars_of, skip_in, string_of, CharClass};

#[test]
fn characters_of_a_string_and_back() {
    for s in ["", "a", "6,1,2,-;m", "caf\u{e9} \u{2713} \u{1f980}\n"] {
        let chars = chars_of(s);
        assert_eq!(chars, s.chars().collect::<Vec<char>>());
        assert_eq!(string_of(&chars, 0, chars.len()), s);
    }
    let chars = chars_of("h\u{e9}llo");
    assert_eq!(string_of(&chars, 1, 3), "\u{e9}l");
    assert_eq!(string_of(&chars, 2, 2), "");
    assert_eq!(string_of(&chars, 4, 5), "o");
}

#[test]
fn kinds_of_characters() {
    for c in ['0', '1', '5', '9'] {
        assert!(CharClass::Digit.holds(c));
    }
    for c in ['/', ':', 'a', ' ', '\t', '\n', ',', ';', '\u{661}', '\u{ff11}'] {
        assert!(!CharClass::Digit.holds(c));
    }
    assert!(!CharClass::NoSemicolon.holds(';'));
    assert!(CharClass::NoSemicolon.holds(','));
    assert!(CharClass::NoSemicolon.holds(' '));
    assert!(CharClass::NoSemicolon.holds('\n'));
    assert!(!CharClass::NoLineFeed.holds('\n'));
    assert!(CharClass::NoLineFeed.holds('\r'));
    assert!(CharClass::NoLineFeed.holds(';'));
}

#[test]
fn runs_of_one_kind() {
    let text = chars_of("12 ,ab;c\nd");
    assert_eq!(skip_in(&text, 0, CharClass::Digit), 2);
    assert_eq!(skip_in(&text, 1, CharClass::Digit), 2);
    assert_eq!(skip_in(&text, 2, CharClass::Digit), 2);
    assert_eq!(skip_in(&text, 0, CharClass::NoSemicolon), 6);
    assert_eq!(skip_in(&text, 6, CharClass::NoSemicolon), 6);
    assert_eq!(skip_in(&text, 7, CharClass::NoSemicolon), 10);
    assert_eq!(skip_in(&text, 0, CharClass::NoLineFeed), 8);
    assert_eq!(skip_in(&text, 9, CharClass::NoLineFeed), 10);
    assert_eq!(skip_in(&text, 10, CharClass::Digit), 10);
}

#[test]
fn layout_of_a_line() {
    let line = chars_of("6,779,91650777797,-;docker0");
    assert_eq!(
        scan_line(&line),
        Some(Spans { faclev: (0, 1), sequence: (2, 5), timestamp: (6, 17), message: 20 })
    );
    let line = chars_of("6,77,9, -,x ;m;n");
    assert_eq!(
        scan_line(&line),
        Some(Spans { faclev: (0, 1), sequence: (2, 4), timestamp: (5, 6), message: 13 })
    );
    let line = chars_of(",,,;");
    assert_eq!(
        scan_line(&line),
        Some(Spans { faclev: (0, 0), sequence: (1, 1), timestamp: (2, 2), message: 4 })
    );
    let line = chars_of(",,1,;");
    assert_eq!(
        scan_line(&line),
        Some(Spans { faclev: (0, 0), sequence: (1, 1), timestamp: (2, 3), message: 5 })
    );
    for line in [
        "",
        "1,2,3",
        "1,2,3,-",
        "1,2;3,4;",
        "1,2,3,-;a\nb",
        "x1,2,3,-;m",
        "1 1,2,3,-;m",
        " 6 , 1 , 2 ,-;m",
        " 6,1,2,-;m",
        "6,1,2 ,-;m",
        " , ,1,;",
    ] {
        assert_eq!(scan_line(&chars_of(line)), None, "line {:?}", line);
    }
}

#[test]
fn file_that_is_read() {
    assert_eq!(device_file(&None), "/dev/kmsg");
    assert_eq!(device_file(&Some("/tmp/kmsg".to_owned())), "/tmp/kmsg");
    assert_eq!(device_file(&Some(String::new())), "");
}
