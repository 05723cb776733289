use regex::Regex;
use rmesg::entry::Entry;
use rmesg::kmsgfile::entry_from_line;

fn pattern() -> Regex {
    Regex::new(
        r"(?x)^
            (?P<faclevstr>[[:digit:]]*),
            (?P<sequencenum>[[:digit:]]*),
            (?P<timestampstr>[[:digit:]]*),
            [^;]*;
            (?P<message>.*)
            $",
    )
    .unwrap()
}

/// What the pattern says of a line: nothing, or the three numbers and the message.
fn by_pattern(re: &Regex, line: &str) -> Option<(String, String, String, String)> {
    let found = re.captures(line)?;
    Some((
        found["faclevstr"].to_owned(),
        found["sequencenum"].to_owned(),
        found["timestampstr"].to_owned(),
        found["message"].to_owned(),
    ))
}

fn agrees(re: &Regex, line: &str) {
    let parsed = entry_from_line(line);
    let raw = Entry {
        timestamp_from_system_start: None,
        facility: None,
        level: None,
        sequence_num: None,
        message: line.to_owned(),
    };
    match by_pattern(re, line) {
        None => assert_eq!(parsed, Ok(raw), "line {:?}", line),
        Some((faclev, sequence, timestamp, message)) => {
            if faclev.is_empty() || sequence.is_empty() || timestamp.is_empty() {
                assert_eq!(parsed, Ok(raw), "line {:?}", line);
                return;
            }
            match (faclev.parse::<u32>(), sequence.parse::<u64>(), timestamp.parse::<u64>()) {
                (Ok(f), Ok(q), Ok(t)) => assert_eq!(
                    parsed,
                    Ok(Entry {
                        timestamp_from_system_start: Some(t),
                        facility: Some(f / 8),
                        level: Some(f % 8),
                        sequence_num: Some(q),
                        message,
                    }),
                    "line {:?}",
                    line
                ),
                _ => assert!(parsed.is_err(), "line {:?}", line),
            }
        }
    }
}

#[test]
fn given_lines_agree_with_the_pattern() {
    let re = pattern();
    for line in [
        "",
        ";",
        ",",
        ",,,;",
        ",,,",
        ",,;x",
        "1,2,3,-;m",
        "1,2,3,;m",
        "1,2,3;m",
        "1,2,3,-,a,b;m;n",
        " 1 , 2 , 3 , - ; m ",
        "\t1\t,\n2\r,\u{b}3\u{c},-;m",
        "1 2,3,4,-;m",
        "1,2 3,4,-;m",
        "12,34,56,78;m",
        "1,2,3,-;m\n",
        "1,2,3,-;m\nn",
        "1,2,3,-\n;m",
        "\n1,2,3,-;m",
        "1,2,3,-;m\r",
        "01,002,0003,-;m",
        "4294967295,18446744073709551615,18446744073709551615,-;m",
        "4294967296,1,1,-;m",
        "1,18446744073709551616,1,-;m",
        "1,1,18446744073709551616,-;m",
        "abc,1,2,-;m",
        "1,2,3,-;caf\u{e9} \u{2713}",
        "\u{a0}1,2,3,-;m",
        "\u{661},2,3,-;m",
        "\u{2003}1,2,3,-;m",
        "1,2,3,\u{e9};m",
        " LINE2=foobar",
        " LINE 3 = foobar ; with semicolon",
        "6,779,91650777797,-;docker0: port 2(veth98d5024) entered disabled state",
        "6,3,0,-,more,deets;x86/fpu: Supporting XSAVE; feature 0x002: 'SSE registers'",
        "+1,2,3,-;m",
        "-1,2,3,-;m",
        "1.0,2,3,-;m",
        "1,,3,-;m",
        " , 2,3,-;m",
        "1,2, ,-;m",
    ] {
        agrees(&re, line);
    }
}

#[test]
fn every_short_line_agrees_with_the_pattern() {
    let re = pattern();
    let alphabet = ['1', '0', ',', ';', ' ', '\n', '-', 'a'];
    let mut lines: Vec<String> = vec![String::new()];
    let mut total = 0;
    for _ in 0..5 {
        let mut longer = Vec::new();
        for line in &lines {
            for c in alphabet {
                let mut next = line.clone();
                next.push(c);
                longer.push(next);
            }
        }
        for line in &longer {
            agrees(&re, line);
            total += 1;
        }
        lines = longer;
    }
    assert_eq!(total, 8 + 64 + 512 + 4096 + 32768);
}

#[test]
fn structured_lines_with_every_filling_agree_with_the_pattern() {
    let re = pattern();
    let numbers = ["", "0", "7", "007", "191", "99999999999999999999999"];
    let paddings = ["", " ", "\t\n"];
    let ignored = ["", "-", "-,a", "\n"];
    let messages = ["", "m", "a;b", "a\nb", " , ;"];
    let mut count = 0;
    for f in numbers {
        for q in numbers {
            for t in numbers {
                for pad in paddings {
                    for skip in ignored {
                        for m in messages {
                            let line = format!(
                                "{pad}{f}{pad},{q}{pad},{pad}{t},{skip};{m}",
                                pad = pad,
                                f = f,
                                q = q,
                                t = t,
                                skip = skip,
                                m = m
                            );
                            agrees(&re, &line);
                            count += 1;
                        }
                    }
                }
            }
        }
    }
    assert_eq!(count, 6 * 6 * 6 * 3 * 4 * 5);
}
