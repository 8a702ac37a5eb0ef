use host_telemetry::text::{
    chars_of, find, has_part, has_prefix, is_space, remove_all, split_lines, split_on,
    split_words, string_of, strip_leading, to_u32, trimmed,
};

fn chars(text: &str) -> Vec<char> {
    text.chars().collect()
}

fn strings(list: Vec<Vec<char>>) -> Vec<String> {
    list.iter().map(|piece| piece.iter().collect()).collect()
}

const SAMPLES: [&str; 22] = [
    "",
    " ",
    "a",
    "  a b  ",
    "\t\r\n x \u{a0}\u{3000}",
    "Speed: 2400 MHz",
    "Speed:Speed: 1",
    "foo\nbar\n\r\nbaz\r",
    "one\r\ntwo\r\n",
    "\n",
    "\n\n",
    "a\rb",
    "\r\n",
    "a,b,,c,",
    ",",
    "MHzMHz2400MHz MHz",
    "MMHzHz",
    "\u{2000}x\u{200a}\u{200b}",
    "\u{1680}\u{2028}\u{2029}\u{202f}\u{205f}y\u{85}",
    "  lead",
    "trail  ",
    "caf\u{e9} \u{1f600} z",
];

#[test]
fn chars_and_strings_round_trip() {
    for sample in SAMPLES {
        assert_eq!(chars_of(sample), chars(sample));
        assert_eq!(string_of(&chars(sample)), sample);
    }
}

#[test]
fn white_space_is_what_std_calls_white_space() {
    let mut code: u32 = 0;
    while code <= 0x10ffff {
        if let Some(c) = char::from_u32(code) {
            assert_eq!(is_space(c), c.is_whitespace(), "U+{:04X}", code);
        }
        code += 1;
    }
}

#[test]
fn trimmed_agrees_with_std() {
    for sample in SAMPLES {
        let got: String = trimmed(&chars(sample)).iter().collect();
        assert_eq!(got, sample.trim());
    }
}

#[test]
fn lines_agree_with_std() {
    for sample in SAMPLES {
        let expected: Vec<String> = sample.lines().map(|line| line.to_string()).collect();
        assert_eq!(strings(split_lines(&chars(sample))), expected, "{:?}", sample);
    }
}

#[test]
fn lines_keep_a_last_carriage_return() {
    assert_eq!(
        strings(split_lines(&chars("foo\nbar\n\r\nbaz\r"))),
        vec!["foo", "bar", "", "baz\r"]
    );
}

#[test]
fn split_agrees_with_std() {
    for sample in SAMPLES {
        let expected: Vec<String> = sample.split(',').map(|piece| piece.to_string()).collect();
        assert_eq!(strings(split_on(&chars(sample), ',')), expected, "{:?}", sample);
    }
    assert_eq!(strings(split_on(&chars(""), ',')), vec![""]);
    assert_eq!(strings(split_on(&chars("a,b,,c,"), ',')), vec!["a", "b", "", "c", ""]);
}

#[test]
fn words_agree_with_std() {
    for sample in SAMPLES {
        let expected: Vec<String> =
            sample.split_whitespace().map(|word| word.to_string()).collect();
        assert_eq!(strings(split_words(&chars(sample))), expected, "{:?}", sample);
    }
    assert_eq!(strings(split_words(&chars("  a b  "))), vec!["a", "b"]);
}

#[test]
fn prefixes_and_parts_agree_with_std() {
    let patterns = ["", "a", "Speed:", "MHz", "\n", "b", "  ", "z"];
    for sample in SAMPLES {
        for pattern in patterns {
            let text = chars(sample);
            let pat = chars(pattern);
            assert_eq!(has_prefix(&text, &pat), sample.starts_with(pattern));
            assert_eq!(has_part(&text, &pat), sample.contains(pattern));
            let place = sample.find(pattern).map(|bytes| sample[..bytes].chars().count());
            assert_eq!(find(&text, &pat), place);
        }
    }
}

#[test]
fn strip_leading_agrees_with_std() {
    let patterns = ["a", "Speed:", "MHz", " ", "\n"];
    for sample in SAMPLES {
        for pattern in patterns {
            let got: String = strip_leading(&chars(sample), &chars(pattern)).iter().collect();
            assert_eq!(got, sample.trim_start_matches(pattern));
        }
        let same: String = strip_leading(&chars(sample), &chars("")).iter().collect();
        assert_eq!(same, sample);
    }
    let got: String = strip_leading(&chars("Speed:Speed: 1"), &chars("Speed:")).iter().collect();
    assert_eq!(got, " 1");
}

#[test]
fn remove_all_agrees_with_std() {
    let patterns = ["", "a", "Speed:", "MHz", " ", "\n", "MM"];
    for sample in SAMPLES {
        for pattern in patterns {
            let got: String = remove_all(&chars(sample), &chars(pattern)).iter().collect();
            assert_eq!(got, sample.replace(pattern, ""), "{:?} {:?}", sample, pattern);
        }
    }
    let got: String = remove_all(&chars("MMHzHz"), &chars("MHz")).iter().collect();
    assert_eq!(got, "MHz");
}

#[test]
fn numbers_agree_with_std() {
    let samples = [
        "", "+", "-", "0", "+0", "-0", "7", "+7", "++7", "2400", "0002400", "4294967295",
        "4294967296", "+4294967295", "99999999999999999999", "00000000000000000000001", "12a",
        "a12", " 12", "12 ", "1_000", "１２", "٣", "1.5", "0x10",
    ];
    for sample in samples {
        assert_eq!(to_u32(&chars(sample)), sample.parse::<u32>().ok(), "{:?}", sample);
    }
    assert_eq!(to_u32(&chars("2400")), Some(2400));
    assert_eq!(to_u32(&chars("4294967296")), None);
}
