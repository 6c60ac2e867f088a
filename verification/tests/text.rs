use dkn_compute_launcher::text::{
    chars_eq, chars_start_with, decimal_chars, from_chars, join_chars, parse_chars, split_chars,
    split_lines, str_eq, to_chars, trim_prefixes,
};

fn lines_of(text: &str) -> Vec<String> {
    split_lines(&to_chars(text)).iter().map(|l| from_chars(l)).collect()
}

fn parts_of(text: &str, sep: char) -> Vec<String> {
    split_chars(&to_chars(text), sep).iter().map(|l| from_chars(l)).collect()
}

#[test]
fn test_chars_round_trip() {
    for text in ["", "a", "KEY=value", "← Go Back", "line\nline\r\n"] {
        assert_eq!(from_chars(&to_chars(text)), text);
        assert_eq!(to_chars(text), text.chars().collect::<Vec<char>>());
    }
}

#[test]
fn test_lines_are_the_lines_of_std() {
    let samples = [
        "",
        "\n",
        "\r\n",
        "a",
        "a\n",
        "a\nb",
        "a\nb\n",
        "a\r\nb\r\n",
        "a\r\nb\r",
        "a\r\r\nb",
        "\n\n",
        "a\n\nb\n\n",
        "\r",
        "# comment\nKEY=value\n\nOTHER=1",
        "x\ry\nz",
    ];
    for text in samples {
        let expected: Vec<String> = text.lines().map(String::from).collect();
        assert_eq!(lines_of(text), expected, "lines of {:?}", text);
    }
}

#[test]
fn test_lines_edge_cases() {
    assert_eq!(lines_of(""), Vec::<String>::new());
    assert_eq!(lines_of("\n"), vec![""]);
    assert_eq!(lines_of("a\r\nb\r"), vec!["a", "b\r"]);
    assert_eq!(lines_of("a\n\n"), vec!["a", ""]);
}

#[test]
fn test_split_is_the_split_of_std() {
    let samples = ["", ",", "a", "a,b", "a,,b", ",a,", "a=b=c", "/ip4/0.0.0.0/tcp/4001", "1.2.3"];
    for text in samples {
        for sep in [',', '=', '/', '.'] {
            let expected: Vec<String> = text.split(sep).map(String::from).collect();
            assert_eq!(parts_of(text, sep), expected, "split of {:?} at {:?}", text, sep);
        }
    }
}

#[test]
fn test_join_is_the_join_of_std() {
    let lists: Vec<Vec<&str>> = vec![vec![], vec![""], vec!["a"], vec!["a", "b"], vec!["", "", ""]];
    for list in lists {
        let parts: Vec<Vec<char>> = list.iter().map(|p| to_chars(p)).collect();
        assert_eq!(from_chars(&join_chars(&parts, &to_chars("\n"))), list.join("\n"));
        assert_eq!(from_chars(&join_chars(&parts, &to_chars(", "))), list.join(", "));
    }
}

#[test]
fn test_equality_and_prefix() {
    assert!(str_eq("abc", "abc"));
    assert!(!str_eq("abc", "abd"));
    assert!(!str_eq("abc", "ab"));
    assert!(str_eq("", ""));
    assert!(chars_eq(&to_chars("é"), &to_chars("é")));
    assert!(chars_start_with(&to_chars("KEY=value"), &to_chars("KEY=")));
    assert!(chars_start_with(&to_chars("KEY="), &to_chars("KEY=")));
    assert!(!chars_start_with(&to_chars("KEY"), &to_chars("KEY=")));
    assert!(chars_start_with(&to_chars("anything"), &to_chars("")));
}

#[test]
fn test_trim_prefixes_is_trim_start_matches() {
    for text in ["", "0x", "0x12", "0x0x12", "120x", "x0x1", "0"] {
        assert_eq!(
            from_chars(&trim_prefixes(&to_chars(text), &to_chars("0x"))),
            text.trim_start_matches("0x")
        );
    }
    assert_eq!(from_chars(&trim_prefixes(&to_chars("abc"), &to_chars(""))), "abc");
}

#[test]
fn test_decimal_is_to_string() {
    for n in [0u64, 1, 9, 10, 11, 99, 100, 4001, 11434, 65535, 65536, u64::MAX] {
        assert_eq!(from_chars(&decimal_chars(n)), n.to_string());
    }
}

#[test]
fn test_parse_is_the_parse_of_std() {
    let samples = [
        "", "+", "-", "0", "00", "007", "+7", "++7", "-7", "7 ", " 7", "65535", "65536", "4001",
        "11434", "4294967295", "4294967296", "99999999999999999999999", "1_000", "0x10", "１２",
        "12a",
    ];
    for text in samples {
        let as_u16 = text.parse::<u16>().ok().map(|n| n as u64);
        let as_u32 = text.parse::<u32>().ok().map(|n| n as u64);
        let as_u64 = text.parse::<u64>().ok();
        assert_eq!(parse_chars(&to_chars(text), u16::MAX as u64), as_u16, "u16 of {:?}", text);
        assert_eq!(parse_chars(&to_chars(text), u32::MAX as u64), as_u32, "u32 of {:?}", text);
        assert_eq!(parse_chars(&to_chars(text), u64::MAX), as_u64, "u64 of {:?}", text);
    }
}
