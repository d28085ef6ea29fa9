use shamash::snmp::{receive_counters, CounterError};

const SAMPLE: &str = "Ip6InReceives                   \t1234\nIp6InHdrErrors                  \t0\nIp6InTooBigErrors               \t0\n";

#[test]
fn reads_the_receive_counter() {
    assert_eq!(receive_counters(SAMPLE), Ok(vec![1234]));
}

#[test]
fn no_counter_line_gives_nothing() {
    assert_eq!(receive_counters("Ip6InHdrErrors 0\n"), Ok(vec![]));
    assert_eq!(receive_counters(""), Ok(vec![]));
}

#[test]
fn last_line_needs_no_newline() {
    assert_eq!(receive_counters("x 1\nIp6InReceives 77"), Ok(vec![77]));
}

#[test]
fn every_mentioning_line_counts() {
    assert_eq!(
        receive_counters("Ip6InReceives 1\nother 2\n  Ip6InReceives\t+3  trailing\r\n"),
        Ok(vec![1, 3])
    );
}

#[test]
fn missing_value_is_an_error() {
    assert_eq!(receive_counters("Ip6InReceives\n"), Err(CounterError::MissingValue));
    assert_eq!(receive_counters("Ip6InReceives   \t \n"), Err(CounterError::MissingValue));
}

#[test]
fn bad_values_are_errors() {
    assert_eq!(receive_counters("Ip6InReceives 12a\n"), Err(CounterError::BadValue));
    assert_eq!(receive_counters("Ip6InReceives -1\n"), Err(CounterError::BadValue));
    assert_eq!(receive_counters("Ip6InReceives +\n"), Err(CounterError::BadValue));
    assert_eq!(receive_counters("Ip6InReceives 18446744073709551616\n"), Err(CounterError::BadValue));
    assert_eq!(receive_counters("Ip6InReceives 18446744073709551615\n"), Ok(vec![u64::MAX]));
}

#[test]
fn first_bad_line_decides() {
    assert_eq!(
        receive_counters("Ip6InReceives 5\nIp6InReceives x\nIp6InReceives\n"),
        Err(CounterError::BadValue)
    );
}

#[test]
fn any_unicode_whitespace_separates_fields() {
    assert_eq!(receive_counters("Ip6InReceives\u{a0}5"), Ok(vec![5]));
    assert_eq!(receive_counters("Ip6InReceives\u{3000}\u{2007}6\u{85}x\n"), Ok(vec![6]));
    assert_eq!(receive_counters("Ip6InReceives\u{2028}7"), Ok(vec![7]));
    // a non-whitespace, non-digit character stays part of the field
    assert_eq!(receive_counters("Ip6InReceives \u{200b}8"), Err(CounterError::BadValue));
}

#[test]
fn agrees_with_std_parsing() {
    for line in [
        "Ip6InReceives 42",
        "Ip6InReceives\t0009",
        "Ip6InReceives +7 x",
        "Ip6InReceives\u{a0}5",
        "Ip6InReceives\u{1680}11\u{205f}",
        "\u{2000}Ip6InReceives\u{200a}\u{202f}12",
    ] {
        let expected: u64 = line.split_whitespace().nth(1).unwrap().parse().unwrap();
        assert_eq!(receive_counters(line), Ok(vec![expected]));
    }
}

/// The counters as the standard library's line and whitespace splitting reads them.
fn reference(text: &str) -> Result<Vec<u64>, CounterError> {
    let mut out = Vec::new();
    for line in text.lines() {
        if line.contains("Ip6InReceives") {
            match line.split_whitespace().nth(1) {
                None => return Err(CounterError::MissingValue),
                Some(field) => match field.parse::<u64>() {
                    Ok(v) => out.push(v),
                    Err(_) => return Err(CounterError::BadValue),
                },
            }
        }
    }
    Ok(out)
}

#[test]
fn every_character_separates_as_std_does() {
    for code in 0u32..=0x10FFFF {
        if let Some(c) = char::from_u32(code) {
            let text = format!("Ip6InReceives{c}1");
            assert_eq!(receive_counters(&text), reference(&text), "separator U+{code:04X}");
        }
    }
}
