use devicemapper::text::{decimal_string, parse_u64, split_on, starts_with};

#[test]
fn decimal_matches_to_string() {
    for n in [0u64, 1, 9, 10, 11, 99, 100, 101, 4096, 1 << 24, u64::MAX - 1, u64::MAX] {
        assert_eq!(decimal_string(n), n.to_string());
    }
    let mut n: u64 = 1;
    while let Some(m) = n.checked_mul(7) {
        assert_eq!(decimal_string(m), m.to_string());
        n = m;
    }
}

#[test]
fn parse_matches_std() {
    let cases = [
        "", "+", "-", "-0", "0", "00", "+0", "7", "+7", "++7", "12a", "a12", " 1", "1 ",
        "18446744073709551615", "18446744073709551616", "99999999999999999999", "000000000000000000000042",
        "4٢", "١", "+18446744073709551615",
    ];
    for s in cases {
        assert_eq!(parse_u64(s), s.parse::<u64>().ok(), "text {:?}", s);
    }
}

#[test]
fn parse_reads_back_decimal() {
    for n in [0u64, 5, 10, 1234567890, u64::MAX] {
        assert_eq!(parse_u64(&decimal_string(n)), Some(n));
    }
}

#[test]
fn split_matches_std() {
    let cases = ["", " ", "a", "a b", " a", "a ", "a  b", "1 2 3", "ä ö", "  "];
    for s in cases {
        let ours = split_on(s, ' ');
        let std: Vec<String> = s.split(' ').map(|p| p.to_string()).collect();
        assert_eq!(ours, std, "text {:?}", s);
    }
    assert_eq!(split_on("253:0,7", ','), vec!["253:0".to_string(), "7".to_string()]);
}

#[test]
fn prefixes() {
    assert!(starts_with("Fail", "Fail"));
    assert!(starts_with("Failing", "Fail"));
    assert!(!starts_with("Fai", "Fail"));
    assert!(!starts_with("fail", "Fail"));
    assert!(starts_with("anything", ""));
}
