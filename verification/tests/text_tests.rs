use api_bench::text::{decimal_string, join_strs, push_signed_decimal, split_on};

#[test]
fn decimal_of_numbers() {
    assert_eq!(decimal_string(0), "0");
    assert_eq!(decimal_string(7), "7");
    assert_eq!(decimal_string(8983), "8983");
    assert_eq!(decimal_string(u64::MAX), u64::MAX.to_string());
}

#[test]
fn signed_decimal_of_numbers() {
    for n in [0i32, 1, -1, 42, -120, i32::MAX, i32::MIN] {
        let mut s = String::new();
        push_signed_decimal(&mut s, n);
        assert_eq!(s, n.to_string());
    }
}

#[test]
fn split_matches_str_split() {
    for text in ["--latency 20ms --port 8984 varnish:8983", "", " ", "a  b", " lead", "trail "] {
        let expected: Vec<String> = text.split(' ').map(|s| s.to_string()).collect();
        assert_eq!(split_on(text, ' '), expected);
    }
}

#[test]
fn join_matches_slice_join() {
    assert_eq!(join_strs(&["a", "b", "c"], ", "), "a, b, c");
    assert_eq!(join_strs(&[], ", "), "");
    assert_eq!(join_strs(&["only"], "-"), "only");
}

#[test]
fn join_of_split_gives_back_the_text() {
    let text = "oha -z 10s -c 5 --no-tui";
    let pieces = split_on(text, ' ');
    let refs: Vec<&str> = pieces.iter().map(|s| s.as_str()).collect();
    assert_eq!(join_strs(&refs, " "), text);
}

#[test]
fn split_of_join_gives_back_the_parts() {
    let parts = ["--latency", "200ms", "", "varnish:8983"];
    let joined = join_strs(&parts, " ");
    assert_eq!(split_on(&joined, ' '), parts.iter().map(|s| s.to_string()).collect::<Vec<_>>());
}
