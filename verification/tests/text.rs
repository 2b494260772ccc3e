use llama_launcher::text::{
    chars_less, decimal_string, find_chars, join_strings, lowercased, parse_u64_chars,
    stable_order, str_contains, str_ends_with, str_starts_with,
};

fn chars(s: &str) -> Vec<char> {
    s.chars().collect()
}

#[test]
fn lowercase_of_ascii_and_other_text() {
    assert_eq!(lowercased("MiB FREE"), "mib free");
    assert_eq!(lowercased("ÄÖ Straße"), "äö straße");
    assert_eq!(lowercased(""), "");
}

#[test]
fn searching_text() {
    assert!(str_contains("abcabd", "abd"));
    assert!(!str_contains("abc", "abcd"));
    assert!(str_contains("abc", ""));
    assert!(str_starts_with("zh-CN", "zh"));
    assert!(!str_starts_with("z", "zh"));
    assert!(str_ends_with("model.gguf", ".gguf"));
    assert_eq!(find_chars(&chars("aaab"), &chars("ab"), 0), Some(2));
    assert_eq!(find_chars(&chars("aaab"), &chars("ab"), 3), None);
}

#[test]
fn decimal_numbers() {
    assert_eq!(decimal_string(0), "0");
    assert_eq!(decimal_string(u64::MAX), "18446744073709551615");
    let v = chars("x18446744073709551615y");
    assert_eq!(parse_u64_chars(&v, 1, 21), Some(u64::MAX));
    let w = chars("18446744073709551616");
    assert_eq!(parse_u64_chars(&w, 0, 20), None);
    let p = chars("+12");
    assert_eq!(parse_u64_chars(&p, 0, 3), Some(12));
    assert_eq!(parse_u64_chars(&p, 0, 1), None);
}

#[test]
fn joining() {
    let parts = vec!["a".to_string(), "".to_string(), "c".to_string()];
    assert_eq!(join_strings(&parts, ", "), "a, , c");
    assert_eq!(join_strings(&Vec::new(), ", "), "");
}

#[test]
fn character_order() {
    assert!(chars_less(&chars("Z"), &chars("a")));
    assert!(chars_less(&chars("ab"), &chars("abc")));
    assert!(!chars_less(&chars("abc"), &chars("abc")));
    assert!(!chars_less(&chars("b"), &chars("abc")));
}

#[test]
fn stable_order_sorts_and_keeps_ties_in_order() {
    let keys = vec![chars("pear"), chars("apple"), chars("fig"), chars("apple"), chars("")];
    let order = stable_order(&keys);
    assert_eq!(order, vec![4, 1, 3, 2, 0]);
    for w in order.windows(2) {
        assert!(keys[w[0]] <= keys[w[1]]);
    }
    assert_eq!(stable_order(&Vec::new()), Vec::<usize>::new());
}
