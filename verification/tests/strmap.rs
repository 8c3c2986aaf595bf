use cs2_dumper::strmap::{compare_chars, StrMap, TextOrder};

fn keys(m: &StrMap<u32>) -> Vec<String> {
    (0..m.len()).map(|i| m.key_at(i).clone()).collect()
}

#[test]
fn keys_come_out_in_string_order() {
    let mut m: StrMap<u32> = StrMap::new();
    let words = ["pear", "apple", "Zebra", "apple2", "", "é", "appl", "banana"];
    for (i, w) in words.iter().enumerate() {
        m.insert(w.to_string(), i as u32);
    }
    let mut expected: Vec<String> = words.iter().map(|w| w.to_string()).collect();
    expected.sort();
    assert_eq!(keys(&m), expected);
}

#[test]
fn insert_replaces_and_get_reads_back() {
    let mut m: StrMap<u32> = StrMap::new();
    m.insert("b".to_string(), 1);
    m.insert("a".to_string(), 2);
    m.insert("b".to_string(), 3);
    assert_eq!(m.len(), 2);
    assert_eq!(m.get("b"), Some(&3));
    assert_eq!(m.get("a"), Some(&2));
    assert_eq!(m.get("c"), None);
    assert_eq!(m.index_of("b"), Some(1));
    assert_eq!(m.index_of("zz"), None);
    let prev = m.replace_value_at(0, 9);
    assert_eq!(prev, 2);
    assert_eq!(m.get("a"), Some(&9));
    assert_eq!(*m.value_at(1), 3);
}

#[test]
fn compare_chars_orders_by_code_point() {
    let c = |a: &str, b: &str| compare_chars(&a.chars().collect(), &b.chars().collect());
    assert_eq!(c("a", "b"), TextOrder::Less);
    assert_eq!(c("b", "a"), TextOrder::Greater);
    assert_eq!(c("ab", "ab"), TextOrder::Equal);
    assert_eq!(c("ab", "abc"), TextOrder::Less);
    assert_eq!(c("B", "a"), TextOrder::Less);
    assert_eq!(c("z", "é"), TextOrder::Less);
    assert_eq!(c("", ""), TextOrder::Equal);
}
