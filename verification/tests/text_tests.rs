use tns::text::{compare_text, contains_text, insert_sorted, same_text, TextOrder};

fn order(a: &str, b: &str) -> &'static str {
    match compare_text(a, b) {
        TextOrder::Less => "less",
        TextOrder::Equal => "equal",
        TextOrder::Greater => "greater",
    }
}

#[test]
fn compare_text_follows_string_order() {
    let samples = ["", "a", "ab", "b", "B", "é", "z", "zz", "\u{7f}", "ü"];
    for a in samples {
        for b in samples {
            let expected = match a.cmp(b) {
                std::cmp::Ordering::Less => "less",
                std::cmp::Ordering::Equal => "equal",
                std::cmp::Ordering::Greater => "greater",
            };
            assert_eq!(order(a, b), expected, "{a:?} vs {b:?}");
        }
    }
    assert!(same_text("abc", "abc"));
    assert!(!same_text("abc", "abd"));
}

#[test]
fn insert_sorted_keeps_a_sorted_set() {
    let mut set: Vec<String> = Vec::new();
    for x in ["m", "b", "z", "b", "a", "m"] {
        insert_sorted(&mut set, x.to_string());
    }
    assert_eq!(set, vec!["a", "b", "m", "z"]);
    assert!(contains_text(&set, "m"));
    assert!(!contains_text(&set, "q"));
}
