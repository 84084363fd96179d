use hermes::order::order_of;
use hermes::order::NameOrder;
use hermes::project::clone_names;
use hermes::project::contains_name;
use hermes::text::join_names;
use hermes::text::split_profiles;

fn names(list: &[&str]) -> Vec<String> {
    list.iter().map(|s| s.to_string()).collect()
}

#[test]
fn split_on_commas() {
    assert_eq!(split_profiles("dev,staging,prod"), names(&["dev", "staging", "prod"]));
    assert_eq!(split_profiles("dev"), names(&["dev"]));
}

#[test]
fn split_does_not_trim() {
    assert_eq!(split_profiles("a, b"), names(&["a", " b"]));
    assert_eq!(split_profiles(" a ,b "), names(&[" a ", "b "]));
}

#[test]
fn split_keeps_empty_entries() {
    assert_eq!(split_profiles(""), names(&[""]));
    assert_eq!(split_profiles(","), names(&["", ""]));
    assert_eq!(split_profiles("a,,b"), names(&["a", "", "b"]));
    assert_eq!(split_profiles(",a,"), names(&["", "a", ""]));
}

#[test]
fn split_keeps_repeated_entries() {
    assert_eq!(split_profiles("a,a,a"), names(&["a", "a", "a"]));
}

#[test]
fn split_takes_any_characters() {
    assert_eq!(split_profiles("\u{e9}t\u{e9},\u{4e2d}\u{6587},x"), names(&["\u{e9}t\u{e9}", "\u{4e2d}\u{6587}", "x"]));
}

#[test]
fn split_agrees_with_the_standard_split() {
    for list in ["", ",", "a", "a,b", "a, b ,,c,", ",,,", "dev,staging,prod"] {
        let expected: Vec<String> = list.split(",").map(String::from).collect();
        assert_eq!(split_profiles(list), expected);
    }
}

#[test]
fn a_name_with_a_comma_does_not_come_back() {
    let stored = names(&["dev", "staging,weird"]);
    let joined = join_names(&stored, ",");
    assert_eq!(joined, "dev,staging,weird");
    assert_eq!(split_profiles(&joined), names(&["dev", "staging", "weird"]));
    assert_ne!(split_profiles(&joined), stored);
}

#[test]
fn names_without_commas_come_back() {
    let stored = names(&["dev", " ", "", "prod"]);
    assert_eq!(split_profiles(&join_names(&stored, ",")), stored);
    let list = "a,,b , c";
    assert_eq!(join_names(&split_profiles(list), ","), list);
}

#[test]
fn join_with_separator() {
    assert_eq!(join_names(&names(&["dev", "prod"]), ", "), "dev, prod");
    assert_eq!(join_names(&names(&["a", "b", "c"]), "\n"), "a\nb\nc");
    assert_eq!(join_names(&names(&["only"]), ", "), "only");
    assert_eq!(join_names(&names(&[]), ", "), "");
    assert_eq!(join_names(&names(&["", ""]), "-"), "-");
}

#[test]
fn order_of_names() {
    assert_eq!(order_of("a", "b"), NameOrder::Before);
    assert_eq!(order_of("b", "a"), NameOrder::After);
    assert_eq!(order_of("api", "api"), NameOrder::Same);
    assert_eq!(order_of("", ""), NameOrder::Same);
    assert_eq!(order_of("", "a"), NameOrder::Before);
    assert_eq!(order_of("ap", "api"), NameOrder::Before);
    assert_eq!(order_of("api", "ap"), NameOrder::After);
    assert_eq!(order_of("Z", "a"), NameOrder::Before);
    assert_eq!(order_of("z", "\u{e9}"), NameOrder::Before);
}

#[test]
fn order_of_agrees_with_the_standard_order() {
    let samples = ["", "a", "ab", "b", "B", "\u{e9}", "\u{4e2d}", "\u{1f600}", "a\u{e9}", "zz"];
    for a in samples {
        for b in samples {
            let expected = match a.cmp(b) {
                std::cmp::Ordering::Less => NameOrder::Before,
                std::cmp::Ordering::Equal => NameOrder::Same,
                std::cmp::Ordering::Greater => NameOrder::After,
            };
            assert_eq!(order_of(a, b), expected);
        }
    }
}

#[test]
fn names_are_found_and_copied() {
    let list = names(&["dev", "prod", ""]);
    assert!(contains_name(&list, "prod"));
    assert!(contains_name(&list, ""));
    assert!(!contains_name(&list, "pro"));
    assert!(!contains_name(&names(&[]), "dev"));
    assert_eq!(clone_names(&list), list);
}
