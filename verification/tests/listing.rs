use title_grabber_rs::listing::{join, same_text, sorted_unique, str_rank, Rank};

fn strings(parts: &[&str]) -> Vec<String> {
    parts.iter().map(|p| p.to_string()).collect()
}

#[test]
fn strings_are_ranked_as_std_orders_them() {
    let samples = ["", "a", "ab", "b", "B", "a/", "a,", "é", "e", "\u{10000}", "\u{ffff}", "aa"];
    for a in samples {
        for b in samples {
            let expected = match a.cmp(b) {
                std::cmp::Ordering::Less => Rank::Before,
                std::cmp::Ordering::Equal => Rank::Same,
                std::cmp::Ordering::Greater => Rank::After,
            };
            assert_eq!(expected, str_rank(a, b), "on {:?} and {:?}", a, b);
            assert_eq!(a == b, same_text(a, b));
        }
    }
}

#[test]
fn sorting_drops_duplicates() {
    let items = strings(&["b", "a", "c", "a", "b", ""]);
    assert_eq!(strings(&["", "a", "b", "c"]), sorted_unique(&items));
    assert_eq!(Vec::<String>::new(), sorted_unique(&Vec::new()));
    assert_eq!(strings(&["x"]), sorted_unique(&strings(&["x", "x", "x"])));
}

#[test]
fn sorting_agrees_with_std() {
    let items = strings(&["https://b", "/z", "https://a/1", "http://c", "/a", "https://a", "/z"]);
    let mut expected = items.clone();
    expected.sort_unstable();
    expected.dedup();
    assert_eq!(expected, sorted_unique(&items));
}

#[test]
fn joining_puts_the_separator_between_neighbours() {
    assert_eq!("", join(&strings(&[]), ","));
    assert_eq!("a", join(&strings(&["a"]), ","));
    assert_eq!("a,b,c", join(&strings(&["a", "b", "c"]), ","));
    assert_eq!("a b", join(&strings(&["a", "b"]), " "));
    assert_eq!("ab", join(&strings(&["a", "b"]), ""));
    assert_eq!(",", join(&strings(&["", ""]), ","));
}
