use regex::Regex;
use title_grabber_rs::fix_whitespace;
use title_grabber_rs::listing::{sorted_unique, str_rank, Rank};
use title_grabber_rs::shape::{find_url, is_status_path};

const ALPHABET: [char; 20] = [
    'h', 't', 't', 'p', 's', ':', '/', '/', ' ', ' ', '\n', '\t', 'a', '1', '9', '\u{a0}', 'é',
    '\u{3000}', 'u', '0',
];

struct Dice(u64);

impl Dice {
    fn roll(&mut self, sides: usize) -> usize {
        self.0 = self.0.wrapping_mul(6364136223846793005).wrapping_add(1442695040888963407);
        ((self.0 >> 33) as usize) % sides
    }

    fn text(&mut self, max_len: usize) -> String {
        let len = self.roll(max_len + 1);
        let mut s = String::new();
        for _ in 0..len {
            match self.roll(12) {
                0 => s.push_str("http://"),
                1 => s.push_str("https://"),
                2 => s.push_str("/status/"),
                _ => s.push(ALPHABET[self.roll(ALPHABET.len())]),
            }
        }
        s
    }
}

#[test]
fn random_lines_give_the_match_of_the_url_pattern() {
    let re = Regex::new(r"https?://\S+").unwrap();
    let mut dice = Dice(1);
    for _ in 0..3000 {
        let line = dice.text(24);
        assert_eq!(re.find(&line).map(|m| m.as_str().to_string()), find_url(&line), "on {:?}", line);
    }
}

#[test]
fn random_paths_have_the_shape_of_the_status_pattern() {
    let re = Regex::new(r"/status/\d+\z").unwrap();
    let mut dice = Dice(2);
    let mut shaped = 0;
    for _ in 0..3000 {
        let mut path = dice.text(6);
        if dice.roll(2) == 0 {
            path.push_str("/status/");
            for _ in 0..dice.roll(4) {
                path.push(ALPHABET[13 + dice.roll(2)]);
            }
        }
        if re.is_match(&path) {
            shaped += 1;
        }
        assert_eq!(re.is_match(&path), is_status_path(&path), "on {:?}", path);
    }
    assert!(shaped > 100);
}

#[test]
fn random_titles_are_normalised_as_the_patterns_do() {
    let new_line = Regex::new(r"\n").unwrap();
    let runs = Regex::new(r"\s{2,}").unwrap();
    let mut dice = Dice(3);
    for _ in 0..3000 {
        let title = dice.text(20);
        let expected = runs.replace_all(&new_line.replace_all(title.trim(), " "), " ").into_owned();
        let got = fix_whitespace(title.clone());
        assert_eq!(expected, got, "on {:?}", title);
        assert_eq!(got.clone(), fix_whitespace(got), "on {:?}", title);
    }
}

#[test]
fn random_lists_are_sorted_as_std_sorts_them() {
    let mut dice = Dice(4);
    for _ in 0..500 {
        let n = dice.roll(9);
        let items: Vec<String> = (0..n).map(|_| dice.text(3)).collect();
        let mut expected = items.clone();
        expected.sort_unstable();
        expected.dedup();
        assert_eq!(expected, sorted_unique(&items), "on {:?}", items);
        if n >= 2 {
            let rank = match items[0].cmp(&items[1]) {
                std::cmp::Ordering::Less => Rank::Before,
                std::cmp::Ordering::Equal => Rank::Same,
                std::cmp::Ordering::Greater => Rank::After,
            };
            assert_eq!(rank, str_rank(&items[0], &items[1]));
        }
    }
}
