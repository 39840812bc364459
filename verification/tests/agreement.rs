use std::io::BufRead;

use liblmod::manifest::{find_dependencies, find_path};
use liblmod::text::{chars_of, find, split_ranges};

/// A sequence of numbers that looks random and is the same on every run.
struct Numbers(u64);

impl Numbers {
    fn next(&mut self, below: usize) -> usize {
        self.0 = self.0.wrapping_mul(6364136223846793005).wrapping_add(1442695040888963407);
        ((self.0 >> 33) as usize) % below
    }

    fn text(&mut self, alphabet: &[char], longest: usize) -> String {
        let len = self.next(longest + 1);
        (0..len).map(|_| alphabet[self.next(alphabet.len())]).collect()
    }
}

fn lines_of(text: &str) -> Vec<String> {
    text.as_bytes().lines().map(|line| line.unwrap()).collect()
}

#[test]
fn find_path_agrees_with_a_scan_of_the_lines() {
    let alphabet = ['a', 'x', '/', '.', 'k', 'o', '\n', '\n', '\r', ' ', 'é'];
    let names = ["a", "x", "", "ax", "é", "a/x"];
    let mut numbers = Numbers(1);
    for _ in 0..4000 {
        let order = numbers.text(&alphabet, 40);
        let name = names[numbers.next(names.len())];
        let mark = format!("/{name}.ko");
        let expected = lines_of(&order).into_iter().filter(|line| line.contains(&mark)).last();
        assert_eq!(find_path(&order, name), expected, "{name:?} in {order:?}");
    }
}

#[test]
fn find_dependencies_agrees_with_a_scan_of_the_lines() {
    let alphabet = ['a', 'b', ':', ' ', ' ', '\n', '\n', '\r', 'é'];
    let keys = ["a", "b", "", "ab", "a:", "a b", "é"];
    let mut numbers = Numbers(2);
    for _ in 0..4000 {
        let dep = numbers.text(&alphabet, 40);
        let key = keys[numbers.next(keys.len())];
        let mut expected: Vec<String> = Vec::new();
        for line in lines_of(&dep) {
            if line.starts_with(key) {
                expected.extend(line.split(' ').skip(1).map(|token| token.to_string()));
            }
        }
        assert_eq!(find_dependencies(&dep, key), expected, "{key:?} in {dep:?}");
    }
}

#[test]
fn find_agrees_with_the_search_of_strings() {
    let alphabet = ['a', 'b', 'é'];
    let mut numbers = Numbers(3);
    for _ in 0..4000 {
        let hay = numbers.text(&alphabet, 12);
        let needle = numbers.text(&alphabet, 4);
        assert_eq!(
            find(&chars_of(&hay), &chars_of(&needle)),
            hay.contains(&needle),
            "{needle:?} in {hay:?}"
        );
    }
}

#[test]
fn split_ranges_agrees_with_the_split_of_strings() {
    let alphabet = ['a', 'b', ' ', ' '];
    let mut numbers = Numbers(4);
    for _ in 0..4000 {
        let text = numbers.text(&alphabet, 12);
        let pieces: Vec<String> = split_ranges(&chars_of(&text), ' ')
            .into_iter()
            .map(|(from, to)| text[from..to].to_string())
            .collect();
        let expected: Vec<String> = text.split(' ').map(|piece| piece.to_string()).collect();
        assert_eq!(pieces, expected, "{text:?}");
    }
}
