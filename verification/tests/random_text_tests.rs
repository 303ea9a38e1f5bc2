use rand::SeedableRng;
use zed_util::random_text::RandomCharIter;

fn is_newline(c: char) -> bool {
    c == '\n'
}

fn is_greek(c: char) -> bool {
    ('\u{3b1}'..='\u{3c9}').contains(&c)
}

fn is_symbol(c: char) -> bool {
    matches!(c, '\u{270b}' | '\u{2705}' | '\u{274c}' | '\u{274e}' | '\u{2b50}')
}

fn is_pictograph(c: char) -> bool {
    matches!(c, '\u{1f350}' | '\u{1f3c0}' | '\u{1f357}' | '\u{1f389}')
}

fn is_ascii_letter(c: char) -> bool {
    c.is_ascii_lowercase()
}

#[test]
fn every_character_comes_from_the_fixture_alphabet() {
    let mut chars = RandomCharIter::from_seed(11);
    for _ in 0..10_000 {
        let c = chars.next().unwrap();
        assert!(
            is_newline(c) || is_greek(c) || is_symbol(c) || is_pictograph(c) || is_ascii_letter(c),
            "unexpected character: {:?}",
            c
        );
    }
}

#[test]
fn same_seed_gives_same_text() {
    let mut a = RandomCharIter::from_seed(7);
    let mut b = RandomCharIter::new(rand::rngs::StdRng::seed_from_u64(7));
    for _ in 0..1_000 {
        assert_eq!(a.next(), b.next());
    }
}

#[test]
fn different_seeds_give_different_text() {
    let mut a = RandomCharIter::from_seed(1);
    let mut b = RandomCharIter::from_seed(2);
    let left: Vec<Option<char>> = (0..1_000).map(|_| a.next()).collect();
    let right: Vec<Option<char>> = (0..1_000).map(|_| b.next()).collect();
    assert_ne!(left, right);
}

#[test]
fn take_chars_yields_the_requested_length() {
    let mut chars = RandomCharIter::from_seed(3);
    let batch = chars.take_chars(257);
    assert_eq!(batch.len(), 257);
    assert!(batch.iter().all(|&c| {
        is_newline(c) || is_greek(c) || is_symbol(c) || is_pictograph(c) || is_ascii_letter(c)
    }));
}

#[test]
fn distribution_follows_the_weighted_chain() {
    let samples: usize = 400_000;
    let mut chars = RandomCharIter::from_seed(42);
    let mut newlines: usize = 0;
    let mut greek: usize = 0;
    let mut symbols: usize = 0;
    let mut pictographs: usize = 0;
    let mut ascii: usize = 0;
    for _ in 0..samples {
        let c = chars.next().unwrap();
        if is_newline(c) {
            newlines += 1;
        } else if is_greek(c) {
            greek += 1;
        } else if is_symbol(c) {
            symbols += 1;
        } else if is_pictograph(c) {
            pictographs += 1;
        } else {
            assert!(is_ascii_letter(c));
            ascii += 1;
        }
    }
    let frac = |n: usize| n as f64 / samples as f64;
    // First-match-wins chain: 1/5, then 1/8, 1/10 and 1/12 of what remains.
    assert!((frac(newlines) - 0.2).abs() < 0.01);
    assert!((frac(greek) - 0.8 * 0.125).abs() < 0.01);
    assert!((frac(symbols) - 0.8 * 0.875 * 0.1).abs() < 0.01);
    assert!((frac(pictographs) - 0.8 * 0.875 * 0.9 / 12.0).abs() < 0.01);
    assert!((frac(ascii) - 0.8 * 0.875 * 0.9 * (11.0 / 12.0)).abs() < 0.01);
}
