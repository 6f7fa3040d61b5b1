use memer::token::{middle_part_fits, run_end, symbol_zero_bits, symbols_end, DOT, PAD, ZERO};

const ALPHABET: &[u8] = b"ABCDEFGHIJKLMNOPQRSTUVWXYZabcdefghijklmnopqrstuvwxyz0123456789-_";

fn value_of(symbol: u8) -> u128 {
    ALPHABET.iter().position(|&s| s == symbol).unwrap() as u128
}

fn number_of(symbols: &str) -> u128 {
    let mut bits: u128 = 0;
    for &symbol in symbols.as_bytes() {
        bits = bits * 64 + value_of(symbol);
    }
    let spare = (6 * symbols.len()) % 8;
    bits >> spare
}

#[test]
fn the_bytes_that_matter() {
    assert_eq!(DOT, b'.');
    assert_eq!(PAD, b'=');
    assert_eq!(ZERO, b'A');
}

#[test]
fn run_end_finds_the_first_dot_from_an_offset() {
    let text = "ab.cd..e".as_bytes();
    assert_eq!(run_end(text, 0, 8, DOT, false), 2);
    assert_eq!(run_end(text, 2, 8, DOT, false), 2);
    assert_eq!(run_end(text, 3, 8, DOT, false), 5);
    assert_eq!(run_end(text, 6, 8, DOT, false), 6);
    assert_eq!(run_end(text, 7, 8, DOT, false), 8);
    assert_eq!(run_end(text, 8, 8, DOT, false), 8);
    assert_eq!(run_end(text, 0, 1, DOT, false), 1);
    assert_eq!(run_end("".as_bytes(), 0, 0, DOT, false), 0);
}

#[test]
fn run_end_counts_the_leading_zero_symbols() {
    let text = "x.AAAB.y".as_bytes();
    assert_eq!(run_end(text, 2, 6, ZERO, true), 5);
    assert_eq!(run_end(text, 2, 4, ZERO, true), 4);
    assert_eq!(run_end(text, 5, 6, ZERO, true), 5);
}

#[test]
fn symbols_end_leaves_the_padding_out() {
    let text = "a.AB==.c".as_bytes();
    assert_eq!(symbols_end(text, 2, 6), 4);
    assert_eq!(symbols_end(text, 2, 5), 4);
    assert_eq!(symbols_end(text, 2, 4), 4);
    assert_eq!(symbols_end(text, 4, 6), 4);
    assert_eq!(symbols_end("a=b=".as_bytes(), 0, 4), 3);
    assert_eq!(symbols_end("".as_bytes(), 0, 0), 0);
}

#[test]
fn zero_bits_of_every_symbol() {
    for (value, &symbol) in ALPHABET.iter().enumerate() {
        let expected = if value == 0 { 6 } else { (value as u8).leading_zeros() as usize - 2 };
        assert_eq!(symbol_zero_bits(symbol), expected, "{}", symbol as char);
    }
    for other in [b'=', b'.', b'+', b'/', b' ', 0u8, 200u8] {
        assert_eq!(symbol_zero_bits(other), 0);
    }
}

#[test]
fn fits_exactly_where_the_number_is_below_two_to_the_63() {
    let heads = ["", "A", "AA", "AAAAAAAA", "AAAAAAAAAAAAAAAAAAAA"];
    let firsts = ["A", "B", "D", "H", "P", "Q", "f", "g", "h", "w", "_", "8"];
    let tails = [
        "",
        "A",
        "_",
        "AAAAA",
        "_____",
        "AAAAAAAAA",
        "_________",
        "AAAAAAAAAA",
        "__________",
        "AAAAAAAAAAA",
        "___________",
        "AAAAAAAAAAAA",
        "____________",
    ];
    let mut fitting = 0;
    let mut overflowing = 0;
    for head in heads {
        for first in firsts {
            for tail in tails {
                let symbols = format!("{}{}{}", head, first, tail);
                if symbols.len() > 20 {
                    continue;
                }
                let fits = number_of(&symbols) < (1u128 << 63);
                for padding in ["", "=", "=="] {
                    let token = format!("MTIz.{}{}.AAAA", symbols, padding);
                    assert_eq!(middle_part_fits(&token), fits, "{}", token);
                }
                if fits {
                    fitting += 1;
                } else {
                    overflowing += 1;
                }
            }
        }
    }
    assert!(fitting > 100);
    assert!(overflowing > 100);
}

#[test]
fn only_leading_zero_symbols_fit_whatever_their_number() {
    let zeros = "A".repeat(300);
    assert!(middle_part_fits(&format!("MTIz.{}.AAAA", zeros)));
    assert!(middle_part_fits(&format!("MTIz.{}f_________8=.AAAA", zeros)));
    assert!(!middle_part_fits(&format!("MTIz.{}g_________8=.AAAA", zeros)));
    assert!(!middle_part_fits(&format!("MTIz.B{}.AAAA", zeros)));
}

#[test]
fn the_middle_part_is_what_stands_between_the_first_two_dots() {
    assert!(middle_part_fits(""));
    assert!(middle_part_fits("____________________ no dot at all"));
    assert!(middle_part_fits("____________________.AAAA.AAAA"));
    assert!(middle_part_fits("MTIz.AAAA.____________________"));
    assert!(middle_part_fits("MTIz..____________________"));
    assert!(!middle_part_fits("MTIz.____________________"));
    assert!(!middle_part_fits(".____________________."));
    assert!(middle_part_fits("Bot MTIz.AAAA.AAAA"));
}
