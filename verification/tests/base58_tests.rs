use untron_solver::base58::{apply_case_mask, ascii_letter_count, base58_decode_and_validate_with_mask};

const USDT_CONTRACT: &str = "TR7NHqjeKQxGTCi8q8ZY4pL8otSzgjLj6t";

fn mask_of(address: &str) -> usize {
    let mut mask = 0usize;
    let mut k = 0;
    for c in address.chars() {
        if c.is_ascii_alphabetic() {
            if c.is_ascii_uppercase() {
                mask |= 1 << k;
            }
            k += 1;
        }
    }
    mask
}

#[test]
fn correct_mask_restores_a_valid_address() {
    let lowered = USDT_CONTRACT.to_ascii_lowercase();
    let mask = mask_of(USDT_CONTRACT);
    assert!(base58_decode_and_validate_with_mask(USDT_CONTRACT, mask));
    assert!(base58_decode_and_validate_with_mask(&lowered, mask));
    assert_eq!(apply_case_mask(&lowered, mask), USDT_CONTRACT);
}

#[test]
fn wrong_masks_and_bad_inputs_are_rejected() {
    let mask = mask_of(USDT_CONTRACT);
    assert!(!base58_decode_and_validate_with_mask(USDT_CONTRACT, mask ^ 1));
    assert!(!base58_decode_and_validate_with_mask(USDT_CONTRACT, mask ^ (1 << 5)));
    // '0' is not a Base58 digit.
    assert!(!base58_decode_and_validate_with_mask("T0", 0));
    // Non-ASCII input never decodes.
    assert!(!base58_decode_and_validate_with_mask("Té", 0));
    // Too short to hold an address.
    assert!(!base58_decode_and_validate_with_mask("T", 1));
    assert!(!base58_decode_and_validate_with_mask("", 0));
}

#[test]
fn case_mask_bits_follow_letter_order() {
    assert_eq!(ascii_letter_count("a1B2c"), 3);
    assert_eq!(apply_case_mask("a1B2c", 0b101), "A1b2C");
    assert_eq!(apply_case_mask("a1B2c", 0), "a1b2c");
    assert_eq!(apply_case_mask("12-3", 7), "12-3");
}
