use untron_solver::address::Address;
use untron_solver::nonce::{nonce_floor_for_sender, nonce_floor_of, NonceFloor};
use untron_solver::store::average_actual_gas_cost;
use untron_solver::wordmath::{
    average_word, word_div, word_increment, word_max, word_order, word_saturating_add, WordOrder,
};

fn word(v: u128) -> [u8; 32] {
    let mut w = [0u8; 32];
    w[16..].copy_from_slice(&v.to_be_bytes());
    w
}

#[test]
fn words_compare_as_numbers() {
    assert_eq!(word_order(&word(1), &word(2)), WordOrder::Below);
    assert_eq!(word_order(&word(300), &word(300)), WordOrder::Same);
    let mut big = [0u8; 32];
    big[0] = 1;
    assert_eq!(word_order(&big, &word(u128::MAX)), WordOrder::Above);
    assert_eq!(word_max(word(7), word(9)), word(9));
}

#[test]
fn increment_carries_and_saturates() {
    assert_eq!(word_increment(word(0)), word(1));
    assert_eq!(word_increment(word(0xff)), word(0x100));
    let mut carried = [0u8; 32];
    carried[15] = 1;
    assert_eq!(word_increment(word(u128::MAX)), carried);
    assert_eq!(word_increment([0xffu8; 32]), [0xffu8; 32]);
}

#[test]
fn nonce_floor_only_rises_and_lifts_the_chain_nonce() {
    let mut f = NonceFloor::new();
    assert_eq!(f.current_nonce(word(5)), word(5));
    f.set_nonce_floor(word(10));
    f.set_nonce_floor(word(4));
    assert_eq!(f.cached, Some(word(10)));
    assert_eq!(f.current_nonce(word(5)), word(10));
    assert_eq!(f.current_nonce(word(12)), word(12));
}

#[test]
fn restart_floor_is_one_past_the_largest_pending_nonce() {
    assert_eq!(nonce_floor_of(&Vec::new()), None);
    assert_eq!(nonce_floor_of(&vec![word(3), word(9), word(4)]), Some(word(10)));
    assert_eq!(nonce_floor_of(&vec![[0xffu8; 32]]), Some([0xffu8; 32]));
}

#[test]
fn word_sum_saturates_and_division_rounds_down() {
    assert_eq!(word_saturating_add(word(250), word(10)), word(260));
    assert_eq!(word_saturating_add(word(u128::MAX), word(1)), {
        let mut w = [0u8; 32];
        w[15] = 1;
        w
    });
    assert_eq!(word_saturating_add([0xffu8; 32], word(1)), [0xffu8; 32]);
    assert_eq!(word_div(word(100), 7), word(14));
    assert_eq!(word_div(word(5), u64::MAX), word(0));
    assert_eq!(average_word(&Vec::new()), None);
    assert_eq!(average_word(&vec![word(10), word(21)]), Some(word(15)));
    assert_eq!(
        average_word(&vec![[0xffu8; 32], [0xffu8; 32]]),
        Some(word_div([0xffu8; 32], 2))
    );
}

#[test]
fn average_gas_cost_reads_stored_texts() {
    let texts = vec!["100".to_string(), "300".to_string()];
    assert_eq!(average_actual_gas_cost(&texts), Ok(Some(word(200))));
    assert_eq!(average_actual_gas_cost(&Vec::new()), Ok(None));
    let texts = vec!["100".to_string(), "12.5".to_string()];
    assert_eq!(
        average_actual_gas_cost(&texts),
        Err("parse actual_gas_cost_wei numeric: 12.5".to_string())
    );
}

#[test]
fn sender_floor_ignores_other_senders() {
    let me = Address { bytes: [1u8; 20] };
    let other = Address { bytes: [2u8; 20] };
    let ops = vec![(me, word(4)), (other, word(99)), (me, word(7))];
    assert_eq!(nonce_floor_for_sender(&ops, &me), Some(word(8)));
    assert_eq!(nonce_floor_for_sender(&ops, &Address { bytes: [3u8; 20] }), None);
}

#[test]
fn nonce_floor_sequence_keeps_the_largest() {
    let mut f = NonceFloor::new();
    let w = |v: u8| {
        let mut a = [0u8; 32];
        a[31] = v;
        a
    };
    for v in [5u8, 9, 3, 7] {
        f.set_nonce_floor(w(v));
    }
    assert_eq!(f.current_nonce(w(4)), w(9));
    assert_eq!(f.current_nonce(w(12)), w(12));
}
