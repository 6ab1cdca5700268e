use sigcore::ops::{
    bit_reverse, bit_reverse_table, butterfly_pairs, conv_fft_len, conv_output_len, ilog2_of_pow2,
    next_pow2, pow2_val,
};

#[test]
fn next_pow2_values() {
    assert_eq!(next_pow2(0), 1);
    assert_eq!(next_pow2(1), 1);
    assert_eq!(next_pow2(2), 2);
    assert_eq!(next_pow2(3), 4);
    assert_eq!(next_pow2(5), 8);
    assert_eq!(next_pow2(4096), 4096);
    assert_eq!(next_pow2(4097), 8192);
}

#[test]
fn pow2_val_and_ilog2_invert_each_other() {
    assert_eq!(pow2_val(0), 1);
    assert_eq!(pow2_val(10), 1024);
    assert_eq!(ilog2_of_pow2(1), 0);
    assert_eq!(ilog2_of_pow2(1024), 10);
    for e in 0..20 {
        assert_eq!(ilog2_of_pow2(pow2_val(e)), e);
    }
}

#[test]
fn bit_reverse_values() {
    assert_eq!(bit_reverse(0, 3), 0);
    assert_eq!(bit_reverse(1, 3), 4);
    assert_eq!(bit_reverse(3, 3), 6);
    assert_eq!(bit_reverse(6, 4), 6);
    assert_eq!(bit_reverse(1, 10), 512);
}

#[test]
fn bit_reverse_is_an_involution() {
    for i in 0..256 {
        assert_eq!(bit_reverse(bit_reverse(i, 8), 8), i);
    }
}

#[test]
fn bit_reverse_table_matches_pointwise_reversal() {
    let table = bit_reverse_table(3);
    assert_eq!(table, vec![0, 4, 2, 6, 1, 5, 3, 7]);
    let table = bit_reverse_table(6);
    assert_eq!(table.len(), 64);
    for i in 0..64 {
        assert_eq!(table[i], bit_reverse(i, 6));
    }
}

#[test]
fn butterfly_schedule_layout() {
    assert_eq!(butterfly_pairs(8, 2), vec![(0, 1), (2, 3), (4, 5), (6, 7)]);
    assert_eq!(butterfly_pairs(8, 4), vec![(0, 2), (1, 3), (4, 6), (5, 7)]);
    assert_eq!(butterfly_pairs(8, 8), vec![(0, 4), (1, 5), (2, 6), (3, 7)]);
}

#[test]
fn butterfly_schedule_touches_every_position_once() {
    for len in [2usize, 4, 8, 16] {
        let pairs = butterfly_pairs(16, len);
        assert_eq!(pairs.len(), 8);
        let mut seen = [false; 16];
        for (a, b) in pairs {
            assert!(!seen[a] && !seen[b] && a != b);
            seen[a] = true;
            seen[b] = true;
        }
        assert!(seen.iter().all(|s| *s));
    }
}

#[test]
fn conv_length_formula() {
    assert_eq!(conv_output_len(3, 2), 4);
    assert_eq!(conv_output_len(1, 1), 1);
    assert_eq!(conv_output_len(2, 5), 6);
    assert_eq!(conv_output_len(256, 256), 511);
}

#[test]
fn conv_length_empty_inputs_give_empty_output() {
    assert_eq!(conv_output_len(0, 5), 0);
    assert_eq!(conv_output_len(5, 0), 0);
    assert_eq!(conv_output_len(0, 0), 0);
}

#[test]
fn conv_fft_len_is_least_power_of_two_holding_the_output() {
    assert_eq!(conv_fft_len(100, 57), 256);
    assert_eq!(conv_fft_len(1, 1), 1);
    assert_eq!(conv_fft_len(3, 2), 4);
    assert_eq!(conv_fft_len(0, 9), 1);
}
