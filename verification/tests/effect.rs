use sigcore::effect::{
    check_control_len, check_delay_params, delay_src_index, spectral_bin_kind, BinKind, DspError,
};

#[test]
fn delay_params_reject_degenerate_inputs() {
    assert_eq!(check_delay_params(0, 5), Err(DspError::InvalidParameter));
    assert_eq!(check_delay_params(5, 0), Err(DspError::InvalidParameter));
    assert_eq!(check_delay_params(0, 0), Err(DspError::InvalidParameter));
    assert_eq!(check_delay_params(5, 3), Ok(()));
    assert_eq!(check_delay_params(1, 1), Ok(()));
}

#[test]
fn control_length_must_match_carrier() {
    assert_eq!(check_control_len(4, 4), Ok(()));
    assert_eq!(check_control_len(0, 0), Ok(()));
    assert_eq!(check_control_len(4, 3), Err(DspError::LengthMismatch));
    assert_eq!(check_control_len(3, 4), Err(DspError::LengthMismatch));
}

#[test]
fn error_messages_are_descriptive() {
    assert_eq!(DspError::InvalidParameter.message(), "invalid parameter");
    assert_eq!(DspError::LengthMismatch.message(), "length mismatch");
}

#[test]
fn spectrum_bins_classified_for_phase_rotation() {
    assert_eq!(spectral_bin_kind(0, 8), BinKind::Zero);
    assert_eq!(spectral_bin_kind(1, 8), BinKind::Positive);
    assert_eq!(spectral_bin_kind(3, 8), BinKind::Positive);
    assert_eq!(spectral_bin_kind(4, 8), BinKind::Nyquist);
    assert_eq!(spectral_bin_kind(5, 8), BinKind::Negative);
    assert_eq!(spectral_bin_kind(7, 8), BinKind::Negative);
    assert_eq!(spectral_bin_kind(0, 1), BinKind::Zero);
    assert_eq!(spectral_bin_kind(3, 7), BinKind::Positive);
    assert_eq!(spectral_bin_kind(4, 7), BinKind::Negative);
}

#[test]
fn delayed_copy_reads_behind_itself() {
    assert_eq!(delay_src_index(5, 2), Some(3));
    assert_eq!(delay_src_index(2, 2), Some(0));
    assert_eq!(delay_src_index(1, 2), None);
    assert_eq!(delay_src_index(0, 1), None);
}
