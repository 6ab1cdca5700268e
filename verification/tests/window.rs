use sigcore::window::{adsr_phase_at, fade_in_num, fade_out_num, gate_off_index, AdsrPhase};

#[test]
fn fade_in_boundary_convention() {
    assert_eq!(fade_in_num(0, 0, 10), 0);
    assert_eq!(fade_in_num(5, 0, 10), 5);
    assert_eq!(fade_in_num(10, 0, 10), 10);
    assert_eq!(fade_in_num(25, 0, 10), 10);
}

#[test]
fn fade_in_is_monotone() {
    let mut prev = 0;
    for i in 0..40 {
        let w = fade_in_num(i, 7, 10);
        assert!(w >= prev);
        prev = w;
    }
}

#[test]
fn fade_out_mirrors_fade_in() {
    assert_eq!(fade_out_num(0, 0, 10), 10);
    assert_eq!(fade_out_num(4, 0, 10), 6);
    assert_eq!(fade_out_num(10, 0, 10), 0);
    assert_eq!(fade_out_num(30, 0, 10), 0);
    for i in 0..40 {
        assert_eq!(fade_in_num(i, 3, 12) + fade_out_num(i, 3, 12), 12);
    }
}

#[test]
fn gate_off_finds_first_transition() {
    assert_eq!(gate_off_index(&vec![true, true, false, false]), Some(2));
    assert_eq!(gate_off_index(&vec![true, false, true, false]), Some(1));
    assert_eq!(gate_off_index(&vec![false, true, false]), Some(2));
    assert_eq!(gate_off_index(&vec![false, false]), None);
    assert_eq!(gate_off_index(&vec![true, true]), None);
    assert_eq!(gate_off_index(&vec![]), None);
    assert_eq!(gate_off_index(&vec![true]), None);
}

#[test]
fn adsr_phases_without_gate_off() {
    assert_eq!(adsr_phase_at(0, 4, 4, 2, None), (AdsrPhase::Attack, 0));
    assert_eq!(adsr_phase_at(3, 4, 4, 2, None), (AdsrPhase::Attack, 3));
    assert_eq!(adsr_phase_at(4, 4, 4, 2, None), (AdsrPhase::Decay, 0));
    assert_eq!(adsr_phase_at(7, 4, 4, 2, None), (AdsrPhase::Decay, 3));
    assert_eq!(adsr_phase_at(8, 4, 4, 2, None), (AdsrPhase::Sustain, 0));
    assert_eq!(adsr_phase_at(1000, 4, 4, 2, None), (AdsrPhase::Sustain, 0));
}

#[test]
fn adsr_release_starts_at_gate_off() {
    assert_eq!(adsr_phase_at(9, 4, 4, 2, Some(10)), (AdsrPhase::Sustain, 0));
    assert_eq!(adsr_phase_at(10, 4, 4, 2, Some(10)), (AdsrPhase::Release, 0));
    assert_eq!(adsr_phase_at(11, 4, 4, 2, Some(10)), (AdsrPhase::Release, 1));
    assert_eq!(adsr_phase_at(12, 4, 4, 2, Some(10)), (AdsrPhase::Done, 0));
}

#[test]
fn adsr_release_overrides_earlier_phases() {
    assert_eq!(adsr_phase_at(2, 4, 4, 3, Some(2)), (AdsrPhase::Release, 0));
    assert_eq!(adsr_phase_at(4, 4, 4, 3, Some(2)), (AdsrPhase::Release, 2));
    assert_eq!(adsr_phase_at(5, 4, 4, 3, Some(2)), (AdsrPhase::Done, 0));
    assert_eq!(adsr_phase_at(1, 4, 4, 3, Some(2)), (AdsrPhase::Attack, 1));
}
