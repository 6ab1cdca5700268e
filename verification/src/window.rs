//! Envelope and fade decisions of the windowing layer: the clamped ramp
//! numerators of the linear fades, the switch-off rule of the
//! attack/decay/sustain/release envelope, and the phase each sample
//! index falls in.
//!
//! The sample-wise multiplications run on single-precision values in the
//! unverified shell; the index and phase rules they apply are proved
//! here. A ramp weight is reported as an integer numerator over the
//! ramp's own length, so the shell only divides.

use vstd::prelude::*;

verus! {

/// Numerator of the fade-in weight at index `i` for a ramp that starts
/// at `t` and rises over `d` samples: the weight applied to the sample
/// is this numerator divided by `d`. It is 0 up to and including `t`,
/// climbs one per sample across the ramp, and stays at `d` from `t + d`
/// on, so the first faded sample is silent and the sample at `t + d`
/// carries full weight.
pub open spec fn fade_in_num_spec(i: int, t: int, d: int) -> int {
    if i <= t {
        0
    } else if i - t >= d {
        d
    } else {
        i - t
    }
}

/// The fade-in ramp numerator at index `i`.
pub fn fade_in_num(i: usize, t: usize, d: usize) -> (r: usize)
    ensures
        r == fade_in_num_spec(i as int, t as int, d as int),
        r <= d,
{
    if i <= t {
        0
    } else if i - t >= d {
        d
    } else {
        i - t
    }
}

/// The fade-out ramp numerator at index `i`: the mirror of the fade-in
/// ramp, `d` before the ramp starts and 0 from `t + d` on.
pub fn fade_out_num(i: usize, t: usize, d: usize) -> (r: usize)
    ensures
        r == d - fade_in_num_spec(i as int, t as int, d as int),
        r <= d,
{
    d - fade_in_num(i, t, d)
}

/// Fade boundary law: along a buffer the fade-in weight never decreases,
/// the sample at the ramp start carries weight 0, and the sample one
/// ramp length later carries the full weight.
pub proof fn lemma_fade_in_boundary(i1: int, i2: int, t: int, d: int)
    requires
        0 <= d,
        i1 <= i2,
    ensures
        fade_in_num_spec(i1, t, d) <= fade_in_num_spec(i2, t, d),
        fade_in_num_spec(t, t, d) == 0,
        fade_in_num_spec(t + d, t, d) == d,
{
}

/// Whether index `j` of the control sequence is the moment the control
/// switches off:
/// the control is active at `j - 1` and inactive at `j`.
pub open spec fn is_gate_off(active: Seq<bool>, j: int) -> bool {
    1 <= j < active.len() && active[j - 1] && !active[j]
}

/// The index at which a control signal gates off: the first transition
/// from active to inactive, if there is one. A control that never gates
/// off (including an empty or everywhere-inactive one) yields `None`,
/// and the release phase then never triggers.
pub fn gate_off_index(active: &Vec<bool>) -> (r: Option<usize>)
    ensures
        match r {
            Some(g) => is_gate_off(active@, g as int) && forall|j: int|
                1 <= j < g ==> !#[trigger] is_gate_off(active@, j),
            None => forall|j: int| !#[trigger] is_gate_off(active@, j),
        },
{
    let n = active.len();
    let mut j: usize = 1;
    if n == 0 {
        return None;
    }
    while j < n
        invariant
            1 <= j,
            n == active@.len(),
            forall|k: int| 1 <= k < j ==> !#[trigger] is_gate_off(active@, k),
        decreases n - j,
    {
        if active[j - 1] && !active[j] {
            return Some(j);
        }
        j = j + 1;
    }
    None
}

/// The phase of the attack/decay/sustain/release envelope that a sample
/// falls in.
#[derive(Clone, Copy, PartialEq, Eq, Debug)]
pub enum AdsrPhase {
    /// Ramp 0 to 1 over the attack length.
    Attack,
    /// Ramp 1 to the sustain level over the decay length.
    Decay,
    /// Hold the sustain level while the control is on.
    Sustain,
    /// Ramp the sustain level to 0 over the release length once the
    /// control went off.
    Release,
    /// After the release has run out: silence.
    Done,
}

/// The envelope phase before any switch-off is seen: attack for the first
/// `a` samples, decay for the next `d`, sustain from then on.
pub open spec fn adsr_held_phase_spec(i: int, a: int, d: int) -> (AdsrPhase, int) {
    if i < a {
        (AdsrPhase::Attack, i)
    } else if i < a + d {
        (AdsrPhase::Decay, i - a)
    } else {
        (AdsrPhase::Sustain, 0)
    }
}

/// The envelope phase at index `i` with attack, decay and release
/// lengths `a`, `d`, `r`, when the control switches off at `g` (if
/// ever),
/// paired with the number of samples already spent in that phase. From
/// the switch-off index on, the release overrides whatever phase was
/// running; it lasts `r` samples and silence follows.
pub open spec fn adsr_phase_spec(i: int, a: int, d: int, r: int, gate_off: Option<int>) -> (
    AdsrPhase,
    int,
) {
    match gate_off {
        Some(g) => if i >= g {
            if i - g < r {
                (AdsrPhase::Release, i - g)
            } else {
                (AdsrPhase::Done, 0)
            }
        } else {
            adsr_held_phase_spec(i, a, d)
        },
        None => adsr_held_phase_spec(i, a, d),
    }
}

/// The switch-off index widened to a mathematical integer.
pub open spec fn opt_int(o: Option<usize>) -> Option<int> {
    match o {
        Some(g) => Some(g as int),
        None => None,
    }
}

/// The envelope phase at sample `i` and the progress inside it: the
/// envelope weight is the progress over the phase's own length (attack
/// `a`, decay `d`, release `r`), which the shell turns into the ramps
/// 0 to 1, 1 to the sustain level, and sustain level to 0.
pub fn adsr_phase_at(i: usize, a: usize, d: usize, r: usize, gate_off: Option<usize>) -> (res: (
    AdsrPhase,
    usize,
))
    requires
        a + d <= usize::MAX,
    ensures
        (res.0, res.1 as int) == adsr_phase_spec(
            i as int,
            a as int,
            d as int,
            r as int,
            opt_int(gate_off),
        ),
{
    match gate_off {
        Some(g) if i >= g => {
            if i - g < r {
                (AdsrPhase::Release, i - g)
            } else {
                (AdsrPhase::Done, 0)
            }
        },
        _ => {
            if i < a {
                (AdsrPhase::Attack, i)
            } else if i < a + d {
                (AdsrPhase::Decay, i - a)
            } else {
                (AdsrPhase::Sustain, 0)
            }
        },
    }
}

/// Ramp progress stays under the ramp length: in the attack, decay and
/// release phases the reported progress is a proper fraction of the
/// phase's own length, so the shell's division never reaches 1 inside a
/// ramp.
pub proof fn lemma_adsr_progress_bounded(i: int, a: int, d: int, r: int, gate_off: Option<int>)
    requires
        0 <= i,
    ensures
        adsr_phase_spec(i, a, d, r, gate_off).0 == AdsrPhase::Attack ==> 0 <= adsr_phase_spec(
            i,
            a,
            d,
            r,
            gate_off,
        ).1 < a,
        adsr_phase_spec(i, a, d, r, gate_off).0 == AdsrPhase::Decay ==> 0 <= adsr_phase_spec(
            i,
            a,
            d,
            r,
            gate_off,
        ).1 < d,
        adsr_phase_spec(i, a, d, r, gate_off).0 == AdsrPhase::Release ==> (match gate_off {
            Some(g) => g
            <= i,
            None => false,
        }) && 0 <= adsr_phase_spec(i, a, d, r, gate_off).1 < r,
{
}

} // verus!
