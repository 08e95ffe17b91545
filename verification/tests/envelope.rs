use samplo::dsp::{Adsr, AdsrState, FilterMode};
use samplo::params::FilterModeParam;

#[test]
fn envelope_starts_idle() {
    let env = Adsr::new();
    assert!(env.is_idle());
    assert_eq!(env.state, AdsrState::Idle);
}

#[test]
fn envelope_walks_the_state_diagram() {
    let mut env = Adsr::new();
    assert_eq!(env.next(true), AdsrState::Idle);
    env.note_on();
    assert_eq!(env.state, AdsrState::Attack);
    assert_eq!(env.next(false), AdsrState::Attack);
    assert_eq!(env.next(true), AdsrState::Decay);
    assert_eq!(env.next(false), AdsrState::Decay);
    assert_eq!(env.next(true), AdsrState::Sustain);
    assert_eq!(env.next(true), AdsrState::Sustain);
    assert_eq!(env.next(false), AdsrState::Sustain);
    env.note_off();
    assert_eq!(env.state, AdsrState::Release);
    assert_eq!(env.next(false), AdsrState::Release);
    assert!(!env.is_idle());
    assert_eq!(env.next(true), AdsrState::Idle);
    assert!(env.is_idle());
}

#[test]
fn note_off_jumps_to_release_from_attack_and_decay() {
    let mut env = Adsr::new();
    env.note_on();
    env.note_off();
    assert_eq!(env.state, AdsrState::Release);
    env.note_on();
    env.next(true);
    assert_eq!(env.state, AdsrState::Decay);
    env.note_off();
    assert_eq!(env.state, AdsrState::Release);
}

#[test]
fn note_off_leaves_an_idle_envelope_idle() {
    let mut env = Adsr::new();
    env.note_off();
    assert_eq!(env.state, AdsrState::Idle);
}

#[test]
fn note_on_retriggers_from_any_stage() {
    for stage in [
        AdsrState::Idle,
        AdsrState::Attack,
        AdsrState::Decay,
        AdsrState::Sustain,
        AdsrState::Release,
    ] {
        let mut env = Adsr { state: stage };
        env.note_on();
        assert_eq!(env.state, AdsrState::Attack);
        env.reset();
        assert_eq!(env.state, AdsrState::Idle);
    }
}

#[test]
fn filter_choice_maps_to_its_tap() {
    assert_eq!(FilterModeParam::Off.to_dsp(), FilterMode::Off);
    assert_eq!(FilterModeParam::LowPass.to_dsp(), FilterMode::LP);
    assert_eq!(FilterModeParam::HighPass.to_dsp(), FilterMode::HP);
    assert_eq!(FilterModeParam::BandPass.to_dsp(), FilterMode::BP);
}
