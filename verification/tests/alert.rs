use pmcore::alert::{
    top_class, AlertMachine, State, ALERT_CONFIDENCE, HALF, NORMAL_WINDOWS_TO_CLEAR,
};
use pmcore::model::{Class, N_CLASSES};

/// Probabilities with `conf` on class `idx` and the rest split evenly: a valid softmax
/// distribution whose argmax is `idx`.
fn probs(idx: usize, conf: f32) -> [u32; N_CLASSES] {
    let mut p = [((1.0 - conf) / (N_CLASSES as f32 - 1.0)).to_bits(); N_CLASSES];
    p[idx] = conf.to_bits();
    p
}

#[test]
fn alert_latches_the_triggering_class() {
    let s = State::Alert {
        class: Class::OuterRace,
    };
    assert_ne!(s, State::Normal);
    let State::Alert { class } = s else {
        panic!("expected Alert");
    };
    assert_eq!(class.name(), "outer_race");
    assert!(class.is_fault());
}

#[test]
fn top_class_is_argmax_with_its_probability() {
    let (c, conf) = top_class(&probs(2, 0.7));
    assert_eq!(c, Class::OuterRace);
    assert!((f32::from_bits(conf) - 0.7).abs() < 1e-6);
}

#[test]
fn stays_normal_below_threshold() {
    let mut m = AlertMachine::new();
    assert_eq!(m.update(&probs(1, 0.70)), State::Normal);
    assert_eq!(m.update(&probs(1, 0.80)), State::Normal);
}

#[test]
fn raises_alert_when_a_fault_exceeds_threshold() {
    let mut m = AlertMachine::new();
    assert_eq!(
        m.update(&probs(1, 0.90)),
        State::Alert {
            class: Class::InnerRace
        }
    );
}

#[test]
fn a_confident_normal_window_never_alerts() {
    let mut m = AlertMachine::new();
    assert_eq!(m.update(&probs(0, 0.99)), State::Normal);
}

#[test]
fn clears_only_after_three_consecutive_normal_windows() {
    let mut m = AlertMachine::new();
    m.update(&probs(2, 0.95));
    assert!(matches!(m.state(), State::Alert { .. }));

    assert!(matches!(m.update(&probs(0, 0.6)), State::Alert { .. }));
    assert!(matches!(m.update(&probs(0, 0.6)), State::Alert { .. }));
    assert_eq!(m.update(&probs(0, 0.6)), State::Normal);
}

#[test]
fn one_fault_window_resets_the_clear_streak() {
    let mut m = AlertMachine::new();
    m.update(&probs(2, 0.95));
    m.update(&probs(0, 0.6));
    m.update(&probs(0, 0.6));
    m.update(&probs(2, 0.5));
    assert!(matches!(m.state(), State::Alert { .. }));
    m.update(&probs(0, 0.6));
    m.update(&probs(0, 0.6));
    assert!(matches!(m.state(), State::Alert { .. }));
    assert_eq!(m.update(&probs(0, 0.6)), State::Normal);
}

#[test]
fn re_latches_onto_a_newly_dominant_fault() {
    let mut m = AlertMachine::new();
    assert_eq!(
        m.update(&probs(1, 0.90)),
        State::Alert {
            class: Class::InnerRace
        }
    );
    assert_eq!(
        m.update(&probs(3, 0.85)),
        State::Alert {
            class: Class::RollingElement
        }
    );
}

#[test]
fn default_threshold_is_four_fifths() {
    assert_eq!(ALERT_CONFIDENCE, 0.80f32.to_bits());
    assert_eq!(NORMAL_WINDOWS_TO_CLEAR, 3);
    let mut m = AlertMachine::default();
    assert_eq!(m.state(), State::Normal);
    let just_above = ALERT_CONFIDENCE + 1;
    let mut p = probs(3, 0.0);
    p[3] = just_above;
    assert_eq!(
        m.update(&p),
        State::Alert {
            class: Class::RollingElement
        }
    );
}

#[test]
fn a_custom_threshold_is_used() {
    let mut m = AlertMachine::with_confidence(0.5f32.to_bits());
    assert_eq!(m.update(&probs(2, 0.5)), State::Normal);
    assert_eq!(
        m.update(&probs(2, 0.51)),
        State::Alert {
            class: Class::OuterRace
        }
    );
}

#[test]
fn a_weak_fault_sustains_the_latched_class() {
    let mut m = AlertMachine::new();
    m.update(&probs(1, 0.9));
    // Another class dominates, but stays under the threshold: the latched class is kept.
    assert_eq!(
        m.update(&probs(2, 0.7)),
        State::Alert {
            class: Class::InnerRace
        }
    );
}

#[test]
fn ties_go_to_the_lower_index() {
    let p = [0.1f32, 0.4, 0.4, 0.1].map(f32::to_bits);
    assert_eq!(top_class(&p), (Class::InnerRace, 0.4f32.to_bits()));
    let flat = [0.25f32; N_CLASSES].map(f32::to_bits);
    assert_eq!(top_class(&flat).0, Class::Normal);
}

#[test]
fn a_nan_never_raises_an_alert() {
    let mut m = AlertMachine::new();
    let p = [f32::NAN, 0.99, 0.99, 0.99].map(f32::to_bits);
    assert_eq!(m.update(&p), State::Normal);
    let q = [0.1f32, f32::NAN, 0.1, 0.1].map(f32::to_bits);
    assert_eq!(m.update(&q), State::Normal);
}

#[test]
fn the_fault_that_crosses_is_the_dominant_one() {
    for (p, raised) in [
        ([0.1f32, 0.85, 0.03, 0.02], true),
        ([0.85, 0.1, 0.03, 0.02], false),
        ([0.0, 0.1, 0.1, 0.8], false),
        ([0.0, 0.05, 0.05, 0.9], true),
    ] {
        let any = p[1..].iter().any(|&v| v > 0.8);
        let mut m = AlertMachine::new();
        let alerting = m.update(&p.map(f32::to_bits)) != State::Normal;
        assert_eq!((alerting, any), (raised, raised));
    }
    // Under a threshold below one half a fault may cross it and still not be the most likely.
    let mut m = AlertMachine::with_confidence(0.3f32.to_bits());
    assert_eq!(
        m.update(&[0.5f32, 0.4, 0.05, 0.05].map(f32::to_bits)),
        State::Normal
    );
    assert_eq!(HALF, 0.5f32.to_bits());
}
