use pmcore::features::{Sample, FEATURE_LEN, N_AXES, WINDOW_LEN};
use pmcore::model::ModelConfig;
use pmcore::state::{Arena, EngineError, RunState, RunStateError};

fn cfg() -> ModelConfig {
    ModelConfig {
        c1: 16,
        k1: 7,
        s1: 2,
        c2: 32,
        k2: 5,
        s2: 2,
    }
}

#[test]
fn carves_all_buffers_and_consumes_exactly_the_budget() {
    let c = cfg();
    let total = c.buf_len();
    let mut buf = vec![0.0f32; total];
    let mut arena = Arena::new(&mut buf);
    let s = RunState::new(&mut arena, &c).unwrap();

    assert_eq!(s.x.len(), N_AXES * WINDOW_LEN);
    assert_eq!(s.x_c1.len(), c.c1 * c.l1());
    assert_eq!(s.x_c2.len(), c.c2 * c.l2());
    assert_eq!(s.fc_in.len(), c.c2 + FEATURE_LEN);
    assert_eq!(arena.remaining(), 0);
}

#[test]
fn carves_an_int8_state_from_the_same_budget() {
    let c = cfg();
    let mut buf = vec![0i8; c.buf_len()];
    let mut arena = Arena::new(&mut buf);
    let s: RunState<i8> = RunState::new(&mut arena, &c).unwrap();
    assert_eq!(s.x.len(), N_AXES * WINDOW_LEN);
    assert_eq!(s.fc_in.len(), c.c2 + FEATURE_LEN);
    assert_eq!(arena.remaining(), 0);
}

#[test]
fn too_small_arena_overflows() {
    let c = cfg();
    let mut buf = vec![0.0f32; c.buf_len() - 1];
    let mut arena = Arena::new(&mut buf);
    assert!(matches!(
        RunState::new(&mut arena, &c),
        Err(EngineError::ArenaOverflow { .. })
    ));
}

#[test]
fn x_from_window_de_interleaves_by_axis() {
    let c = cfg();
    let mut buf = vec![0.0f32; c.buf_len()];
    let mut arena = Arena::new(&mut buf);
    let mut s = RunState::new(&mut arena, &c).unwrap();

    let window: [Sample; WINDOW_LEN] = core::array::from_fn(|t| [t as i16, -(t as i16), 100]);
    s.x_from_window(&window, &|v| v as f32);
    assert_eq!(s.x[0], 0.0);
    assert_eq!(s.x[5], 5.0);
    assert_eq!(s.x[WINDOW_LEN + 5], -5.0);
    assert_eq!(s.x[2 * WINDOW_LEN + 5], 100.0);
}

#[test]
fn channels_are_the_axes() {
    let c = cfg();
    let mut buf = vec![0i32; c.buf_len()];
    let mut arena = Arena::new(&mut buf);
    let mut s = RunState::new(&mut arena, &c).unwrap();
    let window: [Sample; WINDOW_LEN] = core::array::from_fn(|t| [t as i16, -(t as i16), 100]);
    s.x_from_window(&window, &|v| v as i32);
    assert_eq!(s.get_channel(0).unwrap()[511], 511);
    assert_eq!(s.get_channel(1).unwrap()[2], -2);
    assert_eq!(s.get_channel(2).unwrap(), &[100; WINDOW_LEN]);
    assert!(matches!(s.get_channel(3), Err(RunStateError::BadChannel)));
}

#[test]
fn the_error_names_the_buffer_that_does_not_fit() {
    let c = cfg();
    let mut buf = vec![0u8; 100];
    let mut arena = Arena::new(&mut buf);
    let Err(e) = RunState::new(&mut arena, &c) else {
        panic!("expected an overflow");
    };
    assert!(matches!(
        e,
        EngineError::ArenaOverflow {
            requested: 1536,
            available: 100
        }
    ));
    assert_eq!(arena.remaining(), 100);

    let mut buf = vec![0u8; c.buf_len() - 1];
    let mut arena = Arena::new(&mut buf);
    let Err(e) = RunState::new(&mut arena, &c) else {
        panic!("expected an overflow");
    };
    assert!(matches!(
        e,
        EngineError::ArenaOverflow {
            requested: 56,
            available: 55
        }
    ));
    assert_eq!(arena.remaining(), 55);
}

#[test]
fn carved_pieces_are_consecutive() {
    let mut buf = [1u8, 2, 3, 4, 5];
    let mut arena = Arena::new(&mut buf);
    assert_eq!(arena.remaining(), 5);
    assert_eq!(arena.carve(2).unwrap(), &[1, 2]);
    assert_eq!(arena.carve(0).unwrap().len(), 0);
    assert!(arena.carve(4).is_err());
    assert_eq!(arena.carve(3).unwrap(), &[3, 4, 5]);
    assert_eq!(arena.remaining(), 0);
}

#[test]
fn arena_floats_matches_hand_count() {
    let c = cfg();
    assert_eq!(c.l1(), 253);
    assert_eq!(c.l2(), 125);
    assert_eq!(c.buf_len(), 3 * 512 + 16 * 253 + 32 * 125 + (32 + 24));
    assert_eq!(c.checked_buf_len(), Some(c.buf_len()));
}

#[test]
fn a_full_block_is_reported_before_unusable_dimensions() {
    // A kernel longer than the window, and a stride of zero: no size but the first is needed.
    let c = ModelConfig {
        c1: usize::MAX,
        k1: 600,
        s1: 0,
        c2: usize::MAX,
        k2: 1,
        s2: 0,
    };
    let mut buf = vec![0u8; 1535];
    let mut arena = Arena::new(&mut buf);
    assert!(matches!(
        RunState::new(&mut arena, &c),
        Err(EngineError::ArenaOverflow {
            requested: 1536,
            available: 1535
        })
    ));
}

#[test]
fn features_go_behind_the_pooled_values() {
    let c = cfg();
    let mut buf = vec![-1i64; c.buf_len()];
    let mut arena = Arena::new(&mut buf);
    let mut s = RunState::new(&mut arena, &c).unwrap();
    let features: [u32; FEATURE_LEN] = core::array::from_fn(|i| i as u32);
    s.append_features(c.c2, &features, &|v| 10 * v as i64);
    assert_eq!(s.fc_in[c.c2 - 1], -1);
    assert_eq!(s.fc_in[c.c2], 0);
    assert_eq!(s.fc_in[c.c2 + 23], 230);
}
