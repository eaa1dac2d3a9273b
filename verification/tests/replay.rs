use std::cell::RefCell;

use pmcore::alert::{AlertMachine, State};
use pmcore::features::{Numerics, Sample, FEATURE_LEN, WINDOW_LEN};
use pmcore::forward::{ConvShape, Kernels};
use pmcore::model::{Class, ModelConfig, Weights, N_CLASSES};
use pmcore::pipeline::Outcome;
use pmcore::replay::{
    fmt_state, parse_stream, parse_window, replay, RecordingError, ReplayLog, RowError,
};
use pmcore::state::{Arena, RunState};
use pmcore::text::{
    characters, find, is_whitespace, parse_number, render, render_signed, trim, NumberError,
};

fn number(s: &str) -> Result<i16, String> {
    parse_number(&characters(s)).map_err(|e| e.message().to_string())
}

#[test]
fn numbers_read_as_the_standard_parser_reads_them() {
    let cases = [
        "", "0", "7", "-7", "+7", "+", "-", "--1", "+-1", "007", "32767", "32768", "-32768",
        "-32769", "99999", "-99999", "9999x", "99999x", "3276x", "x", "1 2", " 1", "1_0", "0x10",
        "١", "1é", "-x", "-0", "+0", "000000000000001", "-000032768", "327680", "1e3", "1.0",
    ];
    for s in cases {
        let std = s.parse::<i16>().map_err(|e| e.to_string());
        assert_eq!(number(s), std, "{s:?}");
    }
    for v in i16::MIN..=i16::MAX {
        assert_eq!(number(&v.to_string()), Ok(v));
    }
}

#[test]
fn white_space_is_that_of_unicode() {
    for u in 0..0x11_0000u32 {
        if let Some(c) = char::from_u32(u) {
            assert_eq!(is_whitespace(c), c.is_whitespace(), "{u:x}");
        }
    }
}

#[test]
fn trimming_and_finding() {
    for s in ["", " ", "a", "  a b\t\n", "\u{3000}x\u{a0}", "\r\n", "no"] {
        let chars = characters(s);
        let trimmed: String = trim(&chars).iter().collect();
        assert_eq!(trimmed, s.trim());
    }
    assert_eq!(find(&characters("ab,c,"), ','), 2);
    assert_eq!(find(&characters("abc"), ','), 3);
}

#[test]
fn numbers_are_rendered_in_decimal() {
    for n in [0, 9, 10, 99, 100, 512, 4_294_967_296, u64::MAX] {
        assert_eq!(render(n), n.to_string());
    }
    for v in [0, 5, -1, -10, i32::MIN, i32::MAX] {
        assert_eq!(render_signed(v), v.to_string());
    }
}

#[test]
fn streams_read_rows_and_skip_blank_lines() {
    let text = "1,2,3\n\n  -4 , +5,6,ignored\r\n \t\n7,8,9";
    assert_eq!(
        parse_stream(text),
        Ok(vec![[1, 2, 3], [-4, 5, 6], [7, 8, 9]])
    );
    assert_eq!(parse_stream(""), Ok(vec![]));
    assert_eq!(parse_stream("\n\n"), Ok(vec![]));
}

fn refused(text: &str) -> String {
    parse_stream(text).unwrap_err().message()
}

#[test]
fn rows_are_refused_with_their_line() {
    assert_eq!(refused("1,2,3\n\n4,5\n"), "line 3: expected 3 columns");
    assert_eq!(refused("1"), "line 1: expected 3 columns");
    assert_eq!(
        refused("1,2,3\n1,,3"),
        "line 2: cannot parse integer from empty string"
    );
    assert_eq!(
        refused("1,2,3\n\n\n1,x,3"),
        "line 4: invalid digit found in string"
    );
    assert_eq!(
        refused("32768,0,0"),
        "line 1: number too large to fit in target type"
    );
    assert_eq!(
        refused("0,-32769,0"),
        "line 1: number too small to fit in target type"
    );
    // The first thing wrong on a line is the one reported.
    assert_eq!(
        parse_stream("x,1"),
        Err(RecordingError::BadRow {
            line: 1,
            error: RowError::BadNumber(NumberError::InvalidDigit)
        })
    );
}

fn recording(stream: &[Sample]) -> String {
    stream
        .iter()
        .map(|s| format!("{},{},{}\n", s[0], s[1], s[2]))
        .collect()
}

fn counting(n: usize) -> Vec<Sample> {
    (0..n).map(|i| [i as i16, -(i as i16), 32767]).collect()
}

#[test]
fn written_recordings_read_back() {
    let stream = counting(1300);
    assert_eq!(parse_stream(&recording(&stream)), Ok(stream));
    let window = counting(WINDOW_LEN);
    assert_eq!(
        parse_window(&recording(&window)).unwrap().to_vec(),
        window
    );
}

#[test]
fn windows_hold_exactly_their_rows() {
    let short = recording(&counting(511));
    let e = parse_window(&short).unwrap_err();
    assert_eq!(e, RecordingError::TooFewRows { rows: 511 });
    assert_eq!(e.message(), "expected 512 sample rows, got 511");

    let long = recording(&counting(513));
    let e = parse_window(&long).unwrap_err();
    assert_eq!(e, RecordingError::TooManyRows);
    assert_eq!(e.message(), "more than 512 sample rows");

    // A row too many is refused before it is read; blank lines after the last are fine.
    let mut text = recording(&counting(512));
    text.push_str("garbage\n");
    assert_eq!(parse_window(&text), Err(RecordingError::TooManyRows));
    let mut text = recording(&counting(512));
    text.push_str("\n  \n");
    assert!(parse_window(&text).is_ok());

    assert_eq!(
        parse_window("1,2"),
        Err(RecordingError::BadRow {
            line: 1,
            error: RowError::MissingColumn
        })
    );
}

#[test]
fn states_are_rendered_for_the_log() {
    assert_eq!(fmt_state(State::Normal), "NORMAL");
    let alert = State::Alert {
        class: Class::RollingElement,
    };
    assert_eq!(fmt_state(alert), "ALERT:rolling_element");
}

#[test]
fn the_log_counts_every_change_into_an_alert() {
    let inner = State::Alert {
        class: Class::InnerRace,
    };
    let outer = State::Alert {
        class: Class::OuterRace,
    };
    let mut log = ReplayLog::new();
    assert_eq!((log.windows(), log.alerts()), (0, 0));
    assert_eq!(log.record(State::Normal), None);
    assert_eq!(log.record(inner), Some(State::Normal));
    assert_eq!(log.record(inner), None);
    assert_eq!(log.record(outer), Some(inner));
    assert_eq!(log.record(State::Normal), Some(outer));
    assert_eq!(log.record(inner), Some(State::Normal));
    assert_eq!((log.windows(), log.alerts()), (6, 3));
    assert_eq!(log.state(), inner);
}

fn root(sum: i64, n: usize) -> u32 {
    libm::sqrtf(sum as f32 / n as f32).to_bits()
}

fn ratio(_: u16, _: u32) -> u32 {
    0
}

fn moments(_: &[i16]) -> u32 {
    0
}

fn spectrum(_: &[i16; WINDOW_LEN]) -> [u32; 256] {
    [0; 256]
}

fn compress(_: &[u32]) -> u32 {
    0
}

fn keep<'b>(out: &'b mut [f32], _: &[f32], _: &[u32], _: &[u32], _: ConvShape) -> &'b mut [f32] {
    out
}

fn same(out: &mut [f32]) -> &mut [f32] {
    out
}

fn unpooled<'b>(out: &'b mut [f32], _: &[f32], _: usize, _: usize) -> &'b mut [f32] {
    out
}

/// Probabilities that put 0.9 on the class named by the first feature.
fn pick(x: &[f32], _: &[u32], cols: usize, _: usize) -> [u32; N_CLASSES] {
    let mut p = [0.1f32 / 3.0; N_CLASSES];
    p[x[cols - FEATURE_LEN] as usize] = 0.9;
    p.map(f32::to_bits)
}

fn unbiased(v: [u32; N_CLASSES], _: &[u32]) -> [u32; N_CLASSES] {
    v
}

fn unscaled(v: [u32; N_CLASSES]) -> [u32; N_CLASSES] {
    v
}

const CFG: ModelConfig = ModelConfig {
    c1: 1,
    k1: 3,
    s1: 2,
    c2: 1,
    k2: 3,
    s2: 2,
};

#[test]
fn a_replay_drives_the_whole_pipeline() {
    let classes = [0i16, 2, 0, 0, 0, 1];
    let mut stream: Vec<Sample> = Vec::new();
    for c in classes {
        stream.extend(vec![[c, 0, 0]; WINDOW_LEN]);
    }
    stream.extend(vec![[3, 3, 3]; 40]);

    let mut alert = AlertMachine::new();
    let numerics = Numerics {
        root,
        ratio,
        moments,
        spectrum,
        compress,
    };
    let kernels = Kernels {
        reading: |v: i16| v as f32,
        conv1d: keep,
        relu: same,
        pool: unpooled,
        feature: f32::from_bits,
        matmul: pick,
        add_bias: unbiased,
        softmax: unscaled,
    };
    let floats = vec![0u32; CFG.weight_floats()];
    let weights = Weights::new(&floats, &CFG).unwrap();
    let mut buf = vec![0.0f32; CFG.buf_len()];
    let mut arena = Arena::new(&mut buf);
    let mut state = RunState::new(&mut arena, &CFG).unwrap();
    let seen = RefCell::new(Vec::new());
    let run = replay(
        &CFG,
        &weights,
        &stream,
        &mut state,
        &mut alert,
        &numerics,
        &kernels,
        &|n: usize, out: &Outcome, from: Option<State>| {
            seen.borrow_mut().push((n, out.state, from))
        },
    );
    assert_eq!(run.leftover, 40);
    let outer = State::Alert {
        class: Class::OuterRace,
    };
    let inner = State::Alert {
        class: Class::InnerRace,
    };
    let states: Vec<State> = run.outcomes.iter().map(|o| o.state).collect();
    assert_eq!(
        states,
        vec![State::Normal, outer, outer, outer, State::Normal, inner]
    );
    assert_eq!(
        seen.into_inner(),
        vec![
            (0, State::Normal, None),
            (1, outer, Some(State::Normal)),
            (2, outer, None),
            (3, outer, None),
            (4, State::Normal, Some(outer)),
            (5, inner, Some(State::Normal))
        ]
    );
    assert_eq!((run.log.windows(), run.log.alerts()), (6, 2));
    assert_eq!(run.outcomes[1].class, Class::OuterRace);
    assert_eq!(run.outcomes[5].confidence, 0.9f32.to_bits());
    assert_eq!(alert.state(), inner);
}

#[test]
fn a_window_reads_as_the_same_stream() {
    let text = recording(&counting(WINDOW_LEN));
    assert_eq!(
        parse_window(&text).unwrap().to_vec(),
        parse_stream(&text).unwrap()
    );
}

#[test]
fn a_run_that_stays_normal_raises_no_alert() {
    let mut log = ReplayLog::new();
    for _ in 0..5 {
        assert_eq!(log.record(State::Normal), None);
    }
    assert_eq!((log.windows(), log.alerts()), (5, 0));
    assert_eq!(log.state(), State::Normal);
}
