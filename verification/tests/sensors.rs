use pmcore::adxl345::{
    fifo_count, fifo_status_request, init_fifo, read_fifo_sample, sample_request, write_register, WATERMARK,
};
use pmcore::bytes::{rd_i16, rd_i32, rd_sample};
use pmcore::features::Sample;
use pmcore::sim_source::SimSource;

#[test]
fn the_sensor_is_configured_frame_by_frame() {
    assert_eq!(
        init_fifo(),
        [
            [0x31, 0x0B],
            [0x2C, 0x0F],
            [0x2F, 0x00],
            [0x38, 0x90],
            [0x2E, 0x02],
            [0x2D, 0x08]
        ]
    );
    assert_eq!(WATERMARK, 16);
    assert_eq!(write_register(0xFF, 0x12), [0x3F, 0x12]);
}

#[test]
fn requests_carry_their_command_bits() {
    assert_eq!(fifo_status_request(), [0xB9, 0]);
    assert_eq!(sample_request(), [0xF2, 0, 0, 0, 0, 0, 0]);
}

#[test]
fn replies_are_decoded() {
    assert_eq!(fifo_count(&[0, 32]), 32);
    assert_eq!(fifo_count(&[0xFF, 0x80 | 0x40 | 17]), 17);
    let reply = [0, 0x01, 0x00, 0xFF, 0xFF, 0x00, 0x80];
    assert_eq!(read_fifo_sample(&reply), [1, -1, i16::MIN]);
}

#[test]
fn bytes_are_read_least_significant_first() {
    for v in [0, 1, -1, 258, i16::MIN, i16::MAX] {
        let [lo, hi] = v.to_le_bytes();
        assert_eq!(rd_i16(lo, hi), v);
    }
    for v in [0, 1, -1, 0x01020304, i32::MIN, i32::MAX] {
        let mut b = vec![9];
        b.extend_from_slice(&v.to_le_bytes());
        assert_eq!(rd_i32(&b, 1), v);
    }
    assert_eq!(rd_sample(&[9, 1, 0, 2, 0, 3, 1], 1), [1, 2, 259]);
}

#[test]
fn baked_streams_read_back() {
    let samples: Vec<Sample> = vec![[1, -2, 300], [i16::MIN, i16::MAX, 0], [7, 8, 9]];
    let mut bytes: Vec<u8> = Vec::new();
    for s in &samples {
        for v in s {
            bytes.extend_from_slice(&v.to_le_bytes());
        }
    }
    bytes.extend_from_slice(&[1, 2, 3, 4, 5]); // less than a sample
    let mut source = SimSource::new(&bytes);
    for s in &samples {
        assert_eq!(source.next_sample(), Some(*s));
    }
    assert_eq!(source.next_sample(), None);
    assert_eq!(source.next_sample(), None);
    assert_eq!(SimSource::new(&[]).next_sample(), None);
}

#[test]
fn commands_give_back_their_register() {
    assert_eq!(fifo_status_request()[0] & 0x3F, 0x39);
    assert_eq!(fifo_status_request()[0] >> 6, 0b10);
    assert_eq!(sample_request()[0] & 0x3F, 0x32);
    assert_eq!(sample_request()[0] >> 6, 0b11);
    for frame in init_fifo() {
        assert_eq!(frame[0] >> 6, 0);
    }
    let last = init_fifo()[5][0];
    assert_eq!(init_fifo().iter().filter(|f| f[0] == last).count(), 1);
}
