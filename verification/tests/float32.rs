use pmcore::float32::{argmax, exceeds, zero};

const VALUES: [f32; 14] = [
    0.0,
    -0.0,
    1.0,
    -1.0,
    0.8,
    f32::MIN_POSITIVE,
    -f32::MIN_POSITIVE,
    1e-45,
    -1e-45,
    f32::MAX,
    f32::MIN,
    f32::INFINITY,
    f32::NEG_INFINITY,
    f32::NAN,
];

#[test]
fn order_on_bits_is_the_order_of_values() {
    for a in VALUES {
        for b in VALUES {
            assert_eq!(exceeds(a.to_bits(), b.to_bits()), a > b, "{a} > {b}");
        }
        assert_eq!(zero(a.to_bits()), a == 0.0, "{a}");
        assert!(!exceeds((-f32::NAN).to_bits(), a.to_bits()));
    }
}

#[test]
fn argmax_is_the_first_maximum() {
    let v = [-3.0f32, 7.5, -0.0, 7.5].map(f32::to_bits);
    assert_eq!(argmax(&v), (1, 7.5f32.to_bits()));
    assert_eq!(argmax(&[5u32]), (0, 5));
    let negative = [-3.0f32, -1.0, -2.0].map(f32::to_bits);
    assert_eq!(argmax(&negative).0, 1);
}
