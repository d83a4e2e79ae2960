use sketches_rust::io::{Input, Output};
use sketches_rust::varenc::{
    decode_signed_var_long, decode_unsigned_var_long, encode_signed_var_long,
    encode_unsigned_var_long, i32_to_usize_exact, i64_to_i32_exact,
    signed_var_long_encoded_length, unsigned_var_long_encoded_length,
};

fn unsigned_var_longs() -> [(i64, Vec<u8>); 12] {
    [
        (0, vec![0]),
        (1, vec![1]),
        (127, vec![127]),
        (128, vec![128, 1]),
        (129, vec![129, 1]),
        (255, vec![255, 1]),
        (256, vec![128, 2]),
        (16383, vec![255, 127]),
        (16384, vec![128, 128, 1]),
        (16385, vec![129, 128, 1]),
        (-2, vec![254, 255, 255, 255, 255, 255, 255, 255, 255]),
        (-1, vec![255, 255, 255, 255, 255, 255, 255, 255, 255]),
    ]
}

fn signed_var_longs() -> [(i64, Vec<u8>); 29] {
    [
        (0, vec![0]),
        (1, vec![2]),
        (63, vec![126]),
        (64, vec![128, 1]),
        (65, vec![130, 1]),
        (127, vec![254, 1]),
        (128, vec![128, 2]),
        (8191, vec![254, 127]),
        (8192, vec![128, 128, 1]),
        (8193, vec![130, 128, 1]),
        (
            4611686018427387902,
            vec![252, 255, 255, 255, 255, 255, 255, 255, 127],
        ),
        (
            4611686018427387903,
            vec![254, 255, 255, 255, 255, 255, 255, 255, 127],
        ),
        (
            4611686018427387904,
            vec![128, 128, 128, 128, 128, 128, 128, 128, 128],
        ),
        (
            9223372036854775806,
            vec![252, 255, 255, 255, 255, 255, 255, 255, 255],
        ),
        (
            9223372036854775807,
            vec![254, 255, 255, 255, 255, 255, 255, 255, 255],
        ),
        (-1, vec![1]),
        (-63, vec![125]),
        (-64, vec![127]),
        (-65, vec![129, 1]),
        (-127, vec![253, 1]),
        (-128, vec![255, 1]),
        (-8191, vec![253, 127]),
        (-8192, vec![255, 127]),
        (-8193, vec![129, 128, 1]),
        (
            -4611686018427387903,
            vec![253, 255, 255, 255, 255, 255, 255, 255, 127],
        ),
        (
            -4611686018427387904,
            vec![255, 255, 255, 255, 255, 255, 255, 255, 127],
        ),
        (
            -4611686018427387905,
            vec![129, 128, 128, 128, 128, 128, 128, 128, 128],
        ),
        (
            -9223372036854775807,
            vec![253, 255, 255, 255, 255, 255, 255, 255, 255],
        ),
        (
            -9223372036854775808,
            vec![255, 255, 255, 255, 255, 255, 255, 255, 255],
        ),
    ]
}

#[test]
fn test_decode_signed_var_long() {
    let args = signed_var_longs();
    for arg in args {
        let mut input = Input::wrap(&arg.1);
        let value: i64 = decode_signed_var_long(&mut input).unwrap();
        assert_eq!(arg.0, value);
    }
}

#[test]
fn test_decode_unsigned_var_long() {
    let args: [(i64, Vec<u8>); 12] = unsigned_var_longs();
    for arg in args {
        let mut input = Input::wrap(&arg.1);
        let value: i64 = decode_unsigned_var_long(&mut input).unwrap();
        assert_eq!(arg.0, value);
    }
}

#[test]
#[should_panic]
fn test_i64_to_i32_exact_with_panic_1() {
    i64_to_i32_exact(2147483648).unwrap();
}

#[test]
#[should_panic]
fn test_i64_to_i32_exact_with_panic_2() {
    i64_to_i32_exact(-2147483649).unwrap();
}

#[test]
fn test_i64_to_i32_exact() {
    assert_eq!(i64_to_i32_exact(0).unwrap(), 0);
    assert_eq!(i64_to_i32_exact(1).unwrap(), 1);
    assert_eq!(i64_to_i32_exact(-1).unwrap(), -1);
    assert_eq!(i64_to_i32_exact(65535).unwrap(), 65535);
    assert_eq!(i64_to_i32_exact(-65535).unwrap(), -65535);
    assert_eq!(i64_to_i32_exact(2147483647).unwrap(), 2147483647);
    assert_eq!(i64_to_i32_exact(-2147483648).unwrap(), -2147483648);
}

#[test]
fn test_i32_to_usize_exact() {
    assert_eq!(i32_to_usize_exact(0).unwrap(), 0);
    assert_eq!(i32_to_usize_exact(1).unwrap(), 1);
    assert_eq!(i32_to_usize_exact(65535).unwrap(), 65535);
    assert_eq!(i32_to_usize_exact(2147483647).unwrap(), 2147483647);
}

#[test]
#[should_panic]
fn test_i32_to_usize_exact_with_panic() {
    i32_to_usize_exact(-1).unwrap();
}

#[test]
fn test_unsigned_var_long_encoded_length() {
    let values = unsigned_var_longs();
    for value in values {
        let len = unsigned_var_long_encoded_length(value.0);
        assert_eq!(value.1.len(), len as usize);
    }
}

#[test]
fn test_signed_var_long_encoded_length() {
    let values = signed_var_longs();
    for value in values {
        let len = signed_var_long_encoded_length(value.0);
        assert_eq!(value.1.len(), len as usize);
    }
}

#[test]
fn test_encode_signed_var_long() {
    let values = signed_var_longs();
    for value in values {
        let mut output = Output::with_capacity(32);
        encode_signed_var_long(&mut output, value.0).unwrap();
        assert_eq!(value.1, output.trim());
    }
}

#[test]
fn test_encode_unsigned_var_long() {
    let values = unsigned_var_longs();
    for value in values {
        let mut output = Output::with_capacity(32);
        encode_unsigned_var_long(&mut output, value.0).unwrap();
        assert_eq!(value.1, output.trim());
    }
}

#[test]
fn test_unsigned_var_long_round_trip() {
    let values: [i64; 13] = [
        0,
        1,
        2,
        127,
        128,
        300,
        16384,
        987654321,
        i64::MAX,
        i64::MIN,
        -1,
        -2,
        -987654321,
    ];
    for v in values {
        let mut output = Output::with_capacity(16);
        encode_unsigned_var_long(&mut output, v).unwrap();
        let bytes = output.trim();
        let mut input = Input::wrap(&bytes);
        assert_eq!(v, decode_unsigned_var_long(&mut input).unwrap());
        assert!(!input.has_remaining());
    }
}

#[test]
fn test_signed_var_long_round_trip() {
    let values: [i64; 13] = [
        0,
        1,
        -1,
        63,
        -64,
        64,
        -65,
        8192,
        -8193,
        i64::MAX,
        i64::MIN,
        4611686018427387904,
        -4611686018427387905,
    ];
    for v in values {
        let mut output = Output::with_capacity(16);
        encode_signed_var_long(&mut output, v).unwrap();
        let bytes = output.trim();
        let mut input = Input::wrap(&bytes);
        assert_eq!(v, decode_signed_var_long(&mut input).unwrap());
        assert!(!input.has_remaining());
    }
}

#[test]
fn test_decode_var_long_end_of_input() {
    let empty: Vec<u8> = Vec::new();
    let mut input = Input::wrap(&empty);
    assert!(decode_unsigned_var_long(&mut input).is_err());

    let truncated: Vec<u8> = vec![128, 128];
    let mut input = Input::wrap(&truncated);
    assert!(decode_signed_var_long(&mut input).is_err());
}
