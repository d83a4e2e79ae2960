use sketches_rust::io::{Input, Output};
use sketches_rust::varbit::{
    decode_var_double_bits, encode_var_double_bits, var_double_encoded_length_bits,
};
use sketches_rust::Error;

// The library works on the raw bit pattern of `value + 1`; these helpers do
// the one floating-point step on either side of it.
fn decode_var_double(input: &mut Input) -> Result<f64, Error> {
    let raw = decode_var_double_bits(input)?;
    Ok(f64::from_bits(raw) - 1.0)
}

fn encode_var_double(output: &mut Output, value: f64) -> Result<(), Error> {
    encode_var_double_bits(output, f64::to_bits(value + 1.0))
}

fn var_double_encoded_length(value: f64) -> i64 {
    var_double_encoded_length_bits(f64::to_bits(value + 1.0))
}

fn var_doubles() -> [(f64, Vec<u8>); 17] {
    [
        (0.0, vec![0]),
        (1.0, vec![2]),
        (2.0, vec![3]),
        (3.0, vec![4]),
        (4.0, vec![132, 64]),
        (5.0, vec![5]),
        (6.0, vec![133, 64]),
        (7.0, vec![6]),
        (8.0, vec![134, 32]),
        (9.0, vec![134, 64]),
        (
            4.503599627370494E15,
            vec![231, 255, 255, 255, 255, 255, 255, 255, 128],
        ),
        (4.503599627370495E15, vec![104]),
        (
            4.503599627370496E15,
            vec![232, 128, 128, 128, 128, 128, 128, 128, 64],
        ),
        (
            9.00719925474099E15,
            vec![233, 255, 255, 255, 255, 255, 255, 255, 192],
        ),
        (9.007199254740991E15, vec![106]),
        (-1.0, vec![130, 128, 128, 128, 128, 128, 128, 128, 48]),
        (-0.5, vec![254, 128, 128, 128, 128, 128, 128, 128, 63]),
    ]
}

#[test]
fn test_decode_var_double() {
    let args: [(f64, Vec<u8>); 16] = [
        (0.0, vec![0]),
        (1.0, vec![2]),
        (2.0, vec![3]),
        (3.0, vec![4]),
        (4.0, vec![132, 64]),
        (5.0, vec![5]),
        (6.0, vec![133, 64]),
        (7.0, vec![6]),
        (8.0, vec![134, 32]),
        (9.0, vec![134, 64]),
        (
            4.503599627370494E15,
            vec![231, 255, 255, 255, 255, 255, 255, 255, 128],
        ),
        (4.503599627370495E15, vec![104]),
        (
            4.503599627370496E15,
            vec![232, 128, 128, 128, 128, 128, 128, 128, 64],
        ),
        (
            9.00719925474099E15,
            vec![233, 255, 255, 255, 255, 255, 255, 255, 192],
        ),
        (-1.0, vec![130, 128, 128, 128, 128, 128, 128, 128, 48]),
        (-0.5, vec![254, 128, 128, 128, 128, 128, 128, 128, 63]),
    ];

    for arg in args {
        let mut input = Input::wrap(&arg.1);
        let value: f64 = decode_var_double(&mut input).unwrap();
        assert_eq!(value, arg.0);
    }
}

#[test]
fn test_encode_var_double() {
    let values = var_doubles();
    for value in values {
        let mut output = Output::with_capacity(32);
        encode_var_double(&mut output, value.0).unwrap();
        assert_eq!(value.1, output.trim());
    }
}

#[test]
fn test_var_double_encoded_length() {
    let values = var_doubles();
    for value in values {
        let len = var_double_encoded_length(value.0);
        assert_eq!(value.1.len(), len as usize);
    }
}

#[test]
fn test_var_double_round_trip() {
    let values = var_doubles();
    for value in values {
        let mut output = Output::with_capacity(32);
        encode_var_double(&mut output, value.0).unwrap();
        let bytes = output.trim();
        let mut input = Input::wrap(&bytes);
        assert_eq!(value.0, decode_var_double(&mut input).unwrap());
        assert!(!input.has_remaining());
    }
}

#[test]
fn test_var_double_bits_round_trip_exhausts_token() {
    // Patterns that exercise every token length, including ones that are not
    // bit patterns of any well-formed double.
    let raws: [u64; 8] = [
        0,
        1,
        0x3ff0000000000000,
        0x3ff0000000000001,
        0xffffffffffffffff,
        0x8000000000000000,
        42,
        0x0123456789abcdef,
    ];
    for raw in raws {
        let mut output = Output::with_capacity(32);
        encode_var_double_bits(&mut output, raw).unwrap();
        let bytes = output.trim();
        assert_eq!(bytes.len() as i64, var_double_encoded_length_bits(raw));
        let mut input = Input::wrap(&bytes);
        assert_eq!(raw, decode_var_double_bits(&mut input).unwrap());
        assert!(!input.has_remaining());
    }
}

#[test]
fn test_decode_var_double_end_of_input() {
    let empty: Vec<u8> = Vec::new();
    let mut input = Input::wrap(&empty);
    assert!(matches!(
        decode_var_double_bits(&mut input),
        Err(Error::IoError(_))
    ));

    let truncated: Vec<u8> = vec![231, 255, 255];
    let mut input = Input::wrap(&truncated);
    assert!(matches!(
        decode_var_double_bits(&mut input),
        Err(Error::IoError(_))
    ));
}
