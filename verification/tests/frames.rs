use sketches_rust::frame::{
    ignore_exact_summary_statistic_flags, Flag, FlagType, IndexMappingLayout,
};
use sketches_rust::io::{DefaultInput, DefaultOutput, Input, Output};
use sketches_rust::store::{get_new_length, BinEncodingMode};
use sketches_rust::varenc::get_exponent;
use sketches_rust::Error;

#[test]
fn test_flag_markers() {
    assert_eq!(Flag::zero_count().get_marker(), 0x04);
    assert_eq!(Flag::count().get_marker(), 0xa0);
    assert_eq!(Flag::sum().get_marker(), 0x84);
    assert_eq!(Flag::min().get_marker(), 0x88);
    assert_eq!(Flag::max().get_marker(), 0x8c);
    assert_eq!(Flag::with_type(FlagType::SketchFeatures, 1), Flag::zero_count());
    assert_eq!(Flag::with_type(FlagType::SketchFeatures, 0x28), Flag::count());
    assert_eq!(Flag::with_type(FlagType::SketchFeatures, 0x21), Flag::sum());
    assert_eq!(Flag::with_type(FlagType::SketchFeatures, 0x22), Flag::min());
    assert_eq!(Flag::with_type(FlagType::SketchFeatures, 0x23), Flag::max());
}

#[test]
fn test_flag_type_value_of() {
    assert!(matches!(FlagType::value_of(0), Ok(FlagType::SketchFeatures)));
    assert!(matches!(FlagType::value_of(1), Ok(FlagType::PositiveStore)));
    assert!(matches!(FlagType::value_of(2), Ok(FlagType::IndexMapping)));
    assert!(matches!(FlagType::value_of(3), Ok(FlagType::NegativeStore)));
    assert!(matches!(
        FlagType::value_of(4),
        Err(Error::InvalidArgument(_))
    ));
}

#[test]
fn test_flag_get_type() {
    assert!(matches!(
        Flag::new(0xa0).get_type(),
        Ok(FlagType::SketchFeatures)
    ));
    assert!(matches!(
        Flag::new(0x05).get_type(),
        Ok(FlagType::PositiveStore)
    ));
    assert!(matches!(
        Flag::new(0x0e).get_type(),
        Ok(FlagType::IndexMapping)
    ));
    assert!(matches!(
        Flag::new(0x0f).get_type(),
        Ok(FlagType::NegativeStore)
    ));
}

#[test]
fn test_flag_decode_encode() {
    let bytes: Vec<u8> = vec![0x0e, 0x05];
    let mut input = Input::wrap(&bytes);
    let first = Flag::decode(&mut input).unwrap();
    let second = Flag::decode(&mut input).unwrap();
    assert_eq!(first.get_marker(), 0x0e);
    assert_eq!(second.get_marker(), 0x05);
    assert!(matches!(
        Flag::decode(&mut input),
        Err(Error::IoError(_))
    ));

    let mut output = Output::with_capacity(2);
    first.encode(&mut output).unwrap();
    second.encode(&mut output).unwrap();
    assert_eq!(output.trim(), bytes);
}

#[test]
fn test_index_mapping_layout_flags() {
    let layouts = [
        IndexMappingLayout::LOG,
        IndexMappingLayout::LogLinear,
        IndexMappingLayout::LogQuadratic,
        IndexMappingLayout::LogCubic,
        IndexMappingLayout::LogQuartic,
    ];
    for (i, layout) in layouts.into_iter().enumerate() {
        let flag = layout.to_flag();
        assert_eq!(flag.get_marker(), 2 | ((i as u8) << 2));
        assert_eq!(IndexMappingLayout::of_flag(&flag).unwrap(), layout);
    }
    // The cubic layout's flag byte, as it appears on the wire.
    assert_eq!(IndexMappingLayout::LogCubic.to_flag().get_marker(), 14);
    let unknown = Flag::new(5 << 2 | 2);
    assert!(matches!(
        IndexMappingLayout::of_flag(&unknown),
        Err(Error::InvalidArgument(_))
    ));
}

#[test]
fn test_bin_encoding_mode_flags() {
    assert!(matches!(
        BinEncodingMode::of_flag(1 << 2 | 1),
        Ok(BinEncodingMode::IndexDeltasAndCounts)
    ));
    assert!(matches!(
        BinEncodingMode::of_flag(2 << 2 | 3),
        Ok(BinEncodingMode::IndexDeltas)
    ));
    assert!(matches!(
        BinEncodingMode::of_flag(3 << 2 | 1),
        Ok(BinEncodingMode::ContiguousCounts)
    ));
    assert!(matches!(
        BinEncodingMode::of_flag(0),
        Err(Error::InvalidArgument(_))
    ));
    assert!(matches!(
        BinEncodingMode::of_flag(4 << 2),
        Err(Error::InvalidArgument(_))
    ));
    let flag = BinEncodingMode::ContiguousCounts.to_flag(FlagType::PositiveStore);
    assert_eq!(flag.get_marker(), 3 << 2 | 1);
    let flag = BinEncodingMode::IndexDeltasAndCounts.to_flag(FlagType::NegativeStore);
    assert_eq!(flag.get_marker(), 1 << 2 | 3);
}

#[test]
fn test_ignore_exact_summary_statistic_flags() {
    // A count statistic is one variable-length double token.
    let bytes: Vec<u8> = vec![3, 99];
    let mut input = Input::wrap(&bytes);
    ignore_exact_summary_statistic_flags(&mut input, Flag::count()).unwrap();
    assert_eq!(input.read_byte().unwrap(), 99);

    // Sum, minimum and maximum are eight little-endian bytes each.
    let bytes: Vec<u8> = vec![0, 0, 0, 0, 0, 0, 240, 63, 7];
    let mut input = Input::wrap(&bytes);
    ignore_exact_summary_statistic_flags(&mut input, Flag::sum()).unwrap();
    assert_eq!(input.read_byte().unwrap(), 7);

    let bytes: Vec<u8> = vec![0; 8];
    let mut input = Input::wrap(&bytes);
    ignore_exact_summary_statistic_flags(&mut input, Flag::min()).unwrap();
    assert!(!input.has_remaining());
    let mut input = Input::wrap(&bytes);
    ignore_exact_summary_statistic_flags(&mut input, Flag::max()).unwrap();
    assert!(!input.has_remaining());

    // A truncated statistic surfaces the reader's end-of-input.
    let bytes: Vec<u8> = vec![0, 0, 0];
    let mut input = Input::wrap(&bytes);
    assert!(matches!(
        ignore_exact_summary_statistic_flags(&mut input, Flag::max()),
        Err(Error::IoError(_))
    ));

    // Any other feature flag is rejected.
    let bytes: Vec<u8> = vec![1, 2, 3];
    let mut input = Input::wrap(&bytes);
    assert!(matches!(
        ignore_exact_summary_statistic_flags(&mut input, Flag::new(0x80)),
        Err(Error::InvalidArgument(_))
    ));
}

#[test]
fn test_get_exponent() {
    assert_eq!(get_exponent(f64::to_bits(1.0) as i64), 0);
    assert_eq!(get_exponent(f64::to_bits(2.0) as i64), 1);
    assert_eq!(get_exponent(f64::to_bits(0.5) as i64), -1);
    assert_eq!(get_exponent(f64::to_bits(4.503599627370496E15) as i64), 52);
    assert_eq!(get_exponent(f64::to_bits(-8.0) as i64), 3);
}

#[test]
fn test_get_new_length() {
    assert_eq!(get_new_length(100, 0, 0), 64);
    assert_eq!(get_new_length(100, 10, 67), 64);
    assert_eq!(get_new_length(100, 10, 68), 100);
    assert_eq!(get_new_length(1000, 0, 58), 128);
    assert_eq!(get_new_length(50, -20, 200), 50);
    assert_eq!(get_new_length(2147483647, 0, 127), 192);
}

#[test]
fn test_input_read_long_le() {
    let bytes: Vec<u8> = vec![1, 0, 0, 0, 0, 0, 0, 0, 0xff, 0, 0, 0, 0, 0, 0, 0x80];
    let mut input = Input::wrap(&bytes);
    assert_eq!(input.read_long_le().unwrap(), 1);
    assert_eq!(input.read_long_le().unwrap(), 0x80000000000000ff);
    assert!(matches!(input.read_long_le(), Err(Error::IoError(_))));
}

#[test]
fn test_default_input_reads_like_input() {
    let bytes: Vec<u8> = vec![5, 6, 1, 0, 0, 0, 0, 0, 0, 0];
    let mut input = DefaultInput::wrap(bytes);
    assert!(input.has_remaining());
    assert_eq!(input.read_byte().unwrap(), 5);
    assert_eq!(input.read_byte().unwrap(), 6);
    assert_eq!(input.read_long_le().unwrap(), 1);
    assert!(!input.has_remaining());
    assert!(matches!(input.read_byte(), Err(Error::IoError(_))));
}

#[test]
fn test_output_write_long_le() {
    let mut output = Output::with_capacity(8);
    output.write_long_le(0x0807060504030201).unwrap();
    assert_eq!(output.trim(), vec![1, 2, 3, 4, 5, 6, 7, 8]);

    let mut output = DefaultOutput::new(8);
    output.write_byte(9).unwrap();
    output.write_long_le(u64::from_le_bytes([1, 2, 3, 4, 5, 6, 7, 8])).unwrap();
    assert_eq!(output.trim(), vec![9, 1, 2, 3, 4, 5, 6, 7, 8]);
}
