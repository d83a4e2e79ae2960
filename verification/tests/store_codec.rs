use sketches_rust::frame::FlagType;
use sketches_rust::io::{Input, Output};
use sketches_rust::store::{decode_store_bins, encode_store, BinEncodingMode};
use sketches_rust::Error;

#[test]
fn test_decode_store_bins_index_deltas_and_counts() {
    // Two bins: delta 1 with weight 1.0, then delta 1 with weight 2.0.
    let bytes: Vec<u8> = vec![2, 2, 2, 2, 3];
    let mut input = Input::wrap(&bytes);
    let bins = decode_store_bins(&mut input, BinEncodingMode::IndexDeltasAndCounts).unwrap();
    assert_eq!(bins.len(), 2);
    assert_eq!(bins[0].0, 1);
    assert_eq!(f64::from_bits(bins[0].1) - 1.0, 1.0);
    assert_eq!(bins[1].0, 2);
    assert_eq!(f64::from_bits(bins[1].1) - 1.0, 2.0);
    assert!(!input.has_remaining());
}

#[test]
fn test_decode_store_bins_index_deltas() {
    // Three unit-weight bins at indices 5, 4 and 6.
    let bytes: Vec<u8> = vec![3, 10, 1, 4];
    let mut input = Input::wrap(&bytes);
    let bins = decode_store_bins(&mut input, BinEncodingMode::IndexDeltas).unwrap();
    assert_eq!(bins.len(), 3);
    assert_eq!(bins[0].0, 5);
    assert_eq!(bins[1].0, 4);
    assert_eq!(bins[2].0, 6);
    for bin in bins {
        assert_eq!(f64::from_bits(bin.1) - 1.0, 1.0);
    }
    assert!(!input.has_remaining());
}

#[test]
fn test_decode_store_bins_contiguous_counts() {
    // Three bins from index -1 stepping by 1, weights 1.0, 0.0, 3.0.
    let bytes: Vec<u8> = vec![3, 1, 2, 2, 0, 4];
    let mut input = Input::wrap(&bytes);
    let bins = decode_store_bins(&mut input, BinEncodingMode::ContiguousCounts).unwrap();
    assert_eq!(bins.len(), 3);
    assert_eq!(bins[0].0, -1);
    assert_eq!(f64::from_bits(bins[0].1) - 1.0, 1.0);
    assert_eq!(bins[1].0, 0);
    assert_eq!(f64::from_bits(bins[1].1) - 1.0, 0.0);
    assert_eq!(bins[2].0, 1);
    assert_eq!(f64::from_bits(bins[2].1) - 1.0, 3.0);
    assert!(!input.has_remaining());
}

#[test]
fn test_decode_store_bins_rejects_wide_index() {
    // A single bin whose index delta exceeds the 32-bit range.
    let mut output = Output::with_capacity(16);
    sketches_rust::varenc::encode_unsigned_var_long(&mut output, 1).unwrap();
    sketches_rust::varenc::encode_signed_var_long(&mut output, 1 << 40).unwrap();
    let bytes = output.trim();
    let mut input = Input::wrap(&bytes);
    assert!(matches!(
        decode_store_bins(&mut input, BinEncodingMode::IndexDeltas),
        Err(Error::InvalidArgument(_))
    ));
}

#[test]
fn test_decode_store_bins_truncated() {
    // Announces four bins but carries only one delta.
    let bytes: Vec<u8> = vec![4, 2];
    let mut input = Input::wrap(&bytes);
    assert!(matches!(
        decode_store_bins(&mut input, BinEncodingMode::IndexDeltas),
        Err(Error::IoError(_))
    ));
}

fn raw_bin(count: f64) -> (u64, bool) {
    (f64::to_bits(count + 1.0), count != 0.0)
}

#[test]
fn test_encode_store_sparse_layout() {
    // Two occupied bins out of three: the sparse layout is shorter.
    let counts_raw = vec![raw_bin(1.0), raw_bin(0.0), raw_bin(1.0)];
    let mut output = Output::with_capacity(16);
    encode_store(&mut output, FlagType::PositiveStore, 0, &counts_raw).unwrap();
    assert_eq!(output.trim(), vec![5, 2, 0, 2, 4, 2]);
}

#[test]
fn test_encode_store_dense_layout() {
    // All bins occupied: the contiguous layout wins the tie.
    let counts_raw = vec![raw_bin(1.0), raw_bin(1.0), raw_bin(1.0)];
    let mut output = Output::with_capacity(16);
    encode_store(&mut output, FlagType::PositiveStore, 0, &counts_raw).unwrap();
    assert_eq!(output.trim(), vec![13, 3, 0, 2, 2, 2, 2]);

    let mut output = Output::with_capacity(16);
    encode_store(&mut output, FlagType::NegativeStore, -1, &counts_raw).unwrap();
    assert_eq!(output.trim(), vec![15, 3, 1, 2, 2, 2, 2]);
}

#[test]
fn test_encode_store_tie_goes_contiguous() {
    // Two adjacent occupied bins: both frames are six bytes long, and the
    // tie goes to the contiguous layout.
    let counts_raw = vec![raw_bin(1.0), raw_bin(1.0)];
    let mut output = Output::with_capacity(8);
    encode_store(&mut output, FlagType::PositiveStore, 0, &counts_raw).unwrap();
    assert_eq!(output.trim(), vec![13, 2, 0, 2, 2, 2]);
}

#[test]
fn test_encode_store_decode_round_trip() {
    let counts_raw = vec![
        raw_bin(1.0),
        raw_bin(0.0),
        raw_bin(2.5),
        raw_bin(0.0),
        raw_bin(4538.0),
    ];
    let mut output = Output::with_capacity(64);
    encode_store(&mut output, FlagType::PositiveStore, -2, &counts_raw).unwrap();
    let bytes = output.trim();

    let mut input = Input::wrap(&bytes);
    let flag = sketches_rust::frame::Flag::decode(&mut input).unwrap();
    let mode = BinEncodingMode::of_flag(flag.get_marker()).unwrap();
    let bins = decode_store_bins(&mut input, mode).unwrap();
    assert!(!input.has_remaining());

    let mut total = 0.0;
    for (index, raw) in &bins {
        assert!((-2..=2).contains(index));
        total += f64::from_bits(*raw) - 1.0;
    }
    assert_eq!(total, 1.0 + 2.5 + 4538.0);
}
