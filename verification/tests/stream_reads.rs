use oss_sdk::{ByteReader, SizeHint, StreamError};

fn two_chunks() -> Vec<Result<Vec<u8>, StreamError>> {
    vec![Ok(b"Shimo".to_vec()), Ok(b"Doc".to_vec())]
}

#[test]
fn test_async_read() {
    let mut reader = ByteReader::from_chunks(two_chunks());

    // read through a destination of capacity 3
    let v = reader.read(3).unwrap();
    assert_eq!(v.len(), 3);
    assert_eq!(&v[..], b"Shi");
    let v = reader.read(3).unwrap();
    assert_eq!(v.len(), 2);
    assert_eq!(&v[..], b"mo");
    let v = reader.read(3).unwrap();
    assert_eq!(v.len(), 3);
    assert_eq!(&v[..], b"Doc");
    assert_eq!(reader.read(3).unwrap().len(), 0);
}

#[test]
fn test_blocking_read() {
    let mut reader = ByteReader::from_chunks(two_chunks());

    let v = reader.read(3).unwrap();
    assert_eq!(v.len(), 3);
    assert_eq!(&v[..], b"Shi");
    let v = reader.read(3).unwrap();
    assert_eq!(v.len(), 2);
    assert_eq!(&v[..], b"mo");
    let v = reader.read(3).unwrap();
    assert_eq!(v.len(), 3);
    assert_eq!(&v[..], b"Doc");
    assert_eq!(reader.read(3).unwrap().len(), 0);
}

#[test]
fn test_new_with_size_read() {
    // a caller-supplied total gives the hint (0, Some(n))
    let hint = SizeHint::bounded(8);
    assert_eq!(hint.lower, 0);
    assert_eq!(hint.upper, Some(8));

    let mut reader = ByteReader::from_chunks(two_chunks());
    let v = reader.read(3).unwrap();
    assert_eq!(v.len(), 3);
    assert_eq!(&v[..], b"Shi");
    let v = reader.read(3).unwrap();
    assert_eq!(v.len(), 2);
    assert_eq!(&v[..], b"mo");
    let v = reader.read(3).unwrap();
    assert_eq!(v.len(), 3);
    assert_eq!(&v[..], b"Doc");
    assert_eq!(reader.read(3).unwrap().len(), 0);
}

#[test]
fn round_trip_buffer_all_read_sizes() {
    // drains with a destination smaller than, equal to and larger than the
    // buffer all reproduce it exactly
    let b = b"abcdefgh".to_vec();
    for cap in [3usize, 8, 100] {
        let mut reader = ByteReader::from_buffer(b.clone());
        let out = reader.read_to_end(cap).unwrap();
        assert_eq!(out, b);
    }
}

#[test]
fn round_trip_empty_buffer() {
    let mut reader = ByteReader::from_buffer(Vec::new());
    let out = reader.read_to_end(1).unwrap();
    assert_eq!(out.len(), 0);
}

#[test]
fn partial_reads_compose() {
    // repeated 3-byte reads accumulate to the same bytes as one large read
    let mut small = ByteReader::from_chunks(two_chunks());
    let mut acc: Vec<u8> = Vec::new();
    loop {
        let v = small.read(3).unwrap();
        if v.is_empty() {
            break;
        }
        acc.extend_from_slice(&v);
    }
    let mut large = ByteReader::from_chunks(two_chunks());
    let all = large.read_to_end(100).unwrap();
    assert_eq!(acc, all);
    assert_eq!(&all[..], b"ShimoDoc");
}

#[test]
fn exhaustion_is_sticky() {
    let mut reader = ByteReader::from_buffer(b"xy".to_vec());
    assert_eq!(&reader.read(10).unwrap()[..], b"xy");
    assert_eq!(reader.read(10).unwrap().len(), 0);
    // end-of-data again, never old data
    assert_eq!(reader.read(10).unwrap().len(), 0);
    assert_eq!(reader.read(3).unwrap().len(), 0);
}

#[test]
fn error_surfaces_exactly_once() {
    let chunks: Vec<Result<Vec<u8>, StreamError>> = vec![
        Ok(b"ab".to_vec()),
        Err(StreamError { message: "boom".to_string() }),
        Ok(b"cd".to_vec()),
    ];
    let mut reader = ByteReader::from_chunks(chunks);
    assert_eq!(&reader.read(10).unwrap()[..], b"ab");
    let err = reader.read(10).unwrap_err();
    assert_eq!(err.message.as_str(), "boom");
    // the error is sticky: the reader is terminal afterwards
    assert_eq!(reader.read(10).unwrap().len(), 0);
    assert_eq!(reader.read(10).unwrap().len(), 0);
}

#[test]
fn error_in_drain_propagates() {
    let chunks: Vec<Result<Vec<u8>, StreamError>> = vec![
        Ok(b"ab".to_vec()),
        Err(StreamError { message: "late".to_string() }),
    ];
    let mut reader = ByteReader::from_chunks(chunks);
    let err = reader.read_to_end(4).unwrap_err();
    assert_eq!(err.message.as_str(), "late");
}
