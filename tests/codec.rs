use chaoskit::codec::{decode_all, decode_sample, encode_sample, Deframer, Sample, RECORD_LEN};

fn sample_of(x: f64, y: f64, aux: f64) -> Sample {
    Sample { x: x.to_bits(), y: y.to_bits(), aux: aux.to_bits() }
}

#[test]
fn record_is_three_big_endian_doubles() {
    let bytes = encode_sample(&sample_of(1.5, -2.0, 0.25));
    assert_eq!(bytes.len(), RECORD_LEN);
    assert_eq!(&bytes[0..8], &[0x3f, 0xf8, 0, 0, 0, 0, 0, 0]);
    assert_eq!(&bytes[8..16], &[0xc0, 0x00, 0, 0, 0, 0, 0, 0]);
    assert_eq!(&bytes[16..24], &[0x3f, 0xd0, 0, 0, 0, 0, 0, 0]);
}

#[test]
fn round_trip_is_bit_exact() {
    let values = [
        (0.1, -0.0, 1.0 / 3.0),
        (f64::MAX, f64::MIN_POSITIVE, -1e-300),
        (f64::INFINITY, f64::NEG_INFINITY, 0.5),
    ];
    for (x, y, aux) in values.iter() {
        let s = sample_of(*x, *y, *aux);
        let bytes = encode_sample(&s);
        let back = decode_sample(&bytes, 0);
        assert_eq!(back, s);
        assert_eq!(f64::from_bits(back.x).to_bits(), x.to_bits());
        assert_eq!(f64::from_bits(back.y).to_bits(), y.to_bits());
        assert_eq!(f64::from_bits(back.aux).to_bits(), aux.to_bits());
    }
    let nan = Sample { x: 0x7ff8_0000_0000_0001, y: 0, aux: u64::MAX };
    assert_eq!(decode_all(&encode_sample(&nan)), vec![nan]);
}

#[test]
fn decode_reads_record_at_offset() {
    let mut bytes = vec![9u8, 9, 9];
    bytes.extend(encode_sample(&sample_of(2.0, 3.0, 4.0)));
    assert_eq!(decode_sample(&bytes, 3), sample_of(2.0, 3.0, 4.0));
}

#[test]
fn trailing_fragment_is_dropped() {
    let a = sample_of(1.0, 2.0, 0.5);
    let b = sample_of(-1.0, -2.0, 0.75);
    let mut bytes = encode_sample(&a);
    bytes.extend(encode_sample(&b));
    bytes.extend([1u8, 2, 3, 4, 5]);
    assert_eq!(decode_all(&bytes), vec![a, b]);
    assert_eq!(decode_all(&bytes[..23]), vec![]);
    assert_eq!(decode_all(&[]), vec![]);
}

#[test]
fn deframer_reassembles_chunks() {
    let a = sample_of(0.5, 0.25, 0.125);
    let b = sample_of(-0.5, 1.25, 1.0);
    let mut stream = encode_sample(&a);
    stream.extend(encode_sample(&b));
    stream.extend([7u8, 7]);

    let mut d = Deframer::new();
    d.push_bytes(&stream[..10]);
    assert_eq!(d.next_sample(), None);
    assert_eq!(d.pending_len(), 10);
    d.push_bytes(&stream[10..30]);
    assert_eq!(d.next_sample(), Some(a));
    assert_eq!(d.next_sample(), None);
    d.push_bytes(&stream[30..]);
    assert_eq!(d.next_sample(), Some(b));
    assert_eq!(d.next_sample(), None);
    assert_eq!(d.pending_len(), 2);
}
