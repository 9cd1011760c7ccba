use quic_codec::error::CodecError;
use quic_codec::varint::{read_varint, write_varint, Varint};

fn verify(n: u64) -> Varint {
    let mut buf: Vec<u8> = Vec::new();
    assert!(write_varint(n, &mut buf).is_ok());
    read_varint(&buf, 0).unwrap()
}

#[test]
fn test_varint() {
    assert_eq!(verify(52), Varint { value: 52, size: 1 });
    assert_eq!(
        verify(12138),
        Varint {
            value: 12138,
            size: 2
        }
    );
    assert_eq!(
        verify(973741823),
        Varint {
            value: 973741823,
            size: 4
        }
    );
    assert_eq!(
        verify(223344556677),
        Varint {
            value: 223344556677,
            size: 8
        }
    );
}

#[test]
fn varint_round_trip_at_class_boundaries() {
    let cases: [(u64, usize); 8] = [
        (0, 1),
        (63, 1),
        (64, 2),
        (16383, 2),
        (16384, 4),
        (1073741823, 4),
        (1073741824, 8),
        (4611686018427387903, 8),
    ];
    for (v, len) in cases {
        let mut buf: Vec<u8> = Vec::new();
        assert_eq!(write_varint(v, &mut buf), Ok(len));
        assert_eq!(buf.len(), len);
        assert_eq!(read_varint(&buf, 0), Ok(Varint { value: v, size: len }));
    }
}

#[test]
fn varint_too_large_is_refused() {
    let mut buf: Vec<u8> = vec![9];
    assert_eq!(write_varint(4611686018427387904, &mut buf), Err(CodecError::OutOfRange));
    assert_eq!(write_varint(u64::MAX, &mut buf), Err(CodecError::OutOfRange));
    assert_eq!(buf, vec![9]);
}

#[test]
fn varint_exact_bytes() {
    let cases: [(u64, Vec<u8>); 4] = [
        (37, vec![0x25]),
        (15293, vec![0x7b, 0xbd]),
        (494878333, vec![0x9d, 0x7f, 0x3e, 0x7d]),
        (
            151288809941952652,
            vec![0xc2, 0x19, 0x7c, 0x5e, 0xff, 0x14, 0xe8, 0x8c],
        ),
    ];
    for (v, bytes) in cases {
        let mut buf: Vec<u8> = Vec::new();
        write_varint(v, &mut buf).unwrap();
        assert_eq!(buf, bytes);
        assert_eq!(read_varint(&bytes, 0), Ok(Varint { value: v, size: bytes.len() }));
    }
}

#[test]
fn varint_longer_class_than_needed_is_read() {
    assert_eq!(read_varint(&[0x40, 0x25], 0), Ok(Varint { value: 37, size: 2 }));
}

#[test]
fn varint_read_at_offset_appends_after_existing() {
    let mut buf: Vec<u8> = vec![0xaa];
    assert_eq!(write_varint(300, &mut buf), Ok(2));
    assert_eq!(buf, vec![0xaa, 0x41, 0x2c]);
    assert_eq!(read_varint(&buf, 1), Ok(Varint { value: 300, size: 2 }));
}

#[test]
fn varint_truncated_input() {
    assert_eq!(read_varint(&[], 0), Err(CodecError::Truncated));
    assert_eq!(read_varint(&[0x40], 0), Err(CodecError::Truncated));
    assert_eq!(read_varint(&[0x80, 1, 2], 0), Err(CodecError::Truncated));
    assert_eq!(read_varint(&[0xc0, 1, 2, 3, 4, 5, 6], 0), Err(CodecError::Truncated));
    assert_eq!(read_varint(&[0x01], 1), Err(CodecError::Truncated));
}
