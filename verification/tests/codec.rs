use nurtex::buffer::{Buffer, WriteError};
use nurtex::read::{Cursor, read_byte, read_bytes, read_exact};
use nurtex::types::uuid::Uuid;
use nurtex::varint::{VarI32, VarI64};

fn varint_bytes(v: i32) -> Vec<u8> {
    let mut out = Vec::new();
    v.write_var(&mut out).unwrap();
    out
}

fn varlong_bytes(v: i64) -> Vec<u8> {
    let mut out = Vec::new();
    v.write_var(&mut out).unwrap();
    out
}

fn written<T: Buffer>(v: &T) -> Vec<u8> {
    let mut out = Vec::new();
    v.write_buf(&mut out).unwrap();
    out
}

#[test]
fn varint_known_encodings() {
    assert_eq!(varint_bytes(0), vec![0x00]);
    assert_eq!(varint_bytes(1), vec![0x01]);
    assert_eq!(varint_bytes(127), vec![0x7f]);
    assert_eq!(varint_bytes(128), vec![0x80, 0x01]);
    assert_eq!(varint_bytes(255), vec![0xff, 0x01]);
    assert_eq!(varint_bytes(25565), vec![0xdd, 0xc7, 0x01]);
    assert_eq!(varint_bytes(2097151), vec![0xff, 0xff, 0x7f]);
    assert_eq!(varint_bytes(2147483647), vec![0xff, 0xff, 0xff, 0xff, 0x07]);
    assert_eq!(varint_bytes(-1), vec![0xff, 0xff, 0xff, 0xff, 0x0f]);
    assert_eq!(varint_bytes(-2147483648), vec![0x80, 0x80, 0x80, 0x80, 0x08]);
}

#[test]
fn varint_reads_back_and_stops_after_itself() {
    for v in [0, 1, 127, 128, 255, 25565, 2097151, i32::MAX, -1, i32::MIN, -12345] {
        let mut bytes = varint_bytes(v);
        let len = bytes.len();
        bytes.extend_from_slice(&[0xAB, 0xCD]);
        let mut c = Cursor::new(&bytes);
        assert_eq!(i32::read_var(&mut c), Some(v));
        assert_eq!(c.position(), len);
    }
}

#[test]
fn varint_refuses_a_sixth_byte_and_a_short_input() {
    let too_long = [0x80u8, 0x80, 0x80, 0x80, 0x80, 0x01];
    let mut c = Cursor::new(&too_long);
    assert_eq!(i32::read_var(&mut c), None);
    assert_eq!(c.position(), 5);

    let cut = [0x80u8, 0x80];
    let mut c = Cursor::new(&cut);
    assert_eq!(i32::read_var(&mut c), None);
    assert_eq!(c.position(), 2);

    let empty: [u8; 0] = [];
    let mut c = Cursor::new(&empty);
    assert_eq!(i32::read_var(&mut c), None);
}

#[test]
fn varint_accepts_padding_and_cuts_high_bits() {
    let padded = [0x80u8, 0x00];
    let mut c = Cursor::new(&padded);
    assert_eq!(i32::read_var(&mut c), Some(0));
    assert_eq!(c.position(), 2);

    // The fifth byte's bits above bit 31 are dropped.
    let wide = [0xffu8, 0xff, 0xff, 0xff, 0x7f];
    let mut c = Cursor::new(&wide);
    assert_eq!(i32::read_var(&mut c), Some(-1));
}

#[test]
fn varlong_known_encodings_and_roundtrip() {
    assert_eq!(varlong_bytes(0), vec![0x00]);
    assert_eq!(varlong_bytes(2147483647), vec![0xff, 0xff, 0xff, 0xff, 0x07]);
    assert_eq!(varlong_bytes(i64::MAX), vec![0xff, 0xff, 0xff, 0xff, 0xff, 0xff, 0xff, 0xff, 0x7f]);
    assert_eq!(varlong_bytes(-1), vec![0xff, 0xff, 0xff, 0xff, 0xff, 0xff, 0xff, 0xff, 0xff, 0x01]);
    assert_eq!(varlong_bytes(i64::MIN), vec![0x80, 0x80, 0x80, 0x80, 0x80, 0x80, 0x80, 0x80, 0x80, 0x01]);
    for v in [0i64, 1, 300, 1 << 40, i64::MAX, i64::MIN, -1, -5_000_000_000] {
        let bytes = varlong_bytes(v);
        assert!(bytes.len() <= 10);
        let mut c = Cursor::new(&bytes);
        assert_eq!(i64::read_var(&mut c), Some(v));
        assert_eq!(c.position(), bytes.len());
    }
}

#[test]
fn varlong_refuses_an_eleventh_byte() {
    let too_long = [0xffu8; 11];
    let mut c = Cursor::new(&too_long);
    assert_eq!(i64::read_var(&mut c), None);
    assert_eq!(c.position(), 10);
}

#[test]
fn single_bytes_and_byte_runs() {
    let data = [1u8, 2, 3];
    let mut c = Cursor::new(&data);
    assert_eq!(read_byte(&mut c), Some(1));
    assert_eq!(read_bytes(&mut c, 3), None);
    assert_eq!(c.position(), 1);
    assert_eq!(read_bytes(&mut c, 2), Some(&data[1..3]));
    assert_eq!(read_byte(&mut c), None);
    assert_eq!(c.position(), 3);
    assert_eq!(c.remaining(), 0);
}

#[test]
fn short_exact_read_moves_to_the_end() {
    let data = [9u8, 8, 7];
    let mut c = Cursor::new(&data);
    c.set_position(1);
    assert_eq!(read_exact(&mut c, 4), None);
    assert_eq!(c.position(), 3);
    let mut c = Cursor::new(&data);
    assert_eq!(u32::read_buf(&mut c), None);
    assert_eq!(c.position(), 3);
}

#[test]
fn big_endian_integers() {
    assert_eq!(written(&0x1234u16), vec![0x12, 0x34]);
    assert_eq!(written(&0x01020304u32), vec![1, 2, 3, 4]);
    assert_eq!(written(&0x0102030405060708u64), vec![1, 2, 3, 4, 5, 6, 7, 8]);
    assert_eq!(written(&-2i32), vec![0xff, 0xff, 0xff, 0xfe]);
    assert_eq!(written(&-1i8), vec![0xff]);
    assert_eq!(written(&-256i16), vec![0xff, 0x00]);
    assert_eq!(written(&i64::MIN), vec![0x80, 0, 0, 0, 0, 0, 0, 0]);

    let data = [0xffu8, 0xfe, 0x01, 0x02];
    let mut c = Cursor::new(&data);
    assert_eq!(i16::read_buf(&mut c), Some(-2));
    assert_eq!(u16::read_buf(&mut c), Some(0x0102));
    for v in [0i64, -1, 42, i64::MAX, i64::MIN] {
        let b = written(&v);
        assert_eq!(i64::read_buf(&mut Cursor::new(&b)), Some(v));
    }
    for v in [0i32, -7, i32::MAX, i32::MIN] {
        let b = written(&v);
        assert_eq!(i32::read_buf(&mut Cursor::new(&b)), Some(v));
    }
}

#[test]
fn booleans() {
    assert_eq!(written(&true), vec![1]);
    assert_eq!(written(&false), vec![0]);
    assert_eq!(bool::read_buf(&mut Cursor::new(&[1])), Some(true));
    assert_eq!(bool::read_buf(&mut Cursor::new(&[0])), Some(false));
    assert_eq!(bool::read_buf(&mut Cursor::new(&[2])), None);
    assert_eq!(bool::read_buf(&mut Cursor::new(&[])), None);
}

#[test]
fn strings() {
    assert_eq!(written(&"hello".to_string()), vec![5, b'h', b'e', b'l', b'l', b'o']);
    let e = written(&"é".to_string());
    assert_eq!(e, vec![2, 0xc3, 0xa9]);
    for s in ["", "nurtex_bot", "Привет, мир!", "a\u{1F600}b"] {
        let mut b = written(&s.to_string());
        let n = b.len();
        b.push(0x99);
        let mut c = Cursor::new(&b);
        assert_eq!(String::read_buf(&mut c), Some(s.to_string()));
        assert_eq!(c.position(), n);
    }
}

#[test]
fn strings_refused() {
    // Not UTF-8.
    let bad = [2u8, 0xc3, 0x28];
    let mut c = Cursor::new(&bad);
    assert_eq!(String::read_buf(&mut c), None);
    assert_eq!(c.position(), 3);
    // The bytes run out: the cursor stays after the length.
    let short = [4u8, b'a', b'b'];
    let mut c = Cursor::new(&short);
    assert_eq!(String::read_buf(&mut c), None);
    assert_eq!(c.position(), 1);
    // A length above 131068 bytes.
    let mut long = Vec::new();
    131069i32.write_var(&mut long).unwrap();
    assert_eq!(String::read_buf(&mut Cursor::new(&long)), None);
    // A negative length.
    let neg = varint_bytes(-1);
    assert_eq!(String::read_buf(&mut Cursor::new(&neg)), None);
    // Too long to write: nothing is written.
    let big = "x".repeat(32768);
    let mut out = vec![7u8];
    assert_eq!(big.write_buf(&mut out), Err(WriteError::StringTooLong));
    assert_eq!(out, vec![7u8]);
    let ok = "x".repeat(32767);
    let mut out = Vec::new();
    assert_eq!(ok.write_buf(&mut out), Ok(()));
    assert_eq!(out.len(), 3 + 32767);
}

#[test]
fn uuids() {
    let u = Uuid::from_u128(0x00112233_44556677_8899aabb_ccddeeff);
    let b = written(&u);
    assert_eq!(b, vec![0x00, 0x11, 0x22, 0x33, 0x44, 0x55, 0x66, 0x77, 0x88, 0x99, 0xaa, 0xbb, 0xcc, 0xdd, 0xee, 0xff]);
    let back = Uuid::read_buf(&mut Cursor::new(&b)).unwrap();
    assert_eq!(back.as_u128(), u.as_u128());
    assert_eq!(Uuid::nil().as_u128(), 0);
    let mut c = Cursor::new(&b[..10]);
    assert!(Uuid::read_buf(&mut c).is_none());
    assert_eq!(c.position(), 10);
}

#[test]
fn options_as_the_buffer_reads_them() {
    assert_eq!(written(&Some(5u8)), vec![1, 5]);
    assert_eq!(written(&None::<u8>), vec![0]);
    assert_eq!(<Option<u8>>::read_buf(&mut Cursor::new(&[1, 5])), Some(Some(5)));
    // A cleared flag is an absent value; a set flag with nothing after it, or
    // a flag byte other than 0 or 1, fails the read.
    assert_eq!(<Option<u8>>::read_buf(&mut Cursor::new(&[0])), Some(None));
    assert_eq!(<Option<u8>>::read_buf(&mut Cursor::new(&[1])), None);
    assert_eq!(<Option<u8>>::read_buf(&mut Cursor::new(&[3])), None);
    let mut c = Cursor::new(&[0, 9]);
    assert_eq!(<Option<u8>>::read_buf(&mut c), Some(None));
    assert_eq!(c.position(), 1);
}

#[test]
fn vectors() {
    assert_eq!(written(&vec![1u8, 2, 3]), vec![3, 1, 2, 3]);
    let names = vec!["a".to_string(), "bc".to_string()];
    let b = written(&names);
    assert_eq!(b, vec![2, 1, b'a', 2, b'b', b'c']);
    assert_eq!(<Vec<String>>::read_buf(&mut Cursor::new(&b)), Some(names));
    let mut c = Cursor::new(&[3u8, 1, 2]);
    assert_eq!(<Vec<u8>>::read_buf(&mut c), None);
    assert_eq!(c.position(), 3);
    assert_eq!(<Vec<u8>>::read_buf(&mut Cursor::new(&[0])), Some(vec![]));
    let too_long = vec!["x".repeat(40000)];
    let mut out = Vec::new();
    assert_eq!(too_long.write_buf(&mut out), Err(WriteError::StringTooLong));
    assert_eq!(out, vec![1]);
}
