use xim_core::codegen::{EnumFormat, RequestFormat, XimFormat};
use xim_core::frame::Frame;
use xim_core::request::ErrorCode;
use xim_core::slab::Slab;
use xim_core::text::put_decimal;
use xim_core::wire::{read_u16, read_u32, write_u16, write_u32, Attribute, Endian};

#[test]
fn integers_round_trip_both_orders() {
    for e in [Endian::Little, Endian::Big] {
        let mut out = Vec::new();
        write_u16(&mut out, 0xBEEF, e);
        write_u32(&mut out, 0xCAFEBABE, e);
        assert_eq!(out.len(), 6);
        assert_eq!(read_u16(&out, 0, e), Some(0xBEEF));
        assert_eq!(read_u32(&out, 2, e), Some(0xCAFEBABE));
        assert_eq!(read_u32(&out, 3, e), None);
    }
    let mut le = Vec::new();
    write_u32(&mut le, 0x01020304, Endian::Little);
    assert_eq!(le, vec![4, 3, 2, 1]);
    let mut be = Vec::new();
    write_u32(&mut be, 0x01020304, Endian::Big);
    assert_eq!(be, vec![1, 2, 3, 4]);
}

#[test]
fn attribute_round_trip_and_size() {
    for n in 0..9usize {
        let a = Attribute { id: 7, value: (0..n as u8).collect() };
        let mut out = Vec::new();
        a.write(&mut out, Endian::Little);
        assert_eq!(out.len(), a.size());
        assert_eq!(a.size() % 4, 0);
        out.extend_from_slice(&[0xAA, 0xBB]);
        let (b, size) = Attribute::read(&out, 0, Endian::Little).unwrap();
        assert_eq!(b.id, 7);
        assert_eq!(b.value, a.value);
        assert_eq!(size, a.size());
    }
    assert!(Attribute::read(&[1, 0, 9, 0, 1], 0, Endian::Little).is_none());
}

#[test]
fn error_codes_round_trip() {
    for v in 0..1100u16 {
        match ErrorCode::from_u16(v) {
            Some(c) => assert_eq!(c.to_u16(), v),
            None => assert!(!(1..=16).contains(&v) && v != 999),
        }
    }
    assert_eq!(ErrorCode::BadName.to_u16(), 11);
    assert_eq!(ErrorCode::from_u16(999), Some(ErrorCode::BadSomething));
}

#[test]
fn slab_ids_are_smallest_free() {
    let mut s: Slab<&str> = Slab::new();
    assert_eq!(s.new_item("a").ok(), Some(1));
    assert_eq!(s.new_item("b").ok(), Some(2));
    assert_eq!(s.new_item("c").ok(), Some(3));
    assert_eq!(s.remove_item(2), Some("b"));
    assert_eq!(s.get_item(2), None);
    assert_eq!(s.remove_item(2), None);
    assert_eq!(s.get_item(3), Some(&"c"));
    assert_eq!(s.get_item(0), None);
    assert_eq!(s.new_item("d").ok(), Some(2));
    let mut all = s.drain();
    all.sort();
    assert_eq!(all, vec![(1, "a"), (2, "d"), (3, "c")]);
    assert_eq!(s.get_item(1), None);
    assert_eq!(s.new_item("e").ok(), Some(1));
}

#[test]
fn decimal_text() {
    let mut out = Vec::new();
    put_decimal(&mut out, 0);
    out.push(b' ');
    put_decimal(&mut out, 1234567);
    assert_eq!(out, b"0 1234567".to_vec());
}

#[test]
fn enum_source_text() {
    let e = EnumFormat {
        repr: b"u8".to_vec(),
        variants: vec![(b"A".to_vec(), 1), (b"B".to_vec(), 20)],
    };
    let mut out = Vec::new();
    e.write(b"Kind", &mut out);
    let text = String::from_utf8(out).unwrap();
    assert!(text.contains("#[repr(u8)]\npub enum Kind {\nA = 1,\nB = 20,\n}\n"));
    assert!(text.contains("1 => Ok(Self::A),\n20 => Ok(Self::B),\n"));
    assert!(text.contains("reader.invalid_data(\"Kind\", repr)"));
    assert!(text.contains("std::mem::size_of::<u8>()"));
}

#[test]
fn request_source_text() {
    let x = XimFormat {
        enums: vec![],
        requests: vec![
            (
                b"Open".to_vec(),
                RequestFormat {
                    major_opcode: 30,
                    minor_opcode: None,
                    body: vec![(b"locale".to_vec(), b"BString".to_vec())],
                },
            ),
            (
                b"Close".to_vec(),
                RequestFormat {
                    major_opcode: 32,
                    minor_opcode: Some(2),
                    body: vec![
                        (b"input_method_id".to_vec(), b"u16".to_vec()),
                        (b"unused".to_vec(), b"u16".to_vec()),
                    ],
                },
            ),
        ],
    };
    let mut out = Vec::new();
    x.write(&mut out);
    let text = String::from_utf8(out).unwrap();
    assert!(text.contains("pub enum Request<'b> {\nOpen {\nlocale: BString,\n},\nClose {\ninput_method_id: u16,\nunused: u16,\n},\n}\n"));
    assert!(text.contains("(30, _) => Ok(Request::Open {\nlocale: XimFormat::read(reader)?,\n}),\n"));
    assert!(text.contains("(32, 2) => Ok(Request::Close {"));
    assert!(text.contains("Request::Open {\nlocale, } => {\n30u8.write(writer);\n0u8.write(writer);\n"));
    assert!(text.contains("content_size += input_method_id.size();\ncontent_size += unused.size();\n"));
    let open_pos = text.find("Open {").unwrap();
    let close_pos = text.find("Close {").unwrap();
    assert!(open_pos < close_pos);
}

#[test]
fn frame_round_trip_and_size() {
    for e in [Endian::Little, Endian::Big] {
        let f = Frame { major_opcode: 52, minor_opcode: 0, body: vec![1, 0, 2, 0] };
        let mut out = Vec::new();
        f.write(&mut out, e);
        assert_eq!(out.len(), f.size());
        assert_eq!((f.size() - 4) % 4, 0);
        out.push(0xFF);
        let (g, n) = Frame::read(&out, 0, e).unwrap();
        assert_eq!((g.major_opcode, g.minor_opcode), (52, 0));
        assert_eq!(g.body, f.body);
        assert_eq!(n, 8);
    }
    let mut le = Vec::new();
    Frame { major_opcode: 1, minor_opcode: 2, body: vec![9; 8] }.write(&mut le, Endian::Little);
    assert_eq!(&le[..4], &[1, 2, 2, 0]);
    assert!(Frame::read(&[1, 0, 2, 0, 0, 0, 0, 0], 0, Endian::Little).is_none());
}
