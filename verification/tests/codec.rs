use binary_stl::{
    point_eq, read_point, read_stl, read_triangle, write_point, write_stl, BinaryStlFile,
    BinaryStlHeader, Point3, Triangle,
};
use binary_stl::bytes::{read_u16_le, read_u32_le, write_u16_le, write_u32_le};
use binary_stl::StlError;

fn pt(x: f32, y: f32, z: f32) -> Point3 {
    Point3 { x: x.to_bits(), y: y.to_bits(), z: z.to_bits() }
}

fn single_triangle_file() -> BinaryStlFile {
    BinaryStlFile {
        header: BinaryStlHeader { header: vec![0u8; 80], num_triangles: 1 },
        triangles: vec![Triangle {
            normal: pt(0.0, 1.0, 0.0),
            v1: pt(0.0, 0.0, 0.0),
            v2: pt(0.0, 0.0, 1.0),
            v3: pt(1.0, 0.0, 1.0),
            attr_byte_count: 0,
        }],
    }
}

#[test]
fn write_read() {
    // Make sure we can write and read a simple file.
    let file = single_triangle_file();

    let mut buffer = Vec::new();

    match write_stl(&mut buffer, &file) {
        Ok(_) => (),
        Err(_) => panic!(),
    }

    match read_stl(&buffer) {
        Ok(stl) => {
            assert!(stl.header.num_triangles == file.header.num_triangles);
            assert!(stl.triangles.len() == 1);
            assert!(stl.triangles[0] == file.triangles[0])
        }
        Err(_) => panic!(),
    }
}

#[test]
fn encoded_single_triangle_is_134_bytes() {
    let file = single_triangle_file();
    let mut buffer = Vec::new();
    assert_eq!(write_stl(&mut buffer, &file), Ok(()));
    assert_eq!(buffer.len(), 134);

    let decoded = read_stl(&buffer).unwrap();
    assert_eq!(decoded.header.num_triangles, 1);
    assert_eq!(decoded.triangles.len(), 1);
    assert_eq!(decoded.triangles[0], file.triangles[0]);
    assert_eq!(decoded.header.header, vec![0u8; 80]);
}

#[test]
fn encoded_layout_is_little_endian() {
    let file = single_triangle_file();
    let mut buffer = Vec::new();
    assert_eq!(write_stl(&mut buffer, &file), Ok(()));
    // Count at offset 80, little-endian.
    assert_eq!(&buffer[80..84], &[1, 0, 0, 0]);
    // Normal (0.0, 1.0, 0.0): 1.0f32 is 0x3F800000, stored least byte first.
    assert_eq!(&buffer[84..88], &[0, 0, 0, 0]);
    assert_eq!(&buffer[88..92], &[0x00, 0x00, 0x80, 0x3F]);
    assert_eq!(&buffer[92..96], &[0, 0, 0, 0]);
    // v3 = (1.0, 0.0, 1.0) at offset 120.
    assert_eq!(&buffer[120..124], &[0x00, 0x00, 0x80, 0x3F]);
    // Attribute count at offset 132.
    assert_eq!(&buffer[132..134], &[0, 0]);
}

#[test]
fn decode_zero_triangle_file() {
    // An 84-byte stream declaring zero triangles decodes to an empty list.
    let buffer = vec![0u8; 84];
    let decoded = read_stl(&buffer).unwrap();
    assert_eq!(decoded.header.num_triangles, 0);
    assert!(decoded.triangles.is_empty());
    assert_eq!(decoded.header.header.len(), 80);
}

#[test]
fn decode_ignores_trailing_bytes() {
    let file = single_triangle_file();
    let mut buffer = Vec::new();
    assert_eq!(write_stl(&mut buffer, &file), Ok(()));
    buffer.extend_from_slice(&[0xAB, 0xCD, 0xEF]);
    let decoded = read_stl(&buffer).unwrap();
    assert_eq!(decoded.header.num_triangles, 1);
    assert_eq!(decoded.triangles[0], file.triangles[0]);
}

#[test]
fn decode_truncated_header_fails() {
    assert!(matches!(read_stl(&Vec::new()), Err(StlError::TruncatedHeader)));
    assert!(matches!(read_stl(&vec![0u8; 79]), Err(StlError::TruncatedHeader)));
}

#[test]
fn decode_truncated_count_fails() {
    assert!(matches!(read_stl(&vec![0u8; 80]), Err(StlError::ShortRead)));
    assert!(matches!(read_stl(&vec![0u8; 83]), Err(StlError::ShortRead)));
}

#[test]
fn decode_truncated_record_fails() {
    // Count says one triangle but only 49 of its 50 bytes follow.
    let mut buffer = vec![0u8; 80];
    buffer.extend_from_slice(&[1, 0, 0, 0]);
    buffer.extend_from_slice(&[0u8; 49]);
    assert!(matches!(read_stl(&buffer), Err(StlError::TruncatedRecord)));

    // Count says two triangles but the stream ends inside the second.
    let mut buffer = vec![0u8; 80];
    buffer.extend_from_slice(&[2, 0, 0, 0]);
    buffer.extend_from_slice(&[0u8; 50 + 17]);
    assert!(matches!(read_stl(&buffer), Err(StlError::TruncatedRecord)));
}

#[test]
fn encode_count_mismatch_fails_and_writes_nothing() {
    let mut file = single_triangle_file();
    file.header.num_triangles = 2;
    let mut buffer = Vec::new();
    assert_eq!(write_stl(&mut buffer, &file), Err(StlError::CountMismatch));
    assert!(buffer.is_empty());
}

#[test]
fn decode_preserves_record_order() {
    let t1 = Triangle {
        normal: pt(0.0, 0.0, 1.0),
        v1: pt(1.0, 2.0, 3.0),
        v2: pt(4.0, 5.0, 6.0),
        v3: pt(7.0, 8.0, 9.0),
        attr_byte_count: 7,
    };
    let t2 = Triangle {
        normal: pt(0.0, 1.0, 0.0),
        v1: pt(-1.0, -2.0, -3.0),
        v2: pt(0.5, 0.25, 0.125),
        v3: pt(100.0, 200.0, 300.0),
        attr_byte_count: 0xBEEF,
    };
    let file = BinaryStlFile {
        header: BinaryStlHeader { header: vec![0x55u8; 80], num_triangles: 2 },
        triangles: vec![t1, t2],
    };
    let mut buffer = Vec::new();
    assert_eq!(write_stl(&mut buffer, &file), Ok(()));
    assert_eq!(buffer.len(), 184);
    let decoded = read_stl(&buffer).unwrap();
    assert_eq!(decoded.triangles.len(), 2);
    assert_eq!(decoded.triangles[0], t1);
    assert_eq!(decoded.triangles[1], t2);
    assert_eq!(decoded.header.header, vec![0x55u8; 80]);
}

#[test]
fn header_bytes_pass_through_unchanged() {
    let header_bytes: Vec<u8> = (0..80u8).collect();
    let file = BinaryStlFile {
        header: BinaryStlHeader { header: header_bytes.clone(), num_triangles: 0 },
        triangles: Vec::new(),
    };
    let mut buffer = Vec::new();
    assert_eq!(write_stl(&mut buffer, &file), Ok(()));
    assert_eq!(buffer.len(), 84);
    assert_eq!(&buffer[..80], &header_bytes[..]);
    let decoded = read_stl(&buffer).unwrap();
    assert_eq!(decoded.header.header, header_bytes);
}

#[test]
fn u16_primitives_round_trip() {
    let mut out = Vec::new();
    write_u16_le(&mut out, 0x1234);
    assert_eq!(out, vec![0x34, 0x12]);
    assert_eq!(read_u16_le(&out, 0), Ok(0x1234));
    assert_eq!(read_u16_le(&out, 1), Err(StlError::ShortRead));
}

#[test]
fn u32_primitives_round_trip() {
    let mut out = Vec::new();
    write_u32_le(&mut out, 0xDEADBEEF);
    assert_eq!(out, vec![0xEF, 0xBE, 0xAD, 0xDE]);
    assert_eq!(read_u32_le(&out, 0), Ok(0xDEADBEEF));
    assert_eq!(read_u32_le(&out, 1), Err(StlError::ShortRead));
}

#[test]
fn point_codec_round_trips() {
    let p = pt(1.5, -2.25, 3.75);
    let mut out = Vec::new();
    write_point(&mut out, &p);
    assert_eq!(out.len(), 12);
    assert_eq!(read_point(&out, 0), Ok(p));
    assert_eq!(read_point(&out, 1), Err(StlError::ShortRead));
}

#[test]
fn triangle_codec_round_trips() {
    let t = Triangle {
        normal: pt(0.0, 0.0, 1.0),
        v1: pt(1.25, 0.0, 0.0),
        v2: pt(0.0, 1.25, 0.0),
        v3: pt(0.0, 0.0, 1.25),
        attr_byte_count: 42,
    };
    let file = BinaryStlFile {
        header: BinaryStlHeader { header: vec![0u8; 80], num_triangles: 1 },
        triangles: vec![t],
    };
    let mut buffer = Vec::new();
    assert_eq!(write_stl(&mut buffer, &file), Ok(()));
    assert_eq!(read_triangle(&buffer, 84), Ok(t));
    assert_eq!(read_triangle(&buffer, 85), Err(StlError::TruncatedRecord));
}

#[test]
fn reencoding_a_decoded_file_reproduces_the_bytes() {
    // A hand-built stream with two records of distinct bytes.
    let mut stream: Vec<u8> = (0..80u8).collect();
    stream.extend_from_slice(&[2, 0, 0, 0]);
    for i in 0..100u8 {
        stream.push(i.wrapping_mul(3));
    }
    let mut with_trailing = stream.clone();
    with_trailing.extend_from_slice(&[9, 9, 9]);

    let decoded = read_stl(&with_trailing).unwrap();
    let mut out = Vec::new();
    assert_eq!(write_stl(&mut out, &decoded), Ok(()));
    // Exactly the consumed prefix comes back; the trailing bytes do not.
    assert_eq!(out, stream);
}

#[test]
fn point_equality_is_exact() {
    let a = pt(1.0, 2.0, 3.0);
    let b = pt(1.0, 2.0, 3.0);
    let c = pt(1.0, 2.0, 3.0000002);
    assert!(point_eq(&a, &b));
    assert!(!point_eq(&a, &c));
    // 0.0 and -0.0 differ bitwise, and the codec never normalizes bits.
    assert!(!point_eq(&pt(0.0, 0.0, 0.0), &pt(-0.0, 0.0, 0.0)));
}
