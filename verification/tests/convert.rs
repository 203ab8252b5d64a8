use unterflow::convert::{BlockLength, Cursor, Data, FromBytes, ToBytes};
use unterflow::enumeration::{discriminants, from_bytes_variant, variant_of, Width};
use unterflow::errors::{DecodeError, EncodeError};
use unterflow::layout::{block_length_of, Field};
use unterflow::protocol::client::EventType;
use unterflow::protocol::gossip::PeerState;
use unterflow::protocol::log::FsLogSegment;

#[derive(Debug, PartialEq)]
enum Letter {
    A,
    B,
    C,
    D,
    Unknown,
}

fn letter(position: Option<usize>) -> Letter {
    match position {
        Some(0) => Letter::A,
        Some(1) => Letter::B,
        Some(2) => Letter::C,
        Some(3) => Letter::D,
        _ => Letter::Unknown,
    }
}

#[derive(Debug, PartialEq)]
struct Foo {
    foo: u16,
    bar: Letter,
    baz: Baz,
}

#[derive(Debug, PartialEq)]
struct Baz {
    baz: u16,
    bar: Letter,
}

#[derive(Debug, PartialEq)]
struct Group {
    foo: u16,
    bar: Vec<Bar>,
    baz: Data,
}

#[derive(Debug, PartialEq)]
struct Bar {
    bar: u16,
    baz: String,
}

#[test]
fn convert_test_derive_from_bytes_struct() {
    let bytes = vec![1, 2, 3, 4, 5, 6, 7, 1, 3, 0, 8, 9, 10, 4, 0, 97, 98, 99, 100];
    let mut reader = Cursor::new(bytes);
    let foo = <(u8, u16, u32, bool, Data, String)>::from_bytes(&mut reader).unwrap();

    assert_eq!(foo.0, 1);
    assert_eq!(foo.1, 770);
    assert_eq!(foo.2, 117835012);
    assert_eq!(foo.3, true);
    assert_eq!(foo.4, Data(vec![8, 9, 10]));
    assert_eq!(foo.5, "abcd");
    assert_eq!(reader.position(), 19);

    // the same without the boolean
    let bytes = vec![1, 2, 3, 4, 5, 6, 7, 3, 0, 8, 9, 10, 4, 0, 97, 98, 99, 100];
    let mut reader = Cursor::new(bytes);
    let foo = <(u8, u16, u32, Data, String)>::from_bytes(&mut reader).unwrap();

    assert_eq!(foo.0, 1);
    assert_eq!(foo.1, 770);
    assert_eq!(foo.2, 117835012);
    assert_eq!(foo.3, Data(vec![8, 9, 10]));
    assert_eq!(foo.4, "abcd");
}

#[test]
fn convert_test_derive_from_bytes_enum() {
    // the variants A, B, C = 100 and D = 122
    let table = discriminants(&[None, None, Some(100), Some(122)]);
    let mut reader = Cursor::new(vec![0, 1, 100, 122, 233]);
    let mut next = || letter(from_bytes_variant(&table, Width::U8, &mut reader).unwrap());

    assert_eq!(next(), Letter::A);
    assert_eq!(next(), Letter::B);
    assert_eq!(next(), Letter::C);
    assert_eq!(next(), Letter::D);
    assert_eq!(next(), Letter::Unknown);
}

#[test]
fn convert_test_derive_from_bytes_enum_type() {
    // the variants A and B = 16909060, with discriminants of four bytes
    let table = discriminants(&[None, Some(16909060)]);
    let mut reader = Cursor::new(vec![0, 0, 0, 0, 4, 3, 2, 1, 1, 0, 0, 0]);
    let mut next = || letter(from_bytes_variant(&table, Width::U32, &mut reader).unwrap());

    assert_eq!(next(), Letter::A);
    assert_eq!(next(), Letter::B);
    assert_eq!(next(), Letter::Unknown);
}

#[test]
fn convert_test_derive_from_bytes_nested() {
    // the variants A and B
    let table = discriminants(&[None, None]);
    let mut reader = Cursor::new(vec![12, 0, 1, 0, 2, 0]);
    let (foo, bar, (baz, inner)) = <(u16, u8, (u16, u8))>::from_bytes(&mut reader).unwrap();
    let foo = Foo {
        foo,
        bar: letter(variant_of(&table, bar as u64)),
        baz: Baz { baz, bar: letter(variant_of(&table, inner as u64)) },
    };

    assert_eq!(
        foo,
        Foo { foo: 12, bar: Letter::B, baz: Baz { baz: 512, bar: Letter::A } }
    );
}

#[test]
fn test_derive_from_bytes_group_encoding() {
    let bytes = vec![
        12, 0, 2, 0, 3, 1, 0, 3, 0, 102, 111, 111, 2, 0, 3, 0, 98, 97, 114, 3, 0, 3, 0, 98, 97,
        122, 3, 0, 1, 2, 3,
    ];
    let mut reader = Cursor::new(bytes);
    let (foo, bar, baz) = <(u16, Vec<(u16, String)>, Data)>::from_bytes(&mut reader).unwrap();
    let foo = Group {
        foo,
        bar: bar.into_iter().map(|(bar, baz)| Bar { bar, baz }).collect(),
        baz,
    };

    assert_eq!(
        foo,
        Group {
            foo: 12,
            bar: vec![
                Bar { bar: 1, baz: "foo".to_string() },
                Bar { bar: 2, baz: "bar".to_string() },
                Bar { bar: 3, baz: "baz".to_string() },
            ],
            baz: Data(vec![1, 2, 3]),
        }
    );
}

#[test]
fn convert_test_derive_enum_default() {
    assert_eq!(PeerState::default(), PeerState::Unknown);
    assert_eq!(<(u16, PeerState)>::default(), (0, PeerState::Unknown));
}

#[test]
fn convert_test_derive_block_length_struct() {
    assert_eq!(<(u8, u64, Vec<(u16, u16)>, Data, String)>::block_length(), 9);
    assert_eq!(<(u8, u64, Vec<u8>, String)>::block_length(), 9);
}

#[test]
fn convert_test_derive_block_length_enum() {
    assert_eq!(Width::default().block_length(), 1);
    assert_eq!(EventType::block_length(), 1);
}

#[test]
fn convert_test_derive_block_length_enum_type() {
    assert_eq!(Width::U64.block_length(), 8);
}

#[test]
fn convert_test_derive_block_length_nested() {
    // an enumeration of type u32 takes the block of a u32
    assert_eq!(Width::U32.block_length(), u32::block_length());
    assert_eq!(<(u16, u32, (u16, u32))>::block_length(), 12);
}

#[test]
fn primitive_block_lengths_are_their_widths() {
    assert_eq!(u8::block_length(), 1);
    assert_eq!(i8::block_length(), 1);
    assert_eq!(u16::block_length(), 2);
    assert_eq!(i16::block_length(), 2);
    assert_eq!(u32::block_length(), 4);
    assert_eq!(i32::block_length(), 4);
    assert_eq!(u64::block_length(), 8);
    assert_eq!(i64::block_length(), 8);
    assert_eq!(bool::block_length(), 1);
    assert_eq!(String::block_length(), 0);
    assert_eq!(Data::block_length(), 0);
    assert_eq!(Vec::<u64>::block_length(), 0);
}

#[test]
fn block_length_of_a_tuple_is_capped() {
    type Six = (
        FsLogSegment,
        FsLogSegment,
        FsLogSegment,
        FsLogSegment,
        FsLogSegment,
        FsLogSegment,
    );
    assert_eq!(<Six>::block_length(), 24576);
    assert_eq!(<(Six, Six)>::block_length(), 49152);
    assert_eq!(<(Six, Six, Six)>::block_length(), 65535);
}

#[test]
fn integers_are_little_endian() {
    let bytes = vec![0x01, 0x02, 0x03, 0x04, 0x05, 0x06, 0x07, 0x08];
    assert_eq!(u8::decode(&bytes, 0), Ok((0x01, 1)));
    assert_eq!(u16::decode(&bytes, 0), Ok((0x0201, 2)));
    assert_eq!(u32::decode(&bytes, 0), Ok((0x04030201, 4)));
    assert_eq!(u64::decode(&bytes, 0), Ok((0x0807060504030201, 8)));
    assert_eq!(u16::decode(&bytes, 3), Ok((0x0504, 5)));
    assert_eq!(u32::decode(&bytes, 4), Ok((0x08070605, 8)));
}

#[test]
fn signed_integers_are_twos_complement() {
    let bytes = vec![0xFE, 0xFF, 0xFF, 0xFF, 0xFF, 0xFF, 0xFF, 0xFF];
    assert_eq!(i8::decode(&bytes, 0), Ok((-2, 1)));
    assert_eq!(i16::decode(&bytes, 0), Ok((-2, 2)));
    assert_eq!(i32::decode(&bytes, 0), Ok((-2, 4)));
    assert_eq!(i64::decode(&bytes, 0), Ok((-2, 8)));
    assert_eq!(i8::decode(&[0x7F], 0), Ok((127, 1)));
    assert_eq!(i8::decode(&[0x80], 0), Ok((-128, 1)));
    assert_eq!(i16::decode(&[0x00, 0x80], 0), Ok((i16::MIN, 2)));
    assert_eq!(i32::decode(&[0xFF, 0xFF, 0xFF, 0x7F], 0), Ok((i32::MAX, 4)));
}

#[test]
fn integers_are_written_little_endian() {
    let mut out = vec![9];
    0x0201u16.to_bytes(&mut out).unwrap();
    0x06050403u32.to_bytes(&mut out).unwrap();
    0x0E0D0C0B0A090807u64.to_bytes(&mut out).unwrap();
    assert_eq!(out, vec![9, 1, 2, 3, 4, 5, 6, 7, 8, 9, 10, 11, 12, 13, 14]);

    let mut out = Vec::new();
    (-2i8).to_bytes(&mut out).unwrap();
    (-2i16).to_bytes(&mut out).unwrap();
    (-2i32).to_bytes(&mut out).unwrap();
    (-2i64).to_bytes(&mut out).unwrap();
    let mut expected = vec![0xFE, 0xFE, 0xFF, 0xFE, 0xFF, 0xFF, 0xFF, 0xFE];
    expected.extend_from_slice(&[0xFF; 7]);
    assert_eq!(out, expected);
}

#[test]
fn a_short_input_is_an_unexpected_end() {
    assert_eq!(u8::decode(&[], 0), Err(DecodeError::UnexpectedEof));
    assert_eq!(u16::decode(&[1], 0), Err(DecodeError::UnexpectedEof));
    assert_eq!(u32::decode(&[1, 2, 3], 0), Err(DecodeError::UnexpectedEof));
    assert_eq!(u64::decode(&[1, 2, 3, 4, 5, 6, 7], 0), Err(DecodeError::UnexpectedEof));
    assert_eq!(i64::decode(&[1, 2, 3, 4, 5, 6, 7, 8], 1), Err(DecodeError::UnexpectedEof));
    assert_eq!(u8::decode(&[1], 7), Err(DecodeError::UnexpectedEof));
    assert_eq!(bool::decode(&[], 0), Err(DecodeError::UnexpectedEof));
    // a string that announces more bytes than there are
    assert_eq!(String::decode(&[4, 0, 97, 98, 99], 0), Err(DecodeError::UnexpectedEof));
    assert_eq!(Data::decode(&[4, 0, 97, 98, 99], 0), Err(DecodeError::UnexpectedEof));
    assert_eq!(Data::decode(&[4], 0), Err(DecodeError::UnexpectedEof));
    // a group that announces more elements than there are
    assert_eq!(Vec::<u16>::decode(&[2, 0, 2, 1, 0, 2], 0), Err(DecodeError::UnexpectedEof));
    assert_eq!(Vec::<u16>::decode(&[2, 0], 0), Err(DecodeError::UnexpectedEof));
}

#[test]
fn a_failed_read_leaves_the_cursor_where_it_was() {
    let mut reader = Cursor::new(vec![1, 0, 4, 0, 97]);
    assert_eq!(u16::from_bytes(&mut reader), Ok(1));
    assert_eq!(reader.position(), 2);
    assert_eq!(String::from_bytes(&mut reader), Err(DecodeError::UnexpectedEof));
    assert_eq!(reader.position(), 2);
    assert_eq!(<(u16, u8, u8)>::from_bytes(&mut reader), Err(DecodeError::UnexpectedEof));
    assert_eq!(reader.position(), 2);
    assert_eq!(u16::from_bytes(&mut reader), Ok(4));
    assert_eq!(reader.position(), 4);
    assert_eq!(reader.remaining(), 1);
}

#[test]
fn bytes_that_are_no_value_are_read_all_the_same() {
    // a boolean that is none: its byte is read
    let mut reader = Cursor::new(vec![1, 0, 2, 1]);
    assert_eq!(bool::from_bytes(&mut reader), Ok(true));
    assert_eq!(reader.position(), 1);
    assert_eq!(bool::from_bytes(&mut reader), Ok(false));
    assert_eq!(reader.position(), 2);
    assert_eq!(bool::from_bytes(&mut reader), Err(DecodeError::InvalidBoolean(2)));
    assert_eq!(reader.position(), 3);
    assert_eq!(bool::from_bytes(&mut reader), Ok(true));
    assert_eq!(reader.position(), 4);
    assert_eq!(bool::from_bytes(&mut reader), Err(DecodeError::UnexpectedEof));
    assert_eq!(reader.position(), 4);

    // a string that is no text: its length and its bytes are read
    let mut reader = Cursor::new(vec![9, 2, 0, 0xFF, 0xFE, 7]);
    reader.set_position(1);
    assert_eq!(String::from_bytes(&mut reader), Err(DecodeError::InvalidUtf8));
    assert_eq!(reader.position(), 5);
    assert_eq!(u8::from_bytes(&mut reader), Ok(7));

    // in a struct and in a group: all up to the byte that is no boolean
    let mut reader = Cursor::new(vec![5, 0, 1, 9, 7, 7]);
    assert_eq!(
        <(u16, bool, bool, u16)>::from_bytes(&mut reader),
        Err(DecodeError::InvalidBoolean(9))
    );
    assert_eq!(reader.position(), 4);
    let mut reader = Cursor::new(vec![1, 0, 3, 1, 0, 7, 1]);
    assert_eq!(Vec::<bool>::from_bytes(&mut reader), Err(DecodeError::InvalidBoolean(7)));
    assert_eq!(reader.position(), 6);
}

#[test]
fn a_decoding_that_fails_says_where_it_stopped() {
    assert_eq!(u32::read_at(&[1, 2, 3, 4, 5], 1), Ok((0x05040302, 5)));
    assert_eq!(u32::read_at(&[1, 2, 3, 4, 5], 2), Err((DecodeError::UnexpectedEof, 2)));
    assert_eq!(bool::read_at(&[0, 5], 1), Err((DecodeError::InvalidBoolean(5), 2)));
    // the length of a blob is read, its bytes are not all there
    assert_eq!(Data::read_at(&[9, 4, 0, 1, 2], 1), Err((DecodeError::UnexpectedEof, 3)));
    assert_eq!(String::read_at(&[1, 0, 0xFF, 7], 0), Err((DecodeError::InvalidUtf8, 3)));
    // the second part of a struct is not all there
    assert_eq!(<(u16, u32)>::read_at(&[1, 0, 2, 0], 0), Err((DecodeError::UnexpectedEof, 2)));
    // the second element of a group is not all there
    assert_eq!(
        Vec::<u16>::read_at(&[2, 0, 2, 1, 0, 2], 0),
        Err((DecodeError::UnexpectedEof, 5))
    );
    assert_eq!(Vec::<u16>::read_at(&[2, 0], 0), Err((DecodeError::UnexpectedEof, 0)));
}

#[test]
fn a_cursor_behind_its_data_reads_nothing() {
    let mut reader = Cursor::new(vec![1, 2]);
    reader.set_position(10);
    assert_eq!(reader.remaining(), 0);
    assert_eq!(reader.offset(), 2);
    assert_eq!(u8::from_bytes(&mut reader), Err(DecodeError::UnexpectedEof));
    assert_eq!(reader.position(), 10);
    assert_eq!(reader.get_ref(), &vec![1, 2]);
    assert_eq!(reader.into_inner(), vec![1, 2]);
}

#[test]
fn booleans_are_strict() {
    assert_eq!(bool::decode(&[0], 0), Ok((false, 1)));
    assert_eq!(bool::decode(&[1], 0), Ok((true, 1)));
    assert_eq!(bool::decode(&[2], 0), Err(DecodeError::InvalidBoolean(2)));
    assert_eq!(bool::decode(&[255], 0), Err(DecodeError::InvalidBoolean(255)));
    for byte in 2..=255u8 {
        assert_eq!(bool::decode(&[byte], 0), Err(DecodeError::InvalidBoolean(byte)));
    }
}

#[test]
fn strings_are_utf8() {
    assert_eq!(String::decode(&[0, 0], 0), Ok((String::new(), 2)));
    assert_eq!(String::decode(&[2, 0, 0xC3, 0xA4], 0), Ok(("ä".to_string(), 4)));
    assert_eq!(String::decode(&[1, 0, 0xC3], 0), Err(DecodeError::InvalidUtf8));
    assert_eq!(String::decode(&[2, 0, 0xFF, 0xFE], 0), Err(DecodeError::InvalidUtf8));
    // a blob takes any bytes
    assert_eq!(Data::decode(&[2, 0, 0xFF, 0xFE], 0), Ok((Data(vec![0xFF, 0xFE]), 4)));
}

#[test]
fn strings_and_blobs_are_written_with_their_length() {
    let mut out = Vec::new();
    "abcd".to_string().to_bytes(&mut out).unwrap();
    Data(vec![8, 9, 10]).to_bytes(&mut out).unwrap();
    "ä".to_string().to_bytes(&mut out).unwrap();
    assert_eq!(out, vec![4, 0, 97, 98, 99, 100, 3, 0, 8, 9, 10, 2, 0, 0xC3, 0xA4]);
}

#[test]
fn an_empty_group_is_a_group() {
    assert_eq!(Vec::<u16>::decode(&[2, 0, 0], 0), Ok((vec![], 3)));
    assert_eq!(Vec::<String>::decode(&[0, 0, 0, 7], 0), Ok((vec![], 3)));
}

#[test]
fn the_hint_of_a_group_is_passed_over() {
    assert_eq!(Vec::<u16>::decode(&[2, 0, 2, 1, 0, 2, 0], 0), Ok((vec![1, 2], 7)));
    assert_eq!(Vec::<u16>::decode(&[99, 7, 2, 1, 0, 2, 0], 0), Ok((vec![1, 2], 7)));
}

#[test]
fn a_group_is_written_with_the_block_length_of_an_element() {
    let mut out = Vec::new();
    vec![1u16, 2u16].to_bytes(&mut out).unwrap();
    assert_eq!(out, vec![2, 0, 2, 1, 0, 2, 0]);

    let mut out = Vec::new();
    vec![(7u32, "a".to_string())].to_bytes(&mut out).unwrap();
    assert_eq!(out, vec![4, 0, 1, 7, 0, 0, 0, 1, 0, 97]);

    let mut out = Vec::new();
    Vec::<u64>::new().to_bytes(&mut out).unwrap();
    assert_eq!(out, vec![8, 0, 0]);
}

#[test]
fn an_element_that_fails_fails_the_group() {
    assert_eq!(
        Vec::<bool>::decode(&[1, 0, 3, 1, 0, 7], 0),
        Err(DecodeError::InvalidBoolean(7))
    );
}

#[test]
fn what_has_no_encoding_is_not_written() {
    let mut out = vec![1, 2, 3];
    let long = Data(vec![0; 65536]);
    assert!(!long.is_encodable());
    assert_eq!(long.to_bytes(&mut out), Err(EncodeError::Unrepresentable));
    assert_eq!(out, vec![1, 2, 3]);

    let text = "a".repeat(65536);
    assert_eq!(text.to_bytes(&mut out), Err(EncodeError::Unrepresentable));
    assert_eq!(out, vec![1, 2, 3]);

    let many = vec![0u8; 256];
    assert_eq!(many.to_bytes(&mut out), Err(EncodeError::Unrepresentable));
    assert_eq!(out, vec![1, 2, 3]);

    let nested = (1u8, vec![Data(vec![]), Data(vec![0; 65536])]);
    assert_eq!(nested.to_bytes(&mut out), Err(EncodeError::Unrepresentable));
    assert_eq!(out, vec![1, 2, 3]);

    // the longest that fit
    let mut out = Vec::new();
    Data(vec![7; 65535]).to_bytes(&mut out).unwrap();
    assert_eq!(out.len(), 65537);
    assert_eq!(&out[..3], &[0xFF, 0xFF, 7]);
    let mut out = Vec::new();
    vec![5u8; 255].to_bytes(&mut out).unwrap();
    assert_eq!(out.len(), 258);
    assert_eq!(&out[..4], &[1, 0, 255, 5]);
}

#[test]
fn what_was_encoded_decodes_to_itself() {
    let value = (
        0xBEEFu16,
        -5i32,
        true,
        "default-topic".to_string(),
        Data(vec![1, 2, 3, 4]),
        vec![(1u8, "x".to_string()), (2u8, String::new())],
    );
    let mut out = vec![0xAA];
    value.to_bytes(&mut out).unwrap();
    out.push(0xBB);
    let (decoded, next) = <(u16, i32, bool, String, Data, Vec<(u8, String)>)>::decode(&out, 1)
        .unwrap();
    assert_eq!(decoded, value);
    assert_eq!(next, out.len() - 1);
}

#[test]
fn a_struct_of_integers_and_a_blob_decodes_field_by_field() {
    let bytes = vec![12, 0, 13, 0, 0, 0, 14, 0, 0, 0, 0, 0, 0, 0, 4, 0, 1, 2, 3, 4];
    let (a, b, c, d) = <(u16, u32, u64, Data)>::decode(&bytes, 0).unwrap().0;
    assert_eq!(a, 12);
    assert_eq!(b, 13);
    assert_eq!(c, 14);
    assert_eq!(d, Data(vec![1, 2, 3, 4]));
    assert_eq!(d.len(), 4);
    assert!(!d.is_empty());
    assert_eq!(d.to_vec(), vec![1, 2, 3, 4]);
    assert_eq!(d.first(), Some(&1));
    assert_eq!(Vec::<u8>::from(d), vec![1, 2, 3, 4]);
}

#[test]
fn skipping_a_block_moves_over_the_fixed_part() {
    let mut reader = Cursor::new(vec![0; 10]);
    assert_eq!(u64::skip_block(&mut reader), Ok(8));
    assert_eq!(reader.position(), 8);
    assert_eq!(u16::skip_block(&mut reader), Ok(10));
    assert_eq!(u8::skip_block(&mut reader), Err(DecodeError::UnexpectedEof));
    assert_eq!(reader.position(), 10);
    assert_eq!(String::skip_block(&mut reader), Ok(10));
}

#[test]
fn a_discriminant_of_no_variant_is_unknown() {
    let table = discriminants(&[None, None, Some(100), Some(122)]);
    assert_eq!(table, vec![0, 1, 100, 122]);
    assert_eq!(variant_of(&table, 0), Some(0));
    assert_eq!(variant_of(&table, 122), Some(3));
    assert_eq!(variant_of(&table, 2), None);
    assert_eq!(variant_of(&table, u64::MAX), None);
    assert_eq!(variant_of(&[], 0), None);
    // the first of two variants with one discriminant
    assert_eq!(variant_of(&[5, 5], 5), Some(0));
    let mut reader = Cursor::new(vec![1, 0]);
    assert_eq!(from_bytes_variant(&table, Width::U16, &mut reader), Ok(Some(1)));
    assert_eq!(
        from_bytes_variant(&table, Width::U8, &mut reader),
        Err(DecodeError::UnexpectedEof)
    );
    assert_eq!(reader.position(), 2);
    assert_eq!(Width::U64.decode(&[1, 0, 0, 0, 0, 0, 0, 1], 0), Ok((0x0100000000000001, 8)));
}

#[test]
fn the_block_length_of_a_struct_is_the_sum_over_its_fixed_fields() {
    let a = Field::fixed::<u8>();
    let b = Field::fixed::<u64>();
    let c = Field::Variable;
    assert_eq!(a, Field::Fixed(1));
    assert_eq!(Field::fixed::<EventType>(), Field::Fixed(1));
    assert_eq!(Field::fixed::<FsLogSegment>(), Field::Fixed(4096));
    assert_eq!(block_length_of(&[a, b, c, c, c]), 9);
    // in any order
    assert_eq!(block_length_of(&[c, b, c, a, c]), 9);
    assert_eq!(block_length_of(&[c, c, c, b, a]), 9);
    assert_eq!(block_length_of(&[]), 0);
    assert_eq!(block_length_of(&[c, c]), 0);
    assert_eq!(block_length_of(&[Field::Fixed(2), Field::Fixed(4), Field::Fixed(6)]), 12);
    assert_eq!(block_length_of(&[Field::Fixed(65535), c, Field::Fixed(1)]), 65535);
    assert_eq!(block_length_of(&[Field::Fixed(40000), Field::Fixed(25535)]), 65535);
    assert_eq!(block_length_of(&[Field::Fixed(40000), Field::Fixed(25534)]), 65534);
}
