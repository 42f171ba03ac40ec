use smoldr::check::{
    check_expect, check_shader_ids, compare_close, compare_exact, expect_range, ExpectError,
    ExpectRangeError,
};
use smoldr::content::{resolve_value, resolve_values};
use smoldr::names::IdentifierIdx;
use smoldr::null_backend::NullBuffers;
use smoldr::parser::statements::parse_str;
use smoldr::report::{aligned_buffer_format, create_expect_help, dump_lines};
use smoldr::script::{
    total_bytes, Directive, DumpFormat, Fill, NumberForm, NumberLiteral, UnresolvedValue,
    UnresolvedValueContent,
};
use smoldr::text::{
    comma_join, comma_join_lowercase, decimal, join, repeated, right_align, until_char,
};
use smoldr::value::{push_le, read_le, slice_bytes, DataType, Value, Values};

fn u32s(values: &[u32]) -> Values {
    Values { data: values.iter().map(|v| Value::U32(*v)).collect() }
}

fn texts(values: &[&str]) -> Vec<String> {
    values.iter().map(|v| v.to_string()).collect()
}

/// The content of the only buffer of a script.
fn content(text: &str) -> UnresolvedValueContent {
    match parse_str(text).unwrap().pop().unwrap() {
        Directive::Buffer { content, .. } => content,
        _ => panic!(),
    }
}

#[test]
fn values_have_bytes() {
    assert_eq!(Value::U32(0x01020304).to_data(), vec![4, 3, 2, 1]);
    assert_eq!(Value::F32(1.5f32.to_bits()).to_data(), 1.5f32.to_le_bytes().to_vec());
    for value in [
        Value::U64(u64::MAX - 3),
        Value::U32(7),
        Value::U16(0x1234),
        Value::U8(255),
        Value::F32((-2.5f32).to_bits()),
        Value::F16(0x3c00),
    ] {
        let data = value.to_data();
        assert_eq!(data.len(), value.len());
        assert_eq!(Value::from_data(value.get_type(), &data), value);
        assert_eq!(Value::from_bits(value.get_type(), value.to_bits()), value);
    }
    let mut bytes = vec![9];
    push_le(&mut bytes, 0x0102_0304, 3);
    assert_eq!(bytes, vec![9, 4, 3, 2]);
    assert_eq!(read_le(&bytes, 1, 4), 0x020304);
}

#[test]
fn lists_of_values_have_bytes() {
    let values = Values { data: vec![Value::U16(1), Value::U32(2), Value::U8(3)] };
    assert_eq!(values.byte_len(), 7);
    let data = values.get_data();
    assert_eq!(data, vec![1, 0, 2, 0, 0, 0, 3]);
    assert_eq!(Values::from_data_using_types(&data, &values), values);
    assert_eq!(slice_bytes(&data, 2, 6), vec![2, 0, 0, 0]);
    let mut filled = vec![0; 7];
    values.fill(&mut filled);
    assert_eq!(filled, data);
    let typed = Values::from_data(DataType::U16, &vec![1, 0, 2, 0]);
    assert_eq!(typed.data, vec![Value::U16(1), Value::U16(2)]);
    assert_eq!(typed.get_data(), vec![1, 0, 2, 0]);
}

#[test]
fn integers_are_close_up_to_epsilon() {
    let close = |a, b, e| Value::U8(a).compare_epsilon(Value::U8(b), Value::U8(e), false);
    assert!(close(5, 7, 2));
    assert!(close(7, 5, 2));
    assert!(!close(5, 8, 2));
    assert!(close(5, 5, 0));
    assert!(!close(0, 255, 254));
    assert!(Value::U64(1).compare_epsilon(Value::U64(3), Value::U64(2), false));
    assert!(Value::F32(0).compare_epsilon(Value::F32(1), Value::F32(0), true));
    assert!(!Value::F32(0).compare_epsilon(Value::F32(1), Value::F32(0), false));
    assert_eq!(
        u32s(&[1, 5, 9]).compare_epsilon(&u32s(&[2, 7, 0]), Value::U32(1), &vec![false; 3]),
        Err(1)
    );
    assert_eq!(
        u32s(&[1, 5]).compare_epsilon(&u32s(&[2, 4]), Value::U32(1), &vec![false; 2]),
        Ok(())
    );
}

#[test]
fn arrays_are_filled() {
    let c = content("BUFFER b DATA_TYPE uint16 SIZE 4 SERIES_FROM 65534 INC_BY 1");
    assert_eq!(c.len(), 8);
    let resolved = c.resolve(&vec![0, 0]);
    assert_eq!(resolved.len(), 8);
    // Each element is the one before it plus the increment, within its type
    assert_eq!(resolved.fill(&vec![]), vec![0xfe, 0xff, 0xff, 0xff, 0, 0, 1, 0]);
    let c = content("BUFFER b DATA_TYPE uint8 SIZE 3 FILL 7");
    assert_eq!(c.resolve(&vec![0]).fill(&vec![]), vec![7, 7, 7]);
    let c = content("BUFFER b DATA_TYPE float SIZE 2 SERIES_FROM 1 INC_BY .25");
    let resolved = c.resolve(&vec![1f32.to_bits() as u64, 0.25f32.to_bits() as u64]);
    let series = vec![1f32.to_bits() as u64, 1.25f32.to_bits() as u64];
    let mut expected = 1f32.to_le_bytes().to_vec();
    expected.extend(1.25f32.to_le_bytes());
    assert_eq!(resolved.fill(&series), expected);
}

#[test]
fn raw_values_follow_each_other() {
    let c = content("BUFFER b RAW 20\n uint32 3 4\n float 1.0\n GPUVA buffer\nEND");
    assert_eq!(c.len(), 20);
    let resolved = c.resolve(&vec![0, 0, 1f32.to_bits() as u64, 0x1122_3344_5566_7788]);
    let data = resolved.fill(&vec![]);
    assert_eq!(data.len(), 20);
    assert_eq!(&data[0..4], &[3, 0, 0, 0]);
    assert_eq!(&data[4..8], &[4, 0, 0, 0]);
    assert_eq!(&data[8..12], &1f32.to_le_bytes());
    assert_eq!(&data[12..20], &0x1122_3344_5566_7788u64.to_le_bytes());
    // There are zeros behind the values
    let c = content("BUFFER b RAW 128\n uint32 3 4\n float 1.0\n GPUVA buffer\nEND");
    assert_eq!(c.len(), 128);
    let resolved = c.resolve(&vec![0, 0, 1f32.to_bits() as u64, 0x1122_3344_5566_7788]);
    assert_eq!(resolved.len(), 128);
    let padded = resolved.fill(&vec![]);
    assert_eq!(&padded[..20], &data[..]);
    assert_eq!(&padded[20..], &[0; 108]);
    let c = content("BUFFER b RAW 3\nEND");
    assert_eq!(c.resolve(&vec![]).fill(&vec![]), vec![0; 3]);
}

#[test]
fn values_are_resolved() {
    let literal = NumberLiteral {
        negative: false,
        form: NumberForm::Decimal,
        digits: "1".to_string(),
    };
    let values = vec![
        UnresolvedValue::Resolved(Value::U8(3)),
        UnresolvedValue::F16(literal.clone()),
    ];
    assert_eq!(total_bytes(&values), 3);
    assert_eq!(resolve_value(&values[0], 9), Value::U8(3));
    assert_eq!(
        resolve_values(&values, &vec![0, 0x3c00]).data,
        vec![Value::U8(3), Value::F16(0x3c00)]
    );
    assert_eq!(UnresolvedValue::F32(literal.clone()).get_type(), DataType::F32);
    assert_eq!(UnresolvedValue::F32(literal).len(), 4);
    match content("BUFFER b DATA_TYPE float16 SIZE 2 FILL 1") {
        UnresolvedValueContent::Typed { fill: Fill::Const(UnresolvedValue::F16(_)), .. } => {}
        _ => panic!(),
    }
}

#[test]
fn buffers_are_checked() {
    let data = vec![1, 0, 0, 0, 2, 0, 0, 0, 3, 0, 0, 0];
    let check = |offset, values: &[u32], epsilon, ignore| {
        let close = vec![false; values.len()];
        check_expect(offset, &u32s(values), epsilon, &close, &data, ignore)
    };
    assert_eq!(check(0, &[1, 2, 3], None, false), Ok(()));
    assert_eq!(check(4, &[2], None, false), Ok(()));
    assert_eq!(check(0, &[2, 2], Some(Value::U32(1)), false), Ok(()));
    match check(4, &[2, 4], None, false) {
        Err(ExpectError::Content(m)) => {
            assert_eq!(m.index, 1);
            assert_eq!(m.buffer_content, u32s(&[2, 3]));
        }
        _ => panic!(),
    }
    match check(0, &[3, 9], Some(Value::U32(1)), false) {
        Err(ExpectError::Content(m)) => assert_eq!(m.index, 0),
        _ => panic!(),
    }
    assert_eq!(check(0, &[9], None, true), Ok(()));
    // The allowed difference does not matter if nothing is compared
    assert_eq!(check(0, &[9], Some(Value::U8(0)), true), Ok(()));
    assert!(check(12, &[9], Some(Value::U8(0)), false).is_err());
    let out = ExpectRangeError::OutOfBounds { buffer_size: 12, offset: 8, expect_size: 8 };
    assert_eq!(check(8, &[3, 4], None, true), Err(ExpectError::Range(out)));
    assert_eq!(expect_range(8, &u32s(&[0]), &data), Ok(vec![3, 0, 0, 0]));
    assert!(expect_range(13, &u32s(&[]), &data).is_err());
    assert!(compare_exact(&u32s(&[1]), &vec![1, 0, 0, 0]).is_ok());
    assert!(
        compare_close(&u32s(&[1]), &vec![3, 0, 0, 0], Value::U32(1), &vec![false]).is_err()
    );
}

#[test]
fn written_buffers_are_expected() {
    let id = IdentifierIdx(4);
    let mut buffers = NullBuffers::new();
    let mut write = |text: &str, answers: Vec<u64>| {
        let resolved = content(text).resolve(&answers);
        buffers.create_buffer(id, resolved.len() as usize);
        buffers.upload(id, resolved.fill(&vec![]));
        buffers.download(id).clone()
    };
    let data = write("BUFFER b DATA_TYPE uint16 SIZE 5 SERIES_FROM 65533 INC_BY 2", vec![0, 0]);
    let elements: Vec<Value> = [65533, 65535, 1, 3, 5].into_iter().map(Value::U16).collect();
    for first in 0..=elements.len() {
        for end in first..=elements.len() {
            let values = Values { data: elements[first..end].to_vec() };
            let result = check_expect(2 * first as u64, &values, None, &vec![], &data, false);
            assert_eq!(result, Ok(()));
        }
    }
    let data = write("BUFFER b RAW 16\n uint8 7\n uint32 8 9\nEND", vec![0, 0, 0]);
    let values = Values { data: vec![Value::U32(8), Value::U32(9), Value::U8(0)] };
    assert_eq!(check_expect(1, &values, None, &vec![], &data, false), Ok(()));
    assert!(check_expect(0, &values, None, &vec![], &data, false).is_err());
}

#[test]
fn shader_identifiers_are_checked() {
    let (a, b) = (vec![1, 2], vec![1, 3]);
    assert!(check_shader_ids(true, &a, &a, false).is_ok());
    assert!(check_shader_ids(false, &a, &b, false).is_ok());
    assert!(check_shader_ids(true, &a, &b, true).is_ok());
    let m = check_shader_ids(true, &a, &b, false).unwrap_err();
    assert_eq!(m.content_a.data, vec![Value::U8(1), Value::U8(2)]);
    assert_eq!(m.content_b.data, vec![Value::U8(1), Value::U8(3)]);
    assert!(check_shader_ids(false, &a, &a, false).is_err());
}

#[test]
fn dumps_have_lines() {
    let shown = texts(&["1", "20", "300", "4", "5"]);
    assert_eq!(
        dump_lines("buf", DataType::U32, &shown, None, DumpFormat::List),
        vec!["buf[0]: 1 20 300 4 5"]
    );
    assert_eq!(
        dump_lines("buf", DataType::U32, &shown, Some(2), DumpFormat::List),
        vec!["buf[ 0]:   1  20", "buf[ 8]: 300   4", "buf[16]:   5"]
    );
    assert_eq!(
        dump_lines("buf", DataType::U8, &shown, Some(3), DumpFormat::Expect),
        vec!["EXPECT buf uint8 OFFSET 0 EQ   1  20 300", "EXPECT buf uint8 OFFSET 3 EQ   4   5"]
    );
    for stride in [5, 6, u64::MAX] {
        assert_eq!(
            dump_lines("buf", DataType::U32, &shown, Some(stride), DumpFormat::List),
            vec!["buf[0]:   1  20 300   4   5"]
        );
    }
    assert!(dump_lines("buf", DataType::U32, &vec![], Some(1), DumpFormat::List).is_empty());
}

#[test]
fn dumps_can_be_read_and_hold() {
    let data: Vec<u8> = (0..26).map(|i| i * 9).collect();
    let values = Values::from_data(DataType::U16, &data);
    let shown: Vec<String> = values.data.iter().map(|v| v.integer_text().unwrap()).collect();
    let lines = dump_lines("buf", DataType::U16, &shown, Some(5), DumpFormat::Expect);
    assert_eq!(lines.len(), 3);
    let mut read = 0;
    for line in &lines {
        match parse_str(line).unwrap().pop().unwrap() {
            Directive::Expect { resource, epsilon, offset, values, .. } => {
                assert_eq!(resource.content, "buf");
                assert!(epsilon.is_none());
                let values = resolve_values(&values, &vec![0; values.len()]);
                assert_eq!(
                    check_expect(offset.content, &values, None, &vec![], &data, false),
                    Ok(())
                );
                read += values.data.len();
            }
            _ => panic!(),
        }
    }
    assert_eq!(read, 13);
    assert_eq!(Value::F32(0).integer_text(), None);
}

#[test]
fn differences_are_aligned() {
    let (a, b) = aligned_buffer_format(
        &texts(&["0", "13", "8", "114"]),
        &texts(&["0", "1", "8", "6"]),
        &vec![true, false, true, false],
    );
    assert_eq!(a, " 0 13 8 114");
    assert_eq!(b, "    1     6");
    // The shorter list counts, and what is not known to be the same is shown
    let (a, b) = aligned_buffer_format(&texts(&["1", "2", "3"]), &texts(&["10", "2"]), &vec![false]);
    assert_eq!(a, "  1 2");
    assert_eq!(b, " 10 2");
    let (a, b) = aligned_buffer_format(&texts(&["1"]), &texts(&["1", "2"]), &vec![true, true]);
    assert_eq!((a.as_str(), b.as_str()), (" 1", "  "));
    let help =
        create_expect_help("b", 4, &texts(&["1"]), &texts(&["22"]), &vec![false]);
    assert_eq!(
        help,
        format!(
            "  ╰{}\nExpected at OFFSET 4:  1\n    Differences in b: 22\n",
            "─".repeat(60)
        )
    );
}

#[test]
fn texts_are_joined_and_aligned() {
    assert_eq!(comma_join(&texts(&["a", "b"])), "a, b");
    assert_eq!(comma_join(&texts(&[])), "");
    assert_eq!(comma_join_lowercase(&vec!["OPAQUE", "NO_Dup"]), "opaque, no_dup");
    assert_eq!(comma_join_lowercase(&vec!["Ä", "ẞ"]), "ä, ß");
    let flags = "opaque, no_duplicate_anyhit";
    assert_eq!(comma_join_lowercase(&vec!["OPAQUE", "NO_DUPLICATE_ANYHIT"]), flags);
    assert_eq!(comma_join_lowercase(&vec!["opaque", "no_duplicate_anyhit"]), flags);
    assert_eq!(comma_join(&texts(&["opaque", "no_duplicate_anyhit"])), flags);
    assert_eq!(join(&texts(&["a", "", "b"]), "-"), "a--b");
    let (front, back) = (texts(&["a", "bc"]), texts(&["", "d"]));
    assert_eq!(
        join(&texts(&["a", "bc", "", "d"]), "; "),
        format!("{}; {}", join(&front, "; "), join(&back, "; "))
    );
    assert_eq!(right_align("ab", 4), "  ab");
    assert_eq!(right_align("ab", 1), "ab");
    assert_eq!(repeated('x', 3), "xxx");
    assert_eq!(decimal(0), "0");
    assert_eq!(decimal(u64::MAX), u64::MAX.to_string());
    assert_eq!(until_char("ab c", ' '), "ab");
    assert_eq!(until_char("ab", ' '), "ab");
    assert_eq!(DataType::F16.text(), "float16");
}
