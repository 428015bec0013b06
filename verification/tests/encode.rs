use parquet2::page::Page;
use parquet2::schema::types::{PhysicalType, PrimitiveType};
use symbol_pages::bits::get_bit_width;
use symbol_pages::dict::{encode_dict_buffer, encode_symbols_dict};
use symbol_pages::err::ParquetError;
use symbol_pages::levels::build_def_levels;
use symbol_pages::pages::{build_column_artifacts, symbol_to_pages, Version, WriteOptions};
use symbol_pages::stats::BinaryMaxMin;
use symbol_pages::utf16::write_utf8_from_utf16;

/// Builds a global symbol table: offsets into a chars buffer of
/// length-prefixed little-endian UTF-16 records.
fn make_table(strings: &[&str]) -> (Vec<u64>, Vec<u8>) {
    let mut offsets: Vec<u64> = Vec::new();
    let mut chars: Vec<u8> = Vec::new();
    for s in strings {
        offsets.push(chars.len() as u64);
        let units: Vec<u16> = s.encode_utf16().collect();
        chars.extend_from_slice(&(units.len() as u32).to_le_bytes());
        for u in units {
            chars.extend_from_slice(&u.to_le_bytes());
        }
    }
    (offsets, chars)
}

fn byte_array_type() -> PrimitiveType {
    PrimitiveType::from_physical("sym".to_string(), PhysicalType::ByteArray)
}

/// Splits a dictionary buffer into its decoded entries.
fn decode_dict(buffer: &[u8]) -> Vec<String> {
    let mut out = Vec::new();
    let mut pos = 0usize;
    while pos < buffer.len() {
        let len = u32::from_le_bytes(buffer[pos..pos + 4].try_into().unwrap()) as usize;
        pos += 4;
        out.push(String::from_utf8(buffer[pos..pos + len].to_vec()).unwrap());
        pos += len;
    }
    out
}

#[test]
fn round_trip_small_column() {
    let (offsets, chars) = make_table(&["abc", "defg", "hi", "jklmn"]);
    let column = [0i32, 2, 2];
    let mut stats = BinaryMaxMin::new();
    let (dict, keys, max_key) =
        encode_symbols_dict(&column, &offsets, &chars, &mut stats).unwrap();
    assert_eq!(keys, vec![0u32, 2, 2]);
    assert_eq!(max_key, 2);
    let expected: Vec<u8> = vec![
        3, 0, 0, 0, b'a', b'b', b'c', 0, 0, 0, 0, 2, 0, 0, 0, b'h', b'i',
    ];
    assert_eq!(dict, expected);
    assert_eq!(decode_dict(&dict), vec!["abc", "", "hi"]);
    assert_eq!(stats.min, Some(b"abc".to_vec()));
    assert_eq!(stats.max, Some(b"hi".to_vec()));
}

#[test]
fn identity_of_used_keys() {
    let (offsets, chars) = make_table(&["alpha", "beta", "gamma", "delta"]);
    let column = [3i32, 0, 3, 1];
    let mut stats = BinaryMaxMin::new();
    let (dict, keys, max_key) =
        encode_symbols_dict(&column, &offsets, &chars, &mut stats).unwrap();
    assert_eq!(max_key, 3);
    assert_eq!(keys, vec![3u32, 0, 3, 1]);
    let entries = decode_dict(&dict);
    assert_eq!(entries, vec!["alpha", "beta", "", "delta"]);
    for (row, &k) in keys.iter().enumerate() {
        let expected = ["alpha", "beta", "gamma", "delta"][k as usize];
        assert_eq!(entries[k as usize], expected, "row {row}");
    }
}

#[test]
fn placeholder_entries_are_empty() {
    let (offsets, chars) = make_table(&["a", "b", "c", "d", "e"]);
    let column = [4i32];
    let mut stats = BinaryMaxMin::new();
    let (dict, _, max_key) = encode_symbols_dict(&column, &offsets, &chars, &mut stats).unwrap();
    assert_eq!(max_key, 4);
    let entries = decode_dict(&dict);
    assert_eq!(entries.len(), 5);
    for j in 0..4 {
        assert_eq!(entries[j], "", "unused key {j}");
    }
    assert_eq!(entries[4], "e");
}

#[test]
fn truncation_ignores_table_tail() {
    let (offsets, chars) = make_table(&["x", "y", "z", "w", "v"]);
    let column = [1i32, 1];
    let mut stats = BinaryMaxMin::new();
    let (dict, _, max_key) = encode_symbols_dict(&column, &offsets, &chars, &mut stats).unwrap();
    assert_eq!(max_key, 1);
    assert_eq!(decode_dict(&dict), vec!["", "y"]);
}

#[test]
fn empty_column_empty_dict() {
    let (offsets, chars) = make_table(&["x"]);
    let column: [i32; 0] = [];
    let mut stats = BinaryMaxMin::new();
    let (dict, keys, max_key) =
        encode_symbols_dict(&column, &offsets, &chars, &mut stats).unwrap();
    assert!(dict.is_empty());
    assert!(keys.is_empty());
    assert_eq!(max_key, 0);
    assert_eq!(stats.min, None);
    assert_eq!(stats.max, None);
}

#[test]
fn surrogate_pair_fidelity() {
    // U+1D11E musical symbol, outside the basic multilingual plane
    let (offsets, chars) = make_table(&["\u{1D11E}"]);
    let column = [0i32];
    let mut stats = BinaryMaxMin::new();
    let (dict, _, _) = encode_symbols_dict(&column, &offsets, &chars, &mut stats).unwrap();
    assert_eq!(dict, vec![4, 0, 0, 0, 0xF0, 0x9D, 0x84, 0x9E]);
    assert_eq!(stats.min, Some(vec![0xF0, 0x9D, 0x84, 0x9E]));
    assert_eq!(stats.max, Some(vec![0xF0, 0x9D, 0x84, 0x9E]));
}

#[test]
fn bounds_offset_past_end() {
    let (_, chars) = make_table(&["abc"]);
    let offsets = vec![chars.len() as u64 + 10];
    let column = [0i32];
    let mut stats = BinaryMaxMin::new();
    let r = encode_symbols_dict(&column, &offsets, &chars, &mut stats);
    assert!(matches!(r, Err(ParquetError::Layout { .. })));
}

#[test]
fn bounds_declared_length_past_end() {
    // a record declaring 100 code units with only 1 stored
    let mut chars: Vec<u8> = Vec::new();
    chars.extend_from_slice(&100u32.to_le_bytes());
    chars.extend_from_slice(&(b'a' as u16).to_le_bytes());
    let offsets = vec![0u64];
    let column = [0i32];
    let mut stats = BinaryMaxMin::new();
    let r = encode_symbols_dict(&column, &offsets, &chars, &mut stats);
    assert!(matches!(r, Err(ParquetError::Layout { .. })));
}

#[test]
fn bounds_missing_offsets_entry() {
    let (offsets, chars) = make_table(&["abc"]);
    let column = [5i32];
    let mut stats = BinaryMaxMin::new();
    let r = encode_symbols_dict(&column, &offsets, &chars, &mut stats);
    assert!(matches!(r, Err(ParquetError::Layout { .. })));
}

#[test]
fn malformed_utf16_unpaired_surrogate() {
    // a record holding a lone high surrogate
    let mut chars: Vec<u8> = Vec::new();
    chars.extend_from_slice(&1u32.to_le_bytes());
    chars.extend_from_slice(&0xD834u16.to_le_bytes());
    let offsets = vec![0u64];
    let column = [0i32];
    let mut stats = BinaryMaxMin::new();
    let r = encode_symbols_dict(&column, &offsets, &chars, &mut stats);
    assert!(matches!(r, Err(ParquetError::Utf16Decode)));
}

#[test]
fn transcoder_mixed_widths() {
    let mut dest: Vec<u8> = vec![0xAA];
    let units: Vec<u16> = "a\u{00E9}\u{20AC}\u{1D11E}".encode_utf16().collect();
    let n = write_utf8_from_utf16(&mut dest, &units).unwrap();
    let expected = "a\u{00E9}\u{20AC}\u{1D11E}".as_bytes();
    assert_eq!(n, expected.len());
    assert_eq!(&dest[1..], expected);
    assert_eq!(dest[0], 0xAA);
}

#[test]
fn transcoder_error_leaves_dest_unchanged() {
    let mut dest: Vec<u8> = vec![1, 2, 3];
    // valid prefix, then a stray low surrogate
    let units = [b'x' as u16, 0xDC00];
    let r = write_utf8_from_utf16(&mut dest, &units);
    assert_eq!(r.unwrap_err().position, 1);
    assert_eq!(dest, vec![1, 2, 3]);
}

#[test]
fn transcoder_truncated_pair() {
    let mut dest: Vec<u8> = Vec::new();
    let units = [b'a' as u16, b'b' as u16, 0xD834];
    assert_eq!(write_utf8_from_utf16(&mut dest, &units).unwrap_err().position, 2);
    assert!(dest.is_empty());
}

#[test]
fn bit_width_exact_values() {
    assert_eq!(get_bit_width(0), 0);
    assert_eq!(get_bit_width(1), 1);
    assert_eq!(get_bit_width(2), 2);
    assert_eq!(get_bit_width(3), 2);
    assert_eq!(get_bit_width(4), 3);
    assert_eq!(get_bit_width(255), 8);
    assert_eq!(get_bit_width(256), 9);
    assert_eq!(get_bit_width(u64::MAX), 64);
}

#[test]
fn def_levels_null_accounting() {
    let column = [5i32, -1, 7];
    let (levels, null_count) = build_def_levels(&column, 2);
    assert_eq!(levels, vec![false, false, true, false, true]);
    assert_eq!(null_count, 3);
}

#[test]
fn stats_lexicographic_order() {
    let mut stats = BinaryMaxMin::new();
    stats.update(b"b");
    stats.update(b"abc");
    stats.update(b"ba");
    assert_eq!(stats.min, Some(b"abc".to_vec()));
    assert_eq!(stats.max, Some(b"ba".to_vec()));
    stats.update(b"");
    assert_eq!(stats.min, Some(b"".to_vec()));
    assert_eq!(stats.max, Some(b"ba".to_vec()));
}

#[test]
fn dict_buffer_rejects_before_decoding_later_keys() {
    // key 0 is valid, key 1 overruns: the layout error wins
    let mut chars: Vec<u8> = Vec::new();
    chars.extend_from_slice(&1u32.to_le_bytes());
    chars.extend_from_slice(&(b'a' as u16).to_le_bytes());
    let offsets = vec![0u64, 9999];
    let keys = [0u32, 1];
    let mut stats = BinaryMaxMin::new();
    let r = encode_dict_buffer(&keys, &offsets, &chars, &mut stats);
    assert!(matches!(r, Err(ParquetError::Layout { .. })));
}

#[test]
fn pages_round_trip_v1_payload() {
    let (offsets, chars) = make_table(&["abc", "defg", "hi", "jklmn"]);
    let column = [0i32, 2, 2];
    let options = WriteOptions { write_statistics: true, version: Version::V1 };
    let mut iter =
        symbol_to_pages(&column, &offsets, &chars, 0, options, byte_array_type()).unwrap();

    let dict_page = match iter.next().unwrap().unwrap() {
        Page::Dict(d) => d,
        Page::Data(_) => panic!("dictionary page must come first"),
    };
    assert_eq!(decode_dict(&dict_page.buffer), vec!["abc", "", "hi"]);
    assert_eq!(dict_page.num_values, 3);

    let data_page = match iter.next().unwrap().unwrap() {
        Page::Data(d) => d,
        Page::Dict(_) => panic!("data page must come second"),
    };
    assert!(iter.next().is_none());

    // rebuild the expected payload with parquet2's encoders directly
    let mut expected: Vec<u8> = Vec::new();
    let mut rle: Vec<u8> = Vec::new();
    parquet2::encoding::hybrid_rle::encode_bool(&mut rle, [true, true, true].into_iter())
        .unwrap();
    expected.extend_from_slice(&(rle.len() as u32).to_le_bytes());
    expected.extend_from_slice(&rle);
    expected.push(2); // bit width of max key 2
    parquet2::encoding::hybrid_rle::encode_u32(&mut expected, [0u32, 2, 2].into_iter(), 2)
        .unwrap();
    assert_eq!(data_page.buffer(), &expected[..]);

    // the V1 header declares the counts, the tag, and the statistics
    match data_page.header() {
        parquet2::page::DataPageHeader::V1(h) => {
            assert_eq!(h.num_values, 3);
            assert_eq!(h.encoding.0, 8); // RLE_DICTIONARY
            let st = h.statistics.as_ref().unwrap();
            assert_eq!(st.null_count, Some(0));
            assert_eq!(st.min_value.as_deref(), Some(&b"abc"[..]));
            assert_eq!(st.max_value.as_deref(), Some(&b"hi"[..]));
        },
        parquet2::page::DataPageHeader::V2(_) => panic!("expected a V1 header"),
    }
}

#[test]
fn pages_all_null_column() {
    let (offsets, chars) = make_table(&["abc"]);
    let column = [-1i32, -1];
    let options = WriteOptions { write_statistics: false, version: Version::V2 };
    let mut iter =
        symbol_to_pages(&column, &offsets, &chars, 3, options, byte_array_type()).unwrap();

    let dict_page = match iter.next().unwrap().unwrap() {
        Page::Dict(d) => d,
        Page::Data(_) => panic!("dictionary page must come first"),
    };
    assert!(dict_page.buffer.is_empty());
    assert_eq!(dict_page.num_values, 0);

    let data_page = match iter.next().unwrap().unwrap() {
        Page::Data(d) => d,
        Page::Dict(_) => panic!("data page must come second"),
    };
    match data_page.header() {
        parquet2::page::DataPageHeader::V2(h) => {
            assert_eq!(h.num_values, 5);
            assert_eq!(h.num_nulls, 5);
            assert_eq!(h.num_rows, 5);
            assert!(h.statistics.is_none());
        },
        parquet2::page::DataPageHeader::V1(_) => panic!("expected a V2 header"),
    }
}

#[test]
fn artifacts_hold_counts_and_payloads() {
    let (offsets, chars) = make_table(&["abc", "defg", "hi", "jklmn"]);
    let column = [0i32, -1, 2, 2];
    let a = build_column_artifacts(&column, &offsets, &chars, 1, Version::V2).unwrap();
    assert_eq!(a.num_rows, 5);
    assert_eq!(a.null_count, 2);
    assert_eq!(a.uniq_vals, 3);
    assert_eq!(decode_dict(&a.dict_buffer), vec!["abc", "", "hi"]);
    assert_eq!(a.stats.min, Some(b"abc".to_vec()));
    assert_eq!(a.stats.max, Some(b"hi".to_vec()));

    // the payload: V2 levels, one bit-width byte, then the packed keys
    let mut expected: Vec<u8> = Vec::new();
    parquet2::encoding::hybrid_rle::encode_bool(
        &mut expected,
        [false, true, false, true, true].into_iter(),
    )
    .unwrap();
    assert_eq!(a.definition_levels_byte_length, expected.len());
    expected.push(2);
    parquet2::encoding::hybrid_rle::encode_u32(&mut expected, [0u32, 2, 2].into_iter(), 2)
        .unwrap();
    assert_eq!(a.data_buffer, expected);
}

#[test]
fn pages_error_propagates() {
    let (_, chars) = make_table(&["abc"]);
    let offsets = vec![chars.len() as u64 + 1];
    let column = [0i32];
    let options = WriteOptions { write_statistics: true, version: Version::V2 };
    let r = symbol_to_pages(&column, &offsets, &chars, 0, options, byte_array_type());
    assert!(matches!(r, Err(ParquetError::Layout { .. })));
}
