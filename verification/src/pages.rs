//! Page assembly: the definition-level bitmap, the bit-packed key stream,
//! and the emission of the dictionary page followed by the data page, in
//! the destination format's types.

use vstd::prelude::*;
use crate::bits::{bit_width_of, get_bit_width, lemma_bit_width_bound, lemma_bit_width_le,
    two_pow};
use crate::dict::{dict_bytes, dict_err, encode_symbols_dict, end_value_of, lemma_keys_le_max,
    lemma_local_keys_bounded, lemma_max_of_keys_bounded, local_keys_of, max_of_keys,
    stats_max_folded, stats_min_folded};
use crate::err::{kind_of, ParquetError};
use crate::levels::{build_def_levels, def_levels_of, explicit_null_count};
use crate::stats::BinaryMaxMin;
use crate::table::{le32_bytes, push_le32, write_le32_at};
use parquet2::page::{DataPageHeader, DictPage, Page};
use parquet2::schema::types::PrimitiveType;
use parquet2::statistics::ParquetStatistics;
use parquet2::write::DynIter;

verus! {

/// The destination format's writer version; it decides the data-page
/// header layout and whether the definition levels carry a length prefix.
#[derive(Clone, Copy)]
pub enum Version {
    V1,
    V2,
}

/// Output configuration for one column write.
#[derive(Clone, Copy)]
pub struct WriteOptions {
    /// Whether the data page carries min/max statistics.
    pub write_statistics: bool,
    /// The writer version to emit.
    pub version: Version,
}

#[verifier::external_type_specification]
#[verifier::external_body]
pub struct ExPrimitiveType(PrimitiveType);

#[verifier::external_type_specification]
#[verifier::external_body]
pub struct ExParquetStatistics(ParquetStatistics);

#[verifier::external_type_specification]
#[verifier::external_body]
pub struct ExPage(Page);

#[verifier::external_type_specification]
#[verifier::external_body]
pub struct ExDictPage(DictPage);

#[verifier::external_type_specification]
#[verifier::external_body]
#[verifier::reject_recursive_types(V)]
pub struct ExDynIter<'a, V>(DynIter<'a, V>);

/// The bytes parquet2's hybrid run-length/bit-packed encoder emits for a
/// boolean sequence.
pub uninterp spec fn bool_rle_of(levels: Seq<bool>) -> Seq<u8>;

/// The bytes parquet2's hybrid run-length/bit-packed encoder emits for a
/// sequence of unsigned values at a fixed bit width.
pub uninterp spec fn u32_rle_of(keys: Seq<u32>, num_bits: int) -> Seq<u8>;

/// The byte buffer a dictionary page holds.
pub uninterp spec fn dict_page_buffer(p: DictPage) -> Seq<u8>;

/// The unique-value count a dictionary page holds.
pub uninterp spec fn dict_page_count(p: DictPage) -> int;

/// The dictionary buffer of a page, when the page is a dictionary page.
pub uninterp spec fn page_dict_buffer(p: Page) -> Option<Seq<u8>>;

/// The unique-value count of a page, when the page is a dictionary page.
pub uninterp spec fn page_dict_count(p: Page) -> Option<int>;

/// The payload of a page, when the page is a data page.
pub uninterp spec fn data_page_buffer(p: Page) -> Option<Seq<u8>>;

/// The value count a data page's header declares.
pub uninterp spec fn data_page_num_values(p: Page) -> Option<int>;

/// The null count a data page's header declares; a V1 header has no such
/// field.
pub uninterp spec fn data_page_null_count(p: Page) -> Option<int>;

/// Whether a data page's header carries the dictionary/run-length
/// encoding tag.
pub uninterp spec fn data_page_rle_dictionary(p: Page) -> bool;

/// The statistics a data page's header carries, when it carries any:
/// null count, minimum, maximum.
pub uninterp spec fn data_page_statistics(p: Page) -> Option<
    (Option<int>, Option<Seq<u8>>, Option<Seq<u8>>),
>;

/// The content of serialized statistics: null count, minimum, maximum.
pub uninterp spec fn stats_content(s: ParquetStatistics) -> (
    Option<int>,
    Option<Seq<u8>>,
    Option<Seq<u8>>,
);

/// The pages an iterator will yield, in order, unwrapped from `Ok`.
pub uninterp spec fn yielded_pages(it: DynIter<'static, Result<Page, ParquetError>>) -> Seq<
    Page,
>;

/// Whether every item the iterator yields is wrapped in `Ok`.
pub uninterp spec fn yields_only_ok(it: DynIter<'static, Result<Page, ParquetError>>) -> bool;

/// Relies on parquet2's `hybrid_rle::encode_bool`: the appended bytes are
/// a function of the boolean sequence alone, and writing into a `Vec`
/// cannot fail.  The output is a header of at most 10 ULEB128 bytes
/// followed by one bit per boolean packed into whole bytes, so its length
/// never passes an eighth of the input plus 11.
#[verifier::external_body]
fn encode_bool_rle(buffer: &mut Vec<u8>, levels: &Vec<bool>)
    ensures
        final(buffer)@ == old(buffer)@ + bool_rle_of(levels@),
        final(buffer)@.len() <= old(buffer)@.len() + levels@.len() / 8 + 11,
{
    parquet2::encoding::hybrid_rle::encode_bool(buffer, levels.iter().cloned())
        .expect("writing to a Vec cannot fail");
}

/// Relies on parquet2's `hybrid_rle::encode_u32`: the appended bytes are a
/// function of the values and the bit width alone; each value is packed
/// into `num_bits` bits, so every value must fit that width.
#[verifier::external_body]
fn encode_u32_rle(buffer: &mut Vec<u8>, keys: &Vec<u32>, num_bits: u8)
    requires
        num_bits <= 32,
        forall|j: int| 0 <= j < keys@.len() ==> (keys@[j] as nat) < two_pow(num_bits as nat),
    ensures
        final(buffer)@ == old(buffer)@ + u32_rle_of(keys@, num_bits as int),
{
    parquet2::encoding::hybrid_rle::encode_u32(buffer, keys.iter().cloned(), num_bits as u32)
        .expect("writing to a Vec cannot fail");
}

/// Relies on parquet2's `serialize_statistics` over `BinaryStatistics`,
/// built plainly from the accumulated min, max and null count.
#[verifier::external_body]
fn make_binary_stats(
    primitive_type: &PrimitiveType,
    null_count: usize,
    min: Option<Vec<u8>>,
    max: Option<Vec<u8>>,
) -> (r: ParquetStatistics)
    ensures
        null_count <= i64::MAX ==> stats_content(r) == (
            Option::Some(null_count as int),
            crate::stats::opt_bytes_view(min),
            crate::stats::opt_bytes_view(max),
        ),
{
    parquet2::statistics::serialize_statistics(&parquet2::statistics::BinaryStatistics {
        primitive_type: primitive_type.clone(),
        null_count: Some(null_count as i64),
        distinct_count: None,
        max_value: max,
        min_value: min,
    })
}

/// Relies on the destination format's V1 data-page header and parquet2's
/// `DataPage::new`: the page holds the given payload, declares the value
/// count, the dictionary/run-length tag with run-length encoded levels,
/// and the given statistics; a V1 header has no null-count field.
#[verifier::external_body]
fn make_data_page_v1(
    buffer: Vec<u8>,
    num_values: usize,
    statistics: Option<ParquetStatistics>,
    primitive_type: PrimitiveType,
) -> (r: Page)
    ensures
        data_page_buffer(r) == Option::Some(buffer@),
        num_values <= i32::MAX ==> data_page_num_values(r) == Option::Some(num_values as int),
        data_page_null_count(r) is None,
        data_page_rle_dictionary(r),
        (match statistics {
            Option::None => data_page_statistics(r) is None,
            Option::Some(st) => data_page_statistics(r) == Option::Some(stats_content(st)),
        }),
{
    let header = parquet2::page::DataPageHeaderV1 {
        num_values: num_values as i32,
        encoding: parquet2::encoding::Encoding::RleDictionary.into(),
        definition_level_encoding: parquet2::encoding::Encoding::Rle.into(),
        repetition_level_encoding: parquet2::encoding::Encoding::Rle.into(),
        statistics,
    };
    let descriptor =
        parquet2::metadata::Descriptor { primitive_type, max_def_level: 1, max_rep_level: 0 };
    Page::Data(parquet2::page::DataPage::new(DataPageHeader::V1(header), buffer, descriptor, None))
}

/// Relies on the destination format's V2 data-page header and parquet2's
/// `DataPage::new`: as the V1 builder, and the header also declares the
/// null count and the definition-level byte length.
#[verifier::external_body]
fn make_data_page_v2(
    buffer: Vec<u8>,
    num_values: usize,
    null_count: usize,
    def_levels_byte_length: usize,
    statistics: Option<ParquetStatistics>,
    primitive_type: PrimitiveType,
) -> (r: Page)
    ensures
        data_page_buffer(r) == Option::Some(buffer@),
        num_values <= i32::MAX ==> data_page_num_values(r) == Option::Some(num_values as int),
        null_count <= i32::MAX ==> data_page_null_count(r) == Option::Some(null_count as int),
        data_page_rle_dictionary(r),
        (match statistics {
            Option::None => data_page_statistics(r) is None,
            Option::Some(st) => data_page_statistics(r) == Option::Some(stats_content(st)),
        }),
{
    let header = parquet2::page::DataPageHeaderV2 {
        num_values: num_values as i32,
        num_nulls: null_count as i32,
        num_rows: num_values as i32,
        encoding: parquet2::encoding::Encoding::RleDictionary.into(),
        definition_levels_byte_length: def_levels_byte_length as i32,
        repetition_levels_byte_length: 0,
        is_compressed: Some(false),
        statistics,
    };
    let descriptor =
        parquet2::metadata::Descriptor { primitive_type, max_def_level: 1, max_rep_level: 0 };
    Page::Data(parquet2::page::DataPage::new(DataPageHeader::V2(header), buffer, descriptor, None))
}

/// Relies on parquet2's `DictPage::new`, a plain constructor: the page
/// holds the given buffer and unique-value count.
pub assume_specification[ DictPage::new ](
    buffer: Vec<u8>,
    num_values: usize,
    is_sorted: bool,
) -> (r: DictPage)
    ensures
        dict_page_buffer(r) == buffer@,
        dict_page_count(r) == num_values as int,
;

/// Relies on parquet2's `DynIter::new` boxing a two-element iterator: it
/// yields the dictionary page, then the data page, each wrapped in `Ok`,
/// and nothing else.
#[verifier::external_body]
fn make_pages_iter(dict_page: DictPage, data_page: Page) -> (r: DynIter<
    'static,
    Result<Page, ParquetError>,
>)
    ensures
        yields_only_ok(r),
        yielded_pages(r).len() == 2,
        page_dict_buffer(yielded_pages(r)[0]) == Option::Some(dict_page_buffer(dict_page)),
        page_dict_count(yielded_pages(r)[0]) == Option::Some(dict_page_count(dict_page)),
        yielded_pages(r)[1] == data_page,
{
    DynIter::new([Page::Dict(dict_page), data_page].into_iter().map(Ok))
}

/// The definition-level bytes as they stand in the data-page payload: the
/// run-length encoding, preceded for a V1 page by its 4-byte length.
pub open spec fn def_level_bytes(levels: Seq<bool>, version: Version) -> Seq<u8> {
    match version {
        Version::V1 => le32_bytes(bool_rle_of(levels).len() as int) + bool_rle_of(levels),
        Version::V2 => bool_rle_of(levels),
    }
}

/// Whether the encoded levels fit a V1 page's 4-byte length prefix.
pub open spec fn def_levels_fit(levels: Seq<bool>, version: Version) -> bool {
    version is V2 || bool_rle_of(levels).len() <= u32::MAX
}

/// Appends the encoded definition levels to `buffer`: the run-length
/// encoding of the booleans, length-prefixed for a V1 page.  Fails, leaving
/// `buffer` unchanged, only when a V1 prefix cannot hold the encoded length.
pub fn encode_bool_levels(buffer: &mut Vec<u8>, levels: &Vec<bool>, version: Version) -> (r:
    Result<(), ParquetError>)
    ensures
        bool_rle_of(levels@).len() <= levels@.len() / 8 + 11,
        match r {
            Ok(_) => {
                &&& def_levels_fit(levels@, version)
                &&& final(buffer)@ == old(buffer)@ + def_level_bytes(levels@, version)
            },
            Err(e) => {
                &&& !def_levels_fit(levels@, version)
                &&& final(buffer)@ == old(buffer)@
                &&& e is Layout
            },
        },
{
    let start: usize = buffer.len();
    match version {
        Version::V1 => {
            push_le32(buffer, 0);
            encode_bool_rle(buffer, levels);
            let end: usize = buffer.len();
            let written: usize = end - (start + 4);
            if written as u64 > u32::MAX as u64 {
                buffer.truncate(start);
                assert(buffer@ =~= old(buffer)@);
                return Err(ParquetError::Layout { msg: crate::err::fmt_levels_overflow(written) });
            }
            write_le32_at(buffer, start, written as u32);
            proof {
                let rle = bool_rle_of(levels@);
                assert(buffer@ =~= old(buffer)@ + le32_bytes(rle.len() as int) + rle);
            }
        },
        Version::V2 => {
            encode_bool_rle(buffer, levels);
        },
    }
    Ok(())
}

/// Everything the two pages are assembled from, as plain data.
pub struct ColumnArtifacts {
    /// The data-page payload: the encoded definition levels, the bit-width
    /// byte, then the bit-packed keys.
    pub data_buffer: Vec<u8>,
    /// The dictionary-page payload: the length-prefixed UTF-8 entries.
    pub dict_buffer: Vec<u8>,
    /// The dictionary page's unique-value count: one past the largest used
    /// key, or 0 for an empty dictionary.
    pub uniq_vals: u32,
    /// The total row count, implicit leading nulls included.
    pub num_rows: usize,
    /// The null count: implicit leading nulls plus explicit null values.
    pub null_count: usize,
    /// The byte length of the encoded definition levels in `data_buffer`.
    pub definition_levels_byte_length: usize,
    /// Min/max statistics over the transcoded strings.
    pub stats: BinaryMaxMin,
}

/// Computes every artifact of the page pair as plain data: the definition
/// levels, the dictionary buffer, the bit-packed key stream and the counts.
/// Fails exactly when a used key's record cannot be encoded, or when a V1
/// length prefix cannot hold the encoded definition levels.
pub fn build_column_artifacts(
    column_values: &[i32],
    offsets: &[u64],
    chars: &[u8],
    column_top: usize,
    version: Version,
) -> (r: Result<ColumnArtifacts, ParquetError>)
    requires
        column_top + column_values@.len() <= usize::MAX,
    ensures
        bool_rle_of(def_levels_of(column_top as int, column_values@)).len() <= (column_top
            + column_values@.len()) / 8 + 11,
        ({
            let keys = local_keys_of(column_values@);
            let end = end_value_of(keys);
            let levels = def_levels_of(column_top as int, column_values@);
            let width = bit_width_of(max_of_keys(keys) as nat);
            let dict = dict_bytes(keys, end, offsets@, chars@);
            match r {
                Ok(a) => {
                    &&& def_levels_fit(levels, version)
                    &&& dict_err(keys, end, offsets@, chars@) is None
                    &&& a.data_buffer@ == def_level_bytes(levels, version) + seq![width as u8]
                        + u32_rle_of(keys, width as int)
                    &&& a.dict_buffer@ == dict
                    &&& a.uniq_vals == if dict.len() > 0 {
                        max_of_keys(keys) + 1
                    } else {
                        0int
                    }
                    &&& a.num_rows == column_top + column_values@.len()
                    &&& a.null_count == column_top + explicit_null_count(column_values@)
                    &&& a.definition_levels_byte_length == def_level_bytes(levels, version).len()
                    &&& a.stats.min_view() == stats_min_folded(
                        Option::None,
                        keys,
                        end,
                        offsets@,
                        chars@,
                    )
                    &&& a.stats.max_view() == stats_max_folded(
                        Option::None,
                        keys,
                        end,
                        offsets@,
                        chars@,
                    )
                },
                Err(e) => {
                    if !def_levels_fit(levels, version) {
                        e is Layout
                    } else {
                        dict_err(keys, end, offsets@, chars@) == Option::Some(kind_of(e))
                    }
                },
            }
        }),
{
    let num_rows: usize = column_top + column_values.len();
    let (levels, null_count) = build_def_levels(column_values, column_top);

    let mut data_buffer: Vec<u8> = Vec::new();
    match encode_bool_levels(&mut data_buffer, &levels, version) {
        Ok(_) => {},
        Err(e) => {
            return Err(e);
        },
    }
    let definition_levels_byte_length: usize = data_buffer.len();

    let mut stats = BinaryMaxMin::new();
    let (dict_buffer, keys, max_key) = match encode_symbols_dict(
        column_values,
        offsets,
        chars,
        &mut stats,
    ) {
        Ok(t) => t,
        Err(e) => {
            return Err(e);
        },
    };

    let bits_per_key: u8 = get_bit_width(max_key as u64);
    proof {
        lemma_local_keys_bounded(column_values@);
        lemma_max_of_keys_bounded(local_keys_of(column_values@), 0x7FFFFFFF);
        lemma_keys_le_max(local_keys_of(column_values@));
        lemma_bit_width_bound(max_key as nat);
        assert(two_pow(32) == 0x100000000) by {
            reveal_with_fuel(two_pow, 33);
        }
        lemma_bit_width_le(max_key as nat, 32);
    }
    let ghost pre_keys_buffer = data_buffer@;
    // the bit width as a single byte, followed by the packed keys
    data_buffer.push(bits_per_key);
    encode_u32_rle(&mut data_buffer, &keys, bits_per_key);
    proof {
        assert(data_buffer@ =~= pre_keys_buffer + seq![bits_per_key]
            + u32_rle_of(keys@, bits_per_key as int));
    }

    // the dictionary page's unique-value count
    let uniq_vals: u32 = if dict_buffer.len() > 0 {
        max_key + 1
    } else {
        0
    };
    Ok(ColumnArtifacts {
        data_buffer,
        dict_buffer,
        uniq_vals,
        num_rows,
        null_count,
        definition_levels_byte_length,
        stats,
    })
}

/// Encodes one symbol column as a dictionary page followed by the data page
/// that references it.  On success the returned iterator yields exactly the
/// dictionary page then the data page, each wrapped in `Ok`: the dictionary
/// page holds the length-prefixed UTF-8 entries and a unique-value count of
/// one past the largest used key (0 for an empty dictionary); the data page
/// holds the encoded definition levels, the bit-width byte and the
/// bit-packed keys, declares the row count, the null count (V2), and the
/// dictionary/run-length tag, and carries the min/max statistics exactly
/// when they were asked for.
pub fn symbol_to_pages(
    column_values: &[i32],
    offsets: &[u64],
    chars: &[u8],
    column_top: usize,
    options: WriteOptions,
    primitive_type: PrimitiveType,
) -> (r: Result<DynIter<'static, Result<Page, ParquetError>>, ParquetError>)
    requires
        column_top + column_values@.len() <= usize::MAX,
    ensures
        bool_rle_of(def_levels_of(column_top as int, column_values@)).len() <= (column_top
            + column_values@.len()) / 8 + 11,
        ({
            let keys = local_keys_of(column_values@);
            let end = end_value_of(keys);
            let levels = def_levels_of(column_top as int, column_values@);
            let width = bit_width_of(max_of_keys(keys) as nat);
            let dict = dict_bytes(keys, end, offsets@, chars@);
            let rows = column_top + column_values@.len();
            let nulls = column_top + explicit_null_count(column_values@);
            match r {
                Ok(it) => {
                    &&& def_levels_fit(levels, options.version)
                    &&& dict_err(keys, end, offsets@, chars@) is None
                    &&& yields_only_ok(it)
                    &&& yielded_pages(it).len() == 2
                    &&& page_dict_buffer(yielded_pages(it)[0]) == Option::Some(dict)
                    &&& page_dict_count(yielded_pages(it)[0]) == Option::Some(
                        if dict.len() > 0 {
                            max_of_keys(keys) + 1
                        } else {
                            0int
                        },
                    )
                    &&& data_page_buffer(yielded_pages(it)[1]) == Option::Some(
                        def_level_bytes(levels, options.version) + seq![width as u8]
                            + u32_rle_of(keys, width as int),
                    )
                    &&& rows <= i32::MAX ==> data_page_num_values(yielded_pages(it)[1])
                        == Option::Some(rows)
                    &&& (options.version is V1 ==> data_page_null_count(
                        yielded_pages(it)[1],
                    ) is None)
                    &&& (options.version is V2 && nulls <= i32::MAX ==> data_page_null_count(
                        yielded_pages(it)[1],
                    ) == Option::Some(nulls))
                    &&& data_page_rle_dictionary(yielded_pages(it)[1])
                    &&& (options.write_statistics && nulls <= i64::MAX
                        ==> data_page_statistics(yielded_pages(it)[1]) == Option::Some(
                        (
                            Option::Some(nulls),
                            stats_min_folded(Option::None, keys, end, offsets@, chars@),
                            stats_max_folded(Option::None, keys, end, offsets@, chars@),
                        ),
                    ))
                    &&& (!options.write_statistics ==> data_page_statistics(
                        yielded_pages(it)[1],
                    ) is None)
                },
                Err(e) => {
                    if !def_levels_fit(levels, options.version) {
                        e is Layout
                    } else {
                        dict_err(keys, end, offsets@, chars@) == Option::Some(kind_of(e))
                    }
                },
            }
        }),
{
    let artifacts = match build_column_artifacts(
        column_values,
        offsets,
        chars,
        column_top,
        options.version,
    ) {
        Ok(a) => a,
        Err(e) => {
            return Err(e);
        },
    };

    let statistics: Option<ParquetStatistics> = if options.write_statistics {
        Some(make_binary_stats(
            &primitive_type,
            artifacts.null_count,
            artifacts.stats.min,
            artifacts.stats.max,
        ))
    } else {
        None
    };
    let data_page = match options.version {
        Version::V1 => make_data_page_v1(
            artifacts.data_buffer,
            artifacts.num_rows,
            statistics,
            primitive_type,
        ),
        Version::V2 => make_data_page_v2(
            artifacts.data_buffer,
            artifacts.num_rows,
            artifacts.null_count,
            artifacts.definition_levels_byte_length,
            statistics,
            primitive_type,
        ),
    };

    // the dictionary page precedes the data page that references it
    let dict_page = DictPage::new(artifacts.dict_buffer, artifacts.uniq_vals as usize, false);
    Ok(make_pages_iter(dict_page, data_page))
}

} // verus!
