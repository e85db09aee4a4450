//! What the raster functions give in terms of what is in the file.
use crate::double::{
    is_nan, law_greatest, law_least, single_is_nan, single_magnitude, single_value, value, INFINITY,
    MINUS_INFINITY, SIGN, SINGLE_INFINITY, SINGLE_SIGN,
};
use crate::raster::{
    band_samples, crs_from, failure_of, is_inside, is_raster_in, is_raster_of, is_sample,
    law_nodata_is_first_number, lemma_no_number, nodata_numbers, nodata_texts_of, sample_count,
    sample_of, view_of, CachedRaster, Lookup, Samples, TiffFile, TiffTags,
};
use crate::raster_scalar::{
    at_least, bands_row, crs_row, height_row, max_row, min_row, nodata_row, pixel_row, scale_x_row,
    scale_y_row, transform_row, width_row,
};
use crate::raster_table::{
    are_band_pixels, are_counts, is_meta_row, places_below, tally, total, MetaRow,
};
use crate::text::{decimal, join, law_split_of_join, occurs, trimmed};
use vstd::arithmetic::power2::pow2;
use vstd::prelude::*;

verus! {

/// The number of bands that the tags give: one where they do not say.
pub open spec fn band_number(tags: TiffTags) -> u32 {
    if tags.samples_per_pixel is Some {
        tags.samples_per_pixel->0
    } else {
        1
    }
}

/// Whether a raster was made of an image that has a sample for each pixel and band.
pub open spec fn is_complete(raster: CachedRaster, tags: TiffTags, samples: Samples) -> bool {
    &&& is_raster_of(raster, tags, samples)
    &&& sample_count(samples) >= (tags.width * tags.height) * band_number(tags)
}

/// Whether this is what reading one pixel of a band gives.
pub open spec fn is_pixel_read(
    found: Lookup,
    band: u32,
    col: u32,
    row: u32,
    pixel: Result<u64, String>,
) -> bool {
    match (found, pixel) {
        (Ok(raster), Ok(bits)) => is_inside(*raster, col, row) && bits == sample_of(
            *raster,
            row * raster.width + col,
            band,
        ),
        (Ok(raster), Err(m)) => !is_inside(*raster, col, row) && m@ == "Pixel out of bounds"@,
        (Err(e), Ok(_)) => false,
        (Err(e), Err(m)) => m@ == e@,
    }
}

/// Whether these are all pixels of a band, row by row, or what went wrong when looking for the
/// raster.
pub open spec fn are_all_pixels(
    found: Lookup,
    band: u32,
    pixels: Result<Vec<u64>, String>,
) -> bool {
    match (found, pixels) {
        (Ok(raster), Ok(v)) => v@ == band_samples(*raster, band),
        (Err(e), Err(m)) => m == e,
        _ => false,
    }
}

/// How many samples an image of each type has.
pub proof fn law_sample_count(samples: Samples)
    ensures
        samples matches Samples::Double(v) ==> sample_count(samples) == v@.len(),
        samples matches Samples::Single(v) ==> sample_count(samples) == v@.len(),
        samples matches Samples::Short(v) ==> sample_count(samples) == v@.len(),
        samples matches Samples::Byte(v) ==> sample_count(samples) == v@.len(),
{
}

/// A pixel is the number that its sample is: a double as it stands, a single with the same sign
/// and value, a whole number with its value.
pub proof fn law_sample_value(samples: Samples, i: int, bits: u64)
    requires
        is_sample(samples, i, bits),
    ensures
        samples matches Samples::Double(v) ==> bits == v@[i],
        samples matches Samples::Single(v) ==> is_nan(bits) == single_is_nan(v@[i]),
        samples matches Samples::Single(v) ==> !is_nan(bits) ==> (bits >= SIGN <==> v@[i]
            >= SINGLE_SIGN),
        samples matches Samples::Single(v) ==> single_magnitude(v@[i]) < SINGLE_INFINITY ==> value(
            bits,
        ) == single_value(v@[i]) * pow2(925),
        samples matches Samples::Single(v) ==> v@[i] == SINGLE_INFINITY ==> bits == INFINITY,
        samples matches Samples::Single(v) ==> v@[i] == SINGLE_INFINITY + SINGLE_SIGN ==> bits
            == MINUS_INFINITY,
        samples matches Samples::Short(v) ==> !is_nan(bits) && value(bits) == v@[i] * pow2(1074),
        samples matches Samples::Byte(v) ==> !is_nan(bits) && value(bits) == v@[i] * pow2(1074),
        !(samples is Other),
{
}

/// Where a pixel's sample stands in the list of samples.
proof fn lemma_sample_place(width: int, height: int, bands: int, col: int, row: int, band: int)
    requires
        0 <= col < width,
        0 <= row < height,
        0 <= band < bands,
    ensures
        0 <= row * width + col < width * height,
        0 <= (row * width + col) * bands + band < (width * height) * bands,
{
    let pixel: int = row * width + col;
    let area: int = width * height;
    assert(0 <= pixel < area) by (nonlinear_arith)
        requires
            0 <= col < width,
            0 <= row < height,
            pixel == row * width + col,
            area == width * height,
    ;
    assert(0 <= pixel * bands + band < area * bands) by (nonlinear_arith)
        requires
            0 <= pixel < area,
            0 <= band < bands,
    ;
}

/// Reading a pixel inside a complete image succeeds, and gives the sample of the image at
/// (row * width + col) * bands + (band - 1).
pub proof fn law_read_pixel(
    found: Lookup,
    tags: TiffTags,
    samples: Samples,
    band: u32,
    col: u32,
    row: u32,
    pixel: Result<u64, String>,
)
    requires
        found is Ok,
        is_complete(*found->Ok_0, tags, samples),
        col < tags.width,
        row < tags.height,
        1 <= band <= band_number(tags),
        is_pixel_read(found, band, col, row, pixel),
    ensures
        pixel is Ok,
        is_sample(
            samples,
            (row * tags.width + col) * band_number(tags) + (band - 1),
            pixel->Ok_0,
        ),
{
    lemma_sample_place(
        tags.width as int,
        tags.height as int,
        band_number(tags) as int,
        col as int,
        row as int,
        band - 1,
    );
}

/// Reading a pixel fails just where the pixel lies outside or there is no raster, with the message
/// that says so.
pub proof fn law_read_pixel_fails(
    found: Lookup,
    band: u32,
    col: u32,
    row: u32,
    pixel: Result<u64, String>,
)
    requires
        is_pixel_read(found, band, col, row, pixel),
    ensures
        found matches Ok(raster) ==> (pixel is Err <==> col >= raster.width || row
            >= raster.height),
        found is Ok && pixel is Err ==> pixel->Err_0@ == "Pixel out of bounds"@,
        found matches Err(e) ==> pixel is Err && pixel->Err_0@ == e@,
{
}

/// Reading a pixel of any raster: bands beyond the last count as the last, a sample that the raster
/// does not hold is a NaN, and without bands every pixel is the first sample.
pub proof fn law_read_pixel_of_raster(
    found: Lookup,
    band: u32,
    col: u32,
    row: u32,
    pixel: Result<u64, String>,
    at: int,
)
    requires
        found is Ok,
        col < (*found->Ok_0).width,
        row < (*found->Ok_0).height,
        band >= 1,
        (*found->Ok_0).bands == 0 ==> at == 0,
        1 <= band <= (*found->Ok_0).bands ==> at == (row * (*found->Ok_0).width + col)
            * (*found->Ok_0).bands + (band - 1),
        1 <= (*found->Ok_0).bands < band ==> at == (row * (*found->Ok_0).width + col)
            * (*found->Ok_0).bands + ((*found->Ok_0).bands - 1),
        is_pixel_read(found, band, col, row, pixel),
    ensures
        pixel is Ok,
        at < (*found->Ok_0).pixels@.len() ==> pixel->Ok_0 == (*found->Ok_0).pixels@[at],
        at >= (*found->Ok_0).pixels@.len() ==> is_nan(pixel->Ok_0),
{
}

/// All pixels of a band are, place by place, what reading each pixel gives.
pub proof fn law_all_pixels(
    found: Lookup,
    band: u32,
    col: u32,
    row: u32,
    pixel: Result<u64, String>,
    pixels: Result<Vec<u64>, String>,
)
    requires
        is_pixel_read(found, band, col, row, pixel),
        are_all_pixels(found, band, pixels),
    ensures
        found is Ok <==> pixels is Ok,
        found matches Ok(raster) ==> pixels->Ok_0@.len() == raster.width * raster.height,
        found matches Ok(raster) ==> col < raster.width && row < raster.height ==> {
            &&& 0 <= row * raster.width + col < pixels->Ok_0@.len()
            &&& pixel == Ok::<u64, String>(pixels->Ok_0@[row * raster.width + col])
        },
        found matches Err(e) ==> pixels->Err_0@ == e@,
{
    if let Ok(raster) = found {
        assert(raster.width * raster.height >= 0) by (nonlinear_arith)
            requires
                raster.width >= 0,
                raster.height >= 0,
        ;
        if col < raster.width && row < raster.height {
            lemma_sample_place(
                raster.width as int,
                raster.height as int,
                1,
                col as int,
                row as int,
                0,
            );
        }
    }
}

/// The pixels that the statistics and the histogram of a band are about: for each band of a
/// complete image, its samples, row by row.
pub proof fn law_band_pixels(
    found: Lookup,
    tags: TiffTags,
    samples: Samples,
    band: i32,
    pixels: Result<Vec<u64>, String>,
    col: u32,
    row: u32,
)
    requires
        found is Ok,
        is_complete(*found->Ok_0, tags, samples),
        1 <= band <= band_number(tags),
        are_band_pixels(found, band, pixels),
        col < tags.width,
        row < tags.height,
    ensures
        pixels is Ok,
        pixels->Ok_0@.len() == tags.width * tags.height,
        0 <= row * tags.width + col < pixels->Ok_0@.len(),
        is_sample(
            samples,
            (row * tags.width + col) * band_number(tags) + (band - 1),
            pixels->Ok_0@[row * tags.width + col],
        ),
{
    lemma_sample_place(
        tags.width as int,
        tags.height as int,
        band_number(tags) as int,
        col as int,
        row as int,
        band - 1,
    );
}

/// The pixels that the statistics and the histogram are about are all pixels of the band; band
/// numbers below 1 count as 1.
pub proof fn law_band_pixels_are_all_pixels(
    found: Lookup,
    band: i32,
    pixels: Result<Vec<u64>, String>,
    b: u32,
    all: Result<Vec<u64>, String>,
)
    requires
        are_band_pixels(found, band, pixels),
        b as int == (if band < 1 {
            1
        } else {
            band as int
        }),
        are_all_pixels(found, b, all),
    ensures
        pixels is Ok <==> all is Ok,
        pixels is Ok ==> pixels->Ok_0@ == all->Ok_0@,
        pixels is Err ==> pixels->Err_0@ == all->Err_0@,
{
}

/// The value of a row is what reading its pixel gives, where columns and rows below 0 count as 0
/// and bands below 1 as 1; and a NaN where that fails.
pub proof fn law_pixel_row(
    found: Lookup,
    band: i32,
    col: i32,
    row: i32,
    b: u32,
    c: u32,
    r: u32,
    pixel: Result<u64, String>,
)
    requires
        b as int == (if band < 1 {
            1
        } else {
            band as int
        }),
        c as int == (if col < 0 {
            0
        } else {
            col as int
        }),
        r as int == (if row < 0 {
            0
        } else {
            row as int
        }),
        is_pixel_read(found, b, c, r, pixel),
    ensures
        pixel is Ok ==> pixel_row(found, band, col, row) == pixel->Ok_0,
        pixel is Err ==> is_nan(pixel_row(found, band, col, row)),
{
}

/// The value of a row whose pixel lies inside a complete image is the sample of the image.
pub proof fn law_pixel_row_of_image(
    found: Lookup,
    tags: TiffTags,
    samples: Samples,
    band: i32,
    col: i32,
    row: i32,
)
    requires
        found is Ok,
        is_complete(*found->Ok_0, tags, samples),
        0 <= col < tags.width,
        0 <= row < tags.height,
        1 <= band <= band_number(tags),
    ensures
        is_sample(
            samples,
            (row * tags.width + col) * band_number(tags) + (band - 1),
            pixel_row(found, band, col, row),
        ),
{
    lemma_sample_place(
        tags.width as int,
        tags.height as int,
        band_number(tags) as int,
        col as int,
        row as int,
        band - 1,
    );
}

/// No pixel of the first band is less than the least that is reported or greater than the greatest,
/// and where there is a number among the pixels both are pixels.
pub proof fn law_min_and_max(found: Lookup, pixels: Result<Vec<u64>, String>, i: int)
    requires
        found is Ok,
        are_band_pixels(found, 1, pixels),
        0 <= i < pixels->Ok_0@.len(),
        !is_nan(pixels->Ok_0@[i]),
    ensures
        value(min_row(found)) <= value(pixels->Ok_0@[i]) <= value(max_row(found)),
        min_row(found) == INFINITY || pixels->Ok_0@.contains(min_row(found)),
        max_row(found) == MINUS_INFINITY || pixels->Ok_0@.contains(max_row(found)),
        !is_nan(min_row(found)),
        !is_nan(max_row(found)),
{
    law_least(pixels->Ok_0@);
    law_greatest(pixels->Ok_0@);
}

/// Without a raster, each function gives its default.
pub proof fn law_rows_without_raster(found: Lookup, band: i32, col: i32, row: i32)
    requires
        found is Err,
    ensures
        is_nan(pixel_row(found, band, col, row)),
        width_row(found) == 0,
        height_row(found) == 0,
        bands_row(found) == 0,
        is_nan(nodata_row(found)),
        transform_row(found) == (
            0u64,
            0x3ff0_0000_0000_0000u64,
            0u64,
            0u64,
            0u64,
            0xbff0_0000_0000_0000u64,
        ),
        scale_x_row(found) == 0x3ff0_0000_0000_0000,
        scale_y_row(found) == 0x3ff0_0000_0000_0000,
        crs_row(found).len() == 0,
        min_row(found) == 0x7ff0_0000_0000_0000,
        max_row(found) == 0xfff0_0000_0000_0000,
{
}

/// The size and the number of bands of a loaded raster are those of its tags.
pub proof fn law_size_rows(found: Lookup, tags: TiffTags, samples: Samples)
    requires
        found is Ok,
        is_raster_of(*found->Ok_0, tags, samples),
    ensures
        (*found->Ok_0).width == tags.width,
        (*found->Ok_0).height == tags.height,
        (*found->Ok_0).bands == band_number(tags),
        tags.width <= i32::MAX ==> width_row(found) == tags.width,
        tags.height <= i32::MAX ==> height_row(found) == tags.height,
        band_number(tags) <= i32::MAX ==> bands_row(found) == band_number(tags),
        tags.width > i32::MAX ==> width_row(found) == tags.width - 0x1_0000_0000,
        tags.height > i32::MAX ==> height_row(found) == tags.height - 0x1_0000_0000,
        band_number(tags) > i32::MAX ==> bands_row(found) == band_number(tags) - 0x1_0000_0000,
{
    lemma_cut_to_signed(tags.width);
    lemma_cut_to_signed(tags.height);
    lemma_cut_to_signed(band_number(tags));
}

/// A number beyond the signed range becomes negative.
proof fn lemma_cut_to_signed(n: u32)
    ensures
        n <= i32::MAX ==> n as i32 == n,
        n > i32::MAX ==> n as i32 == n - 0x1_0000_0000,
{
    assert(n > 0x7fff_ffff ==> n as i32 == n - 0x1_0000_0000) by (bit_vector);
}

/// The row of metadata says what is in the tags.
pub proof fn law_metadata_row(
    path: Seq<char>,
    raster: CachedRaster,
    tags: TiffTags,
    samples: Samples,
    row: MetaRow,
)
    requires
        is_raster_of(raster, tags, samples),
        is_meta_row(path, raster, row),
    ensures
        row.path@ == path,
        tags.width <= i32::MAX ==> row.width == tags.width,
        tags.height <= i32::MAX ==> row.height == tags.height,
        band_number(tags) <= i32::MAX ==> row.bands == band_number(tags),
        row.crs@ == raster.crs@,
{
    lemma_cut_to_signed(tags.width);
    lemma_cut_to_signed(tags.height);
    lemma_cut_to_signed(band_number(tags));
}

/// Pixel (0, 0) of a loaded raster maps to the tie point: the first and the fourth number of the
/// transform are the tie point's fourth and fifth. Missing numbers count as 0.
pub proof fn law_transform_origin(found: Lookup, tags: TiffTags, samples: Samples)
    requires
        found is Ok,
        is_raster_of(*found->Ok_0, tags, samples),
    ensures
        transform_row(found) == (*found->Ok_0).geo_transform,
        tags.tiepoint matches Some(t) ==> t@.len() > 3 ==> transform_row(found).0 == t@[3],
        tags.tiepoint matches Some(t) ==> t@.len() > 4 ==> transform_row(found).3 == t@[4],
        tags.tiepoint matches Some(t) ==> t@.len() <= 3 ==> transform_row(found).0 == 0,
        tags.tiepoint matches Some(t) ==> t@.len() <= 4 ==> transform_row(found).3 == 0,
        tags.tiepoint is None ==> transform_row(found).0 == 0 && transform_row(found).3 == 0,
        transform_row(found).2 == 0,
        transform_row(found).4 == 0,
{
}

/// One column further is the first number of the pixel scale to the east, one row further the
/// second to the south. Missing numbers count as 1. The sizes that are reported are these numbers,
/// the height without its sign.
pub proof fn law_transform_scale(found: Lookup, tags: TiffTags, samples: Samples)
    requires
        found is Ok,
        is_raster_of(*found->Ok_0, tags, samples),
    ensures
        scale_x_row(found) == transform_row(found).1,
        tags.scale matches Some(s) ==> s@.len() > 0 ==> transform_row(found).1 == s@[0],
        tags.scale matches Some(s) ==> s@.len() > 1 ==> {
            &&& value(transform_row(found).5) == -value(s@[1])
            &&& transform_row(found).5 >= SIGN <==> s@[1] < SIGN
            &&& is_nan(transform_row(found).5) == is_nan(s@[1])
            &&& scale_y_row(found) < SIGN
            &&& value(scale_y_row(found)) == value(s@[1]) || value(scale_y_row(found)) == -value(
                s@[1],
            )
            &&& is_nan(scale_y_row(found)) == is_nan(s@[1])
        },
        tags.scale matches Some(s) ==> s@.len() == 0 ==> transform_row(found).1
            == 0x3ff0_0000_0000_0000,
        tags.scale matches Some(s) ==> s@.len() <= 1 ==> transform_row(found).5
            == 0xbff0_0000_0000_0000 && scale_y_row(found) == 0x3ff0_0000_0000_0000,
        tags.scale is None ==> transform_row(found).1 == 0x3ff0_0000_0000_0000
            && transform_row(found).5 == 0xbff0_0000_0000_0000 && scale_y_row(found)
            == 0x3ff0_0000_0000_0000,
{
}

/// Whether the `i`-th entry of a directory of keys lies in it and is a reference system key.
pub open spec fn is_crs_entry(keys: Seq<u16>, i: int) -> bool {
    4 + 4 * i + 3 < keys.len() && (keys[4 + 4 * i] == 3072 || keys[4 + 4 * i] == 2048)
}

/// The reference system of a loaded raster: that of the first entry, of those that the directory
/// says it has, whose key is 3072 or 2048.
pub proof fn law_crs_is_of_first_entry(
    found: Lookup,
    tags: TiffTags,
    samples: Samples,
    keys: Seq<u16>,
    i: int,
)
    requires
        found is Ok,
        is_raster_of(*found->Ok_0, tags, samples),
        tags.geo_keys matches Some(v) && v@ == keys,
        keys.len() >= 4,
        0 <= i < keys[3],
        4 + 4 * i + 3 < keys.len(),
        keys[4 + 4 * i] == 3072 || keys[4 + 4 * i] == 2048,
        forall|k: int| 0 <= k < i ==> !#[trigger] is_crs_entry(keys, k),
    ensures
        crs_row(found) == "EPSG:"@ + decimal(keys[4 + 4 * i + 3] as nat),
{
    lemma_crs_found(keys, 0, i);
}

/// The search for a reference system from one entry to the first that names one.
pub proof fn lemma_crs_found(keys: Seq<u16>, from: int, i: int)
    requires
        0 <= from <= i < keys[3],
        is_crs_entry(keys, i),
        forall|k: int| from <= k < i ==> !#[trigger] is_crs_entry(keys, k),
    ensures
        crs_from(keys, from) == "EPSG:"@ + decimal(keys[4 + 4 * i + 3] as nat),
    decreases i - from,
{
    if from < i {
        assert(!is_crs_entry(keys, from));
        lemma_crs_found(keys, from + 1, i);
    }
}

/// The hint to look at the tags is given just where no entry, of those that the directory says it
/// has, is a reference system key.
pub proof fn law_crs_hint(found: Lookup, tags: TiffTags, samples: Samples)
    requires
        found is Ok,
        is_raster_of(*found->Ok_0, tags, samples),
        tags.geo_keys matches Some(v) ==> v@.len() >= 4 ==> forall|k: int|
            0 <= k < v@[3] ==> !#[trigger] is_crs_entry(v@, k),
    ensures
        crs_row(found) == "See GeoTIFF tags"@,
{
    if let Some(v) = tags.geo_keys {
        if v@.len() >= 4 {
            lemma_crs_not_found(v@, 0);
        }
    }
}

/// The search for a reference system where no entry names one.
pub proof fn lemma_crs_not_found(keys: Seq<u16>, from: int)
    requires
        0 <= from,
        forall|k: int| from <= k < keys[3] ==> !#[trigger] is_crs_entry(keys, k),
    ensures
        crs_from(keys, from) == "See GeoTIFF tags"@,
    decreases keys[3] - from,
{
    if from < keys[3] {
        assert(!is_crs_entry(keys, from));
        lemma_crs_not_found(keys, from + 1);
    }
}

/// What stands for no data in a loaded raster is the first of its texts that was read as a number,
/// and a NaN where none was.
pub proof fn law_nodata_row(found: Lookup, tags: TiffTags, samples: Samples, i: int)
    requires
        found is Ok,
        is_raster_of(*found->Ok_0, tags, samples),
        0 <= i <= tags.nodata@.len(),
        forall|k: int|
            0 <= k < i ==> (#[trigger] tags.nodata@[k] is None || is_nan(tags.nodata@[k]->0)),
    ensures
        i < tags.nodata@.len() && tags.nodata@[i] is Some && !is_nan(tags.nodata@[i]->0)
            ==> nodata_row(found) == tags.nodata@[i]->0,
        i == tags.nodata@.len() ==> is_nan(nodata_row(found)),
{
    if i == tags.nodata@.len() {
        lemma_no_number(tags.nodata@);
    } else if tags.nodata@[i] is Some && !is_nan(tags.nodata@[i]->0) {
        law_nodata_is_first_number(tags.nodata@, i);
    }
}

/// The text of the no-data tag is the only one where there is such a tag, and without tags there is
/// none.
pub proof fn law_nodata_tag_comes_first(text: String, metadata: Option<String>)
    ensures
        nodata_texts_of(view_of(Some(text)), view_of(metadata)) == seq![text@],
        nodata_texts_of(view_of(None), view_of(None)).len() == 0,
{
}

/// The texts of a list of lines and then another are those of the one and then those of the other.
pub proof fn law_nodata_lines(first: Seq<Seq<char>>, second: Seq<Seq<char>>)
    ensures
        nodata_numbers(first + second) == nodata_numbers(first) + nodata_numbers(second),
    decreases second.len(),
{
    if second.len() == 0 {
        assert(first + second == first);
        assert(nodata_numbers(first) + Seq::<Seq<char>>::empty() == nodata_numbers(first));
    } else {
        law_nodata_lines(first, second.drop_last());
        assert((first + second).drop_last() == first + second.drop_last());
        assert((first + second).last() == second.last());
        assert(nodata_numbers(first + second) == nodata_numbers(first) + nodata_numbers(second));
    }
}

/// A line that holds one of the two marks gives what stands behind its first equals sign and before
/// the next, trimmed; a line without a mark or without an equals sign gives nothing.
pub proof fn law_nodata_line(pieces: Seq<Seq<char>>, at: int, line: Seq<char>)
    requires
        pieces.len() > 0,
        forall|k: int| 0 <= k < pieces.len() ==> !(#[trigger] pieces[k]).contains('='),
        line == join(pieces, '='),
    ensures
        pieces.len() > 1 && 0 <= at <= line.len() - 6 && (line.subrange(at, at + 6) == "NODATA"@
            || line.subrange(at, at + 6) == "NoData"@) ==> nodata_texts_of_line(line) == seq![
            trimmed(pieces[1]),
        ],
        pieces.len() == 1 ==> nodata_texts_of_line(line).len() == 0,
        (forall|i: int|
            0 <= i <= line.len() - 6 ==> #[trigger] line.subrange(i, i + 6) != "NODATA"@
                && line.subrange(i, i + 6) != "NoData"@) ==> nodata_texts_of_line(line).len() == 0,
{
    law_split_of_join(pieces, '=');
    reveal_strlit("NODATA");
    reveal_strlit("NoData");
    reveal_with_fuel(nodata_numbers, 2);
    assert(seq![line].drop_last() == Seq::<Seq<char>>::empty());
    assert(seq![line].last() == line);
    if pieces.len() > 1 && 0 <= at <= line.len() - 6 && (line.subrange(at, at + 6) == "NODATA"@
        || line.subrange(at, at + 6) == "NoData"@) {
        assert(line.subrange(at, at + "NODATA"@.len()) == "NODATA"@ || line.subrange(
            at,
            at + "NoData"@.len(),
        ) == "NoData"@);
        assert(occurs("NODATA"@, line) || occurs("NoData"@, line));
        assert(nodata_texts_of_line(line) == seq![trimmed(pieces[1])]);
    }
}

/// The texts of one line.
pub open spec fn nodata_texts_of_line(line: Seq<char>) -> Seq<Seq<char>> {
    nodata_numbers(seq![line])
}

/// The metadata tag is read line by line where there is no no-data tag.
pub proof fn law_nodata_metadata(lines: Seq<Seq<char>>, text: String)
    requires
        lines.len() > 0,
        text@ == join(lines, '\n'),
        forall|k: int| 0 <= k < lines.len() ==> !(#[trigger] lines[k]).contains('\n'),
    ensures
        nodata_texts_of(view_of(None), view_of(Some(text))) == nodata_numbers(lines),
{
    law_split_of_join(lines, '\n');
}

/// Which message each file without a raster gives, and that any other gives a raster.
pub proof fn law_failures(e: String, tags: TiffTags, samples: Samples)
    ensures
        failure_of(TiffFile::NotOpened(e)) == Some("Cannot open: "@ + e@),
        failure_of(TiffFile::NotTiff(e)) == Some("TIFF: "@ + e@),
        failure_of(TiffFile::NoDimensions(e)) == Some(e@),
        failure_of(TiffFile::NotRead(e)) == Some("Read: "@ + e@),
        samples is Other ==> failure_of(TiffFile::Image(tags, samples)) == Some(
            "Unsupported pixel type"@,
        ),
        samples is Double || samples is Single || samples is Short || samples is Byte
            ==> failure_of(TiffFile::Image(tags, samples)) is None,
{
}

/// A raster in a file is one of its tags and samples, and holds the first samples of the image, as
/// many as it has and as the dimensions ask for.
pub proof fn law_samples_kept(raster: CachedRaster, tags: TiffTags, samples: Samples, i: int)
    requires
        is_raster_in(raster, TiffFile::Image(tags, samples)),
    ensures
        is_raster_of(raster, tags, samples),
        band_number(tags) >= 1 ==> raster.pixels@.len() == (if sample_count(samples) < (tags.width
            * tags.height) * band_number(tags) {
            sample_count(samples) as int
        } else {
            (tags.width * tags.height) * band_number(tags)
        }),
        band_number(tags) == 0 ==> raster.pixels@.len() == (if sample_count(samples) < tags.width
            * tags.height {
            sample_count(samples) as int
        } else {
            tags.width * tags.height
        }),
        0 <= i < raster.pixels@.len() ==> is_sample(samples, i, raster.pixels@[i]),
{
}

/// The larger of a number and the least that is allowed.
pub proof fn law_at_least(n: i32, least_allowed: u32)
    ensures
        at_least(n, least_allowed) >= least_allowed,
        at_least(n, least_allowed) >= n,
        at_least(n, least_allowed) == least_allowed || at_least(n, least_allowed) == n,
{
}

/// A place counts once for its own bin and not for any other.
pub proof fn law_tally_of_one(place: usize, k: int)
    ensures
        tally(seq![place], k) == if place == k {
            1int
        } else {
            0
        },
        tally(Seq::empty(), k) == 0,
{
    reveal_with_fuel(tally, 2);
    assert(seq![place].drop_last() == Seq::<usize>::empty());
}

/// The counts of two lists of places together are the sums of their counts.
pub proof fn law_tally_adds(first: Seq<usize>, second: Seq<usize>, k: int)
    ensures
        tally(first + second, k) == tally(first, k) + tally(second, k),
    decreases second.len(),
{
    if second.len() == 0 {
        assert(first + second == first);
    } else {
        assert((first + second).drop_last() == first + second.drop_last());
        law_tally_adds(first, second.drop_last(), k);
    }
}

/// A histogram of some pixels has two bins or more, as many as asked for, and each counts the
/// pixels of its place; all of them together count the pixels whose place is a bin.
pub proof fn law_histogram(places: Seq<usize>, bins: i32, counts: Seq<i64>)
    requires
        are_counts(places, at_least(bins, 2) as int, counts),
    ensures
        places.len() == 0 ==> counts.len() == 0,
        places.len() > 0 ==> counts.len() >= 2 && counts.len() >= bins && (counts.len() == 2
            || counts.len() == bins),
        forall|k: int| 0 <= k < counts.len() ==> #[trigger] counts[k] == tally(places, k),
        (forall|i: int| 0 <= i < places.len() ==> #[trigger] places[i] < counts.len()) ==> total(
            counts,
        ) == places.len(),
{
    crate::raster_table::law_counts_add_up(places, counts);
    if forall|i: int| 0 <= i < places.len() ==> #[trigger] places[i] < counts.len() {
        lemma_all_below(places, counts.len() as int);
    }
}

/// Places that are all below a number.
proof fn lemma_all_below(places: Seq<usize>, n: int)
    requires
        forall|i: int| 0 <= i < places.len() ==> #[trigger] places[i] < n,
    ensures
        places_below(places, n) == places.len(),
    decreases places.len(),
{
    if places.len() > 0 {
        let first = places.drop_last();
        assert forall|i: int| 0 <= i < first.len() implies #[trigger] first[i] < n by {
            assert(first[i] == places[i]);
        }
        lemma_all_below(first, n);
        assert(places[places.len() - 1] < n);
    }
}

} // verus!
