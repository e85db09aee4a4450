//! What calls of the raster functions return for what is in a file.
use crate::double::{is_nan, law_greatest, law_least, law_least_and_greatest_occur, value};
use crate::raster::{
    all_pixels, band_count, crs, geo_transform, height, is_sample, law_nodata_is_first_number,
    lemma_no_number, make_raster, nodata, nodata_numbers, nodata_texts, pick_nodata, read_crs,
    read_metadata, read_pixel, sample_count, scale_x, scale_y, width, CachedRaster, Lookup,
    RasterCache, Samples, TiffFile, TiffTags,
};
use crate::raster_laws::{
    band_number, is_complete, is_crs_entry, law_all_pixels, law_band_pixels,
    law_crs_is_of_first_entry, law_histogram, law_nodata_metadata, law_nodata_row,
    law_nodata_tag_comes_first, law_pixel_row_of_image, law_read_pixel, law_read_pixel_fails,
    law_read_pixel_of_raster, law_rows_without_raster, law_transform_origin, law_transform_scale,
    lemma_crs_found, lemma_crs_not_found,
};
use crate::raster_scalar::{
    first_band, RsBandCount, RsCrs, RsGeoTransform, RsHeight, RsMax, RsMin, RsNodata, RsScaleX,
    RsScaleY, RsValue, RsWidth,
};
use crate::raster_table::{
    tally, total, MetaRow, RsHistogramBind, RsHistogramInit, RsHistogramVTab, RsMetaBind,
    RsMetaInit, RsMetadataVTab, RsStatsBind, RsStatsInit, RsStatsVTab,
};
use crate::text::{decimal, join, views};
use std::sync::Arc;
use vstd::prelude::*;

verus! {

/// Reading a pixel inside a complete image gives the sample of the image at
/// (row * width + col) * bands + (band - 1).
pub proof fn law_calling_read_pixel(
    found: &Lookup,
    tags: TiffTags,
    samples: Samples,
    band: u32,
    col: u32,
    row: u32,
    pixel: Result<u64, String>,
)
    requires
        call_ensures(read_pixel, (found, band, col, row), pixel),
        found is Ok,
        is_complete(*found->Ok_0, tags, samples),
        col < tags.width,
        row < tags.height,
        1 <= band <= band_number(tags),
    ensures
        pixel is Ok,
        is_sample(
            samples,
            (row * tags.width + col) * band_number(tags) + (band - 1),
            pixel->Ok_0,
        ),
{
    law_read_pixel(*found, tags, samples, band, col, row, pixel);
}

/// Reading a pixel outside fails with a message that says so, and without a raster it fails as
/// looking for the raster did.
pub proof fn law_calling_read_pixel_outside(
    found: &Lookup,
    band: u32,
    col: u32,
    row: u32,
    pixel: Result<u64, String>,
)
    requires
        call_ensures(read_pixel, (found, band, col, row), pixel),
    ensures
        *found matches Ok(raster) ==> (pixel is Ok <==> col < raster.width && row < raster.height),
        found is Ok && pixel is Err ==> pixel->Err_0@ == "Pixel out of bounds"@,
        *found matches Err(e) ==> pixel is Err && pixel->Err_0@ == e@,
{
    law_read_pixel_fails(*found, band, col, row, pixel);
}

/// Reading a pixel of any raster gives its sample of the band, or of the last band for numbers
/// beyond, and a NaN where the raster does not hold that sample.
pub proof fn law_calling_read_pixel_of_raster(
    found: &Lookup,
    band: u32,
    col: u32,
    row: u32,
    pixel: Result<u64, String>,
    at: int,
)
    requires
        call_ensures(read_pixel, (found, band, col, row), pixel),
        found is Ok,
        col < (*found->Ok_0).width,
        row < (*found->Ok_0).height,
        (*found->Ok_0).bands >= 1,
        band >= 1,
        band <= (*found->Ok_0).bands ==> at == (row * (*found->Ok_0).width + col)
            * (*found->Ok_0).bands + (band - 1),
        band > (*found->Ok_0).bands ==> at == (row * (*found->Ok_0).width + col)
            * (*found->Ok_0).bands + ((*found->Ok_0).bands - 1),
    ensures
        pixel is Ok,
        at < (*found->Ok_0).pixels@.len() ==> pixel->Ok_0 == (*found->Ok_0).pixels@[at],
        at >= (*found->Ok_0).pixels@.len() ==> is_nan(pixel->Ok_0),
{
    law_read_pixel_of_raster(*found, band, col, row, pixel, at);
}

/// Reading all pixels of a band gives, place by place, what reading each pixel gives.
pub proof fn law_calling_all_pixels(
    found: &Lookup,
    band: u32,
    col: u32,
    row: u32,
    pixel: Result<u64, String>,
    pixels: Result<Vec<u64>, String>,
)
    requires
        call_ensures(read_pixel, (found, band, col, row), pixel),
        call_ensures(all_pixels, (found, band), pixels),
    ensures
        *found matches Ok(raster) ==> pixels is Ok && pixels->Ok_0@.len() == raster.width
            * raster.height,
        *found matches Ok(raster) ==> col < raster.width && row < raster.height ==> pixel == Ok::<
            u64,
            String,
        >(pixels->Ok_0@[row * raster.width + col]),
        *found matches Err(e) ==> pixels is Err && pixels->Err_0@ == e@,
{
    law_all_pixels(*found, band, col, row, pixel, pixels);
}

/// The pixels that the statistics, the histogram and the reader of whole bands are about are, for
/// each band of a complete image, its samples, row by row.
pub proof fn law_calling_pixels(
    found: &Lookup,
    tags: TiffTags,
    samples: Samples,
    band: i32,
    b: u32,
    stats: Result<Vec<u64>, String>,
    histogram: Result<Vec<u64>, String>,
    all: Result<Vec<u64>, String>,
    col: u32,
    row: u32,
)
    requires
        call_ensures(RsStatsVTab::pixels, (found, band), stats),
        call_ensures(RsHistogramVTab::pixels, (found, band), histogram),
        call_ensures(all_pixels, (found, b), all),
        b == band,
        found is Ok,
        is_complete(*found->Ok_0, tags, samples),
        1 <= band <= band_number(tags),
        col < tags.width,
        row < tags.height,
    ensures
        stats is Ok && histogram is Ok && all is Ok,
        stats->Ok_0@ == all->Ok_0@,
        histogram->Ok_0@ == all->Ok_0@,
        all->Ok_0@.len() == tags.width * tags.height,
        is_sample(
            samples,
            (row * tags.width + col) * band_number(tags) + (band - 1),
            all->Ok_0@[row * tags.width + col],
        ),
{
    law_band_pixels(*found, tags, samples, band, stats, col, row);
}

/// The pixels of the first band of a complete image are the samples at multiples of the number of
/// bands; without a raster there are none.
pub proof fn law_calling_first_band(
    found: &Lookup,
    tags: TiffTags,
    samples: Samples,
    pixels: Vec<u64>,
    col: u32,
    row: u32,
)
    requires
        call_ensures(first_band, (found,), pixels),
        found is Ok ==> is_complete(*found->Ok_0, tags, samples),
        band_number(tags) >= 1,
        col < tags.width,
        row < tags.height,
    ensures
        found is Err ==> pixels@.len() == 0,
        found is Ok ==> pixels@.len() == tags.width * tags.height,
        found is Ok ==> is_sample(
            samples,
            (row * tags.width + col) * band_number(tags),
            pixels@[row * tags.width + col],
        ),
{
    if found is Ok {
        law_band_pixels(*found, tags, samples, 1, Ok(pixels), col, row);
    }
}

/// A row of `rs_value` is the sample of the image where the pixel lies inside, and a NaN where it
/// lies outside or there is no raster.
pub proof fn law_calling_value(
    found: &[Lookup],
    band: &[i32],
    col: &[i32],
    row: &[i32],
    rows: Vec<u64>,
    i: int,
    tags: TiffTags,
    samples: Samples,
)
    requires
        call_ensures(RsValue::invoke, (found, band, col, row), rows),
        0 <= i < found@.len(),
        found@[i] is Ok ==> is_complete(*found@[i]->Ok_0, tags, samples),
    ensures
        rows@.len() == found@.len(),
        found@[i] is Err ==> is_nan(rows@[i]),
        found@[i] is Ok && (col@[i] >= tags.width || row@[i] >= tags.height) ==> is_nan(rows@[i]),
        found@[i] is Ok && 0 <= col@[i] < tags.width && 0 <= row@[i] < tags.height && 1 <= band@[i]
            <= band_number(tags) ==> is_sample(
            samples,
            (row@[i] * tags.width + col@[i]) * band_number(tags) + (band@[i] - 1),
            rows@[i],
        ),
{
    let (b, c, r) = (band@[i], col@[i], row@[i]);
    if found@[i] is Ok && 0 <= c < tags.width && 0 <= r < tags.height && 1 <= b <= band_number(
        tags,
    ) {
        law_pixel_row_of_image(found@[i], tags, samples, b, c, r);
    }
}

/// The rows of the functions on the shape of a raster are what the tags of its file say.
pub proof fn law_calling_shape(
    found: &[Lookup],
    bands: Vec<i32>,
    widths: Vec<i32>,
    heights: Vec<i32>,
    i: int,
    tags: TiffTags,
    samples: Samples,
)
    requires
        call_ensures(RsBandCount::invoke, (found,), bands),
        call_ensures(RsWidth::invoke, (found,), widths),
        call_ensures(RsHeight::invoke, (found,), heights),
        0 <= i < found@.len(),
        found@[i] is Ok ==> is_complete(*found@[i]->Ok_0, tags, samples),
    ensures
        bands@.len() == found@.len() && widths@.len() == found@.len() && heights@.len()
            == found@.len(),
        found@[i] is Err ==> bands@[i] == 0 && widths@[i] == 0 && heights@[i] == 0,
        found@[i] is Ok && band_number(tags) <= i32::MAX ==> bands@[i] == band_number(tags),
        found@[i] is Ok && tags.width <= i32::MAX ==> widths@[i] == tags.width,
        found@[i] is Ok && tags.height <= i32::MAX ==> heights@[i] == tags.height,
{
}

/// The rows of the functions on the position of a raster: the first and the fourth number of the
/// transform are the tie point's fourth and fifth, the second is the first of the pixel scale, the
/// sixth minus the second of the pixel scale, and the sizes of a pixel are those of the scale.
pub proof fn law_calling_position(
    found: &[Lookup],
    transforms: Vec<(u64, u64, u64, u64, u64, u64)>,
    widths: Vec<u64>,
    heights: Vec<u64>,
    i: int,
    tags: TiffTags,
    samples: Samples,
)
    requires
        call_ensures(RsGeoTransform::invoke, (found,), transforms),
        call_ensures(RsScaleX::invoke, (found,), widths),
        call_ensures(RsScaleY::invoke, (found,), heights),
        0 <= i < found@.len(),
        found@[i] is Ok,
        is_complete(*found@[i]->Ok_0, tags, samples),
        tags.tiepoint matches Some(t) && t@.len() >= 5,
        tags.scale matches Some(s) && s@.len() >= 2,
    ensures
        transforms@.len() == found@.len() && widths@.len() == found@.len() && heights@.len()
            == found@.len(),
        transforms@[i].0 == tags.tiepoint->0@[3],
        transforms@[i].1 == tags.scale->0@[0],
        transforms@[i].2 == 0,
        transforms@[i].3 == tags.tiepoint->0@[4],
        transforms@[i].4 == 0,
        value(transforms@[i].5) == -value(tags.scale->0@[1]),
        widths@[i] == tags.scale->0@[0],
        value(heights@[i]) == value(tags.scale->0@[1]) || value(heights@[i]) == -value(
            tags.scale->0@[1],
        ),
        heights@[i] < 0x8000_0000_0000_0000,
{
    law_transform_origin(found@[i], tags, samples);
    law_transform_scale(found@[i], tags, samples);
}

/// The defaults of the functions on rows without a raster.
pub proof fn law_calling_without_raster(
    found: &[Lookup],
    band: &[i32],
    transforms: Vec<(u64, u64, u64, u64, u64, u64)>,
    widths: Vec<u64>,
    heights: Vec<u64>,
    nodatas: Vec<u64>,
    systems: Vec<String>,
    least: Vec<u64>,
    greatest: Vec<u64>,
    i: int,
)
    requires
        call_ensures(RsGeoTransform::invoke, (found,), transforms),
        call_ensures(RsScaleX::invoke, (found,), widths),
        call_ensures(RsScaleY::invoke, (found,), heights),
        call_ensures(RsNodata::invoke, (found, band), nodatas),
        call_ensures(RsCrs::invoke, (found,), systems),
        call_ensures(RsMin::invoke, (found,), least),
        call_ensures(RsMax::invoke, (found,), greatest),
        0 <= i < found@.len(),
        found@[i] is Err,
    ensures
        transforms@[i] == (
            0u64,
            0x3ff0_0000_0000_0000u64,
            0u64,
            0u64,
            0u64,
            0xbff0_0000_0000_0000u64,
        ),
        widths@[i] == 0x3ff0_0000_0000_0000,
        heights@[i] == 0x3ff0_0000_0000_0000,
        is_nan(nodatas@[i]),
        systems@[i]@.len() == 0,
        least@[i] == 0x7ff0_0000_0000_0000,
        greatest@[i] == 0xfff0_0000_0000_0000,
{
    law_rows_without_raster(found@[i], 1, 0, 0);
}

/// The reference system of a directory of keys is that of its first entry, of those that it says it
/// has, whose key is 3072 or 2048, and a hint to look at the tags where there is none.
pub proof fn law_calling_read_crs(keys: &Option<Vec<u16>>, system: String, i: int)
    requires
        call_ensures(read_crs, (keys,), system),
        *keys is Some,
        (*keys)->0@.len() >= 4,
        0 <= i <= (*keys)->0@[3],
        forall|k: int| 0 <= k < i ==> !#[trigger] is_crs_entry((*keys)->0@, k),
    ensures
        i < (*keys)->0@[3] && 4 + 4 * i + 3 < (*keys)->0@.len() && ((*keys)->0@[4 + 4 * i] == 3072
            || (*keys)->0@[4 + 4 * i] == 2048) ==> system@ == "EPSG:"@ + decimal(
            (*keys)->0@[4 + 4 * i + 3] as nat,
        ),
        i == (*keys)->0@[3] ==> system@ == "See GeoTIFF tags"@,
{
    let v = (*keys)->0@;
    if i < v[3] {
        if is_crs_entry(v, i) {
            lemma_crs_found(v, 0, i);
        }
    } else {
        lemma_crs_not_found(v, 0);
    }
}

/// A row of `rs_crs` for a loaded raster.
pub proof fn law_calling_crs(
    found: &[Lookup],
    systems: Vec<String>,
    row: int,
    tags: TiffTags,
    samples: Samples,
    keys: Seq<u16>,
    i: int,
)
    requires
        call_ensures(RsCrs::invoke, (found,), systems),
        0 <= row < found@.len(),
        found@[row] is Ok,
        is_complete(*found@[row]->Ok_0, tags, samples),
        tags.geo_keys matches Some(v) && v@ == keys,
        keys.len() >= 4,
        0 <= i < keys[3],
        4 + 4 * i + 3 < keys.len(),
        keys[4 + 4 * i] == 3072 || keys[4 + 4 * i] == 2048,
        forall|k: int| 0 <= k < i ==> !#[trigger] is_crs_entry(keys, k),
    ensures
        systems@[row]@ == "EPSG:"@ + decimal(keys[4 + 4 * i + 3] as nat),
{
    law_crs_is_of_first_entry(found@[row], tags, samples, keys, i);
}

/// The number that stands for no data is the first that was read, and a NaN where none was.
pub proof fn law_calling_pick_nodata(numbers: &[Option<u64>], picked: u64, i: int)
    requires
        call_ensures(pick_nodata, (numbers,), picked),
        0 <= i <= numbers@.len(),
        forall|k: int|
            0 <= k < i ==> (#[trigger] numbers@[k] is None || is_nan(numbers@[k]->0)),
    ensures
        i < numbers@.len() && numbers@[i] is Some && !is_nan(numbers@[i]->0) ==> picked
            == numbers@[i]->0,
        i == numbers@.len() ==> is_nan(picked),
{
    if i == numbers@.len() {
        lemma_no_number(numbers@);
    } else if numbers@[i] is Some && !is_nan(numbers@[i]->0) {
        law_nodata_is_first_number(numbers@, i);
    }
}

/// A raster is made of each image of a type that can be read, and holds the dimensions of the tags;
/// of anything else none is made, and the message says what went wrong.
pub proof fn law_calling_make_raster(file: &TiffFile, made: Result<CachedRaster, String>, i: int)
    requires
        call_ensures(make_raster, (file,), made),
    ensures
        *file matches TiffFile::NotOpened(e) ==> made is Err && made->Err_0@ == "Cannot open: "@
            + e@,
        *file matches TiffFile::NotTiff(e) ==> made is Err && made->Err_0@ == "TIFF: "@ + e@,
        *file matches TiffFile::NoDimensions(e) ==> made is Err && made->Err_0@ == e@,
        *file matches TiffFile::NotRead(e) ==> made is Err && made->Err_0@ == "Read: "@ + e@,
        *file matches TiffFile::Image(tags, samples) ==> {
            &&& samples is Other <==> made is Err
            &&& samples is Other ==> made->Err_0@ == "Unsupported pixel type"@
            &&& made is Ok ==> {
                &&& made->Ok_0.width == tags.width
                &&& made->Ok_0.height == tags.height
                &&& made->Ok_0.bands == band_number(tags)
                &&& made->Ok_0.pixels@.len() <= sample_count(samples)
                &&& 0 <= i < made->Ok_0.pixels@.len() ==> is_sample(
                    samples,
                    i,
                    made->Ok_0.pixels@[i],
                )
            }
        },
{
}

/// What is known of a raster, one by one and all at once, is what it holds; each fails as looking
/// for the raster did.
pub proof fn law_calling_getters(
    found: &Lookup,
    bands: Result<u32, String>,
    columns: Result<u32, String>,
    rows: Result<u32, String>,
    no_data: Result<u64, String>,
    band: u32,
    transform: Result<(u64, u64, u64, u64, u64, u64), String>,
    system: Result<String, String>,
    all: Result<(u32, u32, u32, String), String>,
)
    requires
        call_ensures(band_count, (found,), bands),
        call_ensures(width, (found,), columns),
        call_ensures(height, (found,), rows),
        call_ensures(nodata, (found, band), no_data),
        call_ensures(geo_transform, (found,), transform),
        call_ensures(crs, (found,), system),
        call_ensures(read_metadata, (found,), all),
    ensures
        *found matches Ok(raster) ==> {
            &&& bands == Ok::<u32, String>(raster.bands)
            &&& columns == Ok::<u32, String>(raster.width)
            &&& rows == Ok::<u32, String>(raster.height)
            &&& no_data == Ok::<u64, String>(raster.nodata)
            &&& transform == Ok::<(u64, u64, u64, u64, u64, u64), String>(raster.geo_transform)
            &&& system == Ok::<String, String>(raster.crs)
            &&& all is Ok
            &&& all->Ok_0.0 == raster.width
            &&& all->Ok_0.1 == raster.height
            &&& all->Ok_0.2 == raster.bands
            &&& all->Ok_0.3 == raster.crs
        },
        *found matches Err(e) ==> {
            &&& bands is Err && bands->Err_0 == e
            &&& columns is Err && columns->Err_0 == e
            &&& rows is Err && rows->Err_0 == e
            &&& no_data is Err && no_data->Err_0 == e
            &&& transform is Err && transform->Err_0 == e
            &&& system is Err && system->Err_0 == e
            &&& all is Err && all->Err_0 == e
        },
{
}

/// The size of a pixel is what the transform says of one column and one row further on.
pub proof fn law_calling_scales(
    found: &Lookup,
    x: Result<u64, String>,
    y: Result<u64, String>,
)
    requires
        call_ensures(scale_x, (found,), x),
        call_ensures(scale_y, (found,), y),
    ensures
        *found matches Ok(raster) ==> {
            &&& x == Ok::<u64, String>(raster.geo_transform.1)
            &&& y is Ok
            &&& y->Ok_0 == raster.geo_transform.5 || y->Ok_0 + 0x8000_0000_0000_0000
                == raster.geo_transform.5
            &&& y->Ok_0 < 0x8000_0000_0000_0000
        },
        *found matches Err(e) ==> x is Err && x->Err_0 == e && y is Err && y->Err_0 == e,
{
}

/// The row of `rs_metadata` says what the tags of the file say.
pub proof fn law_calling_metadata(
    path: &str,
    found: &Lookup,
    bind: Result<RsMetaBind, String>,
    tags: TiffTags,
    samples: Samples,
)
    requires
        call_ensures(RsMetadataVTab::bind, (path, found), bind),
        found is Ok ==> is_complete(*found->Ok_0, tags, samples),
    ensures
        *found matches Err(e) ==> bind is Err && bind->Err_0 == e,
        *found matches Ok(raster) ==> {
            &&& bind is Ok
            &&& bind->Ok_0@.path@ == path@
            &&& tags.width <= i32::MAX ==> bind->Ok_0@.width == tags.width
            &&& tags.height <= i32::MAX ==> bind->Ok_0@.height == tags.height
            &&& band_number(tags) <= i32::MAX ==> bind->Ok_0@.bands == band_number(tags)
            &&& bind->Ok_0@.crs == raster.crs
        },
{
}

/// The texts that may say what stands for no data: that of the no-data tag, if there is one, and
/// otherwise what each line of the metadata tag gives, in order.
pub proof fn law_calling_nodata_texts(
    tag: &Option<String>,
    metadata: &Option<String>,
    texts: Vec<String>,
    lines: Seq<Seq<char>>,
)
    requires
        call_ensures(nodata_texts, (tag, metadata), texts),
        *tag is None && *metadata is Some ==> (*metadata)->0@ == join(lines, '\n'),
        lines.len() > 0,
        forall|k: int| 0 <= k < lines.len() ==> !(#[trigger] lines[k]).contains('\n'),
    ensures
        *tag matches Some(text) ==> texts@.len() == 1 && texts@[0]@ == text@,
        *tag is None && *metadata is None ==> texts@.len() == 0,
        *tag is None && *metadata is Some ==> views(texts@) == nodata_numbers(lines),
{
    match *tag {
        Some(text) => {
            law_nodata_tag_comes_first(text, *metadata);
            assert(views(texts@)[0] == text@);
        },
        None => {
            if let Some(text) = *metadata {
                law_nodata_metadata(lines, text);
            }
            assert(views(texts@).len() == texts@.len());
        },
    }
}

/// A row of `rs_nodata` is the first number that was read for no data, whatever the band.
pub proof fn law_calling_nodata(
    found: &[Lookup],
    band: &[i32],
    rows: Vec<u64>,
    row: int,
    tags: TiffTags,
    samples: Samples,
    i: int,
)
    requires
        call_ensures(RsNodata::invoke, (found, band), rows),
        0 <= row < found@.len(),
        found@[row] is Ok,
        is_complete(*found@[row]->Ok_0, tags, samples),
        0 <= i <= tags.nodata@.len(),
        forall|k: int|
            0 <= k < i ==> (#[trigger] tags.nodata@[k] is None || is_nan(tags.nodata@[k]->0)),
    ensures
        rows@.len() == found@.len(),
        i < tags.nodata@.len() && tags.nodata@[i] is Some && !is_nan(tags.nodata@[i]->0)
            ==> rows@[row] == tags.nodata@[i]->0,
        i == tags.nodata@.len() ==> is_nan(rows@[row]),
{
    law_nodata_row(found@[row], tags, samples, i);
}

/// Rows of `rs_min` and `rs_max`: both are pixels of the first band, and every number among these
/// pixels lies between them.
pub proof fn law_calling_min_and_max(
    found: &[Lookup],
    least: Vec<u64>,
    greatest: Vec<u64>,
    row: int,
    pixels: Vec<u64>,
    i: int,
)
    requires
        call_ensures(RsMin::invoke, (found,), least),
        call_ensures(RsMax::invoke, (found,), greatest),
        0 <= row < found@.len(),
        call_ensures(first_band, (&found@[row],), pixels),
        0 <= i < pixels@.len(),
        !is_nan(pixels@[i]),
    ensures
        least@.len() == found@.len() && greatest@.len() == found@.len(),
        value(least@[row]) <= value(pixels@[i]) <= value(greatest@[row]),
        pixels@.contains(least@[row]),
        pixels@.contains(greatest@[row]),
{
    law_least(pixels@);
    law_greatest(pixels@);
    law_least_and_greatest_occur(pixels@, i);
}

/// The rows of `rs_histogram`: two bins or more, as many as asked for, with their middles as they
/// were handed in and the number of pixels in each; together all pixels whose place is a bin.
/// Without pixels there are no rows.
pub proof fn law_calling_histogram(
    bins: i32,
    n: u32,
    centers: &[u64],
    places: &[usize],
    bind: RsHistogramBind,
)
    requires
        call_ensures(RsHistogramVTab::bins, (bins,), n),
        call_ensures(RsHistogramVTab::bind, (bins, centers, places), bind),
    ensures
        bins >= 2 ==> n == bins,
        bins < 2 ==> n == 2,
        places@.len() == 0 ==> bind@.0.len() == 0 && bind@.1.len() == 0,
        places@.len() > 0 ==> bind@.0 == centers@ && bind@.1.len() == n,
        forall|k: int| 0 <= k < bind@.1.len() ==> #[trigger] bind@.1[k] == tally(places@, k),
        (forall|i: int| 0 <= i < places@.len() ==> #[trigger] places@[i] < bind@.1.len()) ==> total(
            bind@.1,
        ) == places@.len(),
{
    law_histogram(places@, bins, bind@.1);
}

/// The row of `rs_metadata` is read once.
pub proof fn law_calling_metadata_rows(
    start: RsMetaInit,
    first: &mut RsMetaInit,
    second: &mut RsMetaInit,
    bind: &RsMetaBind,
    shown: Option<MetaRow>,
    after: Option<MetaRow>,
)
    requires
        call_ensures(RsMetadataVTab::init, (), start),
        call_ensures(RsMetadataVTab::func, (first, bind), shown),
        call_ensures(RsMetadataVTab::func, (second, bind), after),
    ensures
        *old(first) == start ==> shown == Some(bind@),
        *old(second) == *final(first) ==> after is None,
{
}

/// The row of `rs_stats` is read once.
pub proof fn law_calling_stats_rows(
    start: RsStatsInit,
    first: &mut RsStatsInit,
    second: &mut RsStatsInit,
    bind: &RsStatsBind,
    shown: Option<(u64, u64, u64, u64, i64)>,
    after: Option<(u64, u64, u64, u64, i64)>,
)
    requires
        call_ensures(RsStatsVTab::init, (), start),
        call_ensures(RsStatsVTab::func, (first, bind), shown),
        call_ensures(RsStatsVTab::func, (second, bind), after),
    ensures
        *old(first) == start ==> shown == Some(bind@),
        *old(second) == *final(first) ==> after is None,
{
}

/// The rows of `rs_histogram` are read once, all of them.
pub proof fn law_calling_histogram_rows(
    start: RsHistogramInit,
    first: &mut RsHistogramInit,
    second: &mut RsHistogramInit,
    bind: &RsHistogramBind,
    shown: (Vec<u64>, Vec<i64>),
    after: (Vec<u64>, Vec<i64>),
)
    requires
        call_ensures(RsHistogramVTab::init, (), start),
        call_ensures(RsHistogramVTab::func, (first, bind), shown),
        call_ensures(RsHistogramVTab::func, (second, bind), after),
    ensures
        *old(first) == start ==> (shown.0@, shown.1@) == bind@,
        *old(second) == *final(first) ==> after.0@.len() == 0 && after.1@.len() == 0,
{
}

/// A raster that was loaded is found under its path from then on, and what is found under any other
/// path does not change; a file without a raster changes nothing.
pub proof fn law_calling_cache(
    cache: &mut RasterCache,
    path: &str,
    file: &TiffFile,
    loaded: Lookup,
    before: &RasterCache,
    after: &RasterCache,
    found: Option<Arc<CachedRaster>>,
    other: &str,
    earlier: Option<Arc<CachedRaster>>,
    later: Option<Arc<CachedRaster>>,
)
    requires
        call_ensures(RasterCache::load_raster, (cache, path, file), loaded),
        call_ensures(RasterCache::get_cached, (after, path), found),
        call_ensures(RasterCache::get_cached, (before, other), earlier),
        call_ensures(RasterCache::get_cached, (after, other), later),
    ensures
        *after == *final(cache) ==> (loaded matches Ok(raster) ==> found is Some && *found->0
            == *raster),
        *before == *old(cache) && *after == *final(cache) && (other@ != path@ || loaded is Err)
            ==> {
            &&& earlier is Some <==> later is Some
            &&& earlier is Some ==> *earlier->0 == *later->0
        },
        *file is Image && !((*file)->Image_1 is Other) <==> loaded is Ok,
{
}

/// A new cache holds nothing.
pub proof fn law_calling_new_cache(cache: RasterCache, path: &str, found: Option<Arc<CachedRaster>>)
    requires
        call_ensures(RasterCache::new, (), cache),
        call_ensures(RasterCache::get_cached, (&cache, path), found),
    ensures
        found is None,
{
}

} // verus!
