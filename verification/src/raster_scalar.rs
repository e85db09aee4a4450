//! The raster functions on columns of values. The first column of each is what looking for the
//! raster of the row's path came to.
use crate::columns::{exact, only_signature, ColumnType, Signature};
use crate::double::{
    greatest, greatest_of, least, least_of, magnitude, INFINITY, MINUS_INFINITY, MINUS_ONE, NAN,
    ONE, ZERO,
};
use crate::raster::{
    all_pixels, band_count, band_samples, crs, geo_transform, height, is_inside, nodata,
    read_pixel, sample_of, scale_x, scale_y, width, Lookup,
};
use vstd::prelude::*;

verus! {

/// A number, or the least that is allowed.
pub open spec fn at_least(n: i32, least: u32) -> u32 {
    if n >= least {
        n as u32
    } else {
        least
    }
}

/// Raises a number to the least that is allowed.
pub(crate) fn raise(n: i32, least: u32) -> (r: u32)
    requires
        least <= 2,
    ensures
        r == at_least(n, least),
{
    if n >= least as i32 {
        n as u32
    } else {
        least
    }
}

/// What was read, or a default where nothing could be.
fn read_or<T: Copy>(read: Result<T, String>, default: T) -> (r: T)
    ensures
        r == match read {
            Ok(t) => t,
            Err(_) => default,
        },
{
    match read {
        Ok(t) => t,
        Err(_) => default,
    }
}

/// The pixel of a row: bands count from 1, and smaller numbers count as 1; columns and rows
/// below 0 count as 0. A pixel that cannot be read is a NaN.
pub open spec fn pixel_row(found: Lookup, band: i32, col: i32, row: i32) -> u64 {
    match found {
        Ok(raster) => if is_inside(*raster, at_least(col, 0), at_least(row, 0)) {
            sample_of(
                *raster,
                at_least(row, 0) * raster.width + at_least(col, 0),
                at_least(band, 1),
            )
        } else {
            NAN
        },
        Err(_) => NAN,
    }
}

/// `rs_value(path, band, col, row)`: the value of a pixel.
pub struct RsValue;

impl RsValue {
    /// The value of each row's pixel.
    pub fn invoke(found: &[Lookup], band: &[i32], col: &[i32], row: &[i32]) -> (rows: Vec<u64>)
        requires
            found@.len() == band@.len(),
            found@.len() == col@.len(),
            found@.len() == row@.len(),
        ensures
            rows@.len() == found@.len(),
            forall|i: int|
                0 <= i < found@.len() ==> #[trigger] rows@[i] == pixel_row(
                    found@[i],
                    band@[i],
                    col@[i],
                    row@[i],
                ),
    {
        let mut rows: Vec<u64> = Vec::new();
        for i in 0..found.len()
            invariant
                found@.len() == band@.len(),
                found@.len() == col@.len(),
                found@.len() == row@.len(),
                rows@.len() == i,
                forall|k: int|
                    0 <= k < i ==> #[trigger] rows@[k] == pixel_row(
                        found@[k],
                        band@[k],
                        col@[k],
                        row@[k],
                    ),
        {
            let (b, c, r) = (raise(band[i], 1), raise(col[i], 0), raise(row[i], 0));
            rows.push(read_or(read_pixel(&found[i], b, c, r), NAN));
        }
        rows
    }

    /// The argument types and the result type.
    pub fn signatures() -> (signatures: Vec<Signature>)
        ensures
            only_signature(
                signatures@,
                seq![ColumnType::Utf8, ColumnType::Int32, ColumnType::Int32, ColumnType::Int32],
                ColumnType::Float64,
            ),
    {
        exact(
            vec![ColumnType::Utf8, ColumnType::Int32, ColumnType::Int32, ColumnType::Int32],
            ColumnType::Float64,
        )
    }
}

/// The number of bands of a row, 0 without a raster.
pub open spec fn bands_row(found: Lookup) -> i32 {
    match found {
        Ok(raster) => raster.bands as i32,
        Err(_) => 0,
    }
}

/// `rs_band_count(path)`: the number of bands.
pub struct RsBandCount;

impl RsBandCount {
    /// The number of bands of each row.
    pub fn invoke(found: &[Lookup]) -> (rows: Vec<i32>)
        ensures
            rows@.len() == found@.len(),
            forall|i: int| 0 <= i < found@.len() ==> #[trigger] rows@[i] == bands_row(found@[i]),
    {
        let mut rows: Vec<i32> = Vec::new();
        for i in 0..found.len()
            invariant
                rows@.len() == i,
                forall|k: int| 0 <= k < i ==> #[trigger] rows@[k] == bands_row(found@[k]),
        {
            rows.push(read_or(band_count(&found[i]), 0) as i32);
        }
        rows
    }

    /// The argument types and the result type.
    pub fn signatures() -> (signatures: Vec<Signature>)
        ensures
            only_signature(signatures@, seq![ColumnType::Utf8], ColumnType::Int32),
    {
        exact(vec![ColumnType::Utf8], ColumnType::Int32)
    }
}

/// The width of a row's raster, 0 without one.
pub open spec fn width_row(found: Lookup) -> i32 {
    match found {
        Ok(raster) => raster.width as i32,
        Err(_) => 0,
    }
}

/// `rs_width(path)`: the number of pixels in a row.
pub struct RsWidth;

impl RsWidth {
    /// The width of each row's raster.
    pub fn invoke(found: &[Lookup]) -> (rows: Vec<i32>)
        ensures
            rows@.len() == found@.len(),
            forall|i: int| 0 <= i < found@.len() ==> #[trigger] rows@[i] == width_row(found@[i]),
    {
        let mut rows: Vec<i32> = Vec::new();
        for i in 0..found.len()
            invariant
                rows@.len() == i,
                forall|k: int| 0 <= k < i ==> #[trigger] rows@[k] == width_row(found@[k]),
        {
            rows.push(read_or(width(&found[i]), 0) as i32);
        }
        rows
    }

    /// The argument types and the result type.
    pub fn signatures() -> (signatures: Vec<Signature>)
        ensures
            only_signature(signatures@, seq![ColumnType::Utf8], ColumnType::Int32),
    {
        exact(vec![ColumnType::Utf8], ColumnType::Int32)
    }
}

/// The height of a row's raster, 0 without one.
pub open spec fn height_row(found: Lookup) -> i32 {
    match found {
        Ok(raster) => raster.height as i32,
        Err(_) => 0,
    }
}

/// `rs_height(path)`: the number of rows.
pub struct RsHeight;

impl RsHeight {
    /// The height of each row's raster.
    pub fn invoke(found: &[Lookup]) -> (rows: Vec<i32>)
        ensures
            rows@.len() == found@.len(),
            forall|i: int| 0 <= i < found@.len() ==> #[trigger] rows@[i] == height_row(found@[i]),
    {
        let mut rows: Vec<i32> = Vec::new();
        for i in 0..found.len()
            invariant
                rows@.len() == i,
                forall|k: int| 0 <= k < i ==> #[trigger] rows@[k] == height_row(found@[k]),
        {
            rows.push(read_or(height(&found[i]), 0) as i32);
        }
        rows
    }

    /// The argument types and the result type.
    pub fn signatures() -> (signatures: Vec<Signature>)
        ensures
            only_signature(signatures@, seq![ColumnType::Utf8], ColumnType::Int32),
    {
        exact(vec![ColumnType::Utf8], ColumnType::Int32)
    }
}

/// The number that stands for no data in a row, a NaN without a raster.
pub open spec fn nodata_row(found: Lookup) -> u64 {
    match found {
        Ok(raster) => raster.nodata,
        Err(_) => NAN,
    }
}

/// `rs_nodata(path, band)`: the number that stands for no data.
pub struct RsNodata;

impl RsNodata {
    /// The number that stands for no data in each row.
    pub fn invoke(found: &[Lookup], band: &[i32]) -> (rows: Vec<u64>)
        requires
            found@.len() == band@.len(),
        ensures
            rows@.len() == found@.len(),
            forall|i: int| 0 <= i < found@.len() ==> #[trigger] rows@[i] == nodata_row(found@[i]),
    {
        let mut rows: Vec<u64> = Vec::new();
        for i in 0..found.len()
            invariant
                found@.len() == band@.len(),
                rows@.len() == i,
                forall|k: int| 0 <= k < i ==> #[trigger] rows@[k] == nodata_row(found@[k]),
        {
            rows.push(read_or(nodata(&found[i], raise(band[i], 1)), NAN));
        }
        rows
    }

    /// The argument types and the result type.
    pub fn signatures() -> (signatures: Vec<Signature>)
        ensures
            only_signature(
                signatures@,
                seq![ColumnType::Utf8, ColumnType::Int32],
                ColumnType::Float64,
            ),
    {
        exact(vec![ColumnType::Utf8, ColumnType::Int32], ColumnType::Float64)
    }
}

/// The geo transform of a row, and without a raster that of pixels of size 1 from 0 on.
pub open spec fn transform_row(found: Lookup) -> (u64, u64, u64, u64, u64, u64) {
    match found {
        Ok(raster) => raster.geo_transform,
        Err(_) => (ZERO, ONE, ZERO, ZERO, ZERO, MINUS_ONE),
    }
}

/// `rs_geo_transform(path)`: the six numbers of the geo transform.
pub struct RsGeoTransform;

impl RsGeoTransform {
    /// The geo transform of each row.
    pub fn invoke(found: &[Lookup]) -> (rows: Vec<(u64, u64, u64, u64, u64, u64)>)
        ensures
            rows@.len() == found@.len(),
            forall|i: int|
                0 <= i < found@.len() ==> #[trigger] rows@[i] == transform_row(found@[i]),
    {
        let mut rows: Vec<(u64, u64, u64, u64, u64, u64)> = Vec::new();
        for i in 0..found.len()
            invariant
                rows@.len() == i,
                forall|k: int| 0 <= k < i ==> #[trigger] rows@[k] == transform_row(found@[k]),
        {
            rows.push(read_or(geo_transform(&found[i]), (ZERO, ONE, ZERO, ZERO, ZERO, MINUS_ONE)));
        }
        rows
    }

    /// The argument types and the result type.
    pub fn signatures() -> (signatures: Vec<Signature>)
        ensures
            only_signature(signatures@, seq![ColumnType::Utf8], ColumnType::Utf8),
    {
        exact(vec![ColumnType::Utf8], ColumnType::Utf8)
    }
}

/// `rs_pixel_to_world(path, col, row)`: the position of a pixel as a point in well-known text.
pub struct RsPixelToWorld;

impl RsPixelToWorld {
    /// The argument types and the result type.
    pub fn signatures() -> (signatures: Vec<Signature>)
        ensures
            only_signature(
                signatures@,
                seq![ColumnType::Utf8, ColumnType::Float64, ColumnType::Float64],
                ColumnType::Utf8,
            ),
    {
        exact(vec![ColumnType::Utf8, ColumnType::Float64, ColumnType::Float64], ColumnType::Utf8)
    }
}

/// `rs_world_to_pixel(path, x, y)`: the pixel at a position as a point in well-known text.
pub struct RsWorldToPixel;

impl RsWorldToPixel {
    /// The argument types and the result type.
    pub fn signatures() -> (signatures: Vec<Signature>)
        ensures
            only_signature(
                signatures@,
                seq![ColumnType::Utf8, ColumnType::Float64, ColumnType::Float64],
                ColumnType::Utf8,
            ),
    {
        exact(vec![ColumnType::Utf8, ColumnType::Float64, ColumnType::Float64], ColumnType::Utf8)
    }
}

/// The width of a pixel in a row, 1 without a raster.
pub open spec fn scale_x_row(found: Lookup) -> u64 {
    match found {
        Ok(raster) => raster.geo_transform.1,
        Err(_) => ONE,
    }
}

/// `rs_scale_x(path)`: the width of a pixel.
pub struct RsScaleX;

impl RsScaleX {
    /// The width of a pixel in each row.
    pub fn invoke(found: &[Lookup]) -> (rows: Vec<u64>)
        ensures
            rows@.len() == found@.len(),
            forall|i: int| 0 <= i < found@.len() ==> #[trigger] rows@[i] == scale_x_row(found@[i]),
    {
        let mut rows: Vec<u64> = Vec::new();
        for i in 0..found.len()
            invariant
                rows@.len() == i,
                forall|k: int| 0 <= k < i ==> #[trigger] rows@[k] == scale_x_row(found@[k]),
        {
            rows.push(read_or(scale_x(&found[i]), ONE));
        }
        rows
    }

    /// The argument types and the result type.
    pub fn signatures() -> (signatures: Vec<Signature>)
        ensures
            only_signature(signatures@, seq![ColumnType::Utf8], ColumnType::Float64),
    {
        exact(vec![ColumnType::Utf8], ColumnType::Float64)
    }
}

/// The height of a pixel in a row, 1 without a raster.
pub open spec fn scale_y_row(found: Lookup) -> u64 {
    match found {
        Ok(raster) => magnitude(raster.geo_transform.5),
        Err(_) => ONE,
    }
}

/// `rs_scale_y(path)`: the height of a pixel.
pub struct RsScaleY;

impl RsScaleY {
    /// The height of a pixel in each row.
    pub fn invoke(found: &[Lookup]) -> (rows: Vec<u64>)
        ensures
            rows@.len() == found@.len(),
            forall|i: int| 0 <= i < found@.len() ==> #[trigger] rows@[i] == scale_y_row(found@[i]),
    {
        let mut rows: Vec<u64> = Vec::new();
        for i in 0..found.len()
            invariant
                rows@.len() == i,
                forall|k: int| 0 <= k < i ==> #[trigger] rows@[k] == scale_y_row(found@[k]),
        {
            rows.push(read_or(scale_y(&found[i]), ONE));
        }
        rows
    }

    /// The argument types and the result type.
    pub fn signatures() -> (signatures: Vec<Signature>)
        ensures
            only_signature(signatures@, seq![ColumnType::Utf8], ColumnType::Float64),
    {
        exact(vec![ColumnType::Utf8], ColumnType::Float64)
    }
}

/// The reference system of a row, empty without a raster.
pub open spec fn crs_row(found: Lookup) -> Seq<char> {
    match found {
        Ok(raster) => raster.crs@,
        Err(_) => Seq::empty(),
    }
}

/// The reference system of a row.
fn crs_text(found: &Lookup) -> (text: String)
    ensures
        text@ == crs_row(*found),
{
    match crs(found) {
        Ok(text) => text,
        Err(_) => String::new(),
    }
}

/// `rs_crs(path)`: the reference system.
pub struct RsCrs;

impl RsCrs {
    /// The reference system of each row.
    pub fn invoke(found: &[Lookup]) -> (rows: Vec<String>)
        ensures
            rows@.len() == found@.len(),
            forall|i: int| 0 <= i < found@.len() ==> (#[trigger] rows@[i])@ == crs_row(found@[i]),
    {
        let mut rows: Vec<String> = Vec::new();
        for i in 0..found.len()
            invariant
                rows@.len() == i,
                forall|k: int| 0 <= k < i ==> (#[trigger] rows@[k])@ == crs_row(found@[k]),
        {
            rows.push(crs_text(&found[i]));
        }
        rows
    }

    /// The argument types and the result type.
    pub fn signatures() -> (signatures: Vec<Signature>)
        ensures
            only_signature(signatures@, seq![ColumnType::Utf8], ColumnType::Utf8),
    {
        exact(vec![ColumnType::Utf8], ColumnType::Utf8)
    }
}

/// The pixels of the first band, and none without a raster.
pub open spec fn first_band_of(found: Lookup) -> Seq<u64> {
    match found {
        Ok(raster) => band_samples(*raster, 1),
        Err(_) => Seq::empty(),
    }
}

/// Reads the pixels of the first band.
pub fn first_band(found: &Lookup) -> (pixels: Vec<u64>)
    ensures
        pixels@ == first_band_of(*found),
{
    match all_pixels(found, 1) {
        Ok(pixels) => pixels,
        Err(_) => Vec::new(),
    }
}

/// The least pixel of the first band in a row, infinity without a raster.
pub open spec fn min_row(found: Lookup) -> u64 {
    match found {
        Ok(raster) => least(band_samples(*raster, 1)),
        Err(_) => INFINITY,
    }
}

/// `rs_min(path)`: the least pixel of the first band.
pub struct RsMin;

impl RsMin {
    /// The least pixel of each row.
    pub fn invoke(found: &[Lookup]) -> (rows: Vec<u64>)
        ensures
            rows@.len() == found@.len(),
            forall|i: int| 0 <= i < found@.len() ==> #[trigger] rows@[i] == min_row(found@[i]),
    {
        let mut rows: Vec<u64> = Vec::new();
        for i in 0..found.len()
            invariant
                rows@.len() == i,
                forall|k: int| 0 <= k < i ==> #[trigger] rows@[k] == min_row(found@[k]),
        {
            rows.push(least_of(&first_band(&found[i])));
        }
        rows
    }

    /// The argument types and the result type.
    pub fn signatures() -> (signatures: Vec<Signature>)
        ensures
            only_signature(signatures@, seq![ColumnType::Utf8], ColumnType::Float64),
    {
        exact(vec![ColumnType::Utf8], ColumnType::Float64)
    }
}

/// The greatest pixel of the first band in a row, minus infinity without a raster.
pub open spec fn max_row(found: Lookup) -> u64 {
    match found {
        Ok(raster) => greatest(band_samples(*raster, 1)),
        Err(_) => MINUS_INFINITY,
    }
}

/// `rs_max(path)`: the greatest pixel of the first band.
pub struct RsMax;

impl RsMax {
    /// The greatest pixel of each row.
    pub fn invoke(found: &[Lookup]) -> (rows: Vec<u64>)
        ensures
            rows@.len() == found@.len(),
            forall|i: int| 0 <= i < found@.len() ==> #[trigger] rows@[i] == max_row(found@[i]),
    {
        let mut rows: Vec<u64> = Vec::new();
        for i in 0..found.len()
            invariant
                rows@.len() == i,
                forall|k: int| 0 <= k < i ==> #[trigger] rows@[k] == max_row(found@[k]),
        {
            rows.push(greatest_of(&first_band(&found[i])));
        }
        rows
    }

    /// The argument types and the result type.
    pub fn signatures() -> (signatures: Vec<Signature>)
        ensures
            only_signature(signatures@, seq![ColumnType::Utf8], ColumnType::Float64),
    {
        exact(vec![ColumnType::Utf8], ColumnType::Float64)
    }
}

/// `rs_mean(path)`: the mean of the pixels of the first band.
pub struct RsMean;

impl RsMean {
    /// The argument types and the result type.
    pub fn signatures() -> (signatures: Vec<Signature>)
        ensures
            only_signature(signatures@, seq![ColumnType::Utf8], ColumnType::Float64),
    {
        exact(vec![ColumnType::Utf8], ColumnType::Float64)
    }
}

/// `rs_stddev(path)`: the standard deviation of the pixels of the first band.
pub struct RsStddev;

impl RsStddev {
    /// The argument types and the result type.
    pub fn signatures() -> (signatures: Vec<Signature>)
        ensures
            only_signature(signatures@, seq![ColumnType::Utf8], ColumnType::Float64),
    {
        exact(vec![ColumnType::Utf8], ColumnType::Float64)
    }
}

} // verus!
