//! GeoTIFF rasters: what is kept of a file, the cache of rasters, and what is read from one.
use crate::double::{
    absolute, is_nan, is_not_a_number, is_widened, magnitude, negate, negative, value,
    widen_single, widen_whole, INFINITY, NAN, ONE, ZERO,
};
use crate::text::{
    contains_text, decimal, decimal_text, occurs, split, split_at_char, trim, trimmed, views,
};
use dashmap::DashMap;
use std::sync::Arc;
use vstd::arithmetic::power2::pow2;
use vstd::prelude::*;

verus! {

/// A raster in memory, so that its file need not be opened again. Numbers are bit patterns of
/// doubles.
pub struct CachedRaster {
    /// All samples, the bands of a pixel side by side: the sample of (col, row, band) is at
    /// (row * width + col) * bands + band.
    pub pixels: Vec<u64>,
    pub width: u32,
    pub height: u32,
    pub bands: u32,
    pub geo_transform: (u64, u64, u64, u64, u64, u64),
    pub nodata: u64,
    pub crs: String,
}

/// The samples of an image, as the decoder hands them out.
pub enum Samples {
    /// Bit patterns of doubles.
    Double(Vec<u64>),
    /// Bit patterns of singles.
    Single(Vec<u32>),
    /// Whole numbers of 16 bits.
    Short(Vec<u16>),
    /// Whole numbers of 8 bits.
    Byte(Vec<u8>),
    /// Samples of any other type.
    Other,
}

/// What the tags of a GeoTIFF file say, where they are there.
pub struct TiffTags {
    pub width: u32,
    pub height: u32,
    pub samples_per_pixel: Option<u32>,
    /// The model tie point, bit patterns of doubles.
    pub tiepoint: Option<Vec<u64>>,
    /// The model pixel scale, bit patterns of doubles.
    pub scale: Option<Vec<u64>>,
    /// The numbers that the texts of `nodata_texts` were read as.
    pub nodata: Vec<Option<u64>>,
    /// The directory of GeoTIFF keys.
    pub geo_keys: Option<Vec<u16>>,
}

/// What reading a file came to.
pub enum TiffFile {
    /// It could not be opened.
    NotOpened(String),
    /// It is no TIFF file.
    NotTiff(String),
    /// It has no dimensions.
    NoDimensions(String),
    /// It has tags, but its image could not be read.
    NotRead(String),
    /// It has tags and an image.
    Image(TiffTags, Samples),
}

/// The number at `i`, or `default` where there is none.
pub open spec fn nth_or(numbers: Option<Vec<u64>>, i: int, default: u64) -> u64 {
    match numbers {
        Some(v) => if 0 <= i < v@.len() {
            v@[i]
        } else {
            default
        },
        None => default,
    }
}

/// The number at `i`, or `default` where there is none.
fn get_or(numbers: &Option<Vec<u64>>, i: usize, default: u64) -> (n: u64)
    ensures
        n == nth_or(*numbers, i as int, default),
{
    match numbers {
        Some(v) => if i < v.len() {
            v[i]
        } else {
            default
        },
        None => default,
    }
}

/// The geo transform of a tie point and a pixel scale: x of the origin, width of a pixel, 0, y of
/// the origin, 0, and minus the height of a pixel.
pub open spec fn transform_of(
    tiepoint: Option<Vec<u64>>,
    scale: Option<Vec<u64>>,
) -> (u64, u64, u64, u64, u64, u64) {
    (
        nth_or(tiepoint, 3, ZERO),
        nth_or(scale, 0, ONE),
        ZERO,
        nth_or(tiepoint, 4, ZERO),
        ZERO,
        negative(nth_or(scale, 1, ONE)),
    )
}

/// Computes the geo transform of a tie point and a pixel scale.
fn transform(tiepoint: &Option<Vec<u64>>, scale: &Option<Vec<u64>>) -> (gt: (
    u64,
    u64,
    u64,
    u64,
    u64,
    u64,
))
    ensures
        gt == transform_of(*tiepoint, *scale),
{
    (
        get_or(tiepoint, 3, ZERO),
        get_or(scale, 0, ONE),
        ZERO,
        get_or(tiepoint, 4, ZERO),
        ZERO,
        negate(get_or(scale, 1, ONE)),
    )
}

/// Whether the `i`-th key of a GeoTIFF directory is there and names a projected or geographic
/// reference system.
pub open spec fn names_crs(keys: Seq<u16>, i: int) -> bool {
    &&& 4 + 4 * i + 3 < keys.len()
    &&& keys[4 + 4 * i] == 3072 || keys[4 + 4 * i] == 2048
}

/// The reference system of the first key from the `i`-th on that names one.
pub open spec fn crs_from(keys: Seq<u16>, i: int) -> Seq<char>
    decreases keys[3] - i,
{
    if i >= keys[3] {
        "See GeoTIFF tags"@
    } else if names_crs(keys, i) {
        "EPSG:"@ + decimal(keys[4 + 4 * i + 3] as nat)
    } else {
        crs_from(keys, i + 1)
    }
}

/// The reference system that a directory of GeoTIFF keys names.
pub open spec fn crs_of(keys: Option<Vec<u16>>) -> Seq<char> {
    match keys {
        Some(v) => if v@.len() >= 4 {
            crs_from(v@, 0)
        } else {
            "See GeoTIFF tags"@
        },
        None => "See GeoTIFF tags"@,
    }
}

/// Reads the reference system out of a directory of GeoTIFF keys.
pub fn read_crs(keys: &Option<Vec<u16>>) -> (crs: String)
    ensures
        crs@ == crs_of(*keys),
{
    if let Some(v) = keys {
        if v.len() >= 4 {
            let count: usize = v[3] as usize;
            for i in 0..count
                invariant
                    v@.len() >= 4,
                    count == v@[3],
                    crs_of(*keys) == crs_from(v@, 0),
                    crs_from(v@, i as int) == crs_from(v@, 0),
            {
                let base: usize = 4 + i * 4;
                if base + 3 < v.len() && (v[base] == 3072 || v[base] == 2048) {
                    let mut crs: String = "EPSG:".to_owned();
                    crs.append(decimal_text(v[base + 3]).as_str());
                    return crs;
                }
            }
        }
    }
    "See GeoTIFF tags".to_owned()
}

/// The number in a line of metadata: what stands behind its first equals sign, up to the next.
pub open spec fn line_number(line: Seq<char>) -> Seq<char> {
    trimmed(split(line, '=')[1])
}

/// Whether a line of metadata says what stands for no data.
pub open spec fn is_nodata_line(line: Seq<char>) -> bool {
    &&& occurs("NODATA"@, line) || occurs("NoData"@, line)
    &&& split(line, '=').len() > 1
}

/// The numbers in those of the lines that say what stands for no data.
pub open spec fn nodata_numbers(lines: Seq<Seq<char>>) -> Seq<Seq<char>>
    decreases lines.len(),
{
    if lines.len() == 0 {
        Seq::empty()
    } else {
        let first = nodata_numbers(lines.drop_last());
        if is_nodata_line(lines.last()) {
            first.push(line_number(lines.last()))
        } else {
            first
        }
    }
}

/// The texts that may say what stands for no data: that of the no-data tag where there is one,
/// and otherwise the numbers in the lines of the metadata tag.
pub open spec fn nodata_texts_of(nodata: Option<Seq<char>>, metadata: Option<Seq<char>>) -> Seq<
    Seq<char>,
> {
    match (nodata, metadata) {
        (Some(text), _) => seq![text],
        (None, Some(text)) => nodata_numbers(split(text, '\n')),
        (None, None) => Seq::empty(),
    }
}

/// The view of a text that may be missing.
pub open spec fn view_of(text: Option<String>) -> Option<Seq<char>> {
    match text {
        Some(t) => Some(t@),
        None => None,
    }
}

/// Collects the texts that may say what stands for no data.
pub fn nodata_texts(nodata: &Option<String>, metadata: &Option<String>) -> (texts: Vec<String>)
    ensures
        views(texts@) =~= nodata_texts_of(view_of(*nodata), view_of(*metadata)),
{
    let mut texts: Vec<String> = Vec::new();
    if let Some(text) = nodata {
        texts.push(text.clone());
        return texts;
    }
    if let Some(text) = metadata {
        let lines: Vec<String> = split_at_char(text.as_str(), '\n');
        let ghost all = views(lines@);
        assert(all.take(0) == Seq::<Seq<char>>::empty());
        assert(views(texts@) == nodata_numbers(all.take(0)));
        for i in 0..lines.len()
            invariant
                all == views(lines@),
                views(texts@) == nodata_numbers(all.take(i as int)),
        {
            let line: &str = lines[i].as_str();
            let ghost before = views(texts@);
            proof {
                let part = all.take(i + 1);
                assert(part.drop_last() == all.take(i as int));
                assert(part.last() == line@);
            }
            if contains_text(line, "NODATA") || contains_text(line, "NoData") {
                let parts: Vec<String> = split_at_char(line, '=');
                assert(split(line@, '=').len() == parts@.len());
                if parts.len() > 1 {
                    assert(split(line@, '=')[1] == parts@[1]@);
                    texts.push(trim(parts[1].as_str()));
                    assert(views(texts@) == before.push(line_number(line@)));
                }
            }
        }
        assert(all.take(all.len() as int) == all);
    }
    texts
}

/// The number that stands for no data, of what its texts were read as: the first that is a
/// number. Without one it is the last, which is a NaN, and of no text at all it is a NaN too.
pub open spec fn nodata_of(numbers: Seq<Option<u64>>) -> u64
    decreases numbers.len(),
{
    if numbers.len() == 0 {
        NAN
    } else {
        let found = nodata_of(numbers.drop_last());
        if is_nan(found) {
            match numbers.last() {
                Some(n) => n,
                None => NAN,
            }
        } else {
            found
        }
    }
}

/// Picks the number that stands for no data.
pub fn pick_nodata(numbers: &[Option<u64>]) -> (nodata: u64)
    ensures
        nodata == nodata_of(numbers@),
{
    let mut nodata: u64 = NAN;
    assert(numbers@.take(0) == Seq::<Option<u64>>::empty());
    for i in 0..numbers.len()
        invariant
            nodata == nodata_of(numbers@.take(i as int)),
    {
        assert(numbers@.take(i + 1).drop_last() == numbers@.take(i as int));
        if is_not_a_number(nodata) {
            nodata = match numbers[i] {
                Some(n) => n,
                None => NAN,
            };
        }
    }
    assert(numbers@.take(numbers@.len() as int) == numbers@);
    nodata
}

/// The first text that was read as a number says what stands for no data.
pub proof fn law_nodata_is_first_number(numbers: Seq<Option<u64>>, i: int)
    requires
        0 <= i < numbers.len(),
        numbers[i] is Some,
        !is_nan(numbers[i]->0),
        forall|k: int|
            0 <= k < i ==> (#[trigger] numbers[k] is None || is_nan(numbers[k]->0)),
    ensures
        nodata_of(numbers) == numbers[i]->0,
    decreases numbers.len(),
{
    let first = numbers.drop_last();
    if i < numbers.len() - 1 {
        assert(first[i] == numbers[i]);
        assert forall|k: int| 0 <= k < i implies (#[trigger] first[k] is None || is_nan(
            first[k]->0,
        )) by {
            assert(first[k] == numbers[k]);
        }
        law_nodata_is_first_number(first, i);
    } else {
        assert(is_nan(NAN));
        lemma_no_number(first);
    }
}

/// Without a number among the texts there is no number that stands for no data.
pub proof fn lemma_no_number(numbers: Seq<Option<u64>>)
    requires
        forall|k: int|
            0 <= k < numbers.len() ==> (#[trigger] numbers[k] is None || is_nan(numbers[k]->0)),
    ensures
        is_nan(nodata_of(numbers)),
    decreases numbers.len(),
{
    if numbers.len() > 0 {
        let first = numbers.drop_last();
        assert forall|k: int| 0 <= k < first.len() implies (#[trigger] first[k] is None || is_nan(
            first[k]->0,
        )) by {
            assert(first[k] == numbers[k]);
        }
        lemma_no_number(first);
        assert(numbers[numbers.len() - 1] == numbers.last());
    }
}

/// Whether a double is a whole number.
pub open spec fn is_whole(n: int, bits: u64) -> bool {
    bits < INFINITY && value(bits) == n * pow2(1074)
}

/// How many samples an image has.
pub open spec fn sample_count(samples: Samples) -> nat {
    match samples {
        Samples::Double(v) => v@.len(),
        Samples::Single(v) => v@.len(),
        Samples::Short(v) => v@.len(),
        Samples::Byte(v) => v@.len(),
        Samples::Other => 0,
    }
}

/// Whether a double is the same number as the `i`-th sample of an image.
pub open spec fn is_sample(samples: Samples, i: int, bits: u64) -> bool {
    match samples {
        Samples::Double(v) => bits == v@[i],
        Samples::Single(v) => is_widened(v@[i], bits),
        Samples::Short(v) => is_whole(v@[i] as int, bits),
        Samples::Byte(v) => is_whole(v@[i] as int, bits),
        Samples::Other => false,
    }
}

/// How many samples an image of these dimensions holds; one without bands has one all the same.
pub open spec fn expected_samples(width: u32, height: u32, bands: u32) -> int {
    width * height * (if bands == 0 {
        1
    } else {
        bands as int
    })
}

/// Whether doubles are the same numbers as the samples of an image, as far as it holds any.
pub open spec fn are_samples(samples: Samples, expected: int, pixels: Seq<u64>) -> bool {
    &&& pixels.len() == if expected < sample_count(samples) {
        expected
    } else {
        sample_count(samples) as int
    }
    &&& forall|i: int| 0 <= i < pixels.len() ==> is_sample(samples, i, #[trigger] pixels[i])
}

/// Turns the samples of an image into doubles, as far as it holds any.
fn convert_samples(samples: &Samples, expected: u128) -> (pixels: Vec<u64>)
    requires
        !(samples is Other),
    ensures
        are_samples(*samples, expected as int, pixels@),
{
    let count: usize = match samples {
        Samples::Double(v) => v.len(),
        Samples::Single(v) => v.len(),
        Samples::Short(v) => v.len(),
        Samples::Byte(v) => v.len(),
        Samples::Other => 0,
    };
    let n: usize = if expected < count as u128 {
        expected as usize
    } else {
        count
    };
    let mut pixels: Vec<u64> = Vec::new();
    for i in 0..n
        invariant
            n <= count == sample_count(*samples),
            pixels@.len() == i,
            forall|k: int| 0 <= k < i ==> is_sample(*samples, k, #[trigger] pixels@[k]),
    {
        let bits: u64 = match samples {
            Samples::Double(v) => v[i],
            Samples::Single(v) => widen_single(v[i]),
            Samples::Short(v) => widen_whole(v[i]),
            Samples::Byte(v) => widen_whole(v[i] as u16),
            Samples::Other => NAN,
        };
        pixels.push(bits);
    }
    pixels
}

/// The bands of an image: one where the tags do not say.
pub open spec fn bands_of(tags: TiffTags) -> u32 {
    match tags.samples_per_pixel {
        Some(n) => n,
        None => 1,
    }
}

/// Whether a raster is what the tags and the samples of a file make.
pub open spec fn is_raster_of(raster: CachedRaster, tags: TiffTags, samples: Samples) -> bool {
    &&& raster.width == tags.width
    &&& raster.height == tags.height
    &&& raster.bands == bands_of(tags)
    &&& raster.geo_transform == transform_of(tags.tiepoint, tags.scale)
    &&& raster.nodata == nodata_of(tags.nodata@)
    &&& raster.crs@ == crs_of(tags.geo_keys)
    &&& are_samples(
        samples,
        expected_samples(tags.width, tags.height, bands_of(tags)),
        raster.pixels@,
    )
}

/// Whether a raster is what a file holds.
pub open spec fn is_raster_in(raster: CachedRaster, file: TiffFile) -> bool {
    match file {
        TiffFile::Image(tags, samples) => is_raster_of(raster, tags, samples),
        _ => false,
    }
}

/// The message for a file that no raster can be made of.
pub open spec fn failure_of(file: TiffFile) -> Option<Seq<char>> {
    match file {
        TiffFile::NotOpened(e) => Some("Cannot open: "@ + e@),
        TiffFile::NotTiff(e) => Some("TIFF: "@ + e@),
        TiffFile::NoDimensions(e) => Some(e@),
        TiffFile::NotRead(e) => Some("Read: "@ + e@),
        TiffFile::Image(_, Samples::Other) => Some("Unsupported pixel type"@),
        TiffFile::Image(_, _) => None,
    }
}

/// A message with what went wrong behind it.
fn message(text: &str, error: &str) -> (m: String)
    ensures
        m@ == text@ + error@,
{
    let mut m: String = text.to_owned();
    m.append(error);
    m
}

/// Makes a raster of what reading a file came to.
pub fn make_raster(file: &TiffFile) -> (made: Result<CachedRaster, String>)
    ensures
        match made {
            Ok(raster) => failure_of(*file) is None && is_raster_in(raster, *file),
            Err(m) => failure_of(*file) == Some(m@),
        },
{
    match file {
        TiffFile::NotOpened(e) => Err(message("Cannot open: ", e.as_str())),
        TiffFile::NotTiff(e) => Err(message("TIFF: ", e.as_str())),
        TiffFile::NoDimensions(e) => Err(e.clone()),
        TiffFile::NotRead(e) => Err(message("Read: ", e.as_str())),
        TiffFile::Image(_, Samples::Other) => Err("Unsupported pixel type".to_owned()),
        TiffFile::Image(tags, samples) => {
            let bands: u32 = match tags.samples_per_pixel {
                Some(n) => n,
                None => 1,
            };
            let layers: u32 = if bands == 0 {
                1
            } else {
                bands
            };
            assert(0 <= tags.width * tags.height <= 0xffff_ffff * 0xffff_ffff)
                by (nonlinear_arith);
            let area: u64 = tags.width as u64 * tags.height as u64;
            assert(0 <= area * layers <= 0xffff_ffff * 0xffff_ffff * 0xffff_ffff)
                by (nonlinear_arith)
                requires
                    0 <= area <= 0xffff_ffff * 0xffff_ffff,
            ;
            let expected: u128 = area as u128 * layers as u128;
            Ok(
                CachedRaster {
                    pixels: convert_samples(samples, expected),
                    width: tags.width,
                    height: tags.height,
                    bands,
                    geo_transform: transform(&tags.tiepoint, &tags.scale),
                    nodata: pick_nodata(&tags.nodata),
                    crs: read_crs(&tags.geo_keys),
                },
            )
        },
    }
}

/// The concurrent map of the `dashmap` crate.
#[verifier::external_type_specification]
#[verifier::external_body]
#[verifier::reject_recursive_types(K)]
#[verifier::reject_recursive_types(V)]
#[verifier::reject_recursive_types(S)]
pub struct ExDashMap<K, V, S>(DashMap<K, V, S>);

/// The rasters that a map holds under their paths.
pub uninterp spec fn cached_rasters(map: DashMap<String, Arc<CachedRaster>>) -> Map<
    Seq<char>,
    CachedRaster,
>;

/// No raster under any path.
pub open spec fn no_rasters() -> Map<Seq<char>, CachedRaster> {
    Map::empty()
}

/// Calls `DashMap::new` of the `dashmap` crate: the map holds nothing.
#[verifier::external_body]
fn new_map() -> (map: DashMap<String, Arc<CachedRaster>>)
    ensures
        cached_rasters(map) == no_rasters(),
{
    DashMap::new()
}

/// Calls `DashMap::get` of the `dashmap` crate and shares what is there: the raster under the
/// path, or nothing where there is none.
#[verifier::external_body]
fn map_get(map: &DashMap<String, Arc<CachedRaster>>, path: &str) -> (found: Option<
    Arc<CachedRaster>,
>)
    ensures
        found is Some == cached_rasters(*map).dom().contains(path@),
        found matches Some(raster) ==> *raster == cached_rasters(*map)[path@],
{
    map.get(path).map(|r| Arc::clone(&r))
}

/// Calls `DashMap::insert` of the `dashmap` crate: the raster is under the path, in place of any
/// that was there, and nothing else changes.
#[verifier::external_body]
fn map_insert(map: &mut DashMap<String, Arc<CachedRaster>>, path: String, raster: Arc<CachedRaster>)
    ensures
        cached_rasters(*final(map)) == cached_rasters(*old(map)).insert(path@, *raster),
{
    map.insert(path, raster);
}

/// Calls `Arc::clone` of the standard library: another pointer to the same raster.
#[verifier::external_body]
fn share(raster: &Arc<CachedRaster>) -> (shared: Arc<CachedRaster>)
    ensures
        *shared == **raster,
{
    Arc::clone(raster)
}

/// The rasters that have been loaded, under their paths.
pub struct RasterCache {
    map: DashMap<String, Arc<CachedRaster>>,
}

/// Whether a raster was made of some file.
pub open spec fn is_from_a_file(raster: CachedRaster) -> bool {
    exists|file: TiffFile| is_raster_in(raster, file)
}

/// Whether every raster under a path was made of some file.
pub open spec fn all_from_files(rasters: Map<Seq<char>, CachedRaster>) -> bool {
    forall|path: Seq<char>|
        rasters.dom().contains(path) ==> is_from_a_file(#[trigger] rasters[path])
}

/// What looking for a raster came to: the raster, or what went wrong.
pub type Lookup = Result<Arc<CachedRaster>, String>;

impl View for RasterCache {
    type V = Map<Seq<char>, CachedRaster>;

    closed spec fn view(&self) -> Map<Seq<char>, CachedRaster> {
        cached_rasters(self.map)
    }
}

impl RasterCache {
    /// Every raster in the cache was made of some file.
    #[verifier::type_invariant]
    closed spec fn holds_rasters_of_files(self) -> bool {
        all_from_files(self@)
    }

    /// A cache without rasters.
    pub fn new() -> (cache: Self)
        ensures
            cache@ == no_rasters(),
    {
        RasterCache { map: new_map() }
    }

    /// The raster under a path, if it has been loaded. Only where it has not does its file have
    /// to be read.
    pub fn get_cached(&self, path: &str) -> (found: Option<Arc<CachedRaster>>)
        ensures
            found is Some == self@.dom().contains(path@),
            found matches Some(raster) ==> *raster == self@[path@],
            found matches Some(raster) ==> is_from_a_file(*raster),
    {
        proof {
            use_type_invariant(self);
        }
        map_get(&self.map, path)
    }

    /// Keeps the raster that a file holds, and hands it out. Where there is none in it, the
    /// cache stays as it was.
    pub fn load_raster(&mut self, path: &str, file: &TiffFile) -> (loaded: Lookup)
        ensures
            all_from_files(final(self)@),
            match loaded {
                Ok(raster) => {
                    &&& failure_of(*file) is None
                    &&& is_raster_in(*raster, *file)
                    &&& final(self)@ == old(self)@.insert(path@, *raster)
                },
                Err(m) => failure_of(*file) == Some(m@) && final(self)@ == old(self)@,
            },
    {
        proof {
            use_type_invariant(&*self);
        }
        match make_raster(file) {
            Ok(raster) => {
                let raster: Arc<CachedRaster> = Arc::new(raster);
                assert(is_raster_in(*raster, *file));
                let mut map: DashMap<String, Arc<CachedRaster>> = new_map();
                std::mem::swap(&mut map, &mut self.map);
                map_insert(&mut map, path.to_owned(), share(&raster));
                self.map = map;
                Ok(raster)
            },
            Err(m) => Err(m),
        }
    }
}

/// What holds of every raster that was made of a file: the transform has no rotation, the
/// reference system is an EPSG code or a hint to look at the tags, and no more samples are kept
/// than the dimensions say.
pub proof fn law_rasters_of_files(raster: CachedRaster)
    requires
        is_from_a_file(raster),
    ensures
        raster.geo_transform.2 == ZERO,
        raster.geo_transform.4 == ZERO,
        raster.crs@ == "See GeoTIFF tags"@ || exists|n: nat|
            n <= u16::MAX && raster.crs@ == "EPSG:"@ + #[trigger] decimal(n),
        raster.pixels@.len() <= expected_samples(raster.width, raster.height, raster.bands),
{
    let file = choose|file: TiffFile| is_raster_in(raster, file);
    if let TiffFile::Image(tags, samples) = file {
        if let Some(keys) = tags.geo_keys {
            if keys@.len() >= 4 {
                lemma_crs_from(keys@, 0);
            }
        }
    }
}

/// The reference system is an EPSG code or a hint.
proof fn lemma_crs_from(keys: Seq<u16>, i: int)
    ensures
        crs_from(keys, i) == "See GeoTIFF tags"@ || exists|n: nat|
            n <= u16::MAX && crs_from(keys, i) == "EPSG:"@ + #[trigger] decimal(n),
    decreases keys[3] - i,
{
    if i < keys[3] {
        if names_crs(keys, i) {
            let n: nat = keys[4 + 4 * i + 3] as nat;
            assert(crs_from(keys, i) == "EPSG:"@ + decimal(n));
        } else {
            lemma_crs_from(keys, i + 1);
        }
    }
}

/// What was loaded is found under its path from then on, and what is under any other path stays
/// as it was.
pub proof fn law_cache_keeps_what_was_loaded(
    before: Map<Seq<char>, CachedRaster>,
    path: Seq<char>,
    raster: CachedRaster,
    other: Seq<char>,
)
    requires
        other != path,
    ensures
        before.insert(path, raster).dom().contains(path),
        before.insert(path, raster)[path] == raster,
        before.insert(path, raster).dom().contains(other) == before.dom().contains(other),
        before.dom().contains(other) ==> before.insert(path, raster)[other] == before[other],
{
}

/// The band of a raster that is read for a band number from 1 on: the last for any beyond.
pub open spec fn band_index(bands: u32, band: u32) -> int {
    if bands == 0 {
        0
    } else if band - 1 < bands - 1 {
        band - 1
    } else {
        bands - 1
    }
}

/// The sample of a pixel in a band, pixels counted row by row, or a NaN where the raster holds
/// no such sample.
pub open spec fn sample_of(raster: CachedRaster, pixel: int, band: u32) -> u64 {
    let at = pixel * raster.bands + band_index(raster.bands, band);
    if at < raster.pixels@.len() {
        raster.pixels@[at]
    } else {
        NAN
    }
}

/// The samples of all pixels in a band, row by row.
pub open spec fn band_samples(raster: CachedRaster, band: u32) -> Seq<u64> {
    Seq::new((raster.width * raster.height) as nat, |i: int| sample_of(raster, i, band))
}

/// Reads the sample of a pixel in a band, pixels counted row by row.
fn sample_at(raster: &CachedRaster, pixel: u64, band: u32) -> (bits: u64)
    requires
        band >= 1,
    ensures
        bits == sample_of(*raster, pixel as int, band),
{
    let last: u32 = if raster.bands == 0 {
        0
    } else {
        raster.bands - 1
    };
    let b: u32 = if band - 1 < last {
        band - 1
    } else {
        last
    };
    assert(0 <= pixel * raster.bands <= 0xffff_ffff_ffff_ffff * 0xffff_ffff) by (nonlinear_arith);
    let at: u128 = pixel as u128 * raster.bands as u128 + b as u128;
    if at < raster.pixels.len() as u128 {
        raster.pixels[at as usize]
    } else {
        NAN
    }
}

/// Whether a pixel lies in a raster.
pub open spec fn is_inside(raster: CachedRaster, col: u32, row: u32) -> bool {
    col < raster.width && row < raster.height
}

/// Reads one pixel of a band, which counts from 1.
pub fn read_pixel(found: &Lookup, band: u32, col: u32, row: u32) -> (pixel: Result<u64, String>)
    requires
        band >= 1 || found is Err || !is_inside(*found->Ok_0, col, row),
    ensures
        match (*found, pixel) {
            (Ok(raster), Ok(bits)) => is_inside(*raster, col, row) && bits == sample_of(
                *raster,
                row * raster.width + col,
                band,
            ),
            (Ok(raster), Err(m)) => !is_inside(*raster, col, row) && m@ == "Pixel out of bounds"@,
            (Err(e), Ok(_)) => false,
            (Err(e), Err(m)) => m@ == e@,
        },
{
    match found {
        Ok(raster) => {
            if col >= raster.width || row >= raster.height {
                return Err("Pixel out of bounds".to_owned());
            }
            assert(0 <= row * raster.width <= 0xffff_ffff * 0xffff_ffff) by (nonlinear_arith);
            let pixel: u64 = row as u64 * raster.width as u64 + col as u64;
            Ok(sample_at(raster, pixel, band))
        },
        Err(m) => Err(m.clone()),
    }
}

/// Reads all pixels of a band, which counts from 1, row by row.
pub fn all_pixels(found: &Lookup, band: u32) -> (pixels: Result<Vec<u64>, String>)
    requires
        band >= 1 || found is Err,
    ensures
        match (*found, pixels) {
            (Ok(raster), Ok(v)) => v@ == band_samples(*raster, band),
            (Err(e), Err(m)) => m == e,
            _ => false,
        },
{
    match found {
        Ok(raster) => {
            assert(0 <= raster.width * raster.height <= 0xffff_ffff * 0xffff_ffff)
                by (nonlinear_arith);
            let count: u64 = raster.width as u64 * raster.height as u64;
            let mut pixels: Vec<u64> = Vec::new();
            for i in 0..count
                invariant
                    band >= 1,
                    pixels@.len() == i,
                    forall|k: int| 0 <= k < i ==> pixels@[k] == sample_of(**raster, k, band),
            {
                pixels.push(sample_at(raster, i, band));
            }
            Ok(pixels)
        },
        Err(m) => Err(m.clone()),
    }
}

/// The number of bands.
pub fn band_count(found: &Lookup) -> (r: Result<u32, String>)
    ensures
        r == match *found {
            Ok(raster) => Ok::<u32, String>(raster.bands),
            Err(m) => Err(m),
        },
{
    match found {
        Ok(raster) => Ok(raster.bands),
        Err(m) => Err(m.clone()),
    }
}

/// The number of pixels in a row.
pub fn width(found: &Lookup) -> (r: Result<u32, String>)
    ensures
        r == match *found {
            Ok(raster) => Ok::<u32, String>(raster.width),
            Err(m) => Err(m),
        },
{
    match found {
        Ok(raster) => Ok(raster.width),
        Err(m) => Err(m.clone()),
    }
}

/// The number of rows.
pub fn height(found: &Lookup) -> (r: Result<u32, String>)
    ensures
        r == match *found {
            Ok(raster) => Ok::<u32, String>(raster.height),
            Err(m) => Err(m),
        },
{
    match found {
        Ok(raster) => Ok(raster.height),
        Err(m) => Err(m.clone()),
    }
}

/// The number that stands for no data, the same for every band.
pub fn nodata(found: &Lookup, _band: u32) -> (r: Result<u64, String>)
    ensures
        r == match *found {
            Ok(raster) => Ok::<u64, String>(raster.nodata),
            Err(m) => Err(m),
        },
{
    match found {
        Ok(raster) => Ok(raster.nodata),
        Err(m) => Err(m.clone()),
    }
}

/// The transform from pixels to positions.
pub fn geo_transform(found: &Lookup) -> (r: Result<(u64, u64, u64, u64, u64, u64), String>)
    ensures
        r == match *found {
            Ok(raster) => Ok::<(u64, u64, u64, u64, u64, u64), String>(raster.geo_transform),
            Err(m) => Err(m),
        },
{
    match found {
        Ok(raster) => Ok(raster.geo_transform),
        Err(m) => Err(m.clone()),
    }
}

/// The width of a pixel.
pub fn scale_x(found: &Lookup) -> (r: Result<u64, String>)
    ensures
        r == match *found {
            Ok(raster) => Ok::<u64, String>(raster.geo_transform.1),
            Err(m) => Err(m),
        },
{
    match found {
        Ok(raster) => Ok(raster.geo_transform.1),
        Err(m) => Err(m.clone()),
    }
}

/// The height of a pixel, without sign.
pub fn scale_y(found: &Lookup) -> (r: Result<u64, String>)
    ensures
        r == match *found {
            Ok(raster) => Ok::<u64, String>(magnitude(raster.geo_transform.5)),
            Err(m) => Err(m),
        },
{
    match found {
        Ok(raster) => Ok(absolute(raster.geo_transform.5)),
        Err(m) => Err(m.clone()),
    }
}

/// The reference system.
pub fn crs(found: &Lookup) -> (r: Result<String, String>)
    ensures
        r == match *found {
            Ok(raster) => Ok::<String, String>(raster.crs),
            Err(m) => Err(m),
        },
{
    match found {
        Ok(raster) => Ok(raster.crs.clone()),
        Err(m) => Err(m.clone()),
    }
}

/// The width, the height, the number of bands and the reference system.
pub fn read_metadata(found: &Lookup) -> (r: Result<(u32, u32, u32, String), String>)
    ensures
        r == match *found {
            Ok(raster) => Ok::<(u32, u32, u32, String), String>(
                (raster.width, raster.height, raster.bands, raster.crs),
            ),
            Err(m) => Err(m),
        },
{
    match found {
        Ok(raster) => Ok((raster.width, raster.height, raster.bands, raster.crs.clone())),
        Err(m) => Err(m.clone()),
    }
}

/// All pixels of a band, row by row, hold at each place what reading that pixel gives.
pub proof fn law_pixel_among_all(raster: CachedRaster, band: u32, col: u32, row: u32)
    requires
        is_inside(raster, col, row),
    ensures
        0 <= row * raster.width + col < band_samples(raster, band).len(),
        band_samples(raster, band)[row * raster.width + col] == sample_of(
            raster,
            row * raster.width + col,
            band,
        ),
{
    let w: int = raster.width as int;
    let h: int = raster.height as int;
    assert(0 <= row * w + col < w * h) by (nonlinear_arith)
        requires
            0 <= col < w,
            0 <= row < h,
    ;
}

/// A raster made of an image that is complete gives, for each pixel and band, the sample of the
/// image at (row * width + col) * bands + band, bands counted from 0.
pub proof fn law_samples_in_place(
    raster: CachedRaster,
    tags: TiffTags,
    samples: Samples,
    band: u32,
    col: u32,
    row: u32,
)
    requires
        is_raster_of(raster, tags, samples),
        sample_count(samples) >= expected_samples(raster.width, raster.height, raster.bands),
        is_inside(raster, col, row),
        1 <= band <= raster.bands,
    ensures
        is_sample(
            samples,
            (row * raster.width + col) * raster.bands + (band - 1),
            sample_of(raster, row * raster.width + col, band),
        ),
{
    let w: int = raster.width as int;
    let h: int = raster.height as int;
    let n: int = raster.bands as int;
    let pixel: int = row * w + col;
    assert(0 <= pixel < w * h) by (nonlinear_arith)
        requires
            0 <= col < w,
            0 <= row < h,
            pixel == row * w + col,
    ;
    let area: int = w * h;
    assert(0 <= pixel * n + (band - 1) < area * n) by (nonlinear_arith)
        requires
            0 <= pixel < area,
            1 <= band <= n,
    ;
}

/// The height of a pixel is the second number of the pixel scale, without sign.
pub proof fn law_scale_y(tiepoint: Option<Vec<u64>>, scale: Option<Vec<u64>>)
    ensures
        magnitude(transform_of(tiepoint, scale).5) == magnitude(nth_or(scale, 1, ONE)),
{
}

} // verus!
