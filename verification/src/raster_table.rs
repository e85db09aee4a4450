//! The raster table functions.
use crate::columns::{column, column_names, column_types, Column, ColumnType};
use crate::double::{
    greatest, greatest_of, is_nan, law_greatest, law_least, law_least_and_greatest_occur, least,
    least_of, value, ZERO,
};
use crate::raster::{all_pixels, band_samples, read_metadata, CachedRaster, Lookup};
use crate::raster_scalar::{
    at_least, bands_row, crs_row, height_row, max_row, min_row, raise, width_row,
};
use vstd::prelude::*;

verus! {

/// Says whether the rows of a table have not been read yet, and that they have been from then
/// on.
fn first_time(done: &mut bool) -> (first: bool)
    ensures
        *final(done),
        first == !*old(done),
{
    let first: bool = !*done;
    *done = true;
    first
}

/// `rs_metadata(path)`: the path, the size, the bands and the reference system of a raster.
pub struct RsMetadataVTab;

/// Whether the row of `rs_metadata` has been read.
pub struct RsMetaInit {
    done: bool,
}

impl View for RsMetaInit {
    type V = bool;

    closed spec fn view(&self) -> bool {
        self.done
    }
}

/// A row of `rs_metadata`.
pub struct MetaRow {
    pub path: String,
    pub width: i32,
    pub height: i32,
    pub bands: i32,
    pub crs: String,
}

/// The row of `rs_metadata`.
pub struct RsMetaBind {
    row: MetaRow,
}

impl View for RsMetaBind {
    type V = MetaRow;

    closed spec fn view(&self) -> MetaRow {
        self.row
    }
}

/// Whether a row says what is known of the raster of a path.
pub open spec fn is_meta_row(path: Seq<char>, raster: CachedRaster, row: MetaRow) -> bool {
    &&& row.path@ == path
    &&& row.width == raster.width as i32
    &&& row.height == raster.height as i32
    &&& row.bands == raster.bands as i32
    &&& row.crs == raster.crs
}

impl RsMetadataVTab {
    /// Collects what is known of a raster. Without one this fails as looking for it did.
    pub fn bind(path: &str, found: &Lookup) -> (bind: Result<RsMetaBind, String>)
        ensures
            match (*found, bind) {
                (Ok(raster), Ok(b)) => is_meta_row(path@, *raster, b@),
                (Err(e), Err(m)) => m == e,
                _ => false,
            },
    {
        match read_metadata(found) {
            Ok((w, h, b, crs)) => Ok(
                RsMetaBind {
                    row: MetaRow {
                        path: path.to_owned(),
                        width: w as i32,
                        height: h as i32,
                        bands: b as i32,
                        crs,
                    },
                },
            ),
            Err(m) => Err(m),
        }
    }

    /// The row has not been read.
    pub fn init() -> (init: RsMetaInit)
        ensures
            !init@,
    {
        RsMetaInit { done: false }
    }

    /// The row the first time, and none from then on.
    pub fn func(init: &mut RsMetaInit, bind: &RsMetaBind) -> (row: Option<MetaRow>)
        ensures
            final(init)@,
            row == if old(init)@ {
                None
            } else {
                Some(bind@)
            },
    {
        if first_time(&mut init.done) {
            Some(
                MetaRow {
                    path: bind.row.path.clone(),
                    width: bind.row.width,
                    height: bind.row.height,
                    bands: bind.row.bands,
                    crs: bind.row.crs.clone(),
                },
            )
        } else {
            None
        }
    }

    /// The columns of the row.
    pub fn columns() -> (columns: Vec<Column>)
        ensures
            column_names(columns@) =~= seq!["path"@, "width"@, "height"@, "bands"@, "crs"@],
            column_types(columns@) =~= seq![
                ColumnType::Utf8,
                ColumnType::Int32,
                ColumnType::Int32,
                ColumnType::Int32,
                ColumnType::Utf8,
            ],
    {
        vec![
            column("path", ColumnType::Utf8),
            column("width", ColumnType::Int32),
            column("height", ColumnType::Int32),
            column("bands", ColumnType::Int32),
            column("crs", ColumnType::Utf8),
        ]
    }

    /// The types of the parameters.
    pub fn parameters() -> (types: Vec<ColumnType>)
        ensures
            types@ =~= seq![ColumnType::Utf8],
    {
        vec![ColumnType::Utf8]
    }
}

/// The row of `rs_metadata` says what the scalar functions say of the same raster.
pub proof fn law_metadata_agrees(path: Seq<char>, found: Lookup, row: MetaRow)
    requires
        found is Ok,
        is_meta_row(path, *found->Ok_0, row),
    ensures
        row.width == width_row(found),
        row.height == height_row(found),
        row.bands == bands_row(found),
        row.crs@ == crs_row(found),
{
}

/// Reads the pixels of a band; band numbers below 1 count as 1.
fn band_pixels(found: &Lookup, band: i32) -> (pixels: Result<Vec<u64>, String>)
    ensures
        are_band_pixels(*found, band, pixels),
{
    all_pixels(found, raise(band, 1))
}

/// Whether these are the pixels of a band, or what went wrong when looking for the raster.
pub open spec fn are_band_pixels(
    found: Lookup,
    band: i32,
    pixels: Result<Vec<u64>, String>,
) -> bool {
    match (found, pixels) {
        (Ok(raster), Ok(v)) => v@ == band_samples(*raster, at_least(band, 1)),
        (Err(e), Err(m)) => m == e,
        _ => false,
    }
}

/// `rs_stats(path, band)`: the least and greatest pixel of a band, the mean, the standard
/// deviation and the number of pixels.
pub struct RsStatsVTab;

/// Whether the row of `rs_stats` has been read.
pub struct RsStatsInit {
    done: bool,
}

impl View for RsStatsInit {
    type V = bool;

    closed spec fn view(&self) -> bool {
        self.done
    }
}

/// The row of `rs_stats`.
pub struct RsStatsBind {
    stats: (u64, u64, u64, u64, i64),
}

impl View for RsStatsBind {
    type V = (u64, u64, u64, u64, i64);

    closed spec fn view(&self) -> (u64, u64, u64, u64, i64) {
        self.stats
    }
}

impl RsStatsVTab {
    /// The pixels that the statistics are about.
    pub fn pixels(found: &Lookup, band: i32) -> (pixels: Result<Vec<u64>, String>)
        ensures
            are_band_pixels(*found, band, pixels),
    {
        band_pixels(found, band)
    }

    /// Collects the statistics of some pixels, of which the mean and the standard deviation are
    /// handed in. Without pixels all of them are zero.
    pub fn bind(pixels: &[u64], mean: u64, stddev: u64) -> (bind: RsStatsBind)
        ensures
            bind@ == if pixels@.len() == 0 {
                (ZERO, ZERO, ZERO, ZERO, 0i64)
            } else {
                (least(pixels@), greatest(pixels@), mean, stddev, pixels@.len() as i64)
            },
    {
        if pixels.len() == 0 {
            return RsStatsBind { stats: (ZERO, ZERO, ZERO, ZERO, 0) };
        }
        RsStatsBind {
            stats: (least_of(pixels), greatest_of(pixels), mean, stddev, pixels.len() as i64),
        }
    }

    /// The row has not been read.
    pub fn init() -> (init: RsStatsInit)
        ensures
            !init@,
    {
        RsStatsInit { done: false }
    }

    /// The row the first time, and none from then on.
    pub fn func(init: &mut RsStatsInit, bind: &RsStatsBind) -> (row: Option<
        (u64, u64, u64, u64, i64),
    >)
        ensures
            final(init)@,
            row == if old(init)@ {
                None
            } else {
                Some(bind@)
            },
    {
        if first_time(&mut init.done) {
            Some(bind.stats)
        } else {
            None
        }
    }

    /// The columns of the row.
    pub fn columns() -> (columns: Vec<Column>)
        ensures
            column_names(columns@) =~= seq!["min"@, "max"@, "mean"@, "stddev"@, "count"@],
            column_types(columns@) =~= seq![
                ColumnType::Float64,
                ColumnType::Float64,
                ColumnType::Float64,
                ColumnType::Float64,
                ColumnType::Int64,
            ],
    {
        vec![
            column("min", ColumnType::Float64),
            column("max", ColumnType::Float64),
            column("mean", ColumnType::Float64),
            column("stddev", ColumnType::Float64),
            column("count", ColumnType::Int64),
        ]
    }

    /// The types of the parameters.
    pub fn parameters() -> (types: Vec<ColumnType>)
        ensures
            types@ =~= seq![ColumnType::Utf8, ColumnType::Int32],
    {
        vec![ColumnType::Utf8, ColumnType::Int32]
    }
}

/// The statistics of the first band are about every pixel, and hold what the scalar functions say
/// of the same raster.
pub proof fn law_stats_agree(found: Lookup, pixels: Result<Vec<u64>, String>)
    requires
        found is Ok,
        are_band_pixels(found, 1, pixels),
    ensures
        pixels is Ok,
        pixels->Ok_0@.len() == (*found->Ok_0).width * (*found->Ok_0).height,
        least(pixels->Ok_0@) == min_row(found),
        greatest(pixels->Ok_0@) == max_row(found),
{
    let raster = *found->Ok_0;
    assert(raster.width * raster.height >= 0) by (nonlinear_arith)
        requires
            raster.width >= 0,
            raster.height >= 0,
    ;
}

/// Where no pixel is a NaN, the least and the greatest of the statistics are pixels, and every
/// pixel lies between them.
pub proof fn law_stats_are_pixels(pixels: Seq<u64>)
    requires
        pixels.len() > 0,
        forall|i: int| 0 <= i < pixels.len() ==> !is_nan(#[trigger] pixels[i]),
    ensures
        pixels.contains(least(pixels)),
        pixels.contains(greatest(pixels)),
        forall|i: int|
            0 <= i < pixels.len() ==> value(least(pixels)) <= value(#[trigger] pixels[i]) <= value(
                greatest(pixels),
            ),
{
    assert(!is_nan(pixels[0]));
    law_least_and_greatest_occur(pixels, 0);
    law_least(pixels);
    law_greatest(pixels);
}

/// `rs_histogram(path, band, bins)`: how the pixels of a band spread over bins of equal width.
pub struct RsHistogramVTab;

/// Whether the rows of `rs_histogram` have been read.
pub struct RsHistogramInit {
    done: bool,
}

impl View for RsHistogramInit {
    type V = bool;

    closed spec fn view(&self) -> bool {
        self.done
    }
}

/// The rows of `rs_histogram`.
pub struct RsHistogramBind {
    values: Vec<u64>,
    counts: Vec<i64>,
}

impl View for RsHistogramBind {
    type V = (Seq<u64>, Seq<i64>);

    closed spec fn view(&self) -> (Seq<u64>, Seq<i64>) {
        (self.values@, self.counts@)
    }
}

/// How many of the places are `k`.
pub open spec fn tally(places: Seq<usize>, k: int) -> int
    decreases places.len(),
{
    if places.len() == 0 {
        0
    } else if places.last() == k {
        tally(places.drop_last(), k) + 1
    } else {
        tally(places.drop_last(), k)
    }
}

/// How many of the places lie below `n`.
pub open spec fn places_below(places: Seq<usize>, n: int) -> int
    decreases places.len(),
{
    if places.len() == 0 {
        0
    } else if places.last() < n {
        places_below(places.drop_last(), n) + 1
    } else {
        places_below(places.drop_last(), n)
    }
}

/// The sum of some counts.
pub open spec fn total(counts: Seq<i64>) -> int
    decreases counts.len(),
{
    if counts.len() == 0 {
        0
    } else {
        total(counts.drop_last()) + counts.last()
    }
}

/// No place is counted more often than there are places.
proof fn lemma_tally(places: Seq<usize>, k: int)
    ensures
        0 <= tally(places, k) <= places.len(),
    decreases places.len(),
{
    if places.len() > 0 {
        lemma_tally(places.drop_last(), k);
    }
}

/// The places below `n + 1` are those below `n` and those that are `n`.
proof fn lemma_one_more_bin(places: Seq<usize>, n: int)
    ensures
        places_below(places, n + 1) == places_below(places, n) + tally(places, n),
    decreases places.len(),
{
    if places.len() > 0 {
        lemma_one_more_bin(places.drop_last(), n);
    }
}

/// Nothing lies below the first bin.
proof fn lemma_no_bin(places: Seq<usize>)
    ensures
        places_below(places, 0) == 0,
    decreases places.len(),
{
    if places.len() > 0 {
        lemma_no_bin(places.drop_last());
    }
}

/// The counts of a histogram add up to the number of pixels whose place is one of its bins.
pub proof fn law_counts_add_up(places: Seq<usize>, counts: Seq<i64>)
    requires
        forall|k: int| 0 <= k < counts.len() ==> #[trigger] counts[k] == tally(places, k),
    ensures
        total(counts) == places_below(places, counts.len() as int),
    decreases counts.len(),
{
    if counts.len() == 0 {
        lemma_no_bin(places);
    } else {
        let first = counts.drop_last();
        assert forall|k: int| 0 <= k < first.len() implies #[trigger] first[k] == tally(
            places,
            k,
        ) by {
            assert(first[k] == counts[k]);
        }
        law_counts_add_up(places, first);
        lemma_one_more_bin(places, first.len() as int);
        assert(counts[counts.len() - 1] == counts.last());
    }
}

/// Whether counts say how many pixels fell into each of the bins; without pixels there is no
/// bin.
pub open spec fn are_counts(places: Seq<usize>, bins: int, counts: Seq<i64>) -> bool {
    &&& counts.len() == if places.len() == 0 {
        0
    } else {
        bins
    }
    &&& forall|k: int| 0 <= k < counts.len() ==> #[trigger] counts[k] == tally(places, k)
}

impl RsHistogramVTab {
    /// The pixels that the histogram is about.
    pub fn pixels(found: &Lookup, band: i32) -> (pixels: Result<Vec<u64>, String>)
        ensures
            are_band_pixels(*found, band, pixels),
    {
        band_pixels(found, band)
    }

    /// The number of bins: two or more.
    pub fn bins(bins: i32) -> (n: u32)
        ensures
            n == at_least(bins, 2),
    {
        raise(bins, 2)
    }

    /// Counts the pixels of each bin. `centers` are the middles of the bins, and `places` holds
    /// the bin of each pixel. All pixels count, as none lies outside the least and the greatest
    /// of them; a place that is no bin does not.
    pub fn bind(bins: i32, centers: &[u64], places: &[usize]) -> (bind: RsHistogramBind)
        requires
            places@.len() > 0 ==> centers@.len() == at_least(bins, 2),
            places@.len() <= i64::MAX,
        ensures
            bind@.0 == if places@.len() == 0 {
                Seq::empty()
            } else {
                centers@
            },
            are_counts(places@, at_least(bins, 2) as int, bind@.1),
    {
        let mut values: Vec<u64> = Vec::new();
        let mut counts: Vec<i64> = Vec::new();
        if places.len() == 0 {
            return RsHistogramBind { values, counts };
        }
        values.extend_from_slice(centers);
        assert(values@ == centers@);
        let n: u32 = raise(bins, 2);
        for k in 0..n
            invariant
                counts@.len() == k,
                forall|j: int| 0 <= j < k ==> counts@[j] == 0,
        {
            counts.push(0);
        }
        assert(places@.take(0) == Seq::<usize>::empty());
        for i in 0..places.len()
            invariant
                places@.len() <= i64::MAX,
                counts@.len() == n,
                forall|k: int|
                    0 <= k < n ==> #[trigger] counts@[k] == tally(places@.take(i as int), k),
        {
            let place: usize = places[i];
            proof {
                assert(places@.take(i + 1).drop_last() == places@.take(i as int));
                lemma_tally(places@.take(i as int), place as int);
            }
            if place < counts.len() {
                let before: i64 = counts[place];
                counts.set(place, before + 1);
            }
        }
        assert(places@.take(places@.len() as int) == places@);
        RsHistogramBind { values, counts }
    }

    /// No row has been read.
    pub fn init() -> (init: RsHistogramInit)
        ensures
            !init@,
    {
        RsHistogramInit { done: false }
    }

    /// All rows the first time, and none from then on.
    pub fn func(init: &mut RsHistogramInit, bind: &RsHistogramBind) -> (rows: (Vec<u64>, Vec<i64>))
        ensures
            final(init)@,
            (rows.0@, rows.1@) == if old(init)@ {
                (Seq::empty(), Seq::empty())
            } else {
                bind@
            },
    {
        let mut values: Vec<u64> = Vec::new();
        let mut counts: Vec<i64> = Vec::new();
        if first_time(&mut init.done) {
            values.extend_from_slice(bind.values.as_slice());
            counts.extend_from_slice(bind.counts.as_slice());
            assert(values@ == bind.values@);
            assert(counts@ == bind.counts@);
        }
        (values, counts)
    }

    /// The columns of the rows.
    pub fn columns() -> (columns: Vec<Column>)
        ensures
            column_names(columns@) =~= seq!["value"@, "count"@],
            column_types(columns@) =~= seq![ColumnType::Float64, ColumnType::Int64],
    {
        vec![column("value", ColumnType::Float64), column("count", ColumnType::Int64)]
    }

    /// The types of the parameters.
    pub fn parameters() -> (types: Vec<ColumnType>)
        ensures
            types@ =~= seq![ColumnType::Utf8, ColumnType::Int32, ColumnType::Int32],
    {
        vec![ColumnType::Utf8, ColumnType::Int32, ColumnType::Int32]
    }
}

/// The row of `rs_stats` for some pixels: the number of pixels, the mean and the standard deviation
/// as they were handed in, and a least and a greatest between which every number among the pixels
/// lies. Without pixels all of it is zero.
pub proof fn law_stats_row(pixels: &[u64], mean: u64, stddev: u64, bind: RsStatsBind, i: int)
    requires
        call_ensures(RsStatsVTab::bind, (pixels, mean, stddev), bind),
        pixels@.len() <= i64::MAX,
    ensures
        bind@.4 == pixels@.len(),
        pixels@.len() > 0 ==> bind@.2 == mean && bind@.3 == stddev,
        pixels@.len() == 0 ==> bind@.0 == 0 && bind@.1 == 0 && bind@.2 == 0 && bind@.3 == 0,
        0 <= i < pixels@.len() && !is_nan(pixels@[i]) ==> {
            &&& value(bind@.0) <= value(pixels@[i]) <= value(bind@.1)
            &&& pixels@.contains(bind@.0)
            &&& pixels@.contains(bind@.1)
        },
{
    if 0 <= i < pixels@.len() && !is_nan(pixels@[i]) {
        law_least_and_greatest_occur(pixels@, i);
        law_least(pixels@);
        law_greatest(pixels@);
    }
}

} // verus!
