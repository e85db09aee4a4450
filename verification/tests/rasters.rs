use duckdb_raster::columns::ColumnType;
use duckdb_raster::double::{INFINITY, MINUS_INFINITY, NAN, ONE, ZERO};
use duckdb_raster::raster::{
    all_pixels, band_count, crs, geo_transform, height, make_raster, nodata, nodata_texts,
    pick_nodata, read_crs, read_metadata, read_pixel, scale_x, scale_y, width, CachedRaster, Lookup,
    RasterCache, Samples, TiffFile, TiffTags,
};
use duckdb_raster::raster_scalar::{
    first_band, RsBandCount, RsCrs, RsGeoTransform, RsHeight, RsMax, RsMean, RsMin, RsNodata,
    RsPixelToWorld, RsScaleX, RsScaleY, RsStddev, RsWidth, RsWorldToPixel,
};
use duckdb_raster::raster_table::{RsHistogramVTab, RsStatsVTab};
use duckdb_raster::{RsMetadataVTab, RsValue};
use std::sync::Arc;

fn bits(v: f64) -> u64 {
    v.to_bits()
}

fn tags(width: u32, height: u32, bands: Option<u32>) -> TiffTags {
    TiffTags {
        width,
        height,
        samples_per_pixel: bands,
        tiepoint: Some(vec![ZERO, ZERO, ZERO, bits(100.0), bits(50.0), ZERO]),
        scale: Some(vec![bits(0.5), bits(0.25), ZERO]),
        nodata: vec![Some(bits(-9999.0))],
        geo_keys: Some(vec![1, 1, 0, 1, 3072, 0, 1, 3857]),
    }
}

fn two_bands() -> TiffFile {
    TiffFile::Image(tags(2, 2, Some(2)), Samples::Byte(vec![1, 10, 2, 20, 3, 30, 4, 40]))
}

fn found(file: &TiffFile) -> Lookup {
    make_raster(file).map(Arc::new)
}

fn missing() -> Lookup {
    found(&TiffFile::NotOpened("no such file".to_string()))
}

fn failure(file: TiffFile) -> String {
    match make_raster(&file) {
        Ok(_) => panic!("made a raster"),
        Err(m) => m,
    }
}

#[test]
fn messages_of_files_without_a_raster() {
    assert_eq!(failure(TiffFile::NotOpened("gone".to_string())), "Cannot open: gone");
    assert_eq!(failure(TiffFile::NotTiff("odd".to_string())), "TIFF: odd");
    assert_eq!(failure(TiffFile::NoDimensions("flat".to_string())), "flat");
    assert_eq!(failure(TiffFile::NotRead("torn".to_string())), "Read: torn");
    assert_eq!(
        failure(TiffFile::Image(tags(1, 1, None), Samples::Other)),
        "Unsupported pixel type",
    );
}

#[test]
fn rasters_keep_what_the_tags_say() {
    let r: CachedRaster = match make_raster(&two_bands()) {
        Ok(r) => r,
        Err(m) => panic!("{}", m),
    };
    assert_eq!((r.width, r.height, r.bands), (2, 2, 2));
    assert_eq!(
        r.geo_transform,
        (bits(100.0), bits(0.5), bits(0.0), bits(50.0), bits(0.0), bits(-0.25)),
    );
    assert_eq!(r.nodata, bits(-9999.0));
    assert_eq!(r.crs, "EPSG:3857");
    assert_eq!(r.pixels.len(), 8);
}

#[test]
fn missing_tags_have_defaults() {
    let bare = TiffTags {
        width: 1,
        height: 1,
        samples_per_pixel: None,
        tiepoint: None,
        scale: None,
        nodata: vec![],
        geo_keys: None,
    };
    let lookup: Lookup = found(&TiffFile::Image(bare, Samples::Double(vec![bits(2.5)])));
    assert_eq!(band_count(&lookup), Ok(1));
    assert_eq!(geo_transform(&lookup), Ok((ZERO, ONE, ZERO, ZERO, ZERO, bits(-1.0))));
    assert_eq!(nodata(&lookup, 1), Ok(NAN));
    assert_eq!(crs(&lookup), Ok("See GeoTIFF tags".to_string()));
    assert_eq!(scale_x(&lookup), Ok(ONE));
    assert_eq!(scale_y(&lookup), Ok(ONE));
    assert_eq!(read_pixel(&lookup, 1, 0, 0), Ok(bits(2.5)));
}

#[test]
fn short_tags_have_defaults_too() {
    let mut t: TiffTags = tags(1, 1, Some(1));
    t.tiepoint = Some(vec![ZERO, ZERO, ZERO, bits(7.0)]);
    t.scale = Some(vec![bits(3.0)]);
    let lookup: Lookup = found(&TiffFile::Image(t, Samples::Byte(vec![0])));
    assert_eq!(
        geo_transform(&lookup),
        Ok((bits(7.0), bits(3.0), ZERO, ZERO, ZERO, bits(-1.0))),
    );
}

#[test]
fn scale_y_has_no_sign() {
    assert_eq!(scale_y(&found(&two_bands())), Ok(bits(0.25)));
    assert_eq!(scale_x(&found(&two_bands())), Ok(bits(0.5)));
}

#[test]
fn samples_of_every_type_are_widened() {
    let one = tags(2, 1, Some(1));
    let cases: Vec<Samples> = vec![
        Samples::Double(vec![bits(1.5), bits(-2.0)]),
        Samples::Single(vec![1.5f32.to_bits(), (-2.0f32).to_bits()]),
    ];
    for samples in cases {
        let lookup: Lookup = found(&TiffFile::Image(tags(2, 1, Some(1)), samples));
        assert_eq!(all_pixels(&lookup, 1), Ok(vec![bits(1.5), bits(-2.0)]));
    }
    let lookup: Lookup = found(&TiffFile::Image(one, Samples::Short(vec![65535, 7])));
    assert_eq!(all_pixels(&lookup, 1), Ok(vec![bits(65535.0), bits(7.0)]));
    let lookup: Lookup =
        found(&TiffFile::Image(tags(2, 1, Some(1)), Samples::Byte(vec![255, 0])));
    assert_eq!(all_pixels(&lookup, 1), Ok(vec![bits(255.0), bits(0.0)]));
}

#[test]
fn bands_of_a_pixel_stand_side_by_side() {
    let lookup: Lookup = found(&two_bands());
    assert_eq!(
        all_pixels(&lookup, 1),
        Ok(vec![bits(1.0), bits(2.0), bits(3.0), bits(4.0)]),
    );
    assert_eq!(
        all_pixels(&lookup, 2),
        Ok(vec![bits(10.0), bits(20.0), bits(30.0), bits(40.0)]),
    );
    assert_eq!(all_pixels(&lookup, 9), all_pixels(&lookup, 2));
    for row in 0..2u32 {
        for col in 0..2u32 {
            for band in 1..=2u32 {
                let all: Vec<u64> = all_pixels(&lookup, band).unwrap();
                assert_eq!(
                    read_pixel(&lookup, band, col, row),
                    Ok(all[(row * 2 + col) as usize]),
                );
            }
        }
    }
}

#[test]
fn pixels_outside_are_refused() {
    let lookup: Lookup = found(&two_bands());
    assert_eq!(read_pixel(&lookup, 1, 2, 0), Err("Pixel out of bounds".to_string()));
    assert_eq!(read_pixel(&lookup, 1, 0, 2), Err("Pixel out of bounds".to_string()));
    assert_eq!(read_pixel(&lookup, 0, 5, 5), Err("Pixel out of bounds".to_string()));
    assert_eq!(read_pixel(&missing(), 1, 0, 0), Err("Cannot open: no such file".to_string()));
}

#[test]
fn images_with_too_few_or_too_many_samples() {
    let short: Lookup = found(&TiffFile::Image(tags(2, 2, Some(1)), Samples::Byte(vec![5, 6])));
    assert_eq!(all_pixels(&short, 1), Ok(vec![bits(5.0), bits(6.0), NAN, NAN]));
    assert_eq!(read_pixel(&short, 1, 1, 1), Ok(NAN));
    let long: Lookup =
        found(&TiffFile::Image(tags(1, 1, Some(1)), Samples::Short(vec![8, 9, 10])));
    assert_eq!(all_pixels(&long, 1), Ok(vec![bits(8.0)]));
    let none: Lookup = found(&TiffFile::Image(tags(2, 1, Some(0)), Samples::Byte(vec![3, 4])));
    assert_eq!(all_pixels(&none, 1), Ok(vec![bits(3.0), bits(3.0)]));
}

#[test]
fn failures_go_through_every_reader() {
    let m: Lookup = missing();
    let e: String = "Cannot open: no such file".to_string();
    assert_eq!(all_pixels(&m, 1), Err(e.clone()));
    assert_eq!(band_count(&m), Err(e.clone()));
    assert_eq!(width(&m), Err(e.clone()));
    assert_eq!(height(&m), Err(e.clone()));
    assert_eq!(nodata(&m, 1), Err(e.clone()));
    assert_eq!(geo_transform(&m), Err(e.clone()));
    assert_eq!(scale_x(&m), Err(e.clone()));
    assert_eq!(scale_y(&m), Err(e.clone()));
    assert_eq!(crs(&m), Err(e.clone()));
    assert_eq!(read_metadata(&m), Err(e));
}

#[test]
fn reference_systems() {
    assert_eq!(read_crs(&None), "See GeoTIFF tags");
    assert_eq!(read_crs(&Some(vec![])), "See GeoTIFF tags");
    assert_eq!(read_crs(&Some(vec![1, 1, 0, 0])), "See GeoTIFF tags");
    assert_eq!(read_crs(&Some(vec![1, 1, 0, 1, 2048, 0, 1, 4326])), "EPSG:4326");
    assert_eq!(
        read_crs(&Some(vec![1, 1, 0, 3, 1024, 0, 1, 2, 2048, 0, 1, 4326, 3072, 0, 1, 32650])),
        "EPSG:4326",
    );
    assert_eq!(read_crs(&Some(vec![1, 1, 0, 9, 1024, 0, 1, 2, 3072, 0])), "See GeoTIFF tags");
    assert_eq!(read_crs(&Some(vec![1, 1, 0, 0, 3072, 0, 1, 4326])), "See GeoTIFF tags");
}

#[test]
fn texts_that_say_what_stands_for_no_data() {
    let meta: Option<String> = Some(
        "<GDALMetadata>\nNODATA = -1 \r\nsize=4\nNoData=2=3\nNODATA\n".to_string(),
    );
    assert_eq!(nodata_texts(&Some(" 7 ".to_string()), &meta), vec![" 7 "]);
    assert_eq!(nodata_texts(&None, &meta), vec!["-1", "2"]);
    assert!(nodata_texts(&None, &None).is_empty());
    assert!(nodata_texts(&None, &Some("nodata=1".to_string())).is_empty());
}

#[test]
fn first_number_stands_for_no_data() {
    assert_eq!(pick_nodata(&[]), NAN);
    assert_eq!(pick_nodata(&[None]), NAN);
    assert_eq!(pick_nodata(&[None, Some(NAN), Some(bits(3.0)), Some(bits(4.0))]), bits(3.0));
    assert_eq!(pick_nodata(&[Some(bits(0.0)), Some(bits(4.0))]), bits(0.0));
}

#[test]
fn loaded_rasters_are_cached() {
    let mut cache = RasterCache::new();
    assert!(cache.get_cached("a.tif").is_none());
    let loaded: Lookup = cache.load_raster("a.tif", &two_bands());
    assert_eq!(width(&loaded), Ok(2));
    let again: Lookup = Ok(cache.get_cached("a.tif").unwrap());
    assert_eq!(all_pixels(&again, 2), all_pixels(&loaded, 2));
    assert!(Arc::ptr_eq(&again.unwrap(), &loaded.unwrap()));
    assert!(cache.get_cached("b.tif").is_none());
}

#[test]
fn failed_loads_leave_the_cache_alone() {
    let mut cache = RasterCache::new();
    let first: Lookup = cache.load_raster("a.tif", &two_bands());
    assert!(first.is_ok());
    let bad: Lookup = cache.load_raster("b.tif", &TiffFile::NotTiff("odd".to_string()));
    assert_eq!(width(&bad), Err("TIFF: odd".to_string()));
    assert!(cache.get_cached("b.tif").is_none());
    let worse: Lookup = cache.load_raster("a.tif", &TiffFile::NotRead("torn".to_string()));
    assert!(worse.is_err());
    assert!(Arc::ptr_eq(&cache.get_cached("a.tif").unwrap(), &first.unwrap()));
}

#[test]
fn loading_again_replaces_the_raster() {
    let mut cache = RasterCache::new();
    let _ = cache.load_raster("a.tif", &two_bands());
    let _ = cache
        .load_raster("a.tif", &TiffFile::Image(tags(1, 1, Some(1)), Samples::Byte(vec![77])));
    let now: Lookup = Ok(cache.get_cached("a.tif").unwrap());
    assert_eq!(all_pixels(&now, 1), Ok(vec![bits(77.0)]));
}

#[test]
fn scalar_functions_on_rows() {
    let rows: Vec<Lookup> = vec![found(&two_bands()), missing()];
    assert_eq!(RsBandCount::invoke(&rows), vec![2, 0]);
    assert_eq!(RsWidth::invoke(&rows), vec![2, 0]);
    assert_eq!(RsHeight::invoke(&rows), vec![2, 0]);
    assert_eq!(RsNodata::invoke(&rows, &[1, 0]), vec![bits(-9999.0), NAN]);
    assert_eq!(RsScaleX::invoke(&rows), vec![bits(0.5), ONE]);
    assert_eq!(RsScaleY::invoke(&rows), vec![bits(0.25), ONE]);
    assert_eq!(RsCrs::invoke(&rows), vec!["EPSG:3857", ""]);
    assert_eq!(RsMin::invoke(&rows), vec![bits(1.0), INFINITY]);
    assert_eq!(RsMax::invoke(&rows), vec![bits(4.0), MINUS_INFINITY]);
    assert_eq!(
        RsGeoTransform::invoke(&rows),
        vec![
            (bits(100.0), bits(0.5), ZERO, bits(50.0), ZERO, bits(-0.25)),
            (ZERO, ONE, ZERO, ZERO, ZERO, bits(-1.0)),
        ],
    );
    assert_eq!(first_band(&rows[0]).len(), 4);
    assert!(first_band(&rows[1]).is_empty());
}

#[test]
fn values_on_rows() {
    let f: TiffFile = two_bands();
    let rows: Vec<Lookup> = vec![found(&f), found(&f), found(&f), found(&f), missing()];
    assert_eq!(
        RsValue::invoke(&rows, &[2, 0, -7, 1, 1], &[1, 1, -3, 2, 0], &[1, 0, -1, 0, 0]),
        vec![bits(40.0), bits(2.0), bits(1.0), NAN, NAN],
    );
}

#[test]
fn wide_rasters_wrap_into_signed_numbers() {
    let huge: Lookup =
        found(&TiffFile::Image(tags(u32::MAX, 0, Some(1)), Samples::Byte(vec![])));
    assert_eq!(RsWidth::invoke(&[huge]), vec![-1]);
}

#[test]
fn metadata_table() {
    let bind = match RsMetadataVTab::bind("a.tif", &found(&two_bands())) {
        Ok(b) => b,
        Err(m) => panic!("{}", m),
    };
    let mut init = RsMetadataVTab::init();
    let row = RsMetadataVTab::func(&mut init, &bind).unwrap();
    assert_eq!(row.path, "a.tif");
    assert_eq!((row.width, row.height, row.bands), (2, 2, 2));
    assert_eq!(row.crs, "EPSG:3857");
    assert!(RsMetadataVTab::func(&mut init, &bind).is_none());
    match RsMetadataVTab::bind("b.tif", &missing()) {
        Ok(_) => panic!("bound"),
        Err(m) => assert_eq!(m, "Cannot open: no such file"),
    }
}

#[test]
fn statistics_table() {
    let pixels: Vec<u64> = RsStatsVTab::pixels(&found(&two_bands()), -4).unwrap();
    assert_eq!(pixels, vec![bits(1.0), bits(2.0), bits(3.0), bits(4.0)]);
    let bind = RsStatsVTab::bind(&pixels, bits(2.5), bits(1.25f64.sqrt()));
    let mut init = RsStatsVTab::init();
    assert_eq!(
        RsStatsVTab::func(&mut init, &bind),
        Some((bits(1.0), bits(4.0), bits(2.5), bits(1.25f64.sqrt()), 4)),
    );
    assert_eq!(RsStatsVTab::func(&mut init, &bind), None);
    let empty = RsStatsVTab::bind(&[], NAN, NAN);
    assert_eq!(
        RsStatsVTab::func(&mut RsStatsVTab::init(), &empty),
        Some((ZERO, ZERO, ZERO, ZERO, 0)),
    );
    assert_eq!(
        RsStatsVTab::pixels(&missing(), 1),
        Err("Cannot open: no such file".to_string()),
    );
}

#[test]
fn histogram_table() {
    assert_eq!(RsHistogramVTab::bins(-1), 2);
    assert_eq!(RsHistogramVTab::bins(7), 7);
    let pixels: Vec<u64> = RsHistogramVTab::pixels(&found(&two_bands()), 2).unwrap();
    assert_eq!(pixels.len(), 4);
    let centers: Vec<u64> = vec![bits(15.0), bits(25.0), bits(35.0)];
    let bind = RsHistogramVTab::bind(3, &centers, &[0, 1, 2, 3, 0]);
    let mut init = RsHistogramVTab::init();
    let (values, counts) = RsHistogramVTab::func(&mut init, &bind);
    assert_eq!(values, centers);
    assert_eq!(counts, vec![2, 1, 1]);
    assert_eq!(RsHistogramVTab::func(&mut init, &bind), (vec![], vec![]));
    let empty = RsHistogramVTab::bind(5, &[], &[]);
    assert_eq!(RsHistogramVTab::func(&mut RsHistogramVTab::init(), &empty), (vec![], vec![]));
}

#[test]
fn histogram_counts_add_up() {
    let places: Vec<usize> = vec![4, 0, 9, 4, 2, 4, 11, 0];
    let bind = RsHistogramVTab::bind(10, &[ZERO; 10], &places);
    let (_, counts) = RsHistogramVTab::func(&mut RsHistogramVTab::init(), &bind);
    assert_eq!(counts.iter().sum::<i64>(), 7);
    assert_eq!(counts[4], 3);
}

#[test]
fn columns_and_signatures_of_the_raster_functions() {
    let names: Vec<String> = RsMetadataVTab::columns().into_iter().map(|c| c.name).collect();
    assert_eq!(names, vec!["path", "width", "height", "bands", "crs"]);
    let names: Vec<String> = RsStatsVTab::columns().into_iter().map(|c| c.name).collect();
    assert_eq!(names, vec!["min", "max", "mean", "stddev", "count"]);
    let names: Vec<String> = RsHistogramVTab::columns().into_iter().map(|c| c.name).collect();
    assert_eq!(names, vec!["value", "count"]);
    assert_eq!(RsMetadataVTab::parameters(), vec![ColumnType::Utf8]);
    assert_eq!(RsStatsVTab::parameters(), vec![ColumnType::Utf8, ColumnType::Int32]);
    assert_eq!(
        RsHistogramVTab::parameters(),
        vec![ColumnType::Utf8, ColumnType::Int32, ColumnType::Int32],
    );
    let doubles = [
        RsPixelToWorld::signatures(),
        RsWorldToPixel::signatures(),
    ];
    for s in doubles {
        assert_eq!(
            s[0].arguments,
            vec![ColumnType::Utf8, ColumnType::Float64, ColumnType::Float64],
        );
        assert_eq!(s[0].result, ColumnType::Utf8);
    }
    assert_eq!(RsMean::signatures()[0].result, ColumnType::Float64);
    assert_eq!(RsStddev::signatures()[0].result, ColumnType::Float64);
    assert_eq!(RsValue::signatures()[0].arguments.len(), 4);
}

#[test]
fn tables_agree_with_the_scalar_functions() {
    let lookup: Lookup = found(&two_bands());
    let bind = match RsMetadataVTab::bind("a.tif", &lookup) {
        Ok(b) => b,
        Err(m) => panic!("{}", m),
    };
    let row = RsMetadataVTab::func(&mut RsMetadataVTab::init(), &bind).unwrap();
    let pixels: Vec<u64> = RsStatsVTab::pixels(&lookup, 1).unwrap();
    let stats = RsStatsVTab::bind(&pixels, ZERO, ZERO);
    let (min, max, _, _, count) =
        RsStatsVTab::func(&mut RsStatsVTab::init(), &stats).unwrap();
    let rows: Vec<Lookup> = vec![lookup];
    assert_eq!(RsWidth::invoke(&rows), vec![row.width]);
    assert_eq!(RsHeight::invoke(&rows), vec![row.height]);
    assert_eq!(RsBandCount::invoke(&rows), vec![row.bands]);
    assert_eq!(RsCrs::invoke(&rows), vec![row.crs]);
    assert_eq!(RsMin::invoke(&rows), vec![min]);
    assert_eq!(RsMax::invoke(&rows), vec![max]);
    assert_eq!(count, 4);
}

#[test]
fn cached_rasters_are_made_of_files() {
    let mut cache = RasterCache::new();
    let _ = cache.load_raster("a.tif", &two_bands());
    let _ = cache.load_raster(
        "b.tif",
        &TiffFile::Image(tags(1, 2, None), Samples::Byte(vec![1, 2, 3, 4])),
    );
    for path in ["a.tif", "b.tif"] {
        let r: Arc<CachedRaster> = cache.get_cached(path).unwrap();
        assert_eq!((r.geo_transform.2, r.geo_transform.4), (ZERO, ZERO));
        assert!(r.crs == "See GeoTIFF tags" || r.crs.starts_with("EPSG:"));
        assert!(r.pixels.len() as u32 <= r.width * r.height * r.bands);
    }
}

#[test]
fn statistics_are_about_every_pixel() {
    for values in [[3.0, -1.0, 2.0, 2.0], [f64::INFINITY; 4], [f64::NEG_INFINITY; 4]] {
        let data: Vec<u64> = values.iter().map(|&v| bits(v)).collect();
        let lookup: Lookup =
            found(&TiffFile::Image(tags(2, 2, Some(1)), Samples::Double(data.clone())));
        let pixels: Vec<u64> = RsStatsVTab::pixels(&lookup, 1).unwrap();
        let bind = RsStatsVTab::bind(&pixels, ZERO, ZERO);
        let row = RsStatsVTab::func(&mut RsStatsVTab::init(), &bind).unwrap();
        assert!(data.contains(&row.0) && data.contains(&row.1));
        assert_eq!(row.4, 4);
    }
}
