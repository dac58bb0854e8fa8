use scanhist::grid::Channel;
use scanhist::grid::Pixel;
use scanhist::grid::PixelGrid;
use scanhist::scan::AnalysisState;
use scanhist::scan::BoundsError;
use scanhist::scan::ScanWindow;
use scanhist::scan::TICK_CADENCE_MS;
use scanhist::scan::derive_bucket_vectors;
use scanhist::scan::domain_value;
use scanhist::scan::sample_window;

fn solid_grid(width: u32, height: u32, p: Pixel) -> PixelGrid {
    let pixels: Vec<Pixel> = vec![p; (width as usize) * (height as usize)];
    PixelGrid::new(width, height, pixels).unwrap()
}

#[test]
fn domain_value_shifts_intensity_by_one() {
    assert_eq!(domain_value(0), 1);
    assert_eq!(domain_value(1), 2);
    assert_eq!(domain_value(255), 256);
}

#[test]
fn grid_rejects_mismatched_pixel_count() {
    let pixels: Vec<Pixel> = vec![Pixel { r: 0, g: 0, b: 0 }; 3];
    assert!(PixelGrid::new(2, 2, pixels).is_none());
}

#[test]
fn grid_pixel_access_is_row_major() {
    let pixels: Vec<Pixel> = (0..6u8).map(|i| Pixel { r: i, g: 0, b: 0 }).collect();
    let g = PixelGrid::new(3, 2, pixels).unwrap();
    assert_eq!(g.dimensions(), (3, 2));
    assert_eq!(g.pixel_at(2, 0).r, 2);
    assert_eq!(g.pixel_at(0, 1).r, 3);
    assert_eq!(g.pixel_at(2, 1).r, 5);
}

#[test]
fn sampling_counts_every_window_pixel() {
    let pixels: Vec<Pixel> = vec![
        Pixel { r: 0, g: 10, b: 20 },
        Pixel { r: 1, g: 10, b: 20 },
        Pixel { r: 2, g: 10, b: 20 },
        Pixel { r: 3, g: 10, b: 20 },
    ];
    let g = PixelGrid::new(2, 2, pixels).unwrap();
    let win = ScanWindow { x: 0, y: 0, w: 2, h: 2 };
    let hs = sample_window(&g, win).unwrap();
    assert_eq!(hs.red.total_count(), 4);
    assert_eq!(hs.green.total_count(), 4);
    assert_eq!(hs.blue.total_count(), 4);
    let vectors = derive_bucket_vectors(&hs);
    let red_sum: u64 = vectors.red.iter().sum();
    let green_sum: u64 = vectors.green.iter().sum();
    let blue_sum: u64 = vectors.blue.iter().sum();
    assert_eq!(red_sum, 4);
    assert_eq!(green_sum, 4);
    assert_eq!(blue_sum, 4);
    let green_stats = hs.green.stats().unwrap();
    assert_eq!(green_stats.min, 11);
    assert_eq!(green_stats.max, 11);
}

#[test]
fn sampling_rejects_window_outside_grid() {
    let g = solid_grid(8, 8, Pixel { r: 0, g: 0, b: 0 });
    let win = ScanWindow { x: 4, y: 0, w: 8, h: 8 };
    assert_eq!(sample_window(&g, win).err(), Some(BoundsError));
    assert!(AnalysisState::new(&g, win).is_err());
}

#[test]
fn sampling_twice_yields_identical_vectors() {
    let pixels: Vec<Pixel> = (0..64u8)
        .map(|i| Pixel { r: i.wrapping_mul(37), g: i.wrapping_mul(11), b: 255 - i })
        .collect();
    let g = PixelGrid::new(8, 8, pixels).unwrap();
    let win = ScanWindow { x: 2, y: 1, w: 4, h: 5 };
    let first = derive_bucket_vectors(&sample_window(&g, win).unwrap());
    let second = derive_bucket_vectors(&sample_window(&g, win).unwrap());
    assert_eq!(first.red, second.red);
    assert_eq!(first.green, second.green);
    assert_eq!(first.blue, second.blue);
}

#[test]
fn solid_red_window_concentrates_in_extreme_buckets() {
    let g = solid_grid(32, 32, Pixel { r: 255, g: 0, b: 0 });
    let win = ScanWindow { x: 0, y: 0, w: 32, h: 32 };
    let st = AnalysisState::new(&g, win).unwrap();
    let mut expected_red: Vec<u64> = vec![0; 16];
    expected_red[15] = 1024;
    let mut expected_low: Vec<u64> = vec![0; 16];
    expected_low[0] = 1024;
    assert_eq!(st.bucket_values(Channel::Red), &expected_red);
    assert_eq!(st.bucket_values(Channel::Green), &expected_low);
    assert_eq!(st.bucket_values(Channel::Blue), &expected_low);
}

#[test]
fn advance_shifts_then_wraps_to_initial_position() {
    let g = solid_grid(96, 64, Pixel { r: 9, g: 9, b: 9 });
    let win = ScanWindow { x: 16, y: 16, w: 32, h: 32 };
    let mut st = AnalysisState::new(&g, win).unwrap();
    assert!(st.tick(&g, 300));
    assert_eq!(st.window(), ScanWindow { x: 48, y: 16, w: 32, h: 32 });
    assert!(st.tick(&g, 300));
    assert_eq!(st.window(), ScanWindow { x: 16, y: 16, w: 32, h: 32 });
}

#[test]
fn tick_below_cadence_changes_nothing() {
    let g = solid_grid(96, 64, Pixel { r: 9, g: 9, b: 9 });
    let win = ScanWindow { x: 16, y: 16, w: 32, h: 32 };
    let mut st = AnalysisState::new(&g, win).unwrap();
    assert!(!st.tick(&g, TICK_CADENCE_MS));
    assert_eq!(st.window(), win);
}

#[test]
fn tick_resamples_for_the_advanced_window() {
    // Left half dark, right half bright: after one advance the window covers
    // the bright half only.
    let mut pixels: Vec<Pixel> = Vec::new();
    for _y in 0..8 {
        for x in 0..16 {
            let v: u8 = if x < 8 { 0 } else { 200 };
            pixels.push(Pixel { r: v, g: v, b: v });
        }
    }
    let g = PixelGrid::new(16, 8, pixels).unwrap();
    let win = ScanWindow { x: 0, y: 0, w: 4, h: 4 };
    let mut st = AnalysisState::new(&g, win).unwrap();
    let dark = st.histogram(Channel::Red).stats().unwrap();
    assert_eq!((dark.min, dark.max), (1, 1));
    assert!(st.tick(&g, 1000));
    assert_eq!(st.window(), ScanWindow { x: 4, y: 0, w: 4, h: 4 });
    assert!(st.tick(&g, 1000));
    assert_eq!(st.window(), ScanWindow { x: 8, y: 0, w: 4, h: 4 });
    let bright = st.histogram(Channel::Red).stats().unwrap();
    assert_eq!((bright.min, bright.max), (201, 201));
    assert_eq!(bright.count, 16);
}
