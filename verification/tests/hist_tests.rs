use scanhist::hist::BUCKET_VECTOR_LEN;
use scanhist::hist::ChannelHistogram;
use scanhist::hist::ConfigError;
use scanhist::hist::RecordError;
use scanhist::hist::StatsError;
use scanhist::hist::resize_with_fill;

#[test]
fn construction_accepts_intensity_range() {
    let h = ChannelHistogram::new(1, 256, 1);
    assert!(h.is_ok());
    let h = h.unwrap();
    assert_eq!(h.low(), 1);
    assert_eq!(h.high(), 256);
    assert_eq!(h.precision(), 1);
    assert_eq!(h.total_count(), 0);
}

#[test]
fn construction_rejects_degenerate_range() {
    assert_eq!(ChannelHistogram::new(5, 5, 1).err(), Some(ConfigError));
    assert_eq!(ChannelHistogram::new(256, 1, 1).err(), Some(ConfigError));
}

#[test]
fn construction_rejects_zero_lower_bound() {
    assert_eq!(ChannelHistogram::new(0, 256, 1).err(), Some(ConfigError));
}

#[test]
fn construction_rejects_excess_precision() {
    assert_eq!(ChannelHistogram::new(1, 256, 6).err(), Some(ConfigError));
    assert!(ChannelHistogram::new(1, 256, 5).is_ok());
    assert!(ChannelHistogram::new(1, 256, 0).is_ok());
}

#[test]
fn record_rejects_out_of_range_and_accepts_bounds() {
    let mut h = ChannelHistogram::new(1, 256, 1).unwrap();
    assert_eq!(h.record(0), Err(RecordError::OutOfRange));
    assert_eq!(h.record(257), Err(RecordError::OutOfRange));
    assert_eq!(h.record(1), Ok(()));
    assert_eq!(h.record(256), Ok(()));
    assert_eq!(h.total_count(), 2);
}

#[test]
fn linear_buckets_bounds_and_counts() {
    let mut h = ChannelHistogram::new(1, 256, 1).unwrap();
    h.record(1).unwrap();
    h.record(16).unwrap();
    h.record(17).unwrap();
    h.record(256).unwrap();
    let buckets = h.linear_buckets(16);
    assert_eq!(buckets.len(), 16);
    assert_eq!(buckets[0], (16, 2));
    assert_eq!(buckets[1], (32, 1));
    assert_eq!(buckets[15], (256, 1));
    for i in 2..15 {
        assert_eq!(buckets[i], (16 * (i as u64 + 1), 0));
    }
}

#[test]
fn linear_buckets_may_be_fewer_than_requested() {
    let mut h = ChannelHistogram::new(1, 10, 1).unwrap();
    h.record(10).unwrap();
    let buckets = h.linear_buckets(16);
    assert_eq!(buckets.len(), 10);
    assert_eq!(buckets[9], (10, 1));
}

#[test]
fn bucket_vector_is_padded_to_sixteen() {
    let mut h = ChannelHistogram::new(1, 10, 1).unwrap();
    h.record(1).unwrap();
    h.record(10).unwrap();
    let v = h.bucket_vector();
    assert_eq!(v.len(), BUCKET_VECTOR_LEN);
    assert_eq!(v, vec![1, 0, 0, 0, 0, 0, 0, 0, 0, 1, 0, 0, 0, 0, 0, 0]);
}

#[test]
fn bucket_vector_sums_to_total() {
    let mut h = ChannelHistogram::new(1, 256, 1).unwrap();
    let values: [u64; 7] = [1, 2, 3, 100, 200, 255, 256];
    for v in values {
        h.record(v).unwrap();
    }
    let sum: u64 = h.bucket_vector().iter().sum();
    assert_eq!(sum, h.total_count());
    assert_eq!(sum, 7);
}

#[test]
fn stats_on_empty_histogram_fails_with_no_samples() {
    let h = ChannelHistogram::new(1, 256, 1).unwrap();
    assert_eq!(h.stats().err(), Some(StatsError::NoSamples));
}

#[test]
fn stats_report_count_min_max() {
    let mut h = ChannelHistogram::new(1, 256, 1).unwrap();
    h.record(5).unwrap();
    h.record(10).unwrap();
    h.record(10).unwrap();
    let st = h.stats().unwrap();
    assert_eq!(st.count, 3);
    assert_eq!(st.min, 5);
    assert_eq!(st.max, 10);
}

#[test]
fn resize_with_fill_pads_to_target() {
    let mut v: Vec<u64> = vec![1, 2];
    resize_with_fill(&mut v, 5, 7);
    assert_eq!(v, vec![1, 2, 7, 7, 7]);
}
