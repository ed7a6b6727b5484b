use ed25519_hacking::stats::confidence_interval;
use ed25519_hacking::stats::mean;
use ed25519_hacking::stats::render_interval;
use ed25519_hacking::stats::std_deviation;
use ed25519_hacking::stats::STAT_SCALE;

#[test]
fn empty_samples_report_no_data() {
    let empty: Vec<u32> = vec![];
    assert_eq!(mean(&empty), None);
    assert_eq!(std_deviation(&empty), None);
    assert_eq!(confidence_interval(&empty, 1440), None);
}

#[test]
fn no_data_is_not_zero() {
    let zeroes: Vec<u32> = vec![0, 0, 0];
    assert_eq!(mean(&zeroes), Some(0));
    assert_eq!(std_deviation(&zeroes), Some(0));
    let empty: Vec<u32> = vec![];
    assert!(mean(&empty) != Some(0));
    assert!(std_deviation(&empty) != Some(0));
}

#[test]
fn mean_of_three() {
    // mean([10, 20, 30]) == 20, reported in milli-units.
    let data: Vec<u32> = vec![10, 20, 30];
    assert_eq!(STAT_SCALE, 1000);
    assert_eq!(mean(&data), Some(20_000));
}

#[test]
fn std_deviation_of_three() {
    // population stddev([10, 20, 30]) = sqrt(200/3) = 8.16496...,
    // reported rounded down in milli-units.
    let data: Vec<u32> = vec![10, 20, 30];
    assert_eq!(std_deviation(&data), Some(8_164));
}

#[test]
fn mean_of_single_sample_is_exact() {
    let data: Vec<u32> = vec![7];
    assert_eq!(mean(&data), Some(7_000));
    assert_eq!(std_deviation(&data), Some(0));
}

#[test]
fn mean_of_largest_samples() {
    let data: Vec<u32> = vec![u32::MAX, u32::MAX];
    assert_eq!(mean(&data), Some(u32::MAX as u64 * 1000));
    assert_eq!(std_deviation(&data), Some(0));
}

#[test]
fn confidence_interval_of_three() {
    // mean 20000, stddev 8164, sqrt(3*10^6) floor = 1732,
    // half-width = 1440 * 8164 / 1732 = 6787.
    let data: Vec<u32> = vec![10, 20, 30];
    let (lo, hi) = confidence_interval(&data, 1440).unwrap();
    assert_eq!((lo, hi), (13_213, 26_787));
}

#[test]
fn confidence_interval_is_symmetric() {
    let data: Vec<u32> = vec![3, 9, 4, 17, 200, 56];
    for z in [0u64, 700, 1440, 2000, 10_000] {
        let m = mean(&data).unwrap() as i128;
        let (lo, hi) = confidence_interval(&data, z).unwrap();
        assert_eq!(hi - m, m - lo);
    }
}

#[test]
fn confidence_interval_with_zero_z_is_the_mean() {
    let data: Vec<u32> = vec![5, 10, 15];
    let m = mean(&data).unwrap() as i128;
    assert_eq!(confidence_interval(&data, 0), Some((m, m)));
}

#[test]
fn half_width_shrinks_with_more_samples() {
    // Fixed per-sample spread, growing counts: the half-width must not grow.
    let mut widths: Vec<i128> = vec![];
    for n in [2usize, 8, 32, 128] {
        let mut data: Vec<u32> = vec![];
        for i in 0..n {
            data.push(if i % 2 == 0 { 10 } else { 30 });
        }
        let (lo, hi) = confidence_interval(&data, 1440).unwrap();
        widths.push(hi - lo);
    }
    assert!(widths[1] < widths[0]);
    assert!(widths[2] < widths[1]);
    assert!(widths[3] < widths[2]);
}

#[test]
fn render_marks_buckets_inside_the_interval() {
    let bar = render_interval(13_213, 26_787, 0, 40_000, 4);
    assert_eq!(bar, "□□■□");
}

#[test]
fn render_marks_at_least_one_bucket_for_a_narrow_interval() {
    let bar = render_interval(5, 5, 0, 40, 4);
    assert_eq!(bar, "■□□□");
}

#[test]
fn render_full_overlap() {
    let bar = render_interval(0, 40, 0, 40, 4);
    assert_eq!(bar, "■■■■");
}

#[test]
fn render_has_one_bucket_per_resolution_step() {
    let bar = render_interval(100, 200, 0, 120_000, 120);
    assert_eq!(bar.chars().count(), 120);
    assert_eq!(bar.chars().filter(|c| *c == '■').count(), 1);
}
