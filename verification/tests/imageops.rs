//! Histogram utilities: accumulation, Otsu threshold selection,
//! equalization and median.
use img2text::{accumulate_histogram, equalization_map, find_threshold, median};

#[test]
fn accumulate_counts() {
    let mut hist = vec![0u32; 256];
    let values: Vec<u8> = vec![0, 7, 7, 255, 7, 0];
    accumulate_histogram(&mut hist, &values);
    assert_eq!(hist[0], 2);
    assert_eq!(hist[7], 3);
    assert_eq!(hist[255], 1);
    assert_eq!(hist[1], 0);
    // accumulation adds onto existing counts
    accumulate_histogram(&mut hist, &values);
    assert_eq!(hist[7], 6);
}

#[test]
fn otsu_bimodal() {
    // two well-separated equal-mass peaks: the chosen threshold separates
    // them (between-class variance is flat between the peaks, and the
    // largest maximizer wins)
    let mut hist = vec![0u32; 256];
    hist[50] = 100;
    hist[200] = 100;
    let t = find_threshold(&hist).unwrap();
    assert!(t > 50 && t <= 200);
    assert_eq!(t, 200);
}

#[test]
fn otsu_asymmetric() {
    let mut hist = vec![0u32; 256];
    hist[10] = 300;
    hist[11] = 10;
    hist[240] = 50;
    assert_eq!(find_threshold(&hist), Some(240));
}

#[test]
fn otsu_uniform_is_none() {
    // all mass in one bucket leaves one class empty at every candidate
    let mut hist = vec![0u32; 256];
    hist[128] = 500;
    assert_eq!(find_threshold(&hist), None);
    let empty = vec![0u32; 256];
    assert_eq!(find_threshold(&empty), None);
}

#[test]
fn equalization_uniform_is_identity() {
    let hist = vec![1u32; 256];
    let mut map = vec![0u8; 256];
    equalization_map(&mut map, &hist);
    for i in 0..256 {
        assert_eq!(map[i] as usize, i);
    }
}

#[test]
fn equalization_zero_histogram_untouched() {
    let hist = vec![0u32; 256];
    let mut map = vec![7u8; 256];
    equalization_map(&mut map, &hist);
    assert!(map.iter().all(|&v| v == 7));
}

#[test]
fn equalization_step() {
    // half the mass at 0: the map jumps to 128 right after it
    let mut hist = vec![0u32; 256];
    hist[0] = 1;
    hist[1] = 1;
    let mut map = vec![0u8; 256];
    equalization_map(&mut map, &hist);
    assert_eq!(map[0], 0);
    assert_eq!(map[1], 128);
    assert_eq!(map[255], 255);
}

#[test]
fn median_first_bucket() {
    let hist = vec![1u32, 0, 0, 1];
    assert_eq!(median(&hist), 0);
}

#[test]
fn median_middle() {
    let hist = vec![0u32, 1, 1, 2];
    assert_eq!(median(&hist), 2);
}

#[test]
fn median_all_zero() {
    let hist = vec![0u32, 0, 0];
    assert_eq!(median(&hist), 0);
}
