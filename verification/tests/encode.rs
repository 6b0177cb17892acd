use bloom_wnn::encode::{check_nondecreasing, encode};
use bloom_wnn::error::WnnError;
use bloom_wnn::tensor::{PixelGrid, ThresholdCube};

fn levels_of(d0: usize, d1: usize, d2: usize, cells: Vec<u16>) -> ThresholdCube {
    ThresholdCube::from_shape_vec(d0, d1, d2, cells).unwrap()
}

fn pixels_of(rows: usize, cols: usize, cells: Vec<u8>) -> PixelGrid {
    PixelGrid::from_shape_vec(rows, cols, cells).unwrap()
}

#[test]
fn encode_compares_each_pixel_with_its_levels() {
    let levels = levels_of(2, 2, 2, vec![50, 100, 10, 200, 0, 0, 256, 256]);
    let image = pixels_of(2, 2, vec![75, 200, 0, 255]);
    assert_eq!(
        encode(&levels, &image).unwrap(),
        vec![true, false, true, true, true, true, false, false]
    );
}

#[test]
fn encode_sets_a_bit_when_the_intensity_equals_the_level() {
    let levels = levels_of(1, 1, 3, vec![99, 100, 101]);
    assert_eq!(encode(&levels, &pixels_of(1, 1, vec![100])).unwrap(), vec![true, true, false]);
}

#[test]
fn encode_gives_a_thermometer_for_ordered_levels() {
    let levels = levels_of(1, 1, 4, vec![10, 20, 30, 40]);
    assert!(check_nondecreasing(&levels));
    assert_eq!(encode(&levels, &pixels_of(1, 1, vec![0])).unwrap(), vec![false, false, false, false]);
    assert_eq!(encode(&levels, &pixels_of(1, 1, vec![25])).unwrap(), vec![true, true, false, false]);
    assert_eq!(encode(&levels, &pixels_of(1, 1, vec![255])).unwrap(), vec![true, true, true, true]);
}

#[test]
fn encode_rejects_an_image_of_another_size() {
    let levels = levels_of(2, 2, 1, vec![1, 2, 3, 4]);
    assert_eq!(encode(&levels, &pixels_of(2, 3, vec![0; 6])).err(), Some(WnnError::ShapeMismatch));
    assert_eq!(encode(&levels, &pixels_of(3, 2, vec![0; 6])).err(), Some(WnnError::ShapeMismatch));
    assert_eq!(encode(&levels, &pixels_of(1, 1, vec![0])).err(), Some(WnnError::ShapeMismatch));
    assert_eq!(encode(&levels, &pixels_of(0, 0, vec![])).err(), Some(WnnError::ShapeMismatch));
}

#[test]
fn encode_of_nothing_is_nothing() {
    let no_planes = levels_of(2, 2, 0, vec![]);
    assert_eq!(encode(&no_planes, &pixels_of(2, 2, vec![1, 2, 3, 4])).unwrap(), Vec::<bool>::new());
    let no_pixels = levels_of(0, 0, 3, vec![]);
    assert_eq!(encode(&no_pixels, &pixels_of(0, 0, vec![])).unwrap(), Vec::<bool>::new());
}

#[test]
fn brighter_image_keeps_every_bit_of_the_darker() {
    let levels = levels_of(2, 2, 3, vec![10, 60, 200, 0, 128, 255, 30, 31, 32, 100, 150, 256]);
    let darker = pixels_of(2, 2, vec![59, 127, 31, 100]);
    let brighter = pixels_of(2, 2, vec![60, 255, 31, 149]);
    let low = encode(&levels, &darker).unwrap();
    let high = encode(&levels, &brighter).unwrap();
    assert_eq!(low, vec![true, false, false, true, false, false, true, true, false, true, false, false]);
    assert_eq!(high, vec![true, true, false, true, true, true, true, true, false, true, false, false]);
    for i in 0..low.len() {
        assert!(!low[i] || high[i]);
    }
}

#[test]
fn check_nondecreasing_looks_at_every_pixel() {
    assert!(check_nondecreasing(&levels_of(2, 2, 2, vec![50, 100, 10, 200, 0, 0, 256, 256])));
    assert!(!check_nondecreasing(&levels_of(2, 2, 2, vec![50, 100, 10, 200, 0, 0, 256, 255])));
    assert!(!check_nondecreasing(&levels_of(2, 2, 2, vec![100, 50, 10, 200, 0, 0, 256, 256])));
    assert!(!check_nondecreasing(&levels_of(1, 1, 4, vec![1, 2, 4, 3])));
    // neighbouring pixels are not compared with each other
    assert!(check_nondecreasing(&levels_of(1, 2, 2, vec![100, 200, 0, 50])));
    assert!(check_nondecreasing(&levels_of(2, 2, 1, vec![4, 3, 2, 1])));
    assert!(check_nondecreasing(&levels_of(2, 2, 0, vec![])));
}
