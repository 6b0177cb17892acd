use bloom_wnn::error::WnnError;
use bloom_wnn::tensor::{BitCube, IndexRow, PixelGrid, ThresholdCube};
use bloom_wnn::wnn::{argmax, filter_responds, Wnn};

fn filters(d0: usize, d1: usize, d2: usize, set: &[usize]) -> BitCube {
    let mut cells = vec![false; d0 * d1 * d2];
    for &i in set {
        cells[i] = true;
    }
    BitCube::from_shape_vec(d0, d1, d2, cells).unwrap()
}

fn order(indices: Vec<u64>) -> IndexRow {
    IndexRow::from_vec(indices).unwrap()
}

fn levels(d0: usize, d1: usize, d2: usize, cells: Vec<u16>) -> ThresholdCube {
    ThresholdCube::from_shape_vec(d0, d1, d2, cells).unwrap()
}

fn picture(rows: usize, cols: usize, cells: Vec<u8>) -> PixelGrid {
    PixelGrid::from_shape_vec(rows, cols, cells).unwrap()
}

/// One class, one tuple of four bits, one hash function into sixteen
/// entries with hash parameter seventeen: the address of a tuple is its value.
fn single_filter_model(set: &[usize]) -> Wnn {
    Wnn::new(
        1,
        16,
        1,
        4,
        17,
        filters(1, 1, 16, set),
        order(vec![2, 0, 3, 1]),
        levels(2, 2, 1, vec![128; 4]),
    )
    .unwrap()
}

/// Three classes, two tuples of two bits, two hash functions into eight
/// entries with hash parameter five. Bit `a` of filter `f` of class `c` is
/// cell `(c * 2 + f) * 8 + a`.
fn three_class_model(set: &[usize], hashes: usize) -> Wnn {
    Wnn::new(
        3,
        8,
        hashes,
        2,
        5,
        filters(3, 2, 8, set),
        order(vec![0, 1, 2, 3]),
        levels(2, 2, 1, vec![100; 4]),
    )
    .unwrap()
}

#[test]
fn end_to_end_single_filter() {
    let wnn = single_filter_model(&[3, 12]);
    // bits 1010, permuted 1100, value 3, address 3: set
    assert_eq!(wnn.classify(&picture(2, 2, vec![200, 10, 130, 90])).unwrap(), (0, vec![1]));
    // bits 0101, permuted 0011, value 12, address 12: set
    assert_eq!(wnn.classify(&picture(2, 2, vec![10, 200, 90, 130])).unwrap(), (0, vec![1]));
    // bits 1111, value 15, address 15: clear
    assert_eq!(wnn.classify(&picture(2, 2, vec![255; 4])).unwrap(), (0, vec![0]));
    // bits 0000, value 0, address 0: clear
    assert_eq!(wnn.classify(&picture(2, 2, vec![0; 4])).unwrap(), (0, vec![0]));
    // exactly at the level counts as reached: bits 1000, permuted 0100, value 2
    assert_eq!(wnn.classify(&picture(2, 2, vec![128, 127, 127, 127])).unwrap(), (0, vec![0]));
    let at_two = single_filter_model(&[2]);
    assert_eq!(at_two.classify(&picture(2, 2, vec![128, 127, 127, 127])).unwrap(), (0, vec![1]));
}

#[test]
fn end_to_end_three_classes_two_hashes() {
    // image bits 1011: tuple 0 is (1, 0) with value 1 and addresses 1, 3;
    // tuple 1 is (1, 1) with value 3 and addresses 3, 2
    let image = picture(2, 2, vec![150, 50, 150, 150]);
    let wnn = three_class_model(
        &[
            1, 3, 8 + 2, 8 + 3, // class 0: both filters respond
            16 + 1, 24 + 2, 24 + 3, // class 1: filter 0 lacks address 3
            32 + 1, 32 + 3, 40 + 2, 40 + 3, // class 2: both filters respond
        ],
        2,
    );
    assert_eq!(wnn.classify(&image).unwrap(), (0, vec![2, 1, 2]));
    assert_eq!(wnn.votes(&image).unwrap(), vec![2, 1, 2]);
    // image bits 0100: tuple 0 is (0, 1) with value 2 and addresses 2, 0;
    // tuple 1 is (0, 0) with value 0 and addresses 0, 1
    let other = picture(2, 2, vec![50, 150, 50, 50]);
    assert_eq!(wnn.classify(&other).unwrap(), (0, vec![0, 0, 0]));
    let tuned = three_class_model(&[16 + 0, 16 + 2, 24 + 0, 24 + 1, 32 + 0, 32 + 2], 2);
    assert_eq!(tuned.classify(&other).unwrap(), (1, vec![0, 2, 1]));
}

#[test]
fn ties_go_to_the_lowest_class() {
    let image = picture(2, 2, vec![150, 50, 150, 150]);
    let wnn = three_class_model(
        &[
            1, 8 + 3, // class 0: each filter lacks an address
            16 + 1, 16 + 3, 24 + 2, 24 + 3, // class 1: both respond
            32 + 1, 32 + 3, 40 + 2, 40 + 3, // class 2: both respond
        ],
        2,
    );
    assert_eq!(wnn.classify(&image).unwrap(), (1, vec![0, 2, 2]));
}

#[test]
fn end_to_end_several_bit_planes() {
    // one pixel with four levels, tuples of two bits, order 3 1 2 0;
    // intensity 25 gives bits 1100, permuted 0101, both tuples have value 2
    let wnn = Wnn::new(
        2,
        4,
        1,
        2,
        7,
        filters(2, 2, 4, &[2, 8 + 2, 12 + 2]),
        order(vec![3, 1, 2, 0]),
        levels(1, 1, 4, vec![10, 20, 30, 40]),
    )
    .unwrap();
    assert_eq!(wnn.classify(&picture(1, 1, vec![25])).unwrap(), (1, vec![1, 2]));
    // intensity 5 gives bits 0000: value 0, address 0, clear everywhere
    assert_eq!(wnn.classify(&picture(1, 1, vec![5])).unwrap(), (0, vec![0, 0]));
}

#[test]
fn end_to_end_widest_tuple() {
    // 64 set bits make the value 2^64 - 1, which is 7 modulo 2^61 - 1
    let p: u64 = (1 << 61) - 1;
    let identity: Vec<u64> = (0..64).collect();
    let hit = Wnn::new(1, 1024, 1, 64, p, filters(1, 1, 1024, &[7]), order(identity.clone()), levels(8, 8, 1, vec![1; 64]))
        .unwrap();
    assert_eq!(hit.classify(&picture(8, 8, vec![255; 64])).unwrap(), (0, vec![1]));
    let all_but_seven: Vec<usize> = (0..1024).filter(|&a| a != 7).collect();
    let miss = Wnn::new(1, 1024, 1, 64, p, filters(1, 1, 1024, &all_but_seven), order(identity), levels(8, 8, 1, vec![1; 64]))
        .unwrap();
    assert_eq!(miss.classify(&picture(8, 8, vec![255; 64])).unwrap(), (0, vec![0]));
}

#[test]
fn full_filters_give_every_class_every_vote() {
    let all: Vec<usize> = (0..48).collect();
    let wnn = three_class_model(&all, 2);
    for pixels in [vec![0, 0, 0, 0], vec![255, 255, 255, 255], vec![150, 50, 150, 150], vec![99, 100, 101, 0]] {
        assert_eq!(wnn.classify(&picture(2, 2, pixels)).unwrap(), (0, vec![2, 2, 2]));
    }
    let many_hashes = three_class_model(&all, 9);
    assert_eq!(many_hashes.classify(&picture(2, 2, vec![1, 2, 3, 4])).unwrap(), (0, vec![2, 2, 2]));
}

#[test]
fn empty_filters_give_no_vote_and_predict_the_first_class() {
    let wnn = three_class_model(&[], 2);
    for pixels in [vec![0, 0, 0, 0], vec![255, 255, 255, 255], vec![150, 50, 150, 150], vec![99, 100, 101, 0]] {
        assert_eq!(wnn.classify(&picture(2, 2, pixels)).unwrap(), (0, vec![0, 0, 0]));
    }
}

#[test]
fn without_hash_functions_every_filter_responds() {
    let wnn = three_class_model(&[], 0);
    assert_eq!(wnn.classify(&picture(2, 2, vec![150, 50, 150, 150])).unwrap(), (0, vec![2, 2, 2]));
}

#[test]
fn classify_rejects_an_image_of_another_size() {
    let wnn = single_filter_model(&[3]);
    assert_eq!(wnn.classify(&picture(3, 3, vec![0; 9])).err(), Some(WnnError::ShapeMismatch));
    assert_eq!(wnn.classify(&picture(2, 3, vec![0; 6])).err(), Some(WnnError::ShapeMismatch));
    assert_eq!(wnn.classify(&picture(1, 4, vec![0; 4])).err(), Some(WnnError::ShapeMismatch));
    assert_eq!(wnn.votes(&picture(4, 1, vec![0; 4])).err(), Some(WnnError::ShapeMismatch));
}

#[test]
fn classify_is_a_function_of_model_and_image() {
    let wnn = single_filter_model(&[3, 12]);
    let image = picture(2, 2, vec![200, 10, 130, 90]);
    let first = wnn.classify(&image).unwrap();
    let second = wnn.classify(&image).unwrap();
    assert_eq!(first, second);
}

#[test]
fn new_reports_the_sizes_of_a_model() {
    let wnn = three_class_model(&[], 2);
    assert_eq!(wnn.num_classes(), 3);
    assert_eq!(wnn.num_filters(), 2);
    assert_eq!(wnn.width(), 2);
}

#[test]
fn new_rejects_a_filter_bank_with_an_extra_entry() {
    let r = Wnn::new(1, 16, 1, 4, 17, filters(1, 1, 17, &[]), order(vec![2, 0, 3, 1]), levels(2, 2, 1, vec![128; 4]));
    assert_eq!(r.err(), Some(WnnError::ShapeError));
}

#[test]
fn new_rejects_a_filter_bank_of_another_shape() {
    let extra_class = Wnn::new(1, 16, 1, 4, 17, filters(2, 1, 16, &[]), order(vec![2, 0, 3, 1]), levels(2, 2, 1, vec![128; 4]));
    assert_eq!(extra_class.err(), Some(WnnError::ShapeError));
    let extra_filter = Wnn::new(1, 16, 1, 4, 17, filters(1, 2, 16, &[]), order(vec![2, 0, 3, 1]), levels(2, 2, 1, vec![128; 4]));
    assert_eq!(extra_filter.err(), Some(WnnError::ShapeError));
    let fewer_entries = Wnn::new(1, 16, 1, 4, 17, filters(1, 1, 15, &[]), order(vec![2, 0, 3, 1]), levels(2, 2, 1, vec![128; 4]));
    assert_eq!(fewer_entries.err(), Some(WnnError::ShapeError));
}

#[test]
fn new_rejects_tuples_that_do_not_tile_the_bits() {
    // four bits, tuples of three
    let r = Wnn::new(1, 16, 1, 3, 17, filters(1, 1, 16, &[]), order(vec![2, 0, 3, 1]), levels(2, 2, 1, vec![128; 4]));
    assert_eq!(r.err(), Some(WnnError::ShapeError));
    // four bits, tuples of eight: no tuple at all
    let r = Wnn::new(1, 16, 1, 8, 17, filters(1, 0, 16, &[]), order(vec![2, 0, 3, 1]), levels(2, 2, 1, vec![128; 4]));
    assert_eq!(r.err(), Some(WnnError::ShapeError));
}

#[test]
fn new_rejects_pixels_that_do_not_form_a_square() {
    let r = Wnn::new(1, 16, 1, 2, 17, filters(1, 3, 16, &[]), order(vec![0, 1, 2, 3, 4, 5]), levels(2, 3, 1, vec![128; 6]));
    assert_eq!(r.err(), Some(WnnError::ShapeError));
}

#[test]
fn new_rejects_an_order_that_is_no_permutation() {
    let repeated = Wnn::new(1, 16, 1, 4, 17, filters(1, 1, 16, &[]), order(vec![2, 0, 2, 1]), levels(2, 2, 1, vec![128; 4]));
    assert_eq!(repeated.err(), Some(WnnError::ShapeError));
    let out_of_range = Wnn::new(1, 16, 1, 4, 17, filters(1, 1, 16, &[]), order(vec![2, 0, 4, 1]), levels(2, 2, 1, vec![128; 4]));
    assert_eq!(out_of_range.err(), Some(WnnError::ShapeError));
    let short = Wnn::new(1, 16, 1, 4, 17, filters(1, 1, 16, &[]), order(vec![2, 0, 1]), levels(2, 2, 1, vec![128; 4]));
    assert_eq!(short.err(), Some(WnnError::ShapeError));
    let long = Wnn::new(1, 16, 1, 4, 17, filters(1, 1, 16, &[]), order(vec![2, 0, 3, 1, 4]), levels(2, 2, 1, vec![128; 4]));
    assert_eq!(long.err(), Some(WnnError::ShapeError));
}

#[test]
fn new_rejects_levels_that_decrease() {
    let r = Wnn::new(1, 4, 1, 2, 7, filters(1, 2, 4, &[]), order(vec![3, 1, 2, 0]), levels(1, 1, 4, vec![10, 20, 19, 40]));
    assert_eq!(r.err(), Some(WnnError::ShapeError));
    let equal = Wnn::new(1, 4, 1, 2, 7, filters(1, 2, 4, &[]), order(vec![3, 1, 2, 0]), levels(1, 1, 4, vec![10, 20, 20, 40]));
    assert!(equal.is_ok());
}

#[test]
fn new_rejects_scalars_outside_their_domain() {
    let no_class = Wnn::new(0, 16, 1, 4, 17, filters(0, 1, 16, &[]), order(vec![2, 0, 3, 1]), levels(2, 2, 1, vec![128; 4]));
    assert_eq!(no_class.err(), Some(WnnError::FormatError));
    let no_entry = Wnn::new(1, 0, 1, 4, 17, filters(1, 1, 0, &[]), order(vec![2, 0, 3, 1]), levels(2, 2, 1, vec![128; 4]));
    assert_eq!(no_entry.err(), Some(WnnError::FormatError));
    let no_width = Wnn::new(1, 16, 1, 0, 17, filters(1, 1, 16, &[]), order(vec![2, 0, 3, 1]), levels(2, 2, 1, vec![128; 4]));
    assert_eq!(no_width.err(), Some(WnnError::FormatError));
    let no_param = Wnn::new(1, 16, 1, 4, 0, filters(1, 1, 16, &[]), order(vec![2, 0, 3, 1]), levels(2, 2, 1, vec![128; 4]));
    assert_eq!(no_param.err(), Some(WnnError::FormatError));
}

#[test]
fn new_rejects_a_tuple_wider_than_its_value() {
    // 81 bits in one tuple of 81
    let identity: Vec<u64> = (0..81).collect();
    let r = Wnn::new(1, 16, 1, 81, 17, filters(1, 1, 16, &[]), order(identity), levels(9, 9, 1, vec![128; 81]));
    assert_eq!(r.err(), Some(WnnError::FormatError));
}

#[test]
fn new_reports_a_bad_scalar_before_a_bad_shape() {
    let r = Wnn::new(0, 16, 1, 4, 17, filters(1, 1, 17, &[]), order(vec![0, 0, 0]), levels(2, 3, 1, vec![128; 6]));
    assert_eq!(r.err(), Some(WnnError::FormatError));
}

#[test]
fn new_accepts_a_model_without_feature_bits() {
    let no_planes = Wnn::new(2, 16, 1, 4, 17, filters(2, 0, 16, &[]), order(vec![]), levels(2, 2, 0, vec![])).unwrap();
    assert_eq!(no_planes.num_filters(), 0);
    assert_eq!(no_planes.classify(&picture(2, 2, vec![1, 2, 3, 4])).unwrap(), (0, vec![0, 0]));
}

#[test]
fn argmax_takes_the_first_of_the_largest() {
    assert_eq!(argmax(&vec![2, 5, 5, 1]), 1);
    assert_eq!(argmax(&vec![0, 0, 0]), 0);
    assert_eq!(argmax(&vec![7]), 0);
    assert_eq!(argmax(&vec![1, 2, 3]), 2);
    assert_eq!(argmax(&vec![3, 2, 3]), 0);
}

#[test]
fn filter_responds_only_when_every_addressed_bit_is_set() {
    // class 1, filter 0 of a 2 x 2 x 4 bank holds bits 1 and 3
    let bank = filters(2, 2, 4, &[8 + 1, 8 + 3]);
    assert!(filter_responds(&bank, 1, 0, &vec![1, 3]));
    assert!(filter_responds(&bank, 1, 0, &vec![3, 3, 1]));
    assert!(!filter_responds(&bank, 1, 0, &vec![1, 2]));
    assert!(!filter_responds(&bank, 1, 0, &vec![0]));
    assert!(!filter_responds(&bank, 0, 0, &vec![1, 3]));
    assert!(!filter_responds(&bank, 1, 1, &vec![1, 3]));
    assert!(filter_responds(&bank, 0, 1, &vec![]));
}
