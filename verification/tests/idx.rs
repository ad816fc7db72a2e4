use dense_net::example::{Example, CLASS_COUNT, INPUT_SIZE};
use dense_net::mnist::{load_data, LoadError, MnistData, MnistImage, IMAGE_MAGIC, LABEL_MAGIC};

fn label_file(count: i32, labels: &[u8]) -> Vec<u8> {
    let mut bytes = vec![0, 0, 8, 1];
    bytes.extend_from_slice(&count.to_be_bytes());
    bytes.extend_from_slice(labels);
    bytes
}

fn image_file(count: i32, rows: i32, cols: i32, pixels: &[u8]) -> Vec<u8> {
    let mut bytes = vec![0, 0, 8, 3];
    bytes.extend_from_slice(&count.to_be_bytes());
    bytes.extend_from_slice(&rows.to_be_bytes());
    bytes.extend_from_slice(&cols.to_be_bytes());
    bytes.extend_from_slice(pixels);
    bytes
}

fn flat(result: Result<Vec<MnistImage>, LoadError>) -> Result<Vec<(Vec<u8>, u8)>, LoadError> {
    result.map(|list| list.into_iter().map(|m| (m.image, m.classification)).collect())
}

#[test]
fn magic_numbers() {
    assert_eq!(LABEL_MAGIC, 2049);
    assert_eq!(IMAGE_MAGIC, 2051);
}

#[test]
fn label_header_has_one_size() {
    let file = MnistData::new(&[0, 0, 8, 1, 0, 0, 0, 2, 7, 9]).unwrap();
    assert_eq!(file.sizes, vec![2]);
    assert_eq!(file.data, vec![7, 9]);
}

#[test]
fn image_header_has_three_sizes() {
    let file = MnistData::new(&[0, 0, 8, 3, 0, 0, 0xea, 0x60, 0, 0, 0, 28, 0, 0, 1, 2, 5, 6, 7]).unwrap();
    assert_eq!(file.sizes, vec![60000, 28, 258]);
    assert_eq!(file.data, vec![5, 6, 7]);
}

#[test]
fn sizes_are_signed_big_endian() {
    let file = MnistData::new(&[0, 0, 8, 1, 0xff, 0xff, 0xff, 0xfe]).unwrap();
    assert_eq!(file.sizes, vec![-2]);
    assert_eq!(file.data, Vec::<u8>::new());
    let file = MnistData::new(&[0, 0, 8, 3, 0x80, 0, 0, 0, 0x7f, 0xff, 0xff, 0xff, 0x01, 0x02, 0x03, 0x04]).unwrap();
    assert_eq!(file.sizes, vec![i32::MIN, i32::MAX, 0x01020304]);
}

#[test]
fn short_headers_end_unexpectedly() {
    assert_eq!(MnistData::new(&[]).unwrap_err(), LoadError::UnexpectedEof);
    assert_eq!(MnistData::new(&[0, 0, 8]).unwrap_err(), LoadError::UnexpectedEof);
    assert_eq!(MnistData::new(&[0, 0, 8, 1]).unwrap_err(), LoadError::UnexpectedEof);
    assert_eq!(MnistData::new(&[0, 0, 8, 1, 0, 0, 0]).unwrap_err(), LoadError::UnexpectedEof);
    assert_eq!(
        MnistData::new(&[0, 0, 8, 3, 0, 0, 0, 1, 0, 0, 0, 1, 0, 0, 0]).unwrap_err(),
        LoadError::UnexpectedEof
    );
}

#[test]
fn unknown_magic_is_refused() {
    assert_eq!(MnistData::new(&[0, 0, 8, 2, 0, 0, 0, 1]).unwrap_err(), LoadError::UnknownMagic);
    assert_eq!(MnistData::new(&[1, 8, 0, 0]).unwrap_err(), LoadError::UnknownMagic);
    assert_eq!(MnistData::new(&[0xff, 0xff, 0xff, 0xff, 0, 0]).unwrap_err(), LoadError::UnknownMagic);
}

#[test]
fn images_are_cut_out_in_order() {
    let labels = label_file(3, &[4, 0, 9]);
    let images = image_file(3, 1, 2, &[10, 11, 20, 21, 30, 31]);
    assert_eq!(
        flat(load_data(&labels, &images)),
        Ok(vec![(vec![10, 11], 4), (vec![20, 21], 0), (vec![30, 31], 9)])
    );
}

#[test]
fn image_size_is_height_times_width() {
    let labels = label_file(2, &[1, 2]);
    let images = image_file(2, 2, 3, &[1, 2, 3, 4, 5, 6, 7, 8, 9, 10, 11, 12]);
    assert_eq!(
        flat(load_data(&labels, &images)),
        Ok(vec![(vec![1, 2, 3, 4, 5, 6], 1), (vec![7, 8, 9, 10, 11, 12], 2)])
    );
}

#[test]
fn unpaired_images_and_labels_are_dropped() {
    let images = image_file(2, 1, 1, &[5, 6, 7]);
    assert_eq!(flat(load_data(&label_file(3, &[1, 2, 3]), &images)), Ok(vec![(vec![5], 1), (vec![6], 2)]));
    assert_eq!(flat(load_data(&label_file(1, &[8]), &images)), Ok(vec![(vec![5], 8)]));
    assert_eq!(flat(load_data(&label_file(0, &[]), &images)), Ok(vec![]));
}

#[test]
fn empty_images_are_images_too() {
    let labels = label_file(2, &[3, 4]);
    let images = image_file(5, 0, 7, &[]);
    assert_eq!(flat(load_data(&labels, &images)), Ok(vec![(vec![], 3), (vec![], 4)]));
}

#[test]
fn label_file_is_decoded_first() {
    let images = image_file(1, 1, 1, &[5]);
    assert_eq!(flat(load_data(&[0, 0], &[9, 9, 9, 9])), Err(LoadError::UnexpectedEof));
    assert_eq!(flat(load_data(&[9, 9, 9, 9], &[0, 0])), Err(LoadError::UnknownMagic));
    assert_eq!(flat(load_data(&label_file(1, &[1]), &[0, 0, 8, 3, 0])), Err(LoadError::UnexpectedEof));
    assert_eq!(flat(load_data(&label_file(1, &[1]), &[0, 0, 7, 3, 0])), Err(LoadError::UnknownMagic));
    assert_eq!(flat(load_data(&label_file(1, &[1]), &images)), Ok(vec![(vec![5], 1)]));
}

#[test]
fn label_header_in_place_of_images_is_refused() {
    let labels = label_file(1, &[1]);
    assert_eq!(flat(load_data(&labels, &labels)), Err(LoadError::NotImages));
}

#[test]
fn bad_dimensions_are_refused() {
    let labels = label_file(1, &[1]);
    assert_eq!(flat(load_data(&labels, &image_file(-1, 1, 1, &[5]))), Err(LoadError::BadDimensions));
    assert_eq!(flat(load_data(&labels, &image_file(1, -1, 1, &[5]))), Err(LoadError::BadDimensions));
    assert_eq!(flat(load_data(&labels, &image_file(1, 1, -1, &[5]))), Err(LoadError::BadDimensions));
    assert_eq!(flat(load_data(&labels, &image_file(0, 65536, 32768, &[5]))), Err(LoadError::BadDimensions));
    assert_eq!(flat(load_data(&labels, &image_file(0, 65536, 32767, &[5]))), Ok(vec![]));
}

#[test]
fn missing_pixels_are_refused() {
    let labels = label_file(2, &[1, 2]);
    assert_eq!(flat(load_data(&labels, &image_file(2, 2, 2, &[1, 2, 3, 4, 5, 6, 7]))), Err(LoadError::Truncated));
    assert_eq!(flat(load_data(&labels, &image_file(3, 1, 1, &[1, 2]))), Err(LoadError::Truncated));
    assert_eq!(
        flat(load_data(&labels, &image_file(i32::MAX, i32::MAX, 1, &[1, 2]))),
        Err(LoadError::Truncated)
    );
}

#[test]
fn example_constants() {
    assert_eq!(INPUT_SIZE, 784);
    assert_eq!(CLASS_COUNT, 10);
}

#[test]
fn example_target_is_one_hot() {
    let example = Example::new(vec![0, 128, 255], 2, 4);
    assert_eq!(example.x(), &vec![0, 128, 255]);
    assert_eq!(example.y(), &vec![0, 0, 1, 0]);
    assert_eq!(example.class(), 2);
    assert_eq!(Example::new(vec![], 0, 1).y(), &vec![1]);
}

#[test]
fn digit_image_becomes_an_example() {
    let pixels: Vec<u8> = (0..784usize).map(|i| (i % 251) as u8).collect();
    let image = MnistImage { image: pixels.clone(), classification: 7 };
    assert!(Example::accepts(&image));
    let example = Example::from(image);
    assert_eq!(example.x(), &pixels);
    assert_eq!(example.y(), &vec![0, 0, 0, 0, 0, 0, 0, 1, 0, 0]);
    assert_eq!(example.class(), 7);
}

#[test]
fn only_digit_images_are_accepted() {
    assert!(Example::accepts(&MnistImage { image: vec![0; 784], classification: 0 }));
    assert!(Example::accepts(&MnistImage { image: vec![0; 784], classification: 9 }));
    assert!(!Example::accepts(&MnistImage { image: vec![0; 784], classification: 10 }));
    assert!(!Example::accepts(&MnistImage { image: vec![0; 783], classification: 3 }));
    assert!(!Example::accepts(&MnistImage { image: vec![0; 785], classification: 3 }));
}

#[test]
fn loaded_digits_become_examples() {
    let labels = label_file(2, &[3, 8]);
    let pixels: Vec<u8> = (0..2 * 784usize).map(|i| (i % 256) as u8).collect();
    let images = image_file(2, 28, 28, &pixels);
    let examples: Vec<Example> = load_data(&labels, &images)
        .unwrap()
        .into_iter()
        .map(|image| {
            assert!(Example::accepts(&image));
            Example::from(image)
        })
        .collect();
    assert_eq!(examples.len(), 2);
    assert_eq!(examples[1].class(), 8);
    assert_eq!(examples[1].x()[0], (784 % 256) as u8);
    assert_eq!(examples[1].y()[8], 1);
    assert_eq!(examples[1].y().iter().map(|v| *v as usize).sum::<usize>(), 1);
}
