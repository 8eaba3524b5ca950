use rusttracing::image::Image;

#[test]
fn new_image_is_filled() {
    let img = Image::new(3, 2, (0u8, 0u8, 0u8));
    assert_eq!(img.width, 3);
    assert_eq!(img.height, 2);
    assert_eq!(img.data, vec![vec![(0, 0, 0); 2]; 3]);
}

#[test]
fn columns_land_at_their_index_in_any_order() {
    let mut a = Image::new(3, 2, 0u32);
    let mut b = Image::new(3, 2, 0u32);
    a.place_column(0, vec![1, 2]);
    a.place_column(2, vec![5, 6]);
    a.place_column(1, vec![3, 4]);
    b.place_column(1, vec![3, 4]);
    b.place_column(0, vec![1, 2]);
    b.place_column(2, vec![5, 6]);
    assert_eq!(a.data, vec![vec![1, 2], vec![3, 4], vec![5, 6]]);
    assert_eq!(a.data, b.data);
}

#[test]
fn ppm_is_row_major_after_its_header() {
    let mut img = Image::new(2, 2, (0u8, 0u8, 0u8));
    img.place_column(0, vec![(1, 2, 3), (7, 8, 9)]);
    img.place_column(1, vec![(4, 5, 6), (10, 11, 12)]);
    let mut expected = b"P6 2 2 255\n".to_vec();
    expected.extend_from_slice(&[1, 2, 3, 4, 5, 6, 7, 8, 9, 10, 11, 12]);
    assert_eq!(img.to_ppm(), expected);
}

#[test]
fn ppm_header_writes_sizes_in_decimal() {
    let img = Image::new(384, 10, (255u8, 0u8, 0u8));
    let ppm = img.to_ppm();
    let header = b"P6 384 10 255\n";
    assert_eq!(&ppm[..header.len()], header);
    assert_eq!(ppm.len(), header.len() + 3 * 384 * 10);
    assert_eq!(&ppm[header.len()..header.len() + 3], &[255, 0, 0]);
}

#[test]
fn empty_image_is_only_a_header() {
    let img = Image::new(0, 0, (0u8, 0u8, 0u8));
    assert_eq!(img.to_ppm(), b"P6 0 0 255\n".to_vec());
}
