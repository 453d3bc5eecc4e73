use cfb::types::{SIZE_OF_LEN, SIZE_OF_SOFFSET, SIZE_OF_UOFFSET, SIZE_OF_VOFFSET};

#[test]
fn test_size_of() {
    assert_eq!(4, SIZE_OF_UOFFSET);
    assert_eq!(4, SIZE_OF_SOFFSET);
    assert_eq!(2, SIZE_OF_VOFFSET);
    assert_eq!(4, SIZE_OF_LEN);
}
