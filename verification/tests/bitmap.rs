use image::DynamicImage;
use pdfium_cli::bitmap::{
    jpeg_input, Bitmap, ColorSpace, JpegInput, UnknownFormat, FPDFBITMAP_BGR, FPDFBITMAP_BGRA,
    FPDFBITMAP_BGRX, FPDFBITMAP_GRAY,
};
use pdfium_cli::error::PDFiumError;

#[test]
fn formats_and_colour_spaces() {
    assert_eq!(
        jpeg_input(FPDFBITMAP_GRAY),
        Ok(JpegInput { color_space: ColorSpace::Grayscale, components: 1 })
    );
    assert_eq!(
        jpeg_input(FPDFBITMAP_BGR),
        Ok(JpegInput { color_space: ColorSpace::Bgr, components: 3 })
    );
    assert_eq!(
        jpeg_input(FPDFBITMAP_BGRX),
        Ok(JpegInput { color_space: ColorSpace::Bgrx, components: 4 })
    );
    assert_eq!(
        jpeg_input(FPDFBITMAP_BGRA),
        Ok(JpegInput { color_space: ColorSpace::Bgra, components: 4 })
    );
}

#[test]
fn unknown_format_has_no_colour_space() {
    assert_eq!(jpeg_input(0), Err(UnknownFormat));
    assert_eq!(jpeg_input(5), Err(UnknownFormat));
    assert_eq!(jpeg_input(u32::MAX), Err(UnknownFormat));
}

#[test]
fn blank_bitmap() {
    let b = Bitmap::new(3, 2, 12, FPDFBITMAP_BGR).expect("a layout that fits");
    assert_eq!((b.width(), b.height(), b.stride(), b.format()), (3, 2, 12, 2));
    assert_eq!(b.len(), 24);
    assert_eq!(b.buffer(), &[0u8; 24][..]);
    assert_eq!(b.jpeg_input(), Ok(JpegInput { color_space: ColorSpace::Bgr, components: 3 }));
}

#[test]
fn negative_layout_is_refused() {
    assert!(matches!(Bitmap::new(-1, 2, 12, 4), Err(PDFiumError::Unknown)));
    assert!(matches!(Bitmap::new(1, -2, 12, 4), Err(PDFiumError::Unknown)));
    assert!(matches!(Bitmap::new(1, 2, -12, 4), Err(PDFiumError::Unknown)));
    assert!(Bitmap::new(0, 0, 0, 4).is_ok());
}

#[test]
fn buffer_of_another_length_is_refused() {
    let mut b = Bitmap::new(1, 2, 4, FPDFBITMAP_BGRA).expect("a layout that fits");
    assert_eq!(b.set_buffer(&[1, 2, 3]), Err(PDFiumError::Unknown));
    assert_eq!(b.set_buffer(&[0; 9]), Err(PDFiumError::Unknown));
    assert_eq!(b.buffer(), &[0u8; 8][..]);
    assert_eq!(b.set_buffer(&[1, 2, 3, 4, 5, 6, 7, 8]), Ok(()));
    assert_eq!(b.buffer(), &[1u8, 2, 3, 4, 5, 6, 7, 8][..]);
    assert_eq!(b.len(), 8);
}

#[test]
fn scanlines_go_by_the_stride() {
    let mut b = Bitmap::new(1, 3, 4, FPDFBITMAP_BGR).expect("a layout that fits");
    b.set_buffer(&[1, 2, 3, 0, 4, 5, 6, 0, 7, 8, 9, 0]).expect("twelve bytes");
    assert_eq!(b.scanline_offset(0), 0);
    assert_eq!(b.scanline_offset(1), 4);
    assert_eq!(b.scanline_offset(2), 8);
    assert_eq!(b.scanline(0), &[1u8, 2, 3, 0][..]);
    assert_eq!(b.scanline(1), &[4u8, 5, 6, 0][..]);
    assert_eq!(b.scanline(2), &[7u8, 8, 9, 0][..]);
}

#[test]
fn bitmap_from_bgra_pixels() {
    let b = Bitmap::from_bgra(1, 2, &[1, 2, 3, 4, 5, 6, 7, 8], 4).expect("pixels that fit");
    assert_eq!((b.width(), b.height(), b.stride(), b.format()), (1, 2, 4, FPDFBITMAP_BGRA));
    assert_eq!(b.buffer(), &[1u8, 2, 3, 4, 5, 6, 7, 8][..]);
    assert!(matches!(Bitmap::from_bgra(1, 2, &[0; 8], 8), Err(PDFiumError::Unknown)));
    assert!(matches!(Bitmap::from_bgra(1, 2, &[0; 8], -4), Err(PDFiumError::Unknown)));
    assert!(matches!(Bitmap::from_bgra(u32::MAX, 0, &[], 4), Err(PDFiumError::Unknown)));
}

#[test]
fn bitmap_of_a_decoded_image() {
    let mut rgb = image::RgbImage::new(2, 3);
    rgb.put_pixel(0, 0, image::Rgb([10, 20, 30]));
    let b = Bitmap::new_with_image(DynamicImage::ImageRgb8(rgb), 8).expect("rows of 8 bytes");
    assert_eq!(b.format(), FPDFBITMAP_BGRA);
    assert_eq!((b.width(), b.height(), b.stride()), (2, 3, 8));
    assert_eq!(b.len(), 24);
    assert_eq!(b.len(), (b.stride() * b.height()) as usize);
    assert!(b.stride() >= 4 * b.width());
    assert_eq!(&b.buffer()[..4], &[30u8, 20, 10, 255][..]);
}

#[test]
fn image_that_does_not_fill_the_rows_is_refused() {
    let img = DynamicImage::new_luma8(2, 3);
    assert!(matches!(Bitmap::new_with_image(img, 12), Err(PDFiumError::Unknown)));
    let img = DynamicImage::new_luma8(2, 3);
    assert!(matches!(Bitmap::new_with_image(img, 4), Err(PDFiumError::Unknown)));
}

#[test]
fn bitmap_holds_the_bgra_form_of_the_image() {
    let mut rgba = image::RgbaImage::new(1, 2);
    rgba.put_pixel(0, 0, image::Rgba([1, 2, 3, 4]));
    rgba.put_pixel(0, 1, image::Rgba([5, 6, 7, 8]));
    let b = Bitmap::new_with_image(DynamicImage::ImageRgba8(rgba), 4).expect("rows of 4 bytes");
    assert_eq!((b.width(), b.height(), b.stride()), (1, 2, 4));
    assert_eq!(b.buffer(), &[3u8, 2, 1, 4, 7, 6, 5, 8][..]);
}

#[test]
fn image_is_built_exactly_where_its_bytes_fill_the_rows() {
    for stride in [-4, 0, 4, 7, 9, 16] {
        let img = DynamicImage::new_rgb8(2, 3);
        assert!(matches!(Bitmap::new_with_image(img, stride), Err(PDFiumError::Unknown)));
    }
    let img = DynamicImage::new_rgb8(2, 3);
    assert!(Bitmap::new_with_image(img, 8).is_ok());
    let flat = DynamicImage::new_rgb8(5, 0);
    let b = Bitmap::new_with_image(flat, 0).expect("no rows");
    assert_eq!((b.width(), b.height(), b.stride(), b.len()), (5, 0, 0, 0));
}
