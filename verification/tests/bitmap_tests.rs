use heineos::bitmap::{color, Bitmap, FsError, HEADER_SIZE};

fn put_u32(v: &mut Vec<u8>, at: usize, x: u32) {
    v[at..at + 4].copy_from_slice(&x.to_le_bytes());
}

fn put_u16(v: &mut Vec<u8>, at: usize, x: u16) {
    v[at..at + 2].copy_from_slice(&x.to_le_bytes());
}

/// A BMP file with the given header fields and pixel bytes after the header.
fn bmp(width: u32, height: u32, bpp: u16, compression: u32, pixels: &[u8]) -> Vec<u8> {
    let mut v = vec![0u8; HEADER_SIZE];
    v[0] = 0x42;
    v[1] = 0x4D;
    put_u32(&mut v, 2, (HEADER_SIZE + pixels.len()) as u32);
    put_u32(&mut v, 10, HEADER_SIZE as u32);
    put_u32(&mut v, 14, 40);
    put_u32(&mut v, 18, width);
    put_u32(&mut v, 22, height);
    put_u16(&mut v, 26, 1);
    put_u16(&mut v, 28, bpp);
    put_u32(&mut v, 30, compression);
    put_u32(&mut v, 34, pixels.len() as u32);
    v.extend_from_slice(pixels);
    v
}

/// Two rows of two pixels; each row padded to eight bytes. The bottom row comes first.
const PIXELS_2X2: [u8; 16] = [1, 2, 3, 4, 5, 6, 0, 0, 7, 8, 9, 10, 11, 12, 0, 0];

#[test]
fn color_packs_argb() {
    assert_eq!(color(1, 2, 3, 4), 0x0401_0203);
    assert_eq!(color(0xFF, 0, 0, 0xFF), 0xFFFF_0000);
}

#[test]
fn from_bytes_reads_rows_bottom_up() {
    let b = Bitmap::from_bytes(&bmp(2, 2, 24, 0, &PIXELS_2X2)).unwrap();
    assert_eq!(b.width(), 2);
    assert_eq!(b.height(), 2);
    assert_eq!(b.pixel_data(), &[0xFF09_0807, 0xFF0C_0B0A, 0xFF03_0201, 0xFF06_0504]);
}

#[test]
fn from_bytes_accepts_bitfields() {
    assert!(Bitmap::from_bytes(&bmp(2, 2, 24, 3, &PIXELS_2X2)).is_some());
}

#[test]
fn from_bytes_rejects_other_compression() {
    assert!(Bitmap::from_bytes(&bmp(2, 2, 24, 1, &PIXELS_2X2)).is_none());
    assert!(Bitmap::from_bytes(&bmp(2, 2, 24, 2, &PIXELS_2X2)).is_none());
}

#[test]
fn from_bytes_rejects_bad_signature() {
    let mut d = bmp(2, 2, 24, 0, &PIXELS_2X2);
    d[1] = b'N';
    assert!(Bitmap::from_bytes(&d).is_none());
}

#[test]
fn from_bytes_rejects_other_depths() {
    assert!(Bitmap::from_bytes(&bmp(2, 2, 32, 0, &PIXELS_2X2)).is_none());
    assert!(Bitmap::from_bytes(&bmp(2, 2, 8, 0, &PIXELS_2X2)).is_none());
}

#[test]
fn from_bytes_rejects_truncated_data() {
    let d = bmp(2, 2, 24, 0, &PIXELS_2X2);
    assert!(Bitmap::from_bytes(&d[..d.len() - 1]).is_none());
    assert!(Bitmap::from_bytes(&d[..HEADER_SIZE - 1]).is_none());
    assert!(Bitmap::from_bytes(&[]).is_none());
}

#[test]
fn from_bytes_rejects_negative_dimensions() {
    assert!(Bitmap::from_bytes(&bmp(0xFFFF_FFFE, 2, 24, 0, &PIXELS_2X2)).is_none());
    assert!(Bitmap::from_bytes(&bmp(2, 0xFFFF_FFFE, 24, 0, &PIXELS_2X2)).is_none());
}

#[test]
fn from_bytes_empty_image() {
    let b = Bitmap::from_bytes(&bmp(0, 0, 24, 0, &[])).unwrap();
    assert_eq!(b.width(), 0);
    assert_eq!(b.height(), 0);
    assert!(b.pixel_data().is_empty());
}

#[test]
fn from_bytes_pads_rows_to_four_bytes() {
    // One pixel per row: rows of 3 bytes padded to 4.
    let pixels = [10, 20, 30, 0, 40, 50, 60, 0, 70, 80, 90, 0];
    let b = Bitmap::from_bytes(&bmp(1, 3, 24, 0, &pixels)).unwrap();
    assert_eq!(b.pixel_data(), &[0xFF5A_5046, 0xFF3C_3228, 0xFF1E_140A]);
}

#[test]
fn read_from_file_passes_errors_on() {
    assert!(matches!(Bitmap::read_from_file(Err(FsError::NotFound)), Err(FsError::NotFound)));
    assert!(matches!(Bitmap::read_from_file(Err(FsError::ReadFailed)), Err(FsError::ReadFailed)));
    assert!(matches!(Bitmap::read_from_file(Ok(vec![1, 2, 3])), Ok(None)));
    let r = Bitmap::read_from_file(Ok(bmp(2, 2, 24, 0, &PIXELS_2X2)));
    assert_eq!(r.unwrap().unwrap().width(), 2);
}
