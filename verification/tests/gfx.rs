use signal_watch::gfx::Pixel;
use signal_watch::gfx::PixelBuf;
use signal_watch::gfx::TFT_BYTES;
use signal_watch::gfx::TFT_PIXELS;

#[test]
fn pixel_roundtrip_edges() {
    let p = Pixel::new(31, 63, 31);
    assert_eq!(p.r(), 31);
    assert_eq!(p.g(), 63);
    assert_eq!(p.b(), 31);
    assert_eq!(p.0, 0xffff);

    let q = Pixel::new(0, 0, 0);
    assert_eq!(q.r(), 0);
    assert_eq!(q.g(), 0);
    assert_eq!(q.b(), 0);
    assert_eq!(q.0, 0);
}

#[test]
fn pixel_roundtrip_samples() {
    for &(r, g, b) in &[(17u16, 42u16, 9u16), (1, 2, 3), (31, 0, 31), (0, 63, 0), (16, 32, 16)] {
        let p = Pixel::new(r, g, b);
        assert_eq!((p.r(), p.g(), p.b()), (r, g, b));
    }
}

#[test]
fn pixel_packing_formula() {
    let p = Pixel::new(0b10001, 0b100001, 0b00011);
    assert_eq!(p.0, (0b10001 << 11) | (0b100001 << 5) | 0b00011);
}

#[test]
fn pixel_from_bytes_keeps_top_bits() {
    let white = Pixel::from_bytes(0xff, 0xff, 0xff);
    assert_eq!(white, Pixel::new(31, 63, 31));

    let p = Pixel::from_bytes(0x88, 0x44, 0x22);
    assert_eq!((p.r(), p.g(), p.b()), (0x88 >> 3, 0x44 >> 2, 0x22 >> 3));
}

#[test]
fn pixel_default_is_black() {
    assert_eq!(Pixel::default().0, 0);
}

#[test]
fn buffer_dimensions() {
    let buf = PixelBuf::default();
    assert_eq!(buf.as_u16().len(), TFT_PIXELS);
    assert_eq!(buf.as_u8().len(), TFT_BYTES);
    assert_eq!(TFT_PIXELS, 57600);
    assert_eq!(TFT_BYTES, 115200);
}

#[test]
fn byte_stream_matches_word_view() {
    let mut buf = PixelBuf::default();
    buf.set_pixel(0, 0, Pixel::new(31, 0, 0));
    buf.set_pixel(1, 0, Pixel::new(0, 63, 0));
    buf.set_pixel(0, 1, Pixel::new(0, 0, 31));
    buf.set_pixel(239, 239, Pixel::new(17, 42, 9));

    let words = buf.as_u16().clone();
    let bytes = buf.as_u8();
    for i in 0..TFT_PIXELS {
        assert_eq!(bytes[2 * i] as u16, (words[i] >> 8) & 0xff);
        assert_eq!(bytes[2 * i + 1] as u16, words[i] & 0xff);
    }
    assert_eq!(words[0], 0xf800);
    assert_eq!(bytes[0], 0xf8);
    assert_eq!(bytes[1], 0x00);
    assert_eq!(words[1], 0x07e0);
    assert_eq!(words[240], 0x001f);
    assert_eq!(words[240 * 239 + 239], Pixel::new(17, 42, 9).0);
}

#[test]
fn pixel_accessor_reads_back() {
    let mut buf = PixelBuf::default();
    let p = Pixel::new(5, 6, 7);
    buf.set_pixel(120, 200, p);
    assert_eq!(buf.pixel(120, 200), p);
    assert_eq!(buf.pixel(119, 200), Pixel::new(0, 0, 0));
}

#[test]
fn clear_sets_every_byte() {
    let mut buf = PixelBuf::default();
    buf.clear(0xff);
    let bytes = buf.as_u8();
    assert_eq!(bytes.len(), 115200);
    for &b in bytes.iter() {
        assert_eq!(b, 0xff);
    }
    assert_eq!(buf.as_u16()[0], 0xffff);
}

#[test]
fn clear_uses_byte_not_pixel_pattern() {
    let mut buf = PixelBuf::default();
    buf.clear(0xab);
    for &w in buf.as_u16().iter() {
        assert_eq!(w, 0xabab);
    }
    for &b in buf.as_u8().iter() {
        assert_eq!(b, 0xab);
    }
}

#[test]
fn byte_write_shows_through_word_view() {
    let mut buf = PixelBuf::default();
    buf.set_byte(0, 0xf8);
    buf.set_byte(1, 0x21);
    assert_eq!(buf.as_u16()[0], 0xf821);
    assert_eq!(buf.pixel(0, 0).r(), 31);
    buf.set_byte(101, 0x7f);
    assert_eq!(buf.as_u16()[50], 0x007f);
    let bytes = buf.as_u8();
    assert_eq!(bytes[0], 0xf8);
    assert_eq!(bytes[1], 0x21);
    assert_eq!(bytes[100], 0x00);
    assert_eq!(bytes[101], 0x7f);
}

#[test]
fn word_view_mutation_shows_through_byte_view() {
    let mut buf = PixelBuf::default();
    buf.as_u16_mut()[7] = 0x1234;
    let bytes = buf.as_u8();
    assert_eq!(bytes[14], 0x12);
    assert_eq!(bytes[15], 0x34);
    assert_eq!(buf.pixel(7, 0).0, 0x1234);
}
