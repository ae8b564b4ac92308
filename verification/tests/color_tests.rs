use metro_display::color::{Color, ColorError};

#[test]
fn color_accepts_byte_channels() {
    assert_eq!(Color::new(0, 0, 255), Ok(Color { red: 0, green: 0, blue: 255 }));
}

#[test]
fn color_rejects_wide_channel() {
    assert_eq!(Color::new(256, 0, 0), Err(ColorError::InvalidChannel));
    assert_eq!(Color::new(0, 1000, 0), Err(ColorError::InvalidChannel));
    assert_eq!(Color::new(0, 0, 256), Err(ColorError::InvalidChannel));
}
