use crate_vis::{ConfigError, Rgba};

#[test]
fn parse_three_components_defaults_alpha() {
    let c = Rgba::from_str("10,20,30").unwrap();
    assert_eq!(c, Rgba { r: 10, g: 20, b: 30, a: 255 });
}

#[test]
fn parse_four_components_keeps_alpha() {
    let c = Rgba::from_str("10,20,30,128").unwrap();
    assert_eq!(c, Rgba { r: 10, g: 20, b: 30, a: 128 });
}

#[test]
fn parse_two_components_fails() {
    assert_eq!(Rgba::from_str("10,20"), Err(ConfigError::MissingColorComponent));
}

#[test]
fn parse_one_component_fails() {
    assert_eq!(Rgba::from_str("10"), Err(ConfigError::MissingColorComponent));
}

#[test]
fn parse_empty_string_fails() {
    assert_eq!(Rgba::from_str(""), Err(ConfigError::InvalidColorComponent));
}

#[test]
fn parse_non_numeric_component_fails() {
    assert_eq!(Rgba::from_str("x,20,30"), Err(ConfigError::InvalidColorComponent));
    assert_eq!(Rgba::from_str("10,2o,30"), Err(ConfigError::InvalidColorComponent));
}

#[test]
fn parse_component_above_byte_range_fails() {
    assert_eq!(Rgba::from_str("300,0,0"), Err(ConfigError::InvalidColorComponent));
    assert_eq!(Rgba::from_str("0,0,0,999999999999"), Err(ConfigError::InvalidColorComponent));
}

#[test]
fn parse_empty_alpha_fails() {
    assert_eq!(Rgba::from_str("10,20,30,"), Err(ConfigError::InvalidColorComponent));
}

#[test]
fn parse_ignores_pieces_past_the_fourth() {
    let c = Rgba::from_str("1,2,3,4,5").unwrap();
    assert_eq!(c, Rgba { r: 1, g: 2, b: 3, a: 4 });
}

#[test]
fn parse_accepts_leading_zeros() {
    let c = Rgba::from_str("007,000,0255").unwrap();
    assert_eq!(c, Rgba { r: 7, g: 0, b: 255, a: 255 });
}

#[test]
fn packed_form_is_big_endian_rgba() {
    let c = Rgba { r: 0x01, g: 0x02, b: 0x03, a: 0x04 };
    assert_eq!(c.to_u32(), 0x01020304);
    let red = Rgba { r: 255, g: 0, b: 0, a: 255 };
    assert_eq!(red.to_u32(), 0xFF0000FF);
}

#[test]
fn rgba_packs_channels() {
    assert_eq!(crate_vis::color::rgba(0, 0, 0, 255 / 2), 0x0000007F);
}

#[test]
fn csv_writes_all_four_channels() {
    let c = Rgba { r: 10, g: 20, b: 30, a: 255 };
    assert_eq!(c.to_csv(), "10,20,30,255");
    let d = Rgba { r: 0, g: 100, b: 7, a: 128 };
    assert_eq!(d.to_csv(), "0,100,7,128");
}

#[test]
fn csv_then_parse_restores_the_color() {
    let c = Rgba { r: 1, g: 0, b: 200, a: 42 };
    assert_eq!(Rgba::from_str(c.to_csv().as_str()), Ok(c));
}
