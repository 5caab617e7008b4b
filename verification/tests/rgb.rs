use ansi_tokens::ansi::rgb::{parse_color, ParseColorError, Rgb, DIM_DENOMINATOR, DIM_NUMERATOR};

fn rgb(r: u8, g: u8, b: u8) -> Rgb {
    Rgb { r, g, b }
}

#[test]
fn default_rgb_is_black() {
    assert_eq!(Rgb::default(), rgb(0, 0, 0));
}

#[test]
fn parse_hash_form() {
    assert_eq!(parse_color("#ff8000"), Ok(rgb(255, 128, 0)));
    assert_eq!(parse_color("#000000"), Ok(rgb(0, 0, 0)));
    assert_eq!(parse_color("#ffffff"), Ok(rgb(255, 255, 255)));
}

#[test]
fn parse_0x_form() {
    assert_eq!(parse_color("0x1d1f21"), Ok(rgb(0x1d, 0x1f, 0x21)));
    assert_eq!(parse_color("0xc5c8c6"), Ok(rgb(0xc5, 0xc8, 0xc6)));
}

#[test]
fn parse_takes_red_from_the_high_byte() {
    assert_eq!(parse_color("#010203"), Ok(rgb(1, 2, 3)));
    assert_eq!(parse_color("0x0a0b0c"), Ok(rgb(10, 11, 12)));
}

#[test]
fn parse_takes_digits_of_either_case() {
    assert_eq!(parse_color("#ABCDEF"), Ok(rgb(0xab, 0xcd, 0xef)));
    assert_eq!(parse_color("#aBcDeF"), Ok(rgb(0xab, 0xcd, 0xef)));
    assert_eq!(parse_color("0xFF00aa"), Ok(rgb(255, 0, 170)));
}

#[test]
fn parse_refuses_other_lengths() {
    assert_eq!(parse_color(""), Err(ParseColorError));
    assert_eq!(parse_color("#"), Err(ParseColorError));
    assert_eq!(parse_color("#fff"), Err(ParseColorError));
    assert_eq!(parse_color("#ff00000"), Err(ParseColorError));
    assert_eq!(parse_color("#ff000"), Err(ParseColorError));
    assert_eq!(parse_color("0xff000"), Err(ParseColorError));
    assert_eq!(parse_color("0xff00000"), Err(ParseColorError));
}

#[test]
fn parse_refuses_other_prefixes() {
    assert_eq!(parse_color("ff0000"), Err(ParseColorError));
    assert_eq!(parse_color("0Xff0000"), Err(ParseColorError));
    assert_eq!(parse_color("$ff0000"), Err(ParseColorError));
    assert_eq!(parse_color("xff0000"), Err(ParseColorError));
    assert_eq!(parse_color("0#ff0000"), Err(ParseColorError));
    assert_eq!(parse_color("#0xff00"), Err(ParseColorError));
}

#[test]
fn parse_refuses_what_is_no_hex_digit() {
    assert_eq!(parse_color("#gg0000"), Err(ParseColorError));
    assert_eq!(parse_color("#ff 000"), Err(ParseColorError));
    assert_eq!(parse_color("#+12345"), Err(ParseColorError));
    assert_eq!(parse_color("#-12345"), Err(ParseColorError));
    assert_eq!(parse_color("0x+12345"), Err(ParseColorError));
    assert_eq!(parse_color("#12345/"), Err(ParseColorError));
    assert_eq!(parse_color("#12345:"), Err(ParseColorError));
    assert_eq!(parse_color("#12345@"), Err(ParseColorError));
    assert_eq!(parse_color("#12345G"), Err(ParseColorError));
    assert_eq!(parse_color("#12345`"), Err(ParseColorError));
    assert_eq!(parse_color("#12345g"), Err(ParseColorError));
}

#[test]
fn parse_refuses_text_beyond_ascii() {
    // Seven bytes, four characters.
    assert_eq!(parse_color("#ééé"), Err(ParseColorError));
    // Seven characters, more bytes.
    assert_eq!(parse_color("#ff00é0"), Err(ParseColorError));
    assert_eq!(parse_color("0xff００00"), Err(ParseColorError));
}

#[test]
fn from_str_reads_both_forms() {
    assert_eq!("#cc6666".parse::<Rgb>(), Ok(rgb(0xcc, 0x66, 0x66)));
    assert_eq!("0xcc6666".parse::<Rgb>(), Ok(rgb(0xcc, 0x66, 0x66)));
    assert_eq!("cc6666".parse::<Rgb>(), Err(ParseColorError));
}

#[test]
fn to_hex_writes_lower_case() {
    assert_eq!(rgb(255, 128, 0).to_hex(), "#ff8000");
    assert_eq!(rgb(0, 0, 0).to_hex(), "#000000");
    assert_eq!(rgb(0xab, 0xcd, 0xef).to_hex(), "#abcdef");
    assert_eq!(rgb(1, 2, 3).to_hex(), "#010203");
}

#[test]
fn parse_round_trips_through_to_hex() {
    for text in ["#1D1F21", "0xC5c8C6", "#000000", "0xffffff", "#0a0B0c"] {
        let parsed = parse_color(text).unwrap();
        assert_eq!(parse_color(&parsed.to_hex()), Ok(parsed));
    }
}

#[test]
fn to_hex_then_parse_gives_the_colour_back() {
    for v in 0..=255u8 {
        let color = rgb(v, v.wrapping_mul(7), 255 - v);
        assert_eq!(parse_color(&color.to_hex()), Ok(color));
        let upper = color.to_hex().to_uppercase();
        assert_eq!(parse_color(&upper), Ok(color));
        let prefixed = format!("0x{}", &color.to_hex()[1..]);
        assert_eq!(parse_color(&prefixed), Ok(color));
    }
}

#[test]
fn dim_factor_is_66_hundredths() {
    assert_eq!(DIM_NUMERATOR, 66);
    assert_eq!(DIM_DENOMINATOR, 100);
}

#[test]
fn dim_multiplies_and_drops_the_fraction() {
    assert_eq!(rgb(0xcc, 0x66, 0x66).dim(), rgb(134, 67, 67));
    assert_eq!(rgb(255, 255, 255).dim(), rgb(168, 168, 168));
    assert_eq!(rgb(0, 1, 2).dim(), rgb(0, 0, 1));
    assert_eq!(rgb(50, 100, 150).dim(), rgb(33, 66, 99));
}

#[test]
fn dim_agrees_with_the_floating_point_product() {
    for v in 0..=255u8 {
        let expected = (f32::from(v) * 0.66f32).max(0.0).min(255.0) as u8;
        let dimmed = rgb(v, v, v).dim();
        assert_eq!(dimmed, rgb(expected, expected, expected));
    }
}

#[test]
fn scale_truncates_and_clamps() {
    assert_eq!(rgb(255, 100, 1).scale(1, 2), rgb(127, 50, 0));
    assert_eq!(rgb(100, 200, 0).scale(3, 1), rgb(255, 255, 0));
    assert_eq!(rgb(10, 20, 30).scale(0, 5), rgb(0, 0, 0));
    assert_eq!(rgb(10, 20, 30).scale(7, 7), rgb(10, 20, 30));
    assert_eq!(rgb(1, 2, 3).scale(i64::MAX, 1), rgb(255, 255, 255));
    assert_eq!(rgb(255, 255, 255).scale(i64::from(u32::MAX), u32::MAX), rgb(255, 255, 255));
    assert_eq!(rgb(255, 255, 255).scale(i64::MAX, u32::MAX), rgb(255, 255, 255));
}

#[test]
fn scale_by_two_clamps_to_255() {
    assert_eq!(rgb(200, 1, 0).scale(2, 1), rgb(255, 2, 0));
}

#[test]
fn scale_by_a_negative_factor_gives_black() {
    assert_eq!(rgb(10, 20, 30).scale(-1, 1), rgb(0, 0, 0));
    assert_eq!(rgb(255, 1, 0).scale(-1, 1000), rgb(0, 0, 0));
    assert_eq!(rgb(255, 255, 255).scale(i64::MIN, 1), rgb(0, 0, 0));
    assert_eq!(rgb(255, 255, 255).scale(i64::MIN, u32::MAX), rgb(0, 0, 0));
}

#[test]
fn scale_agrees_with_the_floating_point_product() {
    for (numerator, denominator, factor) in [(2i64, 1u32, 2.0f32), (-1, 1, -1.0), (1, 2, 0.5), (3, 4, 0.75), (0, 1, 0.0)] {
        for v in 0..=255u8 {
            let expected = (f32::from(v) * factor).max(0.0).min(255.0) as u8;
            assert_eq!(rgb(v, v, v).scale(numerator, denominator), rgb(expected, expected, expected));
        }
    }
}

#[test]
fn scale_by_the_dim_factor_is_dim() {
    for v in 0..=255u8 {
        assert_eq!(rgb(v, 255 - v, 77).scale(66, 100), rgb(v, 255 - v, 77).dim());
    }
}
