use regex_image::address::pixel_string;
use regex_image::color::{color_lerp, resolve, to_color, u8_lerp};
use regex_image::config::{parse_size, RenderConfig};
use regex_image::error::ConfigError;
use regex_image::matcher::{MatchResult, PatternMatcher};
use regex_image::render::render;

const WHITE: [u8; 3] = [255, 255, 255];
const GREY: [u8; 3] = [34, 34, 34];
const BLACK: [u8; 3] = [0, 0, 0];

#[test]
fn addresses_on_a_canvas_of_eight() {
    assert_eq!(pixel_string(0, 0, 8), "22");
    assert_eq!(pixel_string(7, 7, 8), "44");
    assert_eq!(pixel_string(4, 0, 8), "12");
    assert_eq!(pixel_string(0, 4, 8), "32");
}

#[test]
fn addresses_follow_the_quadrants() {
    assert_eq!(pixel_string(12, 3, 16), "113");
    assert_eq!(pixel_string(5, 10, 16), "313");
    assert_eq!(pixel_string(15, 15, 16), "444");
}

#[test]
fn address_length_is_log2_minus_one() {
    assert_eq!(pixel_string(0, 0, 2).len(), 0);
    assert_eq!(pixel_string(1, 1, 4).len(), 1);
    assert_eq!(pixel_string(100, 2000, 2048).len(), 10);
    assert_eq!(pixel_string(0, 0, 1), "");
    assert_eq!(pixel_string(0, 0, 0), "");
}

#[test]
fn blocks_of_two_share_an_address_and_others_differ() {
    assert_eq!(pixel_string(0, 0, 8), pixel_string(1, 1, 8));
    let mut seen = Vec::new();
    for y in (0..16u32).step_by(2) {
        for x in (0..16u32).step_by(2) {
            seen.push(pixel_string(x, y, 16));
        }
    }
    let mut sorted = seen.clone();
    sorted.sort();
    sorted.dedup();
    assert_eq!(sorted.len(), seen.len());
}

#[test]
fn resolve_unmatched_gives_off_color() {
    assert_eq!(resolve(MatchResult::Unmatched, WHITE, [1, 2, 3], BLACK), [1, 2, 3]);
}

#[test]
fn resolve_without_proportion_gives_on_color() {
    let mr = MatchResult::Matched { part: 0, whole: 5 };
    assert_eq!(resolve(mr, [9, 8, 7], GREY, WHITE), [9, 8, 7]);
}

#[test]
fn resolve_full_proportion_gives_match_color() {
    let mr = MatchResult::Matched { part: 4, whole: 4 };
    assert_eq!(resolve(mr, BLACK, GREY, [10, 200, 33]), [10, 200, 33]);
}

#[test]
fn lerp_truncates_toward_zero() {
    assert_eq!(u8_lerp(1, 2, 0, 255), 127);
    assert_eq!(u8_lerp(1, 2, 255, 0), 127);
    assert_eq!(u8_lerp(1, 3, 0, 100), 33);
    assert_eq!(u8_lerp(2, 3, 100, 0), 33);
    assert_eq!(u8_lerp(0, 3, 100, 0), 100);
    assert_eq!(color_lerp(1, 3, BLACK, [30, 60, 90]), [10, 20, 30]);
}

#[test]
fn colors_with_and_without_hash() {
    assert_eq!(to_color("#f0f0f0"), Ok([240, 240, 240]));
    assert_eq!(to_color("99cc33"), Ok([0x99, 0xcc, 0x33]));
    assert_eq!(to_color("#FfA010"), Ok([255, 160, 16]));
}

#[test]
fn malformed_colors_are_refused() {
    for text in ["", "#12345", "1234567", "#1234567", "zzzzzz", "#ff ff0", "ff\tff0", "f f ff", "12#456"] {
        assert_eq!(to_color(text), Err(ConfigError::ColorFormatError), "{}", text);
    }
}

#[test]
fn sizes_in_decimal() {
    assert_eq!(parse_size("2048"), Ok(2048));
    assert_eq!(parse_size("007"), Ok(7));
    assert_eq!(parse_size("4294967295"), Ok(4294967295));
    for text in ["", "abc", "12a", "-4", "4294967296", "99999999999"] {
        assert_eq!(parse_size(text), Err(ConfigError::InvalidSizeError), "{}", text);
    }
}

#[test]
fn evaluate_measures_the_first_group() {
    let m = PatternMatcher::new("(2+)").ok().unwrap();
    assert_eq!(m.evaluate("122"), MatchResult::Matched { part: 2, whole: 3 });
    assert_eq!(m.evaluate("1"), MatchResult::Unmatched);
    let plain = PatternMatcher::new("1").ok().unwrap();
    assert_eq!(plain.evaluate("4321"), MatchResult::Matched { part: 0, whole: 4 });
    let unused = PatternMatcher::new("3|(4)").ok().unwrap();
    assert_eq!(unused.evaluate("13"), MatchResult::Matched { part: 0, whole: 2 });
    let empty = PatternMatcher::new("()").ok().unwrap();
    assert_eq!(empty.evaluate(""), MatchResult::Matched { part: 0, whole: 1 });
}

#[test]
fn invalid_pattern_fails_construction() {
    assert_eq!(PatternMatcher::new("foo(bar").err(), Some(ConfigError::PatternError));
    let r = RenderConfig::new("(22", 8, WHITE, GREY, WHITE);
    assert_eq!(r.err(), Some(ConfigError::PatternError));
}

#[test]
fn bad_sizes_fail_construction() {
    let r = RenderConfig::new("2", 0, WHITE, GREY, WHITE);
    assert_eq!(r.err(), Some(ConfigError::InvalidSizeError));
    let r = RenderConfig::new("(", 0, WHITE, GREY, WHITE);
    assert_eq!(r.err(), Some(ConfigError::InvalidSizeError));
}

#[test]
fn options_take_defaults() {
    let c = RenderConfig::from_options("2", None, None, None, None).ok().unwrap();
    assert_eq!(c.size(), 2048);
    assert_eq!(c.on_color(), WHITE);
    assert_eq!(c.off_color(), GREY);
    assert_eq!(c.match_color(), WHITE);
}

#[test]
fn options_are_read() {
    let c = RenderConfig::from_options("2", Some("16"), Some("#010203"), Some("040506"), Some("#0a0B0c"))
        .ok()
        .unwrap();
    assert_eq!(c.size(), 16);
    assert_eq!(c.on_color(), [1, 2, 3]);
    assert_eq!(c.off_color(), [4, 5, 6]);
    assert_eq!(c.match_color(), [10, 11, 12]);
}

#[test]
fn options_report_the_first_error() {
    let r = RenderConfig::from_options("(", Some("x"), Some("bad"), None, None);
    assert_eq!(r.err(), Some(ConfigError::InvalidSizeError));
    let r = RenderConfig::from_options("(", Some("0"), None, None, None);
    assert_eq!(r.err(), Some(ConfigError::InvalidSizeError));
    let r = RenderConfig::from_options("(", Some("8"), None, Some("#12"), None);
    assert_eq!(r.err(), Some(ConfigError::ColorFormatError));
    let r = RenderConfig::from_options("(", Some("8"), None, None, None);
    assert_eq!(r.err(), Some(ConfigError::PatternError));
}

#[test]
fn end_to_end_anchored_pattern() {
    let c = RenderConfig::from_options("^22$", Some("8"), Some("#ffffff"), Some("#222222"), Some("#ffffff"))
        .ok()
        .unwrap();
    let g = render(&c);
    assert_eq!(g.size(), 8);
    for y in 0..8u32 {
        for x in 0..8u32 {
            let expected = if x < 2 && y < 2 { WHITE } else { GREY };
            assert_eq!(g.pixel(x, y), expected, "pixel ({}, {})", x, y);
        }
    }
    assert_eq!(g.into_pixels().len(), 64);
}

#[test]
fn render_blends_by_the_group_share() {
    let c = RenderConfig::new("^(2)", 8, BLACK, GREY, WHITE).ok().unwrap();
    let g = render(&c);
    assert_eq!(g.pixel(0, 0), [127, 127, 127]);
    assert_eq!(g.pixel(4, 0), GREY);
    let c = RenderConfig::new("^(22)$", 8, BLACK, GREY, [200, 100, 50]).ok().unwrap();
    let g = render(&c);
    assert_eq!(g.pixel(1, 1), [200, 100, 50]);
    assert_eq!(g.pixel(2, 1), GREY);
}

#[test]
fn renders_are_deterministic() {
    let a = render(&RenderConfig::new("1(2|3)", 16, BLACK, GREY, WHITE).ok().unwrap());
    let b = render(&RenderConfig::new("1(2|3)", 16, BLACK, GREY, WHITE).ok().unwrap());
    assert_eq!(a.into_pixels(), b.into_pixels());
}
