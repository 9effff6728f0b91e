use rudu::paint::{band_hue, colorize_by_size, paint_band, size_band, Band, Hue};

#[test]
fn size_bands_follow_magnitude() {
    assert_eq!(size_band(0), Band::Tiny);
    assert_eq!(size_band(1), Band::Small);
    assert_eq!(size_band(2), Band::Medium);
    assert_eq!(size_band(3), Band::Large);
    assert_eq!(size_band(4), Band::Huge);
    assert_eq!(size_band(9), Band::Huge);
}

#[test]
fn band_hues() {
    assert_eq!(band_hue(Band::Tiny), Hue::White);
    assert_eq!(band_hue(Band::Small), Hue::Green);
    assert_eq!(band_hue(Band::Medium), Hue::Blue);
    assert_eq!(band_hue(Band::Large), Hue::Yellow);
    assert_eq!(band_hue(Band::Huge), Hue::Red);
}

#[test]
fn paint_wraps_text_in_escape_codes() {
    assert_eq!(paint_band("abc", Band::Huge), "\x1b[31mabc\x1b[39m");
    assert_eq!(paint_band("", Band::Tiny), "\x1b[37m\x1b[39m");
}

#[test]
fn colorize_by_size_per_band() {
    assert_eq!(colorize_by_size(0), "\x1b[37m0.00 B\x1b[39m");
    assert_eq!(colorize_by_size(2048), "\x1b[32m2.00 KB\x1b[39m");
    assert_eq!(colorize_by_size(3 * 1024 * 1024), "\x1b[34m3.00 MB\x1b[39m");
    assert_eq!(colorize_by_size(1024u64.pow(3)), "\x1b[33m1.00 GB\x1b[39m");
    assert_eq!(colorize_by_size(1024u64.pow(4)), "\x1b[31m1.00 TB\x1b[39m");
}
