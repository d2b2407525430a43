use panopticon::color::{
    clamp_rgb, hex_byte, hex_nibble, hex_to_rgb, optional_theme_override, parse_rgb_hex,
    rgb_components_from_hex,
};
use panopticon::distribution::{channel, channel_is_store, updates_managed_by_store, DEFAULT_CHANNEL};
use panopticon::settings_model::{
    background_fit_to_index, index_to_background_fit, index_to_dock_edge, index_to_layout,
    index_to_refresh, layout_to_index, optional_dimension_with_min, refresh_to_index,
    BackgroundImageFit, LayoutType,
};
use panopticon::startup::{quote_argument, startup_command_for_path};
use panopticon::tags::parse_tags_csv;

#[test]
fn direct_is_the_safe_default() {
    assert_eq!(DEFAULT_CHANNEL, "direct");
    assert!(!channel_is_store(DEFAULT_CHANNEL));
}

#[test]
fn store_aliases_disable_the_direct_update_channel() {
    assert!(channel_is_store("store"));
    assert!(channel_is_store("STORE"));
    assert!(channel_is_store("Microsoft-Store"));
}

#[test]
fn unrelated_channels_do_not_disable_direct_updates() {
    assert!(!channel_is_store("portable"));
    assert!(!channel_is_store("github"));
    assert!(!channel_is_store(""));
}

#[test]
fn configured_channel_overrides_the_default() {
    assert_eq!(channel(None), "direct");
    assert_eq!(channel(Some("store")), "store");
    assert!(updates_managed_by_store(Some("microsoft-store")));
    assert!(!updates_managed_by_store(None));
}

#[test]
fn parse_tags_csv_normalizes_sorts_and_deduplicates() {
    assert_eq!(
        parse_tags_csv(" Work ,alpha,work, Beta ,,ALPHA "),
        vec!["alpha".to_owned(), "beta".to_owned(), "work".to_owned()]
    );
}

#[test]
fn parse_tags_csv_of_blank_text_is_empty() {
    assert!(parse_tags_csv("").is_empty());
    assert!(parse_tags_csv(" , ,").is_empty());
}

#[test]
fn parse_rgb_hex_accepts_plain_and_prefixed_values() {
    assert_eq!(parse_rgb_hex("#112233"), Some((17, 34, 51)));
    assert_eq!(parse_rgb_hex("A0B1C2"), Some((160, 177, 194)));
}

#[test]
fn parse_rgb_hex_rejects_invalid_shapes() {
    assert_eq!(parse_rgb_hex("#123"), None);
    assert_eq!(parse_rgb_hex("#GG1122"), None);
}

#[test]
fn parse_rgb_hex_trims_and_strips_every_leading_hash() {
    assert_eq!(parse_rgb_hex("  ##ffffff "), Some((255, 255, 255)));
}

#[test]
fn rgb_components_from_hex_parses_valid_hex() {
    let (r, g, b) = rgb_components_from_hex("#AABBCC");
    assert_eq!(r, 0xAA);
    assert_eq!(g, 0xBB);
    assert_eq!(b, 0xCC);
}

#[test]
fn rgb_components_from_hex_defaults_on_short_input() {
    let (r, g, b) = rgb_components_from_hex("#12");
    assert_eq!(r, 0x12);
    assert_eq!(g, 0x15);
    assert_eq!(b, 0x13);
}

#[test]
fn rgb_components_from_hex_defaults_each_invalid_pair() {
    assert_eq!(rgb_components_from_hex("zz3344"), (0x18, 0x33, 0x44));
}

#[test]
fn hex_to_rgb_falls_back_to_the_accent() {
    assert_eq!(hex_to_rgb("102030"), (0x10, 0x20, 0x30));
    assert_eq!(hex_to_rgb("ab"), (0xAB, 0x9A, 0x5C));
    assert_eq!(hex_to_rgb("zz"), (0x00, 0x9A, 0x5C));
}

#[test]
fn hex_digits_decode() {
    assert_eq!(hex_nibble(b'a'), 10);
    assert_eq!(hex_nibble(b'F'), 15);
    assert_eq!(hex_nibble(b'7'), 7);
    assert_eq!(hex_byte(b'c', b'8'), 0xC8);
}

#[test]
fn clamp_rgb_limits_to_a_byte() {
    assert_eq!(clamp_rgb(-5), 0);
    assert_eq!(clamp_rgb(300), 255);
    assert_eq!(clamp_rgb(128), 128);
}

#[test]
fn theme_overrides_accept_only_six_hex_digits() {
    assert_eq!(optional_theme_override(" #a1B2c3 "), Some("A1B2C3".to_owned()));
    assert_eq!(optional_theme_override("not-a-colour"), None);
    assert_eq!(optional_theme_override("#12345"), None);
}

#[test]
fn ui_background_fit_indices_roundtrip_all_supported_modes() {
    let cases = [
        (BackgroundImageFit::Cover, 0),
        (BackgroundImageFit::Contain, 1),
        (BackgroundImageFit::Fill, 2),
        (BackgroundImageFit::Preserve, 3),
    ];

    for (fit, index) in cases {
        assert_eq!(background_fit_to_index(fit), index);
        assert_eq!(index_to_background_fit(index), fit);
    }
}

#[test]
fn ui_unknown_background_fit_index_falls_back_to_cover() {
    assert_eq!(index_to_background_fit(-1), BackgroundImageFit::Cover);
    assert_eq!(index_to_background_fit(99), BackgroundImageFit::Cover);
}

#[test]
fn settings_ui_background_fit_indices_roundtrip_all_supported_modes() {
    let cases = [
        (BackgroundImageFit::Cover, 0),
        (BackgroundImageFit::Contain, 1),
        (BackgroundImageFit::Fill, 2),
        (BackgroundImageFit::Preserve, 3),
    ];

    for (fit, index) in cases {
        assert_eq!(background_fit_to_index(fit), index);
        assert_eq!(index_to_background_fit(index), fit);
    }
}

#[test]
fn settings_ui_unknown_background_fit_index_falls_back_to_cover() {
    assert_eq!(index_to_background_fit(-1), BackgroundImageFit::Cover);
    assert_eq!(index_to_background_fit(99), BackgroundImageFit::Cover);
}

#[test]
fn layout_indices_roundtrip() {
    for index in 0..7 {
        assert_eq!(layout_to_index(index_to_layout(index)), index);
    }
    assert_eq!(index_to_layout(42), LayoutType::Grid);
}

#[test]
fn dock_edge_index_zero_means_floating() {
    assert_eq!(index_to_dock_edge(0), None);
    assert!(index_to_dock_edge(1).is_some());
}

#[test]
fn refresh_interval_indices_roundtrip() {
    for index in 0..4 {
        assert_eq!(refresh_to_index(index_to_refresh(index)), index);
    }
}

#[test]
fn optional_dimension_applies_the_minimum() {
    assert_eq!(optional_dimension_with_min(0, 320), None);
    assert_eq!(optional_dimension_with_min(-4, 320), None);
    assert_eq!(optional_dimension_with_min(100, 320), Some(320));
    assert_eq!(optional_dimension_with_min(900, 320), Some(900));
}

#[test]
fn startup_command_quotes_executable_and_omits_default_workspace() {
    let command = startup_command_for_path(r"C:\Apps\Panopticon\panopticon.exe", None);

    assert_eq!(command, r#""C:\Apps\Panopticon\panopticon.exe""#);
}

#[test]
fn startup_command_includes_workspace_argument_when_present() {
    let command =
        startup_command_for_path(r"C:\Apps\Panopticon\panopticon.exe", Some("focus board"));

    assert_eq!(
        command,
        r#""C:\Apps\Panopticon\panopticon.exe" --workspace "focus board""#
    );
}

#[test]
fn startup_command_omits_blank_workspace() {
    assert_eq!(startup_command_for_path("a.exe", Some("   ")), "\"a.exe\"");
    assert_eq!(quote_argument("x y"), "\"x y\"");
}
