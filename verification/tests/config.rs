use zenavif_parse::DecodeConfig;

#[test]
fn decode_config_default_has_sane_limits() {
    let config = zenavif_parse::DecodeConfig::default();
    assert_eq!(config.peak_memory_limit, Some(1_000_000_000));
    assert_eq!(config.total_megapixels_limit, Some(512));
    assert_eq!(config.max_animation_frames, Some(10_000));
    assert_eq!(config.max_grid_tiles, Some(1_000));
    assert!(!config.lenient);
}

#[test]
fn decode_config_unlimited() {
    let config = zenavif_parse::DecodeConfig::unlimited();
    assert_eq!(config.peak_memory_limit, None);
    assert_eq!(config.total_megapixels_limit, None);
    assert_eq!(config.max_animation_frames, None);
    assert_eq!(config.max_grid_tiles, None);
    assert!(!config.lenient);
}

#[test]
fn decode_config_builder_methods() {
    let config = zenavif_parse::DecodeConfig::default()
        .with_peak_memory_limit(42)
        .with_total_megapixels_limit(7)
        .with_max_animation_frames(3)
        .with_max_grid_tiles(5)
        .lenient(true);

    assert_eq!(config.peak_memory_limit, Some(42));
    assert_eq!(config.total_megapixels_limit, Some(7));
    assert_eq!(config.max_animation_frames, Some(3));
    assert_eq!(config.max_grid_tiles, Some(5));
    assert!(config.lenient);
}

#[test]
fn decode_config_lenient_can_be_switched_off_again() {
    let config = DecodeConfig::unlimited().lenient(true).lenient(false);
    assert!(!config.lenient);
}
