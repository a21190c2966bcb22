use enochian_core::catalog;
use enochian_core::constants;
use enochian_core::{initialize, validate_sacred_constraints};

#[test]
fn test_initialization() {
    assert!(initialize().is_ok());
}

#[test]
fn test_sacred_constraints() {
    assert!(validate_sacred_constraints().is_ok());
}

#[test]
fn test_constants() {
    assert_eq!(constants::TRADITION_COUNT, 26);
    assert_eq!(constants::GOVERNOR_COUNT, 91);
    assert_eq!(constants::AETHYR_COUNT, 30);
    assert_eq!(constants::AUTHENTICITY_THRESHOLD_MILLI, 950);
    assert_eq!(constants::ENOCHIAN_WEIGHTING_MILLI, 600);
    assert_eq!(constants::SCORE_SCALE, 1000);
    assert_eq!(constants::MAX_ENERGY, 25);
    assert_eq!(constants::MAX_ORDINALS_SIZE, 1048576);
}

#[test]
fn catalog_counts_match_constants() {
    assert_eq!(catalog::get_tradition_count(), 26);
    assert_eq!(catalog::get_governor_count(), 91);
}

#[test]
fn tradition_weights() {
    assert_eq!(catalog::get_tradition_weight("Enochian"), 600);
    assert_eq!(catalog::get_tradition_weight("Hermetic_Qabalah"), 150);
    assert_eq!(catalog::get_tradition_weight("Thelema"), 80);
    assert_eq!(catalog::get_tradition_weight("Golden_Dawn"), 70);
    assert_eq!(catalog::get_tradition_weight("Chaos_Magic"), 50);
    assert_eq!(catalog::get_tradition_weight("Unknown_Path"), 0);
}
