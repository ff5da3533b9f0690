use gravedigger::display::{health_color, is_stale};

#[test]
fn test_is_stale_dead() {
    assert!(is_stale("🪦"));
}

#[test]
fn test_is_stale_inactive() {
    assert!(is_stale("🔴"));
}

#[test]
fn test_is_stale_warning() {
    assert!(is_stale("⚠️"));
}

#[test]
fn test_is_stale_unknown() {
    assert!(is_stale("❓"));
}

#[test]
fn test_is_stale_healthy() {
    assert!(!is_stale("✅"));
}

#[test]
fn test_is_stale_invalid() {
    assert!(!is_stale("🤷"));
}

#[test]
fn test_health_color_healthy() {
    assert_eq!(health_color("✅"), "\x1b[32m");
}

#[test]
fn test_health_color_warning() {
    assert_eq!(health_color("⚠️"), "\x1b[33m");
}

#[test]
fn test_health_color_inactive() {
    assert_eq!(health_color("🔴"), "\x1b[31m");
}

#[test]
fn test_health_color_dead() {
    assert_eq!(health_color("🪦"), "\x1b[31m");
}

#[test]
fn test_health_color_unknown() {
    assert_eq!(health_color("❓"), "\x1b[90m");
}
