use orbit::config::{effective_config, is_dwindle, Config, LayoutConfig};

#[test]
fn default_config() {
    let c = Config::default();
    assert_eq!(c.layout.gap_size, 12);
    assert_eq!(c.layout.layout_type.as_deref(), Some("dwindle"));
}

#[test]
fn effective_config_prefers_loaded() {
    let loaded = Config { layout: LayoutConfig { gap_size: 4, layout_type: None } };
    let c = effective_config(&Some(loaded));
    assert_eq!(c.layout.gap_size, 4);
    assert_eq!(c.layout.layout_type, None);
    let d = effective_config(&None);
    assert_eq!(d.layout.gap_size, 12);
    assert_eq!(d.layout.layout_type.as_deref(), Some("dwindle"));
}

#[test]
fn layout_names() {
    assert!(is_dwindle(&Some("dwindle".to_string())));
    assert!(!is_dwindle(&Some("master".to_string())));
    assert!(!is_dwindle(&Some("Dwindle".to_string())));
    assert!(!is_dwindle(&None));
}
