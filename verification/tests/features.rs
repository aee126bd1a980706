//! The output-feature builder.

use osm_resolver::features::Feature;

#[test]
fn test_point() {
    assert!(true)
}

#[test]
fn feature_defaults() {
    let f = Feature::new(42);
    assert_eq!(f.source_id, 42);
    assert_eq!(f.min_zoom, 10);
    assert_eq!(f.max_zoom, 12);
    assert!(f.get_attrs_at_zoom(11).is_empty());
}
