use mibar::asset_loader::{AssetDataSource, AssetId, AssetSource};
use mibar::image_cache::ImageCache;

#[test]
fn images_are_counted_and_dropped() {
    let mut cache: ImageCache<&str> = ImageCache::new();
    let id = AssetId(7);
    assert!(!cache.increase_ref_count(id));
    assert_eq!(cache.get(id), None);
    cache.allocate(id, "image");
    assert_eq!(cache.get(id), Some(&"image"));
    assert!(cache.increase_ref_count(id));
    cache.decrease_ref_count(id);
    assert_eq!(cache.get(id), Some(&"image"));
    cache.decrease_ref_count(id);
    assert_eq!(cache.get(id), None);
    assert!(!cache.increase_ref_count(id));
    cache.decrease_ref_count(AssetId(8));
}

#[test]
fn equal_sources_get_equal_ids() {
    let a = AssetSource::Image(AssetDataSource::StaticBytes(b"abc"));
    let b = AssetSource::Image(AssetDataSource::StaticBytes(b"abc"));
    let c = AssetSource::Image(AssetDataSource::Bytes(vec![1, 2]));
    assert_eq!(AssetId::new(&a), AssetId::new(&b));
    assert_ne!(AssetId::new(&a), AssetId::new(&c));
    assert!(matches!(a.data_source(), AssetDataSource::StaticBytes(_)));
}
