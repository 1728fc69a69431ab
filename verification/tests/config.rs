use rootcause::config::{AiConfig, CollectionConfig};

#[test]
fn valores_por_defecto_son_razonables() {
    let collection = CollectionConfig::default();
    assert_eq!(collection.refresh_interval_secs, 5);
    let ai = AiConfig::default();
    assert!(!ai.enabled);
}
