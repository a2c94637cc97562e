use pet_core::config::{
    is_legacy, migrate_from_legacy, AiProvider, AppConfig, AppearanceSettings, GeneralSettings,
    LegacyAppConfig, StoredConfig,
};
use pet_core::models::{Pet, WindowPosition};
use pet_core::paths::AppPaths;
use pet_core::storage::StorageService;

fn flat(auto_start: bool, scale: f32, key: &str, x: i32, y: i32) -> LegacyAppConfig {
    LegacyAppConfig {
        pets: Vec::new(),
        active_pet: None,
        pet_position: WindowPosition::new(x, y),
        pet_scale: scale.to_bits(),
        auto_start,
        meshy_api_key: Some(key.to_string()),
    }
}

fn pet(id: u128, name: &str) -> Pet {
    Pet::with_id(id, name.to_string(), String::new(), format!("/models/{name}.glb"), 1_700_000_000_000)
}

#[test]
fn migrate_legacy_config() {
    let legacy = flat(true, 1.5, "test-key", 100, 200);
    let migrated = migrate_from_legacy(legacy);
    assert!(migrated.general.auto_start);
    assert_eq!(f32::from_bits(migrated.appearance.pet_scale), 1.5);
    assert_eq!(migrated.appearance.pet_position.x, 100);
    assert_eq!(migrated.appearance.pet_position.y, 200);
    assert_eq!(migrated.meshy.api_key, Some("test-key".to_string()));
}

#[test]
fn migration_fills_in_the_defaults() {
    let migrated = migrate_from_legacy(flat(false, 2.0, "k", 0, 0));
    assert_eq!(migrated.general.language, "en");
    assert!(migrated.appearance.always_on_top);
    assert_eq!(f32::from_bits(migrated.appearance.opacity), 1.0);
    assert!(!migrated.ai.enabled);
    assert_eq!(migrated.ai.provider, AiProvider::OpenAi);
    assert_eq!(migrated.ai.model, "gpt-4o-mini");
    assert_eq!(f32::from_bits(migrated.ai.temperature), 0.7);
    assert_eq!(migrated.ai.personality.name, "Pet");
    assert!(migrated.ai.personality.traits.is_empty());
    assert!(migrated.pets.is_empty());
    assert_eq!(migrated.active_pet, None);
}

#[test]
fn load_legacy_file_migrates() {
    let (config, write_back) =
        AppConfig::load(StoredConfig::Legacy(flat(true, 1.5, "key123", 50, 75)));
    assert!(write_back);
    assert!(config.general.auto_start);
    assert_eq!(f32::from_bits(config.appearance.pet_scale), 1.5);
    assert_eq!(config.meshy.api_key, Some("key123".to_string()));

    let (reloaded, again) = AppConfig::load(StoredConfig::Current(config));
    assert!(!again);
    assert!(reloaded.general.auto_start);
    assert_eq!(f32::from_bits(reloaded.appearance.pet_scale), 1.5);
}

#[test]
fn load_new_format_file() {
    let mut stored = AppConfig::default();
    stored.general = GeneralSettings { auto_start: false, language: "zh".to_string() };
    stored.appearance = AppearanceSettings {
        pet_scale: 2.0f32.to_bits(),
        pet_position: WindowPosition::new(0, 0),
        always_on_top: true,
        opacity: 0.9f32.to_bits(),
    };
    let (config, write_back) = AppConfig::load(StoredConfig::Current(stored));
    assert!(!write_back);
    assert!(!config.general.auto_start);
    assert_eq!(config.general.language, "zh");
    assert_eq!(f32::from_bits(config.appearance.pet_scale), 2.0);
}

#[test]
fn load_missing_file_returns_default() {
    let (config, write_back) = AppConfig::load(StoredConfig::Missing);
    assert!(!write_back);
    assert_eq!(f32::from_bits(config.appearance.pet_scale), 1.0);
    assert_eq!(config.general.language, "en");
}

#[test]
fn flat_files_are_told_by_their_top_level_names() {
    let names = |v: &[&str]| v.iter().map(|s| s.to_string()).collect::<Vec<String>>();
    assert!(is_legacy(&names(&["pet_scale"])));
    assert!(is_legacy(&names(&["pets", "auto_start"])));
    assert!(is_legacy(&names(&["meshy_api_key", "pets"])));
    assert!(!is_legacy(&names(&["general", "appearance", "ai", "meshy", "pets"])));
    assert!(!is_legacy(&names(&[])));
    assert!(!is_legacy(&names(&["pet_scales", "Auto_start"])));
}

#[test]
fn pets_are_added_at_the_end_and_found_by_identifier() {
    let mut config = AppConfig::default();
    config.add_pet(pet(1, "a"));
    config.add_pet(pet(2, "b"));
    config.add_pet(pet(1, "c"));
    assert_eq!(config.pets.len(), 3);
    assert_eq!(config.get_pet(1).map(|p| p.name.as_str()), Some("a"));
    assert_eq!(config.get_pet(2).map(|p| p.name.as_str()), Some("b"));
    assert!(config.get_pet(3).is_none());
}

#[test]
fn only_a_known_pet_becomes_active() {
    let mut config = AppConfig::default();
    config.add_pet(pet(1, "a"));
    config.set_active_pet(7);
    assert_eq!(config.active_pet, None);
    assert!(config.get_active_pet().is_none());
    config.set_active_pet(1);
    assert_eq!(config.active_pet, Some(1));
    assert_eq!(config.get_active_pet().map(|p| p.name.as_str()), Some("a"));
    config.set_active_pet(7);
    assert_eq!(config.active_pet, Some(1));
}

#[test]
fn removing_the_active_pet_activates_the_first_left() {
    let mut config = AppConfig::default();
    config.add_pet(pet(1, "a"));
    config.add_pet(pet(2, "b"));
    config.add_pet(pet(3, "c"));
    config.set_active_pet(1);
    config.remove_pet(1);
    let left: Vec<u128> = config.pets.iter().map(|p| p.id).collect();
    assert_eq!(left, vec![2, 3]);
    assert_eq!(config.active_pet, Some(2));

    config.remove_pet(3);
    assert_eq!(config.active_pet, Some(2));
    assert_eq!(config.pets.len(), 1);

    config.remove_pet(2);
    assert!(config.pets.is_empty());
    assert_eq!(config.active_pet, None);
}

#[test]
fn removing_takes_every_pet_with_the_identifier() {
    let mut config = AppConfig::default();
    config.add_pet(pet(5, "a"));
    config.add_pet(pet(6, "b"));
    config.add_pet(pet(5, "c"));
    config.add_pet(pet(5, "d"));
    config.remove_pet(5);
    let left: Vec<&str> = config.pets.iter().map(|p| p.name.as_str()).collect();
    assert_eq!(left, vec!["b"]);
    config.remove_pet(9);
    assert_eq!(config.pets.len(), 1);
}

#[test]
fn new_pets_get_identifiers_of_their_own() {
    let a = Pet::new("a".to_string(), "first".to_string(), "/m/a.glb".to_string());
    let b = Pet::new("b".to_string(), "second".to_string(), "/m/b.glb".to_string());
    assert_eq!(a.name, "a");
    assert_eq!(a.description, "first");
    assert_eq!(a.model_path, "/m/a.glb");
    assert_ne!(a.id, b.id);
    assert_eq!(a.id & 0xf000_c000_0000_0000_0000, 0x4000_8000_0000_0000_0000);
    let paths = AppPaths::with_dirs("/cfg".to_string(), "/data".to_string());
    let file = paths.model_path(b.id);
    assert_eq!(file.chars().nth("/data/models/".len() + 14), Some('4'));
    assert!("89ab".contains(file.chars().nth("/data/models/".len() + 19).unwrap()));
    assert!(a.created_at > 1_600_000_000_000);
    assert!(b.created_at >= a.created_at);
}

#[test]
fn model_files_are_named_by_the_hyphenated_identifier() {
    let paths = AppPaths::with_dirs("/cfg".to_string(), "/data".to_string());
    let id: u128 = 0xa1a2a3a4_b1b2_c1c2_d1d2_d3d4d5d6d7d8;
    assert_eq!(paths.model_path(id), "/data/models/a1a2a3a4-b1b2-c1c2-d1d2-d3d4d5d6d7d8.glb");
    assert_eq!(paths.thumbnail_path(id), "/data/models/a1a2a3a4-b1b2-c1c2-d1d2-d3d4d5d6d7d8.png");
    assert_eq!(paths.model_path(0), "/data/models/00000000-0000-0000-0000-000000000000.glb");
    assert_eq!(paths.model_path(u128::MAX), "/data/models/ffffffff-ffff-ffff-ffff-ffffffffffff.glb");
    assert_eq!(paths.model_path(0x1f), "/data/models/00000000-0000-0000-0000-00000000001f.glb");
}

#[test]
fn a_pet_is_removed_with_its_model_and_thumbnail() {
    let storage = StorageService::new(AppPaths::with_dirs("/cfg".to_string(), "/data".to_string()));
    let files = storage.delete_pet_data(&pet(0x0123456789abcdef_0123456789abcdef, "a"));
    assert_eq!(
        files,
        vec![
            "/data/models/01234567-89ab-cdef-0123-456789abcdef.glb".to_string(),
            "/data/models/01234567-89ab-cdef-0123-456789abcdef.png".to_string(),
        ]
    );
}
