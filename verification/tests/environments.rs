use kestrel_engine::environment::{
    environment_key_from_path, is_supported_environment_file, EnvironmentError,
    EnvironmentRegistry, GpuStep, RetainStep,
};

#[test]
fn environment_key_sanitizes_names() {
    let path = "Bright Sky 01.hdr";
    let key = environment_key_from_path(path).expect("key");
    assert_eq!(key, "environment::bright_sky_01");
}

#[test]
fn load_directory_registers_png_files() {
    let path = "some/dir/Studio.png";
    let mut registry: EnvironmentRegistry<u32, u32> = EnvironmentRegistry::new(0);
    let mut added = Vec::new();
    if let Some(key) = registry.admit_file(path) {
        registry.insert_loaded(&key, path, 7, false);
        added.push(key);
    }
    assert_eq!(added, vec!["environment::studio".to_string()]);
    assert!(registry.definition("environment::studio").is_some());
}

#[test]
fn release_drops_cached_maps() {
    let mut registry: EnvironmentRegistry<u32, u32> = EnvironmentRegistry::new(0);
    let key = "environment::temp";
    match registry.retain(key, Some("test_env.png")) {
        RetainStep::Load { path } => registry.insert_loaded(key, &path, 9, true),
        _ => panic!("it has to be loaded"),
    }
    {
        let entry = registry.environments.get(key).expect("entry");
        assert_eq!(entry.ref_count, 1);
        assert!(entry.maps.is_some(), "maps should be cached after retain");
    }
    assert!(registry.release(key));
    {
        let entry = registry.environments.get(key).expect("entry");
        assert_eq!(entry.ref_count, 0);
        assert!(entry.maps.is_none(), "maps should be dropped when refcount reaches zero");
        assert!(entry.gpu.is_none(), "gpu resources cleared when refcount reaches zero");
    }
}

#[test]
fn files_are_known_by_their_extension() {
    assert!(is_supported_environment_file("a/b.HDR"));
    assert!(is_supported_environment_file("b.png"));
    assert!(!is_supported_environment_file("b.txt"));
    assert!(!is_supported_environment_file("hdr"));
    let registry: EnvironmentRegistry<u32, u32> = EnvironmentRegistry::new(0);
    assert!(registry.admit_file("notes.txt").is_none());
}

#[test]
fn paths_without_a_name_have_no_key() {
    assert!(environment_key_from_path("").is_none());
    assert!(environment_key_from_path("..").is_none());
    assert_eq!(environment_key_from_path("x/Ab-9.hdr").unwrap(), "environment::ab_9");
}

#[test]
fn the_default_environment_is_there_for_good() {
    let mut registry: EnvironmentRegistry<u32, u32> = EnvironmentRegistry::new(3);
    assert_eq!(registry.default_key(), "environment::default");
    assert_eq!(registry.ref_count("environment::default"), Some(1));
    registry.release("environment::default");
    assert!(registry.definition("environment::default").is_some());
    assert_eq!(registry.maps("environment::default"), Some(&3));
}

#[test]
fn retaining_without_a_source_is_refused() {
    let mut registry: EnvironmentRegistry<u32, u32> = EnvironmentRegistry::new(0);
    assert!(matches!(registry.retain("environment::none", None), RetainStep::NoSource));
    assert!(!registry.release("environment::none"));
    assert!(matches!(registry.gpu_step("environment::none"), GpuStep::NotRetained));
    assert!(matches!(registry.gpu_step("environment::default"), GpuStep::Upload));
    let key = || "k".to_string();
    assert_eq!(
        EnvironmentError::NotLoaded { key: key() }.message(),
        "Environment 'k' not loaded and no source provided."
    );
    assert_eq!(EnvironmentError::NotRetained { key: key() }.message(), "Environment 'k' not retained");
    assert_eq!(
        EnvironmentError::NoSource { key: key() }.message(),
        "Environment 'k' has no recorded source; cannot rebuild"
    );
}

#[test]
fn retain_and_release_leave_the_count() {
    let mut registry: EnvironmentRegistry<u32, u32> = EnvironmentRegistry::new(0);
    registry.insert_loaded("environment::a", "a.hdr", 1, true);
    let before = registry.ref_count("environment::a");
    assert!(matches!(registry.retain("environment::a", None), RetainStep::Retained));
    assert_eq!(registry.ref_count("environment::a"), Some(2));
    registry.release("environment::a");
    assert_eq!(registry.ref_count("environment::a"), before);
}
