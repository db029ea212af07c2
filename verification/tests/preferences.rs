use millo::preferences::{
    ApplicationPreferencesStore, ApplicationPreferencesUpdate, PreferencesError, StoredPreferences,
    SCHEMA_VERSION,
};

#[test]
fn defaults_to_safe_command_mode() {
    assert!(
        ApplicationPreferencesStore::in_memory()
            .preferences()
            .safe_command_mode
    );
}

fn file_store() -> ApplicationPreferencesStore {
    let document = StoredPreferences {
        schema_version: SCHEMA_VERSION,
        preferences: millo::preferences::ApplicationPreferences { safe_command_mode: true },
    };
    ApplicationPreferencesStore::from_document(document).unwrap()
}

#[test]
fn a_failed_write_leaves_the_preferences_unchanged() {
    let mut store = file_store();
    let failure = PreferencesError::Io { path: "prefs.json".to_owned(), message: "disk full".to_owned() };
    let result = store.update(ApplicationPreferencesUpdate { safe_command_mode: false }, Err(failure));
    assert!(matches!(result, Err(PreferencesError::Io { ref path, .. }) if path == "prefs.json"));
    assert!(store.preferences().safe_command_mode);
}

#[test]
fn a_written_update_replaces_the_preferences() {
    let mut store = file_store();
    let result = store.update(ApplicationPreferencesUpdate { safe_command_mode: false }, Ok(()));
    assert!(matches!(result, Ok(preferences) if !preferences.safe_command_mode));
    assert!(!store.preferences().safe_command_mode);
}

#[test]
fn a_store_in_memory_ignores_the_write_outcome() {
    let mut store = ApplicationPreferencesStore::in_memory();
    let failure = PreferencesError::Io { path: "unused".to_owned(), message: "unused".to_owned() };
    let result = store.update(ApplicationPreferencesUpdate { safe_command_mode: false }, Err(failure));
    assert!(result.is_ok());
    assert!(!store.preferences().safe_command_mode);
}
