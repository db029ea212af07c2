use millo::controller::SpindleControl;
use millo::profile::{
    validate_document, validate_name, DetectedController, MachineConnectionPreset,
    MachineLocalSettingsUpdate, MachineProfileDraft, MachineProfileStore, ProfileError,
    StoredProfiles,
};

/// Travel and jog limit in millimetres.
#[derive(Debug, Clone, Copy, PartialEq)]
struct Dimensions {
    x: f64,
    y: f64,
    z: f64,
    max_jog: f64,
}

fn check(d: Dimensions) -> Result<(), ProfileError> {
    for (axis, value) in [("X", d.x), ("Y", d.y), ("Z", d.z)] {
        if !(value.is_finite() && value > 0.0 && value <= 100_000.0) {
            return Err(ProfileError::InvalidTravel(axis));
        }
    }
    let longest = d.x.max(d.y).max(d.z);
    if d.max_jog.is_finite() && d.max_jog >= 0.01 && d.max_jog <= longest {
        Ok(())
    } else {
        Err(ProfileError::InvalidMaxJogDistance)
    }
}

fn draft(name: &str) -> MachineProfileDraft<Dimensions> {
    MachineProfileDraft {
        name: name.to_owned(),
        dimensions: Dimensions { x: 300.0, y: 180.0, z: 80.0, max_jog: 50.0 },
        spindle_control: SpindleControl::Manual,
        homing_installed: false,
        limit_switches_installed: false,
        probe_installed: false,
        emergency_stop_installed: false,
        connection: None,
        detected_controller: None,
    }
}

fn create(store: &mut MachineProfileStore<Dimensions>, draft: MachineProfileDraft<Dimensions>) -> Result<(), ProfileError> {
    let dimensions = check(draft.dimensions);
    store.create_and_select(draft, dimensions)
}

#[test]
fn creates_selects_and_reloads_a_profile() {
    let mut store = MachineProfileStore::in_memory();
    create(&mut store, draft("  Bench router  ")).unwrap();
    let document = store.document();
    assert_eq!(document.selected_profile_id.as_deref(), Some("machine-0001"));
    let selected = store.selected().unwrap();
    assert_eq!(selected.name, "Bench router");
    assert_eq!(selected.hardware_profile().axes.len(), 3);

    let reloaded = StoredProfiles {
        schema_version: document.schema_version,
        next_id: document.next_id,
        profiles: document.profiles.clone(),
        selected_profile_id: document.selected_profile_id.clone(),
    };
    assert_eq!(validate_document(&reloaded, vec![None]), Ok(()));
    let store = MachineProfileStore::with_document(reloaded);
    assert_eq!(store.selected().unwrap().id, "machine-0001");
}

#[test]
fn rejects_missing_dimensions_and_duplicate_names() {
    let mut store = MachineProfileStore::in_memory();
    let mut invalid = draft("Router");
    invalid.dimensions.z = 0.0;
    assert_eq!(create(&mut store, invalid), Err(ProfileError::InvalidTravel("Z")));

    create(&mut store, draft("Router")).unwrap();
    assert_eq!(create(&mut store, draft("router")), Err(ProfileError::DuplicateName("router".to_owned())));
    assert_eq!(create(&mut store, draft("   ")), Err(ProfileError::MissingName));
    assert_eq!(create(&mut store, draft(&"r".repeat(81))), Err(ProfileError::NameTooLong));
    create(&mut store, draft("Second router")).unwrap();
    assert_eq!(store.document().selected_profile_id.as_deref(), Some("machine-0002"));
    assert_eq!(store.document().profiles.len(), 2);
}

#[test]
fn updates_local_facts_without_overwriting_controller_observations() {
    let mut store = MachineProfileStore::in_memory();
    create(&mut store, draft("Router")).unwrap();
    let id = store.document().selected_profile_id.clone().unwrap();
    let dimensions = Dimensions { max_jog: 75.0, ..store.selected().unwrap().dimensions };
    store
        .update_local_settings(
            &id,
            MachineLocalSettingsUpdate {
                name: "Workshop router".to_owned(),
                spindle_control: SpindleControl::Controller,
                homing_installed: false,
                limit_switches_installed: false,
                probe_installed: true,
                emergency_stop_installed: false,
            },
            dimensions,
            check(dimensions),
        )
        .unwrap();

    let profile = store.selected().unwrap();
    assert_eq!(profile.name, "Workshop router");
    assert!(profile.probe_installed);
    assert_eq!(profile.dimensions.x, 300.0);
    assert_eq!(profile.dimensions.max_jog, 75.0);
    assert!(profile.connection.is_none());
}

#[test]
fn accepts_large_machine_jog_limits_and_rejects_limits_beyond_travel() {
    let mut large = Dimensions { x: 2_000.0, y: 3_000.0, z: 250.0, max_jog: 3_000.0 };
    assert_eq!(check(large), Ok(()));
    large.max_jog = 3_000.01;
    assert_eq!(check(large), Err(ProfileError::InvalidMaxJogDistance));
    let mut store = MachineProfileStore::in_memory();
    let mut too_far = draft("Large router");
    too_far.dimensions = large;
    assert_eq!(create(&mut store, too_far), Err(ProfileError::InvalidMaxJogDistance));
}

#[test]
fn rejects_a_corrupt_selected_profile_reference() {
    let document: StoredProfiles<Dimensions> = StoredProfiles {
        schema_version: 1,
        next_id: 2,
        profiles: Vec::new(),
        selected_profile_id: Some("missing".to_owned()),
    };
    assert_eq!(validate_document(&document, Vec::new()), Err(ProfileError::InvalidSelection("missing".to_owned())));
    let future: StoredProfiles<Dimensions> = StoredProfiles { schema_version: 2, ..document };
    assert_eq!(validate_document(&future, Vec::new()), Err(ProfileError::UnsupportedSchema(2)));
}

#[test]
fn names_stay_unique_and_selection_follows_observations() {
    let mut store = MachineProfileStore::in_memory();
    create(&mut store, draft("Router")).unwrap();
    create(&mut store, draft("Laser")).unwrap();
    let laser = store.document().selected_profile_id.clone().unwrap();
    let update = MachineLocalSettingsUpdate {
        name: " ROUTER ".to_owned(),
        spindle_control: SpindleControl::Manual,
        homing_installed: false,
        limit_switches_installed: false,
        probe_installed: false,
        emergency_stop_installed: false,
    };
    let dimensions = store.selected().unwrap().dimensions;
    assert_eq!(
        store.update_local_settings(&laser, update, dimensions, Ok(())),
        Err(ProfileError::DuplicateName("ROUTER".to_owned()))
    );
    assert_eq!(store.select("machine-0009"), Err(ProfileError::UnknownProfile("machine-0009".to_owned())));
    assert_eq!(store.select("machine-0001"), Ok(()));
    store
        .record_controller_observation(
            &laser,
            Dimensions { x: 400.0, y: 400.0, z: 60.0, max_jog: 50.0 },
            Ok(()),
            MachineConnectionPreset { transport_id: "serial:/dev/cu.test".to_owned(), baud_rate: 115_200, fingerprint: None },
            DetectedController { firmware_version: Some("1.1f.20230316".to_owned()), firmware_build_info: None },
        )
        .unwrap();
    let selected = store.selected().unwrap();
    assert_eq!(selected.id, laser);
    assert_eq!(selected.dimensions.x, 400.0);
    assert_eq!(selected.connection.as_ref().unwrap().baud_rate, 115_200);
    assert_eq!(validate_name("  Mill "), Ok(()));
}
