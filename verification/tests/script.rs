use millo::script::{
    check_installed, valid_local_id, valid_plugin_id, valid_semver, validate_package_outline,
    validate_text, InstalledPluginRecord, ScriptCapability, ScriptCapabilityDeclaration,
    ScriptCommandOutline, ScriptCommandSurface, ScriptFieldOutline, ScriptPackageOutline,
    ScriptPluginError, ScriptPluginManifest, ScriptPluginStore,
};
use millo::digest::{hex_lower, package_digest};
use millo::script::{action_capability, validate_notice, validate_program_action, ScriptActionKind};
use millo::engine::{compile_script, compile_verdict, validate_package};

fn manifest(id: &str) -> ScriptPluginManifest {
    ScriptPluginManifest {
        manifest_version: 1,
        api_version: 1,
        id: id.to_owned(),
        name: "Operator macros".to_owned(),
        version: "1.0.0".to_owned(),
        description: "Small helpers".to_owned(),
        capabilities: ScriptCapabilityDeclaration {
            required: vec![ScriptCapability::UiContribute, ScriptCapability::MachineRead],
            optional: vec![ScriptCapability::MachineJog],
        },
    }
}

fn command(id: &str) -> ScriptCommandOutline {
    ScriptCommandOutline {
        id: id.to_owned(),
        title: "Raise Z".to_owned(),
        description: "Moves up".to_owned(),
        icon: "arrow-up".to_owned(),
        surface: ScriptCommandSurface::MachinePanel,
        fields: vec![ScriptFieldOutline {
            id: "distanceMm".to_owned(),
            label: "Distance".to_owned(),
            unit: Some("mm".to_owned()),
            numeric_error: None,
        }],
        required_capabilities: vec![ScriptCapability::MachineJog],
        unavailable_reason: None,
    }
}

fn package() -> ScriptPackageOutline {
    ScriptPackageOutline {
        package_version: 1,
        manifest: manifest("millo.operator-macros"),
        commands: vec![command("raise-z")],
        source: "fn run(command, input, machine) { () }".to_owned(),
    }
}

fn record(id: &str, digest: &str) -> InstalledPluginRecord {
    InstalledPluginRecord {
        id: id.to_owned(),
        digest: digest.to_owned(),
        required: vec![ScriptCapability::UiContribute],
        optional: vec![ScriptCapability::MachineJog],
        enabled: false,
        bundled: false,
        granted: Vec::new(),
    }
}

fn invalid(message: &str) -> ScriptPluginError {
    ScriptPluginError::InvalidPackage(message.to_owned())
}

#[test]
fn identifiers_follow_the_package_rules() {
    assert!(valid_plugin_id("millo.operator-macros"));
    assert!(valid_plugin_id("community.example"));
    assert!(!valid_plugin_id("no-dot"));
    assert!(!valid_plugin_id("Upper.case"));
    assert!(!valid_plugin_id(".leading"));
    assert!(!valid_plugin_id("double..dot"));
    assert!(!valid_plugin_id("trailing."));
    assert!(valid_local_id("raise-z"));
    assert!(valid_local_id("distanceMm"));
    assert!(!valid_local_id("Raise"));
    assert!(!valid_local_id("with space"));
    assert!(valid_semver("1.0.0"));
    assert!(valid_semver("10.2.3-beta.1"));
    assert!(!valid_semver("1.0"));
    assert!(!valid_semver("1.0.x"));
    assert!(!valid_semver("1..0"));
}

#[test]
fn texts_must_be_trimmed_non_empty_and_bounded() {
    assert_eq!(validate_text("plugin name", "Macros", 100), Ok(()));
    assert_eq!(
        validate_text("plugin name", " Macros", 100),
        Err(invalid("plugin name must be a non-empty trimmed string up to 100 bytes"))
    );
    assert!(validate_text("field unit", "", 24).is_err());
    assert!(validate_text("field unit", &"m".repeat(25), 24).is_err());
}

#[test]
fn a_well_formed_package_passes_and_each_rule_is_reported_in_order() {
    assert_eq!(validate_package_outline(&package()), Ok(()));

    let mut p = package();
    p.package_version = 2;
    assert_eq!(validate_package_outline(&p), Err(ScriptPluginError::UnsupportedPackageVersion(2)));

    let mut p = package();
    p.manifest.manifest_version = 3;
    assert_eq!(validate_package_outline(&p), Err(invalid("unsupported manifest version: 3")));

    let mut p = package();
    p.manifest.api_version = 9;
    assert_eq!(validate_package_outline(&p), Err(ScriptPluginError::UnsupportedApiVersion(9)));

    let mut p = package();
    p.manifest.version = "1.0".to_owned();
    assert_eq!(
        validate_package_outline(&p),
        Err(invalid("plugin version must use semantic versioning"))
    );

    let mut p = package();
    p.source = "   ".to_owned();
    assert_eq!(validate_package_outline(&p), Err(invalid("script source is empty")));

    let mut p = package();
    p.commands.clear();
    assert_eq!(validate_package_outline(&p), Err(invalid("plugin must declare 1..=64 commands")));

    let mut p = package();
    p.manifest.capabilities.optional.push(ScriptCapability::MachineRead);
    assert_eq!(
        validate_package_outline(&p),
        Err(invalid("capability is both required and optional: MachineRead"))
    );

    let mut p = package();
    p.manifest.capabilities.required.push(ScriptCapability::UiContribute);
    assert_eq!(
        validate_package_outline(&p),
        Err(invalid("required capabilities contain duplicates"))
    );
}

#[test]
fn commands_and_fields_are_checked_in_order() {
    let mut p = package();
    p.commands.push(command("raise-z"));
    assert_eq!(validate_package_outline(&p), Err(invalid("invalid or duplicate command id: raise-z")));

    let mut p = package();
    p.commands[0].required_capabilities = vec![ScriptCapability::JobsCreate];
    assert_eq!(
        validate_package_outline(&p),
        Err(invalid("command raise-z requests an undeclared capability"))
    );

    let mut p = package();
    p.commands[0].fields.push(ScriptFieldOutline {
        id: "distanceMm".to_owned(),
        label: "Again".to_owned(),
        unit: None,
        numeric_error: None,
    });
    assert_eq!(validate_package_outline(&p), Err(invalid("invalid or duplicate field id: distanceMm")));

    let mut p = package();
    p.commands[0].fields[0].numeric_error = Some(invalid("field distanceMm has invalid bounds"));
    assert_eq!(validate_package_outline(&p), Err(invalid("field distanceMm has invalid bounds")));
}

#[test]
fn external_package_is_disabled_and_loses_old_grants_after_update() {
    let mut store = ScriptPluginStore::new();
    let installed = store
        .install_external(
            "community.example".to_owned(),
            "digest-1".to_owned(),
            vec![ScriptCapability::UiContribute],
            vec![ScriptCapability::MachineJog],
        )
        .unwrap();
    assert!(!installed.enabled);
    assert!(installed.granted.is_empty());

    let enabled = store
        .set_enabled("community.example", &installed.digest, true, vec![ScriptCapability::UiContribute])
        .unwrap();
    assert!(enabled.enabled);

    let updated = store
        .install_external(
            "community.example".to_owned(),
            "digest-2".to_owned(),
            vec![ScriptCapability::UiContribute],
            vec![ScriptCapability::MachineJog],
        )
        .unwrap();
    assert!(!updated.enabled);
    assert!(updated.granted.is_empty());
    assert_ne!(updated.digest, installed.digest);
    assert_eq!(store.list().len(), 1);
}

#[test]
fn digest_must_match_when_capabilities_are_granted() {
    let mut store = ScriptPluginStore::new();
    store.install_bundled(
        "millo.operator-macros".to_owned(),
        "bundled-digest".to_owned(),
        vec![ScriptCapability::UiContribute],
        Vec::new(),
    );
    let error = store
        .set_enabled("millo.operator-macros", "stale", true, vec![ScriptCapability::UiContribute])
        .unwrap_err();
    assert_eq!(error, ScriptPluginError::DigestMismatch);
}

#[test]
fn grants_must_be_declared_and_cover_what_is_required() {
    let mut store = ScriptPluginStore::new();
    store
        .install_external("a.b".to_owned(), "d".to_owned(), vec![ScriptCapability::UiContribute], vec![ScriptCapability::MachineJog])
        .unwrap();
    assert_eq!(
        store.set_enabled("a.b", "d", false, vec![ScriptCapability::JobsCreate]).unwrap_err(),
        invalid("grant contains an undeclared capability")
    );
    assert_eq!(
        store.set_enabled("a.b", "d", true, vec![ScriptCapability::MachineJog]).unwrap_err(),
        invalid("all required capabilities must be granted before enabling")
    );
    let granted = store
        .set_enabled(
            "a.b",
            "d",
            true,
            vec![ScriptCapability::MachineJog, ScriptCapability::UiContribute, ScriptCapability::MachineJog],
        )
        .unwrap();
    assert_eq!(granted.granted, vec![ScriptCapability::UiContribute, ScriptCapability::MachineJog]);
    assert_eq!(
        store.set_enabled("x.y", "d", true, Vec::new()).unwrap_err(),
        ScriptPluginError::NotInstalled("x.y".to_owned())
    );
}

#[test]
fn bundled_plugins_are_reserved_and_cannot_be_removed() {
    let mut store = ScriptPluginStore::new();
    store.install_bundled("millo.macros".to_owned(), "one".to_owned(), vec![ScriptCapability::UiContribute], Vec::new());
    let bundled = store.get("millo.macros").unwrap();
    assert!(bundled.enabled && bundled.bundled);
    assert_eq!(bundled.granted, vec![ScriptCapability::UiContribute]);
    assert_eq!(
        store
            .install_external("millo.macros".to_owned(), "two".to_owned(), Vec::new(), Vec::new())
            .unwrap_err(),
        invalid("bundled plugin ids are reserved")
    );
    assert_eq!(store.remove("millo.macros").unwrap_err(), invalid("bundled plugins cannot be deleted"));
    store.install_external("other.plugin".to_owned(), "d".to_owned(), Vec::new(), Vec::new()).unwrap();
    assert_eq!(store.remove("other.plugin"), Ok(true));
    assert_eq!(store.remove("other.plugin"), Ok(false));
}

#[test]
fn stored_package_integrity_is_checked_before_it_can_be_enabled() {
    let mut tampered = record("millo.operator-macros", "tampered");
    tampered.enabled = true;
    tampered.bundled = true;
    tampered.granted = vec![ScriptCapability::UiContribute];
    let error = match ScriptPluginStore::with_plugins(vec![tampered], vec!["actual".to_owned()]) {
        Err(error) => error,
        Ok(_) => panic!("store accepted"),
    };
    assert_eq!(
        error,
        ScriptPluginError::Storage("stored digest does not match plugin package: millo.operator-macros".to_owned())
    );
}

#[test]
fn stored_grants_are_checked() {
    let mut missing = record("a.b", "d");
    missing.enabled = true;
    assert_eq!(
        check_installed(&missing, "d"),
        Err(ScriptPluginError::Storage("enabled plugin is missing a required grant: a.b".to_owned()))
    );
    let mut undeclared = record("a.b", "d");
    undeclared.granted = vec![ScriptCapability::JobsCreate];
    assert_eq!(
        check_installed(&undeclared, "d"),
        Err(ScriptPluginError::Storage("stored grants are invalid: a.b".to_owned()))
    );
    assert_eq!(check_installed(&record("a.b", "d"), "d"), Ok(()));
    let duplicate = match ScriptPluginStore::with_plugins(
        vec![record("a.b", "d"), record("a.b", "d")],
        vec!["d".to_owned(), "d".to_owned()],
    ) {
        Err(error) => error,
        Ok(_) => panic!("store accepted"),
    };
    assert_eq!(duplicate, ScriptPluginError::Storage("duplicate plugin in store: a.b".to_owned()));
}

#[test]
fn dynamic_eval_is_not_available_to_external_scripts() {
    let mut package = package();
    package.source = "fn run(command, input, machine) { eval(\"40 + 2\") }".to_owned();
    let error = validate_package(&package).unwrap_err();

    assert!(matches!(error, ScriptPluginError::Compile(_)));
}

#[test]
fn a_package_that_follows_the_rules_and_compiles_is_valid() {
    assert_eq!(validate_package(&package()), Ok(()));
    assert_eq!(compile_script("fn run(command, input, machine) { 40 + 2 }"), Ok(()));
}

#[test]
fn a_script_that_does_not_parse_is_a_compile_error() {
    let mut broken = package();
    broken.source = "fn run(command, input, machine) { let = ; }".to_owned();
    assert!(matches!(validate_package(&broken), Err(ScriptPluginError::Compile(_))));
    assert!(matches!(
        compile_script("import \"other\" as other;"),
        Err(ScriptPluginError::Compile(_))
    ));
}

#[test]
fn the_package_rules_are_checked_before_the_script_is_compiled() {
    let mut bad = package();
    bad.package_version = 2;
    bad.source = "fn run( {".to_owned();
    assert_eq!(validate_package(&bad), Err(ScriptPluginError::UnsupportedPackageVersion(2)));
}

#[test]
fn a_compile_outcome_maps_to_its_verdict() {
    assert_eq!(compile_verdict(Ok(())), Ok(()));
    assert_eq!(
        compile_verdict(Err("unexpected end".to_owned())),
        Err(ScriptPluginError::Compile("unexpected end".to_owned()))
    );
}

#[test]
fn package_digest_is_the_lowercase_sha256_of_the_serialised_package() {
    assert_eq!(
        package_digest(b"abc"),
        "ba7816bf8f01cfea414140de5dae2223b00361a396177a9cb410ff61f20015ad"
    );
    assert_eq!(
        package_digest(b""),
        "e3b0c44298fc1c149afbf4c8996fb92427ae41e4649b934ca495991b7852b855"
    );
    assert_ne!(package_digest(b"{\"a\":1}"), package_digest(b"{\"a\":2}"));
}

#[test]
fn bytes_are_written_as_two_lowercase_hex_digits_each() {
    assert_eq!(hex_lower(&[0x00, 0x0f, 0xa0, 0xff]), "000fa0ff");
    assert_eq!(hex_lower(&[]), "");
}

#[test]
fn each_action_needs_its_capability() {
    assert_eq!(action_capability(ScriptActionKind::CreateProgram), Some(ScriptCapability::JobsCreate));
    assert_eq!(action_capability(ScriptActionKind::Jog), Some(ScriptCapability::MachineJog));
    assert_eq!(action_capability(ScriptActionKind::SetZero), Some(ScriptCapability::MachineCoordinates));
    assert_eq!(action_capability(ScriptActionKind::ReturnZero), Some(ScriptCapability::MachineCoordinates));
    assert_eq!(action_capability(ScriptActionKind::Notice), None);
}

#[test]
fn generated_programs_and_notices_are_checked() {
    assert_eq!(validate_program_action("boundary-check-20.0x20.0.nc", "G21\nM5\nM9"), Ok(()));
    assert_eq!(
        validate_program_action(" padded.nc", "G21"),
        Err(invalid("generated source name must be a non-empty trimmed string up to 240 bytes"))
    );
    assert_eq!(
        validate_program_action("job.nc", "  \n\t"),
        Err(ScriptPluginError::InvalidAction("generated G-code is empty or too large".to_owned()))
    );
    assert_eq!(validate_notice("Done", "Boundary traced"), Ok(()));
    assert_eq!(
        validate_notice("", "x"),
        Err(invalid("notice title must be a non-empty trimmed string up to 100 bytes"))
    );
    assert_eq!(
        validate_notice("Done", &"x".repeat(1001)),
        Err(invalid("notice message must be a non-empty trimmed string up to 1000 bytes"))
    );
}

#[test]
fn the_plugin_engine_records_its_limits() {
    let engine = millo::engine::script_engine();
    let settings = engine.settings();
    assert_eq!(settings.max_operations, Some(50000));
    assert_eq!(settings.max_call_levels, Some(32));
    assert_eq!(settings.max_expr_depth, Some(128));
    assert_eq!(settings.max_function_expr_depth, Some(64));
    assert_eq!(settings.max_string_size, Some(2097152));
    assert_eq!(settings.max_array_size, Some(2048));
    assert_eq!(settings.max_map_size, Some(2048));
    assert_eq!(settings.allow_shadowing, Some(false));
    assert_eq!(settings.fail_on_invalid_map_property, Some(true));
    assert!(settings.eval_disabled && settings.import_disabled);
    assert_eq!(
        millo::engine::PluginEngine::fresh().settings().max_operations,
        None
    );
}

#[test]
fn a_compile_error_carries_the_parser_message() {
    let engine = millo::engine::script_engine();
    let message = engine.compile("fn run( {").unwrap_err();
    assert!(!message.is_empty());
    assert_eq!(
        compile_script("fn run( {"),
        Err(ScriptPluginError::Compile(message))
    );
    assert!(engine.compile("let x = 1;").is_ok());
}

#[test]
fn a_run_takes_the_first_command_with_its_id_unless_it_is_unavailable() {
    let mut blocked = command("raise");
    blocked.unavailable_reason = Some("needs a homed machine".to_owned());
    let commands = vec![command("lower"), command("raise"), blocked];
    assert_eq!(millo::script::runnable_command(&commands, "raise"), Ok(1));
    assert_eq!(
        millo::script::runnable_command(&commands, "spin"),
        Err(ScriptPluginError::UnknownCommand("spin".to_owned()))
    );
    let mut first_blocked = command("raise");
    first_blocked.unavailable_reason = Some("needs a homed machine".to_owned());
    let commands = vec![first_blocked, command("raise")];
    assert_eq!(
        millo::script::runnable_command(&commands, "raise"),
        Err(ScriptPluginError::InvalidAction("needs a homed machine".to_owned()))
    );
}
