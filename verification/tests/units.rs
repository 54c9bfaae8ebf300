use remote_test::capsule::PodOptions;
use remote_test::client::all_successful;
use remote_test::client::format_test_report;
use remote_test::client::register_message;
use remote_test::client::success_to_str;
use remote_test::client::unregister_message;
use remote_test::client::update_message;
use remote_test::client::ProjectConfig;
use remote_test::client_errors::ClientError;
use remote_test::client_errors::ErrorSource;
use remote_test::client_errors::LocalError;
use remote_test::codec::parse_project_exec;
use remote_test::codec::parse_registry_exec;
use remote_test::codec::parse_string_exec;
use remote_test::codec::u64_to_string;
use remote_test::hash::hash;
use remote_test::pb;
use remote_test::project::TestProject;
use remote_test::project::UpdateError;
use remote_test::registry::RegistryError;
use remote_test::registry::RegistryState;

#[test]
fn digest_of_empty_blob() {
    // sha-256 of the empty input, rendered in standard base64
    let d = hash(&Vec::new());
    assert_eq!(d, "47DEQpj8HBSa+/TImW+5JCeuQeRkm5NMpJWZG3hSuFU=");
}

#[test]
fn digest_of_hello() {
    let d = hash(&b"hello".to_vec());
    assert_eq!(d, "LPJNul+wow4m6DsqxbninhsWHlwfp0JecwQzYpOLmCQ=");
}

#[test]
fn digest_is_always_44_chars_padded() {
    for blob in [Vec::new(), b"x".to_vec(), b"hello there".to_vec()] {
        let d = hash(&blob);
        assert_eq!(d.len(), 44);
        assert!(d.ends_with('='), "digest was {:?}", d);
    }
}

#[test]
fn decimal_rendering() {
    assert_eq!(u64_to_string(0), "0");
    assert_eq!(u64_to_string(7), "7");
    assert_eq!(u64_to_string(12345), "12345");
    assert_eq!(u64_to_string(u64::MAX), "18446744073709551615");
}

#[test]
fn parse_string_field() {
    let text: Vec<char> = "3:abcrest".chars().collect();
    let (s, pos) = parse_string_exec(&text, 0).expect("field should parse");
    assert_eq!(s, "abc");
    assert_eq!(pos, 5);
}

#[test]
fn parse_string_field_rejects_short_payload() {
    let text: Vec<char> = "9:abc".chars().collect();
    assert!(parse_string_exec(&text, 0).is_none());
}

#[test]
fn snapshot_round_trip_preserves_projects() {
    let mut registry = RegistryState::new();
    let p1 = TestProject::register(
        "alpha".to_string(),
        vec![vec!["echo".to_string(), "hi".to_string()]],
    );
    let p2 = TestProject::from_parts(
        "beta".to_string(),
        vec![vec!["true".to_string()]],
        Some("digest-value".to_string()),
    );
    registry.register(p1).expect("alpha registers");
    registry.register(p2).expect("beta registers");

    let snapshot = registry.snapshot_string();
    let chars: Vec<char> = snapshot.chars().collect();
    let loaded = parse_registry_exec(&chars).expect("own snapshot parses");

    assert_eq!(loaded.len(), 2);
    assert_eq!(loaded[0].get_name(), "alpha");
    assert_eq!(loaded[0].get_tuple(), ("alpha".to_string(), String::new()));
    assert_eq!(loaded[1].get_name(), "beta");
    assert_eq!(
        loaded[1].get_tuple(),
        ("beta".to_string(), "digest-value".to_string())
    );
}

#[test]
fn snapshot_survives_awkward_names() {
    let mut registry = RegistryState::new();
    let p = TestProject::register(
        "we:ird;3:name\nwith breaks".to_string(),
        vec![vec!["echo".to_string(), "a b".to_string()], vec![]],
    );
    registry.register(p).expect("registers");
    let snapshot = registry.snapshot_string();
    let chars: Vec<char> = snapshot.chars().collect();
    let loaded = parse_registry_exec(&chars).expect("parses");
    assert_eq!(loaded.len(), 1);
    assert_eq!(loaded[0].get_name(), "we:ird;3:name\nwith breaks");
}

#[test]
fn parse_rejects_trailing_garbage() {
    let mut registry = RegistryState::new();
    registry
        .register(TestProject::register("a".to_string(), vec![]))
        .expect("registers");
    let mut snapshot = registry.snapshot_string();
    snapshot.push('x');
    let chars: Vec<char> = snapshot.chars().collect();
    assert!(parse_registry_exec(&chars).is_none());
}

#[test]
fn project_record_parses_alone() {
    let mut registry = RegistryState::new();
    registry
        .register(TestProject::register(
            "solo".to_string(),
            vec![vec!["ls".to_string()]],
        ))
        .expect("registers");
    let snapshot = registry.snapshot_string();
    let chars: Vec<char> = snapshot.chars().collect();
    // skip the registry's own "1;" header and parse the bare record
    let (p, pos) = parse_project_exec(&chars, 2).expect("record parses");
    assert_eq!(p.get_name(), "solo");
    assert_eq!(pos, chars.len());
}

#[test]
fn duplicate_registration_rejected() {
    let mut registry = RegistryState::new();
    let first = TestProject::register("twin".to_string(), vec![]);
    let second = TestProject::register("twin".to_string(), vec![]);
    let other = TestProject::register("other".to_string(), vec![]);
    assert!(registry.register(first).is_ok());
    assert!(registry.register(other).is_ok());
    assert!(matches!(
        registry.register(second),
        Err(RegistryError::DuplicateName)
    ));
    assert_eq!(registry.count(), 2);
}

#[test]
fn unregister_unknown_name_rejected() {
    let mut registry = RegistryState::new();
    assert!(matches!(
        registry.unregister(&"ghost".to_string()),
        Err(RegistryError::NotFound)
    ));
}

#[test]
fn wire_conversion_splits_shell_words() {
    let wire = pb::Project {
        name: "conv".to_string(),
        tests: vec!["echo 'a b' c".to_string(), "grep -q pattern".to_string()],
    };
    let project = TestProject::from_wire(wire);
    let back = project.to_wire();
    assert_eq!(back.name, "conv");
    assert_eq!(back.tests, vec!["echo 'a b' c", "grep -q pattern"]);
}

#[test]
fn malformed_command_line_becomes_empty() {
    let wire = pb::Project {
        name: "bad".to_string(),
        tests: vec!["echo 'unclosed".to_string()],
    };
    let project = TestProject::from_wire(wire);
    let back = project.to_wire();
    assert_eq!(back.tests, vec![""]);
}

#[test]
fn project_dir_is_under_base() {
    let p = TestProject::register("demo".to_string(), vec![]);
    assert_eq!(p.get_dir(&"/var/base".to_string()), "/var/base/demo");
}

#[test]
fn update_error_messages() {
    let name = "demo".to_string();
    assert_eq!(
        UpdateError::AlreadyInitialized.message(&name),
        "Project 'demo' can not apply update, as it is in an unsuitable state"
    );
    assert_eq!(UpdateError::HashMismatch.message(&name), "Hashsum mismatch");
    assert_eq!(
        UpdateError::ExtractionFailed("boom".to_string()).message(&name),
        "Could not extract zip archive: boom"
    );
}

#[test]
fn pod_options_merge_prefers_other() {
    let mut base = PodOptions::image("alpine".to_string());
    let other = PodOptions::ports(vec![80, 443]);
    base.merge(&other);
    assert_eq!(
        base.as_args_str(),
        vec!["--image=alpine", "--port=80", "--port=443"]
    );

    let mut base2 = PodOptions::image("alpine".to_string());
    let mut override2 = PodOptions::default();
    override2.set_image("debian".to_string());
    base2.merge(&override2);
    assert_eq!(base2.as_args_str(), vec!["--image=debian"]);
}

#[test]
fn pod_options_default_is_empty() {
    let opts = PodOptions::default();
    assert!(opts.as_args_str().is_empty());
}

#[test]
fn client_messages() {
    let name = "demo".to_string();
    let ok = pb::RegisterResponse { success: true, error: None };
    assert_eq!(register_message(&name, &ok), "Successfully registered project demo");
    let dup = pb::RegisterResponse {
        success: false,
        error: Some("Project with name 'demo' already exists!".to_string()),
    };
    assert_eq!(
        register_message(&name, &dup),
        "Project could not be registered: Project with name 'demo' already exists!"
    );
    let gone = pb::RegisterResponse { success: true, error: None };
    assert_eq!(unregister_message(&name, &gone), "Successfully unregistered project demo");
    let half = pb::RegisterResponse {
        success: true,
        error: Some("Could not clear directory: denied".to_string()),
    };
    assert_eq!(
        unregister_message(&name, &half),
        "Successfully unregistered project demo\nCould not clear directory: denied"
    );
    let upd = pb::UpdateResponse {
        project: "demo".to_string(),
        hash: "h".to_string(),
        success: true,
        error: None,
    };
    assert_eq!(update_message(&upd), "demo:h has been successfully updated");
}

#[test]
fn success_tags() {
    assert_eq!(success_to_str(true), "OK");
    assert_eq!(success_to_str(false), "Failed");
}

fn outcome(success: bool) -> pb::TestResult {
    pb::TestResult {
        command: "cmd".to_string(),
        stdout: vec![],
        stderr: vec![],
        success,
    }
}

#[test]
fn all_successful_requires_every_outcome() {
    assert!(all_successful(&vec![]));
    assert!(all_successful(&vec![outcome(true)]));
    assert!(!all_successful(&vec![outcome(true), outcome(false)]));
}

#[test]
fn report_shows_streams_and_summary() {
    let res = pb::TestResults {
        name: "n".to_string(),
        hash: "h".to_string(),
        timestamp: "t".to_string(),
        results: vec![pb::TestResult {
            command: "echo hi".to_string(),
            stdout: b"hi\n".to_vec(),
            stderr: vec![],
            success: true,
        }],
    };
    let report = format_test_report(&res);
    assert!(report.contains("Test results for n:h"), "report: {:?}", report);
    assert!(report.contains(" started at t"));
    assert!(report.contains("Test 1 ********** OK"));
    assert!(report.contains("stdout: \"hi"));
    assert!(report.contains("Tests successful ***** OK"));
}

#[test]
fn client_error_classification() {
    let e = ClientError::local("boom".to_string());
    assert_eq!(e.message(), "Error occurred in client: boom");
    let e = ClientError::remote("bad".to_string());
    assert_eq!(e.message(), "Error reported by remote host: bad");
    let e = ClientError::failed_connect("refused".to_string());
    assert_eq!(e.message(), "Failed to connect to remote host: refused");
    let e = ClientError::from_local(LocalError("oops".to_string()));
    assert_eq!(e.message(), "Error occurred in client: oops");
    assert_eq!(ErrorSource::Local.message(), "Error occurred in client");
}

#[test]
fn config_to_wire_shapes() {
    let conf = ProjectConfig {
        name: "cfg".to_string(),
        tests: vec!["make test".to_string()],
        exclude: vec!["target".to_string()],
    };
    let p = conf.to_project();
    assert_eq!(p.name, "cfg");
    assert_eq!(p.tests, vec!["make test"]);
    assert_eq!(conf.to_identifier().name, "cfg");
}
