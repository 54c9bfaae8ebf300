use remote_test::archive::ZipBlob;
use remote_test::archive::ZipFile;
use remote_test::capsule::Capsule;
use remote_test::capsule::KubernetesCapsule;
use remote_test::capsule::PodOptions;
use remote_test::capsule::TransparentCapsule;
use remote_test::hash::hash;
use remote_test::pb;
use remote_test::project::ExecError;
use remote_test::project::TestProject;
use remote_test::project::UpdateError;
use remote_test::server::RemoteServerContext;

fn rt() -> tokio::runtime::Runtime {
    tokio::runtime::Builder::new_current_thread()
        .enable_all()
        .build()
        .expect("runtime builds")
}

fn prepare_dirs(base: &str, cache: &str) {
    let rt = rt();
    rt.block_on(tokio::fs::create_dir_all(base)).expect("base dir");
    rt.block_on(tokio::fs::create_dir_all(cache)).expect("cache dir");
}

fn make_zip(files: &[(&str, &[u8])]) -> Vec<u8> {
    let mut w = zip::ZipWriter::new(std::io::Cursor::new(Vec::new()));
    for (name, content) in files {
        w.start_file(*name, zip::write::SimpleFileOptions::default())
            .expect("entry starts");
        std::io::Write::write_all(&mut w, content).expect("entry writes");
    }
    w.finish().expect("archive closes").into_inner()
}

#[test]
fn end_to_end_demo_run() {
    let base = "/tmp/remote_test_demo_base";
    let cache = "/tmp/remote_test_demo_cache";
    prepare_dirs(base, cache);
    let server = RemoteServerContext::new(base.to_string(), cache.to_string());

    // register project "demo" with tests [["echo","hi"]]
    let reg = server.register_project(pb::Project {
        name: "demo".to_string(),
        tests: vec!["echo hi".to_string()],
    });
    assert!(reg.success);
    assert!(reg.error.is_none());

    // update with a correctly-hashed archive
    let blob = make_zip(&[("hello.txt", b"hello there")]);
    let digest = hash(&blob);
    let upd = server
        .update_project(pb::ProjectUpdate {
            name: "demo".to_string(),
            hash: digest.clone(),
            blob: blob.clone(),
        })
        .expect("storage works");
    assert!(upd.success, "update failed: {:?}", upd.error);
    assert_eq!(upd.project, "demo");
    assert_eq!(upd.hash, digest);

    // run tests: one result, command "echo hi", success, stdout holds "hi"
    let results = server
        .run_tests(
            pb::ProjectIdentifier { name: "demo".to_string() },
            TransparentCapsule::new(),
            (),
        )
        .expect("run works");
    assert_eq!(results.name, "demo");
    assert_eq!(results.hash, digest);
    assert_eq!(results.results.len(), 1);
    let outcome = &results.results[0];
    assert_eq!(outcome.command, "echo hi");
    assert!(outcome.success);
    let stdout = String::from_utf8_lossy(&outcome.stdout).into_owned();
    assert!(stdout.contains("hi"), "stdout was {:?}", stdout);

    // a second update without unregistering is rejected: unsuitable state
    let upd2 = server
        .update_project(pb::ProjectUpdate {
            name: "demo".to_string(),
            hash: digest.clone(),
            blob,
        })
        .expect("storage works");
    assert!(!upd2.success);
    let err = upd2.error.expect("an error is reported");
    assert!(err.contains("unsuitable state"), "error was {:?}", err);

    // the stored content state is unchanged: the project still runs
    let again = server
        .run_tests(
            pb::ProjectIdentifier { name: "demo".to_string() },
            TransparentCapsule::new(),
            (),
        )
        .expect("run still works");
    assert_eq!(again.hash, digest);

    // clean up for the next run of this test
    let gone = server.unregister_project(pb::ProjectIdentifier { name: "demo".to_string() });
    assert!(gone.success);
}

#[test]
fn unregistering_unknown_project_fails() {
    let base = "/tmp/remote_test_ghost_base";
    let cache = "/tmp/remote_test_ghost_cache";
    prepare_dirs(base, cache);
    let server = RemoteServerContext::new(base.to_string(), cache.to_string());
    server.register_project(pb::Project { name: "real".to_string(), tests: vec![] });

    let res = server.unregister_project(pb::ProjectIdentifier { name: "ghost".to_string() });
    assert!(!res.success);
    let err = res.error.expect("an error is reported");
    assert!(err.contains("does not exist"), "error was {:?}", err);

    // the registry is unaffected: the real project is still registered
    let dup = server.register_project(pb::Project { name: "real".to_string(), tests: vec![] });
    assert!(!dup.success);
}

#[test]
fn unregistering_a_never_updated_project_is_clean() {
    let base = "/tmp/remote_test_clean_base";
    let cache = "/tmp/remote_test_clean_cache";
    prepare_dirs(base, cache);
    let server = RemoteServerContext::new(base.to_string(), cache.to_string());
    let reg = server.register_project(pb::Project { name: "bare".to_string(), tests: vec![] });
    assert!(reg.success);

    // no content was ever extracted, so there is no directory to clear and
    // no cleanup failure to report
    let gone = server.unregister_project(pb::ProjectIdentifier { name: "bare".to_string() });
    assert!(gone.success);
    assert!(gone.error.is_none(), "unexpected error: {:?}", gone.error);
}

#[test]
fn transparent_capsule_records_the_given_directory() {
    let dir = "/tmp/remote_test_record_dir";
    prepare_dirs(dir, dir);
    let mut capsule = TransparentCapsule::new();
    capsule
        .encapsulate("id".to_string(), &dir.to_string(), ())
        .expect("transparent encapsulate always succeeds");
    // the recorded directory is the working directory of later commands
    let (_, code, stdout, _) = capsule.run_test(&vec!["pwd".to_string()]).expect("pwd runs");
    assert_eq!(code, Some(0));
    assert_eq!(String::from_utf8_lossy(&stdout).trim(), dir);
}

#[test]
fn increment_is_always_rejected() {
    let server = RemoteServerContext::new("/tmp".to_string(), "/tmp".to_string());
    match server.increment_project(pb::ProjectIncrement { name: "any".to_string() }) {
        Err(e) => assert_eq!(e, "Not yet implemented!"),
        Ok(_) => panic!("increment must be rejected"),
    }
}

#[test]
fn update_with_wrong_digest_is_rejected() {
    let cache = "/tmp/remote_test_mismatch_cache";
    prepare_dirs(cache, cache);
    let blob = make_zip(&[("f", b"data")]);
    let mut project = TestProject::register("mism".to_string(), vec![]);
    let stored = ZipFile::from_contents(blob, &cache.to_string()).expect("store works");
    let outcome = project.apply_update(
        stored,
        "not-the-right-digest".to_string(),
        &"/tmp/remote_test_mismatch_base".to_string(),
    );
    assert!(matches!(outcome, Err(UpdateError::HashMismatch)));
    // the project is still uninitialized
    assert_eq!(project.get_tuple().1, "");
}

#[test]
fn update_applies_exactly_once() {
    let base = "/tmp/remote_test_once_base".to_string();
    let cache = "/tmp/remote_test_once_cache".to_string();
    prepare_dirs(&base, &cache);
    let blob = make_zip(&[("f.txt", b"content")]);
    let digest = hash(&blob);
    let mut project = TestProject::register("once".to_string(), vec![]);

    let stored = ZipFile::from_contents(blob.clone(), &cache).expect("store works");
    assert!(stored.compare_hash(&digest));
    assert_eq!(stored.get_hash(), digest);
    assert!(project.apply_update(stored, digest.clone(), &base).is_ok());
    assert_eq!(project.get_tuple().1, digest);

    let stored2 = ZipFile::from_contents(blob, &cache).expect("store works");
    let second = project.apply_update(stored2, digest.clone(), &base);
    assert!(matches!(second, Err(UpdateError::AlreadyInitialized)));
    assert_eq!(project.get_tuple().1, digest);
}

#[test]
fn corrupt_archive_leaves_project_unchanged() {
    let base = "/tmp/remote_test_corrupt_base".to_string();
    let cache = "/tmp/remote_test_corrupt_cache".to_string();
    prepare_dirs(&base, &cache);
    let garbage = b"this is not an archive".to_vec();
    let digest = hash(&garbage);
    let mut project = TestProject::register("corrupt".to_string(), vec![]);
    let stored = ZipFile::from_contents(garbage, &cache).expect("store works");
    let outcome = project.apply_update(stored, digest, &base);
    assert!(matches!(outcome, Err(UpdateError::ExtractionFailed(_))));
    assert_eq!(project.get_tuple().1, "");
}

#[test]
fn storing_into_missing_directory_is_a_storage_error() {
    let missing = "/tmp/remote_test_no_such_dir/deeper".to_string();
    assert!(ZipFile::from_contents(b"data".to_vec(), &missing).is_err());
}

#[test]
fn uninitialized_project_never_runs() {
    let project = TestProject::register(
        "fresh".to_string(),
        vec![vec!["echo".to_string(), "hi".to_string()]],
    );
    let outcome = project.execute_all_tests(
        &"/tmp".to_string(),
        "ident".to_string(),
        (),
        TransparentCapsule::new(),
    );
    assert!(matches!(outcome, Err(ExecError::NotInitialized)));
}

#[test]
fn empty_command_aborts_a_run() {
    let base = "/tmp/remote_test_empty_base".to_string();
    let cache = "/tmp/remote_test_empty_cache".to_string();
    prepare_dirs(&base, &cache);
    let blob = make_zip(&[("f", b"x")]);
    let digest = hash(&blob);
    let mut project = TestProject::register("empty".to_string(), vec![vec![]]);
    let stored = ZipFile::from_contents(blob, &cache).expect("store works");
    project.apply_update(stored, digest, &base).expect("update works");
    let outcome = project.execute_all_tests(
        &base,
        "ident".to_string(),
        (),
        TransparentCapsule::new(),
    );
    assert!(matches!(outcome, Err(ExecError::EmptyCommand)));
}

#[test]
fn run_test_before_encapsulate_is_rejected() {
    let capsule = TransparentCapsule::new();
    let outcome = capsule.run_test(&vec!["echo".to_string(), "hi".to_string()]);
    assert!(outcome.is_err());
}

#[test]
fn transparent_discard_is_a_no_op() {
    let mut capsule = TransparentCapsule::new();
    capsule
        .encapsulate("id".to_string(), &"/tmp".to_string(), ())
        .expect("encapsulate records the directory");
    assert!(capsule.discard().is_ok());
}

#[test]
fn failed_sandbox_provisioning_still_discards_cleanly() {
    // the management tool does not exist, so creation fails
    let mut capsule = KubernetesCapsule::new(
        Some("/nonexistent/remote-test-kubectl".to_string()),
        "token".to_string(),
        "ns".to_string(),
        PodOptions::default(),
    );
    let outcome = capsule.encapsulate(
        "run1".to_string(),
        &"/tmp".to_string(),
        PodOptions::default(),
    );
    assert!(outcome.is_err());
    // no run_test is attempted; discard still succeeds with nothing held
    assert!(capsule.discard().is_ok());
}

#[test]
fn sandbox_run_test_without_pod_is_rejected() {
    let capsule = KubernetesCapsule::new(
        None,
        "token".to_string(),
        "ns".to_string(),
        PodOptions::default(),
    );
    assert!(capsule.run_test(&vec!["true".to_string()]).is_err());
}

#[test]
fn packaging_skips_excluded_paths() {
    let dir = "/tmp/remote_test_pack_dir";
    let rt = rt();
    rt.block_on(tokio::fs::create_dir_all(dir)).expect("dir");
    rt.block_on(tokio::fs::write(format!("{}/keep.txt", dir), b"hi"))
        .expect("file");
    rt.block_on(tokio::fs::write(format!("{}/skip.log", dir), b"noise"))
        .expect("file");

    let mut blob = ZipBlob::new(vec!["\\.log$".to_string()]).expect("patterns compile");
    blob.add_dir(&dir.to_string()).expect("walk works");
    let (digest, bytes) = blob.finish().expect("archive closes");
    assert_eq!(digest, hash(&bytes));

    // the kept file is in the archive, the excluded one is not
    let mut archive =
        zip::ZipArchive::new(std::io::Cursor::new(bytes)).expect("archive reads back");
    let names: Vec<String> = (0..archive.len())
        .map(|i| archive.by_index(i).expect("entry").name().to_string())
        .collect();
    assert_eq!(names.len(), 1, "exactly the kept file is archived: {:?}", names);
    assert!(names[0].ends_with("keep.txt"), "names: {:?}", names);
}

#[test]
fn bad_exclusion_pattern_is_reported() {
    assert!(ZipBlob::new(vec!["(".to_string()]).is_err());
}

#[test]
fn snapshot_file_round_trip() {
    let base = "/tmp/remote_test_snap_base";
    let cache = "/tmp/remote_test_snap_cache";
    let snapshot = "/tmp/remote_test_snap_base/projects.json";
    prepare_dirs(base, cache);
    let server = RemoteServerContext::new_with_snapshot(
        base.to_string(),
        cache.to_string(),
        snapshot.to_string(),
    );
    let reg = server.register_project(pb::Project {
        name: "persisted".to_string(),
        tests: vec!["echo persisted".to_string()],
    });
    assert!(reg.success);

    // registering flushed the snapshot; a fresh context loads it back
    let loaded = server.load_snapshot().expect("snapshot loads");
    assert!(loaded.iter().any(|p| p.get_name() == "persisted"));

    let server2 = RemoteServerContext::new_with_snapshot(
        base.to_string(),
        cache.to_string(),
        snapshot.to_string(),
    );
    server2.add_projects(loaded);
    let dup = server2.register_project(pb::Project {
        name: "persisted".to_string(),
        tests: vec![],
    });
    assert!(!dup.success, "the loaded registry already holds the project");

    let gone = server.unregister_project(pb::ProjectIdentifier {
        name: "persisted".to_string(),
    });
    assert!(gone.success);
}
