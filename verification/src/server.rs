//! The service surface: a shared, reader/writer-guarded registry and the
//! adapters that translate the inbound operations into registry, content
//! store, and capsule calls.
//!
//! Readers may run concurrently with each other; every mutation holds the
//! write side of the lock, so no two mutations interleave and the registry's
//! name-uniqueness invariant holds in every reachable state. After each
//! successful mutation the whole registry is serialized and swapped into the
//! snapshot file by a write-to-temporary-then-rename; a snapshot failure
//! never fails the operation that triggered it.

use vstd::prelude::*;
use vstd::rwlock::*;
use vstd::string::*;

use crate::archive::now_timestamp;
use crate::archive::ZipFile;
use crate::capsule::Capsule;
use crate::codec::parse_registry_exec;
use crate::pb;
use crate::project::TestProject;
use crate::registry::RegistryState;
use crate::registry::RegistryUpdateError;

verus! {

/// Relies on `tokio::fs::write`, driven to completion on a local runtime:
/// on success the file at `path` holds exactly the text.
#[verifier::external_body]
fn write_text_file(path: &str, text: &String) -> (r: Result<(), String>)
{
    let rt = match tokio::runtime::Builder::new_current_thread().enable_all().build() {
        Ok(rt) => rt,
        Err(e) => return Err(e.to_string()),
    };
    rt.block_on(tokio::fs::write(path, text.as_bytes())).map_err(|e| e.to_string())
}

/// Relies on `tokio::fs::rename`: atomically replaces `to` with `from`, so a
/// reader never observes a half-written snapshot.
#[verifier::external_body]
fn rename_file(from: &str, to: &str) -> (r: Result<(), String>)
{
    let rt = match tokio::runtime::Builder::new_current_thread().enable_all().build() {
        Ok(rt) => rt,
        Err(e) => return Err(e.to_string()),
    };
    rt.block_on(tokio::fs::rename(from, to)).map_err(|e| e.to_string())
}

/// Relies on `tokio::fs::read_to_string`: reads a whole file as text.
#[verifier::external_body]
fn read_text_file(path: &str) -> (r: Result<String, String>)
{
    let rt = match tokio::runtime::Builder::new_current_thread().enable_all().build() {
        Ok(rt) => rt,
        Err(e) => return Err(e.to_string()),
    };
    rt.block_on(tokio::fs::read_to_string(path)).map_err(|e| e.to_string())
}

/// Relies on `std::path::Path::is_dir`: whether the path names an existing
/// directory. What is on disk decides the answer.
#[verifier::external_body]
fn is_existing_dir(dir: &String) -> (r: bool)
{
    std::path::Path::new(dir.as_str()).is_dir()
}

/// Relies on `tokio::fs::remove_dir_all`: recursively deletes a directory.
#[verifier::external_body]
fn remove_dir_all(dir: &String) -> (r: Result<(), String>)
{
    let rt = match tokio::runtime::Builder::new_current_thread().enable_all().build() {
        Ok(rt) => rt,
        Err(e) => return Err(e.to_string()),
    };
    rt.block_on(tokio::fs::remove_dir_all(dir.as_str())).map_err(|e| e.to_string())
}

/// The characters of a string, one by one.
pub fn string_chars(s: &str) -> (r: Vec<char>)
    ensures
        r@ == s@,
{
    let len = s.unicode_len();
    let mut out: Vec<char> = Vec::new();
    let mut i: usize = 0;
    while i < len
        invariant
            i <= len,
            len == s@.len(),
            out@ =~= s@.take(i as int),
        decreases len - i,
    {
        out.push(s.get_char(i));
        i = i + 1;
    }
    proof {
        assert(out@ =~= s@);
    }
    out
}

/// The registry invariant the lock maintains: names stay unique.
pub struct RegistryInv;

impl RwLockPredicate<RegistryState> for RegistryInv {
    open spec fn inv(self, v: RegistryState) -> bool {
        v.wf()
    }
}

/// The text reported when a name is already registered.
pub open spec fn already_exists_message_of(name: Seq<char>) -> Seq<char> {
    "Project with name '"@ + name + "' already exists!"@
}

/// The text reported when a name is unknown to a mutation.
pub open spec fn not_exist_message_of(name: Seq<char>) -> Seq<char> {
    "Project '"@ + name + "' does not exist"@
}

fn already_exists_message(name: &String) -> (r: String)
    ensures
        r@ == already_exists_message_of(name@),
{
    let mut out = String::from_str("Project with name '");
    out.append(name.as_str());
    out.append("' already exists!");
    out
}

fn not_exist_message(name: &String) -> (r: String)
    ensures
        r@ == not_exist_message_of(name@),
{
    let mut out = String::from_str("Project '");
    out.append(name.as_str());
    out.append("' does not exist");
    out
}

/// The long-lived service state: configuration and the guarded registry.
pub struct RemoteServerContext {
    base_dir: String,
    zip_cache_dir: String,
    snapshot_path: String,
    projects: RwLock<RegistryState, RegistryInv>,
}

impl RemoteServerContext {
    /// A fresh service over the given base and blob-cache directories,
    /// persisting its registry to the default snapshot file.
    pub fn new(base_dir: String, zip_cache_dir: String) -> Self {
        Self::new_with_snapshot(base_dir, zip_cache_dir, String::from_str("projects.json"))
    }

    /// A fresh service that persists its registry to the given snapshot
    /// file.
    pub fn new_with_snapshot(
        base_dir: String,
        zip_cache_dir: String,
        snapshot_path: String,
    ) -> Self {
        let state = RegistryState::new();
        RemoteServerContext {
            base_dir,
            zip_cache_dir,
            snapshot_path,
            projects: RwLock::new(state, Ghost(RegistryInv)),
        }
    }

    /// Serializes the given registry state and swaps it into the snapshot
    /// file through a temporary. A failure is reported, never silent, but
    /// callers treat it as best-effort.
    fn flush_state(&self, state: &RegistryState) -> (r: Result<(), String>) {
        let text = state.snapshot_string();
        let mut tmp = self.snapshot_path.clone();
        tmp.append(".tmp");
        match write_text_file(tmp.as_str(), &text) {
            Ok(_) => rename_file(tmp.as_str(), self.snapshot_path.as_str()),
            Err(e) => Err(e),
        }
    }

    /// Loads the projects persisted in the snapshot file, if a readable,
    /// well-formed snapshot exists.
    pub fn load_snapshot(&self) -> (r: Option<Vec<TestProject>>) {
        match read_text_file(self.snapshot_path.as_str()) {
            Err(_) => None,
            Ok(text) => {
                let chars = string_chars(text.as_str());
                parse_registry_exec(&chars)
            },
        }
    }

    /// Bulk-inserts projects, as at startup.
    pub fn add_projects(&self, projects: Vec<TestProject>) {
        let (mut state, handle) = self.projects.acquire_write();
        state.add_projects(projects);
        handle.release_write(state);
    }

    /// Registers a project: inserts it under exclusive access, then
    /// persists. Fails exactly when the name is already registered.
    pub fn register_project(&self, request: pb::Project) -> (r: pb::RegisterResponse)
        ensures
            r.success ==> r.error is None,
            !r.success ==> (r.error matches Some(e) && e@ == already_exists_message_of(
                request.name@,
            )),
    {
        let project = TestProject::from_wire(request);
        let name = project.get_name_string().clone();
        let (mut state, handle) = self.projects.acquire_write();
        let outcome = state.register(project);
        let response = match outcome {
            Ok(_) => {
                let _ = self.flush_state(&state);
                pb::RegisterResponse { success: true, error: None }
            },
            Err(_) => pb::RegisterResponse {
                success: false,
                error: Some(already_exists_message(&name)),
            },
        };
        handle.release_write(state);
        response
    }

    /// Unregisters a project: removes it under exclusive access, persists,
    /// then best-effort deletes its directory. Fails exactly when the name
    /// is unknown; a directory-cleanup failure is reported in the error
    /// text but does not flip success.
    pub fn unregister_project(&self, request: pb::ProjectIdentifier) -> (r: pb::RegisterResponse)
        ensures
            !r.success ==> (r.error matches Some(e) && e@ == not_exist_message_of(request.name@)),
            r.success ==> match r.error {
                None => true,
                Some(e) => exists|detail: Seq<char>|
                    e@ == "Could not clear directory: "@ + detail,
            },
    {
        let name = request.name;
        let (mut state, handle) = self.projects.acquire_write();
        let outcome = state.unregister(&name);
        let removed = match outcome {
            Ok(project) => {
                let _ = self.flush_state(&state);
                Some(project)
            },
            Err(_) => None,
        };
        handle.release_write(state);
        match removed {
            Some(project) => {
                let dir = project.get_dir(&self.base_dir);
                if !is_existing_dir(&dir) {
                    // never updated, or already gone: nothing to clear
                    return pb::RegisterResponse { success: true, error: None };
                }
                match remove_dir_all(&dir) {
                    Ok(_) => pb::RegisterResponse { success: true, error: None },
                    Err(e) => {
                        let mut msg = String::from_str("Could not clear directory: ");
                        msg.append(e.as_str());
                        proof {
                            assert(msg@ == "Could not clear directory: "@ + e@);
                        }
                        pb::RegisterResponse { success: true, error: Some(msg) }
                    },
                }
            },
            None => pb::RegisterResponse { success: false, error: Some(not_exist_message(&name)) },
        }
    }

    /// Applies a content update: stores the blob, recomputes its digest,
    /// and lets the named project verify and extract it, all under
    /// exclusive access; persists on success. A storage failure aborts the
    /// request; every rejection is reported in the response.
    pub fn update_project(&self, request: pb::ProjectUpdate) -> (r: Result<pb::UpdateResponse, String>)
        ensures
            r matches Ok(resp) ==> {
                &&& resp.project@ == request.name@
                &&& resp.hash@ == request.hash@
                &&& (resp.success ==> resp.error is None)
                &&& (!resp.success ==> resp.error is Some)
            },
    {
        let pb::ProjectUpdate { name, hash, blob } = request;
        let (mut state, handle) = self.projects.acquire_write();
        let response = match state.find(&name) {
            None => Ok(pb::UpdateResponse {
                project: name.clone(),
                hash: hash.clone(),
                success: false,
                error: Some(not_exist_message(&name)),
            }),
            Some(_) => {
                match ZipFile::from_contents(blob, &self.zip_cache_dir) {
                    Err(e) => {
                        let mut msg = String::from_str(
                            "Error occurred while trying to write blob to file: ",
                        );
                        msg.append(e.as_str());
                        Err(msg)
                    },
                    Ok(zipfile) => {
                        let outcome = state.update(&name, zipfile, hash.clone(), &self.base_dir);
                        match outcome {
                            Ok(_) => {
                                let _ = self.flush_state(&state);
                                Ok(pb::UpdateResponse {
                                    project: name.clone(),
                                    hash: hash.clone(),
                                    success: true,
                                    error: None,
                                })
                            },
                            Err(RegistryUpdateError::NotFound) => Ok(pb::UpdateResponse {
                                project: name.clone(),
                                hash: hash.clone(),
                                success: false,
                                error: Some(not_exist_message(&name)),
                            }),
                            Err(RegistryUpdateError::Rejected(e)) => Ok(pb::UpdateResponse {
                                project: name.clone(),
                                hash: hash.clone(),
                                success: false,
                                error: Some(e.message(&name)),
                            }),
                        }
                    },
                }
            },
        };
        handle.release_write(state);
        response
    }

    /// The intentionally-unimplemented incremental update: always rejected.
    pub fn increment_project(&self, request: pb::ProjectIncrement) -> (r: Result<
        pb::UpdateResponse,
        String,
    >)
        ensures
            r matches Err(e) && e@ == "Not yet implemented!"@,
    {
        let _ = request;
        Err(String::from_str("Not yet implemented!"))
    }

    /// Runs the named project's tests through the given capsule, under
    /// shared (read) access: execution does not mutate registry state. The
    /// timestamp is captured once, before execution begins.
    pub fn run_tests<C: Capsule>(
        &self,
        request: pb::ProjectIdentifier,
        capsule: C,
        args: C::Args,
    ) -> (r: Result<pb::TestResults, String>)
        requires
            !capsule.encapsulated(),
        ensures
            r matches Ok(res) ==> res.name@ == request.name@,
    {
        let name = request.name;
        let timestamp = now_timestamp();
        let read_handle = self.projects.acquire_read();
        let state = read_handle.borrow();
        let outcome = match state.get(&name) {
            None => {
                let mut msg = not_exist_message(&name);
                msg.append("!");
                Err(msg)
            },
            Some(project) => {
                let mut ident = project.get_name_string().clone();
                ident.append("-");
                ident.append(timestamp.as_str());
                match project.execute_all_tests(&self.base_dir, ident, args, capsule) {
                    Err(e) => {
                        let mut msg = String::from_str("Error occurred while running test: ");
                        let detail = e.message();
                        msg.append(detail.as_str());
                        Err(msg)
                    },
                    Ok(outputs) => {
                        proof {
                            crate::registry::lemma_name_index(state@, name@);
                        }
                        let (pname, phash) = project.get_tuple();
                        let mut results: Vec<pb::TestResult> = Vec::new();
                        let mut outputs = outputs;
                        let ghost outs0 = outputs@;
                        while outputs.len() > 0
                            invariant
                                results@.len() + outputs@.len() == outs0.len(),
                                outputs@ =~= outs0.skip(results@.len() as int),
                                forall|j: int|
                                    0 <= j < results@.len() ==> {
                                        &&& (#[trigger] results@[j]).command@ == outs0[j].0@
                                        &&& results@[j].success == (outs0[j].1 == Some(0i32))
                                    },
                            decreases outputs@.len(),
                        {
                            let ghost k = results@.len() as int;
                            let out = outputs.remove(0);
                            proof {
                                assert(out == outs0[k]);
                            }
                            results.push(pb::TestResult::from_output(out));
                            proof {
                                assert(outputs@ =~= outs0.skip(results@.len() as int));
                            }
                        }
                        Ok(pb::TestResults {
                            name: pname,
                            hash: phash,
                            timestamp,
                            results,
                        })
                    },
                }
            },
        };
        read_handle.release_read();
        outcome
    }
}

} // verus!
