//! The project entity: a named, registered test suite, its command list, and
//! its content state. Content moves from uninitialized to committed exactly
//! once, through a digest-verified update.

use vstd::prelude::*;
use vstd::string::*;

use crate::archive::ZipFile;
use crate::codec::lemma_ser_strings_snoc;
use crate::codec::lemma_ser_word_lists_snoc;
use crate::codec::ser_count_push;
use crate::codec::ser_project;
use crate::codec::ser_string_list;
use crate::codec::ser_strings;
use crate::codec::ser_string_push;
use crate::codec::ser_word_lists;
use crate::capsule::Capsule;
use crate::capsule::CapsuleError;
use crate::pb;
use crate::words::shell_join;
use crate::words::shell_join_of;
use crate::words::shell_split;
use crate::words::shell_split_of;

verus! {

/// The output of one executed test command: the command as displayed, the
/// exit code if the process reported one, and the captured output streams.
pub type TestOutput = (String, Option<i32>, Vec<u8>, Vec<u8>);

impl pb::TestResult {
    /// Success is derived, not stored: an exit code was reported and it
    /// was zero.
    pub fn from_output(t: TestOutput) -> (r: Self)
        ensures
            r.command@ == t.0@,
            r.stdout@ == t.2@,
            r.stderr@ == t.3@,
            r.success == (t.1 == Some(0i32)),
    {
        let (cmd, code, stdout, stderr) = t;
        let success = match code {
            Some(c) => c == 0,
            None => false,
        };
        pb::TestResult { command: cmd, stdout, stderr, success }
    }
}

/// Why a content update was rejected or failed.
#[derive(Debug)]
pub enum UpdateError {
    /// The project has already committed content; there is no overwrite path.
    AlreadyInitialized,
    /// The digest recomputed over the stored bytes differs from the claim.
    HashMismatch,
    /// The archive could not be unpacked; the project state is unchanged.
    ExtractionFailed(String),
}

/// The text a rejected update reports for a project with the given name.
pub open spec fn update_error_message_of(e: UpdateError, name: Seq<char>) -> Seq<char> {
    match e {
        UpdateError::AlreadyInitialized => "Project '"@ + name
            + "' can not apply update, as it is in an unsuitable state"@,
        UpdateError::HashMismatch => "Hashsum mismatch"@,
        UpdateError::ExtractionFailed(detail) => "Could not extract zip archive: "@ + detail@,
    }
}

impl UpdateError {
    /// Renders the rejection for the named project, as
    /// `update_error_message_of` describes.
    pub fn message(&self, name: &String) -> (r: String)
        ensures
            r@ == update_error_message_of(*self, name@),
    {
        match self {
            UpdateError::AlreadyInitialized => {
                let mut out = String::from_str("Project '");
                out.append(name.as_str());
                out.append("' can not apply update, as it is in an unsuitable state");
                out
            },
            UpdateError::HashMismatch => String::from_str("Hashsum mismatch"),
            UpdateError::ExtractionFailed(detail) => {
                let mut out = String::from_str("Could not extract zip archive: ");
                out.append(detail.as_str());
                out
            },
        }
    }
}

/// Mathematical model of a project: its name, its test command words, and
/// the committed content digest, if any.
pub ghost struct ProjectView {
    pub name: Seq<char>,
    pub tests: Seq<Seq<Seq<char>>>,
    pub digest: Option<Seq<char>>,
}

/// A named, registered test suite. The name and the test list are immutable
/// after creation; the content digest is set at most once.
pub struct TestProject {
    name: String,
    tests: Vec<Vec<String>>,
    hash: Option<String>,
}

impl View for TestProject {
    type V = ProjectView;

    closed spec fn view(&self) -> ProjectView {
        ProjectView {
            name: self.name@,
            tests: self.tests.deep_view(),
            digest: match self.hash {
                Some(h) => Some(h@),
                None => None,
            },
        }
    }
}

impl DeepView for TestProject {
    type V = ProjectView;

    open spec fn deep_view(&self) -> ProjectView {
        self.view()
    }
}

impl TestProject {
    /// Reassembles an entity from its parts, as the snapshot loader needs.
    pub fn from_parts(name: String, tests: Vec<Vec<String>>, hash: Option<String>) -> (p: Self)
        ensures
            p@ == (ProjectView {
                name: name@,
                tests: tests.deep_view(),
                digest: match hash {
                    Some(h) => Some(h@),
                    None => None,
                },
            }),
    {
        TestProject { name, tests, hash }
    }

    /// Pure construction at registration time: no content committed yet.
    pub fn register(name: String, tests: Vec<Vec<String>>) -> (p: Self)
        ensures
            p@.name == name@,
            p@.tests == tests.deep_view(),
            p@.digest is None,
    {
        TestProject { name, tests, hash: None }
    }

    /// Whether content has been committed.
    pub open spec fn is_initialized(&self) -> bool {
        self@.digest is Some
    }

    /// Whether this project carries the given name.
    pub fn has_name(&self, name: &String) -> (r: bool)
        ensures
            r == (self@.name == name@),
    {
        self.name == *name
    }

    /// The project's name as an owned-string reference.
    pub fn get_name_string(&self) -> (r: &String)
        ensures
            r@ == self@.name,
    {
        &self.name
    }

    /// A field-for-field copy.
    pub fn duplicate(&self) -> (r: Self)
        ensures
            r@ == self@,
    {
        let name = self.name.clone();
        let mut tests: Vec<Vec<String>> = Vec::new();
        let mut i: usize = 0;
        while i < self.tests.len()
            invariant
                i <= self.tests.len(),
                tests.deep_view() =~= self.tests.deep_view().take(i as int),
            decreases self.tests.len() - i,
        {
            let src: &Vec<String> = &self.tests[i];
            let mut words: Vec<String> = Vec::new();
            let mut j: usize = 0;
            while j < src.len()
                invariant
                    j <= src.len(),
                    words.deep_view() =~= src.deep_view().take(j as int),
                decreases src.len() - j,
            {
                let ghost wpre = words.deep_view();
                words.push(src[j].clone());
                j = j + 1;
                proof {
                    assert(words.deep_view() =~= wpre.push(src.deep_view()[j - 1]));
                    assert(words.deep_view() =~= src.deep_view().take(j as int));
                }
            }
            proof {
                assert(words.deep_view() =~= src.deep_view());
            }
            let ghost tpre = tests.deep_view();
            let ghost wdv = words.deep_view();
            tests.push(words);
            i = i + 1;
            proof {
                assert(tests.deep_view() =~= tpre.push(wdv));
                assert(tests.deep_view() =~= self.tests.deep_view().take(i as int));
            }
        }
        proof {
            assert(tests.deep_view() =~= self.tests.deep_view());
        }
        let hash = match &self.hash {
            Some(h) => Some(h.clone()),
            None => None,
        };
        TestProject { name, tests, hash }
    }

    pub fn get_name(&self) -> (r: &str)
        ensures
            r@ == self@.name,
    {
        self.name.as_str()
    }

    /// Returns name/hash tuple of this project; an uncommitted digest reads
    /// as the empty string.
    pub fn get_tuple(&self) -> (r: (String, String))
        ensures
            r.0@ == self@.name,
            r.1@ == match self@.digest {
                Some(d) => d,
                None => Seq::<char>::empty(),
            },
    {
        let name = self.name.clone();
        let hash = match &self.hash {
            Some(h) => h.clone(),
            None => String::new(),
        };
        (name, hash)
    }

    /// The directory that holds this project's extracted content.
    pub fn get_dir(&self, base_dir: &String) -> (r: String)
        ensures
            r@ == dir_of(base_dir@, self@.name),
    {
        let mut dir = base_dir.clone();
        dir.append("/");
        dir.append(self.name.as_str());
        dir
    }

    /// Applies a stored content update.
    ///
    /// Rejected outright when content was already committed, or when the
    /// digest recomputed over the stored bytes differs from the claim; the
    /// archive is then unpacked under this project's directory, and only
    /// after that succeeds is the digest committed. No failure path changes
    /// the project.
    pub fn apply_update(&mut self, content: ZipFile, hash: String, base_dir: &String) -> (r:
        Result<(), UpdateError>)
        requires
            content.wf(),
        ensures
            old(self)@.digest is Some ==> r == Err::<(), UpdateError>(
                UpdateError::AlreadyInitialized,
            ),
            (old(self)@.digest is None && content.spec_hash() != hash@) ==> r == Err::<
                (),
                UpdateError,
            >(UpdateError::HashMismatch),
            r is Ok ==> {
                &&& old(self)@.digest is None
                &&& content.spec_hash() == hash@
                &&& final(self)@ == (ProjectView { digest: Some(hash@), ..old(self)@ })
            },
            !(r is Ok) ==> final(self)@ == old(self)@,
            (old(self)@.digest is None && content.spec_hash() == hash@) ==> (r is Ok || r matches
                Err(UpdateError::ExtractionFailed(_))),
    {
        if self.hash.is_some() {
            return Err(UpdateError::AlreadyInitialized);
        }
        if !content.compare_hash(&hash) {
            return Err(UpdateError::HashMismatch);
        }
        let dir = self.get_dir(base_dir);
        match content.extract_into(&dir) {
            Ok(_) => {
                self.hash = Some(hash);
                Ok(())
            },
            Err(e) => Err(UpdateError::ExtractionFailed(e)),
        }
    }

    /// Turns a wire-form project into an entity. Each configured test is one
    /// command line, split into words by posix shell rules; a malformed line
    /// is kept as an empty command (it can never launch), rather than
    /// rejecting the whole project.
    pub fn from_wire(project: pb::Project) -> (r: Self)
        ensures
            r@.name == project.name@,
            r@.digest is None,
            r@.tests.len() == project.tests.deep_view().len(),
            forall|i: int|
                0 <= i < r@.tests.len() ==> r@.tests[i] == match shell_split_of(
                    project.tests.deep_view()[i],
                ) {
                    Some(ws) => ws,
                    None => Seq::<Seq<char>>::empty(),
                },
    {
        let mut tests: Vec<Vec<String>> = Vec::new();
        let mut i: usize = 0;
        while i < project.tests.len()
            invariant
                i <= project.tests.len(),
                tests.deep_view().len() == i,
                forall|j: int|
                    0 <= j < i ==> tests.deep_view()[j] == match shell_split_of(
                        project.tests.deep_view()[j],
                    ) {
                        Some(ws) => ws,
                        None => Seq::<Seq<char>>::empty(),
                    },
            decreases project.tests.len() - i,
        {
            let line: &String = &project.tests[i];
            let words = match shell_split(line.as_str()) {
                Some(ws) => ws,
                None => Vec::new(),
            };
            let ghost pre = tests.deep_view();
            let ghost new_words = words.deep_view();
            tests.push(words);
            i = i + 1;
            proof {
                assert(tests.deep_view() =~= pre.push(new_words));
                assert(new_words =~= match shell_split_of(project.tests.deep_view()[i - 1]) {
                    Some(ws) => ws,
                    None => Seq::<Seq<char>>::empty(),
                });
            }
        }
        TestProject { name: project.name, tests, hash: None }
    }

    /// Renders the entity back into wire form, joining each command's words
    /// into a single shell-quoted line.
    pub fn to_wire(self) -> (r: pb::Project)
        ensures
            r.name@ == self@.name,
            r.tests.deep_view().len() == self@.tests.len(),
            forall|i: int|
                0 <= i < self@.tests.len() ==> r.tests.deep_view()[i] == shell_join_of(
                    self@.tests[i],
                ),
            forall|i: int|
                0 <= i < self@.tests.len() ==> shell_split_of(#[trigger] r.tests.deep_view()[i])
                    == Some(self@.tests[i]),
    {
        let mut tests: Vec<String> = Vec::new();
        let mut i: usize = 0;
        while i < self.tests.len()
            invariant
                i <= self.tests.len(),
                tests.deep_view().len() == i,
                forall|j: int|
                    0 <= j < i ==> tests.deep_view()[j] == shell_join_of(self.tests.deep_view()[j]),
                forall|j: int|
                    0 <= j < i ==> shell_split_of(#[trigger] tests.deep_view()[j]) == Some(
                        self.tests.deep_view()[j],
                    ),
            decreases self.tests.len() - i,
        {
            let joined = shell_join(&self.tests[i]);
            let ghost pre = tests.deep_view();
            tests.push(joined);
            i = i + 1;
            proof {
                assert(tests.deep_view() =~= pre.push(joined@));
            }
        }
        pb::Project { name: self.name, tests }
    }
}

/// Why a test run failed as a whole. A test command that launches and exits
/// nonzero is not an error: it is recorded as an unsuccessful outcome.
#[derive(Debug)]
pub enum ExecError {
    /// The project has no committed content; no capsule operation is made.
    NotInitialized,
    /// A configured command is empty, so it can never be launched.
    EmptyCommand,
    /// A capsule operation was rejected or failed.
    Capsule(CapsuleError),
}

/// The fixed text for each run-level failure; a capsule failure reports its
/// own text.
pub open spec fn exec_error_message_of(e: ExecError) -> Seq<char> {
    match e {
        ExecError::NotInitialized => "project is not initialized"@,
        ExecError::EmptyCommand => "test command is empty"@,
        ExecError::Capsule(c) => c.0@,
    }
}

impl ExecError {
    /// Renders the failure, as `exec_error_message_of` describes.
    pub fn message(&self) -> (r: String)
        ensures
            r@ == exec_error_message_of(*self),
    {
        match self {
            ExecError::NotInitialized => String::from_str("project is not initialized"),
            ExecError::EmptyCommand => String::from_str("test command is empty"),
            ExecError::Capsule(c) => c.0.clone(),
        }
    }
}

impl TestProject {
    /// Runs every configured test, in declaration order, sequentially,
    /// through one fresh capsule: the capsule is encapsulated once over the
    /// project's directory, each command runs inside it, and the capsule is
    /// discarded on every path out, success or failure. A command that
    /// cannot be launched aborts the whole run; an uninitialized project is
    /// rejected before any capsule operation is made.
    pub fn execute_all_tests<C: Capsule>(
        &self,
        base_dir: &String,
        ident: String,
        args: C::Args,
        capsule: C,
    ) -> (r: Result<Vec<TestOutput>, ExecError>)
        requires
            !capsule.encapsulated(),
        ensures
            !self.is_initialized() <==> (r == Err::<Vec<TestOutput>, ExecError>(
                ExecError::NotInitialized,
            )),
            r matches Ok(outs) ==> {
                &&& outs@.len() == self@.tests.len()
                &&& forall|i: int|
                    0 <= i < outs@.len() ==> (#[trigger] outs@[i]).0@ == C::cmd_display(
                        self@.tests[i],
                    )
                &&& forall|i: int| 0 <= i < self@.tests.len() ==> (#[trigger] self@.tests[i]).len() > 0
            },
            r == Err::<Vec<TestOutput>, ExecError>(ExecError::EmptyCommand) ==> exists|i: int|
                0 <= i < self@.tests.len() && (#[trigger] self@.tests[i]).len() == 0,
    {
        if self.hash.is_none() {
            return Err(ExecError::NotInitialized);
        }
        let dir = self.get_dir(base_dir);
        let mut capsule = capsule;
        match capsule.encapsulate(ident, &dir, args) {
            Ok(_) => {},
            Err(e) => {
                let _ = capsule.discard();
                return Err(ExecError::Capsule(e));
            },
        }
        let mut results: Vec<TestOutput> = Vec::new();
        let mut i: usize = 0;
        while i < self.tests.len()
            invariant
                i <= self.tests.len(),
                capsule.encapsulated(),
                self@.digest is Some,
                results@.len() == i,
                forall|j: int|
                    0 <= j < i ==> (#[trigger] results@[j]).0@ == C::cmd_display(self@.tests[j]),
                forall|j: int| 0 <= j < i ==> (#[trigger] self@.tests[j]).len() > 0,
            decreases self.tests.len() - i,
        {
            let test: &Vec<String> = &self.tests[i];
            if test.len() == 0 {
                let _ = capsule.discard();
                proof {
                    assert(self@.tests[i as int].len() == 0);
                }
                return Err(ExecError::EmptyCommand);
            }
            proof {
                assert(test.deep_view() == self@.tests[i as int]);
            }
            match capsule.run_test(test) {
                Ok(out) => {
                    results.push(out);
                },
                Err(e) => {
                    let _ = capsule.discard();
                    return Err(ExecError::Capsule(e));
                },
            }
            i = i + 1;
        }
        match capsule.discard() {
            Ok(_) => Ok(results),
            Err(e) => Err(ExecError::Capsule(e)),
        }
    }
}

/// Appends one serialized word list to a snapshot under construction.
fn push_word_list(out: &mut String, words: &Vec<String>)
    ensures
        final(out)@ == old(out)@ + ser_string_list(words.deep_view()),
{
    ser_count_push(out, words.len() as u64);
    let ghost base = out@;
    let ghost dv = words.deep_view();
    proof {
        assert(dv.take(0) =~= Seq::<Seq<char>>::empty());
        assert(base + ser_strings(dv.take(0)) =~= base);
    }
    let mut i: usize = 0;
    while i < words.len()
        invariant
            i <= words.len(),
            dv == words.deep_view(),
            out@ == base + ser_strings(dv.take(i as int)),
        decreases words.len() - i,
    {
        let w: &String = &words[i];
        ser_string_push(out, w.as_str());
        i = i + 1;
        proof {
            assert(dv.take(i as int) =~= dv.take(i - 1).push(dv[i - 1]));
            lemma_ser_strings_snoc(dv.take(i - 1), dv[i - 1]);
            assert(out@ =~= base + ser_strings(dv.take(i as int)));
        }
    }
    proof {
        assert(dv.take(words.len() as int) =~= dv);
        assert(out@ =~= old(out)@ + ser_string_list(dv));
    }
}

impl TestProject {
    /// Appends this project's serialized record to a snapshot under
    /// construction.
    pub fn push_snapshot(&self, out: &mut String)
        ensures
            final(out)@ == old(out)@ + ser_project(self@),
    {
        ser_string_push(out, self.name.as_str());
        ser_count_push(out, self.tests.len() as u64);
        let ghost base = out@;
        let ghost dv = self.tests.deep_view();
        proof {
            assert(dv.take(0) =~= Seq::<Seq<Seq<char>>>::empty());
            assert(base + ser_word_lists(dv.take(0)) =~= base);
        }
        let mut i: usize = 0;
        while i < self.tests.len()
            invariant
                i <= self.tests.len(),
                dv == self.tests.deep_view(),
                out@ == base + ser_word_lists(dv.take(i as int)),
            decreases self.tests.len() - i,
        {
            push_word_list(out, &self.tests[i]);
            i = i + 1;
            proof {
                assert(dv.take(i as int) =~= dv.take(i - 1).push(dv[i - 1]));
                lemma_ser_word_lists_snoc(dv.take(i - 1), dv[i - 1]);
                assert(out@ =~= base + ser_word_lists(dv.take(i as int)));
            }
        }
        proof {
            assert(dv.take(self.tests.len() as int) =~= dv);
        }
        match &self.hash {
            None => {
                out.append("N");
            },
            Some(h) => {
                out.append("S");
                ser_string_push(out, h.as_str());
            },
        }
        proof {
            assert(out@ =~= old(out)@ + ser_project(self@));
        }
    }
}

/// An update applies exactly once: a freshly registered project carries no
/// digest, so it passes `apply_update`'s state gate; the project a
/// successful update leaves behind carries one, so by `apply_update`'s
/// contract every further update -- whatever digest it claims -- returns
/// `AlreadyInitialized` and leaves the project unchanged. Name and test
/// list survive the commit untouched.
pub proof fn lemma_update_applies_once(before: ProjectView, claimed: Seq<char>)
    requires
        before.digest is None,
    ensures
        ({
            let after = ProjectView { digest: Some(claimed), ..before };
            &&& after.digest is Some
            &&& after.name == before.name
            &&& after.tests == before.tests
        }),
{
}

/// The project directory under a base directory.
pub open spec fn dir_of(base_dir: Seq<char>, name: Seq<char>) -> Seq<char> {
    base_dir + "/"@ + name
}

} // verus!
