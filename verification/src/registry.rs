//! The project registry: the mapping from project name to project entity.
//!
//! Names are unique; insertion fails on an existing name, removal and update
//! fail on an unknown one. The registry serializes to a snapshot exactly as
//! the codec describes, so a persisted registry loads back unchanged.

use vstd::prelude::*;
use vstd::string::*;

use crate::archive::ZipFile;
use crate::codec::lemma_ser_projects_snoc;
use crate::codec::ser_count_push;
use crate::codec::ser_projects;
use crate::codec::ser_registry;
use crate::project::ProjectView;
use crate::project::TestProject;
use crate::project::UpdateError;

verus! {

/// Why a registry mutation was rejected.
#[derive(Debug)]
pub enum RegistryError {
    /// A project with that name is already registered.
    DuplicateName,
    /// No project with that name is registered.
    NotFound,
}

/// Why a registry-level update failed.
#[derive(Debug)]
pub enum RegistryUpdateError {
    /// No project with that name is registered.
    NotFound,
    /// The project rejected the update, or extraction failed.
    Rejected(UpdateError),
}

/// The position of the first project with the given name, or `-1`.
pub open spec fn name_index(ps: Seq<ProjectView>, name: Seq<char>) -> int
    decreases ps.len(),
{
    if ps.len() == 0 {
        -1
    } else if ps[0].name == name {
        0
    } else {
        let r = name_index(ps.drop_first(), name);
        if r < 0 {
            -1
        } else {
            r + 1
        }
    }
}

/// Whether some project carries the given name.
pub open spec fn contains_name(ps: Seq<ProjectView>, name: Seq<char>) -> bool {
    name_index(ps, name) >= 0
}

/// No two projects share a name.
pub open spec fn names_unique(ps: Seq<ProjectView>) -> bool {
    forall|i: int, j: int| 0 <= i < j < ps.len() ==> ps[i].name != ps[j].name
}

/// What `name_index` finds: a position in range carrying the name, and when
/// nothing is found, no position carries it.
pub proof fn lemma_name_index(ps: Seq<ProjectView>, name: Seq<char>)
    ensures
        -1 <= name_index(ps, name) < ps.len(),
        name_index(ps, name) >= 0 ==> ps[name_index(ps, name)].name == name,
        name_index(ps, name) == -1 ==> forall|j: int|
            0 <= j < ps.len() ==> (#[trigger] ps[j]).name != name,
    decreases ps.len(),
{
    if ps.len() > 0 && ps[0].name != name {
        lemma_name_index(ps.drop_first(), name);
        assert forall|j: int| 0 <= j < ps.len() && name_index(ps, name) == -1 implies (
        #[trigger] ps[j]).name != name by {
            if j > 0 {
                assert(ps.drop_first()[j - 1] == ps[j]);
            }
        }
    }
}

/// `name_index` finds the first position that carries the name.
pub proof fn lemma_name_index_first(ps: Seq<ProjectView>, name: Seq<char>, k: int)
    requires
        0 <= k < ps.len(),
        ps[k].name == name,
        forall|j: int| 0 <= j < k ==> (#[trigger] ps[j]).name != name,
    ensures
        name_index(ps, name) == k,
    decreases ps.len(),
{
    if k > 0 {
        assert(ps[0].name != name);
        lemma_name_index_first(ps.drop_first(), name, k - 1);
    }
}

/// For two different names, registration is independent: with neither name
/// registered, inserting the first (what a successful `register` does, per
/// its contract) leaves the second still absent, so registering it
/// afterwards also succeeds; the first name itself is now present, so
/// registering it a second time fails with `DuplicateName`, again by
/// `register`'s contract.
pub proof fn lemma_register_independent(s: Seq<ProjectView>, p1: ProjectView, p2: ProjectView)
    requires
        p1.name != p2.name,
        !contains_name(s, p1.name),
        !contains_name(s, p2.name),
    ensures
        !contains_name(s.push(p1), p2.name),
        contains_name(s.push(p1), p1.name),
{
    let s1 = s.push(p1);
    lemma_name_index(s, p2.name);
    lemma_name_index(s1, p1.name);
    lemma_name_index(s1, p2.name);
    assert(s1[s.len() as int] == p1);
    if name_index(s1, p1.name) == -1 {
        assert(s1[s.len() as int].name != p1.name);
    }
    if name_index(s1, p2.name) >= 0 {
        let idx = name_index(s1, p2.name);
        assert(s1[idx].name == p2.name);
        if idx < s.len() {
            assert(s[idx] == s1[idx]);
            assert(s[idx].name != p2.name);
        }
    }
}

/// The collection of registered projects, with unique names.
pub struct RegistryState {
    projects: Vec<TestProject>,
}

impl View for RegistryState {
    type V = Seq<ProjectView>;

    closed spec fn view(&self) -> Seq<ProjectView> {
        self.projects.deep_view()
    }
}

impl RegistryState {
    /// The registry's invariant: project names are unique.
    pub open spec fn wf(&self) -> bool {
        names_unique(self@)
    }

    /// An empty registry.
    pub fn new() -> (r: Self)
        ensures
            r.wf(),
            r@ == Seq::<ProjectView>::empty(),
    {
        let r = RegistryState { projects: Vec::new() };
        proof {
            assert(r@ =~= Seq::<ProjectView>::empty());
        }
        r
    }

    /// How many projects are registered.
    pub fn count(&self) -> (r: usize)
        ensures
            r == self@.len(),
    {
        self.projects.len()
    }

    /// Finds the position of the named project.
    pub fn find(&self, name: &String) -> (r: Option<usize>)
        ensures
            match r {
                Some(i) => i < self@.len() && name_index(self@, name@) == i,
                None => name_index(self@, name@) == -1,
            },
    {
        let mut k: usize = 0;
        while k < self.projects.len()
            invariant
                k <= self@.len(),
                self@.len() == self.projects@.len(),
                forall|j: int| 0 <= j < k ==> (#[trigger] self@[j]).name != name@,
            decreases self.projects.len() - k,
        {
            if self.projects[k].has_name(name) {
                proof {
                    lemma_name_index_first(self@, name@, k as int);
                }
                return Some(k);
            }
            k = k + 1;
        }
        proof {
            lemma_name_index(self@, name@);
            if name_index(self@, name@) >= 0 {
                assert(self@[name_index(self@, name@)].name == name@);
            }
        }
        None
    }

    /// Exclusive-access insert: fails if and only if the name is taken.
    pub fn register(&mut self, project: TestProject) -> (r: Result<(), RegistryError>)
        requires
            old(self).wf(),
        ensures
            final(self).wf(),
            contains_name(old(self)@, project@.name) ==> r == Err::<(), RegistryError>(
                RegistryError::DuplicateName,
            ) && final(self)@ == old(self)@,
            !contains_name(old(self)@, project@.name) ==> r is Ok && final(self)@ == old(
                self,
            )@.push(project@),
    {
        match self.find(project.get_name_string()) {
            Some(_) => Err(RegistryError::DuplicateName),
            None => {
                proof {
                    lemma_name_index(self@, project@.name);
                }
                let ghost pre = self.projects.deep_view();
                let ghost pv = project@;
                self.projects.push(project);
                proof {
                    assert(self.projects.deep_view() =~= pre.push(pv));
                }
                Ok(())
            },
        }
    }

    /// Exclusive-access remove: fails if and only if the name is unknown.
    /// On success hands the removed project back for cleanup.
    pub fn unregister(&mut self, name: &String) -> (r: Result<TestProject, RegistryError>)
        requires
            old(self).wf(),
        ensures
            final(self).wf(),
            !contains_name(old(self)@, name@) ==> r == Err::<TestProject, RegistryError>(
                RegistryError::NotFound,
            ) && final(self)@ == old(self)@,
            contains_name(old(self)@, name@) ==> {
                let i = name_index(old(self)@, name@);
                &&& r matches Ok(p) && p@ == old(self)@[i]
                &&& final(self)@ == old(self)@.remove(i)
            },
    {
        match self.find(name) {
            None => Err(RegistryError::NotFound),
            Some(i) => {
                let ghost pre = self.projects.deep_view();
                let removed = self.projects.remove(i);
                proof {
                    assert(self.projects.deep_view() =~= pre.remove(i as int));
                }
                Ok(removed)
            },
        }
    }

    /// Looks the named project up for reading.
    pub fn get(&self, name: &String) -> (r: Option<&TestProject>)
        ensures
            match r {
                Some(p) => contains_name(self@, name@) && p@ == self@[name_index(self@, name@)],
                None => !contains_name(self@, name@),
            },
    {
        match self.find(name) {
            None => None,
            Some(i) => Some(&self.projects[i]),
        }
    }

    /// Looks the named project up under exclusive access and applies a
    /// stored content update to it, leaving every other project untouched.
    pub fn update(
        &mut self,
        name: &String,
        content: ZipFile,
        claim: String,
        base_dir: &String,
    ) -> (r: Result<(), RegistryUpdateError>)
        requires
            old(self).wf(),
            content.wf(),
        ensures
            final(self).wf(),
            !contains_name(old(self)@, name@) ==> r == Err::<(), RegistryUpdateError>(
                RegistryUpdateError::NotFound,
            ),
            contains_name(old(self)@, name@) ==> {
                let i = name_index(old(self)@, name@);
                &&& (old(self)@[i].digest is Some ==> r == Err::<(), RegistryUpdateError>(
                    RegistryUpdateError::Rejected(UpdateError::AlreadyInitialized),
                ))
                &&& ((old(self)@[i].digest is None && content.spec_hash() != claim@) ==> r == Err::<
                    (),
                    RegistryUpdateError,
                >(RegistryUpdateError::Rejected(UpdateError::HashMismatch)))
                &&& (r is Ok ==> {
                    &&& old(self)@[i].digest is None
                    &&& content.spec_hash() == claim@
                    &&& final(self)@ == old(self)@.update(
                        i,
                        ProjectView { digest: Some(claim@), ..old(self)@[i] },
                    )
                })
                &&& ((old(self)@[i].digest is None && content.spec_hash() == claim@) ==> (r is Ok
                    || r matches Err(RegistryUpdateError::Rejected(UpdateError::ExtractionFailed(_)))))
            },
            !(r is Ok) ==> final(self)@ == old(self)@,
    {
        match self.find(name) {
            None => Err(RegistryUpdateError::NotFound),
            Some(i) => {
                let ghost pre = self.projects.deep_view();
                let mut project = self.projects.remove(i);
                let ghost pv = project@;
                let outcome = project.apply_update(content, claim, base_dir);
                let ghost pv2 = project@;
                self.projects.insert(i, project);
                proof {
                    assert(self.projects.deep_view() =~= pre.remove(i as int).insert(
                        i as int,
                        pv2,
                    ));
                    if pv2 == pv {
                        assert(pre.remove(i as int).insert(i as int, pv2) =~= pre);
                    }
                    assert(pre.remove(i as int).insert(i as int, pv2) =~= pre.update(i as int, pv2));
                }
                match outcome {
                    Ok(_) => Ok(()),
                    Err(e) => Err(RegistryUpdateError::Rejected(e)),
                }
            },
        }
    }

    /// Serializes the whole registry as one snapshot.
    pub fn snapshot_string(&self) -> (r: String)
        ensures
            r@ == ser_registry(self@),
    {
        let mut out = String::new();
        ser_count_push(&mut out, self.projects.len() as u64);
        let ghost base = out@;
        let ghost dv = self@;
        proof {
            assert(dv.take(0) =~= Seq::<ProjectView>::empty());
            assert(base + ser_projects(dv.take(0)) =~= base);
        }
        let mut i: usize = 0;
        while i < self.projects.len()
            invariant
                i <= self.projects.len(),
                self@.len() == self.projects@.len(),
                dv == self@,
                out@ == base + ser_projects(dv.take(i as int)),
            decreases self.projects.len() - i,
        {
            self.projects[i].push_snapshot(&mut out);
            i = i + 1;
            proof {
                assert(dv.take(i as int) =~= dv.take(i - 1).push(dv[i - 1]));
                lemma_ser_projects_snoc(dv.take(i - 1), dv[i - 1]);
                assert(out@ =~= base + ser_projects(dv.take(i as int)));
            }
        }
        proof {
            assert(dv.take(self.projects@.len() as int) =~= dv);
            assert(out@ =~= ser_registry(self@));
        }
        out
    }

    /// Bulk-inserts loaded projects, as at startup. A name seen again
    /// replaces the earlier entry, so names stay unique; loading unique
    /// names into an empty registry reproduces them exactly.
    pub fn add_projects(&mut self, projects: Vec<TestProject>)
        requires
            old(self).wf(),
        ensures
            final(self).wf(),
            (old(self)@.len() == 0 && names_unique(projects.deep_view())) ==> final(self)@
                == projects.deep_view(),
    {
        let ghost incoming = projects.deep_view();
        let ghost started_empty = self@.len() == 0 && names_unique(incoming);
        let mut rest = projects;
        let mut i: usize = 0;
        while i < rest.len()
            invariant
                i <= rest.len(),
                rest.deep_view() == incoming,
                self.wf(),
                started_empty == ((old(self)@.len() == 0) && names_unique(incoming)),
                started_empty ==> self@ == incoming.take(i as int),
            decreases rest.len() - i,
        {
            let ghost pre = self@;
            let p = rest[i].duplicate();
            proof {
                assert(p@ == incoming[i as int]);
                if started_empty {
                    assert forall|j: int| 0 <= j < pre.len() implies (#[trigger] pre[j]).name
                        != p@.name by {
                        assert(pre[j] == incoming[j]);
                    }
                    lemma_name_index(pre, p@.name);
                    if name_index(pre, p@.name) >= 0 {
                        assert(pre[name_index(pre, p@.name)].name == p@.name);
                    }
                }
            }
            match self.find(p.get_name_string()) {
                Some(k) => {
                    // replace the earlier entry under this name
                    let ghost pv = p@;
                    self.projects.set(k, p);
                    proof {
                        assert(self.projects.deep_view() =~= pre.update(k as int, pv));
                        assert forall|a: int, b: int|
                            0 <= a < b < self@.len() implies (#[trigger] self@[a]).name != (
                        #[trigger] self@[b]).name by {
                            lemma_name_index(pre, pv.name);
                        }
                    }
                },
                None => {
                    proof {
                        lemma_name_index(pre, p@.name);
                    }
                    let ghost pv = p@;
                    self.projects.push(p);
                    proof {
                        assert(self.projects.deep_view() =~= pre.push(pv));
                    }
                },
            }
            i = i + 1;
            proof {
                if started_empty {
                    assert(self@ =~= incoming.take(i as int));
                }
            }
        }
        proof {
            if started_empty {
                assert(incoming.take(rest@.len() as int) =~= incoming);
            }
        }
    }
}

} // verus!
