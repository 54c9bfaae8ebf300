//! Execution capsules: the polymorphic boundary a test run executes behind.
//!
//! A capsule is a single-use session object. Its lifecycle is
//! uninitialized, then encapsulated (after a successful `encapsulate`), then
//! consumed by `discard`. `run_test` is honoured only while encapsulated and
//! is rejected otherwise; `discard` takes the capsule by value, so no state
//! after it exists by construction.

use vstd::prelude::*;
use vstd::string::*;

use crate::codec::digits_of;
use crate::codec::u64_to_string;
use crate::project::TestOutput;
use crate::words::join_spaces;
use crate::words::join_spaces_of;
use crate::words::shell_join;
use crate::words::shell_join_of;

verus! {

/// A sandbox-management or execution-environment failure.
#[derive(Debug)]
pub struct CapsuleError(pub String);

/// Relies on `tokio::process::Command` (`current_dir`, `args`, `output`),
/// driven to completion on a local runtime: runs one command in a working
/// directory with no stdin attached, capturing exit code and both output
/// streams. The outcome depends on the machine, so nothing is promised of it.
#[verifier::external_body]
fn run_in_dir(cmd: &Vec<String>, dir: &String) -> (r: Result<(Option<i32>, Vec<u8>, Vec<u8>), String>)
    requires
        cmd@.len() > 0,
{
    let rt = match tokio::runtime::Builder::new_current_thread().enable_all().build() {
        Ok(rt) => rt,
        Err(e) => return Err(e.to_string()),
    };
    let guard = rt.enter();
    let fut = tokio::process::Command::new(&cmd[0]).current_dir(dir.as_str()).args(&cmd[1..]).output();
    drop(guard);
    let out = rt.block_on(fut).map_err(|e| e.to_string())?;
    Ok((out.status.code(), out.stdout, out.stderr))
}

/// Relies on `tokio::process::Command` (`args`, `output`), driven to
/// completion on a local runtime: runs one program with arguments in the
/// server's own working directory, no stdin attached. The outcome depends on
/// the machine, so nothing is promised of it.
#[verifier::external_body]
fn run_cmd(program: &String, args: &Vec<String>) -> (r: Result<(Option<i32>, Vec<u8>, Vec<u8>), String>)
{
    let rt = match tokio::runtime::Builder::new_current_thread().enable_all().build() {
        Ok(rt) => rt,
        Err(e) => return Err(e.to_string()),
    };
    let guard = rt.enter();
    let fut = tokio::process::Command::new(program.as_str()).args(args.as_slice()).output();
    drop(guard);
    let out = rt.block_on(fut).map_err(|e| e.to_string())?;
    Ok((out.status.code(), out.stdout, out.stderr))
}

/// Provides a separate environment for tests to be run in.
pub trait Capsule: Sized {
    /// Backend-specific configuration handed to `encapsulate`.
    type Args;

    /// Whether the capsule has been provisioned and not torn down.
    spec fn encapsulated(&self) -> bool;

    /// How this backend records a command vector in a test outcome.
    spec fn cmd_display(cmd: Seq<Seq<char>>) -> Seq<char>;

    /// Provisions the environment and makes `dir`'s contents available in
    /// it. Called exactly once, first. If provisioning fails partway, the
    /// backend tears down whatever it had provisioned before returning, so
    /// a failed capsule never holds resources.
    fn encapsulate(&mut self, ident: String, dir: &String, args: Self::Args) -> (r: Result<
        (),
        CapsuleError,
    >)
        requires
            !old(self).encapsulated(),
        ensures
            r is Ok ==> final(self).encapsulated(),
            r is Err ==> !final(self).encapsulated(),
    ;

    /// Executes one command inside the environment. Rejected whenever the
    /// capsule is not encapsulated. The process outcome itself depends on
    /// the machine; only the reported command text is pinned down.
    fn run_test(&self, cmd: &Vec<String>) -> (r: Result<TestOutput, CapsuleError>)
        requires
            cmd@.len() > 0,
        ensures
            !self.encapsulated() ==> r is Err,
            r matches Ok(t) ==> t.0@ == Self::cmd_display(cmd.deep_view()),
    ;

    /// Releases everything `encapsulate` acquired. Consumes the capsule, so
    /// it cannot be used afterward by construction; on a capsule that holds
    /// no resources it is a harmless no-op.
    fn discard(self) -> (r: Result<(), CapsuleError>)
        ensures
            !self.encapsulated() ==> r is Ok,
    ;
}

/// Transparent capsule, same execution as if without: commands run as direct
/// child processes of the server in the recorded directory. For trusted,
/// same-host execution.
pub struct TransparentCapsule {
    dir: Option<String>,
}

impl TransparentCapsule {
    /// A capsule with nothing recorded yet.
    pub fn new() -> (r: Self)
        ensures
            !r.encapsulated(),
    {
        TransparentCapsule { dir: None }
    }

    /// The directory recorded for execution, if any.
    pub closed spec fn spec_dir(&self) -> Option<Seq<char>> {
        match self.dir {
            Some(d) => Some(d@),
            None => None,
        }
    }
}

impl Capsule for TransparentCapsule {
    type Args = ();

    closed spec fn encapsulated(&self) -> bool {
        self.dir is Some
    }

    open spec fn cmd_display(cmd: Seq<Seq<char>>) -> Seq<char> {
        shell_join_of(cmd)
    }

    /// No isolation to set up: only records the target directory, which
    /// later `run_test` calls use as the working directory. Always succeeds.
    fn encapsulate(&mut self, ident: String, dir: &String, args: ()) -> (r: Result<
        (),
        CapsuleError,
    >)
        ensures
            r is Ok,
            final(self).spec_dir() == Some(dir@),
    {
        self.dir = Some(dir.clone());
        Ok(())
    }

    fn run_test(&self, cmd: &Vec<String>) -> (r: Result<TestOutput, CapsuleError>) {
        match &self.dir {
            Some(dir) => match run_in_dir(cmd, dir) {
                Ok((code, stdout, stderr)) => Ok((shell_join(cmd), code, stdout, stderr)),
                Err(e) => Err(CapsuleError(e)),
            },
            None => Err(CapsuleError(String::from_str("Directory not found"))),
        }
    }

    /// Nothing to discard: always succeeds.
    fn discard(self) -> (r: Result<(), CapsuleError>)
        ensures
            r is Ok,
    {
        Ok(())
    }
}

/// The argument strings a pod configuration contributes to the sandbox
/// creation command.
pub open spec fn pod_args_of(image: Option<Seq<char>>, ports: Option<Seq<u16>>) -> Seq<Seq<char>> {
    (match image {
        None => Seq::<Seq<char>>::empty(),
        Some(im) => seq!["--image="@ + im],
    }) + (match ports {
        None => Seq::<Seq<char>>::empty(),
        Some(ps) => Seq::new(ps.len(), |i: int| "--port="@ + digits_of(ps[i] as nat)),
    })
}

/// Configuration for the pods the sandbox backend creates. When two layers
/// of configuration are merged, the later layer's values win.
pub struct PodOptions {
    /// image used by pods
    image: Option<String>,
    /// ports to expose
    ports: Option<Vec<u16>>,
}

impl Default for PodOptions {
    /// No image, no ports.
    fn default() -> (r: Self)
        ensures
            r.spec_image() is None,
            r.spec_ports() is None,
    {
        PodOptions { image: None, ports: None }
    }
}

impl PodOptions {
    /// The configured image, if any.
    pub closed spec fn spec_image(&self) -> Option<Seq<char>> {
        match self.image {
            Some(im) => Some(im@),
            None => None,
        }
    }

    /// The configured ports, if any.
    pub closed spec fn spec_ports(&self) -> Option<Seq<u16>> {
        match self.ports {
            Some(ps) => Some(ps@),
            None => None,
        }
    }

    /// Sets the pod image.
    pub fn set_image(&mut self, value: String)
        ensures
            final(self).spec_image() == Some(value@),
            final(self).spec_ports() == old(self).spec_ports(),
    {
        self.image = Some(value);
    }

    /// Sets the exposed ports.
    pub fn set_ports(&mut self, value: Vec<u16>)
        ensures
            final(self).spec_ports() == Some(value@),
            final(self).spec_image() == old(self).spec_image(),
    {
        self.ports = Some(value);
    }

    /// Options holding only an image.
    pub fn image(value: String) -> (r: Self)
        ensures
            r.spec_image() == Some(value@),
            r.spec_ports() is None,
    {
        PodOptions { image: Some(value), ports: None }
    }

    /// Options holding only ports.
    pub fn ports(value: Vec<u16>) -> (r: Self)
        ensures
            r.spec_ports() == Some(value@),
            r.spec_image() is None,
    {
        PodOptions { image: None, ports: Some(value) }
    }

    /// A field-for-field copy.
    pub fn duplicate(&self) -> (r: Self)
        ensures
            r.spec_image() == self.spec_image(),
            r.spec_ports() == self.spec_ports(),
    {
        let image = match &self.image {
            Some(im) => Some(im.clone()),
            None => None,
        };
        let ports = match &self.ports {
            Some(ps) => {
                let mut copy: Vec<u16> = Vec::new();
                let mut i: usize = 0;
                while i < ps.len()
                    invariant
                        i <= ps.len(),
                        copy@ =~= ps@.take(i as int),
                    decreases ps.len() - i,
                {
                    copy.push(ps[i]);
                    i = i + 1;
                }
                proof {
                    assert(copy@ =~= ps@);
                }
                Some(copy)
            },
            None => None,
        };
        PodOptions { image, ports }
    }

    /// Merge other instance of `PodOptions` into this one (the other one has
    /// preference).
    pub fn merge(&mut self, other: &Self)
        ensures
            final(self).spec_image() == if other.spec_image() is Some {
                other.spec_image()
            } else {
                old(self).spec_image()
            },
            final(self).spec_ports() == if other.spec_ports() is Some {
                other.spec_ports()
            } else {
                old(self).spec_ports()
            },
    {
        match &other.image {
            Some(im) => {
                self.set_image(im.clone());
            },
            None => {},
        }
        match &other.ports {
            Some(ps) => {
                let mut copy: Vec<u16> = Vec::new();
                let mut i: usize = 0;
                while i < ps.len()
                    invariant
                        i <= ps.len(),
                        copy@ =~= ps@.take(i as int),
                    decreases ps.len() - i,
                {
                    copy.push(ps[i]);
                    i = i + 1;
                }
                proof {
                    assert(copy@ =~= ps@);
                }
                self.set_ports(copy);
            },
            None => {},
        }
    }

    /// Print options as strings for use as sandbox-tool options.
    pub fn as_args_str(&self) -> (r: Vec<String>)
        ensures
            r.deep_view() == pod_args_of(self.spec_image(), self.spec_ports()),
    {
        let mut args: Vec<String> = Vec::new();
        match &self.image {
            Some(image) => {
                let mut arg = String::from_str("--image=");
                arg.append(image.as_str());
                args.push(arg);
            },
            None => {},
        }
        match &self.ports {
            Some(ports) => {
                let ghost prefix = args.deep_view();
                let mut i: usize = 0;
                while i < ports.len()
                    invariant
                        i <= ports.len(),
                        args.deep_view() =~= prefix + Seq::new(
                            i as nat,
                            |k: int| "--port="@ + digits_of(ports@[k] as nat),
                        ),
                    decreases ports.len() - i,
                {
                    let mut arg = String::from_str("--port=");
                    let rendered = u64_to_string(ports[i] as u64);
                    arg.append(rendered.as_str());
                    let ghost pre = args.deep_view();
                    args.push(arg);
                    i = i + 1;
                    proof {
                        assert(args.deep_view() =~= pre.push(arg@));
                        assert(args.deep_view() =~= prefix + Seq::new(
                            i as nat,
                            |k: int| "--port="@ + digits_of(ports@[k] as nat),
                        ));
                    }
                }
                proof {
                    assert(args.deep_view() =~= pod_args_of(self.spec_image(), self.spec_ports()));
                }
            },
            None => {
                proof {
                    assert(args.deep_view() =~= pod_args_of(self.spec_image(), self.spec_ports()));
                }
            },
        }
        args
    }
}

/// Testwise encapsulation via an ephemeral pod per test run.
///
/// Each run derives a fresh pod name from the run identity; the pod lives
/// exactly for one `encapsulate`...`discard` bracket. Every sandbox
/// operation is an external management-tool invocation whose nonzero exit
/// status is reported as a `CapsuleError`.
pub struct KubernetesCapsule {
    /// The management executable; `kubectl` when not set.
    program: Option<String>,
    /// Auth token for the cluster.
    token: String,
    /// Namespace used to start up pods.
    namespace: String,
    /// Base configuration for the pods; per-run options are merged over it.
    options: PodOptions,
    /// Identifier of the spawned pod, while one is provisioned.
    podname: Option<String>,
}

impl KubernetesCapsule {
    /// A capsule with no pod provisioned.
    pub fn new(program: Option<String>, token: String, namespace: String, options: PodOptions) -> (r:
        Self)
        ensures
            !r.encapsulated(),
    {
        KubernetesCapsule { program, token, namespace, options, podname: None }
    }

    /// The management executable this capsule invokes.
    fn program(&self) -> (r: &str)
        ensures
            r@ == match self.spec_program() {
                Some(p) => p,
                None => "kubectl"@,
            },
    {
        match &self.program {
            Some(p) => p.as_str(),
            None => "kubectl",
        }
    }

    /// The configured management executable, if any.
    pub closed spec fn spec_program(&self) -> Option<Seq<char>> {
        match self.program {
            Some(p) => Some(p@),
            None => None,
        }
    }

    /// The identity of the provisioned pod, while one is held.
    pub closed spec fn spec_podname(&self) -> Option<Seq<char>> {
        match self.podname {
            Some(p) => Some(p@),
            None => None,
        }
    }

    /// Runs one management command, capturing its outcome.
    fn kube_cmd(&self, args: &Vec<String>) -> (r: Result<(Option<i32>, Vec<u8>, Vec<u8>), String>) {
        let program = match &self.program {
            Some(p) => p.clone(),
            None => String::from_str("kubectl"),
        };
        run_cmd(&program, args)
    }

    /// Runs one management command where only pass/fail matters: any outcome
    /// other than a reported zero exit status is a capsule error.
    fn kube_cmd_silent(&self, args: &Vec<String>) -> (r: Result<(), CapsuleError>) {
        match self.kube_cmd(args) {
            Err(e) => Err(CapsuleError(e)),
            Ok((code, _, _)) => match code {
                Some(c) => {
                    if c == 0 {
                        Ok(())
                    } else {
                        let mut msg = String::from_str("sandbox command '");
                        let joined = join_spaces(args);
                        msg.append(joined.as_str());
                        msg.append("' returned a nonzero status");
                        Err(CapsuleError(msg))
                    }
                },
                None => Err(
                    CapsuleError(
                        String::from_str("sandbox command was terminated without a status"),
                    ),
                ),
            },
        }
    }

    /// Issues the "create sandbox unit" command for the given merged options.
    fn kube_run(&self, options: &PodOptions) -> (r: Result<(), CapsuleError>)
        requires
            self.encapsulated(),
    {
        let mut args: Vec<String> = Vec::new();
        args.push(String::from_str("run"));
        match &self.podname {
            Some(podname) => args.push(podname.clone()),
            None => {},
        }
        let mut opt_args = options.as_args_str();
        let mut i: usize = 0;
        while i < opt_args.len()
            invariant
                i <= opt_args.len(),
            decreases opt_args.len() - i,
        {
            let arg: &String = &opt_args[i];
            args.push(arg.clone());
            i = i + 1;
        }
        self.kube_cmd_silent(&args)
    }

    /// Issues the copy command between host and pod paths.
    fn kube_cp(&self, src: String, dest: String, to_pod: bool) -> (r: Result<(), CapsuleError>)
        requires
            self.encapsulated(),
    {
        let podname = match &self.podname {
            Some(p) => p.clone(),
            None => String::new(),
        };
        let mut args: Vec<String> = Vec::new();
        args.push(String::from_str("cp"));
        if to_pod {
            args.push(src);
            let mut target = podname;
            target.append(":");
            target.append(dest.as_str());
            args.push(target);
        } else {
            let mut source = podname;
            source.append(":");
            source.append(src.as_str());
            args.push(source);
            args.push(dest);
        }
        self.kube_cmd_silent(&args)
    }

    /// Issues the remote-exec command for one test command vector.
    fn kube_exec(&self, p_args: &Vec<String>) -> (r: Result<(Option<i32>, Vec<u8>, Vec<u8>), String>)
        requires
            self.encapsulated(),
    {
        let podname = match &self.podname {
            Some(p) => p.clone(),
            None => String::new(),
        };
        let mut args: Vec<String> = Vec::new();
        args.push(String::from_str("exec"));
        args.push(podname);
        args.push(String::from_str("--"));
        let mut i: usize = 0;
        while i < p_args.len()
            invariant
                i <= p_args.len(),
            decreases p_args.len() - i,
        {
            let arg: &String = &p_args[i];
            args.push(arg.clone());
            i = i + 1;
        }
        self.kube_cmd(&args)
    }

    /// Issues the "delete sandbox unit" command.
    fn kube_delete_pod(&self) -> (r: Result<(), CapsuleError>)
        requires
            self.encapsulated(),
    {
        let podname = match &self.podname {
            Some(p) => p.clone(),
            None => String::new(),
        };
        let mut args: Vec<String> = Vec::new();
        args.push(String::from_str("delete"));
        args.push(String::from_str("pod"));
        args.push(podname);
        self.kube_cmd_silent(&args)
    }
}

impl Capsule for KubernetesCapsule {
    type Args = PodOptions;

    closed spec fn encapsulated(&self) -> bool {
        self.podname is Some
    }

    open spec fn cmd_display(cmd: Seq<Seq<char>>) -> Seq<char> {
        join_spaces_of(cmd)
    }

    /// Starts up the pod and copies the source directory into it. The pod
    /// identity is derived from the run identity, so each run gets a fresh
    /// sandbox unit. If the copy fails after the pod was created, the pod
    /// is deleted before the error is returned, so a failed encapsulation
    /// leaves no orphan.
    fn encapsulate(&mut self, ident: String, dir: &String, args: PodOptions) -> (r: Result<
        (),
        CapsuleError,
    >)
        ensures
            r is Ok ==> final(self).spec_podname() == Some("rtk-capsule-"@ + ident@),
    {
        let mut podname = String::from_str("rtk-capsule-");
        podname.append(ident.as_str());
        self.podname = Some(podname);
        let mut merged = self.options.duplicate();
        merged.merge(&args);
        match self.kube_run(&merged) {
            Ok(_) => {},
            Err(e) => {
                // Creation may have partially happened; tear down best-effort.
                let _ = self.kube_delete_pod();
                self.podname = None;
                return Err(e);
            },
        }
        match self.kube_cp(dir.clone(), String::from_str("/etc/repo/"), true) {
            Ok(_) => Ok(()),
            Err(e) => {
                let _ = self.kube_delete_pod();
                self.podname = None;
                Err(e)
            },
        }
    }

    fn run_test(&self, cmd: &Vec<String>) -> (r: Result<TestOutput, CapsuleError>) {
        match &self.podname {
            Some(_) => match self.kube_exec(cmd) {
                Ok((code, stdout, stderr)) => Ok((join_spaces(cmd), code, stdout, stderr)),
                Err(e) => Err(CapsuleError(e)),
            },
            None => Err(CapsuleError(String::from_str("No pod provisioned"))),
        }
    }

    /// Deletes the running pod. With no pod provisioned (a fresh or failed
    /// capsule) there is nothing to release and the call is a no-op.
    fn discard(self) -> (r: Result<(), CapsuleError>) {
        match &self.podname {
            Some(_) => self.kube_delete_pod(),
            None => Ok(()),
        }
    }
}

} // verus!
