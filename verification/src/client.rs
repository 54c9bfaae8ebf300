//! Client-side pieces: the project configuration a client reads from its
//! config file, and the rendering of server responses for display. The
//! transport that carries requests is outside the library.

use vstd::prelude::*;
use vstd::string::*;

use crate::codec::u64_to_string;
use crate::pb;

verus! {

/// What `String::from_utf8_lossy` decodes a byte sequence to; the result
/// depends on the bytes alone.
pub uninterp spec fn lossy_of(bytes: Seq<u8>) -> Seq<char>;

/// Relies on `String::from_utf8_lossy`: decodes bytes as UTF-8 with
/// replacement characters for invalid sequences.
#[verifier::external_body]
fn utf8_lossy(bytes: &Vec<u8>) -> (r: String)
    ensures
        r@ == lossy_of(bytes@),
{
    String::from_utf8_lossy(bytes.as_slice()).into_owned()
}

/// A client's project configuration: the project name, one command line per
/// test, and the exclusion patterns used while packaging.
pub struct ProjectConfig {
    pub name: String,
    pub tests: Vec<String>,
    pub exclude: Vec<String>,
}

/// A field-for-field copy of a string list.
fn clone_strings(v: &Vec<String>) -> (r: Vec<String>)
    ensures
        r.deep_view() == v.deep_view(),
{
    let mut out: Vec<String> = Vec::new();
    let mut i: usize = 0;
    while i < v.len()
        invariant
            i <= v.len(),
            out.deep_view() =~= v.deep_view().take(i as int),
        decreases v.len() - i,
    {
        let ghost pre = out.deep_view();
        out.push(v[i].clone());
        i = i + 1;
        proof {
            assert(out.deep_view() =~= pre.push(v.deep_view()[i - 1]));
            assert(out.deep_view() =~= v.deep_view().take(i as int));
        }
    }
    proof {
        assert(out.deep_view() =~= v.deep_view());
    }
    out
}

impl ProjectConfig {
    /// The registration request this configuration announces.
    pub fn to_project(&self) -> (r: pb::Project)
        ensures
            r.name@ == self.name@,
            r.tests.deep_view() == self.tests.deep_view(),
    {
        pb::Project { name: self.name.clone(), tests: clone_strings(&self.tests) }
    }

    /// The identifier naming this configuration's project.
    pub fn to_identifier(&self) -> (r: pb::ProjectIdentifier)
        ensures
            r.name@ == self.name@,
    {
        pb::ProjectIdentifier { name: self.name.clone() }
    }
}

/// The fixed OK/Failed tag for one outcome.
pub fn success_to_str(success: bool) -> (r: &'static str)
    ensures
        r@ == if success {
            "OK"@
        } else {
            "Failed"@
        },
{
    if success {
        "OK"
    } else {
        "Failed"
    }
}

/// The line reported after a registration attempt.
pub open spec fn register_message_of(name: Seq<char>, r: pb::RegisterResponse) -> Seq<char> {
    if r.success {
        "Successfully registered project "@ + name
    } else {
        match r.error {
            Some(e) => "Project could not be registered: "@ + e@,
            None => "Project could not be registered"@,
        }
    }
}

/// Renders a registration response, as `register_message_of` describes.
pub fn register_message(name: &String, res: &pb::RegisterResponse) -> (r: String)
    ensures
        r@ == register_message_of(name@, *res),
{
    if res.success {
        let mut out = String::from_str("Successfully registered project ");
        out.append(name.as_str());
        out
    } else {
        match &res.error {
            Some(e) => {
                let mut out = String::from_str("Project could not be registered: ");
                out.append(e.as_str());
                out
            },
            None => String::from_str("Project could not be registered"),
        }
    }
}

/// The line reported after an unregistration attempt; a best-effort cleanup
/// failure is appended to a success report on its own line.
pub open spec fn unregister_message_of(name: Seq<char>, r: pb::RegisterResponse) -> Seq<char> {
    if r.success {
        match r.error {
            Some(e) => "Successfully unregistered project "@ + name + "\n"@ + e@,
            None => "Successfully unregistered project "@ + name,
        }
    } else {
        match r.error {
            Some(e) => "Project could not be unregistered: "@ + e@,
            None => "Project could not be unregistered"@,
        }
    }
}

/// Renders an unregistration response, as `unregister_message_of` describes.
pub fn unregister_message(name: &String, res: &pb::RegisterResponse) -> (r: String)
    ensures
        r@ == unregister_message_of(name@, *res),
{
    if res.success {
        let mut out = String::from_str("Successfully unregistered project ");
        out.append(name.as_str());
        match &res.error {
            Some(e) => {
                out.append("\n");
                out.append(e.as_str());
            },
            None => {},
        }
        out
    } else {
        match &res.error {
            Some(e) => {
                let mut out = String::from_str("Project could not be unregistered: ");
                out.append(e.as_str());
                out
            },
            None => String::from_str("Project could not be unregistered"),
        }
    }
}

/// The line reported after an update attempt.
pub open spec fn update_message_of(r: pb::UpdateResponse) -> Seq<char> {
    if r.success {
        r.project@ + ":"@ + r.hash@ + " has been successfully updated"@
    } else {
        match r.error {
            Some(e) => r.project@ + ":"@ + r.hash@ + " could not be updated: "@ + e@,
            None => r.project@ + ":"@ + r.hash@ + " could not be updated"@,
        }
    }
}

/// Renders an update response, as `update_message_of` describes.
pub fn update_message(res: &pb::UpdateResponse) -> (r: String)
    ensures
        r@ == update_message_of(*res),
{
    let mut out = res.project.clone();
    out.append(":");
    out.append(res.hash.as_str());
    if res.success {
        out.append(" has been successfully updated");
    } else {
        match &res.error {
            Some(e) => {
                out.append(" could not be updated: ");
                out.append(e.as_str());
            },
            None => {
                out.append(" could not be updated");
            },
        }
    }
    out
}

/// Whether every test outcome in a run succeeded.
pub fn all_successful(results: &Vec<pb::TestResult>) -> (r: bool)
    ensures
        r == forall|i: int| 0 <= i < results@.len() ==> (#[trigger] results@[i]).success,
{
    let mut i: usize = 0;
    while i < results.len()
        invariant
            i <= results@.len(),
            forall|j: int| 0 <= j < i ==> (#[trigger] results@[j]).success,
        decreases results@.len() - i,
    {
        if !results[i].success {
            return false;
        }
        i = i + 1;
    }
    true
}

/// Renders a whole test run for display: a header with project, digest and
/// start time, each outcome's tag and captured streams, and a closing line
/// saying whether every test succeeded. Display only; the data stands in
/// the response itself.
pub fn format_test_report(res: &pb::TestResults) -> String {
    let mut lines = String::from_str("Test results for ");
    lines.append(res.name.as_str());
    lines.append(":");
    lines.append(res.hash.as_str());
    lines.append("\n started at ");
    lines.append(res.timestamp.as_str());
    let mut i: usize = 0;
    while i < res.results.len()
        decreases res.results@.len() - i,
    {
        let result: &pb::TestResult = &res.results[i];
        lines.append("\nTest ");
        let n = u64_to_string((i as u64) + 1);
        lines.append(n.as_str());
        lines.append(" ********** ");
        lines.append(success_to_str(result.success));
        lines.append("\n\tstdout: \"");
        let out_text = utf8_lossy(&result.stdout);
        lines.append(out_text.as_str());
        lines.append("\"\n\tstderr: \"");
        let err_text = utf8_lossy(&result.stderr);
        lines.append(err_text.as_str());
        lines.append("\"");
        i = i + 1;
    }
    lines.append("\n********************\n\tTests successful ***** ");
    lines.append(success_to_str(all_successful(&res.results)));
    lines
}

} // verus!
