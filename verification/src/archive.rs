//! The content store and the client-side archive builder.
//!
//! `ZipFile` is one stored upload: the blob's bytes written to a uniquely
//! named cache file, paired with the digest computed server-side over those
//! same bytes. `ZipBlob` builds an archive of a project directory, leaving
//! out paths the caller's exclusion patterns match.

use vstd::prelude::*;
use vstd::string::*;

use crate::hash::digest_of;
use crate::hash::hash;

verus! {

/// Whether `regex::Regex::new` accepts a pattern; it decides on the pattern
/// text alone.
pub uninterp spec fn regex_ok(pattern: Seq<char>) -> bool;

/// Whether a compiled pattern matches somewhere in a text; `regex` decides on
/// the pattern and the text alone.
pub uninterp spec fn regex_matches(pattern: Seq<char>, text: Seq<char>) -> bool;

/// Relies on `regex::Regex::new`: compiling depends on the pattern text
/// alone, and the error text describes the failed pattern.
#[verifier::external_body]
fn regex_error(pattern: &str) -> (r: Option<String>)
    ensures
        r is None <==> regex_ok(pattern@),
{
    regex::Regex::new(pattern).err().map(|e| e.to_string())
}

/// Relies on `regex::Regex::new` followed by `regex::Regex::is_match`: both
/// depend only on the pattern and the text searched.
#[verifier::external_body]
fn pattern_matches(pattern: &str, text: &str) -> (r: bool)
    requires
        regex_ok(pattern@),
    ensures
        r == regex_matches(pattern@, text@),
{
    match regex::Regex::new(pattern) {
        Ok(re) => re.is_match(text),
        Err(_) => false,
    }
}

/// Relies on `chrono::Utc::now` rendered by `to_rfc3339_opts`: a sortable
/// UTC timestamp at seconds precision. The clock decides the value.
#[verifier::external_body]
pub fn now_timestamp() -> String {
    chrono::Utc::now().to_rfc3339_opts(chrono::SecondsFormat::Secs, true)
}

/// Relies on `tokio::fs::write`, driven to completion on a local runtime:
/// on success the file at `path` holds exactly `data`.
#[verifier::external_body]
fn write_file(path: &String, data: &Vec<u8>) -> (r: Result<(), String>)
{
    let rt = match tokio::runtime::Builder::new_current_thread().enable_all().build() {
        Ok(rt) => rt,
        Err(e) => return Err(e.to_string()),
    };
    rt.block_on(tokio::fs::write(path, data)).map_err(|e| e.to_string())
}

/// Relies on `zip::ZipArchive::new` and `zip::ZipArchive::extract`: unpacks
/// every entry of the archive held in `data` under `dir`, creating the
/// directory tree as needed; fails on a corrupt archive or an I/O error.
#[verifier::external_body]
fn extract_zip(data: &Vec<u8>, dir: &String) -> (r: Result<(), String>)
{
    let cursor = std::io::Cursor::new(data.as_slice());
    let mut archive = match zip::ZipArchive::new(cursor) {
        Ok(a) => a,
        Err(e) => return Err(e.to_string()),
    };
    archive.extract(dir.as_str()).map_err(|e| e.to_string())
}

/// One stored upload: the archive bytes, the path of the cache file they were
/// written to, and the digest computed over them at store time.
pub struct ZipFile {
    hash: String,
    path: String,
    content: Vec<u8>,
}

impl ZipFile {
    /// The digest computed over the stored bytes.
    pub closed spec fn spec_hash(&self) -> Seq<char> {
        self.hash@
    }

    /// The stored bytes themselves.
    pub closed spec fn spec_content(&self) -> Seq<u8> {
        self.content@
    }

    /// The digest is always the one computed server-side from the stored
    /// bytes, never a value a client supplied.
    pub open spec fn wf(&self) -> bool {
        self.spec_hash() == digest_of(self.spec_content())
    }

    /// Stores an uploaded blob: writes it to a fresh, timestamp-named file
    /// under `base_dir` and computes its digest from the bytes written.
    /// An I/O failure is a storage error and is never silent.
    pub fn from_contents(content: Vec<u8>, base_dir: &String) -> (r: Result<ZipFile, String>)
        ensures
            r matches Ok(z) ==> z.wf() && z.spec_content() == content@,
    {
        let timestamp = now_timestamp();
        let mut path = base_dir.clone();
        path.append("/zip-cached-");
        path.append(timestamp.as_str());
        let digest = hash(&content);
        match write_file(&path, &content) {
            Ok(_) => Ok(ZipFile { hash: digest, path, content }),
            Err(e) => Err(e),
        }
    }

    /// Unpacks this archive's entries into `dir`. Errors are reported, never
    /// silent; on error nothing is promised about what was already unpacked.
    pub fn extract_into(self, dir: &String) -> (r: Result<(), String>)
    {
        extract_zip(&self.content, dir)
    }

    /// Whether the claimed digest equals the one computed at store time.
    pub fn compare_hash(&self, other: &String) -> (r: bool)
        ensures
            r == (self.spec_hash() == other@),
    {
        self.hash == *other
    }

    /// The digest computed at store time.
    pub fn get_hash(&self) -> (r: &str)
        ensures
            r@ == self.spec_hash(),
    {
        self.hash.as_str()
    }
}

/// Holds `zip`'s archive writer over an in-memory cursor; Verus cannot
/// declare that generic type directly, so the writer lives opaquely in this
/// holder and is reasoned about only through `zip_entries`.
#[verifier::external_body]
pub struct ZipSink {
    inner: zip::ZipWriter<std::io::Cursor<Vec<u8>>>,
}

/// The entries an in-memory archive writer holds: each file's name and
/// contents, in the order they were started.
pub uninterp spec fn zip_entries(w: ZipSink) -> Seq<(Seq<char>, Seq<u8>)>;

/// Relies on `zip::ZipWriter::new` over an in-memory cursor: a fresh archive
/// holds no entries.
#[verifier::external_body]
fn zip_writer_new() -> (w: ZipSink)
    ensures
        zip_entries(w) == Seq::<(Seq<char>, Seq<u8>)>::empty(),
{
    ZipSink { inner: zip::ZipWriter::new(std::io::Cursor::new(Vec::new())) }
}

/// Relies on `zip::ZipWriter::start_file` and the writer's `write_all`: on
/// success one entry with this name and contents has been appended.
#[verifier::external_body]
fn zip_add_file(w: &mut ZipSink, name: &String, content: &Vec<u8>) -> (r: Result<(), String>)
    ensures
        r is Ok ==> zip_entries(*final(w)) == zip_entries(*old(w)).push((name@, content@)),
{
    if let Err(e) = w.inner.start_file(name.as_str(), zip::write::SimpleFileOptions::default()) {
        return Err(e.to_string());
    }
    std::io::Write::write_all(&mut w.inner, content.as_slice()).map_err(|e| e.to_string())
}

/// Relies on `zip::ZipWriter::finish`: closes the archive and hands back the
/// bytes written to the in-memory cursor.
#[verifier::external_body]
fn zip_finish(w: ZipSink) -> (r: Result<Vec<u8>, String>)
{
    match w.inner.finish() {
        Ok(cursor) => Ok(cursor.into_inner()),
        Err(e) => Err(e.to_string()),
    }
}

/// One entry met while walking a directory tree.
pub struct WalkEntry {
    pub path: String,
    pub is_file: bool,
}

/// Relies on `walkdir::WalkDir` (min depth 1) and its entries' accessors:
/// lists a directory tree as plain path/kind pairs. Symbolic links are
/// listed under their own paths, not resolved to their targets. What is on
/// disk decides the outcome, so nothing is promised of it.
#[verifier::external_body]
fn walk_dir(dir: &str) -> (r: Result<Vec<WalkEntry>, String>)
{
    let mut out = Vec::new();
    for entry in walkdir::WalkDir::new(dir).min_depth(1) {
        let e = match entry {
            Ok(e) => e,
            Err(e) => return Err(e.to_string()),
        };
        let path = e.path().to_string_lossy().into_owned();
        out.push(WalkEntry { path, is_file: e.file_type().is_file() });
    }
    Ok(out)
}

/// Relies on `tokio::fs::read`, driven to completion on a local runtime:
/// reads a whole file. What is on disk decides the outcome.
#[verifier::external_body]
fn read_file(path: &String) -> (r: Result<Vec<u8>, String>)
{
    let rt = match tokio::runtime::Builder::new_current_thread().enable_all().build() {
        Ok(rt) => rt,
        Err(e) => return Err(e.to_string()),
    };
    rt.block_on(tokio::fs::read(path.as_str())).map_err(|e| e.to_string())
}

/// Whether some exclusion pattern matches a path.
pub open spec fn excluded_by(excludes: Seq<Seq<char>>, path: Seq<char>) -> bool {
    exists|i: int| 0 <= i < excludes.len() && regex_matches(#[trigger] excludes[i], path)
}

/// The paths of the regular files in a walked listing that no exclusion
/// pattern matches, in listing order: exactly what packaging keeps.
pub open spec fn kept_paths(entries: Seq<WalkEntry>, excludes: Seq<Seq<char>>) -> Seq<Seq<char>>
    decreases entries.len(),
{
    if entries.len() == 0 {
        Seq::empty()
    } else {
        let tail = kept_paths(entries.drop_first(), excludes);
        if entries[0].is_file && !excluded_by(excludes, entries[0].path@) {
            seq![entries[0].path@] + tail
        } else {
            tail
        }
    }
}

/// The name of each archive entry, in order.
pub open spec fn entry_paths(es: Seq<(Seq<char>, Seq<u8>)>) -> Seq<Seq<char>> {
    Seq::new(es.len(), |i: int| es[i].0)
}

/// Listing one more entry keeps its path exactly when it is a non-excluded
/// regular file.
proof fn lemma_kept_paths_snoc(entries: Seq<WalkEntry>, e: WalkEntry, excludes: Seq<Seq<char>>)
    ensures
        kept_paths(entries.push(e), excludes) == if e.is_file && !excluded_by(excludes, e.path@) {
            kept_paths(entries, excludes).push(e.path@)
        } else {
            kept_paths(entries, excludes)
        },
    decreases entries.len(),
{
    if entries.len() == 0 {
        assert(entries.push(e)[0] == e);
        assert(entries.push(e).drop_first() =~= entries);
        if e.is_file && !excluded_by(excludes, e.path@) {
            assert(seq![e.path@] + kept_paths(entries, excludes) =~= kept_paths(
                entries,
                excludes,
            ).push(e.path@));
        }
    } else {
        assert(entries.push(e)[0] == entries[0]);
        assert(entries.push(e).drop_first() =~= entries.drop_first().push(e));
        lemma_kept_paths_snoc(entries.drop_first(), e, excludes);
        if entries[0].is_file && !excluded_by(excludes, entries[0].path@) {
            if e.is_file && !excluded_by(excludes, e.path@) {
                assert(seq![entries[0].path@] + kept_paths(entries.drop_first(), excludes).push(
                    e.path@,
                ) =~= (seq![entries[0].path@] + kept_paths(entries.drop_first(), excludes)).push(
                    e.path@,
                ));
            }
        }
    }
}

/// Builds an archive of a project directory in memory, leaving out every
/// path an exclusion pattern matches.
pub struct ZipBlob {
    zip: ZipSink,
    exclude: Vec<String>,
}

impl ZipBlob {
    /// The entries added so far.
    pub closed spec fn spec_entries(&self) -> Seq<(Seq<char>, Seq<u8>)> {
        zip_entries(self.zip)
    }

    /// The exclusion patterns, all of which compiled.
    pub closed spec fn spec_excludes(&self) -> Seq<Seq<char>> {
        self.exclude.deep_view()
    }

    /// Every kept pattern is a valid regex.
    pub open spec fn wf(&self) -> bool {
        forall|i: int|
            0 <= i < self.spec_excludes().len() ==> regex_ok(#[trigger] self.spec_excludes()[i])
    }

    /// An empty archive with the given exclusion patterns. Fails exactly
    /// when some pattern does not compile, reporting the first such error.
    pub fn new(exclude: Vec<String>) -> (r: Result<ZipBlob, String>)
        ensures
            r matches Ok(b) ==> {
                &&& b.wf()
                &&& b.spec_entries() == Seq::<(Seq<char>, Seq<u8>)>::empty()
                &&& b.spec_excludes() == exclude.deep_view()
            },
            r is Ok <==> (forall|i: int|
                0 <= i < exclude.deep_view().len() ==> regex_ok(#[trigger] exclude.deep_view()[i])),
    {
        let mut i: usize = 0;
        while i < exclude.len()
            invariant
                i <= exclude.len(),
                forall|j: int| 0 <= j < i ==> regex_ok(#[trigger] exclude.deep_view()[j]),
            decreases exclude.len() - i,
        {
            let pattern: &String = &exclude[i];
            proof {
                assert(pattern@ == exclude.deep_view()[i as int]);
            }
            match regex_error(pattern.as_str()) {
                Some(e) => {
                    proof {
                        assert(!regex_ok(exclude.deep_view()[i as int]));
                    }
                    return Err(e);
                },
                None => {},
            }
            i = i + 1;
        }
        Ok(ZipBlob { zip: zip_writer_new(), exclude })
    }

    /// Whether some exclusion pattern matches the path.
    pub fn is_excluded(&self, path: &str) -> (r: bool)
        requires
            self.wf(),
        ensures
            r == excluded_by(self.spec_excludes(), path@),
    {
        let mut i: usize = 0;
        while i < self.exclude.len()
            invariant
                i <= self.exclude.len(),
                self.wf(),
                forall|j: int| 0 <= j < i ==> !regex_matches(#[trigger] self.spec_excludes()[j], path@),
            decreases self.exclude.len() - i,
        {
            let pattern: &String = &self.exclude[i];
            proof {
                assert(pattern@ == self.spec_excludes()[i as int]);
                assert(regex_ok(self.spec_excludes()[i as int]));
            }
            if pattern_matches(pattern.as_str(), path) {
                proof {
                    assert(regex_matches(self.spec_excludes()[i as int], path@));
                }
                return true;
            }
            i = i + 1;
        }
        false
    }

    /// Adds the listed entries: every regular file whose path no exclusion
    /// pattern matches is appended to the archive, in listing order, with
    /// the contents read for it; excluded paths and non-file entries are
    /// skipped. On success exactly the kept paths were appended -- no more
    /// and no fewer.
    pub fn add_entries(&mut self, entries: &Vec<WalkEntry>) -> (r: Result<(), String>)
        requires
            old(self).wf(),
        ensures
            final(self).wf(),
            final(self).spec_excludes() == old(self).spec_excludes(),
            r is Ok ==> entry_paths(final(self).spec_entries()) == entry_paths(
                old(self).spec_entries(),
            ) + kept_paths(entries@, old(self).spec_excludes()),
    {
        let ghost ex = self.spec_excludes();
        let ghost base = entry_paths(self.spec_entries());
        proof {
            assert(kept_paths(entries@.take(0), ex) =~= Seq::<Seq<char>>::empty());
            assert(base + kept_paths(entries@.take(0), ex) =~= base);
        }
        let mut i: usize = 0;
        while i < entries.len()
            invariant
                i <= entries.len(),
                self.wf(),
                self.spec_excludes() == ex,
                ex == old(self).spec_excludes(),
                base == entry_paths(old(self).spec_entries()),
                entry_paths(self.spec_entries()) == base + kept_paths(entries@.take(i as int), ex),
            decreases entries.len() - i,
        {
            let entry: &WalkEntry = &entries[i];
            let excluded = self.is_excluded(entry.path.as_str());
            if !excluded && entry.is_file {
                let content = match read_file(&entry.path) {
                    Ok(c) => c,
                    Err(e) => {
                        return Err(e);
                    },
                };
                let ghost pre = self.spec_entries();
                match zip_add_file(&mut self.zip, &entry.path, &content) {
                    Ok(_) => {
                        proof {
                            assert(entry_paths(pre.push((entry.path@, content@))) =~= entry_paths(
                                pre,
                            ).push(entry.path@));
                        }
                    },
                    Err(e) => {
                        return Err(e);
                    },
                }
            }
            i = i + 1;
            proof {
                assert(entries@.take(i as int) =~= entries@.take(i - 1).push(entries@[i - 1]));
                lemma_kept_paths_snoc(entries@.take(i - 1), entries@[i - 1], ex);
                assert(entry_paths(self.spec_entries()) =~= base + kept_paths(
                    entries@.take(i as int),
                    ex,
                ));
            }
        }
        proof {
            assert(entries@.take(entries@.len() as int) =~= entries@);
        }
        Ok(())
    }

    /// Walks a directory tree and adds every regular file whose path no
    /// exclusion pattern matches, exactly as `add_entries` does for the
    /// walked listing; what the walk meets is decided by the disk.
    pub fn add_dir(&mut self, dir: &String) -> (r: Result<(), String>)
        requires
            old(self).wf(),
        ensures
            final(self).wf(),
            final(self).spec_excludes() == old(self).spec_excludes(),
            r is Ok ==> exists|walked: Seq<WalkEntry>|
                entry_paths(final(self).spec_entries()) == entry_paths(old(self).spec_entries())
                    + kept_paths(walked, old(self).spec_excludes()),
    {
        let entries = match walk_dir(dir.as_str()) {
            Ok(es) => es,
            Err(e) => {
                return Err(e);
            },
        };
        let r = self.add_entries(&entries);
        proof {
            if r is Ok {
                assert(entry_paths(self.spec_entries()) == entry_paths(old(self).spec_entries())
                    + kept_paths(entries@, old(self).spec_excludes()));
            }
        }
        r
    }

    /// Finalizes the archive and returns the digest of the blob, computed
    /// over the very bytes returned, together with the blob.
    pub fn finish(self) -> (r: Result<(String, Vec<u8>), String>)
        ensures
            r matches Ok((h, b)) ==> h@ == digest_of(b@),
    {
        let blob = match zip_finish(self.zip) {
            Ok(b) => b,
            Err(e) => {
                return Err(e);
            },
        };
        let digest = hash(&blob);
        Ok((digest, blob))
    }
}

} // verus!
