//! The build cache: for every source file the fingerprints it was last built
//! from, and where the result went.

use crate::text::{append_str, chars_of, str_eq, string_of};
use crate::types::Timestamp;
use vstd::prelude::*;

verus! {

/// The version that this crate writes into what it persists.
pub const CACHE_VERSION: &'static str = "0.1.0";

/// The BLAKE3 hash of a byte sequence, as 64 lower-case hexadecimal digits.
pub uninterp spec fn blake3_hex(bytes: Seq<u8>) -> Seq<char>;

/// Hashes bytes with `blake3::hash` and writes the hash with `Hash::to_hex`.
/// The digits are named, not stated: they depend on the bytes alone.
#[verifier::external_body]
fn blake3_of(bytes: &[u8]) -> (r: String)
    ensures
        r@ == blake3_hex(bytes@),
{
    blake3::hash(bytes).to_hex().to_string()
}

/// The fingerprint of a file's bytes.
pub fn hash_bytes(content: &[u8]) -> (r: String)
    ensures
        r@ == blake3_hex(content@),
{
    blake3_of(content)
}

/// One file of a directory tree: its path and its bytes.
pub struct FileContent {
    pub path: String,
    pub bytes: Vec<u8>,
}

/// The line that stands for one file in a tree's fingerprint.
pub open spec fn file_line(path: Seq<char>, bytes: Seq<u8>) -> Seq<char> {
    path + ":"@ + blake3_hex(bytes) + "\n"@
}

/// The lines of the files, in order.
pub open spec fn tree_listing(files: Seq<FileContent>) -> Seq<char>
    decreases files.len(),
{
    if files.len() == 0 {
        Seq::empty()
    } else {
        tree_listing(files.drop_last()) + file_line(files.last().path@, files.last().bytes@)
    }
}

/// The listing from which the fingerprint of a directory tree is taken: one
/// line for each file, with its path and the fingerprint of its bytes. A
/// change to any file, or to the set of files, changes the listing.
pub fn directory_listing(files: &Vec<FileContent>) -> (r: String)
    ensures
        r@ == tree_listing(files@),
{
    let mut out: Vec<char> = Vec::new();
    let mut i: usize = 0;
    assert(files@.take(0) =~= Seq::<FileContent>::empty());
    while i < files.len()
        invariant
            i <= files.len(),
            out@ == tree_listing(files@.take(i as int)),
        decreases files.len() - i,
    {
        let ghost before = out@;
        assert(files@.take(i + 1).drop_last() =~= files@.take(i as int));
        append_str(&mut out, files[i].path.as_str());
        append_str(&mut out, ":");
        let h = hash_bytes(files[i].bytes.as_slice());
        append_str(&mut out, h.as_str());
        append_str(&mut out, "\n");
        assert(out@ =~= before + file_line(files@[i as int].path@, files@[i as int].bytes@));
        i += 1;
    }
    assert(files@.take(files.len() as int) =~= files@);
    string_of(&out)
}

/// The fingerprint of a directory tree: the hash of its listing.
pub fn hash_directory(files: &Vec<FileContent>) -> (r: String)
    ensures
        r@ == blake3_hex(vstd::utf8::encode_utf8(tree_listing(files@))),
{
    let listing = directory_listing(files);
    hash_bytes(listing.as_str().as_bytes())
}

/// What the cache knows of one source file.
#[derive(Debug)]
pub struct CacheEntry {
    pub file_hash: String,
    pub template_hash: String,
    pub output_path: String,
    pub built_at: String,
}

pub struct CacheEntryView {
    pub file_hash: Seq<char>,
    pub template_hash: Seq<char>,
    pub output_path: Seq<char>,
    pub built_at: Seq<char>,
}

impl View for CacheEntry {
    type V = CacheEntryView;

    open spec fn view(&self) -> CacheEntryView {
        CacheEntryView {
            file_hash: self.file_hash@,
            template_hash: self.template_hash@,
            output_path: self.output_path@,
            built_at: self.built_at@,
        }
    }
}

/// A source file's path with what the cache knows of it.
#[derive(Debug)]
pub struct CacheRecord {
    pub path: String,
    pub entry: CacheEntry,
}

/// The mapping that a list of records stands for: a path written twice has
/// the entry written last.
pub open spec fn records_map(rs: Seq<CacheRecord>) -> Map<Seq<char>, CacheEntryView>
    decreases rs.len(),
{
    if rs.len() == 0 {
        Map::empty()
    } else {
        records_map(rs.drop_last()).insert(rs.last().path@, rs.last().entry@)
    }
}

/// No path is written twice.
pub open spec fn unique_paths(rs: Seq<CacheRecord>) -> bool {
    forall|i: int, j: int| 0 <= i < j < rs.len() ==> rs[i].path@ != rs[j].path@
}

proof fn lemma_absent(rs: Seq<CacheRecord>, p: Seq<char>)
    requires
        forall|i: int| 0 <= i < rs.len() ==> rs[i].path@ != p,
    ensures
        !records_map(rs).dom().contains(p),
    decreases rs.len(),
{
    if rs.len() > 0 {
        lemma_absent(rs.drop_last(), p);
    }
}

proof fn lemma_last_wins(rs: Seq<CacheRecord>, i: int, p: Seq<char>)
    requires
        0 <= i < rs.len(),
        rs[i].path@ == p,
        forall|j: int| i < j < rs.len() ==> rs[j].path@ != p,
    ensures
        records_map(rs).dom().contains(p),
        records_map(rs)[p] == rs[i].entry@,
    decreases rs.len(),
{
    if i < rs.len() - 1 {
        lemma_last_wins(rs.drop_last(), i, p);
    }
}

proof fn lemma_replace_last(rs: Seq<CacheRecord>, i: int, rec: CacheRecord)
    requires
        0 <= i < rs.len(),
        rs[i].path@ == rec.path@,
        forall|j: int| i < j < rs.len() ==> rs[j].path@ != rec.path@,
    ensures
        records_map(rs.update(i, rec)) == records_map(rs).insert(rec.path@, rec.entry@),
    decreases rs.len(),
{
    let p = rec.path@;
    let updated = rs.update(i, rec);
    if i == rs.len() - 1 {
        assert(updated.drop_last() =~= rs.drop_last());
        assert(records_map(updated) =~= records_map(rs).insert(p, rec.entry@));
    } else {
        lemma_replace_last(rs.drop_last(), i, rec);
        assert(updated.drop_last() =~= rs.drop_last().update(i, rec));
        assert(updated.last() == rs.last());
        assert(records_map(updated) =~= records_map(rs).insert(p, rec.entry@));
    }
}

/// Whether a file must be built again, given what the cache holds: it must
/// when the cache does not know it, or knows it with another fingerprint of
/// its content or of the templates.
pub open spec fn rebuild_needed(
    entries: Map<Seq<char>, CacheEntryView>,
    path: Seq<char>,
    file_hash: Seq<char>,
    template_hash: Seq<char>,
) -> bool {
    !entries.dom().contains(path) || entries[path].file_hash != file_hash
        || entries[path].template_hash != template_hash
}

/// Where the templates have not changed, a file must be built again exactly
/// when the cache does not know it or knows it with another content
/// fingerprint.
pub proof fn lemma_rebuild_iff_content_changed(
    entries: Map<Seq<char>, CacheEntryView>,
    path: Seq<char>,
    file_hash: Seq<char>,
    template_hash: Seq<char>,
)
    requires
        entries.dom().contains(path) ==> entries[path].template_hash == template_hash,
    ensures
        rebuild_needed(entries, path, file_hash, template_hash) <==> (!entries.dom().contains(path)
            || entries[path].file_hash != file_hash),
{
}

/// Once a build is recorded, the same fingerprints ask for no other build.
pub proof fn lemma_no_rebuild_after_update(
    entries: Map<Seq<char>, CacheEntryView>,
    path: Seq<char>,
    entry: CacheEntryView,
)
    ensures
        !rebuild_needed(entries.insert(path, entry), path, entry.file_hash, entry.template_hash),
{
}

/// A change of the templates' fingerprint asks for a build of every file.
pub proof fn lemma_template_change_rebuilds_all(
    entries: Map<Seq<char>, CacheEntryView>,
    path: Seq<char>,
    file_hash: Seq<char>,
    template_hash: Seq<char>,
)
    requires
        forall|p: Seq<char>| entries.dom().contains(p) ==> entries[p].template_hash != template_hash,
    ensures
        rebuild_needed(entries, path, file_hash, template_hash),
{
}

/// The build cache.
#[derive(Debug)]
pub struct BuildCache {
    pub version: String,
    pub entries: Vec<CacheRecord>,
}

impl View for BuildCache {
    type V = Map<Seq<char>, CacheEntryView>;

    open spec fn view(&self) -> Map<Seq<char>, CacheEntryView> {
        records_map(self.entries@)
    }
}

impl BuildCache {
    /// A cache that knows no file.
    pub fn new() -> (r: Self)
        ensures
            r@ == Map::<Seq<char>, CacheEntryView>::empty(),
            r.version@ == CACHE_VERSION@,
            unique_paths(r.entries@),
    {
        BuildCache { version: string_of(&chars_of(CACHE_VERSION)), entries: Vec::new() }
    }

    /// The index of the last record for `path`.
    fn position(&self, path: &str) -> (r: Option<usize>)
        ensures
            match r {
                Some(i) => i < self.entries.len() && self.entries@[i as int].path@ == path@
                    && forall|j: int|
                    i < j < self.entries.len() ==> self.entries@[j].path@ != path@,
                None => forall|j: int|
                    0 <= j < self.entries.len() ==> self.entries@[j].path@ != path@,
            },
    {
        let mut n: usize = self.entries.len();
        while n > 0
            invariant
                n <= self.entries.len(),
                forall|j: int| n <= j < self.entries.len() ==> self.entries@[j].path@ != path@,
            decreases n,
        {
            if str_eq(self.entries[n - 1].path.as_str(), path) {
                return Some(n - 1);
            }
            n -= 1;
        }
        None
    }

    /// What the cache knows of `path`.
    pub fn get(&self, path: &str) -> (r: Option<&CacheEntry>)
        ensures
            match r {
                Some(e) => self@.dom().contains(path@) && self@[path@] == e@,
                None => !self@.dom().contains(path@),
            },
    {
        match self.position(path) {
            Some(i) => {
                proof {
                    lemma_last_wins(self.entries@, i as int, path@);
                }
                Some(&self.entries[i].entry)
            },
            None => {
                proof {
                    lemma_absent(self.entries@, path@);
                }
                None
            },
        }
    }

    /// Whether the file at `path` must be built again.
    pub fn needs_rebuild(&self, path: &str, current_hash: &str, template_hash: &str) -> (b: bool)
        ensures
            b == rebuild_needed(self@, path@, current_hash@, template_hash@),
    {
        match self.get(path) {
            None => true,
            Some(entry) => !str_eq(entry.file_hash.as_str(), current_hash) || !str_eq(
                entry.template_hash.as_str(),
                template_hash,
            ),
        }
    }

    /// Records a build of the file at `path`, finished at the instant written
    /// in `built_at`.
    pub fn record_build(
        &mut self,
        path: &str,
        hash: String,
        template_hash: String,
        output: String,
        built_at: String,
    )
        ensures
            final(self)@ == old(self)@.insert(
                path@,
                CacheEntryView {
                    file_hash: hash@,
                    template_hash: template_hash@,
                    output_path: output@,
                    built_at: built_at@,
                },
            ),
            final(self).version == old(self).version,
            unique_paths(old(self).entries@) ==> unique_paths(final(self).entries@),
    {
        let entry = CacheEntry { file_hash: hash, template_hash, output_path: output, built_at };
        let record = CacheRecord { path: string_of(&chars_of(path)), entry };
        match self.position(path) {
            Some(i) => {
                proof {
                    lemma_replace_last(self.entries@, i as int, record);
                }
                self.entries.set(i, record);
            },
            None => {
                self.entries.push(record);
                assert(self.entries@.drop_last() =~= old(self).entries@);
            },
        }
    }

    /// Records a build of the file at `path`, finished now.
    pub fn update_entry(&mut self, path: &str, hash: String, template_hash: String, output: String)
        ensures
            final(self)@ == old(self)@.insert(path@, final(self)@[path@]),
            final(self)@.dom().contains(path@),
            final(self)@[path@].file_hash == hash@,
            final(self)@[path@].template_hash == template_hash@,
            final(self)@[path@].output_path == output@,
            final(self).version == old(self).version,
            unique_paths(old(self).entries@) ==> unique_paths(final(self).entries@),
    {
        let built_at = Timestamp::now().to_rfc3339();
        self.record_build(path, hash, template_hash, output, built_at);
    }
}

} // verus!
