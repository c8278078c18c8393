//! A folder of embedded files: the relative paths it lists, and the lookup
//! of a file by the path a client asks for, with the folder's optional
//! prefix and with either kind of path separator.

use vstd::prelude::*;
use crate::file::{opt_str_view, opt_string_view, EmbeddedFile, EmbeddedFileView, FileEntry};
use crate::patterns::{inclusion, path_inclusion, str_views, string_views};
use crate::text::{chars_of, forward_slashes_from, string_from_chars, with_forward_slashes};
use crate::text::{lemma_forward_slashes_everywhere, lemma_forward_slashes_idempotent, lemma_forward_slashes_unchanged};

verus! {

/// The name under which a file with relative path `name` is listed: the
/// folder's prefix followed by the relative path.
pub open spec fn prefixed(prefix: Option<Seq<char>>, name: Seq<char>) -> Seq<char> {
    match prefix {
        Some(p) => p + name,
        None => name,
    }
}

/// `p` is a prefix of `s`.
pub open spec fn starts_with(s: Seq<char>, p: Seq<char>) -> bool {
    p.len() <= s.len() && s.take(p.len() as int) == p
}

/// The relative path that a request for `path` asks for: the prefix is
/// stripped (a path without it asks for nothing), then backslashes become
/// forward slashes.
pub open spec fn request_key(prefix: Option<Seq<char>>, path: Seq<char>) -> Option<Seq<char>> {
    match prefix {
        None => Some(with_forward_slashes(path)),
        Some(p) => if starts_with(path, p) {
            Some(with_forward_slashes(path.skip(p.len() as int)))
        } else {
            None
        },
    }
}

/// Computes `request_key`: strips the prefix, if any, from the requested
/// path and replaces backslashes by forward slashes; `None` where the path
/// does not start with the prefix.
pub fn lookup_key(prefix: Option<&str>, file_path: &str) -> (r: Option<String>)
    ensures
        opt_string_view(r) == request_key(opt_str_view(prefix), file_path@),
{
    let path = chars_of(file_path);
    match prefix {
        None => {
            assert(path@.skip(0) =~= path@);
            Some(string_from_chars(&forward_slashes_from(&path, 0)))
        },
        Some(p) => {
            let pc = chars_of(p);
            if pc.len() > path.len() {
                return None;
            }
            let mut i: usize = 0;
            while i < pc.len()
                invariant
                    pc@ == p@,
                    path@ == file_path@,
                    opt_str_view(prefix) == Some(p@),
                    pc@.len() <= path@.len(),
                    i <= pc@.len(),
                    forall|j: int| 0 <= j < i ==> path@[j] == pc@[j],
                decreases pc@.len() - i,
            {
                if path[i] != pc[i] {
                    assert(path@.take(pc@.len() as int)[i as int] == path@[i as int]);
                    assert(path@.take(pc@.len() as int)[i as int] != pc@[i as int]);
                    return None;
                }
                i = i + 1;
            }
            assert(path@.take(pc@.len() as int) =~= pc@);
            Some(string_from_chars(&forward_slashes_from(&path, pc.len())))
        },
    }
}

/// The listed name of a file: the prefix, if any, followed by its relative
/// path.
pub fn prefixed_name(prefix: Option<&str>, rel_path: &str) -> (r: String)
    ensures
        r@ == prefixed(opt_str_view(prefix), rel_path@),
{
    match prefix {
        Some(p) => {
            let mut r = String::from_str(p);
            r.append(rel_path);
            r
        },
        None => String::from_str(rel_path),
    }
}

/// What a folder holds: its prefix, and the relative paths of its files with
/// the files themselves, position by position.
pub struct FolderView {
    pub prefix: Option<Seq<char>>,
    pub names: Seq<Seq<char>>,
    pub files: Seq<EmbeddedFileView>,
}

/// No relative path occurs twice.
pub open spec fn names_distinct(names: Seq<Seq<char>>) -> bool {
    forall|i: int, j: int|
        0 <= i < names.len() && 0 <= j < names.len() && i != j ==> names[i] != names[j]
}

/// A folder lists one file per relative path, each path once.
pub open spec fn folder_ok(v: FolderView) -> bool {
    &&& v.names.len() == v.files.len()
    &&& names_distinct(v.names)
}

/// The file of the folder with relative path `key`, if any.
pub open spec fn file_named(v: FolderView, key: Seq<char>) -> Option<EmbeddedFileView> {
    if v.names.contains(key) {
        Some(v.files[choose|i: int| 0 <= i < v.names.len() && v.names[i] == key])
    } else {
        None
    }
}

/// The file that a request for `path` gives: the file whose relative path is
/// the request's key.
pub open spec fn lookup(v: FolderView, path: Seq<char>) -> Option<EmbeddedFileView> {
    match request_key(v.prefix, path) {
        Some(key) => file_named(v, key),
        None => None,
    }
}

/// The folder after adding the file `file` under the relative path `name`: it
/// takes the place of a file listed under that path, else it comes last.
pub open spec fn inserted(v: FolderView, name: Seq<char>, file: EmbeddedFileView) -> FolderView {
    if v.names.contains(name) {
        let i = choose|i: int| 0 <= i < v.names.len() && v.names[i] == name;
        FolderView { prefix: v.prefix, names: v.names, files: v.files.update(i, file) }
    } else {
        FolderView { prefix: v.prefix, names: v.names.push(name), files: v.files.push(file) }
    }
}

/// The names under which the folder lists its files.
pub open spec fn listed_names(v: FolderView) -> Seq<Seq<char>> {
    v.names.map_values(|n: Seq<char>| prefixed(v.prefix, n))
}

/// The view of an optional embedded file.
pub open spec fn opt_file_view(o: Option<EmbeddedFile>) -> Option<EmbeddedFileView> {
    match o {
        Some(f) => Some(f@),
        None => None,
    }
}

/// A type whose folder of binary assets is embedded: in release builds the
/// files of the folder are embedded into the executable.
pub trait RustEmbed {
    /// Get an embedded file and its metadata.
    fn get(file_path: &str) -> Option<EmbeddedFile>;
}

struct FolderEntry {
    name: String,
    file: EmbeddedFile,
}

/// A folder of embedded files, each under its relative path, with an
/// optional prefix that requests must carry and that listed names carry.
pub struct EmbeddedFolder {
    prefix: Option<String>,
    entries: Vec<FolderEntry>,
}

impl View for EmbeddedFolder {
    type V = FolderView;

    closed spec fn view(&self) -> FolderView {
        FolderView {
            prefix: opt_string_view(self.prefix),
            names: self.entries@.map_values(|e: FolderEntry| e.name@),
            files: self.entries@.map_values(|e: FolderEntry| e.file@),
        }
    }
}

impl EmbeddedFolder {
    #[verifier::type_invariant]
    spec fn names_unique(self) -> bool {
        names_distinct(self.entries@.map_values(|e: FolderEntry| e.name@))
    }

    /// An empty folder whose listed names carry `prefix`.
    pub fn new(prefix: Option<String>) -> (r: EmbeddedFolder)
        ensures
            r@ == (FolderView { prefix: opt_string_view(prefix), names: seq![], files: seq![] }),
            folder_ok(r@),
    {
        let r = EmbeddedFolder { prefix, entries: Vec::new() };
        assert(r@.names =~= seq![]);
        assert(r@.files =~= seq![]);
        r
    }

    /// The position of the file with relative path `key`, if any.
    fn position(&self, key: &String) -> (r: Option<usize>)
        ensures
            r matches Some(i) ==> i < self@.names.len() && self@.names[i as int] == key@,
            r is None ==> !self@.names.contains(key@),
    {
        let mut i: usize = 0;
        while i < self.entries.len()
            invariant
                i <= self.entries@.len(),
                forall|j: int| 0 <= j < i ==> self@.names[j] != key@,
            decreases self.entries@.len() - i,
        {
            if self.entries[i].name == *key {
                return Some(i);
            }
            i = i + 1;
        }
        assert forall|j: int| 0 <= j < self@.names.len() implies self@.names[j] != key@ by {}
        None
    }

    /// Adds `file` under the relative path `rel_path`, in place of a file
    /// already listed under that path.
    pub fn insert(&mut self, rel_path: String, file: EmbeddedFile)
        ensures
            final(self)@ == inserted(old(self)@, rel_path@, file@),
            folder_ok(final(self)@),
    {
        proof {
            use_type_invariant(&*self);
        }
        let ghost v = self@;
        let ghost key = rel_path@;
        let found = self.position(&rel_path);
        let mut entries: Vec<FolderEntry> = Vec::new();
        std::mem::swap(&mut entries, &mut self.entries);
        let ghost old_entries = entries@;
        match found {
            Some(i) => {
                proof {
                    let c = choose|j: int| 0 <= j < v.names.len() && v.names[j] == key;
                    assert(c == i);
                }
                entries.set(i, FolderEntry { name: rel_path, file });
            },
            None => {
                entries.push(FolderEntry { name: rel_path, file });
            },
        }
        let ghost names = entries@.map_values(|e: FolderEntry| e.name@);
        assert(names =~= inserted(v, key, file@).names);
        assert(entries@.map_values(|e: FolderEntry| e.file@) =~= inserted(v, key, file@).files);
        proof {
            lemma_inserted_ok(v, key, file@);
        }
        self.entries = entries;
    }

    /// The file for a request of `file_path`: the prefix is stripped, then
    /// backslashes become forward slashes, then the file listed under that
    /// relative path, if any, is returned.
    pub fn get(&self, file_path: &str) -> (r: Option<EmbeddedFile>)
        ensures
            opt_file_view(r) == lookup(self@, file_path@),
            folder_ok(self@),
    {
        proof {
            use_type_invariant(self);
        }
        let prefix = match &self.prefix {
            Some(p) => Some(p.as_str()),
            None => None,
        };
        let key = match lookup_key(prefix, file_path) {
            Some(k) => k,
            None => {
                return None;
            },
        };
        match self.position(&key) {
            Some(i) => {
                proof {
                    let c = choose|j: int| 0 <= j < self@.names.len() && self@.names[j] == key@;
                    assert(c == i);
                }
                Some(self.entries[i].file.copy())
            },
            None => None,
        }
    }

    /// The names under which the folder lists its files, in the order the
    /// files were added: each relative path with the prefix before it.
    pub fn iter(&self) -> (r: Vec<String>)
        ensures
            string_views(r@) == listed_names(self@),
            folder_ok(self@),
    {
        proof {
            use_type_invariant(self);
        }
        let prefix = match &self.prefix {
            Some(p) => Some(p.as_str()),
            None => None,
        };
        let mut r: Vec<String> = Vec::new();
        let mut i: usize = 0;
        while i < self.entries.len()
            invariant
                i <= self.entries@.len(),
                opt_str_view(prefix) == self@.prefix,
                r@.len() == i,
                forall|j: int| 0 <= j < i ==> (#[trigger] r@[j])@ == listed_names(self@)[j],
            decreases self.entries@.len() - i,
        {
            r.push(prefixed_name(prefix, self.entries[i].name.as_str()));
            i = i + 1;
        }
        assert(string_views(r@) =~= listed_names(self@));
        r
    }
}

/// What `iter` lists, `get` finds: the file listed at position `i` is the
/// one that a request for its listed name gives back, for any relative path
/// without backslashes (a backslash in a request is read as a separator).
pub proof fn lemma_listed_names_found(v: FolderView, i: int)
    requires
        folder_ok(v),
        0 <= i < v.names.len(),
        !v.names[i].contains('\\'),
    ensures
        lookup(v, listed_names(v)[i]) == Some(v.files[i]),
{
    let name = v.names[i];
    let path = prefixed(v.prefix, name);
    lemma_forward_slashes_unchanged(name);
    match v.prefix {
        Some(p) => {
            assert(path.take(p.len() as int) =~= p);
            assert(path.skip(p.len() as int) =~= name);
        },
        None => {},
    }
    assert(request_key(v.prefix, path) == Some(name));
    assert(v.names.contains(name));
    let c = choose|j: int| 0 <= j < v.names.len() && v.names[j] == name;
    assert(c == i);
}

/// The relative path a request asks for has no backslash left: after the
/// prefix, every backslash of the request, at any depth, is read as `/`,
/// and every other character is kept in place.
pub proof fn lemma_request_key_separators(prefix: Option<Seq<char>>, path: Seq<char>)
    ensures
        request_key(prefix, path) matches Some(key) ==> {
            let rest = match prefix {
                Some(p) => path.skip(p.len() as int),
                None => path,
            };
            &&& key.len() == rest.len()
            &&& forall|i: int|
                0 <= i < rest.len() ==> (#[trigger] key[i]) == (if rest[i] == '\\' {
                    '/'
                } else {
                    rest[i]
                })
            &&& !key.contains('\\')
        },
{
    match prefix {
        Some(p) => lemma_forward_slashes_everywhere(path.skip(p.len() as int)),
        None => lemma_forward_slashes_everywhere(path),
    }
}

/// A Windows-style request finds the file: for a file listed under a
/// relative path without backslashes, a request made of the prefix and that
/// path with any of its `/` written as `\` gives the file.
pub proof fn lemma_windows_request_found(v: FolderView, i: int, request: Seq<char>)
    requires
        folder_ok(v),
        0 <= i < v.names.len(),
        !v.names[i].contains('\\'),
        request.len() == v.names[i].len(),
        forall|k: int|
            0 <= k < request.len() ==> (#[trigger] request[k] == v.names[i][k] || (request[k] == '\\'
                && v.names[i][k] == '/')),
    ensures
        lookup(v, prefixed(v.prefix, request)) == Some(v.files[i]),
{
    let name = v.names[i];
    lemma_forward_slashes_everywhere(request);
    assert forall|k: int| 0 <= k < name.len() implies name[k] != '\\' by {
        if name[k] == '\\' {
            assert(name.contains('\\'));
        }
    }
    assert(with_forward_slashes(request) =~= name);
    let path = prefixed(v.prefix, request);
    match v.prefix {
        Some(p) => {
            assert(path.take(p.len() as int) =~= p);
            assert(path.skip(p.len() as int) =~= request);
        },
        None => {},
    }
    assert(request_key(v.prefix, path) == Some(name));
    assert(v.names.contains(name));
    let c = choose|j: int| 0 <= j < v.names.len() && v.names[j] == name;
    assert(c == i);
}

/// Each listed name is the prefix, character for character, followed by
/// the relative path, character for character.
pub proof fn lemma_listed_name_parts(v: FolderView, i: int)
    requires
        0 <= i < v.names.len(),
    ensures
        v.prefix matches Some(p) ==> {
            &&& listed_names(v)[i].len() == p.len() + v.names[i].len()
            &&& forall|k: int| 0 <= k < p.len() ==> #[trigger] listed_names(v)[i][k] == p[k]
            &&& forall|k: int|
                0 <= k < v.names[i].len() ==> #[trigger] listed_names(v)[i][p.len() + k]
                    == v.names[i][k]
        },
        v.prefix is None ==> listed_names(v)[i] == v.names[i],
{
}

/// A request must carry the folder's prefix: a path that does not start with
/// it gives no file.
pub proof fn lemma_prefix_required(v: FolderView, path: Seq<char>)
    requires
        v.prefix matches Some(p) && !starts_with(path, p),
    ensures
        lookup(v, path) is None,
{
}

/// Windows-style separators are accepted: after the prefix, a request with
/// backslashes gives the same file as the request with forward slashes.
pub proof fn lemma_backslashes_accepted(v: FolderView, rest: Seq<char>)
    ensures
        lookup(v, prefixed(v.prefix, rest)) == lookup(v, prefixed(v.prefix, with_forward_slashes(rest))),
{
    lemma_forward_slashes_idempotent(rest);
    match v.prefix {
        Some(p) => {
            assert((p + rest).take(p.len() as int) =~= p);
            assert((p + rest).skip(p.len() as int) =~= rest);
            let q = p + with_forward_slashes(rest);
            assert(q.take(p.len() as int) =~= p);
            assert(q.skip(p.len() as int) =~= with_forward_slashes(rest));
        },
        None => {},
    }
}

/// Adding a file keeps each relative path listed once.
pub proof fn lemma_inserted_ok(v: FolderView, name: Seq<char>, file: EmbeddedFileView)
    requires
        folder_ok(v),
    ensures
        folder_ok(inserted(v, name, file)),
{
    let w = inserted(v, name, file);
    if !v.names.contains(name) {
        let n = v.names.len();
        assert forall|a: int, b: int|
            0 <= a < w.names.len() && 0 <= b < w.names.len() && a != b implies w.names[a] != w.names[b] by {
            if a < n && b < n {
            } else if a == n {
                assert(v.names[b] != name);
            } else {
                assert(v.names[a] != name);
            }
        }
    }
}

/// What was added is what is found: after adding a file under a relative
/// path without backslashes, a request for its listed name gives that file,
/// and every request for another relative path gives what it gave before.
pub proof fn lemma_insert_then_lookup(v: FolderView, name: Seq<char>, file: EmbeddedFileView, path: Seq<char>)
    requires
        folder_ok(v),
        !name.contains('\\'),
    ensures
        folder_ok(inserted(v, name, file)),
        lookup(inserted(v, name, file), prefixed(v.prefix, name)) == Some(file),
        request_key(v.prefix, path) != Some(name) ==> lookup(inserted(v, name, file), path) == lookup(v, path),
{
    let w = inserted(v, name, file);
    lemma_inserted_ok(v, name, file);
    lemma_forward_slashes_unchanged(name);
    let listed = prefixed(v.prefix, name);
    match v.prefix {
        Some(p) => {
            assert(listed.take(p.len() as int) =~= p);
            assert(listed.skip(p.len() as int) =~= name);
        },
        None => {},
    }
    assert(request_key(v.prefix, listed) == Some(name));
    if v.names.contains(name) {
        let i = choose|i: int| 0 <= i < v.names.len() && v.names[i] == name;
        assert(w.names == v.names);
        assert(w.names.contains(name));
        if let Some(k) = request_key(v.prefix, path) {
            if k != name && v.names.contains(k) {
                let j = choose|j: int| 0 <= j < v.names.len() && v.names[j] == k;
                assert(j != i);
            }
        }
    } else {
        let n = v.names.len();
        assert(w.names[n as int] == name);
        assert(w.names.contains(name));
        let c = choose|j: int| 0 <= j < w.names.len() && w.names[j] == name;
        assert(c == n);
        if let Some(k) = request_key(v.prefix, path) {
            if k != name {
                if v.names.contains(k) {
                    let j = choose|j: int| 0 <= j < v.names.len() && v.names[j] == k;
                    assert(w.names[j] == k);
                    let d = choose|j: int| 0 <= j < w.names.len() && w.names[j] == k;
                    assert(d == j);
                } else {
                    assert(!w.names.contains(k)) by {
                        if w.names.contains(k) {
                            let d = choose|j: int| 0 <= j < w.names.len() && w.names[j] == k;
                            assert(d != n);
                            assert(v.names[d] == k);
                        }
                    }
                }
            }
        }
    }
}

/// The relative path of a walked file as the folder records it: on a
/// platform whose separator is a backslash, backslashes become forward
/// slashes; elsewhere it stays as it is.
pub open spec fn recorded_path(rel_path: Seq<char>, separator: char) -> Seq<char> {
    if separator == '\\' {
        with_forward_slashes(rel_path)
    } else {
        rel_path
    }
}

/// The files of a walk that the include and exclude patterns keep, in walk
/// order, with their relative paths as recorded; `None` where the walk of
/// some file's path reaches a pattern that globset does not accept.
pub open spec fn selected_entries(
    entries: Seq<(Seq<char>, Seq<char>)>,
    separator: char,
    includes: Seq<Seq<char>>,
    excludes: Seq<Seq<char>>,
) -> Option<Seq<(Seq<char>, Seq<char>)>>
    decreases entries.len(),
{
    if entries.len() == 0 {
        Some(seq![])
    } else {
        match selected_entries(entries.drop_last(), separator, includes, excludes) {
            None => None,
            Some(before) => {
                let e = entries.last();
                let rel = recorded_path(e.0, separator);
                match inclusion(rel, includes, excludes) {
                    None => None,
                    Some(true) => Some(before.push((rel, e.1))),
                    Some(false) => Some(before),
                }
            },
        }
    }
}

/// The views of a list of file entries.
pub open spec fn entry_views(entries: Seq<FileEntry>) -> Seq<(Seq<char>, Seq<char>)> {
    entries.map_values(|e: FileEntry| (e.rel_path@, e.full_canonical_path@))
}

/// The view of an optional list of file entries.
pub open spec fn opt_entry_views(o: Option<Vec<FileEntry>>) -> Option<Seq<(Seq<char>, Seq<char>)>> {
    match o {
        Some(v) => Some(entry_views(v@)),
        None => None,
    }
}

/// Of the files found by walking the folder, in walk order, keeps those that
/// the include and exclude patterns admit, after rewriting the separators of
/// their relative paths where the platform separator is a backslash. `None`
/// where the patterns are asked about a file and the walk reaches a pattern
/// that globset does not accept; with no files no pattern is looked at.
pub fn select_entries(
    entries: Vec<FileEntry>,
    separator: char,
    includes: &[&str],
    excludes: &[&str],
) -> (r: Option<Vec<FileEntry>>)
    ensures
        opt_entry_views(r) == selected_entries(
            entry_views(entries@),
            separator,
            str_views(includes@),
            str_views(excludes@),
        ),
{
    let ghost all = entry_views(entries@);
    let ghost incl = str_views(includes@);
    let ghost excl = str_views(excludes@);
    let mut r: Vec<FileEntry> = Vec::new();
    let mut i: usize = 0;
    while i < entries.len()
        invariant
            i <= entries@.len(),
            all == entry_views(entries@),
            incl == str_views(includes@),
            excl == str_views(excludes@),
            selected_entries(all.take(i as int), separator, incl, excl) == Some(entry_views(r@)),
        decreases entries@.len() - i,
    {
        let e = &entries[i];
        let rel = if separator == '\\' {
            let chars = chars_of(e.rel_path.as_str());
            assert(chars@.skip(0) =~= chars@);
            string_from_chars(&forward_slashes_from(&chars, 0))
        } else {
            e.rel_path.clone()
        };
        assert(all.take(i + 1).drop_last() =~= all.take(i as int));
        assert(all.take(i + 1).last() == all[i as int]);
        let ghost before = r@;
        match path_inclusion(rel.as_str(), includes, excludes) {
            None => {
                proof {
                    lemma_selection_stays_none(all, i as int + 1, separator, incl, excl);
                }
                return None;
            },
            Some(true) => {
                r.push(FileEntry { rel_path: rel, full_canonical_path: e.full_canonical_path.clone() });
                assert(entry_views(r@) =~= entry_views(before).push(
                    (recorded_path(all[i as int].0, separator), all[i as int].1),
                ));
            },
            Some(false) => {},
        }
        i = i + 1;
    }
    assert(all.take(i as int) =~= all);
    Some(r)
}

/// Once the selection of a prefix of the walk is `None`, so is the selection
/// of the whole walk.
proof fn lemma_selection_stays_none(
    all: Seq<(Seq<char>, Seq<char>)>,
    n: int,
    separator: char,
    includes: Seq<Seq<char>>,
    excludes: Seq<Seq<char>>,
)
    requires
        0 <= n <= all.len(),
        selected_entries(all.take(n), separator, includes, excludes) is None,
    ensures
        selected_entries(all, separator, includes, excludes) is None,
    decreases all.len() - n,
{
    if n < all.len() {
        assert(all.take(n + 1).drop_last() =~= all.take(n));
        lemma_selection_stays_none(all, n + 1, separator, includes, excludes);
    } else {
        assert(all.take(n) =~= all);
    }
}

/// Whether `path` lies under `base`, comparing whole path components, as
/// `std::path::Path::starts_with` answers on the target that this library is
/// compiled for.
pub uninterp spec fn path_under(path: Seq<char>, base: Seq<char>) -> bool;

/// Calls `std::path::Path::new(path).starts_with(base)`. Claimed: the result
/// is `path_under(path, base)`.
#[verifier::external_body]
fn path_starts_with(path: &str, base: &str) -> (r: bool)
    ensures
        r == path_under(path@, base@),
{
    std::path::Path::new(path).starts_with(base)
}

/// Whether a file read from disk on request may be served: its canonical
/// path must lie under the canonical folder path, so that a request cannot
/// escape the folder, and its relative path must pass the include and
/// exclude patterns. `None` where the patterns are asked and their walk
/// reaches a pattern that globset does not accept; they are not asked about
/// a file outside the folder.
pub fn may_serve(
    canonical_file: &str,
    canonical_folder: &str,
    rel_file_path: &str,
    includes: &[&str],
    excludes: &[&str],
) -> (r: Option<bool>)
    ensures
        r == (if path_under(canonical_file@, canonical_folder@) {
            inclusion(rel_file_path@, str_views(includes@), str_views(excludes@))
        } else {
            Some(false)
        }),
{
    if !path_starts_with(canonical_file, canonical_folder) {
        return Some(false);
    }
    path_inclusion(rel_file_path, includes, excludes)
}

} // verus!
