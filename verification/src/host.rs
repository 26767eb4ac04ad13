//! Compiler-host state: the live edit buffer, the document root
//! directory, and the cache of loaded non-main sources.
//!
//! The typesetting engine addresses every unit of input by a file id:
//! the live buffer, a path relative to the document root, or a file of
//! a versioned remote package.  Path arithmetic and cache policy live
//! here; reading a file from disk and downloading a package are left to
//! the hosting process, which hands the loaded text back.

use vstd::prelude::*;

use crate::digits::spec_dec_str;
use crate::digits::append_u64_dec_str;

verus! {

/// A `(namespace, name, version)` package reference.
pub struct PackageSpecModel {
    pub namespace: String,
    pub name: String,
    pub major: u64,
    pub minor: u64,
    pub patch: u64,
}

/// Identity of one unit of compiler input: the live buffer or a local
/// file when `package` is `None`, a packaged file otherwise.  `vpath`
/// is the rootless virtual path.
pub struct FileIdModel {
    pub package: Option<PackageSpecModel>,
    pub vpath: String,
}

/// File id equality, by content.
pub open spec fn spec_id_eq(a: FileIdModel, b: FileIdModel) -> bool {
    &&& a.vpath@ == b.vpath@
    &&& match (a.package, b.package) {
        (None, None) => true,
        (Some(x), Some(y)) => {
            &&& x.namespace@ == y.namespace@
            &&& x.name@ == y.name@
            &&& x.major == y.major
            &&& x.minor == y.minor
            &&& x.patch == y.patch
        },
        _ => false,
    }
}

/// File id equality; see [`spec_id_eq`].
pub fn file_id_eq(a: &FileIdModel, b: &FileIdModel) -> (r: bool)
    ensures
        r == spec_id_eq(*a, *b),
{
    if !(a.vpath == b.vpath) {
        return false;
    }
    match (&a.package, &b.package) {
        (None, None) => true,
        (Some(x), Some(y)) => x.namespace == y.namespace && x.name == y.name && x.major == y.major
            && x.minor == y.minor && x.patch == y.patch,
        _ => false,
    }
}

// ---------------------------------------------------------------------
// Path arithmetic on virtual paths.
// ---------------------------------------------------------------------

/// Index of the last `/`, if any.
pub open spec fn spec_last_slash(s: Seq<char>) -> Option<int>
    decreases s.len(),
{
    if s.len() == 0 {
        None
    } else if s[s.len() - 1] == '/' {
        Some(s.len() - 1)
    } else {
        spec_last_slash(s.drop_last())
    }
}

/// Everything before the last `/`; empty when there is none.
pub open spec fn spec_parent_dir(path: Seq<char>) -> Seq<char> {
    match spec_last_slash(path) {
        Some(i) => path.take(i),
        None => Seq::empty(),
    }
}

/// Everything after the last `/`; the whole path when there is none.
pub open spec fn spec_file_name(path: Seq<char>) -> Seq<char> {
    match spec_last_slash(path) {
        Some(i) => path.skip(i + 1),
        None => path,
    }
}

fn last_slash(s: &str) -> (r: Option<usize>)
    ensures
        match r {
            Some(u) => u < s@.len() && spec_last_slash(s@) == Some(u as int),
            None => spec_last_slash(s@) is None,
        },
{
    let n = s.unicode_len();
    let mut found: Option<usize> = None;
    for k in 0..n
        invariant
            n == s@.len(),
            match found {
                Some(u) => u < k && spec_last_slash(s@.take(k as int)) == Some(u as int),
                None => spec_last_slash(s@.take(k as int)) is None,
            },
    {
        let c = s.get_char(k);
        proof {
            assert(s@.take(k + 1).drop_last() =~= s@.take(k as int));
            assert(s@.take(k + 1)[k as int] == s@[k as int]);
        }
        if c == '/' {
            found = Some(k);
        }
    }
    proof {
        assert(s@.take(n as int) =~= s@);
    }
    found
}

/// The parent directory of a file path, as the host computes the
/// document root.
pub fn parent_dir(path: &str) -> (r: String)
    ensures
        r@ == spec_parent_dir(path@),
{
    match last_slash(path) {
        Some(i) => {
            let sub = path.substring_char(0, i);
            sub.to_owned()
        },
        None => String::new(),
    }
}

/// The file-name part of a file path.
pub fn file_name_of(path: &str) -> (r: String)
    ensures
        r@ == spec_file_name(path@),
{
    let n = path.unicode_len();
    match last_slash(path) {
        Some(i) => {
            let sub = path.substring_char(i + 1, n);
            proof {
                assert(path@.subrange(i + 1, n as int) =~= path@.skip(i + 1));
            }
            sub.to_owned()
        },
        None => path.to_owned(),
    }
}

/// Character-wise string equality.
pub fn str_eq(a: &str, b: &str) -> (r: bool)
    ensures
        r == (a@ == b@),
{
    let n = a.unicode_len();
    let m = b.unicode_len();
    if n != m {
        return false;
    }
    for k in 0..n
        invariant
            n == a@.len(),
            n == b@.len(),
            forall|j: int| 0 <= j < k ==> a@[j] == b@[j],
    {
        if a.get_char(k) != b.get_char(k) {
            return false;
        }
    }
    proof {
        assert(a@ =~= b@);
    }
    true
}

/// Does `s` begin with `prefix`?
pub open spec fn spec_starts_with(s: Seq<char>, prefix: Seq<char>) -> bool {
    s.len() >= prefix.len() && s.take(prefix.len() as int) == prefix
}

fn str_starts_with(s: &str, prefix: &str) -> (r: bool)
    ensures
        r == spec_starts_with(s@, prefix@),
{
    let n = s.unicode_len();
    let m = prefix.unicode_len();
    if m > n {
        return false;
    }
    for k in 0..m
        invariant
            n == s@.len(),
            m == prefix@.len(),
            m <= n,
            forall|j: int| 0 <= j < k ==> s@[j] == prefix@[j],
    {
        if s.get_char(k) != prefix.get_char(k) {
            proof {
                assert(s@.take(m as int)[k as int] != prefix@[k as int]);
            }
            return false;
        }
    }
    proof {
        assert(s@.take(m as int) =~= prefix@);
    }
    true
}

/// Strip every leading `@`.
pub open spec fn spec_trim_ats(s: Seq<char>) -> Seq<char>
    decreases s.len(),
{
    if s.len() > 0 && s[0] == '@' {
        spec_trim_ats(s.drop_first())
    } else {
        s
    }
}

proof fn lemma_trim_ats_at(s: Seq<char>, k: int)
    requires
        0 <= k <= s.len(),
        forall|j: int| 0 <= j < k ==> s[j] == '@',
        k < s.len() ==> s[k] != '@',
    ensures
        spec_trim_ats(s) == s.skip(k),
    decreases k,
{
    if k == 0 {
        assert(s.skip(0) =~= s);
    } else {
        lemma_trim_ats_at(s.drop_first(), k - 1);
        assert(s.drop_first().skip(k - 1) =~= s.skip(k));
    }
}

fn trim_ats(s: &str) -> (r: String)
    ensures
        r@ == spec_trim_ats(s@),
{
    let n = s.unicode_len();
    let mut k: usize = 0;
    while k < n && s.get_char(k) == '@'
        invariant
            n == s@.len(),
            k <= n,
            forall|j: int| 0 <= j < k ==> s@[j] == '@',
        decreases n - k,
    {
        k = k + 1;
    }
    proof {
        lemma_trim_ats_at(s@, k as int);
    }
    let sub = s.substring_char(k, n);
    proof {
        assert(s@.subrange(k as int, n as int) =~= s@.skip(k as int));
    }
    sub.to_owned()
}

/// Join a path onto a directory: an absolute path stands alone.
pub open spec fn spec_join(dir: Seq<char>, p: Seq<char>) -> Seq<char> {
    if p.len() > 0 && p[0] == '/' {
        p
    } else {
        dir + seq!['/'] + p
    }
}

fn join_path(dir: &str, p: &str) -> (r: String)
    ensures
        r@ == spec_join(dir@, p@),
{
    proof {
        reveal_strlit("/");
    }
    let n = p.unicode_len();
    if n > 0 && p.get_char(0) == '/' {
        return p.to_owned();
    }
    let mut out = dir.to_owned();
    out.append("/");
    out.append(p);
    proof {
        assert(out@ =~= dir@ + seq!['/'] + p@);
    }
    out
}

// ---------------------------------------------------------------------
// Package path resolution.
// ---------------------------------------------------------------------

/// The virtual-path prefix a packaged file carries:
/// `@namespace/name:major.minor.patch/`.
pub open spec fn spec_package_prefix(ps: PackageSpecModel) -> Seq<char> {
    seq!['@'] + ps.namespace@ + seq!['/'] + ps.name@ + seq![':'] + spec_dec_str(ps.major as nat)
        + seq!['.'] + spec_dec_str(ps.minor as nat) + seq!['.'] + spec_dec_str(ps.patch as nat)
        + seq!['/']
}

/// Build the package's virtual-path prefix.
pub fn package_prefix(ps: &PackageSpecModel) -> (r: String)
    ensures
        r@ == spec_package_prefix(*ps),
{
    proof {
        reveal_strlit("@");
        reveal_strlit("/");
        reveal_strlit(":");
        reveal_strlit(".");
    }
    let mut out = String::new();
    out.append("@");
    out.append(ps.namespace.as_str());
    out.append("/");
    out.append(ps.name.as_str());
    out.append(":");
    append_u64_dec_str(&mut out, ps.major);
    out.append(".");
    append_u64_dec_str(&mut out, ps.minor);
    out.append(".");
    append_u64_dec_str(&mut out, ps.patch);
    out.append("/");
    proof {
        assert(out@ =~= spec_package_prefix(*ps));
    }
    out
}

/// Where a packaged file lies under its downloaded package directory:
/// the virtual path with the package prefix stripped when it carries
/// one, else with every leading `@` stripped, joined onto the
/// directory.  `None` for an id that names no package.
pub open spec fn spec_resolve_package_path(id: FileIdModel, package_dir: Seq<char>) -> Option<
    Seq<char>,
> {
    match id.package {
        None => None,
        Some(ps) => {
            let prefix = spec_package_prefix(ps);
            let rel = if spec_starts_with(id.vpath@, prefix) {
                id.vpath@.skip(prefix.len() as int)
            } else {
                spec_trim_ats(id.vpath@)
            };
            Some(spec_join(package_dir, rel))
        },
    }
}

/// Resolve a packaged file id against its downloaded package directory;
/// see [`spec_resolve_package_path`].  The download itself is the
/// hosting process's affair.
pub fn resolve_package_path(id: &FileIdModel, package_dir: &str) -> (r: Option<String>)
    ensures
        match r {
            Some(p) => spec_resolve_package_path(*id, package_dir@) == Some(p@),
            None => spec_resolve_package_path(*id, package_dir@) is None,
        },
{
    match &id.package {
        None => None,
        Some(ps) => {
            let prefix = package_prefix(ps);
            let n = id.vpath.as_str().unicode_len();
            let rel: String = if str_starts_with(id.vpath.as_str(), prefix.as_str()) {
                let m = prefix.as_str().unicode_len();
                let sub = id.vpath.as_str().substring_char(m, n);
                proof {
                    assert(id.vpath@.subrange(m as int, n as int) =~= id.vpath@.skip(m as int));
                }
                sub.to_owned()
            } else {
                trim_ats(id.vpath.as_str())
            };
            Some(join_path(package_dir, rel.as_str()))
        },
    }
}

// ---------------------------------------------------------------------
// The host state.
// ---------------------------------------------------------------------

/// Virtual file system and live buffer handed to the typesetting
/// engine: the main file id, its current text, the document root, and
/// the cache of loaded non-main sources.
pub struct EditorWorld {
    pub main_vpath: String,
    pub source: String,
    pub root_dir: Option<String>,
    pub cache: Vec<(FileIdModel, String)>,
}

/// The id of the live buffer.
pub open spec fn spec_main_id(w: EditorWorld) -> FileIdModel {
    FileIdModel { package: None, vpath: w.main_vpath }
}

/// First cache index holding `id`, from `i`; `len` when absent.
pub open spec fn spec_cache_find(c: Seq<(FileIdModel, String)>, id: FileIdModel, i: int) -> int
    decreases c.len() - i,
{
    if i < 0 || i >= c.len() {
        c.len() as int
    } else if spec_id_eq(c[i].0, id) {
        i
    } else {
        spec_cache_find(c, id, i + 1)
    }
}

/// The cached text for `id`, if any.
pub open spec fn spec_cache_get(c: Seq<(FileIdModel, String)>, id: FileIdModel) -> Option<String> {
    let j = spec_cache_find(c, id, 0);
    if j < c.len() {
        Some(c[j].1)
    } else {
        None
    }
}

/// No file id occurs twice in the cache.
pub open spec fn spec_cache_keys_unique(c: Seq<(FileIdModel, String)>) -> bool {
    forall|j: int, k: int|
        0 <= j < k < c.len() ==> !spec_id_eq((#[trigger] c[j]).0, (#[trigger] c[k]).0)
}

/// A well-formed host: cache keys unique.
pub open spec fn spec_world_wf(w: EditorWorld) -> bool {
    spec_cache_keys_unique(w.cache@)
}

impl EditorWorld {
    /// A fresh host around the given buffer text.  With a file path the
    /// main id takes the path's file name (`main.typ` when the path has
    /// none) and the root directory its parent; without one, the main
    /// id is `main.typ` and no root is set.
    pub fn new(content: &str, file_path: Option<&str>) -> (w: EditorWorld)
        ensures
            w.source@ == content@,
            w.cache@.len() == 0,
            spec_world_wf(w),
            match file_path {
                Some(p) => {
                    &&& w.main_vpath@ == (if spec_file_name(p@).len() > 0 {
                        spec_file_name(p@)
                    } else {
                        "main.typ"@
                    })
                    &&& w.root_dir matches Some(d) && d@ == spec_parent_dir(p@)
                },
                None => w.main_vpath@ == "main.typ"@ && w.root_dir is None,
            },
    {
        match file_path {
            Some(p) => {
                let name = file_name_of(p);
                let main_vpath = if name.as_str().unicode_len() > 0 {
                    name
                } else {
                    String::from_str("main.typ")
                };
                let root = parent_dir(p);
                EditorWorld {
                    main_vpath,
                    source: content.to_owned(),
                    root_dir: Some(root),
                    cache: Vec::new(),
                }
            },
            None => EditorWorld {
                main_vpath: String::from_str("main.typ"),
                source: content.to_owned(),
                root_dir: None,
                cache: Vec::new(),
            },
        }
    }

    /// Replace the buffer text wholesale.  With a file path, the root
    /// directory is recomputed from its parent and — the root having
    /// changed — the whole non-main cache is dropped; without one,
    /// root and cache are untouched.
    pub fn update_source(&mut self, content: &str, file_path: Option<&str>)
        ensures
            final(self).source@ == content@,
            final(self).main_vpath == old(self).main_vpath,
            match file_path {
                Some(p) => {
                    &&& final(self).root_dir matches Some(d) && d@ == spec_parent_dir(p@)
                    &&& final(self).cache@.len() == 0
                },
                None => final(self).root_dir == old(self).root_dir && final(self).cache
                    == old(self).cache,
            },
            spec_world_wf(*old(self)) ==> spec_world_wf(*final(self)),
    {
        self.source = content.to_owned();
        if let Some(p) = file_path {
            let root = parent_dir(p);
            self.root_dir = Some(root);
            self.cache.clear();
        }
    }

    /// A snapshot of the current buffer text.
    pub fn snapshot_source(&self) -> (r: String)
        ensures
            r@ == self.source@,
    {
        self.source.clone()
    }

    /// Does this id name the live buffer?
    pub fn is_main(&self, id: &FileIdModel) -> (r: bool)
        ensures
            r == spec_id_eq(*id, spec_main_id(*self)),
    {
        match &id.package {
            Some(_) => false,
            None => id.vpath == self.main_vpath,
        }
    }

    /// The text the host can already answer for `id`: the live buffer
    /// for the main id, else the cached text.  `None` asks the hosting
    /// process to resolve and load the file, then hand the text to
    /// [`EditorWorld::store_source`] — on success only, so a failed
    /// load is never cached.
    pub fn lookup_source(&self, id: &FileIdModel) -> (r: Option<String>)
        ensures
            ({
                if spec_id_eq(*id, spec_main_id(*self)) {
                    r matches Some(t) && t@ == self.source@
                } else {
                    r == spec_cache_get(self.cache@, *id)
                }
            }),
    {
        if self.is_main(id) {
            return Some(self.source.clone());
        }
        let n = self.cache.len();
        for i in 0..n
            invariant
                n == self.cache@.len(),
                !spec_id_eq(*id, spec_main_id(*self)),
                spec_cache_find(self.cache@, *id, 0) == spec_cache_find(self.cache@, *id, i as int),
        {
            if file_id_eq(&self.cache[i].0, id) {
                proof {
                    assert(spec_cache_find(self.cache@, *id, i as int) == i as int);
                }
                return Some(self.cache[i].1.clone());
            }
        }
        None
    }

    /// Record a successfully loaded non-main source in the cache.
    pub fn store_source(&mut self, id: FileIdModel, text: String)
        requires
            spec_world_wf(*old(self)),
        ensures
            spec_world_wf(*final(self)),
            spec_cache_get(final(self).cache@, id) matches Some(t) && t@ == text@,
            final(self).source == old(self).source,
            final(self).main_vpath == old(self).main_vpath,
            final(self).root_dir == old(self).root_dir,
            forall|q: FileIdModel|
                !spec_id_eq(q, id) ==> #[trigger] spec_cache_get(final(self).cache@, q)
                    == spec_cache_get(old(self).cache@, q),
    {
        let n = self.cache.len();
        for i in 0..n
            invariant
                n == self.cache@.len(),
                self == old(self),
                spec_world_wf(*old(self)),
                spec_cache_find(self.cache@, id, 0) == spec_cache_find(self.cache@, id, i as int),
        {
            if file_id_eq(&self.cache[i].0, &id) {
                proof {
                    assert(spec_cache_find(self.cache@, id, i as int) == i as int);
                    assert(spec_cache_keys_unique(old(self).cache@));
                }
                self.cache.remove(i);
                let ghost mid = self.cache@;
                self.cache.insert(i, (id, text));
                proof {
                    assert(self.cache@ =~= old(self).cache@.update(
                        i as int,
                        (id, text),
                    ));
                    lemma_cache_update_get(old(self).cache@, i as int, id, text);
                }
                return ;
            }
        }
        self.cache.push((id, text));
        proof {
            lemma_cache_push_get(old(self).cache@, id, text);
        }
    }

    /// Resolve a non-package id to a concrete path: under the document
    /// root when one is set, else under the given working directory.
    /// Ids that still carry a package sigil resolve to nothing.
    pub fn resolve_path(&self, id: &FileIdModel, cwd: &str) -> (r: Option<String>)
        ensures
            ({
                if id.vpath@.len() > 0 && id.vpath@[0] == '@' {
                    r is None
                } else {
                    match self.root_dir {
                        Some(root) => r matches Some(p) && p@ == spec_join(root@, id.vpath@),
                        None => r matches Some(p) && p@ == spec_join(cwd@, id.vpath@),
                    }
                }
            }),
    {
        let n = id.vpath.as_str().unicode_len();
        if n > 0 && id.vpath.as_str().get_char(0) == '@' {
            return None;
        }
        match &self.root_dir {
            Some(root) => Some(join_path(root.as_str(), id.vpath.as_str())),
            None => Some(join_path(cwd, id.vpath.as_str())),
        }
    }
}

/// The diagnostic text for an id that resolved to nothing: package
/// identity for an unresolved package sigil, else the virtual path.
pub open spec fn spec_not_found_message(id: FileIdModel) -> Seq<char> {
    if id.vpath@.len() > 0 && id.vpath@[0] == '@' && id.package is Some {
        let ps = id.package->Some_0;
        "Package not found: "@ + ps.name@ + " ("@ + spec_dec_str(ps.major as nat) + "."@
            + spec_dec_str(ps.minor as nat) + "."@ + spec_dec_str(ps.patch as nat)
            + "). Check internet connection."@
    } else {
        id.vpath@
    }
}

/// Build the not-found diagnostic; see [`spec_not_found_message`].
pub fn not_found_message(id: &FileIdModel) -> (r: String)
    ensures
        r@ == spec_not_found_message(*id),
{
    let n = id.vpath.as_str().unicode_len();
    if n > 0 && id.vpath.as_str().get_char(0) == '@' {
        if let Some(ps) = &id.package {
            let mut out = String::from_str("Package not found: ");
            out.append(ps.name.as_str());
            out.append(" (");
            append_u64_dec_str(&mut out, ps.major);
            out.append(".");
            append_u64_dec_str(&mut out, ps.minor);
            out.append(".");
            append_u64_dec_str(&mut out, ps.patch);
            out.append("). Check internet connection.");
            proof {
                assert(out@ =~= spec_not_found_message(*id));
            }
            return out;
        }
    }
    id.vpath.clone()
}

proof fn lemma_cache_update_get(c: Seq<(FileIdModel, String)>, i: int, id: FileIdModel, text: String)
    requires
        spec_cache_keys_unique(c),
        0 <= i < c.len(),
        spec_id_eq(c[i].0, id),
        spec_cache_find(c, id, 0) == i,
    ensures
        spec_cache_keys_unique(c.update(i, (id, text))),
        spec_cache_get(c.update(i, (id, text)), id) matches Some(t) && t == text,
        forall|q: FileIdModel|
            !spec_id_eq(q, id) ==> #[trigger] spec_cache_get(c.update(i, (id, text)), q)
                == spec_cache_get(c, q),
{
    let c2 = c.update(i, (id, text));
    assert forall|j: int, k: int| 0 <= j < k < c2.len() implies !spec_id_eq(
        (#[trigger] c2[j]).0,
        (#[trigger] c2[k]).0,
    ) by {
        lemma_id_eq_props(c[j].0, c[k].0, id);
    }
    lemma_cache_find_congruent(c, c2, id, 0);
    assert(spec_cache_find(c2, id, 0) == i);
    assert forall|q: FileIdModel| !spec_id_eq(q, id) implies #[trigger] spec_cache_get(c2, q)
        == spec_cache_get(c, q) by {
        lemma_cache_find_skips(c, c2, q, 0);
    }
}

proof fn lemma_cache_push_get(c: Seq<(FileIdModel, String)>, id: FileIdModel, text: String)
    requires
        spec_cache_keys_unique(c),
        spec_cache_find(c, id, 0) == c.len(),
    ensures
        spec_cache_keys_unique(c.push((id, text))),
        spec_cache_get(c.push((id, text)), id) matches Some(t) && t == text,
        forall|q: FileIdModel|
            !spec_id_eq(q, id) ==> #[trigger] spec_cache_get(c.push((id, text)), q)
                == spec_cache_get(c, q),
{
    let c2 = c.push((id, text));
    lemma_cache_find_props(c, id, 0);
    assert forall|j: int, k: int| 0 <= j < k < c2.len() implies !spec_id_eq(
        (#[trigger] c2[j]).0,
        (#[trigger] c2[k]).0,
    ) by {
        if k == c.len() {
            lemma_id_eq_props(c[j].0, id, id);
        }
    }
    lemma_cache_find_last(c2, id);
    assert forall|q: FileIdModel| !spec_id_eq(q, id) implies #[trigger] spec_cache_get(c2, q)
        == spec_cache_get(c, q) by {
        lemma_cache_find_skips(c, c2, q, 0);
    }
}

/// Transitivity-flavoured facts about id equality.
proof fn lemma_id_eq_props(a: FileIdModel, b: FileIdModel, c: FileIdModel)
    ensures
        spec_id_eq(a, a),
        spec_id_eq(a, b) == spec_id_eq(b, a),
        spec_id_eq(a, c) && spec_id_eq(b, c) ==> spec_id_eq(a, b),
{
}

proof fn lemma_cache_find_props(c: Seq<(FileIdModel, String)>, id: FileIdModel, i: int)
    requires
        0 <= i <= c.len(),
    ensures
        i <= spec_cache_find(c, id, i) <= c.len(),
        spec_cache_find(c, id, i) < c.len() ==> spec_id_eq(c[spec_cache_find(c, id, i)].0, id),
        forall|j: int|
            i <= j < spec_cache_find(c, id, i) ==> !spec_id_eq((#[trigger] c[j]).0, id),
    decreases c.len() - i,
{
    if i < c.len() && !spec_id_eq(c[i].0, id) {
        lemma_cache_find_props(c, id, i + 1);
    }
}

/// Finding `id` is unchanged by rewriting the entry that holds `id`.
proof fn lemma_cache_find_congruent(
    c: Seq<(FileIdModel, String)>,
    c2: Seq<(FileIdModel, String)>,
    id: FileIdModel,
    i: int,
)
    requires
        0 <= i <= c.len(),
        c2.len() == c.len(),
        forall|k: int| 0 <= k < c.len() ==> spec_id_eq((#[trigger] c2[k]).0, id) == spec_id_eq(c[k].0, id),
    ensures
        spec_cache_find(c2, id, i) == spec_cache_find(c, id, i),
    decreases c.len() - i,
{
    if i < c.len() {
        lemma_cache_find_congruent(c, c2, id, i + 1);
    }
}

/// A lookup of a key that misses the rewritten or appended entry is
/// answered as before.
proof fn lemma_cache_find_skips(
    c: Seq<(FileIdModel, String)>,
    c2: Seq<(FileIdModel, String)>,
    q: FileIdModel,
    i: int,
)
    requires
        0 <= i <= c.len(),
        c2.len() == c.len() || c2.len() == c.len() + 1,
        forall|k: int| 0 <= k < c.len() ==> #[trigger] c2[k] == c[k] || !spec_id_eq(c[k].0, q)
            && !spec_id_eq(c2[k].0, q),
        c2.len() == c.len() + 1 ==> !spec_id_eq(c2[c.len() as int].0, q),
    ensures
        ({
            let j = spec_cache_find(c, q, i);
            let j2 = spec_cache_find(c2, q, i);
            if j < c.len() {
                j2 == j && c2[j2] == c[j]
            } else {
                j2 >= c2.len()
            }
        }),
    decreases c.len() - i,
{
    if i < c.len() {
        if spec_id_eq(c[i].0, q) {
        } else {
            lemma_cache_find_skips(c, c2, q, i + 1);
        }
    } else {
        if c2.len() == c.len() + 1 {
            assert(spec_cache_find(c2, q, i + 1) == c2.len());
            assert(spec_cache_find(c2, q, i) == c2.len());
        }
    }
}

proof fn lemma_cache_find_last(c2: Seq<(FileIdModel, String)>, id: FileIdModel)
    requires
        c2.len() > 0,
        spec_id_eq(c2[c2.len() - 1].0, id),
        forall|j: int| 0 <= j < c2.len() - 1 ==> !spec_id_eq((#[trigger] c2[j]).0, id),
    ensures
        spec_cache_find(c2, id, 0) == c2.len() - 1,
{
    lemma_cache_find_props(c2, id, 0);
    let f = spec_cache_find(c2, id, 0);
    if f < c2.len() - 1 {
        assert(!spec_id_eq(c2[f].0, id));
    }
}

} // verus!
