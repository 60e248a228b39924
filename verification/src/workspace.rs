//! Persisted workspace records and the catalog invariant.

use vstd::prelude::*;

use crate::text::str_eq;

verus! {

/// A workspace is either a main checkout or a git worktree derived from one.
#[derive(Clone, Copy, PartialEq, Eq, Structural, Debug)]
pub enum WorkspaceKind {
    Main,
    Worktree,
}

impl WorkspaceKind {
    pub fn is_worktree(&self) -> (r: bool)
        ensures
            r == (*self is Worktree),
    {
        matches!(self, WorkspaceKind::Worktree)
    }
}

/// Extra metadata carried by a worktree workspace.
#[derive(Debug)]
pub struct WorktreeInfo {
    pub branch: String,
}

impl Clone for WorktreeInfo {
    fn clone(&self) -> (res: Self)
        ensures
            res == *self,
    {
        WorktreeInfo { branch: self.branch.clone() }
    }
}

/// Per-workspace display settings.
#[derive(Debug)]
pub struct WorkspaceSettings {
    pub sidebar_collapsed: bool,
    pub sort_order: Option<u32>,
}

impl Clone for WorkspaceSettings {
    fn clone(&self) -> (res: Self)
        ensures
            res == *self,
    {
        WorkspaceSettings { sidebar_collapsed: self.sidebar_collapsed, sort_order: self.sort_order }
    }
}

impl Default for WorkspaceSettings {
    fn default() -> (res: Self)
        ensures
            !res.sidebar_collapsed,
            res.sort_order is None,
    {
        WorkspaceSettings { sidebar_collapsed: false, sort_order: None }
    }
}

/// One persisted catalog record.
#[derive(Debug)]
pub struct WorkspaceEntry {
    pub id: String,
    pub name: String,
    pub path: String,
    pub codex_bin: Option<String>,
    pub kind: WorkspaceKind,
    pub parent_id: Option<String>,
    pub worktree: Option<WorktreeInfo>,
    pub settings: WorkspaceSettings,
}

impl Clone for WorkspaceEntry {
    fn clone(&self) -> (res: Self)
        ensures
            res == *self,
    {
        WorkspaceEntry {
            id: self.id.clone(),
            name: self.name.clone(),
            path: self.path.clone(),
            codex_bin: clone_opt_string(&self.codex_bin),
            kind: self.kind,
            parent_id: clone_opt_string(&self.parent_id),
            worktree: match &self.worktree {
                Some(w) => Some(w.clone()),
                None => None,
            },
            settings: self.settings.clone(),
        }
    }
}

pub fn clone_opt_string(s: &Option<String>) -> (res: Option<String>)
    ensures
        res == *s,
{
    match s {
        Some(v) => Some(v.clone()),
        None => None,
    }
}

/// A catalog record extended with whether a live session is attached.
#[derive(Debug)]
pub struct WorkspaceInfo {
    pub id: String,
    pub name: String,
    pub path: String,
    pub codex_bin: Option<String>,
    pub connected: bool,
    pub kind: WorkspaceKind,
    pub parent_id: Option<String>,
    pub worktree: Option<WorktreeInfo>,
    pub settings: WorkspaceSettings,
}

impl Clone for WorkspaceInfo {
    fn clone(&self) -> (res: Self)
        ensures
            res == *self,
    {
        WorkspaceInfo {
            id: self.id.clone(),
            name: self.name.clone(),
            path: self.path.clone(),
            codex_bin: clone_opt_string(&self.codex_bin),
            connected: self.connected,
            kind: self.kind,
            parent_id: clone_opt_string(&self.parent_id),
            worktree: match &self.worktree {
                Some(w) => Some(w.clone()),
                None => None,
            },
            settings: self.settings.clone(),
        }
    }
}

/// First catalog entry whose id reads `id`, if any.
pub open spec fn spec_find_entry(entries: Seq<WorkspaceEntry>, id: Seq<char>) -> Option<
    WorkspaceEntry,
>
    decreases entries.len(),
{
    if entries.len() == 0 {
        None
    } else if entries[0].id@ == id {
        Some(entries[0])
    } else {
        spec_find_entry(entries.skip(1), id)
    }
}

pub open spec fn spec_contains_id(entries: Seq<WorkspaceEntry>, id: Seq<char>) -> bool {
    exists|i: int| 0 <= i < entries.len() && entries[i].id@ == id
}

/// Catalog ids are pairwise distinct.
pub open spec fn unique_ids(entries: Seq<WorkspaceEntry>) -> bool {
    forall|i: int, j: int|
        0 <= i < j < entries.len() ==> entries[i].id@ != entries[j].id@
}

/// Every record is internally consistent: a main entry has no parent and no
/// worktree metadata; a worktree entry carries both, and its parent id
/// resolves to a main entry of the catalog.
pub open spec fn entry_wf(entries: Seq<WorkspaceEntry>, e: WorkspaceEntry) -> bool {
    match e.kind {
        WorkspaceKind::Main => e.parent_id is None && e.worktree is None,
        WorkspaceKind::Worktree => {
            &&& e.parent_id is Some
            &&& e.worktree is Some
            &&& exists|j: int|
                0 <= j < entries.len() && entries[j].id@ == e.parent_id.unwrap()@
                    && entries[j].kind is Main
        },
    }
}

/// The catalog invariant: unique ids, and every worktree has a main parent.
pub open spec fn catalog_wf(entries: Seq<WorkspaceEntry>) -> bool {
    &&& unique_ids(entries)
    &&& forall|i: int| 0 <= i < entries.len() ==> entry_wf(entries, #[trigger] entries[i])
}

/// Proof form of the parent invariant: in a well-formed catalog, each
/// worktree entry names a main entry as its parent.
pub proof fn lemma_worktree_has_main_parent(entries: Seq<WorkspaceEntry>, i: int)
    requires
        catalog_wf(entries),
        0 <= i < entries.len(),
        entries[i].kind is Worktree,
    ensures
        entries[i].parent_id is Some,
        exists|j: int|
            0 <= j < entries.len() && entries[j].id@ == entries[i].parent_id.unwrap()@
                && entries[j].kind is Main,
{
    assert(entry_wf(entries, entries[i]));
}

/// A found entry sits at some index; a `None` answer means no index holds
/// the id.
pub proof fn lemma_find_entry_index(entries: Seq<WorkspaceEntry>, id: Seq<char>)
    ensures
        match spec_find_entry(entries, id) {
            Some(e) => exists|j: int|
                0 <= j < entries.len() && entries[j] == e && #[trigger] entries[j].id@ == id,
            None => !spec_contains_id(entries, id),
        },
        spec_find_entry(entries, id) is Some ==> spec_contains_id(entries, id),
    decreases entries.len(),
{
    if entries.len() == 0 {
        if spec_contains_id(entries, id) {
            let j = choose|j: int| 0 <= j < entries.len() && entries[j].id@ == id;
            assert(false);
        }
    } else if entries[0].id@ == id {
    } else {
        lemma_find_entry_index(entries.skip(1), id);
        match spec_find_entry(entries.skip(1), id) {
            Some(e) => {
                let j = choose|j: int|
                    0 <= j < entries.skip(1).len() && entries.skip(1)[j] == e && entries.skip(
                        1,
                    )[j].id@ == id;
                assert(entries[j + 1] == e && entries[j + 1].id@ == id);
            },
            None => {
                if spec_contains_id(entries, id) {
                    let j = choose|j: int| 0 <= j < entries.len() && entries[j].id@ == id;
                    assert(entries.skip(1)[j - 1].id@ == id);
                }
            },
        }
    }
}

/// Linear scan for the entry with the given id.
pub fn find_entry(entries: &Vec<WorkspaceEntry>, id: &str) -> (res: Option<WorkspaceEntry>)
    ensures
        res == spec_find_entry(entries@, id@),
        res is Some <==> spec_contains_id(entries@, id@),
{
    let mut i: usize = 0;
    proof {
        assert(entries@.skip(0) =~= entries@);
    }
    while i < entries.len()
        invariant
            0 <= i <= entries@.len(),
            forall|k: int| 0 <= k < i ==> entries@[k].id@ != id@,
            spec_find_entry(entries@, id@) == spec_find_entry(entries@.skip(i as int), id@),
        decreases entries@.len() - i,
    {
        assert(entries@.skip(i as int)[0] == entries@[i as int]);
        if str_eq(entries[i].id.as_str(), id) {
            proof {
                assert(spec_find_entry(entries@.skip(i as int), id@) == Some(entries@[i as int]));
            }
            let e = entries[i].clone();
            return Some(e);
        }
        proof {
            assert(entries@.skip(i as int).skip(1) =~= entries@.skip(i + 1));
        }
        i += 1;
    }
    proof {
        assert(entries@.skip(i as int) =~= Seq::<WorkspaceEntry>::empty());
        if spec_contains_id(entries@, id@) {
            let w = choose|k: int| 0 <= k < entries@.len() && entries@[k].id@ == id@;
            assert(false);
        }
    }
    None
}

/// Relies on uuid::Uuid::new_v4 and its hyphenated `Display` form: a
/// random identifier, 36 characters long.
#[verifier::external_body]
fn generate_uuid() -> (r: String)
    ensures
        r@.len() == 36,
{
    uuid::Uuid::new_v4().to_string()
}

/// Draws random ids until one is absent from the catalog. The bound only
/// serves termination: a collision among random identifiers is all but
/// impossible, and `None` reports that the draw kept failing.
pub fn fresh_workspace_id(entries: &Vec<WorkspaceEntry>) -> (r: Option<String>)
    ensures
        r matches Some(id) ==> !spec_contains_id(entries@, id@) && id@.len() == 36,
{
    let mut attempts: usize = 0;
    while attempts < 16
        invariant
            attempts <= 16,
        decreases 16 - attempts,
    {
        let id = generate_uuid();
        match find_entry(entries, id.as_str()) {
            None => {
                return Some(id);
            },
            Some(_) => {},
        }
        attempts += 1;
    }
    None
}

/// `p` with trailing slashes dropped.
pub open spec fn trim_slash_back(p: Seq<char>) -> Seq<char>
    decreases p.len(),
{
    if p.len() > 0 && p[p.len() - 1] == '/' {
        trim_slash_back(p.take(p.len() - 1))
    } else {
        p
    }
}

/// The characters after the last `/` of `p`; all of `p` when it has none.
pub open spec fn after_last_slash(p: Seq<char>) -> Seq<char>
    decreases p.len(),
{
    if p.len() == 0 {
        p
    } else if p[p.len() - 1] == '/' {
        Seq::empty()
    } else {
        after_last_slash(p.take(p.len() - 1)).push(p[p.len() - 1])
    }
}

/// The final path component of `p`: trailing slashes dropped, then the
/// segment after the last slash; nothing when that segment is empty or a
/// dot form.
pub open spec fn spec_file_name(p: Seq<char>) -> Option<Seq<char>> {
    let seg = after_last_slash(trim_slash_back(p));
    if seg.len() == 0 || seg == "."@ || seg == ".."@ {
        None
    } else {
        Some(seg)
    }
}

proof fn lemma_after_last_slash(t: Seq<char>, start: int)
    requires
        0 <= start <= t.len(),
        forall|k: int| start <= k < t.len() ==> t[k] != '/',
        start > 0 ==> t[start - 1] == '/',
    ensures
        after_last_slash(t) == t.subrange(start, t.len() as int),
    decreases t.len(),
{
    if t.len() == 0 {
        assert(t.subrange(0, 0) =~= t);
    } else if t[t.len() - 1] == '/' {
        assert(start == t.len());
        assert(t.subrange(start, t.len() as int) =~= Seq::<char>::empty());
    } else {
        assert(start < t.len());
        let head = t.take(t.len() - 1);
        lemma_after_last_slash(head, start);
        assert(after_last_slash(t) == head.subrange(start, head.len() as int).push(
            t[t.len() - 1],
        ));
        assert(head.subrange(start, head.len() as int).push(t[t.len() - 1]) =~= t.subrange(
            start,
            t.len() as int,
        ));
    }
}

/// The final path component, as `spec_file_name` reads it.
pub fn path_file_name(path: &str) -> (r: Option<String>)
    ensures
        match r {
            Some(n) => spec_file_name(path@) == Some(n@),
            None => spec_file_name(path@) is None,
        },
{
    let len = path.unicode_len();
    let mut end: usize = len;
    proof {
        assert(path@.take(len as int) =~= path@);
    }
    while end > 0 && path.get_char(end - 1) == '/'
        invariant
            len == path@.len(),
            0 <= end <= len,
            trim_slash_back(path@) == trim_slash_back(path@.take(end as int)),
        decreases end,
    {
        proof {
            let seg = path@.take(end as int);
            assert(seg[seg.len() - 1] == path@[end - 1]);
            assert(seg.take(seg.len() - 1) =~= path@.take(end - 1));
        }
        end -= 1;
    }
    proof {
        let seg = path@.take(end as int);
        if end > 0 {
            assert(seg[seg.len() - 1] == path@[end - 1]);
        }
        assert(trim_slash_back(seg) =~= seg);
    }
    let mut start: usize = end;
    while start > 0 && path.get_char(start - 1) != '/'
        invariant
            len == path@.len(),
            0 <= start <= end <= len,
            forall|k: int| start <= k < end ==> path@[k] != '/',
        decreases start,
    {
        start -= 1;
    }
    let ghost t = path@.take(end as int);
    proof {
        assert forall|k: int| start <= k < t.len() implies t[k] != '/' by {
            assert(t[k] == path@[k]);
        }
        if start > 0 {
            assert(t[start - 1] == path@[start - 1]);
        }
        lemma_after_last_slash(t, start as int);
        assert(t.subrange(start as int, t.len() as int) =~= path@.subrange(
            start as int,
            end as int,
        ));
    }
    let seg = path.substring_char(start, end);
    if seg.unicode_len() == 0 || str_eq(seg, ".") || str_eq(seg, "..") {
        None
    } else {
        Some(crate::text::str_to_string(seg))
    }
}

/// A fresh main-workspace record for `path`: named after the final path
/// component (or `"Workspace"`), carrying the optional binary override and
/// default settings.
pub fn make_workspace_entry(path: &str, codex_bin: Option<String>, id: String) -> (e:
    WorkspaceEntry)
    ensures
        e.id == id,
        e.path@ == path@,
        e.name@ == match spec_file_name(path@) {
            Some(n) => n,
            None => "Workspace"@,
        },
        e.codex_bin == codex_bin,
        e.kind is Main,
        e.parent_id is None,
        e.worktree is None,
        !e.settings.sidebar_collapsed,
        e.settings.sort_order is None,
{
    let name = match path_file_name(path) {
        Some(n) => n,
        None => crate::text::str_to_string("Workspace"),
    };
    WorkspaceEntry {
        id,
        name,
        path: crate::text::str_to_string(path),
        codex_bin,
        kind: WorkspaceKind::Main,
        parent_id: None,
        worktree: None,
        settings: WorkspaceSettings { sidebar_collapsed: false, sort_order: None },
    }
}

/// A fresh worktree record under `parent`: named after the branch, at the
/// materialised path, inheriting the parent's binary override.
pub fn make_worktree_entry(parent: &WorkspaceEntry, branch: &str, path: &str, id: String) -> (e:
    WorkspaceEntry)
    ensures
        e.id == id,
        e.name@ == branch@,
        e.path@ == path@,
        e.codex_bin == parent.codex_bin,
        e.kind is Worktree,
        e.parent_id matches Some(p) && p@ == parent.id@,
        e.worktree matches Some(w) && w.branch@ == branch@,
        !e.settings.sidebar_collapsed,
        e.settings.sort_order is None,
{
    WorkspaceEntry {
        id,
        name: crate::text::str_to_string(branch),
        path: crate::text::str_to_string(path),
        codex_bin: clone_opt_string(&parent.codex_bin),
        kind: WorkspaceKind::Worktree,
        parent_id: Some(parent.id.clone()),
        worktree: Some(WorktreeInfo { branch: crate::text::str_to_string(branch) }),
        settings: WorkspaceSettings { sidebar_collapsed: false, sort_order: None },
    }
}

} // verus!
