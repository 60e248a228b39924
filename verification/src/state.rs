//! The daemon's in-memory state — the workspace catalog and the set of
//! connected sessions — and the pure transition of every mutating
//! operation. Outside work (process spawns, git, the filesystem) happens
//! between these transitions; each transition states exactly what it
//! changes.

use vstd::prelude::*;

use crate::settings::AppSettings;
use crate::sorting::{sort_workspaces, ws_sorted};
use crate::text::{spec_has_str, spec_trim, str_eq, str_to_string, str_trim, vec_contains_str};
use crate::workspace::{catalog_wf, clone_opt_string, entry_wf, find_entry, spec_contains_id,
    spec_find_entry, unique_ids, WorkspaceEntry, WorkspaceInfo};

verus! {

pub open spec fn distinct_strs(v: Seq<String>) -> bool {
    forall|i: int, j: int| 0 <= i < j < v.len() ==> v[i]@ != v[j]@
}

/// The daemon state: the persisted catalog, the ids with a live session,
/// and the application settings.
pub struct DaemonState {
    pub workspaces: Vec<WorkspaceEntry>,
    pub connected: Vec<String>,
    pub app_settings: AppSettings,
}

/// The listing record derived from a catalog entry.
pub open spec fn spec_info_of(e: WorkspaceEntry, connected: bool) -> WorkspaceInfo {
    WorkspaceInfo {
        id: e.id,
        name: e.name,
        path: e.path,
        codex_bin: e.codex_bin,
        connected,
        kind: e.kind,
        parent_id: e.parent_id,
        worktree: e.worktree,
        settings: e.settings,
    }
}

/// The unsorted listing of a catalog against a set of connected ids.
pub open spec fn spec_infos(ws: Seq<WorkspaceEntry>, conn: Seq<String>) -> Seq<WorkspaceInfo> {
    ws.map_values(|e: WorkspaceEntry| spec_info_of(e, spec_has_str(conn, e.id@)))
}

pub fn make_info(e: &WorkspaceEntry, connected: bool) -> (r: WorkspaceInfo)
    ensures
        r == spec_info_of(*e, connected),
{
    WorkspaceInfo {
        id: e.id.clone(),
        name: e.name.clone(),
        path: e.path.clone(),
        codex_bin: clone_opt_string(&e.codex_bin),
        connected,
        kind: e.kind,
        parent_id: clone_opt_string(&e.parent_id),
        worktree: match &e.worktree {
            Some(w) => Some(w.clone()),
            None => None,
        },
        settings: e.settings.clone(),
    }
}

impl DaemonState {
    /// Catalog invariant, distinct connected ids, and every connected id
    /// resolving to a catalog entry.
    pub open spec fn wf(self) -> bool {
        &&& catalog_wf(self.workspaces@)
        &&& distinct_strs(self.connected@)
        &&& forall|i: int|
            0 <= i < self.connected@.len() ==> spec_contains_id(
                self.workspaces@,
                #[trigger] self.connected@[i]@,
            )
    }

    pub open spec fn spec_is_connected(self, id: Seq<char>) -> bool {
        spec_has_str(self.connected@, id)
    }

    /// An empty state around the given settings.
    pub fn new(app_settings: AppSettings) -> (r: DaemonState)
        ensures
            r.wf(),
            r.workspaces@.len() == 0,
            r.connected@.len() == 0,
            r.app_settings == app_settings,
    {
        DaemonState { workspaces: Vec::new(), connected: Vec::new(), app_settings }
    }

    /// The listing: every catalog entry with its connection flag, sorted by
    /// `sort_order` then name.
    pub fn list_workspaces(&self) -> (r: Vec<WorkspaceInfo>)
        ensures
            r@.to_multiset() == spec_infos(self.workspaces@, self.connected@).to_multiset(),
            r@.len() == self.workspaces@.len(),
            ws_sorted(r@),
    {
        let ghost all = spec_infos(self.workspaces@, self.connected@);
        let mut out: Vec<WorkspaceInfo> = Vec::new();
        let mut i: usize = 0;
        proof {
            assert(out@ =~= all.take(0));
        }
        while i < self.workspaces.len()
            invariant
                all == spec_infos(self.workspaces@, self.connected@),
                0 <= i <= self.workspaces@.len(),
                all.len() == self.workspaces@.len(),
                out@ == all.take(i as int),
            decreases self.workspaces@.len() - i,
        {
            let e = &self.workspaces[i];
            let conn = vec_contains_str(&self.connected, e.id.as_str());
            out.push(make_info(e, conn));
            proof {
                assert(all[i as int] == spec_info_of(
                    self.workspaces@[i as int],
                    spec_has_str(self.connected@, self.workspaces@[i as int].id@),
                ));
                assert(out@ =~= all.take(i + 1));
            }
            i += 1;
        }
        proof {
            assert(all.take(i as int) =~= all);
        }
        sort_workspaces(&mut out);
        out
    }

    /// Whatever order a listing takes, every catalog entry appears in it,
    /// carrying exactly its current connection flag. With the transition
    /// contracts this gives the round trip: a freshly inserted workspace is
    /// listed `connected`, it is listed disconnected after its session is
    /// killed, and listed connected again once `mark_connected` ran.
    pub proof fn lemma_listing_shows_connection(
        ws: Seq<WorkspaceEntry>,
        conn: Seq<String>,
        listing: Seq<WorkspaceInfo>,
        i: int,
    )
        requires
            listing.to_multiset() == spec_infos(ws, conn).to_multiset(),
            0 <= i < ws.len(),
        ensures
            exists|j: int|
                0 <= j < listing.len() && listing[j] == spec_info_of(
                    ws[i],
                    spec_has_str(conn, ws[i].id@),
                ),
    {
        broadcast use vstd::seq_lib::group_to_multiset_ensures;

        let infos = spec_infos(ws, conn);
        let x = spec_info_of(ws[i], spec_has_str(conn, ws[i].id@));
        assert(infos[i] == x);
        assert(infos.contains(x));
        assert(infos.to_multiset().count(x) > 0);
        assert(listing.to_multiset().count(x) > 0);
        assert(listing.contains(x));
        let j = choose|j: int| 0 <= j < listing.len() && listing[j] == x;
        assert(0 <= j < listing.len() && listing[j] == x);
    }

    /// Drops the session of `workspace_id`, if one is live. The catalog and
    /// every other session are untouched.
    pub fn kill_session(&mut self, workspace_id: &str)
        requires
            old(self).wf(),
        ensures
            final(self).wf(),
            final(self).workspaces == old(self).workspaces,
            final(self).app_settings == old(self).app_settings,
            forall|s: Seq<char>|
                final(self).spec_is_connected(s) <==> (old(self).spec_is_connected(s) && s
                    != workspace_id@),
    {
        let ghost orig = self.connected@;
        let mut i: usize = 0;
        while i < self.connected.len()
            invariant
                self == old(self),
                old(self).wf(),
                orig == self.connected@,
                distinct_strs(orig),
                0 <= i <= orig.len(),
                forall|k: int| 0 <= k < i ==> orig[k]@ != workspace_id@,
            decreases orig.len() - i,
        {
            if str_eq(self.connected[i].as_str(), workspace_id) {
                self.connected.remove(i);
                proof {
                    assert(self.connected@ =~= orig.remove(i as int));
                    let cur = self.connected@;
                    assert forall|p: int| 0 <= p < cur.len() implies spec_contains_id(
                        self.workspaces@,
                        #[trigger] cur[p]@,
                    ) by {
                        if p < i {
                            assert(cur[p] == orig[p]);
                            assert(spec_contains_id(old(self).workspaces@, orig[p]@));
                        } else {
                            assert(cur[p] == orig[p + 1]);
                            assert(spec_contains_id(old(self).workspaces@, orig[p + 1]@));
                        }
                    }
                    assert forall|p: int, q: int| 0 <= p < q < cur.len() implies cur[p]@
                        != cur[q]@ by {
                        let p0: int = if p < i {
                            p
                        } else {
                            p + 1
                        };
                        let q0: int = if q < i {
                            q
                        } else {
                            q + 1
                        };
                        assert(cur[p] == orig[p0] && cur[q] == orig[q0]);
                    }
                    assert forall|s: Seq<char>|
                        self.spec_is_connected(s) <==> (old(self).spec_is_connected(s) && s
                            != workspace_id@) by {
                        if spec_has_str(cur, s) {
                            let k = choose|k: int| 0 <= k < cur.len() && cur[k]@ == s;
                            if k < i {
                                assert(orig[k]@ == s);
                            } else {
                                assert(orig[k + 1]@ == s);
                            }
                        }
                        if spec_has_str(orig, s) && s != workspace_id@ {
                            let k = choose|k: int| 0 <= k < orig.len() && orig[k]@ == s;
                            if k < i {
                                assert(cur[k]@ == s);
                            } else {
                                assert(k > i);
                                assert(cur[k - 1]@ == s);
                            }
                        }
                    }
                }
                return;
            }
            i += 1;
        }
        proof {
            assert forall|s: Seq<char>|
                self.spec_is_connected(s) <==> (old(self).spec_is_connected(s) && s
                    != workspace_id@) by {
                if spec_has_str(orig, s) {
                    let k = choose|k: int| 0 <= k < orig.len() && orig[k]@ == s;
                    assert(orig[k]@ != workspace_id@);
                }
            }
        }
    }

    /// Marks `id` as connected; used when a session has been spawned for an
    /// existing entry.
    pub fn mark_connected(&mut self, id: &str)
        requires
            old(self).wf(),
            spec_contains_id(old(self).workspaces@, id@),
            !old(self).spec_is_connected(id@),
        ensures
            final(self).wf(),
            final(self).workspaces == old(self).workspaces,
            final(self).app_settings == old(self).app_settings,
            final(self).connected@.len() == old(self).connected@.len() + 1,
            forall|s: Seq<char>|
                final(self).spec_is_connected(s) <==> (old(self).spec_is_connected(s) || s
                    == id@),
    {
        let owned = str_to_string(id);
        let ghost owned_view = owned@;
        self.connected.push(owned);
        proof {
            let cur = self.connected@;
            let prev = old(self).connected@;
            assert(cur == prev.push(owned));
            assert(cur[cur.len() - 1]@ == id@);
            assert forall|s: Seq<char>|
                self.spec_is_connected(s) <==> (old(self).spec_is_connected(s) || s
                    == id@) by {
                if spec_has_str(cur, s) {
                    let k = choose|k: int| 0 <= k < cur.len() && cur[k]@ == s;
                    if k < cur.len() - 1 {
                        assert(prev[k]@ == s);
                    } else {
                        assert(s == id@);
                    }
                }
                if spec_has_str(prev, s) {
                    let k = choose|k: int| 0 <= k < prev.len() && prev[k]@ == s;
                    assert(cur[k]@ == s);
                }
                if s == id@ {
                    assert(cur[cur.len() - 1]@ == s);
                }
            }
        }
    }

    /// Inserts a fresh, well-formed entry and marks it connected: the apply
    /// step shared by adding a workspace and adding a worktree, run after
    /// its session spawned successfully.
    pub fn insert_workspace(&mut self, entry: WorkspaceEntry) -> (r: WorkspaceInfo)
        requires
            old(self).wf(),
            !spec_contains_id(old(self).workspaces@, entry.id@),
            entry.kind is Main ==> entry.parent_id is None && entry.worktree is None,
            entry.kind is Worktree ==> entry.parent_id is Some && entry.worktree is Some
                && (spec_find_entry(old(self).workspaces@, entry.parent_id.unwrap()@) matches
                Some(p) && p.kind is Main),
        ensures
            final(self).wf(),
            final(self).workspaces@ == old(self).workspaces@.push(entry),
            final(self).app_settings == old(self).app_settings,
            forall|s: Seq<char>|
                final(self).spec_is_connected(s) <==> (old(self).spec_is_connected(s) || s
                    == entry.id@),
            r == spec_info_of(entry, true),
    {
        let info = make_info(&entry, true);
        let id = entry.id.clone();
        proof {
            if spec_has_str(self.connected@, entry.id@) {
                let k = choose|k: int|
                    0 <= k < self.connected@.len() && self.connected@[k]@ == entry.id@;
                assert(spec_contains_id(self.workspaces@, self.connected@[k]@));
                assert(false);
            }
            if entry.kind is Worktree {
                crate::workspace::lemma_find_entry_index(
                    old(self).workspaces@,
                    entry.parent_id.unwrap()@,
                );
            }
        }
        self.workspaces.push(entry);
        proof {
            let ws = self.workspaces@;
            let prev = old(self).workspaces@;
            assert forall|i: int| 0 <= i < ws.len() implies entry_wf(ws, #[trigger] ws[i]) by {
                if i < prev.len() {
                    assert(entry_wf(prev, prev[i]));
                    if prev[i].kind is Worktree {
                        let j = choose|j: int|
                            0 <= j < prev.len() && prev[j].id@ == prev[i].parent_id.unwrap()@
                                && prev[j].kind is Main;
                        assert(ws[j] == prev[j]);
                    }
                } else {
                    assert(ws[i] == entry);
                    if entry.kind is Worktree {
                        let j = choose|j: int|
                            0 <= j < prev.len() && prev[j].id@ == entry.parent_id.unwrap()@
                                && prev[j].kind is Main;
                        assert(ws[j] == prev[j]);
                    }
                }
            }
            assert forall|p: int, q: int| 0 <= p < q < ws.len() implies ws[p].id@ != ws[q].id@ by {
                if q == ws.len() - 1 {
                    if ws[p].id@ == entry.id@ {
                        assert(spec_contains_id(prev, entry.id@));
                    }
                } else {
                    assert(ws[p] == prev[p] && ws[q] == prev[q]);
                }
            }
            assert forall|k: int| 0 <= k < self.connected@.len() implies spec_contains_id(
                ws,
                #[trigger] self.connected@[k]@,
            ) by {
                assert(spec_contains_id(prev, self.connected@[k]@));
                let j = choose|j: int| 0 <= j < prev.len() && prev[j].id@ == self.connected@[k]@;
                assert(ws[j].id@ == self.connected@[k]@);
            }
        }
        proof {
            let ws = self.workspaces@;
            assert(ws[ws.len() - 1].id@ == entry.id@);
            assert(spec_contains_id(ws, id@));
        }
        self.mark_connected(id.as_str());
        info
    }

    /// Decides what connecting `id` requires: nothing when a session is
    /// already live, a spawn for the found entry otherwise.
    pub fn connect_workspace_plan(&self, id: &str) -> (r: Result<Option<WorkspaceEntry>, String>)
        requires
            self.wf(),
        ensures
            match r {
                Ok(plan) => match plan {
                    None => self.spec_is_connected(id@),
                    Some(e) => !self.spec_is_connected(id@) && spec_find_entry(
                        self.workspaces@,
                        id@,
                    ) == Some(e),
                },
                Err(msg) => {
                    &&& !self.spec_is_connected(id@)
                    &&& spec_find_entry(self.workspaces@, id@) is None
                    &&& msg@ == "workspace not found"@
                },
            },
    {
        if vec_contains_str(&self.connected, id) {
            return Ok(None);
        }
        match find_entry(&self.workspaces, id) {
            Some(e) => Ok(Some(e)),
            None => Err(str_to_string("workspace not found")),
        }
    }

    /// The parent's path for a worktree entry, when the parent is in the
    /// catalog; `None` for a main workspace.
    pub fn parent_path_of(&self, e: &WorkspaceEntry) -> (r: Option<String>)
        ensures
            match r {
                Some(p) => (e.parent_id matches Some(pid) && spec_find_entry(
                    self.workspaces@,
                    pid@,
                ) matches Some(par) && p@ == par.path@),
                None => e.parent_id is None || (e.parent_id matches Some(pid) && spec_find_entry(
                    self.workspaces@,
                    pid@,
                ) is None),
            },
    {
        match &e.parent_id {
            Some(pid) => match find_entry(&self.workspaces, pid.as_str()) {
                Some(par) => Some(par.path.clone()),
                None => None,
            },
            None => None,
        }
    }
}

/// The entry with `settings` replaced on the record under `id`.
pub open spec fn spec_update_settings(
    ws: Seq<WorkspaceEntry>,
    id: Seq<char>,
    st: crate::workspace::WorkspaceSettings,
) -> Seq<WorkspaceEntry> {
    Seq::new(
        ws.len(),
        |i: int|
            if ws[i].id@ == id {
                WorkspaceEntry { settings: st, ..ws[i] }
            } else {
                ws[i]
            },
    )
}

/// Replaying the same settings update changes nothing: the operation is
/// idempotent.
pub proof fn lemma_update_settings_idempotent(
    ws: Seq<WorkspaceEntry>,
    id: Seq<char>,
    st: crate::workspace::WorkspaceSettings,
)
    ensures
        spec_update_settings(spec_update_settings(ws, id, st), id, st) == spec_update_settings(
            ws,
            id,
            st,
        ),
{
    let once = spec_update_settings(ws, id, st);
    let twice = spec_update_settings(once, id, st);
    assert(twice =~= once);
}

/// The entry with `codex_bin` replaced on the record under `id`.
pub open spec fn spec_update_codex_bin(
    ws: Seq<WorkspaceEntry>,
    id: Seq<char>,
    bin: Option<String>,
) -> Seq<WorkspaceEntry> {
    Seq::new(
        ws.len(),
        |i: int|
            if ws[i].id@ == id {
                WorkspaceEntry { codex_bin: bin, ..ws[i] }
            } else {
                ws[i]
            },
    )
}

/// In a catalog with unique ids, a match at any index is what lookup
/// finds.
pub proof fn lemma_find_entry_at(entries: Seq<WorkspaceEntry>, id: Seq<char>, i: int)
    requires
        unique_ids(entries),
        0 <= i < entries.len(),
        entries[i].id@ == id,
    ensures
        spec_find_entry(entries, id) == Some(entries[i]),
    decreases entries.len(),
{
    if i > 0 {
        assert(entries[0].id@ != id);
        assert forall|p: int, q: int|
            0 <= p < q < entries.skip(1).len() implies entries.skip(1)[p].id@ != entries.skip(
            1,
        )[q].id@ by {
            assert(entries.skip(1)[p] == entries[p + 1]);
            assert(entries.skip(1)[q] == entries[q + 1]);
        }
        assert(entries.skip(1)[i - 1] == entries[i]);
        lemma_find_entry_at(entries.skip(1), id, i - 1);
    }
}

impl DaemonState {
    /// Replaces the per-workspace settings of `id`, returning its listing
    /// record; fails when the id is unknown.
    pub fn update_workspace_settings(
        &mut self,
        id: &str,
        settings: crate::workspace::WorkspaceSettings,
    ) -> (r: Result<WorkspaceInfo, String>)
        requires
            old(self).wf(),
        ensures
            final(self).wf(),
            final(self).connected == old(self).connected,
            final(self).app_settings == old(self).app_settings,
            r is Ok <==> spec_contains_id(old(self).workspaces@, id@),
            final(self).workspaces@ == spec_update_settings(old(self).workspaces@, id@, settings),
            match r {
                Ok(info) => spec_find_entry(final(self).workspaces@, id@) matches Some(e) && info
                    == spec_info_of(e, old(self).spec_is_connected(id@)),
                Err(e) => e@ == "workspace not found"@,
            },
    {
        let ghost orig = self.workspaces@;
        let ghost target = spec_update_settings(orig, id@, settings);
        let mut i: usize = 0;
        while i < self.workspaces.len()
            invariant
                self == old(self),
                old(self).wf(),
                orig == self.workspaces@,
                target == spec_update_settings(orig, id@, settings),
                0 <= i <= orig.len(),
                forall|k: int| 0 <= k < i ==> orig[k].id@ != id@,
            decreases orig.len() - i,
        {
            if str_eq(self.workspaces[i].id.as_str(), id) {
                let mut e = self.workspaces.remove(i);
                let ghost e0 = e;
                e.settings = settings.clone();
                let snapshot = e.clone();
                self.workspaces.insert(i, e);
                let conn = vec_contains_str(&self.connected, id);
                proof {
                    assert(self.workspaces@ =~= orig.update(
                        i as int,
                        WorkspaceEntry { settings: settings, ..e0 },
                    ));
                    assert(self.workspaces@ =~= target);
                    lemma_find_entry_at(orig, id@, i as int);
                    assert forall|p: int, q: int|
                        0 <= p < q < target.len() implies target[p].id@ != target[q].id@ by {
                        assert(target[p].id == orig[p].id && target[q].id == orig[q].id);
                    }
                    assert forall|j: int| 0 <= j < target.len() implies entry_wf(
                        target,
                        #[trigger] target[j],
                    ) by {
                        assert(entry_wf(orig, orig[j]));
                        assert(target[j].kind == orig[j].kind && target[j].parent_id
                            == orig[j].parent_id && target[j].worktree == orig[j].worktree);
                        if orig[j].kind is Worktree {
                            let p = choose|p: int|
                                0 <= p < orig.len() && orig[p].id@
                                    == orig[j].parent_id.unwrap()@ && orig[p].kind is Main;
                            assert(target[p].id == orig[p].id && target[p].kind == orig[p].kind);
                        }
                    }
                    assert forall|k: int| 0 <= k < self.connected@.len() implies spec_contains_id(
                        target,
                        #[trigger] self.connected@[k]@,
                    ) by {
                        assert(spec_contains_id(orig, self.connected@[k]@));
                        let j = choose|j: int|
                            0 <= j < orig.len() && orig[j].id@ == self.connected@[k]@;
                        assert(target[j].id == orig[j].id);
                    }
                    assert(unique_ids(target));
                    lemma_find_entry_at(target, id@, i as int);
                }
                return Ok(make_info(&snapshot, conn));
            }
            i += 1;
        }
        proof {
            if spec_contains_id(orig, id@) {
                let k = choose|k: int| 0 <= k < orig.len() && orig[k].id@ == id@;
                assert(false);
            }
            assert(self.workspaces@ =~= spec_update_settings(orig, id@, settings));
        }
        Err(str_to_string("workspace not found"))
    }

    /// Replaces the per-workspace child binary override of `id`.
    pub fn update_workspace_codex_bin(&mut self, id: &str, codex_bin: Option<String>) -> (r:
        Result<WorkspaceInfo, String>)
        requires
            old(self).wf(),
        ensures
            final(self).wf(),
            final(self).connected == old(self).connected,
            final(self).app_settings == old(self).app_settings,
            r is Ok <==> spec_contains_id(old(self).workspaces@, id@),
            final(self).workspaces@ == spec_update_codex_bin(old(self).workspaces@, id@, codex_bin),
            match r {
                Ok(info) => spec_find_entry(final(self).workspaces@, id@) matches Some(e) && info
                    == spec_info_of(e, old(self).spec_is_connected(id@)),
                Err(e) => e@ == "workspace not found"@,
            },
    {
        let ghost orig = self.workspaces@;
        let ghost target = spec_update_codex_bin(orig, id@, codex_bin);
        let mut i: usize = 0;
        while i < self.workspaces.len()
            invariant
                self == old(self),
                old(self).wf(),
                orig == self.workspaces@,
                target == spec_update_codex_bin(orig, id@, codex_bin),
                0 <= i <= orig.len(),
                forall|k: int| 0 <= k < i ==> orig[k].id@ != id@,
            decreases orig.len() - i,
        {
            if str_eq(self.workspaces[i].id.as_str(), id) {
                let mut e = self.workspaces.remove(i);
                let ghost e0 = e;
                e.codex_bin = codex_bin;
                let snapshot = e.clone();
                let ghost moved_bin = e.codex_bin;
                self.workspaces.insert(i, e);
                let conn = vec_contains_str(&self.connected, id);
                proof {
                    assert(self.workspaces@ =~= orig.update(
                        i as int,
                        WorkspaceEntry { codex_bin: moved_bin, ..e0 },
                    ));
                    assert(self.workspaces@ =~= target);
                    lemma_find_entry_at(orig, id@, i as int);
                    assert forall|p: int, q: int|
                        0 <= p < q < target.len() implies target[p].id@ != target[q].id@ by {
                        assert(target[p].id == orig[p].id && target[q].id == orig[q].id);
                    }
                    assert forall|j: int| 0 <= j < target.len() implies entry_wf(
                        target,
                        #[trigger] target[j],
                    ) by {
                        assert(entry_wf(orig, orig[j]));
                        assert(target[j].kind == orig[j].kind && target[j].parent_id
                            == orig[j].parent_id && target[j].worktree == orig[j].worktree);
                        if orig[j].kind is Worktree {
                            let p = choose|p: int|
                                0 <= p < orig.len() && orig[p].id@
                                    == orig[j].parent_id.unwrap()@ && orig[p].kind is Main;
                            assert(target[p].id == orig[p].id && target[p].kind == orig[p].kind);
                        }
                    }
                    assert forall|k: int| 0 <= k < self.connected@.len() implies spec_contains_id(
                        target,
                        #[trigger] self.connected@[k]@,
                    ) by {
                        assert(spec_contains_id(orig, self.connected@[k]@));
                        let j = choose|j: int|
                            0 <= j < orig.len() && orig[j].id@ == self.connected@[k]@;
                        assert(target[j].id == orig[j].id);
                    }
                    assert(unique_ids(target));
                    lemma_find_entry_at(target, id@, i as int);
                }
                return Ok(make_info(&snapshot, conn));
            }
            i += 1;
        }
        proof {
            if spec_contains_id(orig, id@) {
                let k = choose|k: int| 0 <= k < orig.len() && orig[k].id@ == id@;
                assert(false);
            }
            assert(self.workspaces@ =~= spec_update_codex_bin(orig, id@, codex_bin));
        }
        Err(str_to_string("workspace not found"))
    }

    /// Removes the catalog record of `id`. Internal: the session is gone
    /// already and nothing else names `id` as its parent, so the catalog
    /// invariant survives.
    fn remove_entry_only(&mut self, id: &str)
        requires
            old(self).wf(),
            spec_contains_id(old(self).workspaces@, id@),
            !old(self).spec_is_connected(id@),
            forall|j: int|
                0 <= j < old(self).workspaces@.len() ==> !(#[trigger] old(
                    self,
                ).workspaces@[j].parent_id is Some && old(self).workspaces@[j].parent_id.unwrap()@
                    == id@),
        ensures
            final(self).wf(),
            final(self).app_settings == old(self).app_settings,
            final(self).connected == old(self).connected,
            final(self).workspaces@.len() == old(self).workspaces@.len() - 1,
            forall|s: Seq<char>|
                spec_contains_id(final(self).workspaces@, s) <==> (spec_contains_id(
                    old(self).workspaces@,
                    s,
                ) && s != id@),
            forall|j: int|
                0 <= j < final(self).workspaces@.len() ==> exists|j0: int|
                    0 <= j0 < old(self).workspaces@.len()
                        && #[trigger] final(self).workspaces@[j] == old(self).workspaces@[j0],
    {
        let ghost orig = self.workspaces@;
        let mut i: usize = 0;
        while i < self.workspaces.len()
            invariant
                self == old(self),
                old(self).wf(),
                spec_contains_id(orig, id@),
                !old(self).spec_is_connected(id@),
                forall|j: int|
                    0 <= j < orig.len() ==> !(#[trigger] orig[j].parent_id is Some
                        && orig[j].parent_id.unwrap()@ == id@),
                orig == self.workspaces@,
                0 <= i <= orig.len(),
                forall|k: int| 0 <= k < i ==> orig[k].id@ != id@,
            decreases orig.len() - i,
        {
            if str_eq(self.workspaces[i].id.as_str(), id) {
                self.workspaces.remove(i);
                proof {
                    let cur = self.workspaces@;
                    assert(cur =~= orig.remove(i as int));
                    assert forall|j: int| 0 <= j < cur.len() implies exists|j0: int|
                        0 <= j0 < orig.len() && #[trigger] cur[j] == orig[j0] by {
                        if j < i {
                            assert(cur[j] == orig[j]);
                        } else {
                            assert(cur[j] == orig[j + 1]);
                        }
                    }
                    assert forall|s: Seq<char>|
                        spec_contains_id(cur, s) <==> (spec_contains_id(orig, s) && s != id@) by {
                        if spec_contains_id(cur, s) {
                            let j = choose|j: int| 0 <= j < cur.len() && cur[j].id@ == s;
                            let j0: int = if j < i {
                                j
                            } else {
                                j + 1
                            };
                            assert(orig[j0].id@ == s);
                            assert(j0 != i);
                            if s == id@ {
                                assert(orig[i as int].id@ == id@);
                            }
                        }
                        if spec_contains_id(orig, s) && s != id@ {
                            let j0 = choose|j0: int| 0 <= j0 < orig.len() && orig[j0].id@ == s;
                            assert(j0 != i);
                            let j: int = if j0 < i {
                                j0
                            } else {
                                j0 - 1
                            };
                            assert(cur[j].id@ == s);
                        }
                    }
                    assert forall|p: int, q: int| 0 <= p < q < cur.len() implies cur[p].id@
                        != cur[q].id@ by {
                        let p0: int = if p < i {
                            p
                        } else {
                            p + 1
                        };
                        let q0: int = if q < i {
                            q
                        } else {
                            q + 1
                        };
                        assert(cur[p] == orig[p0] && cur[q] == orig[q0]);
                    }
                    assert forall|j: int| 0 <= j < cur.len() implies entry_wf(
                        cur,
                        #[trigger] cur[j],
                    ) by {
                        let j0: int = if j < i {
                            j
                        } else {
                            j + 1
                        };
                        assert(cur[j] == orig[j0]);
                        assert(entry_wf(orig, orig[j0]));
                        if orig[j0].kind is Worktree {
                            let k0 = choose|k0: int|
                                0 <= k0 < orig.len() && orig[k0].id@
                                    == orig[j0].parent_id.unwrap()@ && orig[k0].kind is Main;
                            assert(orig[j0].parent_id.unwrap()@ != id@);
                            assert(k0 != i);
                            let k: int = if k0 < i {
                                k0
                            } else {
                                k0 - 1
                            };
                            assert(cur[k] == orig[k0]);
                        }
                    }
                    assert forall|k: int| 0 <= k < self.connected@.len() implies spec_contains_id(
                        cur,
                        #[trigger] self.connected@[k]@,
                    ) by {
                        assert(spec_contains_id(orig, self.connected@[k]@));
                        if self.connected@[k]@ == id@ {
                            assert(old(self).spec_is_connected(id@));
                        }
                    }
                }
                return;
            }
            i += 1;
        }
        proof {
            let k = choose|k: int| 0 <= k < orig.len() && orig[k].id@ == id@;
            assert(false);
        }
    }

    /// Removes a worktree workspace: its session is dropped and its record
    /// leaves the catalog; nothing else changes.
    pub fn remove_worktree_entry(&mut self, id: &str)
        requires
            old(self).wf(),
            spec_find_entry(old(self).workspaces@, id@) matches Some(e) && e.kind is Worktree,
        ensures
            final(self).wf(),
            final(self).app_settings == old(self).app_settings,
            forall|s: Seq<char>|
                spec_contains_id(final(self).workspaces@, s) <==> (spec_contains_id(
                    old(self).workspaces@,
                    s,
                ) && s != id@),
            forall|s: Seq<char>|
                final(self).spec_is_connected(s) <==> (old(self).spec_is_connected(s) && s
                    != id@),
            forall|j: int|
                0 <= j < final(self).workspaces@.len() ==> exists|j0: int|
                    0 <= j0 < old(self).workspaces@.len()
                        && #[trigger] final(self).workspaces@[j] == old(self).workspaces@[j0],
    {
        proof {
            crate::workspace::lemma_find_entry_index(old(self).workspaces@, id@);
        }
        self.kill_session(id);
        proof {
            let ws = self.workspaces@;
            let e = choose|j: int| 0 <= j < ws.len() && ws[j].id@ == id@ && ws[j].kind is Worktree;
            assert forall|j: int| 0 <= j < ws.len() implies !(#[trigger] ws[j].parent_id is Some
                && ws[j].parent_id.unwrap()@ == id@) by {
                if ws[j].parent_id is Some && ws[j].parent_id.unwrap()@ == id@ {
                    assert(entry_wf(ws, ws[j]));
                    let k = choose|k: int|
                        0 <= k < ws.len() && ws[k].id@ == ws[j].parent_id.unwrap()@ && ws[k].kind
                            is Main;
                    let m = choose|m: int|
                        0 <= m < ws.len() && ws[m].id@ == id@ && ws[m].kind is Worktree;
                    assert(k == m);
                }
            }
        }
        self.remove_entry_only(id);
    }

    /// The check every pass-through operation makes: a live session must
    /// exist for the workspace.
    pub fn require_connected(&self, workspace_id: &str) -> (r: Result<(), String>)
        ensures
            r is Ok <==> self.spec_is_connected(workspace_id@),
            r matches Err(e) ==> e@ == "workspace not connected"@,
    {
        if vec_contains_str(&self.connected, workspace_id) {
            Ok(())
        } else {
            Err(str_to_string("workspace not connected"))
        }
    }

    /// Replaces the in-memory application settings; the caller has already
    /// written them out.
    pub fn update_app_settings(&mut self, settings: AppSettings)
        ensures
            final(self).workspaces == old(self).workspaces,
            final(self).connected == old(self).connected,
            final(self).app_settings == settings,
    {
        self.app_settings = settings;
    }

    /// Checks an `add_worktree` request: a non-empty branch and a parent
    /// that exists and is a main workspace. Returns the parent and the
    /// trimmed branch.
    pub fn validate_add_worktree(&self, parent_id: &str, branch: &str) -> (r: Result<
        (WorkspaceEntry, String),
        String,
    >)
        ensures
            match r {
                Ok((p, t)) => {
                    &&& spec_trim(branch@).len() > 0
                    &&& t@ == spec_trim(branch@)
                    &&& spec_find_entry(self.workspaces@, parent_id@) == Some(p)
                    &&& !(p.kind is Worktree)
                },
                Err(e) => {
                    if spec_trim(branch@).len() == 0 {
                        e@ == "Branch name is required."@
                    } else {
                        match spec_find_entry(self.workspaces@, parent_id@) {
                            None => e@ == "parent workspace not found"@,
                            Some(p) => p.kind is Worktree && e@
                                == "Cannot create a worktree from another worktree."@,
                        }
                    }
                },
            },
    {
        let trimmed = str_trim(branch);
        if trimmed.as_str().unicode_len() == 0 {
            return Err(str_to_string("Branch name is required."));
        }
        let parent = match find_entry(&self.workspaces, parent_id) {
            Some(p) => p,
            None => {
                return Err(str_to_string("parent workspace not found"));
            },
        };
        if parent.kind.is_worktree() {
            return Err(str_to_string("Cannot create a worktree from another worktree."));
        }
        Ok((parent, trimmed))
    }

    /// Looks up a worktree workspace and its parent, with the errors the
    /// worktree operations share.
    pub fn find_worktree_and_parent(&self, id: &str) -> (r: Result<
        (WorkspaceEntry, WorkspaceEntry),
        String,
    >)
        requires
            self.wf(),
        ensures
            match r {
                Ok((e, p)) => {
                    &&& spec_find_entry(self.workspaces@, id@) == Some(e)
                    &&& e.kind is Worktree
                    &&& e.parent_id is Some
                    &&& spec_find_entry(self.workspaces@, e.parent_id.unwrap()@) == Some(p)
                },
                Err(msg) => {
                    match spec_find_entry(self.workspaces@, id@) {
                        None => msg@ == "workspace not found"@,
                        Some(e) => !(e.kind is Worktree) && msg@ == "Not a worktree workspace."@,
                    }
                },
            },
    {
        let entry = match find_entry(&self.workspaces, id) {
            Some(e) => e,
            None => {
                return Err(str_to_string("workspace not found"));
            },
        };
        if !entry.kind.is_worktree() {
            return Err(str_to_string("Not a worktree workspace."));
        }
        proof {
            crate::workspace::lemma_find_entry_index(self.workspaces@, id@);
            let j = choose|j: int|
                0 <= j < self.workspaces@.len() && self.workspaces@[j] == entry
                    && self.workspaces@[j].id@ == id@;
            assert(entry_wf(self.workspaces@, self.workspaces@[j]));
        }
        let parent_id = match &entry.parent_id {
            Some(p) => p.clone(),
            None => {
                proof {
                    assert(false);
                }
                return Err(str_to_string("worktree parent not found"));
            },
        };
        let parent = match find_entry(&self.workspaces, parent_id.as_str()) {
            Some(p) => p,
            None => {
                proof {
                    crate::workspace::lemma_find_entry_index(self.workspaces@, parent_id@);
                }
                return Err(str_to_string("worktree parent not found"));
            },
        };
        Ok((entry, parent))
    }

    /// Checks a `rename_worktree` request: a non-empty branch naming a
    /// worktree workspace, whose current branch differs from the trimmed
    /// request. Returns the entry, its parent, and the trimmed branch.
    pub fn validate_rename_worktree(&self, id: &str, branch: &str) -> (r: Result<
        (WorkspaceEntry, WorkspaceEntry, String),
        String,
    >)
        requires
            self.wf(),
        ensures
            match r {
                Ok((e, p, t)) => {
                    &&& spec_trim(branch@).len() > 0
                    &&& t@ == spec_trim(branch@)
                    &&& spec_find_entry(self.workspaces@, id@) == Some(e)
                    &&& e.kind is Worktree
                    &&& e.parent_id is Some
                    &&& spec_find_entry(self.workspaces@, e.parent_id.unwrap()@) == Some(p)
                    &&& e.worktree is Some
                    &&& e.worktree.unwrap().branch@ != spec_trim(branch@)
                },
                Err(msg) => {
                    if spec_trim(branch@).len() == 0 {
                        msg@ == "Branch name is required."@
                    } else {
                        match spec_find_entry(self.workspaces@, id@) {
                            None => msg@ == "workspace not found"@,
                            Some(e) => {
                                if !(e.kind is Worktree) {
                                    msg@ == "Not a worktree workspace."@
                                } else {
                                    e.worktree is Some && e.worktree.unwrap().branch@ == spec_trim(
                                        branch@,
                                    ) && msg@ == "Branch name is unchanged."@
                                }
                            },
                        }
                    }
                },
            },
    {
        let trimmed = str_trim(branch);
        if trimmed.as_str().unicode_len() == 0 {
            return Err(str_to_string("Branch name is required."));
        }
        let (entry, parent) = match self.find_worktree_and_parent(id) {
            Ok(pair) => pair,
            Err(msg) => {
                return Err(msg);
            },
        };
        proof {
            crate::workspace::lemma_find_entry_index(self.workspaces@, id@);
            let j = choose|j: int|
                0 <= j < self.workspaces@.len() && self.workspaces@[j] == entry
                    && self.workspaces@[j].id@ == id@;
            assert(entry_wf(self.workspaces@, self.workspaces@[j]));
        }
        let old_branch = match &entry.worktree {
            Some(w) => w.branch.clone(),
            None => {
                proof {
                    assert(false);
                }
                return Err(str_to_string("worktree metadata missing"));
            },
        };
        if str_eq(old_branch.as_str(), trimmed.as_str()) {
            return Err(str_to_string("Branch name is unchanged."));
        }
        Ok((entry, parent, trimmed))
    }
}

/// A unique branch name settled on the current one: the rename is refused
/// as unchanged. The check between branch probing and the git calls.
pub fn ensure_branch_changed(old_branch: &str, final_branch: &str) -> (r: Result<(), String>)
    ensures
        r is Ok <==> old_branch@ != final_branch@,
        r matches Err(e) ==> e@ == "Branch name is unchanged."@,
{
    if str_eq(old_branch, final_branch) {
        Err(str_to_string("Branch name is unchanged."))
    } else {
        Ok(())
    }
}

/// How a renamed worktree record relates to the old one: same identity and
/// settings, new name, path and branch.
pub open spec fn rename_updated(
    n: WorkspaceEntry,
    o: WorkspaceEntry,
    branch: Seq<char>,
    path: Seq<char>,
) -> bool {
    &&& n.id == o.id
    &&& n.name@ == branch
    &&& n.path@ == path
    &&& n.codex_bin == o.codex_bin
    &&& n.kind == o.kind
    &&& n.parent_id == o.parent_id
    &&& n.worktree matches Some(w) && w.branch@ == branch
    &&& n.settings == o.settings
}

impl DaemonState {
    /// Rewrites the renamed worktree's record in place: display name, path
    /// and branch take the final values; id, parent and settings stay.
    pub fn apply_rename_worktree(&mut self, id: &str, final_branch: &str, next_path: &str) -> (r:
        WorkspaceEntry)
        requires
            old(self).wf(),
            spec_find_entry(old(self).workspaces@, id@) matches Some(e) && e.kind is Worktree,
        ensures
            final(self).wf(),
            final(self).connected == old(self).connected,
            final(self).app_settings == old(self).app_settings,
            final(self).workspaces@.len() == old(self).workspaces@.len(),
            exists|i: int|
                {
                    &&& 0 <= i < old(self).workspaces@.len()
                    &&& old(self).workspaces@[i].id@ == id@
                    &&& rename_updated(
                        #[trigger] final(self).workspaces@[i],
                        old(self).workspaces@[i],
                        final_branch@,
                        next_path@,
                    )
                    &&& final(self).workspaces@ == old(self).workspaces@.update(
                        i,
                        final(self).workspaces@[i],
                    )
                    &&& r == final(self).workspaces@[i]
                },
            spec_find_entry(final(self).workspaces@, id@) == Some(r),
    {
        let ghost orig = self.workspaces@;
        let mut i: usize = 0;
        while i < self.workspaces.len()
            invariant
                self == old(self),
                old(self).wf(),
                orig == self.workspaces@,
                spec_find_entry(orig, id@) matches Some(e) && e.kind is Worktree,
                0 <= i <= orig.len(),
                forall|k: int| 0 <= k < i ==> orig[k].id@ != id@,
            decreases orig.len() - i,
        {
            if str_eq(self.workspaces[i].id.as_str(), id) {
                let mut e = self.workspaces.remove(i);
                let ghost e0 = e;
                e.name = str_to_string(final_branch);
                e.path = str_to_string(next_path);
                e.worktree = Some(
                    crate::workspace::WorktreeInfo { branch: str_to_string(final_branch) },
                );
                let snapshot = e.clone();
                self.workspaces.insert(i, e);
                proof {
                    let cur = self.workspaces@;
                    lemma_find_entry_at(orig, id@, i as int);
                    assert(orig[i as int].kind is Worktree);
                    assert(cur =~= orig.update(i as int, cur[i as int]));
                    assert(rename_updated(cur[i as int], orig[i as int], final_branch@, next_path@));
                    assert forall|p: int, q: int| 0 <= p < q < cur.len() implies cur[p].id@
                        != cur[q].id@ by {
                        assert(cur[p].id == orig[p].id && cur[q].id == orig[q].id);
                    }
                    assert forall|j: int| 0 <= j < cur.len() implies entry_wf(
                        cur,
                        #[trigger] cur[j],
                    ) by {
                        assert(entry_wf(orig, orig[j]));
                        assert(cur[j].kind == orig[j].kind && cur[j].parent_id == orig[j].parent_id);
                        if orig[j].kind is Worktree {
                            let p = choose|p: int|
                                0 <= p < orig.len() && orig[p].id@
                                    == orig[j].parent_id.unwrap()@ && orig[p].kind is Main;
                            assert(cur[p].id == orig[p].id && cur[p].kind == orig[p].kind);
                        }
                        if cur[j].kind is Worktree && j != i {
                            assert(cur[j] == orig[j]);
                        }
                    }
                    assert forall|k: int| 0 <= k < self.connected@.len() implies spec_contains_id(
                        cur,
                        #[trigger] self.connected@[k]@,
                    ) by {
                        assert(spec_contains_id(orig, self.connected@[k]@));
                        let j = choose|j: int|
                            0 <= j < orig.len() && orig[j].id@ == self.connected@[k]@;
                        assert(cur[j].id == orig[j].id);
                    }
                    lemma_find_entry_at(cur, id@, i as int);
                }
                return snapshot;
            }
            i += 1;
        }
        proof {
            crate::workspace::lemma_find_entry_index(orig, id@);
            let j = choose|j: int| 0 <= j < orig.len() && orig[j].id@ == id@;
            assert(false);
        }
        unreached()
    }
}

/// The catalog entries whose `parent_id` reads `id`, in catalog order.
pub open spec fn children_of(ws: Seq<WorkspaceEntry>, id: Seq<char>) -> Seq<WorkspaceEntry>
    decreases ws.len(),
{
    if ws.len() == 0 {
        Seq::empty()
    } else {
        let rest = children_of(ws.drop_last(), id);
        if ws.last().parent_id is Some && ws.last().parent_id.unwrap()@ == id {
            rest.push(ws.last())
        } else {
            rest
        }
    }
}

/// The outcome of the removal attempt for one child worktree.
pub struct ChildOutcome {
    pub id: String,
    pub error: Option<String>,
}

/// `s` is the id of an outcome before `upto` that succeeded.
pub open spec fn removed_in(results: Seq<ChildOutcome>, upto: int, s: Seq<char>) -> bool {
    exists|k: int| 0 <= k < upto && results[k].error is None && results[k].id@ == s
}

pub open spec fn any_failure_upto(results: Seq<ChildOutcome>, upto: int) -> bool {
    exists|k: int| 0 <= k < upto && results[k].error is Some
}

/// How the removed-id set grows from step `k` to step `k + 1`.
proof fn lemma_removed_in_step(results: Seq<ChildOutcome>, k: int, s: Seq<char>)
    requires
        0 <= k < results.len(),
    ensures
        removed_in(results, k + 1, s) <==> (removed_in(results, k, s) || (results[k].error is None
            && results[k].id@ == s)),
{
    if removed_in(results, k + 1, s) {
        let k2 = choose|k2: int|
            0 <= k2 < k + 1 && results[k2].error is None && results[k2].id@ == s;
        if k2 < k {
            assert(removed_in(results, k, s));
        }
    }
    if removed_in(results, k, s) {
        let k2 = choose|k2: int| 0 <= k2 < k && results[k2].error is None && results[k2].id@ == s;
        assert(0 <= k2 < k + 1 && results[k2].error is None && results[k2].id@ == s);
        assert(removed_in(results, k + 1, s));
    }
    if results[k].error is None && results[k].id@ == s {
        assert(0 <= k < k + 1 && results[k].error is None && results[k].id@ == s);
        assert(removed_in(results, k + 1, s));
    }
}

pub open spec fn any_failure(results: Seq<ChildOutcome>) -> bool {
    any_failure_upto(results, results.len() as int)
}

/// The catalog ids after the first `k` outcomes: the original ids minus
/// the successfully removed ones.
pub open spec fn contains_after(
    cur: Seq<WorkspaceEntry>,
    ws0: Seq<WorkspaceEntry>,
    results: Seq<ChildOutcome>,
    k: int,
) -> bool {
    forall|s: Seq<char>| #![trigger spec_contains_id(ws0, s)]
        spec_contains_id(cur, s) <==> (spec_contains_id(ws0, s) && !removed_in(results, k, s))
}

/// The connected ids after the first `k` outcomes.
pub open spec fn connected_after(
    cur: Seq<String>,
    conn0: Seq<String>,
    results: Seq<ChildOutcome>,
    k: int,
) -> bool {
    forall|s: Seq<char>| #![trigger spec_has_str(conn0, s)]
        spec_has_str(cur, s) <==> (spec_has_str(conn0, s) && !removed_in(results, k, s))
}

proof fn lemma_contains_after_at(
    cur: Seq<WorkspaceEntry>,
    ws0: Seq<WorkspaceEntry>,
    results: Seq<ChildOutcome>,
    k: int,
    s: Seq<char>,
)
    requires
        contains_after(cur, ws0, results, k),
    ensures
        spec_contains_id(cur, s) <==> (spec_contains_id(ws0, s) && !removed_in(results, k, s)),
{
}

proof fn lemma_connected_after_at(
    cur: Seq<String>,
    conn0: Seq<String>,
    results: Seq<ChildOutcome>,
    k: int,
    s: Seq<char>,
)
    requires
        connected_after(cur, conn0, results, k),
    ensures
        spec_has_str(cur, s) <==> (spec_has_str(conn0, s) && !removed_in(results, k, s)),
{
}

/// One report line per failed child, in order.
pub open spec fn failure_lines(results: Seq<ChildOutcome>) -> Seq<char>
    decreases results.len(),
{
    if results.len() == 0 {
        Seq::empty()
    } else {
        failure_lines(results.drop_last()) + match results.last().error {
            Some(e) => "\n- "@ + results.last().id@ + ": "@ + e@,
            None => Seq::empty(),
        }
    }
}

impl DaemonState {
    /// Checks a `remove_workspace` request: the id must name a main
    /// workspace. Returns the entry and its child worktrees.
    pub fn validate_remove_workspace(&self, id: &str) -> (r: Result<
        (WorkspaceEntry, Vec<WorkspaceEntry>),
        String,
    >)
        ensures
            match r {
                Ok((e, children)) => {
                    &&& spec_find_entry(self.workspaces@, id@) == Some(e)
                    &&& !(e.kind is Worktree)
                    &&& children@ == children_of(self.workspaces@, id@)
                },
                Err(msg) => {
                    match spec_find_entry(self.workspaces@, id@) {
                        None => msg@ == "workspace not found"@,
                        Some(e) => e.kind is Worktree && msg@
                            == "Use remove_worktree for worktree agents."@,
                    }
                },
            },
    {
        let entry = match find_entry(&self.workspaces, id) {
            Some(e) => e,
            None => {
                return Err(str_to_string("workspace not found"));
            },
        };
        if entry.kind.is_worktree() {
            return Err(str_to_string("Use remove_worktree for worktree agents."));
        }
        let ghost ws = self.workspaces@;
        let mut children: Vec<WorkspaceEntry> = Vec::new();
        let mut i: usize = 0;
        proof {
            assert(ws.take(0) =~= Seq::<WorkspaceEntry>::empty());
            assert(children@ =~= children_of(ws.take(0), id@));
        }
        while i < self.workspaces.len()
            invariant
                ws == self.workspaces@,
                0 <= i <= ws.len(),
                children@ == children_of(ws.take(i as int), id@),
            decreases ws.len() - i,
        {
            proof {
                assert(ws.take(i + 1).drop_last() =~= ws.take(i as int));
                assert(ws.take(i + 1).last() == ws[i as int]);
            }
            let is_child = match &self.workspaces[i].parent_id {
                Some(p) => str_eq(p.as_str(), id),
                None => false,
            };
            if is_child {
                let c = self.workspaces[i].clone();
                children.push(c);
            }
            i += 1;
        }
        proof {
            assert(ws.take(i as int) =~= ws);
        }
        Ok((entry, children))
    }

    /// Applies the per-child outcomes of `remove_workspace`: each child
    /// whose removal succeeded leaves the catalog and loses its session;
    /// if every child succeeded, the parent follows and the call is `Ok`;
    /// otherwise the parent stays and the error enumerates the failures.
    #[verifier::rlimit(100)]
    pub fn apply_remove_workspace(&mut self, id: &str, results: &Vec<ChildOutcome>) -> (r: Result<
        (),
        String,
    >)
        requires
            old(self).wf(),
            spec_find_entry(old(self).workspaces@, id@) matches Some(par) && par.kind is Main,
            forall|k: int|
                0 <= k < results@.len() ==> (spec_find_entry(
                    old(self).workspaces@,
                    #[trigger] results@[k].id@,
                ) matches Some(c) && c.kind is Worktree && c.parent_id is Some
                    && c.parent_id.unwrap()@ == id@),
            forall|k: int, l: int|
                0 <= k < l < results@.len() ==> results@[k].id@ != results@[l].id@,
            forall|j: int|
                0 <= j < old(self).workspaces@.len() ==> ((#[trigger] old(
                    self,
                ).workspaces@[j].parent_id is Some && old(self).workspaces@[j].parent_id.unwrap()@
                    == id@) ==> exists|k: int|
                    0 <= k < results@.len() && results@[k].id@ == old(self).workspaces@[j].id@),
        ensures
            final(self).wf(),
            final(self).app_settings == old(self).app_settings,
            r is Ok <==> !any_failure(results@),
            forall|s: Seq<char>|
                spec_contains_id(final(self).workspaces@, s) <==> (spec_contains_id(
                    old(self).workspaces@,
                    s,
                ) && !removed_in(results@, results@.len() as int, s) && !(!any_failure(results@)
                    && s == id@)),
            forall|s: Seq<char>|
                final(self).spec_is_connected(s) <==> (old(self).spec_is_connected(s)
                    && !removed_in(results@, results@.len() as int, s) && !(!any_failure(results@)
                    && s == id@)),
            forall|j: int|
                0 <= j < final(self).workspaces@.len() ==> exists|j0: int|
                    0 <= j0 < old(self).workspaces@.len()
                        && #[trigger] final(self).workspaces@[j] == old(self).workspaces@[j0],
            r matches Err(e) ==> e@
                == "Failed to remove one or more worktrees; parent workspace was not removed."@
                + failure_lines(results@),
    {
        let ghost ws0 = old(self).workspaces@;
        let ghost conn0 = old(self).connected@;
        proof {
            assert forall|k: int| 0 <= k < results@.len() implies #[trigger] results@[k].id@
                != id@ by {
                if results@[k].id@ == id@ {
                    assert(spec_find_entry(ws0, results@[k].id@) == spec_find_entry(ws0, id@));
                }
            }
        }
        let mut detail = String::new();
        let mut failed = false;
        let mut k: usize = 0;
        proof {
            assert(results@.take(0) =~= Seq::<ChildOutcome>::empty());
            assert(detail@ =~= failure_lines(results@.take(0)));
        }
        while k < results.len()
            invariant
                old(self).wf(),
                ws0 == old(self).workspaces@,
                conn0 == old(self).connected@,
                spec_find_entry(ws0, id@) matches Some(par) && par.kind is Main,
                forall|k2: int|
                    0 <= k2 < results@.len() ==> (spec_find_entry(
                        ws0,
                        #[trigger] results@[k2].id@,
                    ) matches Some(c) && c.kind is Worktree && c.parent_id is Some
                        && c.parent_id.unwrap()@ == id@),
                forall|k2: int, l: int|
                    0 <= k2 < l < results@.len() ==> results@[k2].id@ != results@[l].id@,
                forall|k2: int| 0 <= k2 < results@.len() ==> #[trigger] results@[k2].id@ != id@,
                0 <= k <= results@.len(),
                self.wf(),
                self.app_settings == old(self).app_settings,
                contains_after(self.workspaces@, ws0, results@, k as int),
                connected_after(self.connected@, conn0, results@, k as int),
                forall|j: int|
                    0 <= j < self.workspaces@.len() ==> exists|j0: int|
                        0 <= j0 < ws0.len() && #[trigger] self.workspaces@[j] == ws0[j0],
                detail@ == failure_lines(results@.take(k as int)),
                failed == any_failure_upto(results@, k as int),
            decreases results@.len() - k,
        {
            let ghost pre = self.workspaces@;
            let ghost pre_conn = self.connected@;
            proof {
                assert(results@.take(k + 1).drop_last() =~= results@.take(k as int));
                assert(results@.take(k + 1).last() == results@[k as int]);
            }
            match &results[k].error {
                None => {
                    let cid = results[k].id.as_str();
                    proof {
                        // The child is still present: no earlier success named it.
                        assert(spec_find_entry(ws0, results@[k as int].id@) matches Some(c)
                            && c.kind is Worktree);
                        crate::workspace::lemma_find_entry_index(ws0, results@[k as int].id@);
                        if removed_in(results@, k as int, cid@) {
                            let k2 = choose|k2: int|
                                0 <= k2 < k && results@[k2].error is None && results@[k2].id@
                                    == cid@;
                            assert(false);
                        }
                        assert(spec_contains_id(self.workspaces@, cid@));
                    }
                    self.kill_session(cid);
                    let ghost midstate = *self;
                    proof {
                        // The entry under `cid` is the original child record.
                        let cur = self.workspaces@;
                        let j = choose|j: int| 0 <= j < cur.len() && cur[j].id@ == cid@;
                        let j0 = choose|j0: int| 0 <= j0 < ws0.len() && cur[j as int] == ws0[j0];
                        crate::workspace::lemma_find_entry_index(ws0, cid@);
                        let c0 = choose|c0: int|
                            0 <= c0 < ws0.len() && ws0[c0].id@ == cid@ && ws0[c0].kind
                                is Worktree;
                        assert(j0 == c0);
                        assert(cur[j].kind is Worktree);
                        assert forall|j2: int| 0 <= j2 < cur.len() implies !(#[trigger] cur[j2].parent_id
                            is Some && cur[j2].parent_id.unwrap()@ == cid@) by {
                            if cur[j2].parent_id is Some && cur[j2].parent_id.unwrap()@ == cid@ {
                                assert(entry_wf(cur, cur[j2]));
                                let m = choose|m: int|
                                    0 <= m < cur.len() && cur[m].id@ == cid@ && cur[m].kind
                                        is Main;
                                assert(m == j);
                            }
                        }
                    }
                    self.remove_entry_only(cid);
                    proof {
                        assert(contains_after(self.workspaces@, ws0, results@, k + 1)) by {
                            assert forall|s: Seq<char>| #![trigger spec_contains_id(ws0, s)]
                                spec_contains_id(self.workspaces@, s) <==> (spec_contains_id(
                                ws0,
                                s,
                            ) && !removed_in(results@, k + 1, s)) by {
                                lemma_removed_in_step(results@, k as int, s);
                                assert(spec_contains_id(pre, s) <==> (spec_contains_id(ws0, s)
                                    && !removed_in(results@, k as int, s)));
                                assert(spec_contains_id(self.workspaces@, s) <==> (
                                spec_contains_id(pre, s) && s != cid@));
                            }
                        }
                        assert(connected_after(self.connected@, conn0, results@, k + 1)) by {
                            assert forall|s: Seq<char>| #![trigger spec_has_str(conn0, s)]
                                spec_has_str(self.connected@, s) <==> (spec_has_str(conn0, s)
                                && !removed_in(results@, k + 1, s)) by {
                                lemma_removed_in_step(results@, k as int, s);
                                assert(spec_has_str(pre_conn, s) <==> (spec_has_str(conn0, s)
                                    && !removed_in(results@, k as int, s)));
                                assert(midstate.spec_is_connected(s) <==> (spec_has_str(
                                    pre_conn,
                                    s,
                                ) && s != cid@));
                                assert(spec_has_str(self.connected@, s)
                                    == midstate.spec_is_connected(s));
                            }
                        }
                        assert(detail@ =~= failure_lines(results@.take(k + 1)));
                    }
                },
                Some(err) => {
                    detail.append("\n- ");
                    detail.append(results[k].id.as_str());
                    detail.append(": ");
                    detail.append(err.as_str());
                    failed = true;
                    proof {
                        assert(detail@ =~= failure_lines(results@.take(k + 1)));
                        assert(any_failure_upto(results@, k + 1));
                        assert(contains_after(self.workspaces@, ws0, results@, k + 1)) by {
                            assert forall|s: Seq<char>| #![trigger spec_contains_id(ws0, s)]
                                spec_contains_id(self.workspaces@, s) <==> (spec_contains_id(
                                ws0,
                                s,
                            ) && !removed_in(results@, k + 1, s)) by {
                                lemma_removed_in_step(results@, k as int, s);
                            }
                        }
                        assert(connected_after(self.connected@, conn0, results@, k + 1)) by {
                            assert forall|s: Seq<char>| #![trigger spec_has_str(conn0, s)]
                                spec_has_str(self.connected@, s) <==> (spec_has_str(conn0, s)
                                && !removed_in(results@, k + 1, s)) by {
                                lemma_removed_in_step(results@, k as int, s);
                            }
                        }
                    }
                },
            }
            k += 1;
        }
        proof {
            assert(results@.take(k as int) =~= results@);
        }
        if !failed {
            let ghost exitstate = *self;
            proof {
                crate::workspace::lemma_find_entry_index(ws0, id@);
                if removed_in(results@, results@.len() as int, id@) {
                    let k2 = choose|k2: int|
                        0 <= k2 < results@.len() && results@[k2].error is None
                            && results@[k2].id@ == id@;
                    assert(false);
                }
                lemma_contains_after_at(self.workspaces@, ws0, results@, k as int, id@);
                assert(spec_contains_id(self.workspaces@, id@));
            }
            self.kill_session(id);
            let ghost midstate = *self;
            let ghost mid = self.workspaces@;
            proof {
                assert forall|j: int| 0 <= j < mid.len() implies !(#[trigger] mid[j].parent_id
                    is Some && mid[j].parent_id.unwrap()@ == id@) by {
                    if mid[j].parent_id is Some && mid[j].parent_id.unwrap()@ == id@ {
                        let j0 = choose|j0: int| 0 <= j0 < ws0.len() && mid[j] == ws0[j0];
                        assert(ws0[j0].parent_id is Some && ws0[j0].parent_id.unwrap()@ == id@);
                        let k2 = choose|k2: int|
                            0 <= k2 < results@.len() && results@[k2].id@ == ws0[j0].id@;
                        if results@[k2].error is Some {
                            assert(any_failure_upto(results@, results@.len() as int));
                            assert(false);
                        }
                        assert(0 <= k2 < results@.len() && results@[k2].error is None
                            && results@[k2].id@ == mid[j].id@);
                        assert(removed_in(results@, results@.len() as int, mid[j].id@));
                        assert(0 <= j < mid.len() && mid[j].id@ == mid[j].id@);
                        assert(spec_contains_id(mid, mid[j].id@));
                        assert(k == results@.len());
                        lemma_contains_after_at(mid, ws0, results@, k as int, mid[j].id@);
                        assert(false);
                    }
                }
            }
            self.remove_entry_only(id);
            proof {
                assert(!any_failure(results@));
                assert forall|j: int| 0 <= j < self.workspaces@.len() implies exists|j0: int|
                    0 <= j0 < ws0.len() && #[trigger] self.workspaces@[j] == ws0[j0] by {
                    let j1 = choose|j1: int|
                        0 <= j1 < mid.len() && self.workspaces@[j] == mid[j1];
                    let j0 = choose|j0: int| 0 <= j0 < ws0.len() && mid[j1] == ws0[j0];
                    assert(self.workspaces@[j] == ws0[j0]);
                }
                let nlen: int = results@.len() as int;
                assert forall|s: Seq<char>|
                    spec_contains_id(self.workspaces@, s) <==> (spec_contains_id(ws0, s)
                        && !removed_in(results@, nlen, s) && !(!any_failure(results@) && s
                        == id@)) by {
                    lemma_contains_after_at(mid, ws0, results@, nlen, s);
                }
                assert forall|s: Seq<char>|
                    self.spec_is_connected(s) <==> (spec_has_str(conn0, s) && !removed_in(
                        results@,
                        nlen,
                        s,
                    ) && !(!any_failure(results@) && s == id@)) by {
                    lemma_connected_after_at(exitstate.connected@, conn0, results@, nlen, s);
                    assert(midstate.spec_is_connected(s) <==> (exitstate.spec_is_connected(s) && s
                        != id@));
                    assert(self.spec_is_connected(s) == midstate.spec_is_connected(s));
                }
            }
            return Ok(());
        }
        let mut msg = str_to_string(
            "Failed to remove one or more worktrees; parent workspace was not removed.",
        );
        msg.append(detail.as_str());
        Err(msg)
    }
}

} // verus!
