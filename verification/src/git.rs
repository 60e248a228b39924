//! Plans for the git façade: the exact argument vectors the daemon hands
//! to git, remote selection, and the shaping of git failures into error
//! text.

use vstd::prelude::*;

use crate::text::{spec_trim, str_to_string, str_trim};

verus! {

/// The error detail of a failed git call: trimmed stderr when non-empty,
/// else trimmed stdout, else a fixed phrase.
pub fn git_failure_detail(stdout: &str, stderr: &str) -> (r: String)
    ensures
        r@ == if spec_trim(stderr@).len() > 0 {
            spec_trim(stderr@)
        } else if spec_trim(stdout@).len() > 0 {
            spec_trim(stdout@)
        } else {
            "Git command failed."@
        },
{
    let se = str_trim(stderr);
    if se.as_str().unicode_len() > 0 {
        return se;
    }
    let so = str_trim(stdout);
    if so.as_str().unicode_len() > 0 {
        return so;
    }
    str_to_string("Git command failed.")
}

/// One remote together with whether it hosts the branch in question.
pub struct RemoteProbe {
    pub name: String,
    pub hosts_branch: bool,
}

/// The first probe that hosts the branch; probes come in search order,
/// `origin` first.
pub fn find_remote_hosting(probes: &Vec<RemoteProbe>) -> (r: Option<String>)
    ensures
        match r {
            Some(n) => exists|i: int|
                {
                    &&& 0 <= i < probes@.len()
                    &&& #[trigger] probes@[i].hosts_branch
                    &&& n@ == probes@[i].name@
                    &&& forall|j: int| 0 <= j < i ==> !(#[trigger] probes@[j].hosts_branch)
                },
            None => forall|j: int|
                0 <= j < probes@.len() ==> !(#[trigger] probes@[j].hosts_branch),
        },
{
    let mut i: usize = 0;
    while i < probes.len()
        invariant
            0 <= i <= probes@.len(),
            forall|j: int| 0 <= j < i ==> !(#[trigger] probes@[j].hosts_branch),
        decreases probes@.len() - i,
    {
        if probes[i].hosts_branch {
            return Some(probes[i].name.clone());
        }
        i += 1;
    }
    None
}

/// A `remote/branch` reference.
pub fn remote_ref(remote: &str, branch: &str) -> (r: String)
    ensures
        r@ == remote@ + "/"@ + branch@,
{
    let mut s = str_to_string(remote);
    s.append("/");
    s.append(branch);
    s
}

/// The remote an upstream rename pushes to: the one hosting the old
/// branch when there is one, else `origin` if configured.
pub fn choose_push_remote(remote_for_old: Option<String>, origin_exists: bool) -> (r: Result<
    String,
    String,
>)
    ensures
        match r {
            Ok(n) => match remote_for_old {
                Some(m) => n == m,
                None => origin_exists && n@ == "origin"@,
            },
            Err(e) => remote_for_old is None && !origin_exists && e@
                == "No git remote configured for this worktree."@,
        },
{
    match remote_for_old {
        Some(m) => Ok(m),
        None => {
            if origin_exists {
                Ok(str_to_string("origin"))
            } else {
                Err(str_to_string("No git remote configured for this worktree."))
            }
        },
    }
}

/// Both trimmed branch names of an upstream rename: non-empty and
/// distinct, in that order of checking.
pub fn validate_rename_upstream(old_branch: &str, new_branch: &str) -> (r: Result<
    (String, String),
    String,
>)
    ensures
        match r {
            Ok((o, n)) => {
                &&& o@ == spec_trim(old_branch@)
                &&& n@ == spec_trim(new_branch@)
                &&& o@.len() > 0
                &&& n@.len() > 0
                &&& o@ != n@
            },
            Err(e) => {
                if spec_trim(old_branch@).len() == 0 || spec_trim(new_branch@).len() == 0 {
                    e@ == "Branch name is required."@
                } else {
                    spec_trim(old_branch@) == spec_trim(new_branch@) && e@
                        == "Branch name is unchanged."@
                }
            },
        },
{
    let o = str_trim(old_branch);
    let n = str_trim(new_branch);
    if o.as_str().unicode_len() == 0 || n.as_str().unicode_len() == 0 {
        return Err(str_to_string("Branch name is required."));
    }
    if crate::text::str_eq(o.as_str(), n.as_str()) {
        return Err(str_to_string("Branch name is unchanged."));
    }
    Ok((o, n))
}

/// The `git worktree add` invocation materialising `branch` at `path`:
/// plain when the local branch exists, `-b` from a remote ref when one
/// tracks it, else `-b` from scratch.
pub fn worktree_add_args(branch: &str, path: &str, local_exists: bool, remote: Option<&str>) -> (r:
    Vec<String>)
    ensures
        local_exists ==> {
            &&& r@.len() == 4
            &&& r@[0]@ == "worktree"@
            &&& r@[1]@ == "add"@
            &&& r@[2]@ == path@
            &&& r@[3]@ == branch@
        },
        !local_exists && remote is Some ==> {
            &&& r@.len() == 6
            &&& r@[0]@ == "worktree"@
            &&& r@[1]@ == "add"@
            &&& r@[2]@ == "-b"@
            &&& r@[3]@ == branch@
            &&& r@[4]@ == path@
            &&& r@[5]@ == remote.unwrap()@
        },
        !local_exists && remote is None ==> {
            &&& r@.len() == 5
            &&& r@[0]@ == "worktree"@
            &&& r@[1]@ == "add"@
            &&& r@[2]@ == "-b"@
            &&& r@[3]@ == branch@
            &&& r@[4]@ == path@
        },
{
    let mut args: Vec<String> = Vec::new();
    args.push(str_to_string("worktree"));
    args.push(str_to_string("add"));
    if local_exists {
        args.push(str_to_string(path));
        args.push(str_to_string(branch));
    } else {
        args.push(str_to_string("-b"));
        args.push(str_to_string(branch));
        args.push(str_to_string(path));
        match remote {
            Some(rr) => {
                args.push(str_to_string(rr));
            },
            None => {},
        }
    }
    args
}

/// The forced `git worktree remove` invocation for `path`.
pub fn worktree_remove_args(path: &str) -> (r: Vec<String>)
    ensures
        r@.len() == 4,
        r@[0]@ == "worktree"@,
        r@[1]@ == "remove"@,
        r@[2]@ == "--force"@,
        r@[3]@ == path@,
{
    let mut args: Vec<String> = Vec::new();
    args.push(str_to_string("worktree"));
    args.push(str_to_string("remove"));
    args.push(str_to_string("--force"));
    args.push(str_to_string(path));
    args
}

/// The best-effort prune of stale worktree metadata.
pub fn worktree_prune_args() -> (r: Vec<String>)
    ensures
        r@.len() == 4,
        r@[0]@ == "worktree"@,
        r@[1]@ == "prune"@,
        r@[2]@ == "--expire"@,
        r@[3]@ == "now"@,
{
    let mut args: Vec<String> = Vec::new();
    args.push(str_to_string("worktree"));
    args.push(str_to_string("prune"));
    args.push(str_to_string("--expire"));
    args.push(str_to_string("now"));
    args
}

/// The local branch rename, old to new.
pub fn branch_move_args(old_branch: &str, new_branch: &str) -> (r: Vec<String>)
    ensures
        r@.len() == 4,
        r@[0]@ == "branch"@,
        r@[1]@ == "-m"@,
        r@[2]@ == old_branch@,
        r@[3]@ == new_branch@,
{
    let mut args: Vec<String> = Vec::new();
    args.push(str_to_string("branch"));
    args.push(str_to_string("-m"));
    args.push(str_to_string(old_branch));
    args.push(str_to_string(new_branch));
    args
}

/// The directory move of a worktree.
pub fn worktree_move_args(old_path: &str, new_path: &str) -> (r: Vec<String>)
    ensures
        r@.len() == 4,
        r@[0]@ == "worktree"@,
        r@[1]@ == "move"@,
        r@[2]@ == old_path@,
        r@[3]@ == new_path@,
{
    let mut args: Vec<String> = Vec::new();
    args.push(str_to_string("worktree"));
    args.push(str_to_string("move"));
    args.push(str_to_string(old_path));
    args.push(str_to_string(new_path));
    args
}

/// The push plan of an upstream rename. When the old branch lived on the
/// remote: push the new branch and delete the old one; otherwise a plain
/// push of the new branch.
pub fn push_rename_args(remote: &str, old_branch: &str, new_branch: &str, old_on_remote: bool) -> (
    r: Vec<Vec<String>>)
    ensures
        old_on_remote ==> {
            &&& r@.len() == 2
            &&& r@[0]@.len() == 3
            &&& r@[0]@[0]@ == "push"@
            &&& r@[0]@[1]@ == remote@
            &&& r@[0]@[2]@ == new_branch@ + ":"@ + new_branch@
            &&& r@[1]@.len() == 3
            &&& r@[1]@[0]@ == "push"@
            &&& r@[1]@[1]@ == remote@
            &&& r@[1]@[2]@ == ":"@ + old_branch@
        },
        !old_on_remote ==> {
            &&& r@.len() == 1
            &&& r@[0]@.len() == 3
            &&& r@[0]@[0]@ == "push"@
            &&& r@[0]@[1]@ == remote@
            &&& r@[0]@[2]@ == new_branch@
        },
{
    let mut plan: Vec<Vec<String>> = Vec::new();
    if old_on_remote {
        let mut first: Vec<String> = Vec::new();
        first.push(str_to_string("push"));
        first.push(str_to_string(remote));
        let mut spec_pair = str_to_string(new_branch);
        spec_pair.append(":");
        spec_pair.append(new_branch);
        first.push(spec_pair);
        plan.push(first);
        let mut second: Vec<String> = Vec::new();
        second.push(str_to_string("push"));
        second.push(str_to_string(remote));
        let mut deletion = str_to_string(":");
        deletion.append(old_branch);
        second.push(deletion);
        plan.push(second);
    } else {
        let mut only: Vec<String> = Vec::new();
        only.push(str_to_string("push"));
        only.push(str_to_string(remote));
        only.push(str_to_string(new_branch));
        plan.push(only);
    }
    plan
}

/// The upstream rewiring of the renamed branch.
pub fn set_upstream_args(remote: &str, new_branch: &str) -> (r: Vec<String>)
    ensures
        r@.len() == 4,
        r@[0]@ == "branch"@,
        r@[1]@ == "--set-upstream-to"@,
        r@[2]@ == remote@ + "/"@ + new_branch@,
        r@[3]@ == new_branch@,
{
    let mut args: Vec<String> = Vec::new();
    args.push(str_to_string("branch"));
    args.push(str_to_string("--set-upstream-to"));
    args.push(remote_ref(remote, new_branch));
    args.push(str_to_string(new_branch));
    args
}

} // verus!
