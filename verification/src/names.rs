//! Branch and worktree naming: sanitisation, unique-path probing, and the
//! small string predicates the daemon uses around git output.

use vstd::prelude::*;

use crate::text::{dec_u32, push_char, spec_contains, spec_dec, spec_has_str, str_contains, str_eq,
    str_to_string, vec_contains_str};

verus! {

/// Characters that survive sanitisation: ASCII alphanumerics, `-`, `_`, `.`.
pub open spec fn is_safe_char(c: char) -> bool {
    ||| 'a' <= c && c <= 'z'
    ||| 'A' <= c && c <= 'Z'
    ||| '0' <= c && c <= '9'
    ||| c == '-'
    ||| c == '_'
    ||| c == '.'
}

pub open spec fn spec_sanitize_char(c: char) -> char {
    if is_safe_char(c) {
        c
    } else {
        '-'
    }
}

/// Drop leading dashes.
pub open spec fn trim_front(s: Seq<char>) -> Seq<char>
    decreases s.len(),
{
    if s.len() > 0 && s[0] == '-' {
        trim_front(s.skip(1))
    } else {
        s
    }
}

/// Drop trailing dashes.
pub open spec fn trim_back(s: Seq<char>) -> Seq<char>
    decreases s.len(),
{
    if s.len() > 0 && s[s.len() - 1] == '-' {
        trim_back(s.take(s.len() - 1))
    } else {
        s
    }
}

/// The sanitised form of a branch name: unsafe characters replaced by `-`,
/// dashes trimmed from both ends, and `"worktree"` if nothing remains.
pub open spec fn spec_sanitize(branch: Seq<char>) -> Seq<char> {
    let mapped = branch.map_values(|c: char| spec_sanitize_char(c));
    let trimmed = trim_back(trim_front(mapped));
    if trimmed.len() == 0 {
        "worktree"@
    } else {
        trimmed
    }
}

proof fn lemma_trim_front_wf(s: Seq<char>)
    ensures
        trim_front(s).len() > 0 ==> trim_front(s)[0] != '-',
        forall|i: int| 0 <= i < trim_front(s).len() ==> exists|j: int|
            0 <= j < s.len() && s[j] == #[trigger] trim_front(s)[i],
    decreases s.len(),
{
    if s.len() > 0 && s[0] == '-' {
        lemma_trim_front_wf(s.skip(1));
        assert forall|i: int| 0 <= i < trim_front(s).len() implies exists|j: int|
            0 <= j < s.len() && s[j] == #[trigger] trim_front(s)[i] by {
            let t = trim_front(s.skip(1));
            let j = choose|j: int| 0 <= j < s.skip(1).len() && s.skip(1)[j] == t[i];
            assert(s[j + 1] == t[i]);
        }
    }
}

proof fn lemma_trim_back_wf(s: Seq<char>)
    ensures
        trim_back(s).len() <= s.len(),
        trim_back(s).len() > 0 ==> trim_back(s)[trim_back(s).len() - 1] != '-',
        forall|i: int| 0 <= i < trim_back(s).len() ==> #[trigger] trim_back(s)[i] == s[i],
    decreases s.len(),
{
    if s.len() > 0 && s[s.len() - 1] == '-' {
        let t = s.take(s.len() - 1);
        lemma_trim_back_wf(t);
        assert forall|i: int| 0 <= i < trim_back(s).len() implies #[trigger] trim_back(s)[i]
            == s[i] by {
            assert(trim_back(s) == trim_back(t));
            assert(trim_back(t)[i] == t[i]);
        }
    }
}

/// Sanitises a branch name into a directory-name-safe form. The result has
/// only characters in `[A-Za-z0-9._-]`, is non-empty, and neither starts nor
/// ends with `-`.
pub fn sanitize_worktree_name(branch: &str) -> (r: String)
    ensures
        r@ == spec_sanitize(branch@),
        r@.len() > 0,
        forall|i: int| 0 <= i < r@.len() ==> is_safe_char(#[trigger] r@[i]),
        r@[0] != '-',
        r@[r@.len() - 1] != '-',
{
    let len = branch.unicode_len();
    let ghost mapped = branch@.map_values(|c: char| spec_sanitize_char(c));
    // Map every unsafe character to '-'.
    let mut s = String::new();
    let mut i: usize = 0;
    while i < len
        invariant
            len == branch@.len(),
            mapped == branch@.map_values(|c: char| spec_sanitize_char(c)),
            0 <= i <= len,
            s@ == mapped.take(i as int),
        decreases len - i,
    {
        let c = branch.get_char(i);
        let mapped_c = if is_safe_char_exec(c) {
            c
        } else {
            '-'
        };
        push_char(&mut s, mapped_c);
        proof {
            assert(mapped.take(i + 1) =~= mapped.take(i as int).push(mapped[i as int]));
        }
        i += 1;
    }
    proof {
        assert(mapped.take(len as int) =~= mapped);
    }
    // Trim dashes from the front.
    let slen = s.as_str().unicode_len();
    let mut start: usize = 0;
    while start < slen && s.as_str().get_char(start) == '-'
        invariant
            slen == s@.len(),
            0 <= start <= slen,
            forall|k: int| 0 <= k < start ==> s@[k] == '-',
            trim_front(s@) == trim_front(s@.skip(start as int)),
        decreases slen - start,
    {
        proof {
            assert(s@.skip(start as int)[0] == s@[start as int]);
            assert(s@.skip(start as int).skip(1) =~= s@.skip(start + 1));
        }
        start += 1;
    }
    proof {
        if start < slen {
            assert(s@.skip(start as int)[0] == s@[start as int]);
        }
        assert(trim_front(s@) =~= s@.skip(start as int));
    }
    // Trim dashes from the back.
    let mut end: usize = slen;
    while end > start && s.as_str().get_char(end - 1) == '-'
        invariant
            slen == s@.len(),
            0 <= start <= end <= slen,
            trim_front(s@) == s@.skip(start as int),
            forall|k: int| end <= k < slen ==> s@[k] == '-',
            trim_back(trim_front(s@)) == trim_back(s@.subrange(start as int, end as int)),
        decreases end,
    {
        proof {
            let seg = s@.subrange(start as int, end as int);
            assert(seg[seg.len() - 1] == s@[end - 1]);
            assert(seg.take(seg.len() - 1) =~= s@.subrange(start as int, end - 1));
        }
        end -= 1;
    }
    proof {
        let seg = s@.subrange(start as int, end as int);
        if end > start {
            assert(seg[seg.len() - 1] == s@[end - 1]);
        }
        assert(trim_back(seg) =~= seg);
        assert(s@.skip(start as int) =~= s@.subrange(start as int, slen as int));
    }
    if start == end {
        let r = str_to_string("worktree");
        proof {
            reveal_strlit("worktree");
            assert(s@.subrange(start as int, end as int).len() == 0);
            assert(r@[0] == 'w');
            assert(r@[7] == 'e');
            assert forall|i: int| 0 <= i < r@.len() implies is_safe_char(#[trigger] r@[i]) by {
                assert(r@[0] == 'w' && r@[1] == 'o' && r@[2] == 'r' && r@[3] == 'k' && r@[4] == 't'
                    && r@[5] == 'r' && r@[6] == 'e' && r@[7] == 'e');
            }
        }
        r
    } else {
        let sub = s.as_str().substring_char(start, end);
        let r = str_to_string(sub);
        proof {
            let seg = s@.subrange(start as int, end as int);
            assert(r@ == seg);
            lemma_trim_front_wf(s@);
            lemma_trim_back_wf(s@.skip(start as int));
            assert forall|i: int| 0 <= i < r@.len() implies is_safe_char(#[trigger] r@[i]) by {
                assert(seg[i] == s@[start + i]);
                assert(mapped[start + i] == spec_sanitize_char(branch@[start + i]));
            }
            assert(r@[0] == s@[start as int]);
            if s@[start as int] == '-' {
                assert(trim_front(s@)[0] == '-');
                assert(false);
            }
            assert(r@[r@.len() - 1] == s@[end - 1]);
            if s@[end - 1] == '-' {
                let tb = trim_back(seg);
                assert(tb =~= seg);
                assert(false);
            }
        }
        r
    }
}

fn is_safe_char_exec(c: char) -> (r: bool)
    ensures
        r == is_safe_char(c),
{
    ('a' <= c && c <= 'z') || ('A' <= c && c <= 'Z') || ('0' <= c && c <= '9') || c == '-'
        || c == '_' || c == '.'
}

/// Backslashes rewritten to forward slashes, as git paths are reported.
pub open spec fn spec_normalize_git_path(p: Seq<char>) -> Seq<char> {
    p.map_values(|c: char| if c == '\\' { '/' } else { c })
}

pub fn normalize_git_path(path: &str) -> (r: String)
    ensures
        r@ == spec_normalize_git_path(path@),
{
    let len = path.unicode_len();
    let ghost mapped = spec_normalize_git_path(path@);
    let mut s = String::new();
    let mut i: usize = 0;
    while i < len
        invariant
            len == path@.len(),
            mapped == spec_normalize_git_path(path@),
            0 <= i <= len,
            s@ == mapped.take(i as int),
        decreases len - i,
    {
        let c = path.get_char(i);
        push_char(&mut s, if c == '\\' { '/' } else { c });
        proof {
            assert(mapped.take(i + 1) =~= mapped.take(i as int).push(mapped[i as int]));
        }
        i += 1;
    }
    proof {
        assert(mapped.take(len as int) =~= mapped);
    }
    s
}

/// Directory names that the workspace file walker never descends into.
pub open spec fn spec_should_skip_dir(name: Seq<char>) -> bool {
    ||| name == ".git"@
    ||| name == "node_modules"@
    ||| name == "dist"@
    ||| name == "target"@
    ||| name == "release-artifacts"@
}

pub fn should_skip_dir(name: &str) -> (r: bool)
    ensures
        r == spec_should_skip_dir(name@),
{
    str_eq(name, ".git") || str_eq(name, "node_modules") || str_eq(name, "dist") || str_eq(
        name,
        "target",
    ) || str_eq(name, "release-artifacts")
}

/// Whether a git error message reports that a path is not a working tree,
/// the case where directory removal is used as a fallback.
pub fn is_missing_worktree_error(error: &str) -> (r: bool)
    ensures
        r == spec_contains(error@, "is not a working tree"@),
{
    str_contains(error, "is not a working tree")
}

/// The directory under which a parent's worktrees are materialised:
/// `<data_dir>/worktrees/<parent_id>`.
pub fn worktree_root_dir(data_dir: &str, parent_id: &str) -> (r: String)
    ensures
        r@ == data_dir@ + "/worktrees/"@ + parent_id@,
{
    let mut s = str_to_string(data_dir);
    s.append("/worktrees/");
    s.append(parent_id);
    s
}

/// The candidate path probed at `idx`: `base/name` for `idx == 1`, and
/// `base/name-idx` beyond.
pub open spec fn spec_candidate_path(base: Seq<char>, name: Seq<char>, idx: int) -> Seq<char> {
    if idx <= 1 {
        base + "/"@ + name
    } else {
        base + "/"@ + name + "-"@ + spec_dec(idx as nat)
    }
}

fn candidate_path(base: &str, name: &str, idx: u32) -> (r: String)
    requires
        1 <= idx < 1000,
    ensures
        r@ == spec_candidate_path(base@, name@, idx as int),
{
    let mut s = str_to_string(base);
    s.append("/");
    s.append(name);
    if idx > 1 {
        s.append("-");
        let d = dec_u32(idx);
        s.append(d.as_str());
    }
    s
}

/// What makes `r` the right probe answer: the first candidate (in probe
/// order `1, 2, .., 999`) that `occupied` does not hold.
pub open spec fn first_free_candidate(
    base: Seq<char>,
    name: Seq<char>,
    occupied: Seq<String>,
    idx: int,
) -> bool {
    &&& 1 <= idx < 1000
    &&& !spec_has_str(occupied, spec_candidate_path(base, name, idx))
    &&& forall|k: int|
        1 <= k < idx ==> spec_has_str(occupied, #[trigger] spec_candidate_path(base, name, k))
}

/// Picks `base/name`, or the first free `base/name-N` for `N` in `2..1000`,
/// treating exactly the members of `occupied` as taken. Fails when every
/// candidate is taken.
pub fn unique_worktree_path(base_dir: &str, name: &str, occupied: &Vec<String>) -> (r: Result<
    String,
    String,
>)
    ensures
        match r {
            Ok(p) => exists|idx: int| p@ == spec_candidate_path(base_dir@, name@, idx)
                && #[trigger] first_free_candidate(base_dir@, name@, occupied@, idx),
            Err(e) => {
                &&& forall|k: int|
                    1 <= k < 1000 ==> spec_has_str(
                        occupied@,
                        #[trigger] spec_candidate_path(base_dir@, name@, k),
                    )
                &&& e@ == "Failed to find an available worktree path under "@ + base_dir@ + "."@
            },
        },
{
    let first = candidate_path(base_dir, name, 1);
    if !vec_contains_str(occupied, first.as_str()) {
        proof {
            assert(first_free_candidate(base_dir@, name@, occupied@, 1));
        }
        return Ok(first);
    }
    let mut index: u32 = 2;
    while index < 1000
        invariant
            2 <= index <= 1000,
            forall|k: int|
                1 <= k < index ==> spec_has_str(
                    occupied@,
                    #[trigger] spec_candidate_path(base_dir@, name@, k),
                ),
        decreases 1000 - index,
    {
        let next = candidate_path(base_dir, name, index);
        if !vec_contains_str(occupied, next.as_str()) {
            proof {
                assert(first_free_candidate(base_dir@, name@, occupied@, index as int));
            }
            return Ok(next);
        }
        index += 1;
    }
    let mut e = str_to_string("Failed to find an available worktree path under ");
    e.append(base_dir);
    e.append(".");
    Err(e)
}

/// Like `unique_worktree_path`, except that the workspace's current path is
/// treated as free: renaming a worktree onto its own directory is allowed.
pub fn unique_worktree_path_for_rename(
    base_dir: &str,
    name: &str,
    current_path: &str,
    occupied: &Vec<String>,
) -> (r: Result<String, String>)
    ensures
        match r {
            Ok(p) => exists|idx: int| p@ == spec_candidate_path(base_dir@, name@, idx)
                && #[trigger] rename_candidate_ok(
                    base_dir@,
                    name@,
                    current_path@,
                    occupied@,
                    idx,
                ),
            Err(e) => {
                &&& forall|k: int|
                    1 <= k < 1000 ==> spec_has_str(
                        occupied@,
                        #[trigger] spec_candidate_path(base_dir@, name@, k),
                    ) && spec_candidate_path(base_dir@, name@, k) != current_path@
                &&& e@ == "Failed to find an available worktree path under "@ + base_dir@ + "."@
            },
        },
{
    let first = candidate_path(base_dir, name, 1);
    if str_eq(first.as_str(), current_path) || !vec_contains_str(occupied, first.as_str()) {
        proof {
            assert(rename_candidate_ok(base_dir@, name@, current_path@, occupied@, 1));
        }
        return Ok(first);
    }
    let mut index: u32 = 2;
    while index < 1000
        invariant
            2 <= index <= 1000,
            forall|k: int|
                1 <= k < index ==> spec_has_str(
                    occupied@,
                    #[trigger] spec_candidate_path(base_dir@, name@, k),
                ) && spec_candidate_path(base_dir@, name@, k) != current_path@,
        decreases 1000 - index,
    {
        let next = candidate_path(base_dir, name, index);
        if str_eq(next.as_str(), current_path) || !vec_contains_str(occupied, next.as_str()) {
            proof {
                assert(rename_candidate_ok(
                    base_dir@,
                    name@,
                    current_path@,
                    occupied@,
                    index as int,
                ));
            }
            return Ok(next);
        }
        index += 1;
    }
    let mut e = str_to_string("Failed to find an available worktree path under ");
    e.append(base_dir);
    e.append(".");
    Err(e)
}

/// A candidate is acceptable for a rename when it is the current path or
/// free, and every earlier candidate was neither.
pub open spec fn rename_candidate_ok(
    base: Seq<char>,
    name: Seq<char>,
    current: Seq<char>,
    occupied: Seq<String>,
    idx: int,
) -> bool {
    &&& 1 <= idx < 1000
    &&& {
        let c = spec_candidate_path(base, name, idx);
        c == current || !spec_has_str(occupied, c)
    }
    &&& forall|k: int|
        1 <= k < idx ==> {
            let c = #[trigger] spec_candidate_path(base, name, k);
            c != current && spec_has_str(occupied, c)
        }
}

/// The branch-name candidate at `idx`: `desired` itself for `idx == 1`,
/// `desired-idx` beyond.
pub open spec fn spec_candidate_branch(desired: Seq<char>, idx: int) -> Seq<char> {
    if idx <= 1 {
        desired
    } else {
        desired + "-"@ + spec_dec(idx as nat)
    }
}

pub open spec fn first_free_branch(desired: Seq<char>, taken: Seq<String>, idx: int) -> bool {
    &&& 1 <= idx < 1000
    &&& !spec_has_str(taken, spec_candidate_branch(desired, idx))
    &&& forall|k: int|
        1 <= k < idx ==> spec_has_str(taken, #[trigger] spec_candidate_branch(desired, k))
}

fn candidate_branch(desired: &str, idx: u32) -> (r: String)
    requires
        1 <= idx < 1000,
    ensures
        r@ == spec_candidate_branch(desired@, idx as int),
{
    let mut s = str_to_string(desired);
    if idx > 1 {
        s.append("-");
        let d = dec_u32(idx);
        s.append(d.as_str());
    }
    s
}

/// Picks `desired`, or the first free `desired-N` for `N` in `2..1000`,
/// treating exactly the members of `taken` as existing branch names. The
/// second component reports whether a suffix was needed. An empty `desired`
/// is returned unchanged.
pub fn unique_branch_name(desired: &str, taken: &Vec<String>) -> (r: Result<
    (String, bool),
    String,
>)
    ensures
        match r {
            Ok(p) => {
                if desired@.len() == 0 {
                    p.0@ == desired@ && !p.1
                } else {
                    exists|idx: int| p.0@ == spec_candidate_branch(desired@, idx)
                        && #[trigger] first_free_branch(desired@, taken@, idx) && (p.1 <==> idx
                        > 1)
                }
            },
            Err(e) => {
                &&& desired@.len() > 0
                &&& forall|k: int|
                    1 <= k < 1000 ==> spec_has_str(
                        taken@,
                        #[trigger] spec_candidate_branch(desired@, k),
                    )
                &&& e@ == "Unable to find an available branch name."@
            },
        },
{
    if desired.unicode_len() == 0 {
        return Ok((str_to_string(desired), false));
    }
    let first = candidate_branch(desired, 1);
    if !vec_contains_str(taken, first.as_str()) {
        proof {
            assert(first_free_branch(desired@, taken@, 1));
        }
        return Ok((first, false));
    }
    let mut index: u32 = 2;
    while index < 1000
        invariant
            2 <= index <= 1000,
            desired@.len() > 0,
            forall|k: int|
                1 <= k < index ==> spec_has_str(
                    taken@,
                    #[trigger] spec_candidate_branch(desired@, k),
                ),
        decreases 1000 - index,
    {
        let next = candidate_branch(desired, index);
        if !vec_contains_str(taken, next.as_str()) {
            proof {
                assert(first_free_branch(desired@, taken@, index as int));
            }
            return Ok((next, true));
        }
        index += 1;
    }
    Err(str_to_string("Unable to find an available branch name."))
}

} // verus!
