//! Workspace file access: the byte-limit and UTF-8 rules of a file read,
//! the containment check that keeps reads inside the workspace root, and
//! the shaping of a walked file listing.

use vstd::prelude::*;
use vstd::utf8::{decode_utf8, valid_utf8};

use crate::names::spec_normalize_git_path;
use crate::text::{sort_strings, spec_starts_with, str_eq, str_starts_with, str_to_string,
    strings_sorted, strs_view};

verus! {

/// The largest number of content bytes a file read returns.
pub const MAX_WORKSPACE_FILE_BYTES: usize = 400000;

/// Relies on String::from_utf8: `Ok` exactly on valid UTF-8, yielding the
/// decoded characters of the byte sequence.
#[verifier::external_body]
fn bytes_to_string(bytes: Vec<u8>) -> (r: Result<String, ()>)
    ensures
        r is Ok <==> valid_utf8(bytes@),
        r matches Ok(s) ==> s@ == decode_utf8(bytes@),
{
    match String::from_utf8(bytes) {
        Ok(s) => Ok(s),
        Err(_) => Err(()),
    }
}

/// The bytes a read yields: everything when within the limit, else the
/// first `MAX_WORKSPACE_FILE_BYTES` of them.
pub open spec fn spec_file_window(bytes: Seq<u8>) -> Seq<u8> {
    if bytes.len() > MAX_WORKSPACE_FILE_BYTES {
        bytes.take(MAX_WORKSPACE_FILE_BYTES as int)
    } else {
        bytes
    }
}

/// Turns raw file bytes into the reply content: truncated to the byte
/// limit, with the truncation flagged, and rejected when the kept window
/// is not valid UTF-8.
pub fn read_file_content(bytes: Vec<u8>) -> (r: Result<(String, bool), String>)
    ensures
        r is Ok <==> valid_utf8(spec_file_window(bytes@)),
        match r {
            Ok((content, truncated)) => {
                &&& truncated == (bytes@.len() > MAX_WORKSPACE_FILE_BYTES)
                &&& content@ == decode_utf8(spec_file_window(bytes@))
            },
            Err(e) => e@ == "File is not valid UTF-8"@,
        },
{
    let mut bytes = bytes;
    let ghost bytes0 = bytes@;
    let truncated = bytes.len() > MAX_WORKSPACE_FILE_BYTES;
    if truncated {
        bytes.truncate(MAX_WORKSPACE_FILE_BYTES);
        proof {
            assert(bytes@ =~= spec_file_window(bytes0));
        }
    }
    match bytes_to_string(bytes) {
        Ok(content) => Ok((content, truncated)),
        Err(_) => Err(str_to_string("File is not valid UTF-8")),
    }
}

/// A canonical path lies within a canonical root when it is the root
/// itself or continues it at a `/` boundary.
pub open spec fn spec_within_root(candidate: Seq<char>, root: Seq<char>) -> bool {
    candidate == root || spec_starts_with(candidate, root + "/"@)
}

pub fn path_within_root(candidate: &str, root: &str) -> (r: bool)
    ensures
        r == spec_within_root(candidate@, root@),
{
    if str_eq(candidate, root) {
        return true;
    }
    let mut prefix = str_to_string(root);
    prefix.append("/");
    str_starts_with(candidate, prefix.as_str())
}

/// Rejects a resolved file path that has escaped the workspace root.
pub fn validate_file_path(candidate: &str, root: &str) -> (r: Result<(), String>)
    ensures
        r is Ok <==> spec_within_root(candidate@, root@),
        r matches Err(e) ==> e@ == "Invalid file path"@,
{
    if path_within_root(candidate, root) {
        Ok(())
    } else {
        Err(str_to_string("Invalid file path"))
    }
}

/// The relative paths kept from a walked listing, in walk order: each
/// normalised to `/` separators, empties dropped, at most `max` of them.
pub open spec fn spec_kept_files(raw: Seq<String>, max: int) -> Seq<Seq<char>>
    decreases raw.len(),
{
    if raw.len() == 0 || max <= 0 {
        Seq::empty()
    } else {
        let n = spec_normalize_git_path(raw[0]@);
        if n.len() == 0 {
            spec_kept_files(raw.skip(1), max)
        } else {
            seq![n] + spec_kept_files(raw.skip(1), max - 1)
        }
    }
}

/// Shapes a walked listing into the reply: normalised, empties dropped,
/// capped at `max` entries, sorted ascending.
pub fn collect_file_list(raw: &Vec<String>, max: usize) -> (r: Vec<String>)
    ensures
        strings_sorted(r@),
        strs_view(r@).to_multiset() == spec_kept_files(raw@, max as int).to_multiset(),
{
    let mut out: Vec<String> = Vec::new();
    let mut i: usize = 0;
    proof {
        assert(raw@.skip(0) =~= raw@);
        assert(strs_view(out@) =~= Seq::<Seq<char>>::empty());
    }
    while i < raw.len() && out.len() < max
        invariant
            0 <= i <= raw@.len(),
            out@.len() <= max,
            spec_kept_files(raw@, max as int) == strs_view(out@) + spec_kept_files(
                raw@.skip(i as int),
                max - out@.len(),
            ),
        decreases raw@.len() - i,
    {
        let n = crate::names::normalize_git_path(raw[i].as_str());
        proof {
            assert(raw@.skip(i as int)[0] == raw@[i as int]);
            assert(raw@.skip(i as int).skip(1) =~= raw@.skip(i + 1));
        }
        if n.as_str().unicode_len() > 0 {
            out.push(n);
            proof {
                let rest = spec_kept_files(raw@.skip(i + 1), max - out@.len());
                assert(strs_view(out@) =~= strs_view(out@.drop_last()).push(
                    spec_normalize_git_path(raw@[i as int]@),
                ));
                assert(strs_view(out@.drop_last()) + (seq![
                    spec_normalize_git_path(raw@[i as int]@),
                ] + rest) =~= strs_view(out@) + rest);
            }
        }
        i += 1;
    }
    proof {
        if i >= raw@.len() {
            assert(raw@.skip(i as int).len() == 0);
            assert(spec_kept_files(raw@.skip(i as int), max - out@.len()) =~= Seq::<
                Seq<char>,
            >::empty());
        }
        assert(strs_view(out@) + Seq::<Seq<char>>::empty() =~= strs_view(out@));
        assert(spec_kept_files(raw@, max as int) =~= strs_view(out@));
    }
    sort_strings(&mut out);
    out
}

} // verus!
