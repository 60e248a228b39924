//! Listing order of workspaces: ascending `sort_order` with absent orders
//! last, ties broken by name.

use vstd::prelude::*;
use vstd::seq_lib::lemma_multiset_commutative;

use crate::text::{lemma_str_le_total, lemma_str_le_trans, spec_str_le, str_le};
use crate::workspace::WorkspaceInfo;

verus! {

/// The numeric sort key: the entry's `sort_order`, or one past `u32::MAX`
/// when absent, so that unordered entries sort last.
pub open spec fn spec_order_key(w: WorkspaceInfo) -> int {
    match w.sort_order_of() {
        Some(v) => v as int,
        None => 0x1_0000_0000,
    }
}

impl WorkspaceInfo {
    pub open spec fn sort_order_of(&self) -> Option<u32> {
        self.settings.sort_order
    }
}

/// `a` sorts at or before `b`.
pub open spec fn ws_le(a: WorkspaceInfo, b: WorkspaceInfo) -> bool {
    ||| spec_order_key(a) < spec_order_key(b)
    ||| (spec_order_key(a) == spec_order_key(b) && spec_str_le(a.name@, b.name@))
}

pub proof fn lemma_ws_le_total(a: WorkspaceInfo, b: WorkspaceInfo)
    ensures
        ws_le(a, b) || ws_le(b, a),
{
    lemma_str_le_total(a.name@, b.name@);
}

pub proof fn lemma_ws_le_trans(a: WorkspaceInfo, b: WorkspaceInfo, c: WorkspaceInfo)
    requires
        ws_le(a, b),
        ws_le(b, c),
    ensures
        ws_le(a, c),
{
    if spec_order_key(a) == spec_order_key(b) && spec_order_key(b) == spec_order_key(c) {
        lemma_str_le_trans(a.name@, b.name@, c.name@);
    }
}

pub open spec fn ws_sorted(s: Seq<WorkspaceInfo>) -> bool {
    forall|i: int, j: int| 0 <= i < j < s.len() ==> ws_le(#[trigger] s[i], #[trigger] s[j])
}

fn ws_le_exec(a: &WorkspaceInfo, b: &WorkspaceInfo) -> (r: bool)
    ensures
        r == ws_le(*a, *b),
{
    let ka_none = a.settings.sort_order.is_none();
    let kb_none = b.settings.sort_order.is_none();
    let name_le = str_le(a.name.as_str(), b.name.as_str());
    match (&a.settings.sort_order, &b.settings.sort_order) {
        (Some(x), Some(y)) => *x < *y || (*x == *y && name_le),
        (Some(_), None) => true,
        (None, Some(_)) => false,
        (None, None) => name_le,
    }
}

/// Inserting an element anywhere turns the sequence's multiset into the
/// multiset with that element added.
proof fn lemma_insert_to_multiset<A>(s: Seq<A>, pos: int, x: A)
    requires
        0 <= pos <= s.len(),
    ensures
        s.insert(pos, x).to_multiset() =~= s.to_multiset().insert(x),
{
    broadcast use vstd::seq_lib::group_to_multiset_ensures;

    let left = s.subrange(0, pos);
    let right = s.subrange(pos, s.len() as int);
    assert(s =~= left + right);
    lemma_multiset_commutative(left, right);
    lemma_multiset_commutative(left.push(x), right);
    assert(left.push(x).to_multiset() =~= left.to_multiset().insert(x));
}

/// Removing the element at `i` and re-inserting it elsewhere preserves the
/// multiset of elements.
pub proof fn lemma_remove_insert_multiset<A>(s: Seq<A>, i: int, pos: int)
    requires
        0 <= i < s.len(),
        0 <= pos <= s.len() - 1,
    ensures
        s.remove(i).insert(pos, s[i]).to_multiset() =~= s.to_multiset(),
{
    broadcast use vstd::seq_lib::group_to_multiset_ensures;

    lemma_insert_to_multiset(s.remove(i), pos, s[i]);
    assert(s.remove(i).to_multiset() =~= s.to_multiset().remove(s[i]));
    assert(s.to_multiset().contains(s[i])) by {
        assert(s.contains(s[i]));
    }
    assert(s.to_multiset().remove(s[i]).insert(s[i]) =~= s.to_multiset());
}

/// Sorts the listing by `sort_order` ascending with absent orders last,
/// ties by name ascending; the entries themselves are preserved.
pub fn sort_workspaces(list: &mut Vec<WorkspaceInfo>)
    ensures
        ws_sorted(final(list)@),
        final(list)@.to_multiset() == old(list)@.to_multiset(),
        final(list)@.len() == old(list)@.len(),
{
    let ghost orig = list@;
    proof {
        broadcast use vstd::seq_lib::group_to_multiset_ensures;
    }
    if list.len() < 2 {
        return;
    }
    let mut i: usize = 1;
    while i < list.len()
        invariant
            list@.len() == orig.len(),
            1 <= i <= list@.len(),
            list@.to_multiset() == orig.to_multiset(),
            ws_sorted(list@.take(i as int)),
        decreases list@.len() - i,
    {
        let ghost before = list@;
        // Find where the element at `i` belongs within the sorted prefix.
        let mut pos: usize = i;
        while pos > 0 && !ws_le_exec(&list[pos - 1], &list[i])
            invariant
                list@ == before,
                i < list@.len(),
                0 <= pos <= i,
                forall|k: int| pos <= k < i ==> !ws_le(#[trigger] list@[k], list@[i as int]),
            decreases pos,
        {
            pos -= 1;
        }
        let x = list.remove(i);
        list.insert(pos, x);
        proof {
            lemma_remove_insert_multiset(before, i as int, pos as int);
            assert(list@ =~= before.remove(i as int).insert(pos as int, before[i as int]));
            let now = list@;
            // The old sorted prefix, addressed without `take`.
            assert forall|a: int, b: int| 0 <= a < b < i implies ws_le(
                #[trigger] before[a],
                #[trigger] before[b],
            ) by {
                assert(before.take(i as int)[a] == before[a]);
                assert(before.take(i as int)[b] == before[b]);
            }
            assert forall|p: int, q: int| 0 <= p < q < i + 1 implies ws_le(
                #[trigger] now[p],
                #[trigger] now[q],
            ) by {
                // Relate positions in the new prefix to the old one.
                assert(forall|k: int| 0 <= k < pos ==> now[k] == before[k]);
                assert(forall|k: int|
                    pos < k <= i ==> now[k] == before[k - 1]);
                assert(now[pos as int] == before[i as int]);
                if pos > 0 {
                    assert(ws_le(before[pos - 1], before[i as int]));
                }
                assert forall|k: int| pos <= k < i implies ws_le(
                    before[i as int],
                    #[trigger] before[k],
                ) by {
                    lemma_ws_le_total(before[i as int], before[k]);
                }
                if p < pos && q == pos {
                    if p < pos - 1 {
                        lemma_ws_le_trans(before[p], before[pos - 1], before[i as int]);
                    }
                } else if p == pos && q > pos {
                    assert(ws_le(before[i as int], before[q - 1]));
                }
            }
        }
        i += 1;
    }
    proof {
        if list@.len() > 0 {
            assert(list@.take(list@.len() as int) =~= list@);
        }
    }
}

} // verus!
