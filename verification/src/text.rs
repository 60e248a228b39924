//! Small string utilities: character-level equality, containment, and
//! decimal formatting, all specified against the character views.

use vstd::prelude::*;

verus! {

/// Relies on String::push: appends exactly one character to the string.
#[verifier::external_body]
pub fn push_char(s: &mut String, c: char)
    ensures
        final(s)@ == old(s)@.push(c),
{
    s.push(c);
}

/// Character-wise string equality, proved against the string views.
pub fn str_eq(a: &str, b: &str) -> (r: bool)
    ensures
        r == (a@ == b@),
{
    let alen = a.unicode_len();
    let blen = b.unicode_len();
    if alen != blen {
        assert(a@ != b@) by {
            assert(a@.len() != b@.len());
        }
        return false;
    }
    let mut i: usize = 0;
    while i < alen
        invariant
            alen == a@.len(),
            blen == b@.len(),
            alen == blen,
            0 <= i <= alen,
            forall|k: int| 0 <= k < i ==> a@[k] == b@[k],
        decreases alen - i,
    {
        if a.get_char(i) != b.get_char(i) {
            return false;
        }
        i += 1;
    }
    proof {
        assert(a@ =~= b@);
    }
    true
}

/// Whether some element of `v` reads the same as `s`.
pub open spec fn spec_has_str(v: Seq<String>, s: Seq<char>) -> bool {
    exists|i: int| 0 <= i < v.len() && v[i]@ == s
}

pub fn vec_contains_str(v: &Vec<String>, s: &str) -> (r: bool)
    ensures
        r == spec_has_str(v@, s@),
{
    let mut i: usize = 0;
    while i < v.len()
        invariant
            0 <= i <= v@.len(),
            forall|k: int| 0 <= k < i ==> v@[k]@ != s@,
        decreases v@.len() - i,
    {
        if str_eq(v[i].as_str(), s) {
            return true;
        }
        i += 1;
    }
    false
}

/// `needle` occurs in `hay` starting at position `i`.
pub open spec fn matches_at(hay: Seq<char>, needle: Seq<char>, i: int) -> bool {
    &&& 0 <= i
    &&& i + needle.len() <= hay.len()
    &&& hay.subrange(i, i + needle.len()) =~= needle
}

pub open spec fn spec_contains(hay: Seq<char>, needle: Seq<char>) -> bool {
    exists|i: int| matches_at(hay, needle, i)
}

/// Substring search, specified by `spec_contains`.
pub fn str_contains(hay: &str, needle: &str) -> (r: bool)
    ensures
        r == spec_contains(hay@, needle@),
{
    let hlen = hay.unicode_len();
    let nlen = needle.unicode_len();
    if nlen > hlen {
        proof {
            if spec_contains(hay@, needle@) {
                let i = choose|i: int| matches_at(hay@, needle@, i);
                assert(false);
            }
        }
        return false;
    }
    let mut i: usize = 0;
    while i <= hlen - nlen
        invariant
            hlen == hay@.len(),
            nlen == needle@.len(),
            nlen <= hlen,
            0 <= i <= hlen - nlen + 1,
            forall|k: int| 0 <= k < i ==> !matches_at(hay@, needle@, k),
        decreases hlen - i,
    {
        let mut j: usize = 0;
        let mut hit = true;
        while j < nlen
            invariant
                hlen == hay@.len(),
                nlen == needle@.len(),
                0 <= i <= hlen - nlen,
                0 <= j <= nlen,
                hit ==> forall|k: int| 0 <= k < j ==> hay@[i + k] == needle@[k],
                !hit ==> !matches_at(hay@, needle@, i as int),
            decreases nlen - j,
        {
            if hay.get_char(i + j) != needle.get_char(j) {
                proof {
                    if matches_at(hay@, needle@, i as int) {
                        assert(hay@.subrange(i as int, i + nlen)[j as int] == needle@[j as int]);
                    }
                }
                hit = false;
                j = nlen;
            } else {
                j += 1;
            }
        }
        if hit {
            proof {
                assert(hay@.subrange(i as int, i + nlen) =~= needle@);
                assert(matches_at(hay@, needle@, i as int));
            }
            return true;
        }
        i += 1;
    }
    proof {
        if spec_contains(hay@, needle@) {
            let k = choose|k: int| matches_at(hay@, needle@, k);
            assert(false);
        }
    }
    false
}

/// The decimal digit character for `d`.
pub open spec fn spec_digit_char(d: nat) -> char {
    if d == 0 {
        '0'
    } else if d == 1 {
        '1'
    } else if d == 2 {
        '2'
    } else if d == 3 {
        '3'
    } else if d == 4 {
        '4'
    } else if d == 5 {
        '5'
    } else if d == 6 {
        '6'
    } else if d == 7 {
        '7'
    } else if d == 8 {
        '8'
    } else {
        '9'
    }
}

/// Decimal representation of `n`, most significant digit first.
pub open spec fn spec_dec(n: nat) -> Seq<char>
    decreases n,
{
    if n < 10 {
        seq![spec_digit_char(n)]
    } else {
        spec_dec(n / 10).push(spec_digit_char(n % 10))
    }
}

fn digit_char(d: u32) -> (c: char)
    requires
        d < 10,
    ensures
        c == spec_digit_char(d as nat),
{
    match d {
        0 => '0',
        1 => '1',
        2 => '2',
        3 => '3',
        4 => '4',
        5 => '5',
        6 => '6',
        7 => '7',
        8 => '8',
        _ => '9',
    }
}

/// Formats `n` in decimal.
pub fn dec_u32(n: u32) -> (r: String)
    ensures
        r@ == spec_dec(n as nat),
    decreases n,
{
    let mut r = if n >= 10 {
        dec_u32(n / 10)
    } else {
        String::new()
    };
    push_char(&mut r, digit_char(n % 10));
    r
}

/// The Unicode White_Space code points, as `str::trim` removes them.
pub open spec fn is_ws_char(c: char) -> bool {
    let u = c as u32;
    ||| (9 <= u && u <= 13)
    ||| u == 32
    ||| u == 0x85
    ||| u == 0xA0
    ||| u == 0x1680
    ||| (0x2000 <= u && u <= 0x200A)
    ||| u == 0x2028
    ||| u == 0x2029
    ||| u == 0x202F
    ||| u == 0x205F
    ||| u == 0x3000
}

fn is_ws_char_exec(c: char) -> (r: bool)
    ensures
        r == is_ws_char(c),
{
    let u = c as u32;
    (9 <= u && u <= 13) || u == 32 || u == 0x85 || u == 0xA0 || u == 0x1680 || (0x2000 <= u && u
        <= 0x200A) || u == 0x2028 || u == 0x2029 || u == 0x202F || u == 0x205F || u == 0x3000
}

pub open spec fn trim_ws_front(s: Seq<char>) -> Seq<char>
    decreases s.len(),
{
    if s.len() > 0 && is_ws_char(s[0]) {
        trim_ws_front(s.skip(1))
    } else {
        s
    }
}

pub open spec fn trim_ws_back(s: Seq<char>) -> Seq<char>
    decreases s.len(),
{
    if s.len() > 0 && is_ws_char(s[s.len() - 1]) {
        trim_ws_back(s.take(s.len() - 1))
    } else {
        s
    }
}

/// `s` with whitespace removed from both ends.
pub open spec fn spec_trim(s: Seq<char>) -> Seq<char> {
    trim_ws_back(trim_ws_front(s))
}

/// Trims leading and trailing whitespace, as `str::trim` does.
pub fn str_trim(s: &str) -> (r: String)
    ensures
        r@ == spec_trim(s@),
{
    let len = s.unicode_len();
    let mut start: usize = 0;
    proof {
        assert(s@.skip(0) =~= s@);
    }
    while start < len && is_ws_char_exec(s.get_char(start))
        invariant
            len == s@.len(),
            0 <= start <= len,
            trim_ws_front(s@) == trim_ws_front(s@.skip(start as int)),
        decreases len - start,
    {
        proof {
            assert(s@.skip(start as int)[0] == s@[start as int]);
            assert(s@.skip(start as int).skip(1) =~= s@.skip(start + 1));
        }
        start += 1;
    }
    proof {
        if start < len {
            assert(s@.skip(start as int)[0] == s@[start as int]);
        }
        assert(trim_ws_front(s@) =~= s@.skip(start as int));
    }
    let mut end: usize = len;
    while end > start && is_ws_char_exec(s.get_char(end - 1))
        invariant
            len == s@.len(),
            0 <= start <= end <= len,
            trim_ws_front(s@) == s@.skip(start as int),
            trim_ws_back(trim_ws_front(s@)) == trim_ws_back(s@.subrange(start as int, end as int)),
        decreases end,
    {
        proof {
            let seg = s@.subrange(start as int, end as int);
            assert(seg[seg.len() - 1] == s@[end - 1]);
            assert(seg.take(seg.len() - 1) =~= s@.subrange(start as int, end - 1));
        }
        end -= 1;
    }
    proof {
        let seg = s@.subrange(start as int, end as int);
        if end > start {
            assert(seg[seg.len() - 1] == s@[end - 1]);
        }
        assert(trim_ws_back(seg) =~= seg);
        assert(s@.skip(start as int) =~= s@.subrange(start as int, len as int));
    }
    let sub = s.substring_char(start, end);
    str_to_string(sub)
}

/// `s` begins with `prefix`.
pub open spec fn spec_starts_with(s: Seq<char>, prefix: Seq<char>) -> bool {
    s.len() >= prefix.len() && s.take(prefix.len() as int) =~= prefix
}

pub fn str_starts_with(s: &str, prefix: &str) -> (r: bool)
    ensures
        r == spec_starts_with(s@, prefix@),
{
    let slen = s.unicode_len();
    let plen = prefix.unicode_len();
    if plen > slen {
        return false;
    }
    let mut i: usize = 0;
    while i < plen
        invariant
            slen == s@.len(),
            plen == prefix@.len(),
            plen <= slen,
            0 <= i <= plen,
            forall|k: int| 0 <= k < i ==> s@[k] == prefix@[k],
        decreases plen - i,
    {
        if s.get_char(i) != prefix.get_char(i) {
            proof {
                if spec_starts_with(s@, prefix@) {
                    assert(s@.take(plen as int)[i as int] == s@[i as int]);
                }
            }
            return false;
        }
        i += 1;
    }
    proof {
        assert(s@.take(plen as int) =~= prefix@);
    }
    true
}

/// Lexicographic order on character sequences, by code point.
pub open spec fn spec_str_le(a: Seq<char>, b: Seq<char>) -> bool
    decreases a.len(),
{
    if a.len() == 0 {
        true
    } else if b.len() == 0 {
        false
    } else if a[0] != b[0] {
        a[0] < b[0]
    } else {
        spec_str_le(a.skip(1), b.skip(1))
    }
}

pub proof fn lemma_str_le_total(a: Seq<char>, b: Seq<char>)
    ensures
        spec_str_le(a, b) || spec_str_le(b, a),
    decreases a.len(),
{
    if a.len() > 0 && b.len() > 0 && a[0] == b[0] {
        lemma_str_le_total(a.skip(1), b.skip(1));
    }
}

pub proof fn lemma_str_le_trans(a: Seq<char>, b: Seq<char>, c: Seq<char>)
    requires
        spec_str_le(a, b),
        spec_str_le(b, c),
    ensures
        spec_str_le(a, c),
    decreases a.len(),
{
    if a.len() > 0 && b.len() > 0 && c.len() > 0 && a[0] == b[0] && b[0] == c[0] {
        lemma_str_le_trans(a.skip(1), b.skip(1), c.skip(1));
    }
}

/// Lexicographic comparison, specified by `spec_str_le`.
pub fn str_le(a: &str, b: &str) -> (r: bool)
    ensures
        r == spec_str_le(a@, b@),
{
    let alen = a.unicode_len();
    let blen = b.unicode_len();
    let mut i: usize = 0;
    proof {
        assert(a@.skip(0) =~= a@);
        assert(b@.skip(0) =~= b@);
    }
    loop
        invariant
            alen == a@.len(),
            blen == b@.len(),
            0 <= i <= alen,
            0 <= i <= blen,
            forall|k: int| 0 <= k < i ==> a@[k] == b@[k],
            spec_str_le(a@, b@) == spec_str_le(a@.skip(i as int), b@.skip(i as int)),
        decreases alen - i,
    {
        if i >= alen {
            proof {
                assert(a@.skip(i as int).len() == 0);
            }
            return true;
        }
        if i >= blen {
            proof {
                assert(b@.skip(i as int).len() == 0);
                assert(a@.skip(i as int).len() > 0);
            }
            return false;
        }
        let ca = a.get_char(i);
        let cb = b.get_char(i);
        proof {
            assert(a@.skip(i as int)[0] == a@[i as int]);
            assert(b@.skip(i as int)[0] == b@[i as int]);
        }
        if ca != cb {
            return ca < cb;
        }
        proof {
            assert(a@.skip(i as int).skip(1) =~= a@.skip(i + 1));
            assert(b@.skip(i as int).skip(1) =~= b@.skip(i + 1));
        }
        i += 1;
    }
}

/// The views of a vector of strings.
pub open spec fn strs_view(v: Seq<String>) -> Seq<Seq<char>> {
    v.map_values(|s: String| s@)
}

pub open spec fn strings_sorted(s: Seq<String>) -> bool {
    forall|i: int, j: int| 0 <= i < j < s.len() ==> spec_str_le(#[trigger] s[i]@, #[trigger] s[j]@)
}

/// Sorts strings ascending by code point; the strings themselves are
/// preserved.
pub fn sort_strings(list: &mut Vec<String>)
    ensures
        strings_sorted(final(list)@),
        final(list)@.to_multiset() == old(list)@.to_multiset(),
        strs_view(final(list)@).to_multiset() == strs_view(old(list)@).to_multiset(),
        final(list)@.len() == old(list)@.len(),
{
    let ghost orig = list@;
    proof {
        broadcast use vstd::seq_lib::group_to_multiset_ensures;
    }
    if list.len() < 2 {
        return;
    }
    let mut i: usize = 1;
    while i < list.len()
        invariant
            list@.len() == orig.len(),
            1 <= i <= list@.len(),
            list@.to_multiset() == orig.to_multiset(),
            strs_view(list@).to_multiset() == strs_view(orig).to_multiset(),
            strings_sorted(list@.take(i as int)),
        decreases list@.len() - i,
    {
        let ghost before = list@;
        let mut pos: usize = i;
        while pos > 0 && !str_le(list[pos - 1].as_str(), list[i].as_str())
            invariant
                list@ == before,
                i < list@.len(),
                0 <= pos <= i,
                forall|k: int|
                    pos <= k < i ==> !spec_str_le(#[trigger] list@[k]@, list@[i as int]@),
            decreases pos,
        {
            pos -= 1;
        }
        let x = list.remove(i);
        list.insert(pos, x);
        proof {
            crate::sorting::lemma_remove_insert_multiset::<String>(before, i as int, pos as int);
            assert(list@ =~= before.remove(i as int).insert(pos as int, before[i as int]));
            crate::sorting::lemma_remove_insert_multiset::<Seq<char>>(
                strs_view(before),
                i as int,
                pos as int,
            );
            assert(strs_view(list@) =~= strs_view(before).remove(i as int).insert(
                pos as int,
                strs_view(before)[i as int],
            ));
            let now = list@;
            assert forall|a: int, b: int| 0 <= a < b < i implies spec_str_le(
                #[trigger] before[a]@,
                #[trigger] before[b]@,
            ) by {
                assert(before.take(i as int)[a] == before[a]);
                assert(before.take(i as int)[b] == before[b]);
            }
            assert forall|p: int, q: int| 0 <= p < q < i + 1 implies spec_str_le(
                #[trigger] now[p]@,
                #[trigger] now[q]@,
            ) by {
                assert(forall|k: int| 0 <= k < pos ==> now[k] == before[k]);
                assert(forall|k: int| pos < k <= i ==> now[k] == before[k - 1]);
                assert(now[pos as int] == before[i as int]);
                if pos > 0 {
                    assert(spec_str_le(before[pos - 1]@, before[i as int]@));
                }
                assert forall|k: int| pos <= k < i implies spec_str_le(
                    before[i as int]@,
                    #[trigger] before[k]@,
                ) by {
                    lemma_str_le_total(before[i as int]@, before[k]@);
                }
                if p < pos && q == pos {
                    if p < pos - 1 {
                        lemma_str_le_trans(before[p]@, before[pos - 1]@, before[i as int]@);
                    }
                } else if p == pos && q > pos {
                    assert(spec_str_le(before[i as int]@, before[q - 1]@));
                }
            }
        }
        i += 1;
    }
    proof {
        if list@.len() > 0 {
            assert(list@.take(list@.len() as int) =~= list@);
        }
    }
}

/// A copy of `s` as an owned string.
pub fn str_to_string(s: &str) -> (r: String)
    ensures
        r@ == s@,
{
    s.to_owned()
}

} // verus!
