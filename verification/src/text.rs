//! String utilities shared across the library: character-wise equality,
//! prefix stripping, splitting a path into components, and lexicographic
//! order on character sequences.

use vstd::prelude::*;

verus! {

/// True iff the two strings hold the same characters.
pub fn str_eq_chars(a: &str, b: &str) -> (r: bool)
    ensures
        r == (a@ == b@),
{
    let alen = a.unicode_len();
    let blen = b.unicode_len();
    if alen != blen {
        assert(a@ != b@) by {
            assert(a@.len() != b@.len());
        }
        return false;
    }
    let mut i: usize = 0;
    while i < alen
        invariant
            0 <= i <= alen,
            alen == a@.len(),
            alen == b@.len(),
            forall|j: int| 0 <= j < i ==> a@[j] == b@[j],
        decreases alen - i,
    {
        if a.get_char(i) != b.get_char(i) {
            return false;
        }
        i += 1;
    }
    proof {
        assert(a@ =~= b@);
    }
    true
}

/// The remainder of `s` after the prefix `pre`, if `pre` is a prefix of `s`.
pub open spec fn after_prefix(s: Seq<char>, pre: Seq<char>) -> Option<Seq<char>> {
    if pre.len() <= s.len() && s.take(pre.len() as int) == pre {
        Some(s.skip(pre.len() as int))
    } else {
        None
    }
}

/// Strips `pre` from the front of `s`, if present.
pub fn strip_prefix_chars(s: &str, pre: &str) -> (r: Option<String>)
    ensures
        match r {
            Some(rest) => after_prefix(s@, pre@) == Some(rest@),
            None => after_prefix(s@, pre@) is None,
        },
{
    let slen = s.unicode_len();
    let plen = pre.unicode_len();
    if plen > slen {
        return None;
    }
    let mut i: usize = 0;
    while i < plen
        invariant
            0 <= i <= plen,
            plen <= slen,
            slen == s@.len(),
            plen == pre@.len(),
            forall|j: int| 0 <= j < i ==> s@[j] == pre@[j],
        decreases plen - i,
    {
        if s.get_char(i) != pre.get_char(i) {
            assert(s@.take(plen as int) != pre@) by {
                assert(s@.take(plen as int)[i as int] != pre@[i as int]);
            }
            return None;
        }
        i += 1;
    }
    proof {
        assert(s@.take(plen as int) =~= pre@);
    }
    let rest = s.substring_char(plen, slen);
    proof {
        assert(rest@ =~= s@.skip(plen as int));
    }
    Some(rest.to_owned())
}

/// Splits `s` at every occurrence of the character `d`.  The result always
/// has one more element than `s` has occurrences of `d`; segments between
/// adjacent occurrences are empty.
pub open spec fn split_char(s: Seq<char>, d: char) -> Seq<Seq<char>>
    decreases s.len(),
{
    if s.len() == 0 {
        seq![s]
    } else if s[0] == d {
        seq![Seq::<char>::empty()] + split_char(s.skip(1), d)
    } else {
        let rest = split_char(s.skip(1), d);
        seq![seq![s[0]] + rest[0]] + rest.skip(1)
    }
}

pub proof fn lemma_split_char_nonempty(s: Seq<char>, d: char)
    ensures
        split_char(s, d).len() >= 1,
    decreases s.len(),
{
    if s.len() != 0 {
        lemma_split_char_nonempty(s.skip(1), d);
    }
}

/// If the first occurrence of `d` in `s` is at index `k`, the split is the
/// prefix before `k` followed by the split of what comes after `k`.
pub proof fn lemma_split_char_first_cut(s: Seq<char>, d: char, k: int)
    requires
        0 <= k < s.len(),
        s[k] == d,
        forall|j: int| 0 <= j < k ==> s[j] != d,
    ensures
        split_char(s, d) =~= seq![s.take(k)] + split_char(s.skip(k + 1), d),
    decreases k,
{
    if k == 0 {
        assert(s.take(0) =~= Seq::<char>::empty());
    } else {
        let t = s.skip(1);
        assert(t[k - 1] == d);
        assert(forall|j: int| 0 <= j < k - 1 ==> t[j] != d);
        lemma_split_char_first_cut(t, d, k - 1);
        lemma_split_char_nonempty(t.skip(k), d);
        assert(t.take(k - 1) =~= s.take(k).skip(1));
        assert(seq![s[0]] + s.take(k).skip(1) =~= s.take(k));
        assert(t.skip(k) =~= s.skip(k + 1));
    }
}

/// If `d` does not occur in `s`, the split is `s` alone.
pub proof fn lemma_split_char_whole(s: Seq<char>, d: char)
    requires
        forall|j: int| 0 <= j < s.len() ==> s[j] != d,
    ensures
        split_char(s, d) =~= seq![s],
    decreases s.len(),
{
    if s.len() != 0 {
        lemma_split_char_whole(s.skip(1), d);
        assert(seq![s[0]] + s.skip(1) =~= s);
    }
}

/// The non-empty elements of `parts`, in order.
pub open spec fn nonempties(parts: Seq<Seq<char>>) -> Seq<Seq<char>>
    decreases parts.len(),
{
    if parts.len() == 0 {
        parts
    } else if parts[0].len() == 0 {
        nonempties(parts.skip(1))
    } else {
        seq![parts[0]] + nonempties(parts.skip(1))
    }
}

/// The components of a `/`-separated path: the non-empty segments between
/// the separators.
pub open spec fn path_components(s: Seq<char>) -> Seq<Seq<char>> {
    nonempties(split_char(s, '/'))
}

/// Splits `s` into its `/`-separated components, dropping empty segments.
pub fn split_components(s: &str) -> (r: Vec<String>)
    ensures
        r.deep_view() =~= path_components(s@),
{
    let len = s.unicode_len();
    let mut raw: Vec<String> = Vec::new();
    let mut start: usize = 0;
    let mut i: usize = 0;
    proof {
        assert(raw.deep_view() =~= Seq::<Seq<char>>::empty());
        assert(s@.skip(0) =~= s@);
        assert(Seq::<Seq<char>>::empty() + split_char(s@, '/') =~= split_char(s@, '/'));
    }
    while i < len
        invariant
            0 <= start <= i <= len,
            len == s@.len(),
            forall|j: int| start <= j < i ==> s@[j] != '/',
            split_char(s@, '/') =~= raw.deep_view() + split_char(s@.skip(start as int), '/'),
        decreases len - i,
    {
        if s.get_char(i) == '/' {
            let seg = s.substring_char(start, i).to_owned();
            let ghost dv = raw.deep_view();
            proof {
                let tail = s@.skip(start as int);
                assert(tail[i - start] == '/');
                assert(forall|j: int| 0 <= j < i - start ==> tail[j] != '/');
                lemma_split_char_first_cut(tail, '/', i - start);
                assert(tail.take(i - start) =~= s@.subrange(start as int, i as int));
                assert(tail.skip(i - start + 1) =~= s@.skip(i + 1));
            }
            raw.push(seg);
            proof {
                assert(raw.deep_view() =~= dv.push(seg@));
                assert(dv.push(seg@) =~= dv + seq![seg@]);
            }
            start = i + 1;
        }
        i += 1;
    }
    let last = s.substring_char(start, len).to_owned();
    let ghost dv_last = raw.deep_view();
    proof {
        let tail = s@.skip(start as int);
        lemma_split_char_whole(tail, '/');
        assert(last@ =~= tail);
    }
    raw.push(last);
    proof {
        assert(raw.deep_view() =~= dv_last.push(last@));
        assert(dv_last.push(last@) =~= dv_last + seq![last@]);
    }
    // `raw` now matches `split_char(s@, '/')`; keep the non-empty segments.
    let mut out: Vec<String> = Vec::new();
    let mut k: usize = 0;
    proof {
        assert(raw.deep_view().skip(0) =~= raw.deep_view());
    }
    while k < raw.len()
        invariant
            0 <= k <= raw.len(),
            raw.deep_view().len() == raw.len(),
            nonempties(raw.deep_view()) =~= out.deep_view() + nonempties(
                raw.deep_view().skip(k as int),
            ),
            forall|j: int| 0 <= j < out.len() ==> out.deep_view()[j].len() != 0,
        decreases raw.len() - k,
    {
        proof {
            assert(raw.deep_view().skip(k as int).skip(1) =~= raw.deep_view().skip(k + 1));
            assert(raw.deep_view().skip(k as int)[0] == raw[k as int]@);
        }
        if raw[k].unicode_len() > 0 {
            let seg = raw[k].clone();
            let ghost dv = out.deep_view();
            out.push(seg);
            proof {
                assert(out.deep_view() =~= dv.push(seg@));
                assert(dv.push(seg@) =~= dv + seq![raw[k as int]@]);
            }
        }
        k += 1;
    }
    proof {
        assert(raw.deep_view().skip(raw.len() as int) =~= Seq::<Seq<char>>::empty());
        assert(out.deep_view() + Seq::<Seq<char>>::empty() =~= out.deep_view());
    }
    out
}

/// `base` and `name` joined by one path separator.
pub open spec fn spec_join_path(base: Seq<char>, name: Seq<char>) -> Seq<char> {
    base + seq!['/'] + name
}

/// Joins a directory and a child name with a path separator.
pub fn join_path(base: &str, name: &str) -> (r: String)
    ensures
        r@ == spec_join_path(base@, name@),
{
    let mut out = String::from_str(base);
    out.append("/");
    proof {
        reveal_strlit("/");
        assert("/"@ =~= seq!['/']);
    }
    out.concat(name)
}

/// Lexicographic order on character sequences, by code point.
pub open spec fn lex_le(a: Seq<char>, b: Seq<char>) -> bool
    decreases a.len(),
{
    if a.len() == 0 {
        true
    } else if b.len() == 0 {
        false
    } else if (a[0] as int) < (b[0] as int) {
        true
    } else if (a[0] as int) > (b[0] as int) {
        false
    } else {
        lex_le(a.skip(1), b.skip(1))
    }
}

pub proof fn lemma_lex_le_total(a: Seq<char>, b: Seq<char>)
    ensures
        lex_le(a, b) || lex_le(b, a),
    decreases a.len(),
{
    if a.len() != 0 && b.len() != 0 && a[0] == b[0] {
        lemma_lex_le_total(a.skip(1), b.skip(1));
    }
}

pub proof fn lemma_lex_le_trans(a: Seq<char>, b: Seq<char>, c: Seq<char>)
    requires
        lex_le(a, b),
        lex_le(b, c),
    ensures
        lex_le(a, c),
    decreases a.len(),
{
    if a.len() != 0 && b.len() != 0 && c.len() != 0 && a[0] == b[0] && b[0] == c[0] {
        lemma_lex_le_trans(a.skip(1), b.skip(1), c.skip(1));
    }
}

/// Decides `lex_le` on two strings.
pub fn str_lex_le(a: &str, b: &str) -> (r: bool)
    ensures
        r == lex_le(a@, b@),
{
    let alen = a.unicode_len();
    let blen = b.unicode_len();
    let mut i: usize = 0;
    proof {
        assert(a@.skip(0) =~= a@);
        assert(b@.skip(0) =~= b@);
    }
    loop
        invariant
            0 <= i <= alen,
            i <= blen,
            alen == a@.len(),
            blen == b@.len(),
            lex_le(a@, b@) == lex_le(a@.skip(i as int), b@.skip(i as int)),
        decreases alen - i,
    {
        if i == alen {
            return true;
        }
        if i == blen {
            return false;
        }
        let ca = a.get_char(i);
        let cb = b.get_char(i);
        if (ca as u32) < (cb as u32) {
            return true;
        }
        if (ca as u32) > (cb as u32) {
            return false;
        }
        proof {
            assert(a@.skip(i as int).skip(1) =~= a@.skip(i + 1));
            assert(b@.skip(i as int).skip(1) =~= b@.skip(i + 1));
        }
        i += 1;
    }
}

} // verus!
