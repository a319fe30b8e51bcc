//! The evaluation-instance key: the `(agent, layer, app, source framework,
//! target framework)` tuple and its single-string id of the form
//! `agent__layer__app__source__target`.  The id is both the directory name
//! of the instance on disk and the parseable primary key recovered from
//! that name, so serialization and parsing must round-trip exactly.

use vstd::prelude::*;

use crate::HarnessError;

verus! {

/// The five identity segments of one evaluation instance.
#[derive(Clone, Debug)]
pub struct EvalInstanceKey {
    pub agent: String,
    pub layer: String,
    pub app: String,
    pub source_framework: String,
    pub target_framework: String,
}

/// The mathematical content of an [`EvalInstanceKey`].
#[verifier::ext_equal]
pub struct EvalInstanceKeyV {
    pub agent: Seq<char>,
    pub layer: Seq<char>,
    pub app: Seq<char>,
    pub source_framework: Seq<char>,
    pub target_framework: Seq<char>,
}

impl View for EvalInstanceKey {
    type V = EvalInstanceKeyV;

    open spec fn view(&self) -> EvalInstanceKeyV {
        EvalInstanceKeyV {
            agent: self.agent@,
            layer: self.layer@,
            app: self.app@,
            source_framework: self.source_framework@,
            target_framework: self.target_framework@,
        }
    }
}

impl EvalInstanceKeyV {
    /// The segments in id order.
    pub open spec fn segments(self) -> Seq<Seq<char>> {
        seq![self.agent, self.layer, self.app, self.source_framework, self.target_framework]
    }
}

/// The delimiter between the segments of an instance id.
pub open spec fn delim() -> Seq<char> {
    seq!['_', '_']
}

/// A segment may not contain the delimiter, and may not end with an
/// underscore: a trailing underscore would merge with the delimiter that
/// follows it and move the split point.
pub open spec fn valid_segment(s: Seq<char>) -> bool {
    &&& forall|j: int| 0 <= j < s.len() - 1 ==> !(#[trigger] s[j] == '_' && s[j + 1] == '_')
    &&& s.len() > 0 ==> s[s.len() - 1] != '_'
}

/// All five segments of the key are valid.
pub open spec fn valid_key(k: EvalInstanceKeyV) -> bool {
    &&& valid_segment(k.agent)
    &&& valid_segment(k.layer)
    &&& valid_segment(k.app)
    &&& valid_segment(k.source_framework)
    &&& valid_segment(k.target_framework)
}

/// The instance id: the five segments joined by the delimiter.
pub open spec fn spec_instance_id(k: EvalInstanceKeyV) -> Seq<char> {
    k.agent + delim() + k.layer + delim() + k.app + delim() + k.source_framework + delim()
        + k.target_framework
}

/// Splits `s` at every non-overlapping, leftmost occurrence of the
/// delimiter.  The result always has at least one element.
pub open spec fn split_id(s: Seq<char>) -> Seq<Seq<char>>
    decreases s.len(),
{
    if s.len() >= 2 && s[0] == '_' && s[1] == '_' {
        seq![Seq::<char>::empty()] + split_id(s.skip(2))
    } else if s.len() >= 1 {
        let rest = split_id(s.skip(1));
        seq![seq![s[0]] + rest[0]] + rest.skip(1)
    } else {
        seq![s]
    }
}

pub proof fn lemma_split_id_nonempty(s: Seq<char>)
    ensures
        split_id(s).len() >= 1,
    decreases s.len(),
{
    if s.len() >= 2 && s[0] == '_' && s[1] == '_' {
        lemma_split_id_nonempty(s.skip(2));
    } else if s.len() >= 1 {
        lemma_split_id_nonempty(s.skip(1));
    }
}

/// If the leftmost occurrence of the delimiter in `s` starts at `k`, the
/// split is the prefix before `k` followed by the split of what comes
/// after the occurrence.
pub proof fn lemma_split_id_first_cut(s: Seq<char>, k: int)
    requires
        0 <= k,
        k + 2 <= s.len(),
        s[k] == '_' && s[k + 1] == '_',
        forall|j: int| 0 <= j < k ==> !(#[trigger] s[j] == '_' && s[j + 1] == '_'),
    ensures
        split_id(s) =~= seq![s.take(k)] + split_id(s.skip(k + 2)),
    decreases k,
{
    if k == 0 {
        assert(s.take(0) =~= Seq::<char>::empty());
    } else {
        let t = s.skip(1);
        assert(t[k - 1] == '_' && t[k] == '_');
        assert(forall|j: int| 0 <= j < k - 1 ==> !(#[trigger] t[j] == '_' && t[j + 1] == '_'));
        lemma_split_id_first_cut(t, k - 1);
        lemma_split_id_nonempty(t.skip(k + 1));
        assert(!(s[0] == '_' && s[1] == '_'));
        assert(t.take(k - 1) =~= s.take(k).skip(1));
        assert(seq![s[0]] + s.take(k).skip(1) =~= s.take(k));
        assert(t.skip(k + 1) =~= s.skip(k + 2));
        assert((seq![t.take(k - 1)] + split_id(t.skip(k + 1))).skip(1) =~= split_id(s.skip(k + 2)));
    }
}

/// If the delimiter does not occur in `s`, the split is `s` alone.
pub proof fn lemma_split_id_whole(s: Seq<char>)
    requires
        forall|j: int| 0 <= j < s.len() - 1 ==> !(#[trigger] s[j] == '_' && s[j + 1] == '_'),
    ensures
        split_id(s) =~= seq![s],
    decreases s.len(),
{
    if s.len() >= 1 {
        let t = s.skip(1);
        assert(forall|j: int| 0 <= j < t.len() - 1 ==> !(#[trigger] t[j] == '_' && t[j + 1] == '_'));
        lemma_split_id_whole(t);
        assert(seq![s[0]] + t =~= s);
    }
}

/// Splitting a valid segment followed by the delimiter peels the segment
/// off the front.
pub proof fn lemma_split_id_concat(a: Seq<char>, rest: Seq<char>)
    requires
        valid_segment(a),
    ensures
        split_id(a + delim() + rest) =~= seq![a] + split_id(rest),
{
    let s = a + delim() + rest;
    let k = a.len() as int;
    assert(s[k] == '_' && s[k + 1] == '_');
    assert(forall|j: int| 0 <= j < k ==> !(#[trigger] s[j] == '_' && s[j + 1] == '_')) by {
        assert(forall|j: int| 0 <= j < k - 1 ==> !(#[trigger] s[j] == '_' && s[j + 1] == '_')) by {
            assert(forall|j: int| 0 <= j < k ==> s[j] == a[j]);
        }
        if k > 0 {
            assert(s[k - 1] == a[k - 1]);
            assert(a[k - 1] != '_');
        }
    }
    lemma_split_id_first_cut(s, k);
    assert(s.take(k) =~= a);
    assert(s.skip(k + 2) =~= rest);
}

/// The id of a key whose segments are valid splits back into exactly
/// those five segments.
pub proof fn lemma_split_instance_id(k: EvalInstanceKeyV)
    requires
        valid_key(k),
    ensures
        split_id(spec_instance_id(k)) =~= k.segments(),
{
    let t3 = k.source_framework + delim() + k.target_framework;
    let t2 = k.app + delim() + t3;
    let t1 = k.layer + delim() + t2;
    assert(spec_instance_id(k) =~= k.agent + delim() + t1);
    lemma_split_id_concat(k.agent, t1);
    lemma_split_id_concat(k.layer, t2);
    lemma_split_id_concat(k.app, t3);
    lemma_split_id_concat(k.source_framework, k.target_framework);
    lemma_split_id_whole(k.target_framework);
}

impl EvalInstanceKey {
    /// Serializes the key as its instance id.
    pub fn instance_id(&self) -> (r: String)
        ensures
            r@ == spec_instance_id(self@),
    {
        proof {
            reveal_strlit("__");
            assert("__"@ =~= delim());
        }
        let mut id = String::new();
        id.append(self.agent.as_str());
        id.append("__");
        id.append(self.layer.as_str());
        id.append("__");
        id.append(self.app.as_str());
        id.append("__");
        id.append(self.source_framework.as_str());
        id.append("__");
        id.append(self.target_framework.as_str());
        id
    }

    /// Parses an instance id back into a key.  Splitting on the delimiter
    /// must yield exactly five segments; fewer or more is a
    /// [`HarnessError::MalformedInstanceId`].
    pub fn parse(id: &str) -> (r: Result<EvalInstanceKey, HarnessError>)
        ensures
            match r {
                Ok(k) => split_id(id@) =~= k@.segments(),
                Err(e) => split_id(id@).len() != 5 && e == HarnessError::MalformedInstanceId,
            },
    {
        let len = id.unicode_len();
        let mut parts: Vec<String> = Vec::new();
        let mut start: usize = 0;
        let mut i: usize = 0;
        proof {
            assert(parts.deep_view() =~= Seq::<Seq<char>>::empty());
            assert(id@.skip(0) =~= id@);
            assert(Seq::<Seq<char>>::empty() + split_id(id@) =~= split_id(id@));
        }
        while i < len
            invariant
                0 <= start <= i <= len,
                len == id@.len(),
                forall|j: int|
                    start <= j < i ==> !(j + 1 < len && #[trigger] id@[j] == '_' && id@[j + 1] == '_'),
                split_id(id@) =~= parts.deep_view() + split_id(id@.skip(start as int)),
            decreases len - i,
        {
            if i + 1 < len && id.get_char(i) == '_' && id.get_char(i + 1) == '_' {
                let seg = id.substring_char(start, i).to_owned();
                let ghost dv = parts.deep_view();
                proof {
                    let tail = id@.skip(start as int);
                    assert(tail[i - start] == '_' && tail[i - start + 1] == '_');
                    assert(forall|j: int|
                        0 <= j < i - start ==> !(#[trigger] tail[j] == '_' && tail[j + 1] == '_'));
                    lemma_split_id_first_cut(tail, i - start);
                    assert(tail.take(i - start) =~= id@.subrange(start as int, i as int));
                    assert(tail.skip(i - start + 2) =~= id@.skip(i + 2));
                }
                parts.push(seg);
                proof {
                    assert(parts.deep_view() =~= dv.push(seg@));
                    assert(dv.push(seg@) =~= dv + seq![seg@]);
                }
                i = i + 2;
                start = i;
            } else {
                i += 1;
            }
        }
        let last = id.substring_char(start, len).to_owned();
        let ghost dv_last = parts.deep_view();
        proof {
            let tail = id@.skip(start as int);
            assert(forall|j: int| 0 <= j < tail.len() - 1 ==> !(#[trigger] tail[j] == '_' && tail[j + 1] == '_'));
            lemma_split_id_whole(tail);
            assert(last@ =~= tail);
        }
        parts.push(last);
        proof {
            assert(parts.deep_view() =~= dv_last.push(last@));
            assert(dv_last.push(last@) =~= dv_last + seq![last@]);
        }
        if parts.len() != 5 {
            return Err(HarnessError::MalformedInstanceId);
        }
        let k = EvalInstanceKey {
            agent: parts[0].clone(),
            layer: parts[1].clone(),
            app: parts[2].clone(),
            source_framework: parts[3].clone(),
            target_framework: parts[4].clone(),
        };
        proof {
            assert(split_id(id@) =~= k@.segments());
        }
        Ok(k)
    }
}

/// Round trip of the five-segment id: for every key whose segments are
/// valid, parsing the serialized id recovers exactly the key's segments.
pub proof fn lemma_instance_id_round_trip(k: EvalInstanceKeyV)
    requires
        valid_key(k),
    ensures
        split_id(spec_instance_id(k)).len() == 5,
        split_id(spec_instance_id(k))[0] == k.agent,
        split_id(spec_instance_id(k))[1] == k.layer,
        split_id(spec_instance_id(k))[2] == k.app,
        split_id(spec_instance_id(k))[3] == k.source_framework,
        split_id(spec_instance_id(k))[4] == k.target_framework,
{
    lemma_split_instance_id(k);
}

/// The id is unique per combination: two keys with valid segments that
/// serialize to the same id are the same key.
pub proof fn lemma_instance_id_injective(k1: EvalInstanceKeyV, k2: EvalInstanceKeyV)
    requires
        valid_key(k1),
        valid_key(k2),
        spec_instance_id(k1) == spec_instance_id(k2),
    ensures
        k1 == k2,
{
    lemma_split_instance_id(k1);
    lemma_split_instance_id(k2);
    assert(k1.segments() =~= k2.segments());
    assert(k1 =~= k2);
}

/// Decides [`valid_segment`] on a string.
pub fn is_valid_segment(s: &str) -> (r: bool)
    ensures
        r == valid_segment(s@),
{
    let len = s.unicode_len();
    if len == 0 {
        return true;
    }
    if s.get_char(len - 1) == '_' {
        return false;
    }
    let mut i: usize = 0;
    while i + 1 < len
        invariant
            0 <= i < len,
            len == s@.len(),
            forall|j: int| 0 <= j < i ==> !(#[trigger] s@[j] == '_' && s@[j + 1] == '_'),
        decreases len - i,
    {
        if s.get_char(i) == '_' && s.get_char(i + 1) == '_' {
            return false;
        }
        i += 1;
    }
    true
}

} // verus!
