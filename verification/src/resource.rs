//! The semi-structured value type used for plugin configuration, action
//! parameters, and recognition results, together with its deep-merge
//! operation.

use vstd::prelude::*;

verus! {

/// A recursive, dynamically typed value: null, booleans, integers, text,
/// ordered lists, and maps with string keys. Well-formed objects have
/// unique keys; see [`ResourceData::wf`].
#[derive(Debug, PartialEq, Eq)]
pub enum ResourceData {
    Null,
    Bool(bool),
    Number(i64),
    Text(String),
    List(Vec<ResourceData>),
    Object(Vec<(String, ResourceData)>),
}

/// The mathematical model of a `ResourceData` value. An object is modelled
/// as the sequence of its key/value entries.
pub enum ValueModel {
    Null,
    Bool(bool),
    Int(int),
    Str(Seq<char>),
    List(Seq<ValueModel>),
    Object(Seq<(Seq<char>, ValueModel)>),
}

impl ResourceData {
    /// The model of this value.
    pub open spec fn view(self) -> ValueModel
        decreases self,
    {
        match self {
            ResourceData::Null => ValueModel::Null,
            ResourceData::Bool(b) => ValueModel::Bool(b),
            ResourceData::Number(n) => ValueModel::Int(n as int),
            ResourceData::Text(s) => ValueModel::Str(s@),
            ResourceData::List(items) => ValueModel::List(list_model(items@)),
            ResourceData::Object(pairs) => ValueModel::Object(pairs_model(pairs@)),
        }
    }

    /// A value is well formed when every object in it has unique keys.
    pub open spec fn wf(self) -> bool {
        self.view().wf()
    }
}

/// The sequence of models of a sequence of values.
pub open spec fn list_model(items: Seq<ResourceData>) -> Seq<ValueModel>
    decreases items,
{
    if items.len() == 0 {
        Seq::empty()
    } else {
        list_model(items.drop_last()).push(items.last().view())
    }
}

/// The sequence of models of a sequence of key/value entries.
pub open spec fn pairs_model(pairs: Seq<(String, ResourceData)>) -> Seq<(Seq<char>, ValueModel)>
    decreases pairs,
{
    if pairs.len() == 0 {
        Seq::empty()
    } else {
        pairs_model(pairs.drop_last()).push((pairs.last().0@, pairs.last().1.view()))
    }
}

/// The index of the first entry with key `k`, or `-1` if no entry has it.
pub open spec fn find_key_model(pairs: Seq<(Seq<char>, ValueModel)>, k: Seq<char>) -> int
    decreases pairs,
{
    if pairs.len() == 0 {
        -1
    } else if pairs[0].0 == k {
        0
    } else {
        let r = find_key_model(pairs.skip(1), k);
        if r < 0 {
            -1
        } else {
            r + 1
        }
    }
}

/// Whether some entry of `pairs` has key `k`.
pub open spec fn has_key(pairs: Seq<(Seq<char>, ValueModel)>, k: Seq<char>) -> bool {
    find_key_model(pairs, k) >= 0
}

/// The value of the first entry with key `k`.
pub open spec fn lookup(pairs: Seq<(Seq<char>, ValueModel)>, k: Seq<char>) -> ValueModel {
    pairs[find_key_model(pairs, k)].1
}

impl ValueModel {
    /// Every object in the value has unique keys.
    pub open spec fn wf(self) -> bool
        decreases self,
    {
        match self {
            ValueModel::List(items) => wf_list(items),
            ValueModel::Object(pairs) => wf_pairs(pairs),
            _ => true,
        }
    }
}

/// Every element of the list is well formed.
pub open spec fn wf_list(items: Seq<ValueModel>) -> bool
    decreases items,
{
    if items.len() == 0 {
        true
    } else {
        wf_list(items.drop_last()) && items.last().wf()
    }
}

/// The entries have pairwise distinct keys and well-formed values.
pub open spec fn wf_pairs(pairs: Seq<(Seq<char>, ValueModel)>) -> bool
    decreases pairs,
{
    if pairs.len() == 0 {
        true
    } else {
        wf_pairs(pairs.drop_last()) && pairs.last().1.wf() && !has_key(
            pairs.drop_last(),
            pairs.last().0,
        )
    }
}

/// The deep merge of `b` into `a`: two objects merge entry by entry, with
/// `b` winning on conflicting non-object entries; any other pairing is
/// replaced by `b` wholesale.
pub open spec fn merged(a: ValueModel, b: ValueModel) -> ValueModel
    decreases b,
{
    match (a, b) {
        (ValueModel::Object(pa), ValueModel::Object(pb)) => ValueModel::Object(
            merged_pairs(pa, pb),
        ),
        (_, other) => other,
    }
}

/// Folds every entry of `pb`, in order, into `pa`.
pub open spec fn merged_pairs(
    pa: Seq<(Seq<char>, ValueModel)>,
    pb: Seq<(Seq<char>, ValueModel)>,
) -> Seq<(Seq<char>, ValueModel)>
    decreases pb,
{
    if pb.len() == 0 {
        pa
    } else {
        merged_entry(merged_pairs(pa, pb.drop_last()), pb.last())
    }
}

/// Merges one entry into `pa`: a new key is appended, an existing key has
/// its value merged in place.
pub open spec fn merged_entry(
    pa: Seq<(Seq<char>, ValueModel)>,
    p: (Seq<char>, ValueModel),
) -> Seq<(Seq<char>, ValueModel)>
    decreases p,
{
    let i = find_key_model(pa, p.0);
    if i < 0 {
        pa.push(p)
    } else {
        pa.update(i, (pa[i].0, merged(pa[i].1, p.1)))
    }
}

/// `list_model` maps the sequence pointwise.
pub proof fn lemma_list_model(items: Seq<ResourceData>)
    ensures
        list_model(items).len() == items.len(),
        forall|i: int| 0 <= i < items.len() ==> #[trigger] list_model(items)[i] == items[i].view(),
    decreases items,
{
    if items.len() > 0 {
        lemma_list_model(items.drop_last());
    }
}

/// `pairs_model` maps the sequence pointwise.
pub proof fn lemma_pairs_model(pairs: Seq<(String, ResourceData)>)
    ensures
        pairs_model(pairs).len() == pairs.len(),
        forall|i: int|
            0 <= i < pairs.len() ==> #[trigger] pairs_model(pairs)[i] == (
                pairs[i].0@,
                pairs[i].1.view(),
            ),
    decreases pairs,
{
    if pairs.len() > 0 {
        lemma_pairs_model(pairs.drop_last());
    }
}

/// `find_key_model` returns the index of the first entry with the key, and
/// `-1` exactly when no entry has it.
pub proof fn lemma_find_key_model(pairs: Seq<(Seq<char>, ValueModel)>, k: Seq<char>)
    ensures
        find_key_model(pairs, k) >= 0 ==> {
            let i = find_key_model(pairs, k);
            &&& i < pairs.len()
            &&& pairs[i].0 == k
            &&& forall|j: int| 0 <= j < i ==> #[trigger] pairs[j].0 != k
        },
        find_key_model(pairs, k) < 0 ==> forall|j: int|
            0 <= j < pairs.len() ==> #[trigger] pairs[j].0 != k,
    decreases pairs,
{
    if pairs.len() > 0 && pairs[0].0 != k {
        let rest = pairs.skip(1);
        lemma_find_key_model(rest, k);
        assert(forall|j: int| 0 <= j < rest.len() ==> #[trigger] rest[j] == pairs[j + 1]);
        let r = find_key_model(rest, k);
        if r >= 0 {
            assert(pairs[r + 1].0 == k);
            assert forall|j: int| 0 <= j < r + 1 implies #[trigger] pairs[j].0 != k by {
                if j > 0 {
                    assert(rest[j - 1].0 != k);
                }
            }
        } else {
            assert forall|j: int| 0 <= j < pairs.len() implies #[trigger] pairs[j].0 != k by {
                if j > 0 {
                    assert(rest[j - 1].0 != k);
                }
            }
        }
    }
}

/// A key is present exactly when some entry has it.
pub proof fn lemma_has_key_exists(pairs: Seq<(Seq<char>, ValueModel)>, k: Seq<char>)
    ensures
        has_key(pairs, k) <==> exists|j: int| 0 <= j < pairs.len() && #[trigger] pairs[j].0 == k,
{
    lemma_find_key_model(pairs, k);
    if has_key(pairs, k) {
        let i = find_key_model(pairs, k);
        assert(pairs[i].0 == k);
    }
}

/// How appending one entry changes the index of the first entry with a key.
proof fn lemma_find_key_push(s: Seq<(Seq<char>, ValueModel)>, p: (Seq<char>, ValueModel), k: Seq<char>)
    ensures
        find_key_model(s.push(p), k) == if has_key(s, k) {
            find_key_model(s, k)
        } else if p.0 == k {
            s.len() as int
        } else {
            -1
        },
    decreases s,
{
    let sp = s.push(p);
    assert(sp.len() == s.len() + 1);
    if s.len() == 0 {
        assert(sp[0] == p);
        if p.0 == k {
            assert(find_key_model(sp, k) == 0);
            assert(!has_key(s, k));
        } else {
            assert(sp.skip(1) =~= Seq::empty());
            assert(find_key_model(sp.skip(1), k) == -1);
            assert(find_key_model(sp, k) == -1);
        }
    } else {
        assert(sp[0] == s[0]);
        if s[0].0 == k {
            assert(find_key_model(sp, k) == 0);
            assert(find_key_model(s, k) == 0);
        } else {
            assert(sp.skip(1) =~= s.skip(1).push(p));
            lemma_find_key_push(s.skip(1), p, k);
            let r = find_key_model(s.skip(1).push(p), k);
            assert(find_key_model(sp, k) == if r < 0 { -1 } else { r + 1 });
            let r0 = find_key_model(s.skip(1), k);
            assert(find_key_model(s, k) == if r0 < 0 { -1 } else { r0 + 1 });
            assert(s.skip(1).len() == s.len() - 1);
        }
    }
}

/// Two entry sequences with the same keys have the same first index for
/// every key.
proof fn lemma_find_key_same_keys(
    s1: Seq<(Seq<char>, ValueModel)>,
    s2: Seq<(Seq<char>, ValueModel)>,
    k: Seq<char>,
)
    requires
        s1.len() == s2.len(),
        forall|j: int| 0 <= j < s1.len() ==> #[trigger] s1[j].0 == s2[j].0,
    ensures
        find_key_model(s1, k) == find_key_model(s2, k),
    decreases s1,
{
    if s1.len() > 0 && s1[0].0 != k {
        assert(forall|j: int|
            0 <= j < s1.skip(1).len() ==> #[trigger] s1.skip(1)[j].0 == s2.skip(1)[j].0);
        lemma_find_key_same_keys(s1.skip(1), s2.skip(1), k);
    }
}

/// How merging a single entry changes the first index and value of every key.
proof fn lemma_merged_entry_lookup(
    pa: Seq<(Seq<char>, ValueModel)>,
    p: (Seq<char>, ValueModel),
    k: Seq<char>,
)
    ensures
        find_key_model(merged_entry(pa, p), k) == if has_key(pa, k) {
            find_key_model(pa, k)
        } else if p.0 == k {
            pa.len() as int
        } else {
            -1
        },
        k == p.0 && has_key(pa, k) ==> lookup(merged_entry(pa, p), k) == merged(lookup(pa, k), p.1),
        k == p.0 && !has_key(pa, k) ==> lookup(merged_entry(pa, p), k) == p.1,
        k != p.0 && has_key(pa, k) ==> lookup(merged_entry(pa, p), k) == lookup(pa, k),
{
    let me = merged_entry(pa, p);
    let ip = find_key_model(pa, p.0);
    lemma_find_key_model(pa, p.0);
    lemma_find_key_model(pa, k);
    if ip < 0 {
        lemma_find_key_push(pa, p, k);
    } else {
        let updated = pa.update(ip, (pa[ip].0, merged(pa[ip].1, p.1)));
        assert(forall|j: int| 0 <= j < pa.len() ==> #[trigger] pa[j].0 == updated[j].0);
        lemma_find_key_same_keys(pa, updated, k);
        if k == p.0 {
            assert(find_key_model(pa, k) == ip);
        } else if has_key(pa, k) {
            assert(find_key_model(pa, k) != ip);
        }
    }
}

/// Deep-merge precedence on objects, per key `k`: the merged object has the
/// union of the keys; a key of only one side keeps that side's value; a key
/// of both sides gets the merge of the two values, which for non-object
/// values is the override's value.
pub proof fn lemma_merge_precedence(a: ValueModel, b: ValueModel, k: Seq<char>)
    requires
        a is Object,
        b is Object,
        b.wf(),
    ensures
        ({
            let pa = a->Object_0;
            let pb = b->Object_0;
            let pm = merged(a, b)->Object_0;
            &&& (has_key(pm, k) <==> has_key(pa, k) || has_key(pb, k))
            &&& has_key(pa, k) && has_key(pb, k) ==> lookup(pm, k) == merged(
                lookup(pa, k),
                lookup(pb, k),
            )
            &&& !has_key(pa, k) && has_key(pb, k) ==> lookup(pm, k) == lookup(pb, k)
            &&& has_key(pa, k) && !has_key(pb, k) ==> lookup(pm, k) == lookup(pa, k)
        }),
{
    lemma_merged_pairs_lookup(a->Object_0, b->Object_0, k);
}

/// The per-key characterization behind [`lemma_merge_precedence`], by
/// induction over the override's entries.
proof fn lemma_merged_pairs_lookup(
    pa: Seq<(Seq<char>, ValueModel)>,
    pb: Seq<(Seq<char>, ValueModel)>,
    k: Seq<char>,
)
    requires
        wf_pairs(pb),
    ensures
        ({
            let pm = merged_pairs(pa, pb);
            &&& (has_key(pm, k) <==> has_key(pa, k) || has_key(pb, k))
            &&& has_key(pa, k) && has_key(pb, k) ==> lookup(pm, k) == merged(
                lookup(pa, k),
                lookup(pb, k),
            )
            &&& !has_key(pa, k) && has_key(pb, k) ==> lookup(pm, k) == lookup(pb, k)
            &&& has_key(pa, k) && !has_key(pb, k) ==> lookup(pm, k) == lookup(pa, k)
        }),
    decreases pb,
{
    if pb.len() == 0 {
        lemma_find_key_model(pb, k);
    } else {
        let front = pb.drop_last();
        let p = pb.last();
        let acc = merged_pairs(pa, front);
        lemma_merged_pairs_lookup(pa, front, k);
        lemma_merged_entry_lookup(acc, p, k);
        assert(front.push(p) =~= pb);
        lemma_find_key_push(front, p, k);
        lemma_find_key_model(front, k);
        lemma_find_key_model(pb, k);
        if k == p.0 {
            assert(!has_key(front, k));
            assert(lookup(pb, k) == p.1);
        } else {
            if has_key(front, k) {
                assert(lookup(pb, k) == lookup(front, k));
            }
        }
    }
}

/// Entries of a well-formed object have pairwise distinct keys, well-formed
/// values, and each key's first occurrence is its own position.
proof fn lemma_wf_pairs_props(pairs: Seq<(Seq<char>, ValueModel)>)
    requires
        wf_pairs(pairs),
    ensures
        forall|j: int| 0 <= j < pairs.len() ==> (#[trigger] pairs[j].1).wf(),
        forall|j: int|
            0 <= j < pairs.len() ==> #[trigger] find_key_model(pairs, pairs[j].0) == j,
    decreases pairs,
{
    if pairs.len() > 0 {
        let front = pairs.drop_last();
        let p = pairs.last();
        lemma_wf_pairs_props(front);
        assert(front.push(p) =~= pairs);
        lemma_find_key_model(front, p.0);
        assert forall|j: int|
            0 <= j < pairs.len() implies #[trigger] find_key_model(pairs, pairs[j].0) == j by {
            lemma_find_key_push(front, p, pairs[j].0);
            if j < pairs.len() - 1 {
                assert(pairs[j] == front[j]);
                assert(find_key_model(front, front[j].0) == j);
                lemma_find_key_model(front, front[j].0);
            } else {
                assert(pairs[j] == p);
            }
        }
    }
}

/// Merging entries that are already present, with values the merge keeps,
/// leaves the object unchanged.
proof fn lemma_merged_pairs_absorbed(
    pa: Seq<(Seq<char>, ValueModel)>,
    pb: Seq<(Seq<char>, ValueModel)>,
)
    requires
        forall|j: int|
            0 <= j < pb.len() ==> {
                let i = find_key_model(pa, (#[trigger] pb[j]).0);
                &&& 0 <= i < pa.len()
                &&& merged(pa[i].1, pb[j].1) == pa[i].1
            },
    ensures
        merged_pairs(pa, pb) == pa,
    decreases pb,
{
    if pb.len() > 0 {
        let front = pb.drop_last();
        let p = pb.last();
        assert(forall|j: int| 0 <= j < front.len() ==> front[j] == pb[j]);
        lemma_merged_pairs_absorbed(pa, front);
        let i = find_key_model(pa, p.0);
        assert(p == pb[pb.len() - 1]);
        assert(0 <= i < pa.len() && merged(pa[i].1, p.1) == pa[i].1);
        assert((pa[i].0, pa[i].1) == pa[i]);
        assert(pa.update(i, (pa[i].0, merged(pa[i].1, p.1))) =~= pa);
        assert(merged_pairs(pa, front) == pa);
        assert(merged_entry(pa, p) == pa.update(i, (pa[i].0, merged(pa[i].1, p.1))));
        assert(merged_pairs(pa, pb) == merged_entry(merged_pairs(pa, front), p));
    }
}

/// An object whose values are well formed and whose every key first
/// occurs at its own position is well formed.
proof fn lemma_wf_pairs_intro(pairs: Seq<(Seq<char>, ValueModel)>)
    requires
        forall|j: int| 0 <= j < pairs.len() ==> (#[trigger] pairs[j]).1.wf(),
        forall|j: int|
            0 <= j < pairs.len() ==> #[trigger] find_key_model(pairs, pairs[j].0) == j,
    ensures
        wf_pairs(pairs),
    decreases pairs,
{
    if pairs.len() > 0 {
        let front = pairs.drop_last();
        let p = pairs.last();
        assert(front.push(p) =~= pairs);
        assert forall|j: int|
            0 <= j < front.len() implies #[trigger] find_key_model(front, front[j].0) == j by {
            lemma_find_key_push(front, p, front[j].0);
            assert(find_key_model(pairs, pairs[j].0) == j);
            if !has_key(front, front[j].0) {
                assert(find_key_model(pairs, front[j].0) != j);
            }
        }
        lemma_wf_pairs_intro(front);
        lemma_find_key_push(front, p, p.0);
        assert(find_key_model(pairs, p.0) == pairs.len() - 1);
        if has_key(front, p.0) {
            lemma_find_key_model(front, p.0);
            assert(find_key_model(pairs, p.0) < front.len());
        }
    }
}

/// Deep-merging two well-formed values gives a well-formed value: in
/// particular, object keys stay unique.
pub proof fn lemma_merge_preserves_wf(a: ValueModel, b: ValueModel)
    requires
        a.wf(),
        b.wf(),
    ensures
        merged(a, b).wf(),
    decreases b,
{
    match (a, b) {
        (ValueModel::Object(pa), ValueModel::Object(pb)) => {
            lemma_merged_pairs_wf(pa, pb);
        },
        _ => {},
    }
}

/// The entry-by-entry merge of two well-formed objects is well formed.
proof fn lemma_merged_pairs_wf(
    pa: Seq<(Seq<char>, ValueModel)>,
    pb: Seq<(Seq<char>, ValueModel)>,
)
    requires
        wf_pairs(pa),
        wf_pairs(pb),
    ensures
        wf_pairs(merged_pairs(pa, pb)),
    decreases pb,
{
    if pb.len() > 0 {
        let front = pb.drop_last();
        let p = pb.last();
        lemma_merged_pairs_wf(pa, front);
        let acc = merged_pairs(pa, front);
        lemma_wf_pairs_props(acc);
        lemma_find_key_model(acc, p.0);
        let i = find_key_model(acc, p.0);
        assert(merged_pairs(pa, pb) == merged_entry(acc, p));
        if i < 0 {
            let out = acc.push(p);
            assert(merged_entry(acc, p) == out);
            assert(out.drop_last() =~= acc);
            assert(wf_pairs(out));
        } else {
            assert(acc[i].1.wf());
            lemma_merge_preserves_wf(acc[i].1, p.1);
            let out = acc.update(i, (acc[i].0, merged(acc[i].1, p.1)));
            assert(merged_entry(acc, p) == out);
            assert(forall|j: int| 0 <= j < acc.len() ==> (#[trigger] acc[j]).0 == out[j].0);
            assert forall|j: int|
                0 <= j < out.len() implies #[trigger] find_key_model(out, out[j].0) == j by {
                lemma_find_key_same_keys(acc, out, out[j].0);
                assert(find_key_model(acc, acc[j].0) == j);
            }
            assert forall|j: int| 0 <= j < out.len() implies (#[trigger] out[j]).1.wf() by {
                if j != i {
                    assert(out[j] == acc[j]);
                }
            }
            lemma_wf_pairs_intro(out);
        }
    }
}

/// Merging any well-formed value with itself gives the value back.
pub proof fn lemma_merge_idempotent(a: ValueModel)
    requires
        a.wf(),
    ensures
        merged(a, a) == a,
    decreases a,
{
    match a {
        ValueModel::Object(pa) => {
            lemma_wf_pairs_props(pa);
            assert forall|j: int|
                0 <= j < pa.len() implies {
                let i = find_key_model(pa, (#[trigger] pa[j]).0);
                &&& 0 <= i < pa.len()
                &&& merged(pa[i].1, pa[j].1) == pa[i].1
            } by {
                lemma_merge_idempotent(pa[j].1);
            }
            lemma_merged_pairs_absorbed(pa, pa);
        },
        _ => {},
    }
}

impl Clone for ResourceData {
    /// A deep copy whose model is the model of the original.
    fn clone(&self) -> (r: Self)
        ensures
            r@ == self@,
    {
        clone_value(self)
    }
}

/// A deep copy of a value; the copy has the same model.
fn clone_value(v: &ResourceData) -> (r: ResourceData)
    ensures
        r@ == v@,
    decreases *v,
{
    match v {
        ResourceData::Null => ResourceData::Null,
        ResourceData::Bool(b) => ResourceData::Bool(*b),
        ResourceData::Number(n) => ResourceData::Number(*n),
        ResourceData::Text(s) => ResourceData::Text(s.clone()),
        ResourceData::List(items) => {
            let mut out: Vec<ResourceData> = Vec::new();
            let mut idx: usize = 0;
            while idx < items.len()
                invariant
                    *v == ResourceData::List(*items),
                    idx <= items@.len(),
                    out@.len() == idx as int,
                    forall|i: int| 0 <= i < idx ==> (#[trigger] out@[i])@ == items@[i]@,
                decreases items@.len() - idx,
            {
                proof {
                    assert(decreases_to!(*v => v->List_0));
                    assert(v->List_0 == *items);
                    assert(decreases_to!(*items => items@));
                    assert(decreases_to!(items@ => items@[idx as int]));
                }
                let c = clone_value(&items[idx]);
                out.push(c);
                idx = idx + 1;
            }
            proof {
                lemma_list_model(out@);
                lemma_list_model(items@);
                assert(list_model(out@) =~= list_model(items@));
            }
            ResourceData::List(out)
        },
        ResourceData::Object(pairs) => {
            let mut out: Vec<(String, ResourceData)> = Vec::new();
            let mut idx: usize = 0;
            while idx < pairs.len()
                invariant
                    *v == ResourceData::Object(*pairs),
                    idx <= pairs@.len(),
                    out@.len() == idx as int,
                    forall|i: int|
                        0 <= i < idx ==> (#[trigger] out@[i]).0@ == pairs@[i].0@ && out@[i].1@
                            == pairs@[i].1@,
                decreases pairs@.len() - idx,
            {
                proof {
                    assert(decreases_to!(*v => v->Object_0));
                    assert(v->Object_0 == *pairs);
                    assert(decreases_to!(*pairs => pairs@));
                    assert(decreases_to!(pairs@ => pairs@[idx as int]));
                    assert(decreases_to!(pairs@[idx as int] => pairs@[idx as int].1));
                }
                let entry = &pairs[idx];
                let ck = entry.0.clone();
                let cv = clone_value(&entry.1);
                out.push((ck, cv));
                idx = idx + 1;
            }
            proof {
                lemma_pairs_model(out@);
                lemma_pairs_model(pairs@);
                assert(pairs_model(out@) =~= pairs_model(pairs@));
            }
            ResourceData::Object(out)
        },
    }
}

/// The index of the first entry of `pairs` whose key is `key`.
fn find_key(pairs: &Vec<(String, ResourceData)>, key: &String) -> (r: Option<usize>)
    ensures
        match r {
            Some(j) => j < pairs@.len() && find_key_model(pairs_model(pairs@), key@) == j as int,
            None => find_key_model(pairs_model(pairs@), key@) == -1,
        },
{
    proof {
        lemma_pairs_model(pairs@);
        lemma_find_key_model(pairs_model(pairs@), key@);
    }
    let ghost pm = pairs_model(pairs@);
    let mut j: usize = 0;
    while j < pairs.len()
        invariant
            pm == pairs_model(pairs@),
            j <= pairs@.len(),
            forall|i: int| 0 <= i < j ==> (#[trigger] pairs@[i]).0@ != key@,
        decreases pairs@.len() - j,
    {
        if pairs[j].0 == *key {
            proof {
                lemma_pairs_model(pairs@);
                lemma_find_key_model(pm, key@);
                assert(pm[j as int].0 == key@);
                assert(forall|i: int| 0 <= i < j ==> (#[trigger] pm[i]).0 != key@);
                assert(find_key_model(pm, key@) == j as int);
            }
            return Some(j);
        }
        j = j + 1;
    }
    proof {
        lemma_pairs_model(pairs@);
        lemma_find_key_model(pm, key@);
        assert(forall|i: int| 0 <= i < pm.len() ==> (#[trigger] pm[i]).0 != key@);
    }
    None
}

/// Deep-merges `b` into `a` in place: see [`merged`] for the semantics.
/// This is the sole mechanism by which task-level overrides compose with
/// plugin-level base configuration.
pub fn merge(a: &mut ResourceData, b: ResourceData)
    ensures
        final(a)@ == merged(old(a)@, b@),
{
    let mut tmp = ResourceData::Null;
    core::mem::swap(a, &mut tmp);
    let r = merge_values(tmp, b);
    *a = r;
}

/// Deep-merges two owned values.
#[verifier::loop_isolation(false)]
fn merge_values(a: ResourceData, b: ResourceData) -> (r: ResourceData)
    ensures
        r@ == merged(a@, b@),
    decreases b,
{
    let ghost b_snap = b;
    match (a, b) {
        (ResourceData::Object(apairs), ResourceData::Object(bpairs)) => {
            let ghost bvec0 = bpairs;
            let ghost ball = bpairs@;
            let ghost pa0 = pairs_model(apairs@);
            let ghost pm = pairs_model(ball);
            proof {
                lemma_pairs_model(ball);
            }
            let mut acc = apairs;
            let mut bp = bpairs;
            let total = bp.len();
            let mut done: usize = 0;
            while bp.len() > 0
                invariant
                    b_snap == ResourceData::Object(bvec0),
                    bvec0@ == ball,
                    pm == pairs_model(ball),
                    pm.len() == ball.len(),
                    forall|i: int|
                        0 <= i < ball.len() ==> #[trigger] pm[i] == (ball[i].0@, ball[i].1.view()),
                    total as int == ball.len(),
                    done + bp@.len() == ball.len(),
                    bp@ == ball.skip(done as int),
                    pairs_model(acc@) == merged_pairs(pa0, pm.take(done as int)),
                decreases bp@.len(),
            {
                let ghost acc_before = pairs_model(acc@);
                proof {
                    lemma_pairs_model(acc@);
                }
                let ghost bp_before = bp@;
                let (key, val) = bp.remove(0);
                proof {
                    assert(bp_before[0] == ball.skip(done as int)[0]);
                    assert(ball.skip(done as int)[0] == ball[done as int]);
                    assert(key == ball[done as int].0 && val == ball[done as int].1);
                    assert(bp@ == bp_before.remove(0));
                    assert(bp@ =~= ball.skip(done as int + 1));
                    assert(decreases_to!(b_snap => b_snap->Object_0));
                    assert(b_snap->Object_0 == bvec0);
                    assert(decreases_to!(bvec0 => bvec0@));
                    assert(bvec0@ == ball);
                    assert(decreases_to!(ball => ball[done as int]));
                    assert(decreases_to!(ball[done as int] => ball[done as int].1));
                    assert(decreases_to!(b_snap => bvec0));
                    assert(decreases_to!(b_snap => ball));
                    assert(decreases_to!(b_snap => ball[done as int]));
                    assert(decreases_to!(b_snap => val));
                }
                match find_key(&acc, &key) {
                    Some(j) => {
                        let (k0, oldv) = acc.remove(j);
                        let newv = merge_values(oldv, val);
                        acc.insert(j, (k0, newv));
                        proof {
                            let expect = acc_before.update(
                                j as int,
                                (
                                    acc_before[j as int].0,
                                    merged(acc_before[j as int].1, pm[done as int].1),
                                ),
                            );
                            assert(forall|i: int|
                                0 <= i < acc@.len() ==> #[trigger] expect[i] == (
                                    acc@[i].0@,
                                    acc@[i].1.view(),
                                ));
                            lemma_pairs_model_frame(acc@, expect);
                        }
                    },
                    None => {
                        acc.push((key, val));
                        proof {
                            let expect = acc_before.push(pm[done as int]);
                            assert(forall|i: int|
                                0 <= i < acc@.len() ==> #[trigger] expect[i] == (
                                    acc@[i].0@,
                                    acc@[i].1.view(),
                                ));
                            lemma_pairs_model_frame(acc@, expect);
                        }
                    },
                }
                proof {
                    assert(pm.take(done + 1).drop_last() =~= pm.take(done as int));
                    assert(pm.take(done + 1).last() == pm[done as int]);
                    assert(pairs_model(acc@) == merged_entry(
                        merged_pairs(pa0, pm.take(done as int)),
                        pm[done as int],
                    ));
                }
                done = done + 1;
            }
            proof {
                assert(pm.take(done as int) =~= pm);
            }
            ResourceData::Object(acc)
        },
        (_, other) => other,
    }
}

/// Whether two values have the same model: same shape, same scalars, same
/// entries in the same order.
#[verifier::loop_isolation(false)]
pub fn value_eq(a: &ResourceData, b: &ResourceData) -> (r: bool)
    ensures
        r == (a@ == b@),
    decreases *a,
{
    match (a, b) {
        (ResourceData::Null, ResourceData::Null) => true,
        (ResourceData::Bool(x), ResourceData::Bool(y)) => {
            let e = *x == *y;
            proof {
                assert(e == (a@ == b@));
            }
            e
        },
        (ResourceData::Number(x), ResourceData::Number(y)) => {
            let e = *x == *y;
            proof {
                assert(e == (a@ == b@));
            }
            e
        },
        (ResourceData::Text(x), ResourceData::Text(y)) => {
            let e = *x == *y;
            proof {
                assert(e == (a@ == b@));
            }
            e
        },
        (ResourceData::List(xs), ResourceData::List(ys)) => {
            proof {
                lemma_list_model(xs@);
                lemma_list_model(ys@);
            }
            if xs.len() != ys.len() {
                return false;
            }
            let mut i: usize = 0;
            while i < xs.len()
                invariant
                    *a == ResourceData::List(*xs),
                    i <= xs@.len(),
                    forall|j: int| 0 <= j < i ==> xs@[j]@ == (#[trigger] ys@[j])@,
                decreases xs@.len() - i,
            {
                proof {
                    assert(decreases_to!(*a => a->List_0));
                    assert(a->List_0 == *xs);
                    assert(decreases_to!(*xs => xs@));
                    assert(decreases_to!(xs@ => xs@[i as int]));
                }
                if !value_eq(&xs[i], &ys[i]) {
                    proof {
                        assert(list_model(xs@)[i as int] != list_model(ys@)[i as int]);
                    }
                    return false;
                }
                i = i + 1;
            }
            proof {
                assert(list_model(xs@) =~= list_model(ys@));
            }
            true
        },
        (ResourceData::Object(xs), ResourceData::Object(ys)) => {
            proof {
                lemma_pairs_model(xs@);
                lemma_pairs_model(ys@);
            }
            if xs.len() != ys.len() {
                return false;
            }
            let mut i: usize = 0;
            while i < xs.len()
                invariant
                    *a == ResourceData::Object(*xs),
                    i <= xs@.len(),
                    forall|j: int|
                        0 <= j < i ==> xs@[j].0@ == (#[trigger] ys@[j]).0@ && xs@[j].1@
                            == ys@[j].1@,
                decreases xs@.len() - i,
            {
                proof {
                    assert(decreases_to!(*a => a->Object_0));
                    assert(a->Object_0 == *xs);
                    assert(decreases_to!(*xs => xs@));
                    assert(decreases_to!(xs@ => xs@[i as int]));
                    assert(decreases_to!(xs@[i as int] => xs@[i as int].1));
                }
                let xp = &xs[i];
                let yp = &ys[i];
                if !(xp.0 == yp.0) {
                    proof {
                        assert(pairs_model(xs@)[i as int] != pairs_model(ys@)[i as int]);
                    }
                    return false;
                }
                if !value_eq(&xp.1, &yp.1) {
                    proof {
                        assert(pairs_model(xs@)[i as int] != pairs_model(ys@)[i as int]);
                    }
                    return false;
                }
                i = i + 1;
            }
            proof {
                assert(pairs_model(xs@) =~= pairs_model(ys@));
            }
            true
        },
        _ => {
            proof {
                lemma_model_shape(a);
                lemma_model_shape(b);
            }
            false
        },
    }
}

/// The model's head constructor matches the value's.
proof fn lemma_model_shape(v: &ResourceData)
    ensures
        v@ is Null <==> *v is Null,
        v@ is Bool <==> *v is Bool,
        v@ is Int <==> *v is Number,
        v@ is Str <==> *v is Text,
        v@ is List <==> *v is List,
        v@ is Object <==> *v is Object,
{
    match v {
        ResourceData::Null => {},
        ResourceData::Bool(_) => {},
        ResourceData::Number(_) => {},
        ResourceData::Text(_) => {},
        ResourceData::List(_) => {},
        ResourceData::Object(_) => {},
    }
}

/// If the pointwise model of `pairs` is `expect`, then `pairs_model(pairs)`
/// is `expect`.
proof fn lemma_pairs_model_frame(
    pairs: Seq<(String, ResourceData)>,
    expect: Seq<(Seq<char>, ValueModel)>,
)
    requires
        expect.len() == pairs.len(),
        forall|i: int| 0 <= i < pairs.len() ==> #[trigger] expect[i] == (pairs[i].0@, pairs[i].1.view()),
    ensures
        pairs_model(pairs) == expect,
{
    lemma_pairs_model(pairs);
    assert(pairs_model(pairs) =~= expect);
}

} // verus!
