use vstd::prelude::*;
use crate::text::str_equal;

verus! {

/// A JSON document as the library holds it. Numbers keep the form JSON
/// parsers give them: non-negative integers, negative integers, and other
/// numbers by their decimal text.
#[derive(Debug, PartialEq)]
pub enum JsonValue {
    Null,
    Bool(bool),
    UInt(u64),
    Int(i64),
    Float(String),
    Str(String),
    Array(Vec<JsonValue>),
    Object(Vec<(String, JsonValue)>),
}

/// The mathematical JSON value: objects are maps from keys to values.
pub enum JsonTree {
    Null,
    Bool(bool),
    UInt(u64),
    Int(i64),
    Float(Seq<char>),
    Str(Seq<char>),
    Array(Seq<JsonTree>),
    Object(Map<Seq<char>, JsonTree>),
}

/// The trees of a sequence of values.
pub open spec fn trees_of(s: Seq<JsonValue>) -> Seq<JsonTree>
    decreases s,
{
    if s.len() == 0 {
        Seq::empty()
    } else {
        trees_of(s.drop_last()).push(s.last().tree())
    }
}

/// The map that object entries denote; of two entries with one key the later wins.
pub open spec fn entries_map(s: Seq<(String, JsonValue)>) -> Map<Seq<char>, JsonTree>
    decreases s,
{
    if s.len() == 0 {
        Map::empty()
    } else {
        entries_map(s.drop_last()).insert(s.last().0@, s.last().1.tree())
    }
}

impl JsonValue {
    /// The value this document denotes.
    pub open spec fn tree(self) -> JsonTree
        decreases self,
    {
        match self {
            JsonValue::Null => JsonTree::Null,
            JsonValue::Bool(b) => JsonTree::Bool(b),
            JsonValue::UInt(n) => JsonTree::UInt(n),
            JsonValue::Int(n) => JsonTree::Int(n),
            JsonValue::Float(t) => JsonTree::Float(t@),
            JsonValue::Str(t) => JsonTree::Str(t@),
            JsonValue::Array(v) => JsonTree::Array(trees_of(v@)),
            JsonValue::Object(e) => JsonTree::Object(entries_map(e@)),
        }
    }
}

/// `trees_of` keeps the length and takes each element's tree.
pub proof fn lemma_trees_of(s: Seq<JsonValue>)
    ensures
        trees_of(s).len() == s.len(),
        forall|i: int| 0 <= i < s.len() ==> #[trigger] trees_of(s)[i] == s[i].tree(),
    decreases s.len(),
{
    if s.len() > 0 {
        lemma_trees_of(s.drop_last());
        assert forall|i: int| 0 <= i < s.len() implies #[trigger] trees_of(s)[i] == s[i].tree() by {
            if i < s.len() - 1 {
                assert(s.drop_last()[i] == s[i]);
            }
        }
    }
}

/// Whether no two entries share a key.
pub open spec fn keys_distinct(s: Seq<(String, JsonValue)>) -> bool {
    forall|i: int, j: int| 0 <= i < j < s.len() ==> s[i].0@ != s[j].0@
}

/// Whether every value of `s` is well formed.
pub open spec fn all_well_formed(s: Seq<JsonValue>) -> bool
    decreases s,
{
    s.len() > 0 ==> all_well_formed(s.drop_last()) && s.last().well_formed()
}

/// Whether every entry value of `s` is well formed.
pub open spec fn entries_well_formed(s: Seq<(String, JsonValue)>) -> bool
    decreases s,
{
    s.len() > 0 ==> entries_well_formed(s.drop_last()) && s.last().1.well_formed()
}

impl JsonValue {
    /// Every object, at any depth, holds each key once, as a JSON map does.
    pub open spec fn well_formed(self) -> bool
        decreases self,
    {
        match self {
            JsonValue::Array(v) => all_well_formed(v@),
            JsonValue::Object(e) => keys_distinct(e@) && entries_well_formed(e@),
            _ => true,
        }
    }
}

/// The value at `key` of an object; `None` for a missing key or a non-object.
pub open spec fn tree_get(t: JsonTree, key: Seq<char>) -> Option<JsonTree> {
    match t {
        JsonTree::Object(m) => if m.dom().contains(key) {
            Some(m[key])
        } else {
            None
        },
        _ => None,
    }
}

/// `delta` laid over `base`: where both are objects, every key of either
/// appears, a key of `delta` takes `delta`'s value merged over `base`'s value
/// for that key, and the other keys keep `base`'s values; otherwise `delta`.
pub open spec fn merge_tree(base: JsonTree, delta: JsonTree) -> JsonTree
    decreases delta,
{
    match delta {
        JsonTree::Object(dm) => match base {
            JsonTree::Object(bm) => JsonTree::Object(
                Map::new(
                    |k: Seq<char>| bm.dom().contains(k) || dm.dom().contains(k),
                    |k: Seq<char>|
                        if dm.dom().contains(k) {
                            if bm.dom().contains(k) {
                                merge_tree(bm[k], dm[k])
                            } else {
                                dm[k]
                            }
                        } else {
                            bm[k]
                        },
                ),
            ),
            _ => delta,
        },
        _ => delta,
    }
}

/// Index of the last entry of `s` with key `k`, or -1 when no entry has it.
pub open spec fn last_index_of(s: Seq<(String, JsonValue)>, k: Seq<char>) -> int
    decreases s.len(),
{
    if s.len() == 0 {
        -1
    } else if s.last().0@ == k {
        s.len() - 1
    } else {
        last_index_of(s.drop_last(), k)
    }
}

/// How `entries_map` answers a lookup: through the last entry with the key.
pub proof fn lemma_entries_map_lookup(s: Seq<(String, JsonValue)>, k: Seq<char>)
    ensures
        -1 <= last_index_of(s, k) < s.len(),
        entries_map(s).dom().contains(k) <==> last_index_of(s, k) >= 0,
        last_index_of(s, k) >= 0 ==> {
            let i = last_index_of(s, k);
            &&& s[i].0@ == k
            &&& entries_map(s)[k] == s[i].1.tree()
            &&& forall|j: int| i < j < s.len() ==> s[j].0@ != k
        },
        last_index_of(s, k) < 0 ==> forall|j: int| 0 <= j < s.len() ==> s[j].0@ != k,
    decreases s.len(),
{
    if s.len() > 0 {
        lemma_entries_map_lookup(s.drop_last(), k);
        if s.last().0@ != k {
            assert forall|j: int| last_index_of(s, k) < j < s.len() implies s[j].0@ != k by {
                if j < s.len() - 1 {
                    assert(s[j] == s.drop_last()[j]);
                }
            }
        }
    }
}

/// In an object whose keys are distinct, each entry is the last one with its key.
pub proof fn lemma_distinct_last_index(s: Seq<(String, JsonValue)>, i: int)
    requires
        keys_distinct(s),
        0 <= i < s.len(),
    ensures
        last_index_of(s, s[i].0@) == i,
        entries_map(s)[s[i].0@] == s[i].1.tree(),
{
    lemma_entries_map_lookup(s, s[i].0@);
}

/// Appending an entry sets its key.
pub proof fn lemma_entries_map_push(s: Seq<(String, JsonValue)>, e: (String, JsonValue))
    ensures
        entries_map(s.push(e)) == entries_map(s).insert(e.0@, e.1.tree()),
{
    assert(s.push(e).drop_last() =~= s);
}

/// Replacing the last entry with a key sets that key.
pub proof fn lemma_entries_map_update(s: Seq<(String, JsonValue)>, i: int, e: (String, JsonValue))
    requires
        0 <= i < s.len(),
        last_index_of(s, s[i].0@) == i,
        e.0@ == s[i].0@,
    ensures
        entries_map(s.update(i, e)) == entries_map(s).insert(e.0@, e.1.tree()),
    decreases s.len(),
{
    let u = s.update(i, e);
    if i == s.len() - 1 {
        assert(u.drop_last() =~= s.drop_last());
        assert(entries_map(u) =~= entries_map(s).insert(e.0@, e.1.tree()));
    } else {
        assert(u.drop_last() =~= s.drop_last().update(i, e));
        assert(s.drop_last()[i] == s[i]);
        lemma_entries_map_update(s.drop_last(), i, e);
        assert(entries_map(u) =~= entries_map(s).insert(e.0@, e.1.tree()));
    }
}

/// `all_well_formed` holds exactly when every element is well formed.
pub proof fn lemma_all_well_formed(s: Seq<JsonValue>)
    ensures
        all_well_formed(s) <==> forall|i: int| 0 <= i < s.len() ==> #[trigger] s[i].well_formed(),
    decreases s.len(),
{
    if s.len() > 0 {
        lemma_all_well_formed(s.drop_last());
        assert(all_well_formed(s) == (all_well_formed(s.drop_last()) && s.last().well_formed()));
        if forall|i: int| 0 <= i < s.len() ==> #[trigger] s[i].well_formed() {
            assert forall|i: int| 0 <= i < s.drop_last().len() implies #[trigger] s.drop_last()[i].well_formed() by {
                assert(s.drop_last()[i] == s[i]);
            }
        }
        if all_well_formed(s) {
            assert forall|i: int| 0 <= i < s.len() implies #[trigger] s[i].well_formed() by {
                if i < s.len() - 1 {
                    assert(s.drop_last()[i] == s[i]);
                }
            }
        }
    }
}

/// `entries_well_formed` holds exactly when every entry value is well formed.
pub proof fn lemma_entries_well_formed(s: Seq<(String, JsonValue)>)
    ensures
        entries_well_formed(s) <==> forall|i: int| 0 <= i < s.len() ==> #[trigger] s[i].1.well_formed(),
    decreases s.len(),
{
    if s.len() > 0 {
        lemma_entries_well_formed(s.drop_last());
        assert(entries_well_formed(s) == (entries_well_formed(s.drop_last())
            && s.last().1.well_formed()));
        if forall|i: int| 0 <= i < s.len() ==> #[trigger] s[i].1.well_formed() {
            assert forall|i: int| 0 <= i < s.drop_last().len() implies #[trigger] s.drop_last()[i].1.well_formed() by {
                assert(s.drop_last()[i] == s[i]);
            }
        }
        if entries_well_formed(s) {
            assert forall|i: int| 0 <= i < s.len() implies #[trigger] s[i].1.well_formed() by {
                if i < s.len() - 1 {
                    assert(s.drop_last()[i] == s[i]);
                }
            }
        }
    }
}

/// Index of the last entry with key `k`.
pub fn find_last_key(entries: &Vec<(String, JsonValue)>, k: &String) -> (r: Option<usize>)
    ensures
        match r {
            Some(i) => i == last_index_of(entries@, k@),
            None => last_index_of(entries@, k@) == -1,
        },
{
    let mut i = entries.len();
    assert(entries@.take(i as int) =~= entries@);
    while i > 0
        invariant
            i <= entries@.len(),
            last_index_of(entries@, k@) == last_index_of(entries@.take(i as int), k@),
        decreases i,
    {
        assert(entries@.take(i as int).drop_last() =~= entries@.take(i - 1));
        if entries[i - 1].0 == *k {
            return Some(i - 1);
        }
        i = i - 1;
    }
    None
}

/// Whether one of the first `j` entries of `de` has key `k`.
pub open spec fn key_among(de: Seq<(String, JsonValue)>, j: int, k: Seq<char>) -> bool {
    exists|t: int| 0 <= t < j && #[trigger] de[t].0@ == k
}

/// The map that merging the first `j` entries of `de` into `bm` yields.
pub open spec fn merge_prefix(
    bm: Map<Seq<char>, JsonTree>,
    dm: Map<Seq<char>, JsonTree>,
    de: Seq<(String, JsonValue)>,
    j: int,
) -> Map<Seq<char>, JsonTree> {
    Map::new(
        |k: Seq<char>| bm.dom().contains(k) || key_among(de, j, k),
        |k: Seq<char>|
            if key_among(de, j, k) {
                if bm.dom().contains(k) {
                    merge_tree(bm[k], dm[k])
                } else {
                    dm[k]
                }
            } else {
                bm[k]
            },
    )
}

/// Merges `delta` into `base` recursively, preserving fields of `base` that
/// `delta` does not name.
pub fn recursive_merge(base: JsonValue, delta: JsonValue) -> (r: JsonValue)
    requires
        delta.well_formed(),
    ensures
        r.tree() == merge_tree(base.tree(), delta.tree()),
        base.well_formed() ==> r.well_formed(),
    decreases delta,
{
    let ghost delta0 = delta;
    let ghost base0 = base;
    match delta {
        JsonValue::Object(delta_entries) => {
            match base {
                JsonValue::Object(base_entries) => {
                    let ghost dvec = delta_entries;
                    let ghost be = base_entries@;
                    let ghost de = delta_entries@;
                    let ghost bm = entries_map(be);
                    let ghost dm = entries_map(de);
                    proof {
                        lemma_entries_well_formed(de);
                        lemma_entries_well_formed(be);
                        assert(merge_prefix(bm, dm, de, 0) =~= bm);
                        assert(de.skip(0) =~= de);
                    }
                    let mut merged = base_entries;
                    let mut rest = delta_entries;
                    let ghost mut j: int = 0;
                    while rest.len() > 0
                        invariant
                            0 <= j <= de.len(),
                            rest@ == de.skip(j),
                            de == dvec@,
                            delta0 == JsonValue::Object(dvec),
                            delta0 == delta,
                            keys_distinct(de),
                            forall|i: int| 0 <= i < de.len() ==> #[trigger] de[i].1.well_formed(),
                            dm == entries_map(de),
                            entries_map(merged@) == merge_prefix(bm, dm, de, j),
                            base0.well_formed() ==> keys_distinct(merged@),
                            base0.well_formed() ==> forall|i: int|
                                0 <= i < merged@.len() ==> #[trigger] merged@[i].1.well_formed(),
                        decreases rest.len(),
                    {
                        assert(rest@[0] == de[j]);
                        let (k, dv) = rest.remove(0);
                        proof {
                            assert(rest@ =~= de.skip(j + 1));
                            lemma_distinct_last_index(de, j);
                            assert(!key_among(de, j, k@));
                            assert(delta0->Object_0 == dvec);
                            assert(decreases_to!(delta0 => delta0->Object_0));
                            assert(decreases_to!(dvec => dvec@));
                            assert(decreases_to!(dvec@ => dvec@[j]));
                            assert(decreases_to!(dvec@[j] => dvec@[j].1));
                            assert(decreases_to!(delta0 => dvec@[j].1));
                            assert(dv == dvec@[j].1);
                        }
                        let ghost old_merged = merged@;
                        match find_last_key(&merged, &k) {
                            Some(i) => {
                                proof {
                                    lemma_entries_map_lookup(old_merged, k@);
                                }
                                let (bk, bv) = merged.remove(i);
                                let mv = recursive_merge(bv, dv);
                                merged.insert(i, (bk, mv));
                                proof {
                                    assert(merged@ =~= old_merged.update(i as int, (bk, mv)));
                                    lemma_entries_map_update(old_merged, i as int, (bk, mv));
                                    assert(entries_map(merged@) =~= merge_prefix(
                                        bm,
                                        dm,
                                        de,
                                        j + 1,
                                    ));
                                    if base0.well_formed() {
                                        assert forall|a: int, b: int|
                                            0 <= a < b < merged@.len() implies merged@[a].0@
                                            != merged@[b].0@ by {
                                            assert(merged@[a].0@ == old_merged[a].0@);
                                            assert(merged@[b].0@ == old_merged[b].0@);
                                        }
                                        assert(bv.well_formed());
                                    }
                                }
                            },
                            None => {
                                proof {
                                    lemma_entries_map_lookup(old_merged, k@);
                                }
                                merged.push((k, dv));
                                proof {
                                    lemma_entries_map_push(old_merged, (k, dv));
                                    assert(entries_map(merged@) =~= merge_prefix(
                                        bm,
                                        dm,
                                        de,
                                        j + 1,
                                    ));
                                }
                            },
                        }
                        proof {
                            j = j + 1;
                        }
                    }
                    proof {
                        assert forall|k: Seq<char>| key_among(de, j, k) <==> dm.dom().contains(k) by {
                            lemma_entries_map_lookup(de, k);
                        }
                        assert(merge_prefix(bm, dm, de, j) =~= match merge_tree(
                            base0.tree(),
                            delta0.tree(),
                        ) {
                            JsonTree::Object(m) => m,
                            _ => bm,
                        });
                        if base0.well_formed() {
                            lemma_entries_well_formed(merged@);
                        }
                    }
                    JsonValue::Object(merged)
                },
                _ => JsonValue::Object(delta_entries),
            }
        },
        other => other,
    }
}

/// The value reached from `t` by following the object keys of `path`.
pub open spec fn path_get(t: JsonTree, path: Seq<Seq<char>>) -> Option<JsonTree>
    decreases path.len(),
{
    if path.len() == 0 {
        Some(t)
    } else {
        match tree_get(t, path[0]) {
            Some(c) => path_get(c, path.drop_first()),
            None => None,
        }
    }
}

/// Whether `t` is an object.
pub open spec fn is_object(t: JsonTree) -> bool {
    t is Object
}

/// Whether `delta` leaves the way to `path` open: each proper prefix of
/// `path` reaches nothing in `delta` or reaches an object.
pub open spec fn keeps_path(delta: JsonTree, path: Seq<Seq<char>>) -> bool {
    forall|n: int|
        0 <= n < path.len() ==> match #[trigger] path_get(delta, path.take(n)) {
            Some(t) => is_object(t),
            None => true,
        }
}

/// A merge keeps every field of the base that the delta neither names nor
/// replaces on the way to it, and adds none there.
pub proof fn law_merge_preserves_untouched(base: JsonTree, delta: JsonTree, path: Seq<Seq<char>>)
    requires
        path_get(delta, path) is None,
        keeps_path(delta, path),
    ensures
        path_get(merge_tree(base, delta), path) == path_get(base, path),
    decreases path.len(),
{
    assert(path.take(0) =~= Seq::<Seq<char>>::empty());
    assert(path_get(delta, path.take(0)) == Some(delta));
    if path.len() > 0 {
        let k = path[0];
        let rest = path.drop_first();
        let bm = base->Object_0;
        let dm = delta->Object_0;
        if dm.dom().contains(k) && base is Object && bm.dom().contains(k) {
            assert forall|n: int| 0 <= n < rest.len() implies match #[trigger] path_get(
                dm[k],
                rest.take(n),
            ) {
                Some(t) => is_object(t),
                None => true,
            } by {
                assert(path.take(n + 1).drop_first() =~= rest.take(n));
                assert(path.take(n + 1)[0] == k);
                assert(path_get(delta, path.take(n + 1)) == path_get(dm[k], rest.take(n)));
            }
            law_merge_preserves_untouched(bm[k], dm[k], rest);
        }
    }
}

/// A merge takes every non-object value that the delta holds at a path.
pub proof fn law_merge_takes_delta_leaves(base: JsonTree, delta: JsonTree, path: Seq<Seq<char>>)
    requires
        path_get(delta, path) matches Some(v) && !is_object(v),
    ensures
        path_get(merge_tree(base, delta), path) == path_get(delta, path),
    decreases path.len(),
{
    if path.len() > 0 {
        let k = path[0];
        let rest = path.drop_first();
        if base is Object {
            let bm = base->Object_0;
            let dm = delta->Object_0;
            if bm.dom().contains(k) {
                law_merge_takes_delta_leaves(bm[k], dm[k], rest);
            }
        }
    }
}

/// A merge keeps exactly the keys of both objects, and a key that only the
/// delta names takes the delta's value.
pub proof fn law_merge_object_keys(base: JsonTree, delta: JsonTree, k: Seq<char>)
    requires
        base is Object,
        delta is Object,
    ensures
        (tree_get(merge_tree(base, delta), k) is Some) <==> (tree_get(base, k) is Some
            || tree_get(delta, k) is Some),
        tree_get(base, k) is None ==> tree_get(merge_tree(base, delta), k) == tree_get(delta, k),
        tree_get(delta, k) is None ==> tree_get(merge_tree(base, delta), k) == tree_get(base, k),
{
}

/// Merging a document over itself gives it back.
pub proof fn law_merge_self(t: JsonTree)
    ensures
        merge_tree(t, t) == t,
    decreases t,
{
    if let JsonTree::Object(m) = t {
        assert forall|k: Seq<char>| m.dom().contains(k) implies merge_tree(m[k], m[k]) == m[k] by {
            law_merge_self(m[k]);
        }
        assert(merge_tree(t, t)->Object_0 =~= m);
    }
}

/// Merging into an empty object gives the delta.
pub proof fn law_merge_into_empty(delta: JsonTree)
    ensures
        merge_tree(JsonTree::Object(Map::empty()), delta) == delta,
{
    if let JsonTree::Object(dm) = delta {
        assert(merge_tree(JsonTree::Object(Map::empty()), delta)->Object_0 =~= dm);
    }
}

/// Merging the same delta twice is merging it once.
pub proof fn law_merge_idempotent(base: JsonTree, delta: JsonTree)
    ensures
        merge_tree(merge_tree(base, delta), delta) == merge_tree(base, delta),
    decreases delta,
{
    let once = merge_tree(base, delta);
    if let JsonTree::Object(dm) = delta {
        if let JsonTree::Object(bm) = base {
            let om = once->Object_0;
            assert forall|k: Seq<char>| dm.dom().contains(k) implies merge_tree(om[k], dm[k])
                == om[k] by {
                if bm.dom().contains(k) {
                    law_merge_idempotent(bm[k], dm[k]);
                } else {
                    law_merge_self(dm[k]);
                }
            }
            assert(merge_tree(once, delta)->Object_0 =~= om);
        } else {
            law_merge_self(delta);
        }
    }
}

/// Index of the last entry with key `key`.
pub fn find_last_str_key(entries: &Vec<(String, JsonValue)>, key: &str) -> (r: Option<usize>)
    ensures
        match r {
            Some(i) => i == last_index_of(entries@, key@),
            None => last_index_of(entries@, key@) == -1,
        },
{
    let mut i = entries.len();
    assert(entries@.take(i as int) =~= entries@);
    while i > 0
        invariant
            i <= entries@.len(),
            last_index_of(entries@, key@) == last_index_of(entries@.take(i as int), key@),
        decreases i,
    {
        assert(entries@.take(i as int).drop_last() =~= entries@.take(i - 1));
        if str_equal(entries[i - 1].0.as_str(), key) {
            assert(entries@.take(i as int).last() == entries@[i - 1]);
            return Some(i - 1);
        }
        i = i - 1;
    }
    None
}

impl JsonValue {
    /// The value at `key` when this is an object holding that key.
    pub fn get(&self, key: &str) -> (r: Option<&JsonValue>)
        ensures
            match r {
                Some(v) => tree_get(self.tree(), key@) == Some(v.tree()),
                None => tree_get(self.tree(), key@) is None,
            },
    {
        match self {
            JsonValue::Object(entries) => {
                proof {
                    lemma_entries_map_lookup(entries@, key@);
                }
                match find_last_str_key(entries, key) {
                    Some(i) => Some(&entries[i].1),
                    None => None,
                }
            },
            _ => None,
        }
    }

    /// The value at `key`, taken out of this document.
    pub fn into_value_at(self, key: &str) -> (r: Option<JsonValue>)
        ensures
            match r {
                Some(v) => tree_get(self.tree(), key@) == Some(v.tree()),
                None => tree_get(self.tree(), key@) is None,
            },
            r matches Some(v) ==> (self.well_formed() ==> v.well_formed()),
    {
        match self {
            JsonValue::Object(mut entries) => {
                proof {
                    lemma_entries_map_lookup(entries@, key@);
                    lemma_entries_well_formed(entries@);
                }
                match find_last_str_key(&entries, key) {
                    Some(i) => {
                        let (_, v) = entries.remove(i);
                        Some(v)
                    },
                    None => None,
                }
            },
            _ => None,
        }
    }
}

impl JsonValue {
    /// The text of a JSON string.
    pub fn as_str(&self) -> (r: Option<&str>)
        ensures
            match r {
                Some(t) => self.tree() == JsonTree::Str(t@),
                None => !(self.tree() is Str),
            },
    {
        match self {
            JsonValue::Str(t) => Some(t.as_str()),
            _ => None,
        }
    }

    /// The value of a non-negative JSON integer.
    pub fn as_u64(&self) -> (r: Option<u64>)
        ensures
            r == match self.tree() {
                JsonTree::UInt(n) => Some(n),
                _ => None,
            },
    {
        match self {
            JsonValue::UInt(n) => Some(*n),
            _ => None,
        }
    }

    /// Whether this is JSON `null`.
    pub fn is_null(&self) -> (r: bool)
        ensures
            r == (self.tree() is Null),
    {
        match self {
            JsonValue::Null => true,
            _ => false,
        }
    }

    /// Whether this is a JSON object.
    pub fn is_object(&self) -> (r: bool)
        ensures
            r == is_object(self.tree()),
    {
        match self {
            JsonValue::Object(_) => true,
            _ => false,
        }
    }

    /// This object with `key` set to `value`; a value that is not an object
    /// is returned unchanged.
    pub fn with_key(self, key: String, value: JsonValue) -> (r: JsonValue)
        ensures
            r.tree() == match self.tree() {
                JsonTree::Object(m) => JsonTree::Object(m.insert(key@, value.tree())),
                t => t,
            },
            self.well_formed() && value.well_formed() ==> r.well_formed(),
    {
        match self {
            JsonValue::Object(mut entries) => {
                let ghost old_entries = entries@;
                proof {
                    lemma_entries_well_formed(old_entries);
                    lemma_entries_map_lookup(old_entries, key@);
                }
                match find_last_key(&entries, &key) {
                    Some(i) => {
                        let _ = entries.remove(i);
                        entries.insert(i, (key, value));
                        proof {
                            assert(entries@ =~= old_entries.update(i as int, entries@[i as int]));
                            lemma_entries_map_update(old_entries, i as int, entries@[i as int]);
                            if keys_distinct(old_entries) {
                                assert forall|a: int, b: int|
                                    0 <= a < b < entries@.len() implies entries@[a].0@
                                    != entries@[b].0@ by {
                                    assert(entries@[a].0@ == old_entries[a].0@);
                                    assert(entries@[b].0@ == old_entries[b].0@);
                                }
                            }
                        }
                    },
                    None => {
                        entries.push((key, value));
                        proof {
                            lemma_entries_map_push(old_entries, entries@.last());
                            assert(entries@ == old_entries.push(entries@.last()));
                        }
                    },
                }
                proof {
                    lemma_entries_well_formed(entries@);
                }
                JsonValue::Object(entries)
            },
            other => other,
        }
    }
}

/// The entries of a JSON object, as `entries_map` reads them, made from
/// three or four pushes.
pub proof fn lemma_entries_map_small(s: Seq<(String, JsonValue)>)
    requires
        1 <= s.len() <= 4,
    ensures
        s.len() == 1 ==> entries_map(s) == Map::<Seq<char>, JsonTree>::empty().insert(s[0].0@, s[0].1.tree()),
        s.len() == 2 ==> entries_map(s) == Map::<Seq<char>, JsonTree>::empty().insert(s[0].0@, s[0].1.tree()).insert(s[1].0@, s[1].1.tree()),
        s.len() >= 3 ==> entries_map(s) == if s.len() == 3 {
            Map::empty().insert(s[0].0@, s[0].1.tree()).insert(s[1].0@, s[1].1.tree()).insert(
                s[2].0@,
                s[2].1.tree(),
            )
        } else {
            Map::empty().insert(s[0].0@, s[0].1.tree()).insert(s[1].0@, s[1].1.tree()).insert(
                s[2].0@,
                s[2].1.tree(),
            ).insert(s[3].0@, s[3].1.tree())
        },
{
    reveal_with_fuel(entries_map, 5);
    if s.len() == 1 {
        assert(s.drop_last() =~= Seq::<(String, JsonValue)>::empty());
    } else if s.len() == 2 {
        assert(s.drop_last().drop_last() =~= Seq::<(String, JsonValue)>::empty());
    } else if s.len() == 3 {
        assert(s.drop_last().drop_last().drop_last() =~= Seq::<(String, JsonValue)>::empty());
    } else {
        assert(s.drop_last().drop_last().drop_last().drop_last() =~= Seq::<
            (String, JsonValue),
        >::empty());
    }
}

impl JsonValue {
    /// Decides `well_formed`: whether every object holds each key once.
    pub fn check_well_formed(&self) -> (r: bool)
        ensures
            r == self.well_formed(),
        decreases self,
    {
        match self {
            JsonValue::Array(items) => {
                proof {
                    lemma_all_well_formed(items@);
                }
                let n = items.len();
                let mut i: usize = 0;
                while i < n
                    invariant
                        n == items@.len(),
                        i <= n,
                        *self == JsonValue::Array(*items),
                        forall|j: int| 0 <= j < i ==> #[trigger] items@[j].well_formed(),
                    decreases n - i,
                {
                    proof {
                        assert(decreases_to!(*self => self->Array_0));
                        assert(decreases_to!(*items => items@));
                        assert(decreases_to!(items@ => items@[i as int]));
                        assert(decreases_to!(*self => items@[i as int]));
                    }
                    if !items[i].check_well_formed() {
                        proof {
                            lemma_all_well_formed(items@);
                        }
                        return false;
                    }
                    i = i + 1;
                }
                proof {
                    lemma_all_well_formed(items@);
                }
                true
            },
            JsonValue::Object(entries) => {
                proof {
                    lemma_entries_well_formed(entries@);
                }
                let n = entries.len();
                let mut i: usize = 0;
                while i < n
                    invariant
                        n == entries@.len(),
                        i <= n,
                        *self == JsonValue::Object(*entries),
                        forall|a: int, b: int| 0 <= a < b < i ==> entries@[a].0@ != entries@[b].0@,
                        forall|j: int| 0 <= j < i ==> #[trigger] entries@[j].1.well_formed(),
                    decreases n - i,
                {
                    proof {
                        assert(decreases_to!(*self => self->Object_0));
                        assert(decreases_to!(*entries => entries@));
                        assert(decreases_to!(entries@ => entries@[i as int]));
                        assert(decreases_to!(entries@[i as int] => entries@[i as int].1));
                        assert(decreases_to!(*self => entries@[i as int].1));
                    }
                    if !entries[i].1.check_well_formed() {
                        proof {
                            lemma_entries_well_formed(entries@);
                        }
                        return false;
                    }
                    let mut j: usize = 0;
                    while j < i
                        invariant
                            n == entries@.len(),
                            *self == JsonValue::Object(*entries),
                            j <= i < n,
                            forall|a: int| 0 <= a < j ==> entries@[a].0@ != entries@[i as int].0@,
                        decreases i - j,
                    {
                        if str_equal(entries[j].0.as_str(), entries[i].0.as_str()) {
                            assert(!keys_distinct(entries@));
                            return false;
                        }
                        j = j + 1;
                    }
                    i = i + 1;
                }
                proof {
                    lemma_entries_well_formed(entries@);
                }
                true
            },
            _ => true,
        }
    }
}


impl JsonValue {
    /// A copy of this document.
    pub fn deep_copy(&self) -> (r: JsonValue)
        ensures
            r.tree() == self.tree(),
            self.well_formed() ==> r.well_formed(),
        decreases self,
    {
        match self {
            JsonValue::Null => JsonValue::Null,
            JsonValue::Bool(b) => JsonValue::Bool(*b),
            JsonValue::UInt(n) => JsonValue::UInt(*n),
            JsonValue::Int(n) => JsonValue::Int(*n),
            JsonValue::Float(t) => JsonValue::Float(t.clone()),
            JsonValue::Str(t) => JsonValue::Str(t.clone()),
            JsonValue::Array(items) => {
                let n = items.len();
                let mut out: Vec<JsonValue> = Vec::new();
                let mut i: usize = 0;
                assert(items@.take(0) =~= Seq::<JsonValue>::empty());
                while i < n
                    invariant
                        n == items@.len(),
                        i <= n,
                        *self == JsonValue::Array(*items),
                        out@.len() == i,
                        trees_of(out@) == trees_of(items@.take(i as int)),
                        forall|j: int|
                            0 <= j < i ==> (#[trigger] items@[j].well_formed()
                                ==> out@[j].well_formed()),
                    decreases n - i,
                {
                    proof {
                        assert(decreases_to!(*self => self->Array_0));
                        assert(decreases_to!(*items => items@));
                        assert(decreases_to!(items@ => items@[i as int]));
                        assert(decreases_to!(*self => items@[i as int]));
                    }
                    let c = items[i].deep_copy();
                    let ghost before = out@;
                    out.push(c);
                    proof {
                        assert(items@.take(i + 1).drop_last() =~= items@.take(i as int));
                        assert(out@.drop_last() =~= before);
                    }
                    i = i + 1;
                }
                proof {
                    assert(items@.take(n as int) =~= items@);
                    lemma_all_well_formed(items@);
                    lemma_all_well_formed(out@);
                    if self.well_formed() {
                        assert forall|j: int| 0 <= j < out@.len() implies #[trigger] out@[j].well_formed() by {
                            assert(items@[j].well_formed());
                        }
                        assert(all_well_formed(out@));
                    }
                }
                let r = JsonValue::Array(out);
                assert(self.well_formed() ==> r.well_formed());
                r
            },
            JsonValue::Object(entries) => {
                let n = entries.len();
                let mut out: Vec<(String, JsonValue)> = Vec::new();
                let mut i: usize = 0;
                assert(entries@.take(0) =~= Seq::<(String, JsonValue)>::empty());
                while i < n
                    invariant
                        n == entries@.len(),
                        i <= n,
                        *self == JsonValue::Object(*entries),
                        out@.len() == i,
                        entries_map(out@) == entries_map(entries@.take(i as int)),
                        forall|j: int| 0 <= j < i ==> #[trigger] out@[j].0@ == entries@[j].0@,
                        forall|j: int|
                            0 <= j < i ==> (#[trigger] entries@[j].1.well_formed()
                                ==> out@[j].1.well_formed()),
                    decreases n - i,
                {
                    proof {
                        assert(decreases_to!(*self => self->Object_0));
                        assert(decreases_to!(*entries => entries@));
                        assert(decreases_to!(entries@ => entries@[i as int]));
                        assert(decreases_to!(entries@[i as int] => entries@[i as int].1));
                        assert(decreases_to!(*self => entries@[i as int].1));
                    }
                    let k = entries[i].0.clone();
                    let c = entries[i].1.deep_copy();
                    let ghost before = out@;
                    out.push((k, c));
                    proof {
                        assert(entries@.take(i + 1).drop_last() =~= entries@.take(i as int));
                        lemma_entries_map_push(before, (k, c));
                        assert(out@ == before.push((k, c)));
                    }
                    i = i + 1;
                }
                proof {
                    assert(entries@.take(n as int) =~= entries@);
                    lemma_entries_well_formed(entries@);
                    lemma_entries_well_formed(out@);
                    if keys_distinct(entries@) {
                        assert forall|a: int, b: int| 0 <= a < b < out@.len() implies out@[a].0@
                            != out@[b].0@ by {
                            assert(out@[a].0@ == entries@[a].0@);
                            assert(out@[b].0@ == entries@[b].0@);
                        }
                    }
                    if self.well_formed() {
                        assert forall|j: int| 0 <= j < out@.len() implies #[trigger] out@[j].1.well_formed() by {
                            assert(entries@[j].1.well_formed());
                        }
                        assert(entries_well_formed(out@));
                    }
                }
                let r = JsonValue::Object(out);
                assert(self.well_formed() ==> r.well_formed());
                r
            },
        }
    }
}

impl JsonValue {
    /// A JSON number from what a parser reports of it: its value as a `u64`
    /// when it is one, else as an `i64` when it is one, else its decimal text.
    pub fn number_from_parts(as_u64: Option<u64>, as_i64: Option<i64>, text: String) -> (r: JsonValue)
        ensures
            r.tree() == match (as_u64, as_i64) {
                (Some(u), _) => JsonTree::UInt(u),
                (None, Some(i)) => JsonTree::Int(i),
                (None, None) => JsonTree::Float(text@),
            },
    {
        match (as_u64, as_i64) {
            (Some(u), _) => JsonValue::UInt(u),
            (None, Some(i)) => JsonValue::Int(i),
            (None, None) => JsonValue::Float(text),
        }
    }
}

} // verus!
