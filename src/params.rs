//! A map of named query parameters whose values are held as query text.
use vstd::prelude::*;

use vstd::utf8::*;

use crate::form::{
    encode_pairs, encode_query, lemma_query_round_trip, pairs_view, parse_query, query_text, utf8_pairs,
};
use crate::text::{decimal_string, decimal_text};

verus! {

/// No key occurs twice.
pub open spec fn keys_distinct(ps: Seq<(Seq<char>, Seq<char>)>) -> bool {
    forall|i: int, j: int| 0 <= i < j < ps.len() ==> #[trigger] ps[i].0 != #[trigger] ps[j].0
}

/// The map that a sequence of entries describes; a later entry wins.
pub open spec fn pairs_map(ps: Seq<(Seq<char>, Seq<char>)>) -> Map<Seq<char>, Seq<char>>
    decreases ps.len(),
{
    if ps.len() == 0 {
        Map::empty()
    } else {
        pairs_map(ps.drop_last()).insert(ps.last().0, ps.last().1)
    }
}

/// The entries without those under `key`, in order.
pub open spec fn without_key(ps: Seq<(Seq<char>, Seq<char>)>, key: Seq<char>) -> Seq<
    (Seq<char>, Seq<char>),
>
    decreases ps.len(),
{
    if ps.len() == 0 {
        seq![]
    } else if ps.last().0 == key {
        without_key(ps.drop_last(), key)
    } else {
        without_key(ps.drop_last(), key).push(ps.last())
    }
}

/// The query text of a boolean.
pub open spec fn bool_text(b: bool) -> Seq<char> {
    if b {
        seq!['t', 'r', 'u', 'e']
    } else {
        seq!['f', 'a', 'l', 's', 'e']
    }
}

/// Each entry of a distinct-keyed sequence is in its map.
pub proof fn lemma_pairs_map_has(ps: Seq<(Seq<char>, Seq<char>)>, i: int)
    requires
        keys_distinct(ps),
        0 <= i < ps.len(),
    ensures
        pairs_map(ps).contains_key(ps[i].0),
        pairs_map(ps)[ps[i].0] == ps[i].1,
    decreases ps.len(),
{
    let pre = ps.drop_last();
    if i < ps.len() - 1 {
        lemma_subrange_distinct(ps, ps.len() - 1);
        assert(pre =~= ps.subrange(0, ps.len() - 1));
        assert(ps[i] == pre[i]);
        assert(ps[i].0 != ps[ps.len() - 1].0);
        lemma_pairs_map_has(pre, i);
    }
}

/// A key of the map is the key of some entry.
pub proof fn lemma_pairs_map_key(ps: Seq<(Seq<char>, Seq<char>)>, k: Seq<char>) -> (i: int)
    requires
        pairs_map(ps).contains_key(k),
    ensures
        0 <= i < ps.len(),
        ps[i].0 == k,
    decreases ps.len(),
{
    let pre = ps.drop_last();
    if k == ps.last().0 {
        ps.len() - 1
    } else {
        let j = lemma_pairs_map_key(pre, k);
        assert(ps[j] == pre[j]);
        j
    }
}

proof fn lemma_subrange_distinct(ps: Seq<(Seq<char>, Seq<char>)>, n: int)
    requires
        keys_distinct(ps),
        0 <= n <= ps.len(),
    ensures
        keys_distinct(ps.subrange(0, n)),
{
    let s = ps.subrange(0, n);
    assert forall|i: int, j: int| 0 <= i < j < s.len() implies #[trigger] s[i].0
        != #[trigger] s[j].0 by {
        assert(s[i] == ps[i] && s[j] == ps[j]);
    }
}

/// Named query parameters, each key at most once, kept in the order in
/// which the keys were first set.
pub struct ParameterMap {
    entries: Vec<(String, String)>,
}

impl View for ParameterMap {
    type V = Map<Seq<char>, Seq<char>>;

    open spec fn view(&self) -> Map<Seq<char>, Seq<char>> {
        pairs_map(self.entries())
    }
}

impl ParameterMap {
    /// The entries as text, in order.
    pub closed spec fn entries(&self) -> Seq<(Seq<char>, Seq<char>)> {
        pairs_view(self.entries@)
    }

    /// Keys are unique.
    pub open spec fn wf(&self) -> bool {
        keys_distinct(self.entries())
    }

    /// An empty map.
    pub fn new() -> (r: Self)
        ensures
            r.wf(),
            r.entries() == Seq::<(Seq<char>, Seq<char>)>::empty(),
            r@ == Map::<Seq<char>, Seq<char>>::empty(),
    {
        let r = ParameterMap { entries: Vec::new() };
        assert(r.entries() =~= Seq::<(Seq<char>, Seq<char>)>::empty());
        r
    }

    /// The number of entries.
    pub fn len(&self) -> (r: usize)
        ensures
            r == self.entries().len(),
    {
        self.entries.len()
    }

    /// The value under `key`, if any.
    pub fn get(&self, key: &str) -> (r: Option<String>)
        requires
            self.wf(),
        ensures
            r is Some <==> self@.contains_key(key@),
            r matches Some(v) ==> v@ == self@[key@],
    {
        let k = key.to_owned();
        let mut i: usize = 0;
        while i < self.entries.len()
            invariant
                0 <= i <= self.entries@.len(),
                self.wf(),
                k@ == key@,
                forall|j: int| 0 <= j < i ==> self.entries()[j].0 != key@,
            decreases self.entries@.len() - i,
        {
            assert(self.entries()[i as int] == (self.entries@[i as int].0@, self.entries@[i as int].1@));
            if self.entries[i].0 == k {
                proof {
                    lemma_pairs_map_has(self.entries(), i as int);
                }
                return Some(self.entries[i].1.clone());
            }
            i += 1;
        }
        proof {
            if self@.contains_key(key@) {
                let j = lemma_pairs_map_key(self.entries(), key@);
            }
        }
        None
    }

    /// Sets `key` to `value`: an entry under `key` is replaced in place,
    /// otherwise the entry is appended.
    pub fn insert(&mut self, key: &str, value: String)
        requires
            old(self).wf(),
        ensures
            final(self).wf(),
            final(self)@ == old(self)@.insert(key@, value@),
            old(self)@.contains_key(key@) ==> exists|i: int|
                0 <= i < old(self).entries().len() && old(self).entries()[i].0 == key@
                    && final(self).entries() == old(self).entries().update(i, (key@, value@)),
            !old(self)@.contains_key(key@) ==> final(self).entries() == old(self).entries().push(
                (key@, value@),
            ),
    {
        let ghost ps = self.entries();
        let k = key.to_owned();
        let mut i: usize = 0;
        while i < self.entries.len()
            invariant
                0 <= i <= self.entries@.len(),
                k@ == key@,
                self.entries() == ps,
                ps == old(self).entries(),
                keys_distinct(ps),
                forall|j: int| 0 <= j < i ==> ps[j].0 != key@,
            decreases self.entries@.len() - i,
        {
            assert(ps[i as int] == (self.entries@[i as int].0@, self.entries@[i as int].1@));
            if self.entries[i].0 == k {
                self.entries.set(i, (k, value));
                proof {
                    let qs = self.entries();
                    assert(qs =~= ps.update(i as int, (key@, value@)));
                    assert forall|a: int, b: int| 0 <= a < b < qs.len() implies #[trigger] qs[a].0
                        != #[trigger] qs[b].0 by {
                        assert(qs[a].0 == ps[a].0 && qs[b].0 == ps[b].0);
                    }
                    let m = pairs_map(ps).insert(key@, value@);
                    assert forall|x: Seq<char>| #[trigger] self@.contains_key(x) implies m.contains_key(
                        x,
                    ) && self@[x] == m[x] by {
                        let j = lemma_pairs_map_key(qs, x);
                        lemma_pairs_map_has(qs, j);
                        assert(qs[i as int].0 == key@);
                        if j != i {
                            assert(qs[j] == ps[j]);
                            lemma_pairs_map_has(ps, j);
                        }
                    }
                    assert forall|x: Seq<char>| #[trigger] m.contains_key(x) implies self@.contains_key(
                        x,
                    ) by {
                        if x != key@ {
                            let j = lemma_pairs_map_key(ps, x);
                            assert(qs[j] == ps[j]);
                            lemma_pairs_map_has(qs, j);
                        } else {
                            lemma_pairs_map_has(qs, i as int);
                        }
                    }
                    assert(self@ =~= m);
                    assert(ps[i as int].0 == key@);
                    lemma_pairs_map_has(ps, i as int);
                    assert(self.entries() == ps.update(i as int, (key@, value@)));
                }
                return ;
            }
            i += 1;
        }
        self.entries.push((k, value));
        proof {
            let qs = self.entries();
            assert(qs =~= ps.push((key@, value@)));
            assert(qs.drop_last() =~= ps);
            if pairs_map(ps).contains_key(key@) {
                let j = lemma_pairs_map_key(ps, key@);
            }
            assert forall|a: int, b: int| 0 <= a < b < qs.len() implies #[trigger] qs[a].0
                != #[trigger] qs[b].0 by {
                assert(qs[a].0 == ps[a].0);
                if b < ps.len() {
                    assert(qs[b].0 == ps[b].0);
                }
            }
        }
    }

    /// Sets `key` to the text `value` when there is one; with none the map
    /// is left as it was.
    pub fn set_text(&mut self, key: &str, value: Option<&str>)
        requires
            old(self).wf(),
        ensures
            final(self).wf(),
            value is None ==> *final(self) == *old(self),
            value matches Some(v) ==> final(self)@ == old(self)@.insert(key@, v@),
    {
        if let Some(v) = value {
            self.insert(key, v.to_owned());
        }
    }

    /// Sets `key` to the decimal form of `value` when there is one; with
    /// none the map is left as it was.
    pub fn set_number(&mut self, key: &str, value: Option<u64>)
        requires
            old(self).wf(),
        ensures
            final(self).wf(),
            value is None ==> *final(self) == *old(self),
            value matches Some(n) ==> final(self)@ == old(self)@.insert(key@, decimal_text(n as nat)),
    {
        if let Some(n) = value {
            self.insert(key, decimal_string(n));
        }
    }

    /// Sets `key` to `true` or `false` when there is a value; with none the
    /// map is left as it was.
    pub fn set_flag(&mut self, key: &str, value: Option<bool>)
        requires
            old(self).wf(),
        ensures
            final(self).wf(),
            value is None ==> *final(self) == *old(self),
            value matches Some(b) ==> final(self)@ == old(self)@.insert(key@, bool_text(b)),
    {
        if let Some(b) = value {
            let text = if b {
                proof { reveal_strlit("true"); }
                "true".to_owned()
            } else {
                proof { reveal_strlit("false"); }
                "false".to_owned()
            };
            assert(text@ =~= bool_text(b));
            self.insert(key, text);
        }
    }

    /// The entries as owned pairs, in order.
    pub fn pairs(&self) -> (r: Vec<(String, String)>)
        ensures
            pairs_view(r@) == self.entries(),
    {
        let mut out: Vec<(String, String)> = Vec::new();
        let mut i: usize = 0;
        while i < self.entries.len()
            invariant
                0 <= i <= self.entries@.len(),
                out@.len() == i,
                pairs_view(out@) == self.entries().subrange(0, i as int),
            decreases self.entries@.len() - i,
        {
            let ghost before = out@;
            let k = self.entries[i].0.clone();
            let v = self.entries[i].1.clone();
            out.push((k, v));
            assert(out@ == before.push((k, v)));
            assert(self.entries()[i as int] == (k@, v@));
            assert forall|j: int| 0 <= j < i implies pairs_view(out@)[j] == pairs_view(before)[j] by {
                assert(out@[j] == before[j]);
            }
            assert(pairs_view(out@) =~= self.entries().subrange(0, i as int + 1));
            i += 1;
        }
        assert(self.entries().subrange(0, i as int) =~= self.entries());
        out
    }

    /// The query string of the entries, in order.
    pub fn to_query(&self) -> (r: String)
        ensures
            r@ == query_text(self.entries()),
            encode_utf8(r@) == encode_pairs(utf8_pairs(self.entries())),
    {
        encode_query(&self.entries)
    }
}

/// The pairs that the query string of a map parses back to.
pub open spec fn reparsed(m: ParameterMap) -> Seq<(Seq<u8>, Seq<u8>)> {
    parse_query(encode_pairs(utf8_pairs(m.entries())))
}

/// Encoding a parameter map as a query string and parsing the string back
/// yields exactly the map's key-value pairs, as UTF-8 bytes: one parsed pair
/// for each entry, every parsed pair an entry of the map, every entry of the
/// map among the parsed pairs.
pub proof fn lemma_parameter_map_round_trip(m: ParameterMap)
    requires
        m.wf(),
    ensures
        reparsed(m).len() == m@.dom().len(),
        forall|i: int|
            0 <= i < reparsed(m).len() ==> exists|k: Seq<char>|
                m@.contains_key(k) && #[trigger] reparsed(m)[i] == (encode_utf8(k), encode_utf8(m@[k])),
        forall|k: Seq<char>| #[trigger]
            m@.contains_key(k) ==> exists|i: int|
                0 <= i < reparsed(m).len() && reparsed(m)[i] == (encode_utf8(k), encode_utf8(m@[k])),
{
    let es = m.entries();
    let parsed = reparsed(m);
    lemma_query_round_trip(utf8_pairs(es));
    assert(parsed == utf8_pairs(es));
    assert forall|i: int| 0 <= i < parsed.len() implies exists|k: Seq<char>|
        m@.contains_key(k) && #[trigger] parsed[i] == (encode_utf8(k), encode_utf8(m@[k])) by {
        lemma_pairs_map_has(es, i);
        assert(m@.contains_key(es[i].0));
    }
    assert forall|k: Seq<char>| #[trigger] m@.contains_key(k) implies exists|i: int|
        0 <= i < parsed.len() && parsed[i] == (encode_utf8(k), encode_utf8(m@[k])) by {
        let i = lemma_pairs_map_key(es, k);
        lemma_pairs_map_has(es, i);
        assert(parsed[i] == (encode_utf8(k), encode_utf8(m@[k])));
    }
    lemma_pairs_map_len(es);
}

/// A distinct-keyed sequence has as many keys in its map as entries.
pub proof fn lemma_pairs_map_len(ps: Seq<(Seq<char>, Seq<char>)>)
    requires
        keys_distinct(ps),
    ensures
        pairs_map(ps).dom().finite(),
        pairs_map(ps).dom().len() == ps.len(),
    decreases ps.len(),
{
    if ps.len() > 0 {
        let pre = ps.drop_last();
        lemma_subrange_distinct(ps, ps.len() - 1);
        assert(pre =~= ps.subrange(0, ps.len() - 1));
        lemma_pairs_map_len(pre);
        if pairs_map(pre).contains_key(ps.last().0) {
            let j = lemma_pairs_map_key(pre, ps.last().0);
            assert(pre[j] == ps[j]);
        }
    }
}

} // verus!
