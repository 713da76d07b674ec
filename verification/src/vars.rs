//! `Vars`: the working dictionary of one run, a finite map from variable
//! names to values, both plain text.

use vstd::prelude::*;
use crate::text::same_text;

verus! {

/// A pair of strings seen as a pair of character sequences.
pub open spec fn pair_view(p: (String, String)) -> (Seq<char>, Seq<char>) {
    (p.0@, p.1@)
}

/// A list of string pairs seen as a list of pairs of character sequences.
pub open spec fn pairs_view(s: Seq<(String, String)>) -> Seq<(Seq<char>, Seq<char>)> {
    s.map_values(|p: (String, String)| pair_view(p))
}

/// No name occurs twice in the list.
pub open spec fn distinct_names(s: Seq<(Seq<char>, Seq<char>)>) -> bool {
    forall|i: int, j: int| 0 <= i < j < s.len() ==> s[i].0 != s[j].0
}

/// Whether some pair of the list carries the name `k`.
pub open spec fn names(s: Seq<(Seq<char>, Seq<char>)>, k: Seq<char>) -> bool {
    exists|i: int| 0 <= i < s.len() && #[trigger] s[i].0 == k
}

/// The map that results from writing the pairs of the list in order, a later
/// pair replacing an earlier one of the same name.
pub open spec fn written(s: Seq<(Seq<char>, Seq<char>)>) -> Map<Seq<char>, Seq<char>>
    decreases s.len(),
{
    if s.len() == 0 {
        Map::empty()
    } else {
        written(s.drop_last()).insert(s.last().0, s.last().1)
    }
}

/// `written` holds exactly the names of its list.
pub proof fn lemma_written_names(s: Seq<(Seq<char>, Seq<char>)>, k: Seq<char>)
    ensures
        written(s).contains_key(k) <==> names(s, k),
    decreases s.len(),
{
    if s.len() > 0 {
        let t = s.drop_last();
        lemma_written_names(t, k);
        if names(t, k) {
            let i = choose|i: int| 0 <= i < t.len() && #[trigger] t[i].0 == k;
            assert(s[i].0 == k);
        }
        if names(s, k) {
            let i = choose|i: int| 0 <= i < s.len() && #[trigger] s[i].0 == k;
            if i < t.len() {
                assert(t[i].0 == k);
            }
        }
    }
}

/// In a list without repeated names, `written` gives each name the value that
/// stands beside it.
pub proof fn lemma_written_value(s: Seq<(Seq<char>, Seq<char>)>, i: int)
    requires
        distinct_names(s),
        0 <= i < s.len(),
    ensures
        written(s).contains_key(s[i].0),
        written(s)[s[i].0] == s[i].1,
    decreases s.len(),
{
    let t = s.drop_last();
    if i < s.len() - 1 {
        assert(distinct_names(t));
        lemma_written_value(t, i);
        assert(t[i] == s[i]);
        assert(s[i].0 != s.last().0);
    }
}

/// What `written` makes of a list with one more pair at its end.
pub proof fn lemma_written_push(s: Seq<(Seq<char>, Seq<char>)>, p: (Seq<char>, Seq<char>))
    ensures
        written(s.push(p)) == written(s).insert(p.0, p.1),
{
    assert(s.push(p).drop_last() == s);
}

/// Replacing the value of pair `i` in a list without repeated names writes
/// that name anew and leaves the rest.
pub proof fn lemma_written_update(s: Seq<(Seq<char>, Seq<char>)>, i: int, v: Seq<char>)
    requires
        distinct_names(s),
        0 <= i < s.len(),
    ensures
        distinct_names(s.update(i, (s[i].0, v))),
        written(s.update(i, (s[i].0, v))) == written(s).insert(s[i].0, v),
{
    let u = s.update(i, (s[i].0, v));
    assert(distinct_names(u)) by {
        assert forall|a: int, b: int| 0 <= a < b < u.len() implies u[a].0 != u[b].0 by {
            assert(u[a].0 == s[a].0);
            assert(u[b].0 == s[b].0);
        }
    }
    let m = written(s).insert(s[i].0, v);
    assert forall|k: Seq<char>| written(u).contains_key(k) <==> m.contains_key(k) by {
        lemma_written_names(u, k);
        lemma_written_names(s, k);
        if names(u, k) {
            let a = choose|a: int| 0 <= a < u.len() && #[trigger] u[a].0 == k;
            assert(s[a].0 == k);
        }
        if names(s, k) {
            let a = choose|a: int| 0 <= a < s.len() && #[trigger] s[a].0 == k;
            assert(u[a].0 == k);
        }
        if k == s[i].0 {
            assert(u[i].0 == k);
        }
    }
    assert forall|k: Seq<char>| written(u).contains_key(k) implies written(u)[k] == m[k] by {
        lemma_written_names(u, k);
        let a = choose|a: int| 0 <= a < u.len() && #[trigger] u[a].0 == k;
        lemma_written_value(u, a);
        if a != i {
            lemma_written_value(s, a);
            assert(s[a].0 != s[i].0);
        }
    }
    assert(written(u) =~= m);
}

/// The working dictionary. Names are unique; writing a name that is present
/// replaces its value.
#[derive(Debug)]
pub struct Vars {
    entries: Vec<(String, String)>,
}

impl View for Vars {
    type V = Map<Seq<char>, Seq<char>>;

    open spec fn view(&self) -> Map<Seq<char>, Seq<char>> {
        written(self.listing())
    }
}

impl Vars {
    #[verifier::type_invariant]
    spec fn well_formed(self) -> bool {
        distinct_names(pairs_view(self.entries@))
    }

    /// The pairs in the order in which their names were first written.
    pub closed spec fn listing(self) -> Seq<(Seq<char>, Seq<char>)> {
        pairs_view(self.entries@)
    }

    /// An empty dictionary.
    pub fn new() -> (vars: Vars)
        ensures
            vars@ == Map::<Seq<char>, Seq<char>>::empty(),
            vars.listing() == Seq::<(Seq<char>, Seq<char>)>::empty(),
    {
        let vars = Vars { entries: Vec::new() };
        assert(pairs_view(vars.entries@) =~= Seq::empty());
        vars
    }

    /// The position of `key` in the listing, if it is present.
    fn position(&self, key: &str) -> (r: Option<usize>)
        ensures
            match r {
                Some(i) => i < self.listing().len() && self.listing()[i as int].0 == key@,
                None => !names(self.listing(), key@),
            },
    {
        let mut i: usize = 0;
        while i < self.entries.len()
            invariant
                i <= self.entries.len(),
                forall|j: int| 0 <= j < i ==> pairs_view(self.entries@)[j].0 != key@,
            decreases self.entries.len() - i,
        {
            if same_text(self.entries[i].0.as_str(), key) {
                return Some(i);
            }
            i += 1;
        }
        None
    }

    /// The dictionary that results from writing the pairs of `pairs` in
    /// order.
    pub fn from_pairs(pairs: Vec<(String, String)>) -> (vars: Vars)
        ensures
            vars@ == written(pairs_view(pairs@)),
    {
        let mut vars = Vars::new();
        let ghost all = pairs_view(pairs@);
        let mut i: usize = 0;
        assert(all.take(0) =~= Seq::empty());
        while i < pairs.len()
            invariant
                i <= pairs.len(),
                all == pairs_view(pairs@),
                vars@ == written(all.take(i as int)),
            decreases pairs.len() - i,
        {
            let k = pairs[i].0.clone();
            let v = pairs[i].1.clone();
            proof {
                assert(all.take(i + 1) =~= all.take(i as int).push(all[i as int]));
                lemma_written_push(all.take(i as int), all[i as int]);
            }
            vars.insert(k, v);
            i += 1;
        }
        assert(all.take(i as int) =~= all);
        vars
    }

    /// The number of names.
    pub fn len(&self) -> (n: usize)
        ensures
            n == self@.dom().len(),
            n == self.listing().len(),
    {
        proof {
            use_type_invariant(self);
            lemma_written_len(self.listing());
        }
        self.entries.len()
    }

    /// Whether no name is present.
    pub fn is_empty(&self) -> (b: bool)
        ensures
            b == (self@ == Map::<Seq<char>, Seq<char>>::empty()),
    {
        proof {
            use_type_invariant(self);
            lemma_written_len(self.listing());
            if self.listing().len() == 0 {
                assert(self@ =~= Map::empty());
            } else {
                lemma_written_value(self.listing(), 0);
            }
        }
        self.entries.len() == 0
    }

    /// Whether `key` is present.
    pub fn contains_key(&self, key: &str) -> (b: bool)
        ensures
            b == self@.contains_key(key@),
    {
        proof {
            lemma_written_names(self.listing(), key@);
        }
        self.position(key).is_some()
    }

    /// The value of `key`, if it is present.
    pub fn get(&self, key: &str) -> (r: Option<&String>)
        ensures
            match r {
                Some(v) => self@.contains_key(key@) && v@ == self@[key@],
                None => !self@.contains_key(key@),
            },
    {
        proof {
            use_type_invariant(self);
            lemma_written_names(self.listing(), key@);
        }
        match self.position(key) {
            Some(i) => {
                proof {
                    lemma_written_value(self.listing(), i as int);
                }
                Some(&self.entries[i].1)
            },
            None => None,
        }
    }

    /// Writes `value` under `key` and returns the value that stood there.
    pub fn insert(&mut self, key: String, value: String) -> (previous: Option<String>)
        ensures
            final(self)@ == old(self)@.insert(key@, value@),
            match previous {
                Some(v) => old(self)@.contains_key(key@) && v@ == old(self)@[key@],
                None => !old(self)@.contains_key(key@),
            },
            old(self)@.contains_key(key@) ==> final(self).listing().len() == old(self).listing().len(),
            !old(self)@.contains_key(key@) ==> final(self).listing() == old(self).listing().push(
                (key@, value@),
            ),
    {
        proof {
            use_type_invariant(&*self);
            lemma_written_names(self.listing(), key@);
        }
        let ghost before = pairs_view(self.entries@);
        match self.position(key.as_str()) {
            Some(i) => {
                proof {
                    lemma_written_value(before, i as int);
                    lemma_written_update(before, i as int, value@);
                }
                let mut entries: Vec<(String, String)> = Vec::new();
                assert(pairs_view(entries@) =~= Seq::empty());
                std::mem::swap(&mut self.entries, &mut entries);
                let mut slot = (key, value);
                let ghost put = slot;
                std::mem::swap(&mut slot, &mut entries[i]);
                assert(pairs_view(entries@) =~= before.update(
                    i as int,
                    (before[i as int].0, put.1@),
                ));
                std::mem::swap(&mut self.entries, &mut entries);
                Some(slot.1)
            },
            None => {
                proof {
                    lemma_written_push(before, (key@, value@));
                }
                let mut entries: Vec<(String, String)> = Vec::new();
                assert(pairs_view(entries@) =~= Seq::empty());
                std::mem::swap(&mut self.entries, &mut entries);
                entries.push((key, value));
                assert(pairs_view(entries@) =~= before.push((key@, value@)));
                assert(distinct_names(pairs_view(entries@))) by {
                    let now = pairs_view(entries@);
                    assert forall|a: int, b: int| 0 <= a < b < now.len() implies now[a].0
                        != now[b].0 by {
                        if b == now.len() - 1 {
                            assert(before[a].0 != key@);
                        } else {
                            assert(before[a].0 != before[b].0);
                        }
                    }
                }
                std::mem::swap(&mut self.entries, &mut entries);
                None
            },
        }
    }

    /// Writes every pair of `other` into the dictionary, replacing the values
    /// of names that are present.
    pub fn extend(&mut self, other: Vars)
        ensures
            final(self)@ == old(self)@.union_prefer_right(other@),
    {
        let ghost start = self@;
        let ghost list = other.listing();
        assert(list.take(0) =~= Seq::empty());
        assert(start.union_prefer_right(Map::empty()) =~= start);
        let mut i: usize = 0;
        while i < other.entries.len()
            invariant
                i <= other.entries.len(),
                list == pairs_view(other.entries@),
                self@ == start.union_prefer_right(written(list.take(i as int))),
            decreases other.entries.len() - i,
        {
            let k = other.entries[i].0.clone();
            let v = other.entries[i].1.clone();
            proof {
                let w = written(list.take(i as int));
                assert(list.take(i + 1) =~= list.take(i as int).push(list[i as int]));
                lemma_written_push(list.take(i as int), list[i as int]);
                assert(start.union_prefer_right(w.insert(k@, v@)) =~= start.union_prefer_right(
                    w,
                ).insert(k@, v@));
            }
            self.insert(k, v);
            i += 1;
        }
        assert(list.take(i as int) =~= list);
    }

    /// The pairs of the dictionary, each name once.
    pub fn pairs(&self) -> (list: Vec<(String, String)>)
        ensures
            pairs_view(list@) == self.listing(),
            distinct_names(self.listing()),
    {
        proof {
            use_type_invariant(self);
        }
        let mut list: Vec<(String, String)> = Vec::new();
        let mut i: usize = 0;
        while i < self.entries.len()
            invariant
                i <= self.entries.len(),
                pairs_view(list@) == pairs_view(self.entries@).take(i as int),
            decreases self.entries.len() - i,
        {
            let k = self.entries[i].0.clone();
            let v = self.entries[i].1.clone();
            let ghost prior = list@;
            list.push((k, v));
            assert(list@ == prior.push((k, v)));
            assert(pair_view((k, v)) == pairs_view(self.entries@)[i as int]);
            assert(pairs_view(self.entries@).take(i + 1) =~= pairs_view(self.entries@).take(
                i as int,
            ).push(pairs_view(self.entries@)[i as int]));
            assert(pairs_view(list@) =~= pairs_view(prior).push(pair_view((k, v))));
            i += 1;
        }
        assert(pairs_view(self.entries@).take(i as int) =~= pairs_view(self.entries@));
        list
    }
}

impl Clone for Vars {
    fn clone(&self) -> (copy: Vars)
        ensures
            copy@ == self@,
            copy.listing() == self.listing(),
    {
        proof {
            use_type_invariant(self);
        }
        Vars { entries: self.pairs() }
    }
}

/// `written` has a finite domain.
pub proof fn lemma_written_finite(s: Seq<(Seq<char>, Seq<char>)>)
    ensures
        written(s).dom().finite(),
    decreases s.len(),
{
    if s.len() > 0 {
        lemma_written_finite(s.drop_last());
    }
}

/// A list without repeated names writes as many names as it is long.
pub proof fn lemma_written_len(s: Seq<(Seq<char>, Seq<char>)>)
    requires
        distinct_names(s),
    ensures
        written(s).dom().finite(),
        written(s).dom().len() == s.len(),
    decreases s.len(),
{
    lemma_written_finite(s);
    if s.len() > 0 {
        let t = s.drop_last();
        assert(distinct_names(t));
        lemma_written_len(t);
        lemma_written_names(t, s.last().0);
        if names(t, s.last().0) {
            let i = choose|i: int| 0 <= i < t.len() && #[trigger] t[i].0 == s.last().0;
            assert(s[i].0 == s[s.len() - 1].0);
        }
    }
}

} // verus!
