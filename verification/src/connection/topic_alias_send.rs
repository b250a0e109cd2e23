use vstd::prelude::*;

verus! {

/// One registered topic alias: the alias and the topic it stands for.
#[derive(Debug)]
struct AliasEntry {
    alias: u16,
    topic: String,
}

/// The entries of `es` as (alias, topic) pairs, in order.
pub open spec fn alias_pairs(es: Seq<(u16, Seq<char>)>) -> Map<u16, Seq<char>> {
    Map::new(
        |a: u16| exists|i: int| 0 <= i < es.len() && es[i].0 == a,
        |a: u16| es[choose|i: int| 0 <= i < es.len() && es[i].0 == a].1,
    )
}

/// Topic aliases for sending: which alias stands for which topic, ordered
/// from the least to the most recently used.
#[derive(Debug)]
pub struct TopicAliasSend {
    max: u16,
    entries: Vec<AliasEntry>,
}

/// The (alias, topic) pairs of the entries, least recently used first.
spec fn entry_view(es: Seq<AliasEntry>) -> Seq<(u16, Seq<char>)> {
    es.map_values(|e: AliasEntry| (e.alias, e.topic@))
}

/// No alias and no topic occurs twice, and every alias is in `1..=max`.
pub open spec fn alias_entries_wf(es: Seq<(u16, Seq<char>)>, max: u16) -> bool {
    &&& forall|i: int| 0 <= i < es.len() ==> 1 <= #[trigger] es[i].0 <= max
    &&& forall|i: int, j: int| 0 <= i < j < es.len() ==> #[trigger] es[i].0 != #[trigger] es[j].0
    &&& forall|i: int, j: int| 0 <= i < j < es.len() ==> #[trigger] es[i].1 != #[trigger] es[j].1
}

/// The entries without those for `alias` or for `topic`, the others in order.
pub open spec fn without_alias_or_topic(es: Seq<(u16, Seq<char>)>, alias: u16, topic: Seq<char>) -> Seq<(u16, Seq<char>)>
    decreases es.len(),
{
    if es.len() == 0 {
        es
    } else {
        let r = without_alias_or_topic(es.drop_last(), alias, topic);
        if es.last().0 != alias && es.last().1 != topic {
            r.push(es.last())
        } else {
            r
        }
    }
}

proof fn lemma_without_elements(es: Seq<(u16, Seq<char>)>, alias: u16, topic: Seq<char>)
    ensures
        forall|x: (u16, Seq<char>)| #[trigger] without_alias_or_topic(es, alias, topic).contains(x) ==> es.contains(x)
            && x.0 != alias && x.1 != topic,
    decreases es.len(),
{
    if es.len() > 0 {
        lemma_without_elements(es.drop_last(), alias, topic);
        let r = without_alias_or_topic(es.drop_last(), alias, topic);
        assert forall|x: (u16, Seq<char>)| #[trigger] without_alias_or_topic(es, alias, topic).contains(x) implies es.contains(x)
            && x.0 != alias && x.1 != topic by {
            if r.contains(x) {
                let k = choose|k: int| 0 <= k < es.drop_last().len() && es.drop_last()[k] == x;
                assert(es[k] == x);
            } else {
                assert(x == es.last());
                assert(es[es.len() - 1] == x);
            }
        }
    }
}

proof fn lemma_without_wf(es: Seq<(u16, Seq<char>)>, alias: u16, topic: Seq<char>, max: u16)
    requires
        alias_entries_wf(es, max),
    ensures
        alias_entries_wf(without_alias_or_topic(es, alias, topic), max),
        forall|i: int| 0 <= i < without_alias_or_topic(es, alias, topic).len() ==> (#[trigger] without_alias_or_topic(es, alias, topic)[i]).0 != alias
            && without_alias_or_topic(es, alias, topic)[i].1 != topic,
    decreases es.len(),
{
    let r = without_alias_or_topic(es, alias, topic);
    lemma_without_elements(es, alias, topic);
    assert forall|i: int| 0 <= i < r.len() implies (#[trigger] r[i]).0 != alias && r[i].1 != topic by {
        assert(r.contains(r[i]));
    }
    if es.len() > 0 {
        let d = es.drop_last();
        assert(alias_entries_wf(d, max)) by {
            assert forall|i: int, j: int| 0 <= i < j < d.len() implies #[trigger] d[i].0 != #[trigger] d[j].0 by {
                assert(d[i] == es[i] && d[j] == es[j]);
            }
            assert forall|i: int, j: int| 0 <= i < j < d.len() implies #[trigger] d[i].1 != #[trigger] d[j].1 by {
                assert(d[i] == es[i] && d[j] == es[j]);
            }
            assert forall|i: int| 0 <= i < d.len() implies 1 <= #[trigger] d[i].0 <= max by {
                assert(d[i] == es[i]);
            }
        }
        lemma_without_wf(d, alias, topic, max);
        let rd = without_alias_or_topic(d, alias, topic);
        lemma_without_elements(d, alias, topic);
        if es.last().0 != alias && es.last().1 != topic {
            let l = es.last();
            assert forall|i: int| 0 <= i < rd.len() implies #[trigger] rd[i].0 != l.0 && rd[i].1 != l.1 by {
                assert(rd.contains(rd[i]));
                let k = choose|k: int| 0 <= k < d.len() && d[k] == rd[i];
                assert(es[k] == rd[i]);
                assert(es[es.len() - 1] == l);
            }
            assert forall|i: int, j: int| 0 <= i < j < r.len() implies #[trigger] r[i].0 != #[trigger] r[j].0 by {
                if j == r.len() - 1 {
                    assert(r[i] == rd[i]);
                } else {
                    assert(r[i] == rd[i] && r[j] == rd[j]);
                }
            }
            assert forall|i: int, j: int| 0 <= i < j < r.len() implies #[trigger] r[i].1 != #[trigger] r[j].1 by {
                if j == r.len() - 1 {
                    assert(r[i] == rd[i]);
                } else {
                    assert(r[i] == rd[i] && r[j] == rd[j]);
                }
            }
            assert forall|i: int| 0 <= i < r.len() implies 1 <= #[trigger] r[i].0 <= max by {
                if i < rd.len() {
                    assert(r[i] == rd[i]);
                } else {
                    assert(es[es.len() - 1] == l);
                }
            }
        }
    }
}

proof fn lemma_wf_push(es: Seq<(u16, Seq<char>)>, alias: u16, topic: Seq<char>, max: u16)
    requires
        alias_entries_wf(es, max),
        1 <= alias <= max,
        forall|i: int| 0 <= i < es.len() ==> (#[trigger] es[i]).0 != alias && es[i].1 != topic,
    ensures
        alias_entries_wf(es.push((alias, topic)), max),
{
    let r = es.push((alias, topic));
    assert forall|i: int, j: int| 0 <= i < j < r.len() implies #[trigger] r[i].0 != #[trigger] r[j].0 by {
        assert(r[i] == es[i]);
        if j < es.len() {
            assert(r[j] == es[j]);
        }
    }
    assert forall|i: int, j: int| 0 <= i < j < r.len() implies #[trigger] r[i].1 != #[trigger] r[j].1 by {
        assert(r[i] == es[i]);
        if j < es.len() {
            assert(r[j] == es[j]);
        }
    }
    assert forall|i: int| 0 <= i < r.len() implies 1 <= #[trigger] r[i].0 <= max by {
        if i < es.len() {
            assert(r[i] == es[i]);
        }
    }
}

proof fn lemma_wf_move_to_back(es: Seq<(u16, Seq<char>)>, i: int, max: u16)
    requires
        alias_entries_wf(es, max),
        0 <= i < es.len(),
    ensures
        alias_entries_wf(es.remove(i).push(es[i]), max),
{
    let r = es.remove(i);
    assert forall|k: int| 0 <= k < r.len() implies (#[trigger] r[k]).0 != es[i].0 && r[k].1 != es[i].1 by {
        if k < i {
            assert(r[k] == es[k]);
        } else {
            assert(r[k] == es[k + 1]);
        }
    }
    assert(alias_entries_wf(r, max)) by {
        assert forall|a: int, b: int| 0 <= a < b < r.len() implies #[trigger] r[a].0 != #[trigger] r[b].0 by {
            let a0 = if a < i { a } else { a + 1 };
            let b0 = if b < i { b } else { b + 1 };
            assert(r[a] == es[a0] && r[b] == es[b0]);
        }
        assert forall|a: int, b: int| 0 <= a < b < r.len() implies #[trigger] r[a].1 != #[trigger] r[b].1 by {
            let a0 = if a < i { a } else { a + 1 };
            let b0 = if b < i { b } else { b + 1 };
            assert(r[a] == es[a0] && r[b] == es[b0]);
        }
        assert forall|a: int| 0 <= a < r.len() implies 1 <= #[trigger] r[a].0 <= max by {
            let a0 = if a < i { a } else { a + 1 };
            assert(r[a] == es[a0]);
        }
    }
    lemma_wf_push(r, es[i].0, es[i].1, max);
}

/// Index of the entry for `alias`, if any.
pub open spec fn alias_index(es: Seq<(u16, Seq<char>)>, alias: u16) -> Option<int> {
    if exists|i: int| 0 <= i < es.len() && es[i].0 == alias {
        Some(choose|i: int| 0 <= i < es.len() && es[i].0 == alias)
    } else {
        None
    }
}

impl TopicAliasSend {
    #[verifier::type_invariant]
    closed spec fn inv(self) -> bool {
        alias_entries_wf(entry_view(self.entries@), self.max)
    }

    /// The registered (alias, topic) pairs, least recently used first.
    pub closed spec fn spec_entries(self) -> Seq<(u16, Seq<char>)> {
        entry_view(self.entries@)
    }

    pub closed spec fn spec_max(self) -> u16 {
        self.max
    }

    /// Topic aliases `1..=max`, none registered.
    pub fn new(max: u16) -> (r: TopicAliasSend)
        ensures
            r.spec_max() == max,
            r.spec_entries() == Seq::<(u16, Seq<char>)>::empty(),
    {
        let r = TopicAliasSend { max, entries: Vec::new() };
        assert(r.spec_entries() =~= Seq::<(u16, Seq<char>)>::empty());
        r
    }

    /// The largest alias.
    pub fn max(&self) -> (r: u16)
        ensures
            r == self.spec_max(),
    {
        self.max
    }

    fn find_alias(&self, alias: u16) -> (r: Option<usize>)
        ensures
            r matches Some(i) ==> i < self.spec_entries().len() && self.spec_entries()[i as int].0 == alias,
            r is None ==> forall|i: int| 0 <= i < self.spec_entries().len() ==> self.spec_entries()[i].0 != alias,
    {
        let mut i: usize = 0;
        while i < self.entries.len()
            invariant
                i <= self.entries@.len(),
                forall|k: int| 0 <= k < i ==> self.spec_entries()[k].0 != alias,
            decreases self.entries@.len() - i,
        {
            if self.entries[i].alias == alias {
                return Some(i);
            }
            i = i + 1;
        }
        None
    }

    fn find_topic(&self, topic: &String) -> (r: Option<usize>)
        ensures
            r matches Some(i) ==> i < self.spec_entries().len() && self.spec_entries()[i as int].1 == topic@,
            r is None ==> forall|i: int| 0 <= i < self.spec_entries().len() ==> self.spec_entries()[i].1 != topic@,
    {
        let mut i: usize = 0;
        while i < self.entries.len()
            invariant
                i <= self.entries@.len(),
                forall|k: int| 0 <= k < i ==> self.spec_entries()[k].1 != topic@,
            decreases self.entries@.len() - i,
        {
            if self.entries[i].topic == *topic {
                return Some(i);
            }
            i = i + 1;
        }
        None
    }

    /// The topic that `alias` stands for, without touching the order of use.
    pub fn peek(&self, alias: u16) -> (r: Option<String>)
        ensures
            r is Some <==> exists|i: int| 0 <= i < self.spec_entries().len() && self.spec_entries()[i].0 == alias,
            r matches Some(t) ==> exists|i: int| 0 <= i < self.spec_entries().len() && self.spec_entries()[i]
                == (alias, t@),
            r matches Some(t) ==> forall|j: int| 0 <= j < self.spec_entries().len() && #[trigger] self.spec_entries()[j].0 == alias
                ==> self.spec_entries()[j].1 == t@,
    {
        proof { use_type_invariant(self); }
        match self.find_alias(alias) {
            Some(i) => Some(self.entries[i].topic.clone()),
            None => None,
        }
    }

    /// The topic that `alias` stands for; the alias becomes the most recently
    /// used.
    pub fn get(&mut self, alias: u16) -> (r: Option<String>)
        ensures
            r is Some <==> exists|i: int| 0 <= i < old(self).spec_entries().len() && old(self).spec_entries()[i].0 == alias,
            r matches Some(t) ==> exists|i: int| 0 <= i < old(self).spec_entries().len() && old(self).spec_entries()[i]
                == (alias, t@) && final(self).spec_entries() == old(self).spec_entries().remove(i).push((alias, t@)),
            r is None ==> final(self).spec_entries() == old(self).spec_entries(),
            final(self).spec_max() == old(self).spec_max(),
    {
        proof { use_type_invariant(&*self); }
        match self.find_alias(alias) {
            Some(i) => {
                let mut entries: Vec<AliasEntry> = Vec::new();
                std::mem::swap(&mut entries, &mut self.entries);
                let ghost before = entries@;
                let e = entries.remove(i);
                let t = e.topic.clone();
                entries.push(e);
                proof {
                    assert(entry_view(entries@) =~= entry_view(before).remove(i as int).push((alias, t@)));
                    lemma_wf_move_to_back(entry_view(before), i as int, self.max);
                }
                self.entries = entries;
                Some(t)
            },
            None => None,
        }
    }

    /// The alias of `topic`, if it has one.
    pub fn find_by_topic(&self, topic: &str) -> (r: Option<u16>)
        ensures
            r is Some <==> exists|i: int| 0 <= i < self.spec_entries().len() && self.spec_entries()[i].1 == topic@,
            r matches Some(a) ==> exists|i: int| 0 <= i < self.spec_entries().len() && self.spec_entries()[i]
                == (a, topic@),
            r matches Some(a) ==> 1 <= a <= self.spec_max(),
    {
        proof { use_type_invariant(self); }
        let t = topic.to_owned();
        match self.find_topic(&t) {
            Some(i) => {
                proof { assert(self.spec_entries()[i as int].0 == self.entries@[i as int].alias); }
                Some(self.entries[i].alias)
            },
            None => None,
        }
    }

    /// Registers `alias` for `topic`, replacing what either was registered
    /// with; the pair becomes the most recently used.
    pub fn insert_or_update(&mut self, topic: &str, alias: u16)
        requires
            1 <= alias <= old(self).spec_max(),
        ensures
            final(self).spec_entries() == without_alias_or_topic(old(self).spec_entries(), alias, topic@).push(
                (alias, topic@),
            ),
            final(self).spec_max() == old(self).spec_max(),
    {
        proof { use_type_invariant(&*self); }
        let ghost before = entry_view(self.entries@);
        let mut kept: Vec<AliasEntry> = Vec::new();
        let mut i: usize = 0;
        while i < self.entries.len()
            invariant
                i <= self.entries@.len(),
                before == entry_view(self.entries@),
                entry_view(kept@) == without_alias_or_topic(before.take(i as int), alias, topic@),
            decreases self.entries@.len() - i,
        {
            let e = &self.entries[i];
            let keep = e.alias != alias && !str_eq(e.topic.as_str(), topic);
            proof {
                assert(before.take(i + 1).drop_last() =~= before.take(i as int));
                assert(before.take(i + 1).last() == before[i as int]);
            }
            if keep {
                kept.push(AliasEntry { alias: e.alias, topic: e.topic.clone() });
                proof { assert(entry_view(kept@) =~= without_alias_or_topic(before.take(i + 1), alias, topic@)); }
            }
            i = i + 1;
        }
        proof {
            assert(before.take(i as int) =~= before);
            lemma_without_wf(before, alias, topic@, self.max);
            lemma_wf_push(without_alias_or_topic(before, alias, topic@), alias, topic@, self.max);
        }
        kept.push(AliasEntry { alias, topic: topic.to_owned() });
        proof {
            assert(entry_view(kept@) =~= without_alias_or_topic(before, alias, topic@).push((alias, topic@)));
        }
        self.entries = kept;
    }

    /// The alias to use for a new topic: the smallest alias not registered
    /// while some is free, otherwise the least recently used one.
    pub fn get_lru_alias(&self) -> (r: u16)
        requires
            self.spec_max() >= 1,
        ensures
            1 <= r <= self.spec_max(),
            (exists|a: u16| 1 <= a <= self.spec_max() && alias_index(self.spec_entries(), a) is None) ==> {
                &&& alias_index(self.spec_entries(), r) is None
                &&& forall|a: u16| 1 <= a < r ==> alias_index(self.spec_entries(), a) is Some
            },
            (forall|a: u16| 1 <= a <= self.spec_max() ==> alias_index(self.spec_entries(), a) is Some) ==> r
                == self.spec_entries()[0].0,
    {
        proof { use_type_invariant(self); }
        let mut a: u16 = 1;
        while a < self.max
            invariant
                1 <= a <= self.max,
                forall|b: u16| 1 <= b < a ==> alias_index(self.spec_entries(), b) is Some,
            decreases self.max - a,
        {
            match self.find_alias(a) {
                None => {
                    return a;
                },
                Some(k) => {
                    proof { assert(self.spec_entries()[k as int].0 == a); }
                },
            }
            a = a + 1;
        }
        match self.find_alias(a) {
            None => {
                return a;
            },
            Some(k) => {
                proof { assert(self.spec_entries()[k as int].0 == a); }
            },
        }
        proof {
            assert(forall|b: u16| 1 <= b <= self.spec_max() ==> alias_index(self.spec_entries(), b) is Some);
            assert(alias_index(self.spec_entries(), 1u16) is Some);
            assert(self.spec_entries().len() > 0);
            assert(self.spec_entries()[0].0 == self.entries@[0].alias);
            assert(1 <= self.spec_entries()[0].0 <= self.max);
        }
        self.entries[0].alias
    }
}

/// Whether two string slices hold the same characters.
fn str_eq(a: &str, b: &str) -> (r: bool)
    ensures
        r == (a@ == b@),
{
    let x = a.to_owned();
    let y = b.to_owned();
    x == y
}


/// After `insert_or_update(topic, alias)` the alias stands for the topic and
/// the topic has that alias: the pair is registered, last (the most recently
/// used), and no other entry holds the alias or the topic.
pub proof fn lemma_insert_then_lookup(es: Seq<(u16, Seq<char>)>, alias: u16, topic: Seq<char>)
    ensures
        ({
            let after = without_alias_or_topic(es, alias, topic).push((alias, topic));
            &&& after.last() == (alias, topic)
            &&& forall|i: int| 0 <= i < after.len() && after[i].0 == alias ==> after[i] == (alias, topic)
            &&& forall|i: int| 0 <= i < after.len() && after[i].1 == topic ==> after[i] == (alias, topic)
        }),
{
    let kept = without_alias_or_topic(es, alias, topic);
    let after = kept.push((alias, topic));
    lemma_without_elements(es, alias, topic);
    assert forall|i: int| 0 <= i < after.len() && (after[i].0 == alias || after[i].1 == topic) implies after[i] == (
        alias,
        topic,
    ) by {
        if i < kept.len() {
            assert(kept.contains(kept[i]));
        }
    }
}

} // verus!
