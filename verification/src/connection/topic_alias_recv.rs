use vstd::prelude::*;

verus! {

/// One registered topic alias.
#[derive(Debug)]
struct RecvEntry {
    alias: u16,
    topic: String,
}

spec fn recv_view(es: Seq<RecvEntry>) -> Map<u16, Seq<char>>
    decreases es.len(),
{
    if es.len() == 0 {
        Map::<u16, Seq<char>>::empty()
    } else {
        recv_view(es.drop_last()).insert(es.last().alias, es.last().topic@)
    }
}

/// Topic aliases for receiving: which alias stands for which topic.
#[derive(Debug)]
pub struct TopicAliasRecv {
    max: u16,
    entries: Vec<RecvEntry>,
}

impl View for TopicAliasRecv {
    type V = Map<u16, Seq<char>>;

    closed spec fn view(&self) -> Map<u16, Seq<char>> {
        recv_view(self.entries@)
    }
}

proof fn lemma_recv_view_domain(es: Seq<RecvEntry>)
    ensures
        forall|a: u16| #[trigger] recv_view(es).contains_key(a) <==> exists|i: int| 0 <= i < es.len() && es[i].alias == a,
    decreases es.len(),
{
    if es.len() > 0 {
        lemma_recv_view_domain(es.drop_last());
        let d = es.drop_last();
        assert forall|a: u16| #[trigger] recv_view(es).contains_key(a) <==> exists|i: int| 0 <= i < es.len() && es[i].alias == a by {
            assert(recv_view(es) == recv_view(d).insert(es.last().alias, es.last().topic@));
            if recv_view(es).contains_key(a) {
                if a == es.last().alias {
                    assert(es[es.len() - 1].alias == a);
                } else {
                    assert(recv_view(d).contains_key(a));
                    let i = choose|i: int| 0 <= i < d.len() && d[i].alias == a;
                    assert(es[i].alias == a);
                }
            }
            if exists|i: int| 0 <= i < es.len() && es[i].alias == a {
                let i = choose|i: int| 0 <= i < es.len() && es[i].alias == a;
                if i < es.len() - 1 {
                    assert(d[i].alias == a);
                    assert(recv_view(d).contains_key(a));
                }
            }
        }
    }
}

proof fn lemma_recv_view_at(es: Seq<RecvEntry>, i: int)
    requires
        0 <= i < es.len(),
        forall|j: int| 0 <= j < es.len() && j != i ==> es[j].alias != es[i].alias,
    ensures
        recv_view(es).contains_key(es[i].alias),
        recv_view(es)[es[i].alias] == es[i].topic@,
    decreases es.len(),
{
    if i < es.len() - 1 {
        assert forall|j: int| 0 <= j < es.drop_last().len() && j != i implies es.drop_last()[j].alias != es.drop_last()[i].alias by {
            assert(es.drop_last()[j] == es[j]);
        }
        lemma_recv_view_at(es.drop_last(), i);
        assert(es.last().alias != es[i].alias);
    }
}

impl TopicAliasRecv {
    #[verifier::type_invariant]
    closed spec fn inv(self) -> bool {
        forall|i: int, j: int| 0 <= i < j < self.entries@.len() ==> #[trigger] self.entries@[i].alias != #[trigger] self.entries@[j].alias
    }

    pub closed spec fn spec_max(self) -> u16 {
        self.max
    }

    /// Topic aliases `1..=max`, none registered.
    pub fn new(max: u16) -> (r: TopicAliasRecv)
        ensures
            r.spec_max() == max,
            r@ == Map::<u16, Seq<char>>::empty(),
    {
        TopicAliasRecv { max, entries: Vec::new() }
    }

    /// The largest alias.
    pub fn max(&self) -> (r: u16)
        ensures
            r == self.spec_max(),
    {
        self.max
    }

    fn find_alias(&self, alias: u16) -> (r: Option<usize>)
        ensures
            r matches Some(i) ==> i < self.entries@.len() && self.entries@[i as int].alias == alias,
            r is None ==> forall|i: int| 0 <= i < self.entries@.len() ==> self.entries@[i].alias != alias,
    {
        let mut i: usize = 0;
        while i < self.entries.len()
            invariant
                i <= self.entries@.len(),
                forall|k: int| 0 <= k < i ==> self.entries@[k].alias != alias,
            decreases self.entries@.len() - i,
        {
            if self.entries[i].alias == alias {
                return Some(i);
            }
            i = i + 1;
        }
        None
    }

    /// The topic that `alias` stands for.
    pub fn get(&self, alias: u16) -> (r: Option<String>)
        ensures
            r is Some <==> self@.contains_key(alias),
            r matches Some(t) ==> self@[alias] == t@,
    {
        proof {
            use_type_invariant(self);
            lemma_recv_view_domain(self.entries@);
        }
        match self.find_alias(alias) {
            Some(i) => {
                proof {
                    lemma_recv_view_at(self.entries@, i as int);
                }
                Some(self.entries[i].topic.clone())
            },
            None => None,
        }
    }

    /// Registers `alias` for `topic`, replacing what the alias stood for.
    pub fn insert_or_update(&mut self, topic: &str, alias: u16)
        ensures
            final(self)@ == old(self)@.insert(alias, topic@),
            final(self).spec_max() == old(self).spec_max(),
    {
        proof { use_type_invariant(&*self); }
        let ghost before = self.entries@;
        let mut entries: Vec<RecvEntry> = Vec::new();
        std::mem::swap(&mut entries, &mut self.entries);
        match find_in(&entries, alias) {
            Some(i) => {
                let _ = entries.remove(i);
                proof { lemma_remove_unique(before, i as int); }
            },
            None => {
                proof { lemma_absent_insert(before, alias); }
            },
        }
        let ghost mid = entries@;
        entries.push(RecvEntry { alias, topic: topic.to_owned() });
        proof {
            assert(entries@.drop_last() =~= mid);
            assert forall|i: int, j: int| 0 <= i < j < entries@.len() implies #[trigger] entries@[i].alias != #[trigger] entries@[j].alias by {
                if j == entries@.len() - 1 {
                    assert(entries@[i] == mid[i]);
                } else {
                    assert(entries@[i] == mid[i] && entries@[j] == mid[j]);
                }
            }
            assert(recv_view(entries@) =~= recv_view(before).insert(alias, topic@));
        }
        self.entries = entries;
    }
}

fn find_in(entries: &Vec<RecvEntry>, alias: u16) -> (r: Option<usize>)
    ensures
        r matches Some(i) ==> i < entries@.len() && entries@[i as int].alias == alias,
        r is None ==> forall|i: int| 0 <= i < entries@.len() ==> entries@[i].alias != alias,
{
    let mut i: usize = 0;
    while i < entries.len()
        invariant
            i <= entries@.len(),
            forall|k: int| 0 <= k < i ==> entries@[k].alias != alias,
        decreases entries@.len() - i,
    {
        if entries[i].alias == alias {
            return Some(i);
        }
        i = i + 1;
    }
    None
}

proof fn lemma_absent_insert(es: Seq<RecvEntry>, alias: u16)
    requires
        forall|i: int| 0 <= i < es.len() ==> es[i].alias != alias,
    ensures
        !recv_view(es).contains_key(alias),
{
    lemma_recv_view_domain(es);
}

proof fn lemma_remove_unique(es: Seq<RecvEntry>, i: int)
    requires
        0 <= i < es.len(),
        forall|a: int, b: int| 0 <= a < b < es.len() ==> #[trigger] es[a].alias != #[trigger] es[b].alias,
    ensures
        recv_view(es.remove(i)) == recv_view(es).remove(es[i].alias),
        forall|a: int, b: int| 0 <= a < b < es.remove(i).len() ==> #[trigger] es.remove(i)[a].alias != #[trigger] es.remove(i)[b].alias,
    decreases es.len(),
{
    let r = es.remove(i);
    assert forall|a: int, b: int| 0 <= a < b < r.len() implies #[trigger] r[a].alias != #[trigger] r[b].alias by {
        let a0 = if a < i { a } else { a + 1 };
        let b0 = if b < i { b } else { b + 1 };
        assert(r[a] == es[a0] && r[b] == es[b0]);
    }
    if i == es.len() - 1 {
        assert(r =~= es.drop_last());
        lemma_recv_view_domain(es.drop_last());
        assert forall|j: int| 0 <= j < es.drop_last().len() implies es.drop_last()[j].alias != es.last().alias by {
            assert(es.drop_last()[j] == es[j]);
        }
        assert(!recv_view(es.drop_last()).contains_key(es.last().alias));
        assert(recv_view(es.drop_last()) =~= recv_view(es).remove(es[i].alias));
    } else {
        let d = es.drop_last();
        assert forall|a: int, b: int| 0 <= a < b < d.len() implies #[trigger] d[a].alias != #[trigger] d[b].alias by {
            assert(d[a] == es[a] && d[b] == es[b]);
        }
        lemma_remove_unique(d, i);
        assert(r.drop_last() =~= d.remove(i));
        assert(r.last() == es.last());
        assert(es.last().alias != es[i].alias);
        assert(recv_view(r) =~= recv_view(es).remove(es[i].alias));
    }
}


/// After `insert_or_update(topic, alias)`, `get(alias)` gives the topic and
/// every other alias keeps what it stood for.
pub proof fn lemma_recv_insert_then_get(m: Map<u16, Seq<char>>, alias: u16, topic: Seq<char>)
    ensures
        m.insert(alias, topic).contains_key(alias),
        m.insert(alias, topic)[alias] == topic,
        forall|a: u16| a != alias ==> (#[trigger] m.insert(alias, topic).contains_key(a) <==> m.contains_key(a)),
        forall|a: u16| a != alias && m.contains_key(a) ==> #[trigger] m.insert(alias, topic)[a] == m[a],
{
}

} // verus!
