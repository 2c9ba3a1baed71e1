use vstd::prelude::*;

verus! {

/// A table from a cardholder's name to the stored text of their card.
pub struct CardTable {
    entries: Vec<(String, String)>,
}

impl View for CardTable {
    type V = Map<Seq<char>, Seq<char>>;

    closed spec fn view(&self) -> Map<Seq<char>, Seq<char>> {
        Map::new(
            |k: Seq<char>| self.has_key_at(k),
            |k: Seq<char>| self.entries@[choose|i: int| self.is_key_at(k, i)].1@,
        )
    }
}

impl CardTable {
    spec fn is_key_at(&self, k: Seq<char>, i: int) -> bool {
        0 <= i < self.entries@.len() && self.entries@[i].0@ == k
    }

    spec fn has_key_at(&self, k: Seq<char>) -> bool {
        exists|i: int| self.is_key_at(k, i)
    }

    /// No name stands twice in the table.
    pub closed spec fn wf(&self) -> bool {
        forall|i: int, j: int|
            0 <= i < self.entries@.len() && 0 <= j < self.entries@.len() && i != j
                ==> self.entries@[i].0@ != self.entries@[j].0@
    }

    proof fn lemma_value_at(&self, k: Seq<char>, i: int)
        requires
            self.wf(),
            self.is_key_at(k, i),
        ensures
            self@.contains_key(k),
            self@[k] == self.entries@[i].1@,
    {
        assert(self.has_key_at(k));
        let j = choose|j: int| self.is_key_at(k, j);
        assert(i == j);
    }

    /// The empty table.
    pub fn new() -> (r: CardTable)
        ensures
            r.wf(),
            r@ == Map::<Seq<char>, Seq<char>>::empty(),
    {
        let r = CardTable { entries: Vec::new() };
        assert(r@ =~= Map::<Seq<char>, Seq<char>>::empty());
        r
    }

    /// The position of `name` in the table, if it is there.
    fn find(&self, name: &String) -> (r: Option<usize>)
        requires
            self.wf(),
        ensures
            r is None <==> !self@.contains_key(name@),
            r matches Some(i) ==> self.is_key_at(name@, i as int),
    {
        let mut i: usize = 0;
        while i < self.entries.len()
            invariant
                i <= self.entries@.len(),
                forall|j: int| 0 <= j < i ==> self.entries@[j].0@ != name@,
            decreases self.entries@.len() - i,
        {
            if self.entries[i].0 == *name {
                assert(self.is_key_at(name@, i as int));
                assert(self.has_key_at(name@));
                return Some(i);
            }
            i = i + 1;
        }
        None
    }

    /// Files `card` under `name`, in place of what stood there before.
    pub fn insert(&mut self, name: &str, card: &str)
        requires
            old(self).wf(),
        ensures
            final(self).wf(),
            final(self)@ == old(self)@.insert(name@, card@),
    {
        let key = name.to_owned();
        let value = card.to_owned();
        let ghost before = *self;
        match self.find(&key) {
            Some(i) => {
                self.entries.set(i, (key, value));
                assert forall|a: int| 0 <= a < self.entries@.len() implies #[trigger]
                    self.entries@[a].0@ == before.entries@[a].0@ by {};
                assert(self.wf());
                assert forall|k: Seq<char>| #[trigger] self.has_key_at(k) == (k == name@
                    || before.has_key_at(k)) by {
                    if before.has_key_at(k) {
                        let j = choose|j: int| before.is_key_at(k, j);
                        assert(self.is_key_at(k, j) || j == i);
                    }
                    if self.has_key_at(k) {
                        let j = choose|j: int| self.is_key_at(k, j);
                        assert(before.is_key_at(k, j) || j == i);
                    }
                    if k == name@ {
                        assert(self.is_key_at(k, i as int));
                    }
                };
                assert forall|k: Seq<char>| self@.contains_key(k) implies #[trigger] self@[k]
                    == before@.insert(name@, card@)[k] by {
                    let j = choose|j: int| self.is_key_at(k, j);
                    self.lemma_value_at(k, j);
                    if j != i {
                        before.lemma_value_at(k, j);
                    }
                };
            },
            None => {
                self.entries.push((key, value));
                let ghost n = before.entries@.len() as int;
                assert forall|a: int| 0 <= a < n implies #[trigger]
                    self.entries@[a].0@ != name@ by {
                    if before.entries@[a].0@ == name@ {
                        assert(before.is_key_at(name@, a));
                    }
                    assert(self.entries@[a] == before.entries@[a]);
                };
                assert(self.wf());
                assert forall|k: Seq<char>| #[trigger] self.has_key_at(k) == (k == name@
                    || before.has_key_at(k)) by {
                    if before.has_key_at(k) {
                        let j = choose|j: int| before.is_key_at(k, j);
                        assert(self.is_key_at(k, j));
                    }
                    if self.has_key_at(k) {
                        let j = choose|j: int| self.is_key_at(k, j);
                        assert(before.is_key_at(k, j) || j == n);
                    }
                    if k == name@ {
                        assert(self.is_key_at(k, n));
                    }
                };
                assert forall|k: Seq<char>| self@.contains_key(k) implies #[trigger] self@[k]
                    == before@.insert(name@, card@)[k] by {
                    let j = choose|j: int| self.is_key_at(k, j);
                    self.lemma_value_at(k, j);
                    if j != n {
                        before.lemma_value_at(k, j);
                    }
                };
            },
        }
        assert(self@ =~= before@.insert(name@, card@));
    }

    /// The card text filed under `name`, if any.
    pub fn get(&self, name: &str) -> (r: Option<&str>)
        requires
            self.wf(),
        ensures
            r is Some <==> self@.contains_key(name@),
            r matches Some(c) ==> c@ == self@[name@],
    {
        let key = name.to_owned();
        match self.find(&key) {
            Some(i) => {
                proof {
                    self.lemma_value_at(name@, i as int);
                }
                Some(self.entries[i].1.as_str())
            },
            None => None,
        }
    }
}

} // verus!
