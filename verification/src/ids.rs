//! The two collections that a player's state is made of: a set of entity
//! identifiers and a table of counts per identifier. Both keep their entries
//! in the order in which they were first inserted, and neither holds an
//! identifier twice.
use vstd::prelude::*;

verus! {

/// The identifiers that a vector of strings holds, in its order.
pub open spec fn id_seq(ids: Seq<String>) -> Seq<Seq<char>> {
    Seq::new(ids.len(), |i: int| ids[i]@)
}

/// The entries that a vector of pairs holds, in its order.
pub open spec fn entry_seq(entries: Seq<(String, usize)>) -> Seq<(Seq<char>, usize)> {
    Seq::new(entries.len(), |i: int| (entries[i].0@, entries[i].1))
}

/// The identifiers of a sequence of entries, in its order.
pub open spec fn entry_keys(entries: Seq<(Seq<char>, usize)>) -> Seq<Seq<char>> {
    Seq::new(entries.len(), |i: int| entries[i].0)
}

/// The count that a sequence of entries gives an identifier: that of its
/// first entry for it, and zero where it has none.
pub open spec fn count_in(entries: Seq<(Seq<char>, usize)>, id: Seq<char>) -> usize
    decreases entries.len(),
{
    if entries.len() == 0 {
        0
    } else if entries[0].0 == id {
        entries[0].1
    } else {
        count_in(entries.drop_first(), id)
    }
}

/// The identifiers with one more among them: unchanged where it is there
/// already, else with it at the end.
pub open spec fn with_id(ids: Seq<Seq<char>>, id: Seq<char>) -> Seq<Seq<char>> {
    if ids.contains(id) {
        ids
    } else {
        ids.push(id)
    }
}

/// The identifiers without one of them: unchanged where it is not there,
/// else with it taken out and the others in their order.
pub open spec fn without_id(ids: Seq<Seq<char>>, id: Seq<char>) -> Seq<Seq<char>> {
    if ids.contains(id) {
        ids.remove(ids.index_of(id))
    } else {
        ids
    }
}

/// The entries with the count of an identifier set: in its entry where it
/// has one, else in a new last entry.
pub open spec fn with_count(entries: Seq<(Seq<char>, usize)>, id: Seq<char>, n: usize) -> Seq<
    (Seq<char>, usize),
> {
    if entry_keys(entries).contains(id) {
        entries.update(entry_keys(entries).index_of(id), (id, n))
    } else {
        entries.push((id, n))
    }
}

/// Whether two identifiers are the same.
pub fn same_id(a: &String, b: &String) -> (same: bool)
    ensures
        same == (a@ == b@),
{
    *a == *b
}

/// A set of entity identifiers. With `==` two sets are equal where they hold
/// the same identifiers in the same order.
#[derive(Debug, PartialEq, Eq)]
pub struct IdSet {
    ids: Vec<String>,
}

impl Clone for IdSet {
    fn clone(&self) -> (copy: Self)
        ensures
            copy@ == self@,
    {
        let ids = self.to_vec();
        proof {
            use_type_invariant(self);
        }
        IdSet { ids }
    }
}

impl View for IdSet {
    type V = Seq<Seq<char>>;

    /// The identifiers in the order of their insertion.
    closed spec fn view(&self) -> Seq<Seq<char>> {
        id_seq(self.ids@)
    }
}

impl IdSet {
    /// No identifier occurs twice.
    #[verifier::type_invariant]
    spec fn distinct(self) -> bool {
        id_seq(self.ids@).no_duplicates()
    }

    /// The empty set.
    pub fn new() -> (s: IdSet)
        ensures
            s@ == Seq::<Seq<char>>::empty(),
    {
        let s = IdSet { ids: Vec::new() };
        assert(s@ =~= Seq::<Seq<char>>::empty());
        s
    }

    /// How many identifiers the set holds. None of them occurs twice.
    pub fn len(&self) -> (n: usize)
        ensures
            n == self@.len(),
            self@.no_duplicates(),
    {
        proof {
            use_type_invariant(self);
        }
        self.ids.len()
    }

    /// The identifier at a position in the order of insertion.
    pub fn get(&self, i: usize) -> (id: &String)
        requires
            i < self@.len(),
        ensures
            id@ == self@[i as int],
    {
        &self.ids[i]
    }

    /// The position of an identifier, if the set holds it.
    pub fn position(&self, id: &String) -> (at: Option<usize>)
        ensures
            at.is_some() == self@.contains(id@),
            at.is_some() ==> at.unwrap() < self@.len() && self@[at.unwrap() as int] == id@,
    {
        let mut i: usize = 0;
        while i < self.ids.len()
            invariant
                i <= self.ids.len(),
                forall|j: int| 0 <= j < i ==> self@[j] != id@,
            decreases self.ids.len() - i,
        {
            if same_id(&self.ids[i], id) {
                assert(self@[i as int] == id@);
                return Some(i);
            }
            i += 1;
        }
        None
    }

    /// Whether the set holds an identifier.
    pub fn contains(&self, id: &String) -> (held: bool)
        ensures
            held == self@.contains(id@),
    {
        self.position(id).is_some()
    }

    /// Puts an identifier into the set. Returns whether it was new.
    pub fn insert(&mut self, id: String) -> (fresh: bool)
        ensures
            fresh == !old(self)@.contains(id@),
            final(self)@ == with_id(old(self)@, id@),
            forall|other: Seq<char>|
                #[trigger] final(self)@.contains(other) == (old(self)@.contains(other) || other
                    == id@),
    {
        if self.contains(&id) {
            false
        } else {
            let ghost before = self@;
            proof {
                use_type_invariant(&*self);
            }
            let mut ids: Vec<String> = Vec::new();
            core::mem::swap(&mut self.ids, &mut ids);
            ids.push(id);
            assert(id_seq(ids@) =~= before.push(id@));
            self.ids = ids;
            proof {
                assert(self@ =~= before.push(id@));
                assert forall|other: Seq<char>|
                    #[trigger] self@.contains(other) == (before.contains(other) || other
                        == id@) by {
                    if before.contains(other) {
                        let k = choose|k: int| 0 <= k < before.len() && before[k] == other;
                        assert(self@[k] == other);
                    }
                    if other == id@ {
                        assert(self@[before.len() as int] == other);
                    }
                }
            }
            true
        }
    }

    /// Takes an identifier out of the set. Returns whether it was there.
    pub fn remove(&mut self, id: &String) -> (held: bool)
        ensures
            held == old(self)@.contains(id@),
            final(self)@ == without_id(old(self)@, id@),
            forall|other: Seq<char>|
                #[trigger] final(self)@.contains(other) == (old(self)@.contains(other) && other
                    != id@),
    {
        match self.position(id) {
            Some(i) => {
                let ghost before = self@;
                proof {
                    use_type_invariant(&*self);
                }
                let mut ids: Vec<String> = Vec::new();
                core::mem::swap(&mut self.ids, &mut ids);
                ids.remove(i);
                assert(id_seq(ids@) =~= before.remove(i as int));
                self.ids = ids;
                proof {
                    assert(self@ =~= before.remove(i as int));
                    let k = before.index_of(id@);
                    assert(before[i as int] == id@);
                    assert(k == i);
                    assert forall|j: int| 0 <= j < self@.len() implies self@[j] != id@ by {
                        if j < i {
                            assert(self@[j] == before[j]);
                        } else {
                            assert(self@[j] == before[j + 1]);
                        }
                    }
                    assert forall|other: Seq<char>|
                        #[trigger] self@.contains(other) == (before.contains(other) && other
                            != id@) by {
                        if before.contains(other) && other != id@ {
                            let k = choose|k: int| 0 <= k < before.len() && before[k] == other;
                            if k < i {
                                assert(self@[k] == other);
                            } else {
                                assert(self@[k - 1] == other);
                            }
                        }
                        if self@.contains(other) {
                            let k = choose|k: int| 0 <= k < self@.len() && self@[k] == other;
                            if k < i {
                                assert(before[k] == other);
                            } else {
                                assert(before[k + 1] == other);
                            }
                        }
                    }
                }
                true
            },
            None => false,
        }
    }

    /// The identifiers in the order of their insertion.
    pub fn to_vec(&self) -> (ids: Vec<String>)
        ensures
            id_seq(ids@) == self@,
    {
        let mut out: Vec<String> = Vec::new();
        let mut i: usize = 0;
        while i < self.ids.len()
            invariant
                i <= self.ids.len(),
                out@.len() == i,
                forall|j: int| 0 <= j < i ==> out@[j]@ == self.ids@[j]@,
            decreases self.ids.len() - i,
        {
            out.push(self.ids[i].clone());
            i += 1;
        }
        assert(id_seq(out@) =~= self@);
        out
    }
}

/// A table of counts per entity identifier. An identifier without an entry
/// counts as zero. With `==` two tables are equal where they hold the same
/// entries in the same order.
#[derive(Debug, PartialEq, Eq)]
pub struct Counts {
    entries: Vec<(String, usize)>,
}

impl Clone for Counts {
    fn clone(&self) -> (copy: Self)
        ensures
            copy@ == self@,
    {
        let entries = self.to_vec();
        proof {
            use_type_invariant(self);
        }
        Counts { entries }
    }
}

impl View for Counts {
    type V = Seq<(Seq<char>, usize)>;

    /// The entries in the order of their first insertion.
    closed spec fn view(&self) -> Seq<(Seq<char>, usize)> {
        entry_seq(self.entries@)
    }
}

/// In a sequence of entries whose identifiers differ, the count of the
/// identifier at a position is the one held there.
pub proof fn lemma_count_at(entries: Seq<(Seq<char>, usize)>, i: int)
    requires
        entry_keys(entries).no_duplicates(),
        0 <= i < entries.len(),
    ensures
        count_in(entries, entries[i].0) == entries[i].1,
    decreases entries.len(),
{
    if i > 0 {
        let rest = entries.drop_first();
        assert(entry_keys(entries)[0] != entry_keys(entries)[i]);
        assert forall|a: int, b: int|
            0 <= a < rest.len() && 0 <= b < rest.len() && a != b implies entry_keys(rest)[a]
            != entry_keys(rest)[b] by {
            assert(entry_keys(rest)[a] == entry_keys(entries)[a + 1]);
            assert(entry_keys(rest)[b] == entry_keys(entries)[b + 1]);
        }
        lemma_count_at(rest, i - 1);
    }
}

/// A sequence of entries gives zero to an identifier that none of them has.
pub proof fn lemma_count_absent(entries: Seq<(Seq<char>, usize)>, id: Seq<char>)
    requires
        !entry_keys(entries).contains(id),
    ensures
        count_in(entries, id) == 0,
    decreases entries.len(),
{
    if entries.len() > 0 {
        let rest = entries.drop_first();
        assert(entry_keys(entries)[0] == entries[0].0);
        assert forall|j: int| 0 <= j < rest.len() implies entry_keys(rest)[j] != id by {
            assert(entry_keys(rest)[j] == entry_keys(entries)[j + 1]);
        }
        lemma_count_absent(rest, id);
    }
}

/// Changing the count at one position changes the count of its identifier
/// and of no other.
pub proof fn lemma_count_update(entries: Seq<(Seq<char>, usize)>, i: int, n: usize, id: Seq<char>)
    requires
        0 <= i < entries.len(),
        entry_keys(entries).no_duplicates(),
    ensures
        count_in(entries.update(i, (entries[i].0, n)), id) == if id == entries[i].0 {
            n
        } else {
            count_in(entries, id)
        },
    decreases entries.len(),
{
    let after = entries.update(i, (entries[i].0, n));
    assert(entry_keys(after) =~= entry_keys(entries));
    if id == entries[i].0 {
        lemma_count_at(after, i);
    } else if i > 0 {
        let rest = entries.drop_first();
        assert forall|a: int, b: int|
            0 <= a < rest.len() && 0 <= b < rest.len() && a != b implies entry_keys(rest)[a]
            != entry_keys(rest)[b] by {
            assert(entry_keys(rest)[a] == entry_keys(entries)[a + 1]);
            assert(entry_keys(rest)[b] == entry_keys(entries)[b + 1]);
        }
        lemma_count_update(rest, i - 1, n, id);
        assert(after.drop_first() =~= rest.update(i - 1, (rest[i - 1].0, n)));
    } else {
        assert(after.drop_first() =~= entries.drop_first());
    }
}

/// Adding an entry for a new identifier sets its count and changes no other.
pub proof fn lemma_count_push(
    entries: Seq<(Seq<char>, usize)>,
    key: Seq<char>,
    n: usize,
    id: Seq<char>,
)
    requires
        !entry_keys(entries).contains(key),
    ensures
        count_in(entries.push((key, n)), id) == if id == key {
            n
        } else {
            count_in(entries, id)
        },
    decreases entries.len(),
{
    let after = entries.push((key, n));
    if entries.len() == 0 {
        assert(after.drop_first() =~= entries);
    } else {
        let rest = entries.drop_first();
        assert(entry_keys(entries)[0] == entries[0].0);
        assert forall|j: int| 0 <= j < rest.len() implies entry_keys(rest)[j] != key by {
            assert(entry_keys(rest)[j] == entry_keys(entries)[j + 1]);
        }
        lemma_count_push(rest, key, n, id);
        assert(after.drop_first() =~= rest.push((key, n)));
    }
}

impl Counts {
    /// No identifier has two entries.
    #[verifier::type_invariant]
    spec fn distinct(self) -> bool {
        entry_keys(entry_seq(self.entries@)).no_duplicates()
    }

    /// The count that the table gives an identifier.
    pub open spec fn count(&self, id: Seq<char>) -> usize {
        count_in(self@, id)
    }

    /// The empty table.
    pub fn new() -> (t: Counts)
        ensures
            t@ == Seq::<(Seq<char>, usize)>::empty(),
    {
        let t = Counts { entries: Vec::new() };
        assert(t@ =~= Seq::<(Seq<char>, usize)>::empty());
        t
    }

    /// How many entries the table holds. No identifier has two of them.
    pub fn len(&self) -> (n: usize)
        ensures
            n == self@.len(),
            entry_keys(self@).no_duplicates(),
    {
        proof {
            use_type_invariant(self);
        }
        self.entries.len()
    }

    /// The identifier of the entry at a position.
    pub fn key(&self, i: usize) -> (id: &String)
        requires
            i < self@.len(),
        ensures
            id@ == self@[i as int].0,
    {
        &self.entries[i].0
    }

    /// The count of the entry at a position.
    pub fn value(&self, i: usize) -> (n: usize)
        requires
            i < self@.len(),
        ensures
            n == self@[i as int].1,
    {
        self.entries[i].1
    }

    /// The position of the entry for an identifier, if there is one.
    pub fn position(&self, id: &String) -> (at: Option<usize>)
        ensures
            at.is_some() == entry_keys(self@).contains(id@),
            at.is_some() ==> at.unwrap() < self@.len() && self@[at.unwrap() as int].0 == id@,
    {
        let mut i: usize = 0;
        while i < self.entries.len()
            invariant
                i <= self.entries.len(),
                forall|j: int| 0 <= j < i ==> self@[j].0 != id@,
            decreases self.entries.len() - i,
        {
            if same_id(&self.entries[i].0, id) {
                assert(entry_keys(self@)[i as int] == id@);
                return Some(i);
            }
            i += 1;
        }
        assert forall|j: int| 0 <= j < entry_keys(self@).len() implies entry_keys(self@)[j]
            != id@ by {
            assert(entry_keys(self@)[j] == self@[j].0);
        }
        None
    }

    /// The entries in the order of their first insertion.
    pub fn to_vec(&self) -> (entries: Vec<(String, usize)>)
        ensures
            entry_seq(entries@) == self@,
    {
        let mut out: Vec<(String, usize)> = Vec::new();
        let mut i: usize = 0;
        while i < self.entries.len()
            invariant
                i <= self.entries.len(),
                out@.len() == i,
                forall|j: int|
                    0 <= j < i ==> out@[j].0@ == self.entries@[j].0@ && out@[j].1
                        == self.entries@[j].1,
            decreases self.entries.len() - i,
        {
            out.push((self.entries[i].0.clone(), self.entries[i].1));
            i += 1;
        }
        assert(entry_seq(out@) =~= self@);
        out
    }

    /// The count that the table gives an identifier, zero where it has no
    /// entry.
    pub fn get(&self, id: &String) -> (n: usize)
        ensures
            n == self.count(id@),
    {
        match self.position(id) {
            Some(i) => {
                proof {
                    use_type_invariant(self);
                    lemma_count_at(self@, i as int);
                }
                self.entries[i].1
            },
            None => {
                proof {
                    lemma_count_absent(self@, id@);
                }
                0
            },
        }
    }

    /// Sets the count of an identifier: in its entry where it has one, in a
    /// new last entry where it has none.
    pub fn insert(&mut self, id: String, n: usize)
        ensures
            final(self)@ == with_count(old(self)@, id@, n),
            forall|other: Seq<char>|
                #[trigger] final(self).count(other) == if other == id@ {
                    n
                } else {
                    old(self).count(other)
                },
    {
        let ghost before = self@;
        proof {
            use_type_invariant(&*self);
        }
        let mut entries: Vec<(String, usize)> = Vec::new();
        match self.position(&id) {
            Some(i) => {
                core::mem::swap(&mut self.entries, &mut entries);
                entries[i] = (id, n);
                assert(entry_seq(entries@) =~= before.update(i as int, (id@, n)));
                assert(entry_keys(entry_seq(entries@)) =~= entry_keys(before));
                self.entries = entries;
                proof {
                    let k = entry_keys(before).index_of(id@);
                    assert(entry_keys(before)[i as int] == id@);
                    assert(k == i);
                    assert(self@ =~= before.update(i as int, (id@, n)));
                    assert(entry_keys(self@) =~= entry_keys(before));
                    assert forall|other: Seq<char>|
                        #[trigger] count_in(self@, other) == if other == id@ {
                            n
                        } else {
                            count_in(before, other)
                        } by {
                        lemma_count_update(before, i as int, n, other);
                    }
                }
            },
            None => {
                core::mem::swap(&mut self.entries, &mut entries);
                entries.push((id, n));
                assert(entry_seq(entries@) =~= before.push((id@, n)));
                assert(entry_keys(entry_seq(entries@)) =~= entry_keys(before).push(id@));
                self.entries = entries;
                proof {
                    assert(self@ =~= before.push((id@, n)));
                    assert(entry_keys(self@) =~= entry_keys(before).push(id@));
                    assert forall|other: Seq<char>|
                        #[trigger] count_in(self@, other) == if other == id@ {
                            n
                        } else {
                            count_in(before, other)
                        } by {
                        lemma_count_push(before, id@, n, other);
                    }
                }
            },
        }
    }
}

} // verus!
