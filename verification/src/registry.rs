//! The client registry: a table mapping each connected peer's identity to the
//! send-capable handle for that peer's connection.
//!
//! Identities are unique; removal is idempotent; a snapshot returns every
//! registered identity.  The registry is modeled as an association list whose
//! abstract value is the finite map [`Registry::as_map`].

use vstd::prelude::*;
use vstd::map::*;

verus! {

/// One registry entry: a peer identity paired with the outbound sink handle
/// for that peer's connection.
pub struct Entry<S> {
    pub id: String,
    pub sink: S,
}

/// The table of connected peers.  `S` is the embedder's send handle type; the
/// registry never looks inside it.
pub struct Registry<S> {
    entries: Vec<Entry<S>>,
}

impl<S> View for Registry<S> {
    type V = Seq<(Seq<char>, S)>;

    closed spec fn view(&self) -> Seq<(Seq<char>, S)> {
        self.entries@.map_values(|e: Entry<S>| (e.id@, e.sink))
    }
}

/// The finite map an association list denotes: later entries win.
pub open spec fn map_of<S>(s: Seq<(Seq<char>, S)>) -> Map<Seq<char>, S>
    decreases s.len(),
{
    if s.len() == 0 {
        Map::empty()
    } else {
        map_of(s.drop_last()).insert(s.last().0, s.last().1)
    }
}

impl<S> Registry<S> {
    /// No identity occurs twice.
    pub open spec fn wf(self) -> bool {
        forall|i: int, j: int|
            0 <= i < j < self@.len() ==> #[trigger] self@[i].0 != #[trigger] self@[j].0
    }

    /// The registered identities, in insertion order.
    pub open spec fn ids(self) -> Seq<Seq<char>> {
        self@.map_values(|p: (Seq<char>, S)| p.0)
    }

    /// The abstract value: identity -> sink.
    pub open spec fn as_map(self) -> Map<Seq<char>, S> {
        map_of(self@)
    }

    /// Whether `id` is currently registered.
    pub open spec fn contains_id(self, id: Seq<char>) -> bool {
        self.as_map().dom().contains(id)
    }

    /// An empty registry.
    pub fn new() -> (r: Self)
        ensures
            r.wf(),
            r@ == Seq::<(Seq<char>, S)>::empty(),
            r.as_map() == Map::<Seq<char>, S>::empty(),
    {
        let r = Registry { entries: Vec::new() };
        proof {
            assert(r@ =~= Seq::<(Seq<char>, S)>::empty());
        }
        r
    }

    /// How many peers are registered.
    pub fn len(&self) -> (n: usize)
        ensures
            n == self@.len(),
    {
        self.entries.len()
    }
}

/// Membership in the denoted map is membership in the key column.
pub proof fn lemma_map_of_dom<S>(s: Seq<(Seq<char>, S)>, k: Seq<char>)
    ensures
        map_of(s).dom().contains(k) <==> exists|i: int| 0 <= i < s.len() && (#[trigger] s[i]).0 == k,
    decreases s.len(),
{
    if s.len() > 0 {
        lemma_map_of_dom(s.drop_last(), k);
        if map_of(s).dom().contains(k) {
            if s.last().0 == k {
                assert(s[s.len() - 1].0 == k);
            }
        }
        if exists|i: int| 0 <= i < s.len() && (#[trigger] s[i]).0 == k {
            let i = choose|i: int| 0 <= i < s.len() && (#[trigger] s[i]).0 == k;
            if i < s.len() - 1 {
                assert(s.drop_last()[i].0 == k);
            }
        }
    }
}

/// On a duplicate-free list the denoted map agrees with the key's entry.
pub proof fn lemma_map_of_index<S>(s: Seq<(Seq<char>, S)>, i: int)
    requires
        forall|p: int, q: int| 0 <= p < q < s.len() ==> #[trigger] s[p].0 != #[trigger] s[q].0,
        0 <= i < s.len(),
    ensures
        map_of(s).dom().contains(s[i].0),
        map_of(s)[s[i].0] == s[i].1,
    decreases s.len(),
{
    if i == s.len() - 1 {
    } else {
        lemma_map_of_index(s.drop_last(), i);
        assert(s.drop_last()[i] == s[i]);
        assert(s[i].0 != s[s.len() - 1].0);
    }
}

/// A duplicate-free list denotes a map with one key per entry.
pub proof fn lemma_map_of_len<S>(s: Seq<(Seq<char>, S)>)
    requires
        forall|p: int, q: int| 0 <= p < q < s.len() ==> #[trigger] s[p].0 != #[trigger] s[q].0,
    ensures
        map_of(s).dom().len() == s.len(),
        map_of(s).dom().finite(),
    decreases s.len(),
{
    if s.len() == 0 {
        assert(map_of(s).dom() =~= Set::<Seq<char>>::empty());
    } else {
        lemma_map_of_len(s.drop_last());
        lemma_map_of_dom(s.drop_last(), s.last().0);
        assert(forall|i: int|
            0 <= i < s.drop_last().len() ==> #[trigger] s.drop_last()[i].0 != s.last().0);
        assert(!map_of(s.drop_last()).dom().contains(s.last().0));
        assert(map_of(s).dom() =~= map_of(s.drop_last()).dom().insert(s.last().0));
        vstd::set::axiom_set_insert_finite(map_of(s.drop_last()).dom(), s.last().0);
        vstd::set::axiom_set_insert_len(map_of(s.drop_last()).dom(), s.last().0);
    }
}

/// Removing the entry that holds key `k` removes `k` from the denoted map.
pub proof fn lemma_map_of_remove<S>(s: Seq<(Seq<char>, S)>, i: int)
    requires
        forall|p: int, q: int| 0 <= p < q < s.len() ==> #[trigger] s[p].0 != #[trigger] s[q].0,
        0 <= i < s.len(),
    ensures
        map_of(s.remove(i)) == map_of(s).remove(s[i].0),
    decreases s.len(),
{
    let k = s[i].0;
    if i == s.len() - 1 {
        assert(s.remove(i) =~= s.drop_last());
        lemma_map_of_dom(s.drop_last(), k);
        assert(forall|p: int|
            0 <= p < s.drop_last().len() ==> #[trigger] s.drop_last()[p].0 != k);
        assert(!map_of(s.drop_last()).dom().contains(k));
        assert(map_of(s.drop_last()).insert(k, s[i].1).remove(k) =~= map_of(s.drop_last()));
    } else {
        let t = s.remove(i);
        assert(t.drop_last() =~= s.drop_last().remove(i));
        assert(t.last() == s.last());
        lemma_map_of_remove(s.drop_last(), i);
        assert(map_of(t) == map_of(s.drop_last()).remove(k).insert(s.last().0, s.last().1));
        assert(s.last().0 != k);
        assert(map_of(s.drop_last()).remove(k).insert(s.last().0, s.last().1) =~= map_of(
            s.drop_last(),
        ).insert(s.last().0, s.last().1).remove(k));
    }
}

/// If no entry holds key `k`, the denoted map has no entry at `k`.
pub proof fn lemma_map_of_absent<S>(s: Seq<(Seq<char>, S)>, k: Seq<char>)
    requires
        forall|i: int| 0 <= i < s.len() ==> (#[trigger] s[i]).0 != k,
    ensures
        !map_of(s).dom().contains(k),
        map_of(s).remove(k) == map_of(s),
{
    lemma_map_of_dom(s, k);
    assert(map_of(s).remove(k) =~= map_of(s));
}

impl<S> Registry<S> {
    fn find(&self, id: &String) -> (r: Option<usize>)
        ensures
            match r {
                Some(i) => i < self@.len() && self@[i as int].0 == id@,
                None => forall|i: int| 0 <= i < self@.len() ==> (#[trigger] self@[i]).0 != id@,
            },
    {
        let n = self.entries.len();
        let mut i: usize = 0;
        while i < n
            invariant
                n == self@.len(),
                i <= n,
                forall|j: int| 0 <= j < i ==> (#[trigger] self@[j]).0 != id@,
            decreases n - i,
        {
            if self.entries[i].id == *id {
                return Some(i);
            }
            i = i + 1;
        }
        None
    }

    /// Inserts `id -> sink`.  If `id` was already present its sink is
    /// replaced; otherwise the entry is appended.
    pub fn register(&mut self, id: String, sink: S)
        requires
            old(self).wf(),
        ensures
            final(self).wf(),
            final(self).as_map() == old(self).as_map().insert(id@, sink),
            final(self).contains_id(id@),
            !old(self).contains_id(id@) ==> final(self)@ == old(self)@.push((id@, sink)),
    {
        proof {
            lemma_map_of_dom(self@, id@);
        }
        self.unregister(&id);
        let ghost pre = self@;
        self.entries.push(Entry { id, sink });
        proof {
            assert(self@ =~= pre.push((id@, sink)));
            assert(self@.drop_last() =~= pre);
            lemma_map_of_dom(pre, id@);
            assert(forall|i: int| 0 <= i < pre.len() ==> (#[trigger] pre[i]).0 != id@);
            assert(map_of(self@) == map_of(pre).insert(id@, sink));
            assert(map_of(pre).insert(id@, sink) =~= old(self).as_map().insert(id@, sink));
            lemma_map_of_dom(self@, id@);
        }
    }

    /// Removes `id` if present; removing an absent identity is a no-op.
    pub fn unregister(&mut self, id: &String)
        requires
            old(self).wf(),
        ensures
            final(self).wf(),
            final(self).as_map() == old(self).as_map().remove(id@),
            !final(self).contains_id(id@),
            !old(self).contains_id(id@) ==> final(self)@ == old(self)@,
            final(self).ids() == old(self).ids().remove_value(id@),
    {
        let ghost pre = self@;
        match self.find(id) {
            Some(i) => {
                let ghost gi = i as int;
                self.entries.remove(i);
                proof {
                    lemma_map_of_dom(pre, id@);
                    assert(pre[gi].0 == id@);
                    assert(self@ =~= pre.remove(gi));
                    lemma_map_of_remove(pre, gi);
                    assert(forall|p: int, q: int|
                        0 <= p < q < self@.len() ==> #[trigger] self@[p].0
                            != #[trigger] self@[q].0) by {
                        assert(forall|p: int|
                            0 <= p < self@.len() ==> #[trigger] self@[p] == if p < gi {
                                pre[p]
                            } else {
                                pre[p + 1]
                            });
                    }
                    lemma_map_of_dom(self@, id@);
                    assert forall|j: int| 0 <= j < self@.len() implies (#[trigger] self@[j]).0
                        != id@ by {
                        if j < gi {
                            assert(self@[j] == pre[j]);
                        } else {
                            assert(self@[j] == pre[j + 1]);
                        }
                    }
                    let col = pre.map_values(|p: (Seq<char>, S)| p.0);
                    assert(self.ids() =~= col.remove(gi));
                    assert forall|j: int| 0 <= j < gi implies #[trigger] col[j] != id@ by {
                        assert(pre[j].0 != pre[gi].0);
                    }
                    assert(col[gi] == id@);
                    assert(col.contains(id@));
                    col.index_of_first_ensures(id@);
                    assert(col.index_of_first(id@) == Some(gi));
                    assert(self.ids() =~= col.remove_value(id@));
                }
            },
            None => {
                proof {
                    lemma_map_of_absent(pre, id@);
                    let col = pre.map_values(|p: (Seq<char>, S)| p.0);
                    assert(forall|i: int| 0 <= i < col.len() ==> #[trigger] col[i] != id@);
                    col.index_of_first_ensures(id@);
                    assert(self.ids() =~= col.remove_value(id@));
                }
            },
        }
    }

    /// Whether `id` is currently registered.
    pub fn contains(&self, id: &String) -> (r: bool)
        ensures
            r == self.contains_id(id@),
            r == self.ids().contains(id@),
    {
        proof {
            lemma_contains_ids(*self, id@);
        }
        match self.find(id) {
            Some(i) => {
                proof {
                    assert(self@[i as int].0 == id@);
                    lemma_map_of_dom(self@, id@);
                }
                true
            },
            None => {
                proof {
                    lemma_map_of_absent(self@, id@);
                }
                false
            },
        }
    }

    /// The identity stored at position `i`.
    pub fn id_at(&self, i: usize) -> (r: &String)
        requires
            i < self@.len(),
        ensures
            r@ == self@[i as int].0,
            r@ == self.ids()[i as int],
    {
        &self.entries[i].id
    }

    /// Returns the sink registered for `id`, or `None` if `id` is absent.
    pub fn lookup(&self, id: &String) -> (r: Option<&S>)
        requires
            self.wf(),
        ensures
            match r {
                Some(s) => self.contains_id(id@) && *s == self.as_map()[id@],
                None => !self.contains_id(id@),
            },
    {
        match self.find(id) {
            Some(i) => {
                proof {
                    lemma_map_of_index(self@, i as int);
                }
                Some(&self.entries[i].sink)
            },
            None => {
                proof {
                    lemma_map_of_absent(self@, id@);
                }
                None
            },
        }
    }

    /// A point-in-time copy of all registered identities.
    pub fn snapshot(&self) -> (r: Vec<String>)
        ensures
            r@.map_values(|s: String| s@) == self.ids(),
    {
        let n = self.entries.len();
        let mut r: Vec<String> = Vec::new();
        let mut i: usize = 0;
        while i < n
            invariant
                n == self@.len(),
                i <= n,
                r@.len() == i,
                forall|j: int| 0 <= j < i ==> (#[trigger] r@[j])@ == self.ids()[j],
            decreases n - i,
        {
            r.push(self.entries[i].id.clone());
            proof {
                assert((r@[i as int])@ == self.ids()[i as int]);
            }
            i = i + 1;
        }
        proof {
            let col = r@.map_values(|s: String| s@);
            assert forall|j: int| 0 <= j < col.len() implies #[trigger] col[j]
                == self.ids()[j] by {
                assert((r@[j])@ == self.ids()[j]);
            }
            assert(col =~= self.ids());
        }
        r
    }
}

/// An identity is in the denoted map exactly when it is in the identity
/// column.
pub proof fn lemma_contains_ids<S>(r: Registry<S>, k: Seq<char>)
    ensures
        r.contains_id(k) <==> r.ids().contains(k),
{
    lemma_map_of_dom(r@, k);
    if exists|i: int| 0 <= i < r@.len() && (#[trigger] r@[i]).0 == k {
        let i = choose|i: int| 0 <= i < r@.len() && (#[trigger] r@[i]).0 == k;
        assert(r.ids()[i] == k);
    }
    if r.ids().contains(k) {
        let i = choose|i: int| 0 <= i < r.ids().len() && r.ids()[i] == k;
        assert(r@[i].0 == k);
    }
}

/// No sequence of register/unregister operations creates a duplicate: a
/// well-formed registry has exactly one map entry per stored entry, so a
/// snapshot's size always equals the running insert-minus-remove count.
pub proof fn lemma_no_duplicates<S>(r: Registry<S>)
    requires
        r.wf(),
    ensures
        r.as_map().dom().len() == r.ids().len(),
        forall|i: int, j: int| 0 <= i < j < r.ids().len() ==> r.ids()[i] != r.ids()[j],
{
    lemma_map_of_len(r@);
}

/// Registering `id` and then unregistering it leaves `id` absent, and a
/// second unregister changes nothing: removal is idempotent.
pub proof fn lemma_register_unregister_absent<S>(m: Map<Seq<char>, S>, id: Seq<char>, sink: S)
    ensures
        !m.insert(id, sink).remove(id).dom().contains(id),
        m.insert(id, sink).remove(id).remove(id) == m.insert(id, sink).remove(id),
{
    assert(m.insert(id, sink).remove(id).remove(id) =~= m.insert(id, sink).remove(id));
}

} // verus!
