//! In-memory registry of broker definitions with queries by ID, category and
//! difficulty.

use vstd::prelude::*;
use crate::shared::types::BrokerId;
use crate::broker::definition::{
    BrokerCategory, BrokerDefinition, RemovalDifficulty, definition_eq, definition_problem,
    validation_outcome,
};
use crate::broker::error::BrokerError;
use crate::text::str_eq;

verus! {

/// The identifiers of the definitions, in order.
pub open spec fn ids_of(s: Seq<BrokerDefinition>) -> Seq<Seq<char>> {
    s.map_values(|d: BrokerDefinition| d.broker.id@)
}

/// The definitions by identifier after inserting each of `s` in order (a later
/// definition replaces an earlier one with the same identifier).
pub open spec fn map_of(s: Seq<BrokerDefinition>) -> Map<Seq<char>, BrokerDefinition>
    decreases s.len(),
{
    if s.len() == 0 {
        Map::empty()
    } else {
        map_of(s.drop_last()).insert(s.last().broker.id@, s.last())
    }
}

/// `x` passes a filter by optional category and optional difficulty.
pub open spec fn passes(x: BrokerDefinition, c: Option<BrokerCategory>, d: Option<RemovalDifficulty>) -> bool {
    &&& (c matches Some(cat) ==> x.broker.category == cat)
    &&& (d matches Some(diff) ==> x.broker.difficulty == diff)
}

/// The definitions of `s` that pass the filter, in order.
pub open spec fn selected(s: Seq<BrokerDefinition>, c: Option<BrokerCategory>, d: Option<RemovalDifficulty>) -> Seq<BrokerDefinition>
    decreases s.len(),
{
    if s.len() == 0 {
        Seq::empty()
    } else if passes(s.last(), c, d) {
        selected(s.drop_last(), c, d).push(s.last())
    } else {
        selected(s.drop_last(), c, d)
    }
}

/// The definitions of `s` that have category `c`, in order.
pub open spec fn with_category(s: Seq<BrokerDefinition>, c: BrokerCategory) -> Seq<BrokerDefinition> {
    selected(s, Some(c), None)
}

/// The definitions of `s` that have difficulty `d`, in order.
pub open spec fn with_difficulty(s: Seq<BrokerDefinition>, d: RemovalDifficulty) -> Seq<BrokerDefinition> {
    selected(s, None, Some(d))
}

/// The definitions of `s` with category `c` and difficulty `d`, in order.
pub open spec fn with_category_and_difficulty(
    s: Seq<BrokerDefinition>,
    c: BrokerCategory,
    d: RemovalDifficulty,
) -> Seq<BrokerDefinition> {
    selected(s, Some(c), Some(d))
}

/// A selection is never longer than what it selects from.
pub proof fn lemma_selected_len(s: Seq<BrokerDefinition>, c: Option<BrokerCategory>, d: Option<RemovalDifficulty>)
    ensures
        selected(s, c, d).len() <= s.len(),
    decreases s.len(),
{
    if s.len() > 0 {
        lemma_selected_len(s.drop_last(), c, d);
    }
}

/// With no filter, everything is selected.
pub proof fn lemma_selected_all(s: Seq<BrokerDefinition>)
    ensures
        selected(s, None, None) == s,
    decreases s.len(),
{
    if s.len() > 0 {
        lemma_selected_all(s.drop_last());
        assert(s.drop_last().push(s.last()) =~= s);
    }
}

/// `r` holds copies of `s`, one for one and in order.
pub open spec fn copies_of(r: Seq<BrokerDefinition>, s: Seq<BrokerDefinition>) -> bool {
    &&& r.len() == s.len()
    &&& forall|i: int| 0 <= i < s.len() ==> definition_eq(#[trigger] r[i], s[i])
}

/// The domain of `map_of(s)` is the set of identifiers in `s`.
pub proof fn lemma_map_of_dom(s: Seq<BrokerDefinition>)
    ensures
        map_of(s).dom() == ids_of(s).to_set(),
    decreases s.len(),
{
    if s.len() > 0 {
        lemma_map_of_dom(s.drop_last());
        assert(ids_of(s) =~= ids_of(s.drop_last()).push(s.last().broker.id@));
        assert forall|k: Seq<char>| map_of(s).dom().contains(k) <==> ids_of(s).to_set().contains(k) by {
            if ids_of(s).contains(k) {
                let j = choose|j: int| 0 <= j < ids_of(s).len() && ids_of(s)[j] == k;
                if j < s.len() - 1 {
                    assert(ids_of(s.drop_last())[j] == k);
                }
            }
            if ids_of(s.drop_last()).contains(k) {
                let j = choose|j: int| 0 <= j < ids_of(s.drop_last()).len() && ids_of(s.drop_last())[j] == k;
                assert(ids_of(s)[j] == k);
            }
            if k == s.last().broker.id@ {
                assert(ids_of(s)[s.len() - 1] == k);
            }
        }
        assert(map_of(s).dom() =~= ids_of(s).to_set());
    } else {
        assert(ids_of(s).to_set() =~= Set::empty());
    }
}

/// With distinct identifiers, each definition is found under its identifier.
pub proof fn lemma_map_of_lookup(s: Seq<BrokerDefinition>, i: int)
    requires
        ids_of(s).no_duplicates(),
        0 <= i < s.len(),
    ensures
        map_of(s).contains_key(s[i].broker.id@),
        map_of(s)[s[i].broker.id@] == s[i],
    decreases s.len(),
{
    if i < s.len() - 1 {
        let t = s.drop_last();
        assert(ids_of(t) =~= ids_of(s).drop_last());
        assert(ids_of(s)[i] != ids_of(s)[s.len() - 1]);
        lemma_map_of_lookup(t, i);
        assert(t[i] == s[i]);
    }
}

/// With distinct identifiers, the map holds exactly one entry per definition.
pub proof fn lemma_map_of_len(s: Seq<BrokerDefinition>)
    requires
        ids_of(s).no_duplicates(),
    ensures
        map_of(s).dom().finite(),
        map_of(s).dom().len() == s.len(),
{
    lemma_map_of_dom(s);
    ids_of(s).unique_seq_to_set();
}

/// Two sequences with distinct identifiers and the same identifiers hold the
/// same map when each definition is found under its identifier in both.
proof fn lemma_map_of_ext(
    s: Seq<BrokerDefinition>,
    m: Map<Seq<char>, BrokerDefinition>,
)
    requires
        ids_of(s).no_duplicates(),
        m.dom() == ids_of(s).to_set(),
        forall|i: int| 0 <= i < s.len() ==> m[#[trigger] s[i].broker.id@] == s[i],
    ensures
        map_of(s) == m,
{
    lemma_map_of_dom(s);
    assert forall|k: Seq<char>| #[trigger] map_of(s).contains_key(k) implies map_of(s)[k] == m[k] by {
        let j = choose|j: int| 0 <= j < ids_of(s).len() && ids_of(s)[j] == k;
        lemma_map_of_lookup(s, j);
        assert(s[j].broker.id@ == k);
    }
    assert(map_of(s) =~= m);
}

/// In-memory cache of broker definitions with query capabilities.
pub struct BrokerRegistry {
    definitions: Vec<BrokerDefinition>,
}

impl View for BrokerRegistry {
    type V = Map<Seq<char>, BrokerDefinition>;

    closed spec fn view(&self) -> Map<Seq<char>, BrokerDefinition> {
        map_of(self.definitions@)
    }
}

impl BrokerRegistry {
    /// No identifier is held twice.
    #[verifier::type_invariant]
    spec fn distinct_ids(self) -> bool {
        ids_of(self.definitions@).no_duplicates()
    }

    /// The stored definitions, in the order they were first inserted.
    pub closed spec fn entries(self) -> Seq<BrokerDefinition> {
        self.definitions@
    }

    /// The entries hold distinct identifiers and make up the map view (true
    /// of every registry; each method states it of the registries it
    /// touches).
    pub open spec fn consistent(self) -> bool {
        &&& ids_of(self.entries()).no_duplicates()
        &&& self@ == map_of(self.entries())
    }

    /// A new empty registry.
    pub fn new() -> (r: Self)
        ensures
            r@ == Map::<Seq<char>, BrokerDefinition>::empty(),
            r.entries().len() == 0,
            r.consistent(),
    {
        let r = BrokerRegistry { definitions: Vec::new() };
        assert(ids_of(r.definitions@) =~= Seq::empty());
        r
    }

    /// Position of the definition with identifier `id`, if any.
    fn position(&self, id: &BrokerId) -> (r: Option<usize>)
        ensures
            r matches Some(i) ==> i < self.definitions@.len() && self.definitions@[i as int].broker.id@
                == id@,
            r is None ==> !ids_of(self.definitions@).contains(id@),
            r is None <==> !self@.contains_key(id@),
    {
        proof {
            lemma_map_of_dom(self.definitions@);
        }
        let mut i: usize = 0;
        while i < self.definitions.len()
            invariant
                i <= self.definitions@.len(),
                forall|j: int| 0 <= j < i ==> self.definitions@[j].broker.id@ != id@,
            decreases self.definitions@.len() - i,
        {
            if str_eq(self.definitions[i].broker.id.as_str(), id.as_str()) {
                proof {
                    use_type_invariant(self);
                    lemma_map_of_lookup(self.definitions@, i as int);
                }
                return Some(i);
            }
            i += 1;
        }
        proof {
            if ids_of(self.definitions@).contains(id@) {
                let j = choose|j: int| 0 <= j < ids_of(self.definitions@).len() && ids_of(self.definitions@)[j] == id@;
                assert(self.definitions@[j].broker.id@ == id@);
            }
        }
        None
    }

    /// Adds or replaces a definition without checking it.
    fn put(&mut self, definition: BrokerDefinition)
        ensures
            final(self)@ == old(self)@.insert(definition.broker.id@, definition),
            final(self).consistent(),
            ids_of(old(self).entries()).contains(definition.broker.id@) ==> final(self).entries().len()
                == old(self).entries().len(),
            !ids_of(old(self).entries()).contains(definition.broker.id@) ==> final(self).entries()
                == old(self).entries().push(definition),
    {
        proof {
            use_type_invariant(&*self);
        }
        let ghost before = self.definitions@;
        let ghost key = definition.broker.id@;
        let pos = self.position(&definition.broker.id);
        let mut v: Vec<BrokerDefinition> = Vec::new();
        std::mem::swap(&mut v, &mut self.definitions);
        match pos {
            Some(i) => {
                v.set(i, definition);
                proof {
                    let after = v@;
                    assert(ids_of(after) =~= ids_of(before).update(i as int, key));
                    assert(ids_of(after).no_duplicates()) by {
                        assert forall|a: int, b: int| 0 <= a < b < ids_of(after).len() implies ids_of(after)[a]
                            != ids_of(after)[b] by {
                            assert(ids_of(before)[i as int] == key);
                        }
                    }
                    let m = map_of(before).insert(key, after[i as int]);
                    lemma_map_of_dom(before);
                    assert(ids_of(after).to_set() =~= ids_of(before).to_set()) by {
                        assert forall|k: Seq<char>| ids_of(after).contains(k) <==> ids_of(before).contains(k) by {
                            if ids_of(after).contains(k) {
                                let j = choose|j: int| 0 <= j < ids_of(after).len() && ids_of(after)[j] == k;
                                assert(ids_of(before)[j] == k);
                            }
                            if ids_of(before).contains(k) {
                                let j = choose|j: int| 0 <= j < ids_of(before).len() && ids_of(before)[j] == k;
                                assert(ids_of(after)[j] == k);
                            }
                        }
                    }
                    assert(m.dom() =~= ids_of(after).to_set()) by {
                        assert(ids_of(before).contains(key)) by {
                            assert(ids_of(before)[i as int] == key);
                        }
                    }
                    assert forall|j: int| 0 <= j < after.len() implies m[#[trigger] after[j].broker.id@] == after[j] by {
                        if j != i {
                            lemma_map_of_lookup(before, j);
                            assert(ids_of(before)[j] != ids_of(before)[i as int]);
                        }
                    }
                    lemma_map_of_ext(after, m);
                }
            },
            None => {
                v.push(definition);
                proof {
                    let after = v@;
                    assert(after.drop_last() =~= before);
                    assert(ids_of(after) =~= ids_of(before).push(key));
                    assert(ids_of(after).no_duplicates()) by {
                        assert forall|a: int, b: int| 0 <= a < b < ids_of(after).len() implies ids_of(after)[a]
                            != ids_of(after)[b] by {
                            if b == ids_of(after).len() - 1 {
                                assert(ids_of(before).contains(ids_of(before)[a]));
                            }
                        }
                    }
                }
            },
        }
        self.definitions = v;
    }

    /// Replaces the whole cache with `definitions`, inserted in order.
    pub fn reload_with(&mut self, definitions: Vec<BrokerDefinition>)
        ensures
            final(self)@ == map_of(definitions@),
            final(self).consistent(),
    {
        let mut fresh = BrokerRegistry::new();
        let mut rest = definitions;
        let ghost all = rest@;
        let mut i: usize = 0;
        let n = rest.len();
        proof {
            assert(all.take(0) =~= Seq::<BrokerDefinition>::empty());
        }
        while rest.len() > 0
            invariant
                n == all.len(),
                i + rest@.len() == n,
                rest@ == all.skip(i as int),
                fresh@ == map_of(all.take(i as int)),
                fresh.consistent(),
            decreases rest@.len(),
        {
            let d = rest.remove(0);
            proof {
                assert(all.take(i + 1).drop_last() =~= all.take(i as int));
                assert(all.take(i + 1).last() == d);
            }
            fresh.put(d);
            i += 1;
            assert(rest@ =~= all.skip(i as int));
        }
        assert(all.take(n as int) =~= all);
        *self = fresh;
    }

    /// The definition with the given identifier.
    pub fn get(&self, broker_id: &BrokerId) -> (r: Result<BrokerDefinition, BrokerError>)
        ensures
            self@.contains_key(broker_id@) ==> (r matches Ok(d) && definition_eq(d, self@[broker_id@])),
            !self@.contains_key(broker_id@) ==> (r matches Err(BrokerError::NotFound { broker_id: b })
                && b@ == broker_id@),
    {
        proof {
            use_type_invariant(self);
        }
        match self.position(broker_id) {
            Some(i) => {
                proof {
                    lemma_map_of_lookup(self.definitions@, i as int);
                }
                Ok(self.definitions[i].clone())
            },
            None => Err(BrokerError::NotFound { broker_id: broker_id.as_str().to_string() }),
        }
    }

    /// Copies of the definitions of `self` that pass the filter, in order.
    fn select(&self, category: Option<BrokerCategory>, difficulty: Option<RemovalDifficulty>) -> (r: Vec<BrokerDefinition>)
        ensures
            copies_of(r@, selected(self.entries(), category, difficulty)),
    {
        let mut r: Vec<BrokerDefinition> = Vec::new();
        let mut i: usize = 0;
        while i < self.definitions.len()
            invariant
                i <= self.definitions@.len(),
                copies_of(r@, selected(self.definitions@.take(i as int), category, difficulty)),
            decreases self.definitions@.len() - i,
        {
            let d = &self.definitions[i];
            let keep = (match category {
                Some(c) => d.broker.category == c,
                None => true,
            }) && (match difficulty {
                Some(x) => d.broker.difficulty == x,
                None => true,
            });
            let ghost s0 = self.definitions@.take(i as int);
            let ghost s1 = self.definitions@.take(i + 1);
            proof {
                assert(s1.drop_last() =~= s0);
                assert(s1.last() == *d);
                assert(keep == passes(*d, category, difficulty));
            }
            if keep {
                let ghost r0 = r@;
                let c = d.clone();
                r.push(c);
                proof {
                    let t = selected(s1, category, difficulty);
                    assert(t == selected(s0, category, difficulty).push(*d));
                    assert forall|k: int| 0 <= k < t.len() implies definition_eq(#[trigger] r@[k], t[k]) by {
                        if k < r0.len() {
                            assert(r@[k] == r0[k]);
                        }
                    }
                }
            }
            i += 1;
        }
        assert(self.definitions@.take(self.definitions@.len() as int) =~= self.definitions@);
        r
    }

    /// Copies of all definitions, in insertion order.
    pub fn get_all(&self) -> (r: Vec<BrokerDefinition>)
        ensures
            copies_of(r@, self.entries()),
    {
        let r = self.select(None, None);
        proof {
            lemma_selected_all(self.entries());
        }
        r
    }

    /// Copies of the definitions in a category, in insertion order.
    pub fn get_by_category(&self, category: BrokerCategory) -> (r: Vec<BrokerDefinition>)
        ensures
            copies_of(r@, with_category(self.entries(), category)),
    {
        self.select(Some(category), None)
    }

    /// Copies of the definitions with a difficulty, in insertion order.
    pub fn get_by_difficulty(&self, difficulty: RemovalDifficulty) -> (r: Vec<BrokerDefinition>)
        ensures
            copies_of(r@, with_difficulty(self.entries(), difficulty)),
    {
        self.select(None, Some(difficulty))
    }

    /// Copies of the definitions with a category and a difficulty, in
    /// insertion order.
    pub fn get_by_category_and_difficulty(
        &self,
        category: BrokerCategory,
        difficulty: RemovalDifficulty,
    ) -> (r: Vec<BrokerDefinition>)
        ensures
            copies_of(r@, with_category_and_difficulty(self.entries(), category, difficulty)),
    {
        self.select(Some(category), Some(difficulty))
    }

    /// The number of brokers in the registry.
    pub fn count(&self) -> (r: usize)
        ensures
            r == self.entries().len(),
            r == self@.dom().len(),
            self.consistent(),
    {
        proof {
            use_type_invariant(self);
            lemma_map_of_len(self.definitions@);
        }
        self.definitions.len()
    }

    /// Whether a broker is in the registry.
    pub fn contains(&self, broker_id: &BrokerId) -> (r: bool)
        ensures
            r == self@.contains_key(broker_id@),
    {
        self.position(broker_id).is_some()
    }

    /// The identifiers of all brokers, in insertion order.
    pub fn get_all_ids(&self) -> (r: Vec<BrokerId>)
        ensures
            r@.len() == self.entries().len(),
            forall|i: int| 0 <= i < r@.len() ==> #[trigger] r@[i] == self.entries()[i].broker.id,
            self.consistent(),
    {
        proof {
            use_type_invariant(self);
        }
        let mut r: Vec<BrokerId> = Vec::new();
        let mut i: usize = 0;
        while i < self.definitions.len()
            invariant
                i <= self.definitions@.len(),
                r@.len() == i,
                forall|j: int| 0 <= j < i ==> #[trigger] r@[j] == self.definitions@[j].broker.id,
            decreases self.definitions@.len() - i,
        {
            r.push(self.definitions[i].broker.id.clone());
            i += 1;
        }
        r
    }

    /// For each category that has brokers, the number of brokers in it, in
    /// the order the categories first occur.
    pub fn count_by_category(&self) -> (r: Vec<(BrokerCategory, usize)>)
        ensures
            forall|a: int, b: int| 0 <= a < b < r@.len() ==> r@[a].0 != r@[b].0,
            forall|c: BrokerCategory| with_category(self.entries(), c).len() > 0 <==> exists|k: int|
                0 <= k < r@.len() && #[trigger] r@[k].0 == c,
            forall|k: int| 0 <= k < r@.len() ==> #[trigger] r@[k].1 == with_category(self.entries(), r@[k].0).len(),
    {
        let mut r: Vec<(BrokerCategory, usize)> = Vec::new();
        let mut i: usize = 0;
        while i < self.definitions.len()
            invariant
                i <= self.definitions@.len(),
                forall|a: int, b: int| 0 <= a < b < r@.len() ==> r@[a].0 != r@[b].0,
                forall|c: BrokerCategory| with_category(self.definitions@.take(i as int), c).len() > 0 <==> exists|k: int|
                    0 <= k < r@.len() && #[trigger] r@[k].0 == c,
                forall|k: int| 0 <= k < r@.len() ==> #[trigger] r@[k].1 == with_category(self.definitions@.take(i as int), r@[k].0).len(),
                r@.len() <= i,
            decreases self.definitions@.len() - i,
        {
            let c = self.definitions[i].broker.category;
            let ghost s0 = self.definitions@.take(i as int);
            let ghost s1 = self.definitions@.take(i + 1);
            proof {
                assert(s1.drop_last() =~= s0);
                assert(s1.last().broker.category == c);
                assert forall|x: BrokerCategory| #[trigger] with_category(s1, x).len() == with_category(s0, x).len()
                    + (if x == c { 1int } else { 0int }) by {
                }
            }
            let mut k: usize = 0;
            while k < r.len() && r[k].0 != c
                invariant
                    k <= r@.len(),
                    forall|j: int| 0 <= j < k ==> r@[j].0 != c,
                decreases r@.len() - k,
            {
                k += 1;
            }
            let ghost r0 = r@;
            if k < r.len() {
                let cnt = r[k].1;
                assert(r@[k as int].1 == with_category(s0, r@[k as int].0).len());
                assert(cnt < i + 1) by {
                    lemma_selected_len(s0, Some(c), None);
                }
                r.set(k, (c, cnt + 1));
                proof {
                    assert forall|x: BrokerCategory| with_category(s1, x).len() > 0 <==> exists|j: int|
                        0 <= j < r@.len() && #[trigger] r@[j].0 == x by {
                        if with_category(s0, x).len() > 0 {
                            let j = choose|j: int| 0 <= j < r0.len() && #[trigger] r0[j].0 == x;
                            assert(r@[j].0 == x);
                        }
                        if exists|j: int| 0 <= j < r@.len() && #[trigger] r@[j].0 == x {
                            let j = choose|j: int| 0 <= j < r@.len() && #[trigger] r@[j].0 == x;
                            assert(r0[j].0 == x);
                        }
                    }
                }
            } else {
                r.push((c, 1));
                proof {
                    assert(with_category(s0, c).len() == 0);
                    assert forall|x: BrokerCategory| with_category(s1, x).len() > 0 <==> exists|j: int|
                        0 <= j < r@.len() && #[trigger] r@[j].0 == x by {
                        if with_category(s0, x).len() > 0 {
                            let j = choose|j: int| 0 <= j < r0.len() && #[trigger] r0[j].0 == x;
                            assert(r@[j].0 == x);
                        }
                        if exists|j: int| 0 <= j < r@.len() && #[trigger] r@[j].0 == x {
                            let j = choose|j: int| 0 <= j < r@.len() && #[trigger] r@[j].0 == x;
                            if j < r0.len() {
                                assert(r0[j].0 == x);
                            }
                        }
                        if x == c {
                            assert(r@[r0.len() as int].0 == x);
                        }
                    }
                }
            }
            i += 1;
        }
        assert(self.definitions@.take(self.definitions@.len() as int) =~= self.definitions@);
        r
    }

    /// Validates a definition and, when it is valid, adds it or replaces the
    /// one with the same identifier.
    pub fn insert(&mut self, definition: BrokerDefinition) -> (r: Result<(), BrokerError>)
        ensures
            validation_outcome(definition.broker.id@, definition_problem(definition), r),
            r is Ok ==> final(self)@ == old(self)@.insert(definition.broker.id@, definition),
            r is Err ==> final(self)@ == old(self)@,
            old(self).consistent(),
            final(self).consistent(),
    {
        proof {
            use_type_invariant(&*self);
        }
        let v = definition.validate();
        if v.is_err() {
            return v;
        }
        self.put(definition);
        Ok(())
    }

    /// Removes a definition; returns whether it was present.
    pub fn remove(&mut self, broker_id: &BrokerId) -> (r: bool)
        ensures
            r == old(self)@.contains_key(broker_id@),
            final(self)@ == old(self)@.remove(broker_id@),
            old(self).consistent(),
            final(self).consistent(),
    {
        proof {
            use_type_invariant(&*self);
        }
        let ghost before = self.definitions@;
        let ghost key = broker_id@;
        match self.position(broker_id) {
            Some(i) => {
                let mut v: Vec<BrokerDefinition> = Vec::new();
                std::mem::swap(&mut v, &mut self.definitions);
                v.remove(i);
                proof {
                    let after = v@;
                    assert(after =~= before.remove(i as int));
                    assert(ids_of(after) =~= ids_of(before).remove(i as int));
                    let ia = ids_of(after);
                    let ib = ids_of(before);
                    assert(ia.no_duplicates()) by {
                        assert forall|a: int, b: int| 0 <= a < b < ia.len() implies ia[a] != ia[b] by {
                            let a2 = if a < i { a } else { a + 1 };
                            let b2 = if b < i { b } else { b + 1 };
                            assert(ib[a2] != ib[b2]);
                        }
                    }
                    let m = map_of(before).remove(key);
                    lemma_map_of_dom(before);
                    assert(m.dom() =~= ia.to_set()) by {
                        assert forall|k: Seq<char>| m.dom().contains(k) <==> ia.contains(k) by {
                            if ia.contains(k) {
                                let j = choose|j: int| 0 <= j < ia.len() && ia[j] == k;
                                let j2 = if j < i { j } else { j + 1 };
                                assert(ib[j2] == k);
                                assert(ib[j2] != ib[i as int]);
                            }
                            if m.dom().contains(k) {
                                let j = choose|j: int| 0 <= j < ib.len() && ib[j] == k;
                                assert(j != i);
                                if j < i {
                                    assert(ia[j] == k);
                                } else {
                                    assert(ia[j - 1] == k);
                                }
                            }
                        }
                    }
                    assert forall|j: int| 0 <= j < after.len() implies m[#[trigger] after[j].broker.id@] == after[j] by {
                        let j2 = if j < i { j } else { j + 1 };
                        lemma_map_of_lookup(before, j2);
                        assert(ib[j2] != ib[i as int]);
                    }
                    lemma_map_of_ext(after, m);
                }
                self.definitions = v;
                true
            },
            None => {
                assert(self@.remove(key) =~= self@);
                false
            },
        }
    }
}

impl Default for BrokerRegistry {
    fn default() -> (r: Self)
        ensures
            r@ == Map::<Seq<char>, BrokerDefinition>::empty(),
    {
        Self::new()
    }
}

/// After a definition is inserted, the registry holds exactly it under its
/// identifier, so `get` yields a copy of it.
pub proof fn law_insert_then_get(m: Map<Seq<char>, BrokerDefinition>, d: BrokerDefinition)
    ensures
        m.insert(d.broker.id@, d).contains_key(d.broker.id@),
        definition_eq(m.insert(d.broker.id@, d)[d.broker.id@], d),
{
    lemma_definition_eq_refl(d);
}

/// Every definition equals itself part by part.
pub proof fn lemma_definition_eq_refl(d: BrokerDefinition)
    ensures
        definition_eq(d, d),
{
}

/// After a removal the identifier is absent; inserting a new identifier and
/// removing it again restores the registry.
pub proof fn law_remove(m: Map<Seq<char>, BrokerDefinition>, id: Seq<char>, d: BrokerDefinition)
    ensures
        !m.remove(id).contains_key(id),
        !m.contains_key(d.broker.id@) ==> m.insert(d.broker.id@, d).remove(d.broker.id@) == m,
{
    if !m.contains_key(d.broker.id@) {
        assert(m.insert(d.broker.id@, d).remove(d.broker.id@) =~= m);
    }
}

/// The per-category counts add up to the number of brokers.
pub proof fn law_category_counts_sum(s: Seq<BrokerDefinition>)
    ensures
        with_category(s, BrokerCategory::PeopleSearch).len() + with_category(s, BrokerCategory::BackgroundCheck).len() + with_category(s, BrokerCategory::DataAggregator).len() + with_category(s, BrokerCategory::Financial).len() + with_category(s, BrokerCategory::GovernmentRecords).len() + with_category(s, BrokerCategory::Marketing).len() + with_category(s, BrokerCategory::SocialMedia).len() + with_category(s, BrokerCategory::Other).len() == s.len(),
    decreases s.len(),
{
    if s.len() > 0 {
        law_category_counts_sum(s.drop_last());
    }
}

} // verus!
