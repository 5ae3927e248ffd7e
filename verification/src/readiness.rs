//! Listener readiness: the service is ready once every required listener has
//! been marked ready.

use vstd::prelude::*;
use crate::text::{chars_eq, chars_lt, chars_of, lemma_text_lt_irreflexive, lemma_text_lt_total, lemma_text_lt_transitive, text_lt};

verus! {

/// The readiness of each named listener, with the set of listeners that must
/// be ready for the whole service to be ready.
pub struct Readiness {
    required: Vec<String>,
    states: Vec<(String, bool)>,
}

/// The listener states as a map from name to readiness; a later entry for a
/// name replaces an earlier one.
pub open spec fn state_map(s: Seq<(String, bool)>) -> Map<Seq<char>, bool>
    decreases s.len(),
{
    if s.len() == 0 {
        Map::empty()
    } else {
        state_map(s.drop_last()).insert(s.last().0@, s.last().1)
    }
}

/// The names of a list of strings, as a set.
pub open spec fn name_set(s: Seq<String>) -> Set<Seq<char>> {
    Set::new(|n: Seq<char>| exists|i: int| 0 <= i < s.len() && s[i]@ == n)
}

pub open spec fn distinct_names(s: Seq<(String, bool)>) -> bool {
    forall|i: int, j: int| 0 <= i < s.len() && 0 <= j < s.len() && i != j ==> s[i].0@ != s[j].0@
}

/// Entries in increasing order of their names, as a `BTreeMap` keeps them.
pub open spec fn sorted_names(s: Seq<(String, bool)>) -> bool {
    forall|i: int, j: int| 0 <= i < j < s.len() ==> text_lt(#[trigger] s[i].0@, #[trigger] s[j].0@)
}

proof fn lemma_sorted_distinct(s: Seq<(String, bool)>)
    requires
        sorted_names(s),
    ensures
        distinct_names(s),
{
    assert forall|i: int, j: int| 0 <= i < s.len() && 0 <= j < s.len() && i != j implies s[i].0@ != s[j].0@ by {
        lemma_text_lt_irreflexive(s[i].0@);
        if i < j {
            assert(text_lt(s[i].0@, s[j].0@));
        } else {
            assert(text_lt(s[j].0@, s[i].0@));
        }
    }
}

/// Inserting an entry for a new name adds that name to the map.
proof fn lemma_state_map_insert(s: Seq<(String, bool)>, j: int, x: (String, bool))
    requires
        0 <= j <= s.len(),
        forall|k: int| 0 <= k < s.len() ==> #[trigger] s[k].0@ != x.0@,
    ensures
        state_map(s.insert(j, x)) == state_map(s).insert(x.0@, x.1),
    decreases s.len(),
{
    let u = s.insert(j, x);
    if j == s.len() {
        assert(u.drop_last() =~= s);
        assert(u.last() == x);
    } else {
        let d = s.drop_last();
        assert(u.drop_last() =~= d.insert(j, x));
        assert(u.last() == s.last());
        assert forall|k: int| 0 <= k < d.len() implies #[trigger] d[k].0@ != x.0@ by {
            assert(d[k] == s[k]);
        }
        lemma_state_map_insert(d, j, x);
        assert(s.last().0@ != x.0@) by {
            assert(s[s.len() - 1] == s.last());
        }
        assert(state_map(u) =~= state_map(s).insert(x.0@, x.1));
    }
}

pub open spec fn distinct_strings(s: Seq<String>) -> bool {
    forall|i: int, j: int| 0 <= i < s.len() && 0 <= j < s.len() && i != j ==> s[i]@ != s[j]@
}

proof fn lemma_state_map_dom(s: Seq<(String, bool)>, k: Seq<char>)
    ensures
        state_map(s).dom().contains(k) <==> exists|i: int| 0 <= i < s.len() && s[i].0@ == k,
    decreases s.len(),
{
    if s.len() > 0 {
        lemma_state_map_dom(s.drop_last(), k);
        if state_map(s).dom().contains(k) && s.last().0@ != k {
            let i = choose|i: int| 0 <= i < s.drop_last().len() && s.drop_last()[i].0@ == k;
            assert(s[i].0@ == k);
        }
        if exists|i: int| 0 <= i < s.len() && s[i].0@ == k {
            let i = choose|i: int| 0 <= i < s.len() && s[i].0@ == k;
            if i < s.len() - 1 {
                assert(s.drop_last()[i].0@ == k);
            }
        }
    }
}

proof fn lemma_state_map_value(s: Seq<(String, bool)>, i: int)
    requires
        distinct_names(s),
        0 <= i < s.len(),
    ensures
        state_map(s).dom().contains(s[i].0@),
        state_map(s)[s[i].0@] == s[i].1,
    decreases s.len(),
{
    if i < s.len() - 1 {
        assert(distinct_names(s.drop_last()));
        assert(s.drop_last()[i] == s[i]);
        lemma_state_map_value(s.drop_last(), i);
        assert(s.last().0@ != s[i].0@);
    }
}

proof fn lemma_state_map_update(s: Seq<(String, bool)>, i: int, x: (String, bool))
    requires
        0 <= i < s.len(),
        s[i].0@ == x.0@,
        distinct_names(s),
    ensures
        state_map(s.update(i, x)) == state_map(s).insert(x.0@, x.1),
    decreases s.len(),
{
    let u = s.update(i, x);
    if i == s.len() - 1 {
        assert(u.drop_last() =~= s.drop_last());
        lemma_state_map_dom(s.drop_last(), x.0@);
        if state_map(s.drop_last()).dom().contains(x.0@) {
            let j = choose|j: int| 0 <= j < s.drop_last().len() && s.drop_last()[j].0@ == x.0@;
            assert(s[j].0@ == s[i].0@);
        }
        assert(state_map(u) =~= state_map(s).insert(x.0@, x.1));
    } else {
        assert(u.drop_last() =~= s.drop_last().update(i, x));
        assert(distinct_names(s.drop_last()));
        lemma_state_map_update(s.drop_last(), i, x);
        assert(s.last().0@ != x.0@);
        assert(state_map(u) =~= state_map(s).insert(x.0@, x.1));
    }
}

impl Readiness {
    /// Each listener has one entry.
    pub closed spec fn inv(self) -> bool {
        &&& distinct_names(self.states@)
        &&& sorted_names(self.states@)
    }

    /// The listeners that must be ready.
    pub closed spec fn required_names(self) -> Set<Seq<char>> {
        name_set(self.required@)
    }

    /// The last state marked for each listener.
    pub closed spec fn states(self) -> Map<Seq<char>, bool> {
        state_map(self.states@)
    }

    /// Every required listener is known and marked ready.
    pub open spec fn ready_spec(self) -> bool {
        forall|n: Seq<char>| #[trigger] self.required_names().contains(n) ==> self.states().dom().contains(n)
            && self.states()[n]
    }

    /// A readiness that requires nothing and knows no listener.
    pub fn new() -> (r: Readiness)
        ensures
            r.inv(),
            r.required_names() == Set::<Seq<char>>::empty(),
            r.states() == Map::<Seq<char>, bool>::empty(),
    {
        let r = Readiness { required: Vec::new(), states: Vec::new() };
        assert(r.required_names() =~= Set::<Seq<char>>::empty());
        r
    }

    fn position(&self, name: &Vec<char>) -> (r: Option<usize>)
        ensures
            match r {
                Some(i) => i < self.states@.len() && self.states@[i as int].0@ == name@,
                None => forall|j: int| 0 <= j < self.states@.len() ==> self.states@[j].0@ != name@,
            },
    {
        let mut i: usize = 0;
        while i < self.states.len()
            invariant
                i <= self.states@.len(),
                forall|j: int| 0 <= j < i ==> self.states@[j].0@ != name@,
            decreases self.states@.len() - i,
        {
            let key = chars_of(self.states[i].0.as_str());
            if chars_eq(key.as_slice(), name.as_slice()) {
                return Some(i);
            }
            i = i + 1;
        }
        None
    }

    /// Require the given listeners, each known and not yet ready.
    pub fn with_required(required: Vec<String>) -> (r: Readiness)
        ensures
            r.inv(),
            r.required_names() == name_set(required@),
            r.states() == Map::new(|n: Seq<char>| name_set(required@).contains(n), |n: Seq<char>| false),
    {
        let mut r = Readiness::new();
        let mut i: usize = 0;
        while i < required.len()
            invariant
                i <= required@.len(),
                r.inv(),
                r.required_names() == name_set(required@.take(i as int)),
                r.states() == Map::new(|n: Seq<char>| name_set(required@.take(i as int)).contains(n), |n: Seq<char>| false),
            decreases required@.len() - i,
        {
            let ghost before = r.states();
            let name = required[i].clone();
            r.add_required(name);
            proof {
                let t = required@.take(i + 1);
                assert(t.drop_last() =~= required@.take(i as int));
                assert forall|n: Seq<char>| name_set(t).contains(n) <==> name_set(required@.take(i as int)).contains(n) || n == required@[i as int]@ by {
                    if name_set(t).contains(n) {
                        let j = choose|j: int| 0 <= j < t.len() && t[j]@ == n;
                        if j < i {
                            assert(required@.take(i as int)[j]@ == n);
                        }
                    }
                    if name_set(required@.take(i as int)).contains(n) {
                        let j = choose|j: int| 0 <= j < i && required@.take(i as int)[j]@ == n;
                        assert(t[j]@ == n);
                    }
                    if n == required@[i as int]@ {
                        assert(t[i as int]@ == n);
                    }
                }
                assert(r.required_names() =~= name_set(t));
                assert(r.states() =~= Map::new(|n: Seq<char>| name_set(t).contains(n), |n: Seq<char>| false));
            }
            i = i + 1;
        }
        assert(required@.take(required@.len() as int) =~= required@);
        r
    }

    fn add_required(&mut self, name: String)
        requires
            old(self).inv(),
        ensures
            final(self).inv(),
            final(self).required_names() == old(self).required_names().insert(name@),
            final(self).states() == if old(self).required_names().contains(name@) {
                old(self).states()
            } else {
                old(self).states().insert(name@, false)
            },
    {
        let ghost old_required = self.required@;
        let key = chars_of(name.as_str());
        let mut known = false;
        let mut i: usize = 0;
        while i < self.required.len()
            invariant
                i <= self.required@.len(),
                key@ == name@,
                known == exists|j: int| 0 <= j < i && self.required@[j]@ == name@,
            decreases self.required@.len() - i,
        {
            let other = chars_of(self.required[i].as_str());
            if chars_eq(other.as_slice(), key.as_slice()) {
                known = true;
            }
            i = i + 1;
        }
        if known {
            proof {
                assert(name_set(self.required@).contains(name@));
                assert(name_set(self.required@).insert(name@) =~= name_set(self.required@));
            }
            return;
        }
        assert(!name_set(self.required@).contains(name@));
        self.required.push(name.clone());
        proof {
            assert forall|n: Seq<char>| name_set(self.required@).contains(n) <==> name_set(old_required).insert(name@).contains(n) by {
                if name_set(self.required@).contains(n) {
                    let j = choose|j: int| 0 <= j < self.required@.len() && self.required@[j]@ == n;
                    if j < old_required.len() {
                        assert(old_required[j]@ == n);
                    }
                }
                if name_set(old_required).contains(n) {
                    let j = choose|j: int| 0 <= j < old_required.len() && old_required[j]@ == n;
                    assert(self.required@[j]@ == n);
                }
                if n == name@ {
                    assert(self.required@[old_required.len() as int]@ == n);
                }
            }
            assert(name_set(self.required@) =~= name_set(old_required).insert(name@));
        }
        self.mark_owned(name, false);
    }

    fn mark_owned(&mut self, name: String, ready: bool)
        requires
            old(self).inv(),
        ensures
            final(self).inv(),
            final(self).required_names() == old(self).required_names(),
            final(self).states() == old(self).states().insert(name@, ready),
    {
        let key = chars_of(name.as_str());
        match self.position(&key) {
            Some(i) => {
                let ghost s = self.states@;
                proof {
                    lemma_state_map_update(s, i as int, (name, ready));
                }
                self.states.set(i, (name, ready));
                assert(self.states@ == s.update(i as int, (name, ready)));
                assert(sorted_names(self.states@)) by {
                    assert forall|a: int, b: int| 0 <= a < b < self.states@.len() implies text_lt(
                        #[trigger] self.states@[a].0@,
                        #[trigger] self.states@[b].0@,
                    ) by {
                        assert(self.states@[a].0@ == s[a].0@);
                        assert(self.states@[b].0@ == s[b].0@);
                    }
                }
            },
            None => {
                let ghost s = self.states@;
                let mut j: usize = 0;
                let mut found = false;
                while j < self.states.len() && !found
                    invariant
                        self.states@ == s,
                        j <= s.len(),
                        forall|k: int| 0 <= k < j ==> !text_lt(key@, #[trigger] s[k].0@),
                        found ==> j < s.len() && text_lt(key@, s[j as int].0@),
                    decreases 2 * (s.len() - j) + (if found { 0int } else { 1int }),
                {
                    let other = chars_of(self.states[j].0.as_str());
                    if chars_lt(key.as_slice(), other.as_slice()) {
                        found = true;
                    } else {
                        j = j + 1;
                    }
                }
                let x = (name, ready);
                proof {
                    lemma_state_map_insert(s, j as int, x);
                }
                self.states.insert(j, x);
                let ghost u = self.states@;
                assert(u == s.insert(j as int, x));
                assert(sorted_names(u)) by {
                    assert forall|a: int, b: int| 0 <= a < b < u.len() implies text_lt(#[trigger] u[a].0@, #[trigger] u[b].0@) by {
                        if b < j {
                            assert(u[a] == s[a] && u[b] == s[b]);
                        } else if a < j && b == j {
                            assert(u[a] == s[a] && u[b] == x);
                            lemma_text_lt_total(s[a].0@, key@);
                        } else if a < j {
                            assert(u[a] == s[a] && u[b] == s[b - 1]);
                        } else if a == j {
                            assert(u[a] == x && u[b] == s[b - 1]);
                            if b - 1 > j {
                                lemma_text_lt_transitive(key@, s[j as int].0@, s[b - 1].0@);
                            }
                        } else {
                            assert(u[a] == s[a - 1] && u[b] == s[b - 1]);
                        }
                    }
                }
                proof {
                    lemma_sorted_distinct(u);
                }
            },
        }
    }

    /// Record the readiness of one listener.
    pub fn mark(&mut self, name: &str, ready: bool)
        requires
            old(self).inv(),
        ensures
            final(self).inv(),
            final(self).required_names() == old(self).required_names(),
            final(self).states() == old(self).states().insert(name@, ready),
    {
        self.mark_owned(name.to_owned(), ready);
    }

    fn state_of(&self, name: &Vec<char>) -> (r: Option<bool>)
        requires
            self.inv(),
        ensures
            match r {
                Some(b) => self.states().dom().contains(name@) && self.states()[name@] == b,
                None => !self.states().dom().contains(name@),
            },
    {
        match self.position(name) {
            Some(i) => {
                proof {
                    lemma_state_map_value(self.states@, i as int);
                }
                Some(self.states[i].1)
            },
            None => {
                proof {
                    lemma_state_map_dom(self.states@, name@);
                }
                None
            },
        }
    }

    /// Is every required listener marked ready?
    pub fn is_ready(&self) -> (r: bool)
        requires
            self.inv(),
        ensures
            r == self.ready_spec(),
    {
        let mut i: usize = 0;
        while i < self.required.len()
            invariant
                i <= self.required@.len(),
                self.inv(),
                forall|j: int| 0 <= j < i ==> self.states().dom().contains(#[trigger] self.required@[j]@)
                    && self.states()[self.required@[j]@],
            decreases self.required@.len() - i,
        {
            let key = chars_of(self.required[i].as_str());
            match self.state_of(&key) {
                Some(true) => {},
                _ => {
                    assert(self.required_names().contains(self.required@[i as int]@));
                    return false;
                },
            }
            i = i + 1;
        }
        proof {
            assert forall|n: Seq<char>| #[trigger] self.required_names().contains(n) implies self.states().dom().contains(n)
                && self.states()[n] by {
                let j = choose|j: int| 0 <= j < self.required@.len() && self.required@[j]@ == n;
                assert(self.states().dom().contains(self.required@[j]@));
            }
        }
        true
    }

    /// Every known listener with its state, one entry per name, in
    /// increasing order of names.
    pub fn snapshot(&self) -> (r: Vec<(String, bool)>)
        requires
            self.inv(),
        ensures
            distinct_names(r@),
            sorted_names(r@),
            state_map(r@) == self.states(),
    {
        let mut r: Vec<(String, bool)> = Vec::new();
        let mut i: usize = 0;
        while i < self.states.len()
            invariant
                i <= self.states@.len(),
                distinct_names(self.states@),
                r@.len() == i,
                forall|j: int| 0 <= j < i ==> r@[j].0@ == self.states@[j].0@ && r@[j].1 == self.states@[j].1,
            decreases self.states@.len() - i,
        {
            let entry = (self.states[i].0.clone(), self.states[i].1);
            r.push(entry);
            i = i + 1;
        }
        proof {
            lemma_state_map_congruent(r@, self.states@);
            assert forall|a: int, b: int| 0 <= a < b < r@.len() implies text_lt(#[trigger] r@[a].0@, #[trigger] r@[b].0@) by {
                assert(text_lt(self.states@[a].0@, self.states@[b].0@));
            }
        }
        r
    }
}

proof fn lemma_state_map_congruent(a: Seq<(String, bool)>, b: Seq<(String, bool)>)
    requires
        a.len() == b.len(),
        forall|j: int| 0 <= j < a.len() ==> a[j].0@ == b[j].0@ && a[j].1 == b[j].1,
        distinct_names(b),
    ensures
        distinct_names(a),
        state_map(a) == state_map(b),
    decreases a.len(),
{
    if a.len() > 0 {
        lemma_state_map_congruent(a.drop_last(), b.drop_last());
    }
}

impl Default for Readiness {
    fn default() -> (r: Readiness)
        ensures
            r.inv(),
            r.required_names() == Set::<Seq<char>>::empty(),
            r.states() == Map::<Seq<char>, bool>::empty(),
    {
        Readiness::new()
    }
}

/// Marking a required listener not ready makes the service not ready.
pub proof fn law_required_listener_down_is_unready(before: Readiness, after: Readiness, name: Seq<char>)
    requires
        before.required_names().contains(name),
        after.required_names() == before.required_names(),
        after.states() == before.states().insert(name, false),
    ensures
        !after.ready_spec(),
{
    assert(after.required_names().contains(name));
}

/// Marking a listener ready never makes a ready service unready.
pub proof fn law_marking_ready_keeps_ready(before: Readiness, after: Readiness, name: Seq<char>)
    requires
        after.required_names() == before.required_names(),
        after.states() == before.states().insert(name, true),
        before.ready_spec(),
    ensures
        after.ready_spec(),
{
    assert forall|n: Seq<char>| #[trigger] after.required_names().contains(n) implies after.states().dom().contains(n)
        && after.states()[n] by {
        assert(before.required_names().contains(n));
    }
}

/// Marking a listener that is not required leaves readiness as it was.
pub proof fn law_unrequired_listener_is_ignored(before: Readiness, after: Readiness, name: Seq<char>, ready: bool)
    requires
        !before.required_names().contains(name),
        after.required_names() == before.required_names(),
        after.states() == before.states().insert(name, ready),
    ensures
        after.ready_spec() == before.ready_spec(),
{
    if before.ready_spec() {
        assert forall|n: Seq<char>| #[trigger] after.required_names().contains(n) implies after.states().dom().contains(n)
            && after.states()[n] by {
            assert(before.required_names().contains(n));
            assert(n != name);
        }
    }
    if after.ready_spec() {
        assert forall|n: Seq<char>| #[trigger] before.required_names().contains(n) implies before.states().dom().contains(n)
            && before.states()[n] by {
            assert(after.required_names().contains(n));
            assert(n != name);
        }
    }
}

/// A readiness just made from its required listeners is ready only when
/// nothing is required.
pub proof fn law_fresh_readiness_waits_for_listeners(r: Readiness, required: Seq<String>)
    requires
        r.required_names() == name_set(required),
        r.states() == Map::new(|n: Seq<char>| name_set(required).contains(n), |n: Seq<char>| false),
    ensures
        r.ready_spec() <==> required.len() == 0,
{
    if required.len() > 0 {
        assert(name_set(required).contains(required[0]@));
        assert(r.required_names().contains(required[0]@));
    } else {
        assert forall|n: Seq<char>| #[trigger] r.required_names().contains(n) implies r.states().dom().contains(n)
            && r.states()[n] by {
            assert(name_set(required).contains(n));
        }
    }
}

} // verus!
