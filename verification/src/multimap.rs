//! Values grouped by name, in the order they were seen: the shape of query
//! strings, form bodies and multipart fields.

use vstd::prelude::*;
use crate::text::{chars_eq, chars_of};

verus! {

/// Groups of values, one entry per name.
pub type Groups = Vec<(String, Vec<String>)>;

pub open spec fn strings_view(v: Seq<String>) -> Seq<Seq<char>> {
    v.map_values(|s: String| s@)
}

/// The groups as a map from each name to its values.
pub open spec fn group_view(g: Seq<(String, Vec<String>)>) -> Map<Seq<char>, Seq<Seq<char>>>
    decreases g.len(),
{
    if g.len() == 0 {
        Map::empty()
    } else {
        group_view(g.drop_last()).insert(g.last().0@, strings_view(g.last().1@))
    }
}

pub open spec fn distinct_keys(g: Seq<(String, Vec<String>)>) -> bool {
    forall|i: int, j: int| 0 <= i < g.len() && 0 <= j < g.len() && i != j ==> g[i].0@ != g[j].0@
}

/// Name/value pairs grouped by name: each name maps to its values in order.
pub open spec fn grouped(entries: Seq<(Seq<char>, Seq<char>)>) -> Map<Seq<char>, Seq<Seq<char>>>
    decreases entries.len(),
{
    if entries.len() == 0 {
        Map::empty()
    } else {
        let m = grouped(entries.drop_last());
        let k = entries.last().0;
        let prior = if m.contains_key(k) { m[k] } else { Seq::empty() };
        m.insert(k, prior.push(entries.last().1))
    }
}

proof fn lemma_group_view_dom(g: Seq<(String, Vec<String>)>, k: Seq<char>)
    ensures
        group_view(g).dom().contains(k) <==> exists|i: int| 0 <= i < g.len() && g[i].0@ == k,
    decreases g.len(),
{
    if g.len() > 0 {
        lemma_group_view_dom(g.drop_last(), k);
        if group_view(g).dom().contains(k) && g.last().0@ != k {
            let i = choose|i: int| 0 <= i < g.drop_last().len() && g.drop_last()[i].0@ == k;
            assert(g[i].0@ == k);
        }
        if exists|i: int| 0 <= i < g.len() && g[i].0@ == k {
            let i = choose|i: int| 0 <= i < g.len() && g[i].0@ == k;
            if i < g.len() - 1 {
                assert(g.drop_last()[i].0@ == k);
            }
        }
    }
}

proof fn lemma_group_view_value(g: Seq<(String, Vec<String>)>, i: int)
    requires
        distinct_keys(g),
        0 <= i < g.len(),
    ensures
        group_view(g).dom().contains(g[i].0@),
        group_view(g)[g[i].0@] == strings_view(g[i].1@),
    decreases g.len(),
{
    if i < g.len() - 1 {
        assert(distinct_keys(g.drop_last()));
        assert(g.drop_last()[i] == g[i]);
        lemma_group_view_value(g.drop_last(), i);
    }
}

proof fn lemma_group_view_update(g: Seq<(String, Vec<String>)>, i: int, x: (String, Vec<String>))
    requires
        0 <= i < g.len(),
        g[i].0@ == x.0@,
        distinct_keys(g),
    ensures
        group_view(g.update(i, x)) == group_view(g).insert(x.0@, strings_view(x.1@)),
    decreases g.len(),
{
    let u = g.update(i, x);
    if i == g.len() - 1 {
        assert(u.drop_last() =~= g.drop_last());
        lemma_group_view_dom(g.drop_last(), x.0@);
        if group_view(g.drop_last()).dom().contains(x.0@) {
            let j = choose|j: int| 0 <= j < g.drop_last().len() && g.drop_last()[j].0@ == x.0@;
            assert(g[j].0@ == g[i].0@);
        }
        assert(group_view(u) =~= group_view(g).insert(x.0@, strings_view(x.1@)));
    } else {
        assert(u.drop_last() =~= g.drop_last().update(i, x));
        assert(distinct_keys(g.drop_last()));
        lemma_group_view_update(g.drop_last(), i, x);
        assert(group_view(u) =~= group_view(g).insert(x.0@, strings_view(x.1@)));
    }
}

/// Add `value` to the group called `key`, creating the group when it is new.
pub fn group_push(g: &mut Groups, key: String, value: String)
    requires
        distinct_keys(old(g)@),
    ensures
        distinct_keys(final(g)@),
        group_view(final(g)@) == group_view(old(g)@).insert(
            key@,
            (if group_view(old(g)@).contains_key(key@) {
                group_view(old(g)@)[key@]
            } else {
                Seq::empty()
            }).push(value@),
        ),
{
    let wanted = chars_of(key.as_str());
    let mut i: usize = 0;
    while i < g.len()
        invariant
            i <= g@.len(),
            wanted@ == key@,
            g@ == old(g)@,
            distinct_keys(g@),
            forall|j: int| 0 <= j < i ==> g@[j].0@ != key@,
        decreases g@.len() - i,
    {
        let name = chars_of(g[i].0.as_str());
        if chars_eq(name.as_slice(), wanted.as_slice()) {
            let ghost s = g@;
            proof {
                lemma_group_view_value(s, i as int);
            }
            let mut values = g[i].1.clone();
            proof {
                assert(values@ =~= s[i as int].1@);
            }
            let ghost before_values = values@;
            values.push(value);
            proof {
                assert(strings_view(values@) =~= strings_view(before_values).push(values@.last()@));
                lemma_group_view_update(s, i as int, (key, values));
            }
            g.set(i, (key, values));
            return;
        }
        i = i + 1;
    }
    let ghost s = g@;
    proof {
        lemma_group_view_dom(s, key@);
    }
    let mut values: Vec<String> = Vec::new();
    let ghost vv = value@;
    values.push(value);
    assert(strings_view(values@) =~= seq![vv]);
    g.push((key, values));
    assert(g@.drop_last() =~= s);
    assert(Seq::<Seq<char>>::empty().push(vv) =~= seq![vv]);
}

/// The pairs' views.
pub open spec fn pairs_view(p: Seq<(String, String)>) -> Seq<(Seq<char>, Seq<char>)> {
    p.map_values(|x: (String, String)| (x.0@, x.1@))
}

/// Group name/value pairs by name, keeping the order of each name's values.
pub fn group_pairs(pairs: Vec<(String, String)>) -> (g: Groups)
    ensures
        distinct_keys(g@),
        group_view(g@) == grouped(pairs_view(pairs@)),
{
    let mut g: Groups = Vec::new();
    let ghost all = pairs_view(pairs@);
    let mut i: usize = 0;
    while i < pairs.len()
        invariant
            i <= pairs@.len(),
            all == pairs_view(pairs@),
            distinct_keys(g@),
            group_view(g@) == grouped(all.take(i as int)),
        decreases pairs@.len() - i,
    {
        let key = pairs[i].0.clone();
        let value = pairs[i].1.clone();
        proof {
            assert(all.take(i + 1).drop_last() =~= all.take(i as int));
            assert(all.take(i + 1).last() == (key@, value@));
        }
        group_push(&mut g, key, value);
        i = i + 1;
    }
    assert(all.take(pairs@.len() as int) =~= all);
    g
}


/// Name/value entries where a later entry for a name replaces an earlier one.
pub type Assoc = Vec<(String, String)>;

/// The entries as a map; a later entry for a name wins.
pub open spec fn assoc_view(a: Seq<(String, String)>) -> Map<Seq<char>, Seq<char>>
    decreases a.len(),
{
    if a.len() == 0 {
        Map::empty()
    } else {
        assoc_view(a.drop_last()).insert(a.last().0@, a.last().1@)
    }
}

/// The map built by inserting the pairs in order.
pub open spec fn last_wins(p: Seq<(Seq<char>, Seq<char>)>) -> Map<Seq<char>, Seq<char>>
    decreases p.len(),
{
    if p.len() == 0 {
        Map::empty()
    } else {
        last_wins(p.drop_last()).insert(p.last().0, p.last().1)
    }
}

pub open spec fn distinct_names(a: Seq<(String, String)>) -> bool {
    forall|i: int, j: int| 0 <= i < a.len() && 0 <= j < a.len() && i != j ==> a[i].0@ != a[j].0@
}

proof fn lemma_assoc_dom(a: Seq<(String, String)>, k: Seq<char>)
    ensures
        assoc_view(a).dom().contains(k) <==> exists|i: int| 0 <= i < a.len() && a[i].0@ == k,
    decreases a.len(),
{
    if a.len() > 0 {
        lemma_assoc_dom(a.drop_last(), k);
        if assoc_view(a).dom().contains(k) && a.last().0@ != k {
            let i = choose|i: int| 0 <= i < a.drop_last().len() && a.drop_last()[i].0@ == k;
            assert(a[i].0@ == k);
        }
        if exists|i: int| 0 <= i < a.len() && a[i].0@ == k {
            let i = choose|i: int| 0 <= i < a.len() && a[i].0@ == k;
            if i < a.len() - 1 {
                assert(a.drop_last()[i].0@ == k);
            }
        }
    }
}

proof fn lemma_assoc_update(a: Seq<(String, String)>, i: int, x: (String, String))
    requires
        0 <= i < a.len(),
        a[i].0@ == x.0@,
        distinct_names(a),
    ensures
        assoc_view(a.update(i, x)) == assoc_view(a).insert(x.0@, x.1@),
    decreases a.len(),
{
    let u = a.update(i, x);
    if i == a.len() - 1 {
        assert(u.drop_last() =~= a.drop_last());
        lemma_assoc_dom(a.drop_last(), x.0@);
        if assoc_view(a.drop_last()).dom().contains(x.0@) {
            let j = choose|j: int| 0 <= j < a.drop_last().len() && a.drop_last()[j].0@ == x.0@;
            assert(a[j].0@ == a[i].0@);
        }
        assert(assoc_view(u) =~= assoc_view(a).insert(x.0@, x.1@));
    } else {
        assert(u.drop_last() =~= a.drop_last().update(i, x));
        assert(distinct_names(a.drop_last()));
        lemma_assoc_update(a.drop_last(), i, x);
        assert(assoc_view(u) =~= assoc_view(a).insert(x.0@, x.1@));
    }
}

/// Set `key` to `value`, replacing an earlier value.
pub fn assoc_insert(a: &mut Assoc, key: String, value: String)
    requires
        distinct_names(old(a)@),
    ensures
        distinct_names(final(a)@),
        assoc_view(final(a)@) == assoc_view(old(a)@).insert(key@, value@),
{
    let wanted = chars_of(key.as_str());
    let mut i: usize = 0;
    while i < a.len()
        invariant
            i <= a@.len(),
            wanted@ == key@,
            a@ == old(a)@,
            distinct_names(a@),
            forall|j: int| 0 <= j < i ==> a@[j].0@ != key@,
        decreases a@.len() - i,
    {
        let name = chars_of(a[i].0.as_str());
        if chars_eq(name.as_slice(), wanted.as_slice()) {
            let ghost s = a@;
            proof {
                lemma_assoc_update(s, i as int, (key, value));
            }
            a.set(i, (key, value));
            return;
        }
        i = i + 1;
    }
    let ghost s = a@;
    a.push((key, value));
    assert(a@.drop_last() =~= s);
}

} // verus!
