//! Accumulation of derived display names: set semantics while the
//! per-contact callback runs, lexicographic order and duplicate freedom on
//! the way out.

use vstd::prelude::*;
use vstd::seq_lib::seq_to_set_distributes_over_add;

use crate::names::ContactRecord;
use crate::names::derive_display_name;
use crate::text::lemma_lex_antisym;
use crate::text::lemma_lex_lt_trans;
use crate::text::lemma_lex_total;
use crate::text::lex_le_exec;
use crate::text::lex_lt;

verus! {

broadcast use vstd::set::group_set_axioms;

/// The character sequences of a sequence of strings.
pub open spec fn views_of(names: Seq<String>) -> Seq<Seq<char>> {
    names.map_values(|s: String| s@)
}

/// Strictly ascending lexicographic order: sorted, with no duplicates.
pub open spec fn strictly_sorted(s: Seq<Seq<char>>) -> bool {
    forall|i: int, j: int| 0 <= i < j < s.len() ==> lex_lt(s[i], s[j])
}

/// The set of display names a sequence of contacts contributes.
pub open spec fn derived_name_set(contacts: Seq<ContactRecord>) -> Set<Seq<char>>
    decreases contacts.len(),
{
    if contacts.len() == 0 {
        Set::empty()
    } else {
        let rest = derived_name_set(contacts.drop_last());
        if contacts.last().contributes() {
            rest.insert(contacts.last().display_name())
        } else {
            rest
        }
    }
}

/// Every contributed name is nonempty: the final list holds no empty entry.
pub proof fn lemma_derived_names_nonempty(contacts: Seq<ContactRecord>)
    ensures
        forall|x: Seq<char>| derived_name_set(contacts).contains(x) ==> x.len() > 0,
    decreases contacts.len(),
{
    if contacts.len() > 0 {
        lemma_derived_names_nonempty(contacts.drop_last());
        let rest = derived_name_set(contacts.drop_last());
        assert forall|x: Seq<char>| derived_name_set(contacts).contains(x) implies x.len() > 0 by {
            if !rest.contains(x) {
                assert(contacts.last().contributes());
                assert(x == contacts.last().display_name());
            }
        }
    }
}

/// Inserting into a string sequence inserts its view into the view sequence.
proof fn lemma_views_insert(s: Seq<String>, i: int, x: String)
    requires
        0 <= i <= s.len(),
    ensures
        views_of(s.insert(i, x)) =~= views_of(s).insert(i, x@),
{
    s.insert_ensures(i, x);
    views_of(s).insert_ensures(i, x@);
    assert forall|k: int| 0 <= k < s.len() + 1 implies views_of(s.insert(i, x))[k] == views_of(
        s,
    ).insert(i, x@)[k] by {
        if k < i {
        } else if k == i {
        } else {
        }
    }
}

/// Inserting anywhere in a sequence inserts into its set of elements.
proof fn lemma_to_set_insert(s: Seq<Seq<char>>, i: int, x: Seq<char>)
    requires
        0 <= i <= s.len(),
    ensures
        s.insert(i, x).to_set() =~= s.to_set().insert(x),
{
    let pre = s.subrange(0, i);
    let post = s.subrange(i, s.len() as int);
    seq_to_set_distributes_over_add(pre.push(x), post);
    pre.lemma_push_to_set_commute(x);
    seq_to_set_distributes_over_add(pre, post);
    assert(pre + post =~= s);
}

/// The shared collection the per-contact callback feeds: it keeps every
/// distinct nonduplicate name once, in arrival order.
pub struct NameAccumulator {
    names: Vec<String>,
}

impl NameAccumulator {
    /// The accumulated names, as a set of character sequences.
    pub closed spec fn contents(&self) -> Set<Seq<char>> {
        views_of(self.names@).to_set()
    }

    /// No name is held twice.
    pub closed spec fn wf(&self) -> bool {
        views_of(self.names@).no_duplicates()
    }

    /// A fresh, empty accumulator.
    pub fn new() -> (acc: NameAccumulator)
        ensures
            acc.wf(),
            acc.contents() =~= Set::<Seq<char>>::empty(),
    {
        let acc = NameAccumulator { names: Vec::new() };
        proof {
            assert(views_of(acc.names@) =~= Seq::<Seq<char>>::empty());
        }
        acc
    }

    /// Whether the name is already present.
    fn contains_name(&self, name: &String) -> (r: bool)
        ensures
            r == self.contents().contains(name@),
    {
        let n = self.names.len();
        let mut j: usize = 0;
        while j < n
            invariant
                n == self.names.len(),
                j <= n,
                forall|k: int| 0 <= k < j ==> views_of(self.names@)[k] != name@,
            decreases n - j,
        {
            if self.names[j] == *name {
                proof {
                    assert(views_of(self.names@)[j as int] == name@);
                    assert(views_of(self.names@).contains(name@));
                }
                return true;
            }
            j = j + 1;
        }
        proof {
            if views_of(self.names@).contains(name@) {
                let w = choose|w: int|
                    0 <= w < views_of(self.names@).len() && views_of(self.names@)[w] == name@;
                assert(false);
            }
        }
        false
    }

    /// Adds one derived name; a value already present is skipped, so the
    /// collection keeps set semantics.
    pub fn add(&mut self, name: String)
        requires
            old(self).wf(),
        ensures
            final(self).wf(),
            final(self).contents() =~= old(self).contents().insert(name@),
    {
        let ghost nv = name@;
        if !self.contains_name(&name) {
            let ghost old_views = views_of(self.names@);
            self.names.push(name);
            proof {
                assert(views_of(self.names@) =~= old_views.push(nv));
                old_views.lemma_push_to_set_commute(nv);
                assert forall|i: int, j: int|
                    0 <= i < j < old_views.push(nv).len() implies old_views.push(nv)[i]
                    != old_views.push(nv)[j] by {
                    if j == old_views.len() {
                        if old_views.push(nv)[i] == nv {
                            assert(old_views.contains(nv));
                        }
                    }
                }
            }
        } else {
            proof {
                assert(old(self).contents().insert(nv) =~= old(self).contents());
            }
        }
    }

    /// Reduces one contact: derives its display name and accumulates it,
    /// unless the contact contributes nothing.
    pub fn add_contact(&mut self, contact: &ContactRecord)
        requires
            old(self).wf(),
        ensures
            final(self).wf(),
            final(self).contents() =~= if contact.contributes() {
                old(self).contents().insert(contact.display_name())
            } else {
                old(self).contents()
            },
    {
        match derive_display_name(contact) {
            Option::Some(name) => self.add(name),
            Option::None => {},
        }
    }

    /// Snapshots the accumulated names as a lexicographically sorted,
    /// duplicate-free list of exactly the accumulated set.
    pub fn finish(self) -> (r: Vec<String>)
        requires
            self.wf(),
        ensures
            strictly_sorted(views_of(r@)),
            views_of(r@).to_set() =~= self.contents(),
    {
        let n = self.names.len();
        let mut out: Vec<String> = Vec::new();
        proof {
            assert(views_of(out@) =~= Seq::<Seq<char>>::empty());
            assert(views_of(self.names@.take(0)) =~= Seq::<Seq<char>>::empty());
        }
        let mut i: usize = 0;
        while i < n
            invariant
                n == self.names.len(),
                i <= n,
                self.wf(),
                strictly_sorted(views_of(out@)),
                views_of(out@).to_set() =~= views_of(self.names@.take(i as int)).to_set(),
            decreases n - i,
        {
            let name = self.names[i].clone();
            proof {
                let views = views_of(self.names@);
                let taken = views_of(self.names@.take(i as int));
                assert(taken =~= views.take(i as int));
                if views_of(out@).to_set().contains(name@) {
                    let w = choose|w: int| 0 <= w < taken.len() && taken[w] == name@;
                    assert(views[w] == views[i as int]);
                    assert(false);
                }
            }
            sorted_insert(&mut out, name);
            proof {
                let taken1 = views_of(self.names@.take(i + 1));
                assert(taken1 =~= views_of(self.names@.take(i as int)).push(
                    self.names@[i as int]@,
                ));
                views_of(self.names@.take(i as int)).lemma_push_to_set_commute(
                    self.names@[i as int]@,
                );
            }
            i = i + 1;
        }
        proof {
            assert(self.names@.take(n as int) =~= self.names@);
        }
        out
    }
}

/// Inserts a new name into a sorted, duplicate-free list at its place.
fn sorted_insert(out: &mut Vec<String>, name: String)
    requires
        strictly_sorted(views_of(old(out)@)),
        !views_of(old(out)@).to_set().contains(name@),
    ensures
        strictly_sorted(views_of(final(out)@)),
        views_of(final(out)@).to_set() =~= views_of(old(out)@).to_set().insert(name@),
{
    let ghost gname = name;
    let ghost nv = name@;
    let ghost old_views = views_of(out@);
    proof {
        assert forall|k: int| 0 <= k < old_views.len() implies old_views[k] != nv by {
            if old_views[k] == nv {
                assert(old_views.contains(nv));
            }
        }
    }
    let n = out.len();
    let mut p: usize = 0;
    while p < n && !lex_le_exec(name.as_str(), out[p].as_str())
        invariant
            n == out.len(),
            p <= n,
            views_of(out@) == old_views,
            name@ == nv,
            forall|k: int| 0 <= k < p ==> lex_lt(old_views[k], nv),
        decreases n - p,
    {
        proof {
            lemma_lex_total(nv, old_views[p as int]);
        }
        p = p + 1;
    }
    proof {
        if p < n {
            assert(lex_lt(nv, old_views[p as int]));
        }
        assert forall|k: int| p <= k < n implies lex_lt(nv, old_views[k]) by {
            if k > p {
                lemma_lex_lt_trans(nv, old_views[p as int], old_views[k]);
            }
        }
    }
    out.insert(p, name);
    proof {
        lemma_views_insert(old(out)@, p as int, gname);
        lemma_to_set_insert(old_views, p as int, nv);
        let new_views = old_views.insert(p as int, nv);
        old_views.insert_ensures(p as int, nv);
        assert(views_of(out@) =~= new_views);
        assert forall|i: int, j: int| 0 <= i < j < new_views.len() implies lex_lt(
            new_views[i],
            new_views[j],
        ) by {
            if j < p {
            } else if i > p {
            } else if i == p {
                assert(new_views[i] == nv);
            } else if j == p {
                assert(new_views[j] == nv);
            }
        }
    }
}

/// Reduces a batch of contacts to the final name list: derives each display
/// name, deduplicates, and returns the distinct nonempty names in ascending
/// lexicographic order.
pub fn collect_contact_names(contacts: &Vec<ContactRecord>) -> (r: Vec<String>)
    ensures
        strictly_sorted(views_of(r@)),
        views_of(r@).to_set() =~= derived_name_set(contacts@),
        forall|k: int| 0 <= k < r@.len() ==> views_of(r@)[k].len() > 0,
{
    let mut acc = NameAccumulator::new();
    proof {
        assert(contacts@.take(0) =~= Seq::<ContactRecord>::empty());
    }
    let n = contacts.len();
    let mut i: usize = 0;
    while i < n
        invariant
            n == contacts.len(),
            i <= n,
            acc.wf(),
            acc.contents() =~= derived_name_set(contacts@.take(i as int)),
        decreases n - i,
    {
        acc.add_contact(&contacts[i]);
        proof {
            let taken1 = contacts@.take(i + 1);
            assert(taken1.drop_last() =~= contacts@.take(i as int));
            assert(taken1.last() == contacts@[i as int]);
        }
        i = i + 1;
    }
    proof {
        assert(contacts@.take(n as int) =~= contacts@);
    }
    let r = acc.finish();
    proof {
        lemma_derived_names_nonempty(contacts@);
        assert forall|k: int| 0 <= k < r@.len() implies views_of(r@)[k].len() > 0 by {
            assert(views_of(r@).contains(views_of(r@)[k]));
            assert(views_of(r@).to_set().contains(views_of(r@)[k]));
            assert(derived_name_set(contacts@).contains(views_of(r@)[k]));
        }
    }
    r
}

/// A strictly sorted sequence is determined by its set of elements: two
/// sorted, duplicate-free lists holding the same names are equal.
pub proof fn lemma_strictly_sorted_unique(a: Seq<Seq<char>>, b: Seq<Seq<char>>)
    requires
        strictly_sorted(a),
        strictly_sorted(b),
        a.to_set() =~= b.to_set(),
    ensures
        a =~= b,
    decreases a.len(),
{
    if a.len() == 0 {
        if b.len() > 0 {
            assert(b.contains(b[0]));
            assert(b.to_set().contains(b[0]));
            assert(a.to_set().contains(b[0]));
            assert(a.contains(b[0]));
        }
    } else if b.len() == 0 {
        assert(a.contains(a[0]));
        assert(a.to_set().contains(a[0]));
        assert(b.to_set().contains(a[0]));
        assert(b.contains(a[0]));
    } else {
        assert(a.contains(a[0]));
        assert(a.to_set().contains(a[0]));
        assert(b.to_set().contains(a[0]));
        assert(b.contains(a[0]));
        assert(b.contains(b[0]));
        assert(b.to_set().contains(b[0]));
        assert(a.to_set().contains(b[0]));
        assert(a.contains(b[0]));
        let ia = choose|ia: int| 0 <= ia < b.len() && b[ia] == a[0];
        let ib = choose|ib: int| 0 <= ib < a.len() && a[ib] == b[0];
        if ia > 0 && ib > 0 {
            assert(lex_lt(b[0], b[ia]));
            assert(lex_lt(a[0], a[ib]));
            lemma_lex_antisym(a[0], b[0]);
            assert(false);
        }
        assert(a[0] == b[0]);
        let at = a.skip(1);
        let bt = b.skip(1);
        assert forall|x: Seq<char>| at.to_set().contains(x) implies bt.to_set().contains(x) by {
            lemma_tail_member(a, b, x);
        }
        assert forall|x: Seq<char>| bt.to_set().contains(x) implies at.to_set().contains(x) by {
            lemma_tail_member(b, a, x);
        }
        lemma_strictly_sorted_unique(at, bt);
        assert forall|k: int| 0 <= k < a.len() implies a[k] == b[k] by {
            if k > 0 {
                assert(at[k - 1] == bt[k - 1]);
            }
        }
    }
}

/// Helper for the uniqueness proof: a member of one sorted list's tail, when
/// both lists hold the same set and the same head, sits in the other's tail.
proof fn lemma_tail_member(a: Seq<Seq<char>>, b: Seq<Seq<char>>, x: Seq<char>)
    requires
        strictly_sorted(a),
        strictly_sorted(b),
        a.to_set() =~= b.to_set(),
        a.len() > 0,
        b.len() > 0,
        a[0] == b[0],
        a.skip(1).to_set().contains(x),
    ensures
        b.skip(1).to_set().contains(x),
{
    let at = a.skip(1);
    let bt = b.skip(1);
    let i = choose|i: int| 0 <= i < at.len() && at[i] == x;
    assert(a[i + 1] == x);
    assert(lex_lt(a[0], x));
    assert(a.contains(x));
    assert(a.to_set().contains(x));
    assert(b.to_set().contains(x));
    assert(b.contains(x));
    let j = choose|j: int| 0 <= j < b.len() && b[j] == x;
    if j == 0 {
        assert(x == a[0]);
        assert(false);
    }
    assert(bt[j - 1] == x);
    assert(bt.contains(x));
}

/// Two successive fetches over unchanged contacts return identical lists:
/// any two outputs that meet the collector's contract for the same contacts
/// agree name for name.
pub proof fn lemma_fetch_idempotent(contacts: Seq<ContactRecord>, r1: Seq<String>, r2: Seq<String>)
    requires
        strictly_sorted(views_of(r1)),
        views_of(r1).to_set() =~= derived_name_set(contacts),
        strictly_sorted(views_of(r2)),
        views_of(r2).to_set() =~= derived_name_set(contacts),
    ensures
        views_of(r1) =~= views_of(r2),
{
    lemma_strictly_sorted_unique(views_of(r1), views_of(r2));
}

} // verus!
