//! Namespaces remembered per cluster context.
use crate::sorting::{sort_strings, sorted_strings};
use crate::text::chars_of;
use vstd::seq_lib::{to_multiset_contains, to_multiset_remove};
use vstd::prelude::*;

verus! {

/// Remembered namespaces, one entry per context name. Keys are unique.
#[derive(Debug)]
pub struct AppState {
    pub namespaces: Vec<(String, Vec<String>)>,
}

/// The position of the entry for `ctx`, if any.
pub open spec fn entry_index(entries: Seq<(String, Vec<String>)>, ctx: Seq<char>) -> int
    decreases entries.len(),
{
    if entries.len() == 0 {
        -1
    } else if entries.last().0@ == ctx {
        entries.len() - 1
    } else {
        entry_index(entries.drop_last(), ctx)
    }
}

/// The namespaces remembered for `ctx`; none for an unknown context.
pub open spec fn remembered(entries: Seq<(String, Vec<String>)>, ctx: Seq<char>) -> Seq<String> {
    let i = entry_index(entries, ctx);
    if i < 0 {
        Seq::empty()
    } else {
        entries[i].1@
    }
}

/// Some name in `s` reads `x`.
pub open spec fn has_name(s: Seq<String>, x: Seq<char>) -> bool {
    exists|j: int| 0 <= j < s.len() && (#[trigger] s[j])@ == x
}

/// No two names in `s` read the same.
pub open spec fn distinct_names(s: Seq<String>) -> bool {
    forall|i: int, j: int| 0 <= i < j < s.len() ==> (#[trigger] s[i])@ != (#[trigger] s[j])@
}

/// A reordering of names that read differently still reads differently.
proof fn lemma_distinct_perm(a: Seq<String>, b: Seq<String>)
    requires
        a.to_multiset() == b.to_multiset(),
        distinct_names(a),
    ensures
        distinct_names(b),
{
    assert forall|i: int, j: int| 0 <= i < j < b.len() implies (#[trigger] b[i])@ != (
    #[trigger] b[j])@ by {
        if b[i]@ == b[j]@ {
            let br = b.remove(i);
            b.remove_ensures(i);
            to_multiset_remove(b, i);
            assert(br[j - 1] == b[j]);
            to_multiset_contains(br, b[j]);
            assert(br.contains(b[j]));
            to_multiset_contains(b, b[i]);
            to_multiset_contains(a, b[i]);
            assert(b.contains(b[i]));
            let p = choose|p: int| 0 <= p < a.len() && a[p] == b[i];
            let ar = a.remove(p);
            a.remove_ensures(p);
            to_multiset_remove(a, p);
            assert(ar.to_multiset() == br.to_multiset());
            to_multiset_contains(ar, b[j]);
            let q = choose|q: int| 0 <= q < ar.len() && ar[q] == b[j];
            if q < p {
                assert(a[q] == ar[q]);
                assert(a[q]@ == a[p]@);
            } else {
                assert(a[q + 1] == ar[q]);
                assert(a[q + 1]@ == a[p]@);
            }
        }
    }
}

/// Adding a name that is not there keeps the names distinct.
proof fn lemma_distinct_push(v: Seq<String>, s: String)
    requires
        distinct_names(v),
        !has_name(v, s@),
    ensures
        distinct_names(v.push(s)),
{
    let w = v.push(s);
    assert forall|i: int, j: int| 0 <= i < j < w.len() implies (#[trigger] w[i])@ != (
    #[trigger] w[j])@ by {
        if j == v.len() {
            assert(w[i] == v[i]);
            if w[i]@ == s@ {
                assert(v[i]@ == s@);
            }
        } else {
            assert(w[i] == v[i] && w[j] == v[j]);
        }
    }
}

/// Lists with the same multiset hold the same names.
pub proof fn lemma_same_names(a: Seq<String>, b: Seq<String>)
    requires
        a.to_multiset() == b.to_multiset(),
    ensures
        forall|x: Seq<char>| has_name(a, x) <==> has_name(b, x),
{
    assert forall|x: Seq<char>| has_name(a, x) implies has_name(b, x) by {
        let j = choose|j: int| 0 <= j < a.len() && (#[trigger] a[j])@ == x;
        to_multiset_contains(a, a[j]);
        to_multiset_contains(b, a[j]);
        assert(a.contains(a[j]));
        let k = choose|k: int| 0 <= k < b.len() && b[k] == a[j];
        assert(b[k]@ == x);
    }
    assert forall|x: Seq<char>| has_name(b, x) implies has_name(a, x) by {
        let j = choose|j: int| 0 <= j < b.len() && (#[trigger] b[j])@ == x;
        to_multiset_contains(b, b[j]);
        to_multiset_contains(a, b[j]);
        assert(b.contains(b[j]));
        let k = choose|k: int| 0 <= k < a.len() && a[k] == b[j];
        assert(a[k]@ == x);
    }
}

/// Whether some name in `v` reads `x`.
pub fn contains_name(v: &Vec<String>, x: &str) -> (r: bool)
    ensures
        r == has_name(v@, x@),
{
    let mut i: usize = 0;
    while i < v.len()
        invariant
            i <= v@.len(),
            forall|k: int| 0 <= k < i ==> (#[trigger] v@[k])@ != x@,
        decreases v@.len() - i,
    {
        if same_str(v[i].as_str(), x) {
            assert(v@[i as int]@ == x@);
            return true;
        }
        i = i + 1;
    }
    false
}


proof fn lemma_entry_index_bounds(entries: Seq<(String, Vec<String>)>, ctx: Seq<char>)
    ensures
        -1 <= entry_index(entries, ctx) < entries.len(),
        entry_index(entries, ctx) >= 0 ==> entries[entry_index(entries, ctx)].0@ == ctx,
        entry_index(entries, ctx) < 0 ==> forall|k: int|
            0 <= k < entries.len() ==> (#[trigger] entries[k]).0@ != ctx,
    decreases entries.len(),
{
    if entries.len() > 0 {
        lemma_entry_index_bounds(entries.drop_last(), ctx);
        if entries.last().0@ != ctx && entry_index(entries, ctx) < 0 {
            assert forall|k: int| 0 <= k < entries.len() implies (#[trigger] entries[k]).0@
                != ctx by {
                if k < entries.len() - 1 {
                    assert(entries.drop_last()[k] == entries[k]);
                }
            }
        }
    }
}


pub proof fn lemma_has_name_push(v: Seq<String>, s: String, x: Seq<char>)
    ensures
        has_name(v.push(s), x) <==> (has_name(v, x) || s@ == x),
{
    let w = v.push(s);
    if has_name(w, x) {
        let j = choose|j: int| 0 <= j < w.len() && (#[trigger] w[j])@ == x;
        if j < v.len() {
            assert(v[j] == w[j]);
        }
    }
    if has_name(v, x) {
        let j = choose|j: int| 0 <= j < v.len() && (#[trigger] v[j])@ == x;
        assert(w[j] == v[j]);
    }
    if s@ == x {
        assert(w[v.len() as int] == s);
    }
}

proof fn lemma_has_name_prefix(v: Seq<String>, j: int, x: Seq<char>)
    requires
        0 <= j < v.len(),
    ensures
        has_name(v.subrange(0, j + 1), x) <==> (has_name(v.subrange(0, j), x) || v[j]@ == x),
{
    assert(v.subrange(0, j + 1) =~= v.subrange(0, j).push(v[j]));
    lemma_has_name_push(v.subrange(0, j), v[j], x);
}

/// Replacing position `i` by an entry with the same context name moves no
/// context's entry.
proof fn lemma_entry_index_update(
    entries: Seq<(String, Vec<String>)>,
    i: int,
    e: (String, Vec<String>),
)
    requires
        0 <= i < entries.len(),
        e.0@ == entries[i].0@,
    ensures
        forall|c: Seq<char>|
            #[trigger] entry_index(entries.update(i, e), c) == entry_index(entries, c),
    decreases entries.len(),
{
    let u = entries.update(i, e);
    assert forall|c: Seq<char>| #[trigger] entry_index(u, c) == entry_index(entries, c) by {
        if i == entries.len() - 1 {
            assert(u.drop_last() =~= entries.drop_last());
        } else {
            lemma_entry_index_update(entries.drop_last(), i, e);
            assert(u.drop_last() =~= entries.drop_last().update(i, e));
            assert(entry_index(entries.drop_last().update(i, e), c) == entry_index(
                entries.drop_last(),
                c,
            ));
        }
    }
}

/// Copies a list of strings.
pub fn copy_strings(v: &Vec<String>) -> (r: Vec<String>)
    ensures
        r@ == v@,
{
    let mut r: Vec<String> = Vec::new();
    let mut i: usize = 0;
    while i < v.len()
        invariant
            i <= v@.len(),
            r@ == v@.subrange(0, i as int),
        decreases v@.len() - i,
    {
        r.push(v[i].clone());
        i = i + 1;
    }
    assert(r@ =~= v@);
    r
}

/// Whether two strings are equal, character for character.
pub fn same_str(a: &str, b: &str) -> (r: bool)
    ensures
        r == (a@ == b@),
{
    let x = chars_of(a);
    let y = chars_of(b);
    if x.len() != y.len() {
        return false;
    }
    let mut i: usize = 0;
    while i < x.len()
        invariant
            i <= x@.len(),
            x@.len() == y@.len(),
            x@ == a@,
            y@ == b@,
            forall|k: int| 0 <= k < i ==> x@[k] == y@[k],
        decreases x@.len() - i,
    {
        if x[i] != y[i] {
            return false;
        }
        i = i + 1;
    }
    assert(x@ =~= y@);
    true
}

impl AppState {
    pub fn find_entry(&self, context: &str) -> (r: Option<usize>)
        ensures
            r is Some ==> r->0 == entry_index(self.namespaces@, context@),
            r is None ==> entry_index(self.namespaces@, context@) < 0,
    {
        proof {
            lemma_entry_index_bounds(self.namespaces@, context@);
        }
        let mut i: usize = self.namespaces.len();
        assert(self.namespaces@.subrange(0, i as int) =~= self.namespaces@);
        while i > 0
            invariant
                i <= self.namespaces@.len(),
                entry_index(self.namespaces@, context@) == entry_index(
                    self.namespaces@.subrange(0, i as int),
                    context@,
                ),
            decreases i,
        {
            let ghost pre = self.namespaces@.subrange(0, i as int);
            assert(pre.drop_last() =~= self.namespaces@.subrange(0, i - 1));
            if same_str(self.namespaces[i - 1].0.as_str(), context) {
                return Some(i - 1);
            }
            i = i - 1;
        }
        None
    }


    /// Context names are unique, and no context remembers a name twice.
    pub open spec fn wf(&self) -> bool {
        &&& forall|i: int, j: int|
            0 <= i < j < self.namespaces@.len() ==> (#[trigger] self.namespaces@[i]).0@ != (
            #[trigger] self.namespaces@[j]).0@
        &&& forall|i: int|
            0 <= i < self.namespaces@.len() ==> distinct_names((#[trigger] self.namespaces@[i]).1@)
    }

    /// The namespaces remembered for `ctx`.
    pub open spec fn remembered_for(&self, ctx: Seq<char>) -> Seq<String> {
        remembered(self.namespaces@, ctx)
    }

    /// Where the entry for `context` is, creating an empty one if needed.
    fn entry_for(&mut self, context: &str) -> (r: usize)
        ensures
            r < final(self).namespaces@.len(),
            r == entry_index(final(self).namespaces@, context@),
            final(self).remembered_for(context@) == old(self).remembered_for(context@),
            forall|c: Seq<char>|
                c != context@ ==> final(self).remembered_for(c) == old(self).remembered_for(c),
            old(self).wf() ==> final(self).wf(),
    {
        proof {
            lemma_entry_index_bounds(self.namespaces@, context@);
        }
        match self.find_entry(context) {
            Some(i) => i,
            None => {
                let ghost before = self.namespaces@;
                self.namespaces.push((context.to_owned(), Vec::new()));
                proof {
                    assert(self.namespaces@.drop_last() =~= before);
                    assert(self.namespaces@.last().0@ == context@);
                    assert forall|c: Seq<char>| c != context@ implies self.remembered_for(c)
                        == remembered(before, c) by {
                        assert(entry_index(self.namespaces@, c) == entry_index(before, c));
                        lemma_entry_index_bounds(before, c);
                    }
                    assert(self.remembered_for(context@) =~= remembered(before, context@));
                    if old(self).wf() {
                        let n = self.namespaces@;
                        assert forall|a: int, b: int| 0 <= a < b < n.len() implies (
                        #[trigger] n[a]).0@ != (#[trigger] n[b]).0@ by {
                            if b == n.len() - 1 {
                                assert(n[a] == before[a]);
                            } else {
                                assert(n[a] == before[a] && n[b] == before[b]);
                            }
                        }
                        assert forall|a: int| 0 <= a < n.len() implies distinct_names(
                            (#[trigger] n[a]).1@,
                        ) by {
                            if a < n.len() - 1 {
                                assert(n[a] == before[a]);
                            }
                        }
                    }
                }
                self.namespaces.len() - 1
            },
        }
    }

    /// Stores `list` as the entry at position `i`, keeping its context name.
    fn set_entry(&mut self, i: usize, list: Vec<String>, context: Ghost<Seq<char>>)
        requires
            i < old(self).namespaces@.len(),
            i == entry_index(old(self).namespaces@, context@),
        ensures
            final(self).remembered_for(context@) == list@,
            forall|c: Seq<char>|
                c != context@ ==> final(self).remembered_for(c) == old(self).remembered_for(c),
            old(self).wf() && distinct_names(list@) ==> final(self).wf(),
    {
        let ghost before = self.namespaces@;
        proof {
            lemma_entry_index_bounds(before, context@);
        }
        let key = self.namespaces[i].0.clone();
        self.namespaces.set(i, (key, list));
        proof {
            lemma_entry_index_update(before, i as int, self.namespaces@[i as int]);
            assert(self.namespaces@ == before.update(i as int, self.namespaces@[i as int]));
            assert forall|c: Seq<char>| c != context@ implies self.remembered_for(c)
                == remembered(before, c) by {
                assert(entry_index(self.namespaces@, c) == entry_index(before, c));
                lemma_entry_index_bounds(before, c);
            }
            let n = self.namespaces@;
            assert forall|a: int| 0 <= a < n.len() && a != i implies #[trigger] n[a] == before[a] by {}
        }
    }

    /// Remembers `namespace` for `context`: added once, the list sorted.
    pub fn add_namespace(&mut self, context: &str, namespace: &str)
        ensures
            has_name(old(self).remembered_for(context@), namespace@) ==> final(self).remembered_for(context@) == old(self).remembered_for(context@),
            !has_name(old(self).remembered_for(context@), namespace@) ==> sorted_strings(
                final(self).remembered_for(context@),
            ) && forall|x: Seq<char>|
                has_name(final(self).remembered_for(context@), x) <==> (has_name(
                    old(self).remembered_for(context@),
                    x,
                ) || x == namespace@),
            forall|c: Seq<char>|
                c != context@ ==> final(self).remembered_for(c) == old(self).remembered_for(c),
            old(self).wf() ==> final(self).wf(),
    {
        let i = self.entry_for(context);
        if contains_name(&self.namespaces[i].1, namespace) {
            return;
        }
        let mut list = copy_strings(&self.namespaces[i].1);
        let ghost old_list = list@;
        let added = namespace.to_owned();
        list.push(added);
        let ghost pushed = list@;
        let sorted = sort_strings(list);
        proof {
            lemma_same_names(sorted@, pushed);
            assert forall|x: Seq<char>| has_name(pushed, x) <==> (has_name(old_list, x) || x
                == namespace@) by {
                lemma_has_name_push(old_list, pushed.last(), x);
                assert(pushed =~= old_list.push(pushed.last()));
            }
            if old(self).wf() {
                assert(distinct_names(self.namespaces@[i as int].1@));
                assert(pushed =~= old_list.push(pushed.last()));
                lemma_distinct_push(old_list, pushed.last());
                lemma_distinct_perm(pushed, sorted@);
            }
        }
        self.set_entry(i, sorted, Ghost(context@));
    }

    /// Adds the discovered namespaces that `context` does not remember yet,
    /// sorts the list, and returns it.
    pub fn merge_namespaces(&mut self, context: &str, discovered: &[String]) -> (r: Vec<String>)
        ensures
            r@ == final(self).remembered_for(context@),
            sorted_strings(r@),
            forall|x: Seq<char>|
                has_name(r@, x) <==> (has_name(old(self).remembered_for(context@), x) || has_name(
                    discovered@,
                    x,
                )),
            forall|c: Seq<char>|
                c != context@ ==> final(self).remembered_for(c) == old(self).remembered_for(c),
            old(self).wf() ==> final(self).wf() && distinct_names(r@),
    {
        let i = self.entry_for(context);
        let mut list = copy_strings(&self.namespaces[i].1);
        let ghost old_list = list@;
        let ghost w = old(self).wf();
        assert(w ==> distinct_names(list@));
        let mut j: usize = 0;
        assert(discovered@.subrange(0, 0) =~= Seq::<String>::empty());
        while j < discovered.len()
            invariant
                j <= discovered@.len(),
                forall|x: Seq<char>|
                    #![trigger has_name(list@, x)]
                    has_name(list@, x) <==> (has_name(old_list, x) || has_name(
                        discovered@.subrange(0, j as int),
                        x,
                    )),
                w ==> distinct_names(list@),
            decreases discovered@.len() - j,
        {
            let ghost before = list@;
            let found = contains_name(&list, discovered[j].as_str());
            if !found {
                list.push(discovered[j].clone());
            }
            proof {
                assert forall|x: Seq<char>|
                    #![trigger has_name(list@, x)]
                    has_name(list@, x) <==> (has_name(old_list, x) || has_name(
                        discovered@.subrange(0, j + 1),
                        x,
                    )) by {
                    lemma_has_name_prefix(discovered@, j as int, x);
                    assert(has_name(before, x) <==> (has_name(old_list, x) || has_name(
                        discovered@.subrange(0, j as int),
                        x,
                    )));
                    if found {
                        assert(has_name(before, discovered@[j as int]@));
                        assert(list@ == before);
                    }
                    if !found {
                        assert(list@ == before.push(discovered@[j as int]));
                        lemma_has_name_push(before, discovered@[j as int], x);
                    }
                }
                if w && !found {
                    lemma_distinct_push(before, discovered@[j as int]);
                }
            }
            j = j + 1;
        }
        assert(discovered@.subrange(0, discovered@.len() as int) =~= discovered@);
        let ghost collected = list@;
        let sorted = sort_strings(list);
        proof {
            lemma_same_names(sorted@, collected);
            if w {
                lemma_distinct_perm(collected, sorted@);
            }
        }
        let result = copy_strings(&sorted);
        self.set_entry(i, sorted, Ghost(context@));
        result
    }

    /// The namespaces remembered for `context`; empty for an unknown one.
    pub fn get_namespaces(&self, context: &str) -> (r: Vec<String>)
        ensures
            r@ == remembered(self.namespaces@, context@),
    {
        proof {
            lemma_entry_index_bounds(self.namespaces@, context@);
        }
        match self.find_entry(context) {
            Some(i) => copy_strings(&self.namespaces[i].1),
            None => Vec::new(),
        }
    }
}

impl Default for AppState {
    fn default() -> (r: AppState)
        ensures
            r.namespaces@.len() == 0,
            r.wf(),
    {
        AppState { namespaces: Vec::new() }
    }
}

} // verus!
