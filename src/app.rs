//! The session: the single mutable root every handler updates. Its parts
//! are grouped so that each operation can say which groups it leaves alone.
use crate::logs::{LogEvent, LogState, LOG_CHROME_LINES, MAX_LOG_LINES};
use crate::models::{
    fetch_command, AppMode, Command, KubeResource, KubeResourceEvent, PendingAction, ResourceType,
};
use crate::sorting::{sort_by_name, sorted_by_name};
use crate::state::{same_str, AppState};
use crate::text::{contains_seq, contains_str, lower_of, lowercase, push_decimal, push_str};
use std::collections::HashSet;
use vstd::prelude::*;
use vstd::utf8::{decode_utf8, valid_utf8};

verus! {

broadcast use vstd::std_specs::hash::group_hash_axioms;

/// The (kind, namespace, context) triple a watch subscription serves.
#[derive(Debug)]
pub struct WatchKey {
    pub kind: ResourceType,
    pub namespace: String,
    pub context: String,
}

/// The active resource collection and what the user filtered and marked.
pub struct ResourceList {
    pub active_tab: ResourceType,
    /// The snapshot, sorted by name.
    pub items: Vec<KubeResource>,
    /// Positions in `items` that pass the active filters, ascending.
    pub filtered: Vec<usize>,
    /// The highlighted row of the filtered list.
    pub selected: Option<usize>,
    pub filter_query: String,
    /// Rows of the filtered list marked for a multi-item action.
    pub selected_indices: HashSet<usize>,
    /// Phases the pod list is restricted to; empty means no restriction.
    pub status_filter: Vec<String>,
    /// The distinct phases of the current pods, ascending, with counts.
    pub status_filter_items: Vec<(String, usize)>,
    pub status_filter_selected: HashSet<usize>,
    pub status_filter_cursor: Option<usize>,
}

/// The transient or sticky message line.
pub struct Banner {
    pub last_error: Option<String>,
    pub last_success: Option<String>,
    /// When the message was set, in seconds of `now`.
    pub message_time: Option<u64>,
    /// The host's clock in seconds, as last reported.
    pub now: u64,
}

/// Bookkeeping of the one live watch subscription.
pub struct WatchState {
    /// The triple the live subscription serves, if one exists.
    pub watched: Option<WatchKey>,
    /// The subscription was parked after an authorization failure and is
    /// not polled until it is replaced.
    pub parked: bool,
    pub is_loading: bool,
    pub loading_since: Option<u64>,
}

/// The context and namespace pickers.
pub struct Popup {
    pub available_contexts: Vec<String>,
    pub available_namespaces: Vec<String>,
    pub filtered_namespaces: Vec<String>,
    pub namespace_input: String,
    pub namespace_typing: bool,
    pub selected: Option<usize>,
}

/// Read-only viewers and the action being prepared.
pub struct Viewer {
    pub secret_decoded: Option<Vec<(String, String)>>,
    pub secret_scroll: usize,
    pub secret_revealed: bool,
    pub describe_content: Vec<String>,
    pub describe_scroll: usize,
    pub shell_active: bool,
    pub scale_input: String,
    pub pending_action: Option<PendingAction>,
}

pub struct App {
    pub mode: AppMode,
    pub should_quit: bool,
    pub dirty: bool,
    /// The terminal's height in rows, when known.
    pub screen_rows: Option<usize>,
    pub current_namespace: String,
    pub current_context: String,
    pub pending_context: Option<String>,
    pub list: ResourceList,
    pub log: LogState,
    pub banner: Banner,
    pub watch: WatchState,
    pub popup: Popup,
    pub viewer: Viewer,
    pub app_state: AppState,
    /// Work for the host, oldest first.
    pub commands: Vec<Command>,
}

/// The phase a pod reports, "Unknown" when it reports none.
pub open spec fn phase_of(r: KubeResource) -> Seq<char> {
    match r {
        KubeResource::Pod(p) => match p.phase {
            Some(s) => s@,
            None => "Unknown"@,
        },
        _ => "Unknown"@,
    }
}

pub open spec fn names_contain(s: Seq<String>, x: Seq<char>) -> bool {
    exists|j: int| 0 <= j < s.len() && (#[trigger] s[j])@ == x
}

/// The status filter lets `r` through: it is inactive (other tab, or no
/// phase chosen), or `r` is a pod whose phase was chosen.
pub open spec fn status_ok(tab: ResourceType, status: Seq<String>, r: KubeResource) -> bool {
    !(tab == ResourceType::Pod && status.len() > 0) || !(r is Pod) || names_contain(
        status,
        phase_of(r),
    )
}

/// The text filter lets `r` through: the query is empty, or its lower-cased
/// form occurs in the lower-cased name.
pub open spec fn text_ok(query: Seq<char>, r: KubeResource) -> bool {
    query.len() == 0 || contains_seq(lower_of(r.spec_name()), lower_of(query))
}

pub open spec fn passes(
    tab: ResourceType,
    status: Seq<String>,
    query: Seq<char>,
    r: KubeResource,
) -> bool {
    status_ok(tab, status, r) && text_ok(query, r)
}

/// The positions among the first `n` items that pass both filters, ascending.
pub open spec fn kept(
    items: Seq<KubeResource>,
    n: int,
    tab: ResourceType,
    status: Seq<String>,
    query: Seq<char>,
) -> Seq<usize>
    decreases n,
{
    if n <= 0 {
        Seq::empty()
    } else {
        let r = kept(items, n - 1, tab, status, query);
        if passes(tab, status, query, items[n - 1]) {
            r.push((n - 1) as usize)
        } else {
            r
        }
    }
}

/// An item survives filtering exactly when it passes both active filters,
/// each on its own; the survivors keep their relative order.
pub proof fn lemma_kept_members(
    items: Seq<KubeResource>,
    n: int,
    tab: ResourceType,
    status: Seq<String>,
    query: Seq<char>,
)
    requires
        0 <= n <= items.len(),
        n <= usize::MAX,
    ensures
        forall|i: int|
            0 <= i < n ==> (kept(items, n, tab, status, query).contains(i as usize) <==> (
            status_ok(tab, status, #[trigger] items[i]) && text_ok(query, items[i]))),
        forall|a: int, b: int|
            0 <= a < b < kept(items, n, tab, status, query).len() ==> #[trigger] kept(
                items,
                n,
                tab,
                status,
                query,
            )[a] < #[trigger] kept(items, n, tab, status, query)[b],
        forall|a: int|
            0 <= a < kept(items, n, tab, status, query).len() ==> #[trigger] kept(
                items,
                n,
                tab,
                status,
                query,
            )[a] < n,
    decreases n,
{
    if n > 0 {
        lemma_kept_members(items, n - 1, tab, status, query);
        let r = kept(items, n - 1, tab, status, query);
        let last = (n - 1) as usize;
        let rp = r.push(last);
        assert forall|i: int| 0 <= i < n implies (kept(items, n, tab, status, query).contains(
            i as usize,
        ) <==> (status_ok(tab, status, #[trigger] items[i]) && text_ok(query, items[i]))) by {
            if passes(tab, status, query, items[n - 1]) {
                assert(kept(items, n, tab, status, query) == rp);
                if i < n - 1 {
                    if rp.contains(i as usize) {
                        let w = choose|w: int| 0 <= w < rp.len() && #[trigger] rp[w] == i as usize;
                        if w < r.len() {
                            assert(r[w] == i as usize);
                        }
                    }
                    if r.contains(i as usize) {
                        let w = choose|w: int| 0 <= w < r.len() && #[trigger] r[w] == i as usize;
                        assert(rp[w] == i as usize);
                    }
                } else {
                    assert(rp[r.len() as int] == last);
                }
            } else {
                assert(kept(items, n, tab, status, query) == r);
                if i == n - 1 && r.contains(i as usize) {
                    let w = choose|w: int| 0 <= w < r.len() && #[trigger] r[w] == i as usize;
                }
            }
        }
    }
}

/// With an empty query and no active status filter, every item survives,
/// in the order it had.
pub proof fn lemma_kept_all(
    items: Seq<KubeResource>,
    n: int,
    tab: ResourceType,
    status: Seq<String>,
    query: Seq<char>,
)
    requires
        0 <= n <= items.len(),
        n <= usize::MAX,
        query.len() == 0,
        tab != ResourceType::Pod || status.len() == 0,
    ensures
        kept(items, n, tab, status, query).len() == n,
        forall|i: int| 0 <= i < n ==> #[trigger] kept(items, n, tab, status, query)[i] == i,
    decreases n,
{
    if n > 0 {
        lemma_kept_all(items, n - 1, tab, status, query);
        let r = kept(items, n - 1, tab, status, query);
        assert(passes(tab, status, query, items[n - 1]));
        assert(kept(items, n, tab, status, query) == r.push((n - 1) as usize));
    }
}

/// A query that occurs in no item's name leaves nothing.
pub proof fn lemma_kept_none(
    items: Seq<KubeResource>,
    n: int,
    tab: ResourceType,
    status: Seq<String>,
    query: Seq<char>,
)
    requires
        0 <= n <= items.len(),
        query.len() > 0,
        forall|i: int|
            0 <= i < n ==> !contains_seq(lower_of((#[trigger] items[i]).spec_name()), lower_of(query)),
    ensures
        kept(items, n, tab, status, query).len() == 0,
    decreases n,
{
    if n > 0 {
        lemma_kept_none(items, n - 1, tab, status, query);
    }
}

/// The number of pods among the first `n` items whose phase is `phase`.
pub open spec fn phase_count(items: Seq<KubeResource>, n: int, phase: Seq<char>) -> int
    decreases n,
{
    if n <= 0 {
        0
    } else {
        phase_count(items, n - 1, phase) + if items[n - 1] is Pod && phase_of(items[n - 1])
            == phase {
            1int
        } else {
            0int
        }
    }
}

/// The banner text for a watch refused for lack of permission.
pub open spec fn forbidden_message(tab: ResourceType, msg: Seq<char>) -> Seq<char> {
    if msg.len() == 0 {
        "Access denied: cannot list "@ + kind_plural(tab)
    } else {
        "Access denied: "@ + kind_plural(tab) + " \u{2014} "@ + msg
    }
}

pub open spec fn kind_plural(tab: ResourceType) -> Seq<char> {
    match tab {
        ResourceType::Pod => "pods"@,
        ResourceType::Deployment => "deployments"@,
        ResourceType::Secret => "secrets"@,
    }
}

pub open spec fn starts_with(s: Seq<char>, p: Seq<char>) -> bool {
    p.len() <= s.len() && s.subrange(0, p.len() as int) == p
}

/// The tab after `t` in the cycle Pod, Deployment, Secret.
pub open spec fn tab_after(t: ResourceType) -> ResourceType {
    match t {
        ResourceType::Pod => ResourceType::Deployment,
        ResourceType::Deployment => ResourceType::Secret,
        ResourceType::Secret => ResourceType::Pod,
    }
}

/// The tab before `t` in the cycle Pod, Deployment, Secret.
pub open spec fn tab_before(t: ResourceType) -> ResourceType {
    match t {
        ResourceType::Pod => ResourceType::Secret,
        ResourceType::Deployment => ResourceType::Pod,
        ResourceType::Secret => ResourceType::Deployment,
    }
}

fn kind_plural_str(tab: ResourceType) -> (r: &'static str)
    ensures
        r@ == kind_plural(tab),
{
    match tab {
        ResourceType::Pod => "pods",
        ResourceType::Deployment => "deployments",
        ResourceType::Secret => "secrets",
    }
}

/// Whether `s` starts with "Access denied".
pub fn is_access_denied(s: &str) -> (r: bool)
    ensures
        r == starts_with(s@, "Access denied"@),
{
    let c = crate::text::chars_of(s);
    let p = crate::text::chars_of("Access denied");
    if p.len() > c.len() {
        return false;
    }
    let mut i: usize = 0;
    while i < p.len()
        invariant
            p@.len() <= c@.len(),
            i <= p@.len(),
            c@ == s@,
            p@ == "Access denied"@,
            forall|k: int| 0 <= k < i ==> c@[k] == p@[k],
        decreases p@.len() - i,
    {
        if c[i] != p[i] {
            assert(c@.subrange(0, p@.len() as int)[i as int] != p@[i as int]);
            return false;
        }
        i = i + 1;
    }
    assert(c@.subrange(0, p@.len() as int) =~= p@);
    true
}

impl ResourceList {
    pub open spec fn kept_now(&self) -> Seq<usize> {
        kept(
            self.items@,
            self.items@.len() as int,
            self.active_tab,
            self.status_filter@,
            self.filter_query@,
        )
    }

    /// Whether the status filter admits `r`.
    fn status_admits(&self, r: &KubeResource) -> (b: bool)
        ensures
            b == status_ok(self.active_tab, self.status_filter@, *r),
    {
        if !(self.active_tab == ResourceType::Pod && self.status_filter.len() > 0) {
            return true;
        }
        let phase: &str = match r {
            KubeResource::Pod(p) => match &p.phase {
                Some(s) => s.as_str(),
                None => "Unknown",
            },
            _ => {
                return true;
            },
        };
        let mut j: usize = 0;
        while j < self.status_filter.len()
            invariant
                j <= self.status_filter@.len(),
                phase@ == phase_of(*r),
                forall|k: int| 0 <= k < j ==> (#[trigger] self.status_filter@[k])@ != phase@,
            decreases self.status_filter@.len() - j,
        {
            if same_str(self.status_filter[j].as_str(), phase) {
                assert((self.status_filter@[j as int])@ == phase@);
                return true;
            }
            j = j + 1;
        }
        false
    }

    /// Recomputes the filtered list as (name contains the query, ignoring
    /// case) and (phase chosen in the status filter, pod tab only); any
    /// recomputation clears the marked rows.
    pub fn update_filter(&mut self)
        ensures
            final(self).filtered@ == old(self).kept_now(),
            final(self).selected_indices@.is_empty(),
            final(self).active_tab == old(self).active_tab,
            final(self).items == old(self).items,
            final(self).selected == old(self).selected,
            final(self).filter_query == old(self).filter_query,
            final(self).status_filter == old(self).status_filter,
            final(self).status_filter_items == old(self).status_filter_items,
            final(self).status_filter_selected == old(self).status_filter_selected,
            final(self).status_filter_cursor == old(self).status_filter_cursor,
    {
        self.selected_indices = HashSet::new();
        let query = lowercase(self.filter_query.as_str());
        let has_query = !self.filter_query.as_str().is_empty();
        let mut out: Vec<usize> = Vec::new();
        let mut i: usize = 0;
        while i < self.items.len()
            invariant
                i <= self.items@.len(),
                query@ == lower_of(self.filter_query@),
                has_query == (self.filter_query@.len() > 0),
                out@ == kept(
                    self.items@,
                    i as int,
                    self.active_tab,
                    self.status_filter@,
                    self.filter_query@,
                ),
            decreases self.items@.len() - i,
        {
            let item = &self.items[i];
            let mut keep = self.status_admits(item);
            if keep && has_query {
                let name = lowercase(item.name());
                keep = contains_str(name.as_str(), query.as_str());
            }
            if keep {
                out.push(i);
            }
            i = i + 1;
        }
        self.filtered = out;
    }

    /// The item in row `row` of the filtered list.
    pub fn filtered_item(&self, row: usize) -> (r: Option<&KubeResource>)
        ensures
            row < self.filtered@.len() && self.filtered@[row as int] < self.items@.len() ==> r
                == Some(&self.items@[self.filtered@[row as int] as int]),
            !(row < self.filtered@.len() && self.filtered@[row as int] < self.items@.len()) ==> r
                is None,
    {
        if row < self.filtered.len() && self.filtered[row] < self.items.len() {
            Some(&self.items[self.filtered[row]])
        } else {
            None
        }
    }

    /// Clears everything that belongs to the previous tab's collection.
    fn reset_tab_state(&mut self)
        ensures
            final(self).items@.len() == 0,
            final(self).filtered@.len() == 0,
            final(self).selected is None,
            final(self).selected_indices@.is_empty(),
            final(self).status_filter@.len() == 0,
            final(self).active_tab == old(self).active_tab,
            final(self).filter_query == old(self).filter_query,
            final(self).status_filter_items == old(self).status_filter_items,
            final(self).status_filter_selected == old(self).status_filter_selected,
            final(self).status_filter_cursor == old(self).status_filter_cursor,
    {
        self.items = Vec::new();
        self.filtered = Vec::new();
        self.selected = None;
        self.selected_indices = HashSet::new();
        self.status_filter = Vec::new();
    }

    /// The status filter picker rows built from `a` in `b`: the distinct pod
    /// phases ascending, each with its number of pods (at least one), every
    /// pod's phase listed, and a row marked exactly when its phase is in the
    /// status filter.
    pub open spec fn status_rows_post(a: ResourceList, b: ResourceList) -> bool {
        &&& forall|i: int, j: int|
            0 <= i < j < b.status_filter_items@.len() ==> crate::sorting::str_le(
                (#[trigger] b.status_filter_items@[i]).0@,
                (#[trigger] b.status_filter_items@[j]).0@,
            ) && b.status_filter_items@[i].0@ != b.status_filter_items@[j].0@
        &&& forall|i: int|
            0 <= i < b.status_filter_items@.len() ==> (#[trigger] b.status_filter_items@[i]).1
                == phase_count(a.items@, a.items@.len() as int, b.status_filter_items@[i].0@)
                && b.status_filter_items@[i].1 >= 1
        &&& forall|k: int|
            0 <= k < a.items@.len() && (#[trigger] a.items@[k]) is Pod ==> exists|i: int|
                0 <= i < b.status_filter_items@.len() && (#[trigger] b.status_filter_items@[i]).0@
                    == phase_of(a.items@[k])
        &&& forall|i: int|
            0 <= i < b.status_filter_items@.len() ==> (b.status_filter_selected@.contains(
                i as usize,
            ) <==> crate::state::has_name(
                a.status_filter@,
                (#[trigger] b.status_filter_items@[i]).0@,
            ))
        &&& forall|x: usize|
            #[trigger] b.status_filter_selected@.contains(x) ==> x < b.status_filter_items@.len()
    }

    /// Counts the pods per phase: the distinct phases ascending, each with
    /// its number of pods, and marks the rows already in the status filter.
    pub fn build_status_filter_items(&mut self)
        ensures
            ResourceList::status_rows_post(*old(self), *final(self)),
            final(self).items == old(self).items,
            final(self).filtered == old(self).filtered,
            final(self).status_filter == old(self).status_filter,
            forall|i: int, j: int|
                0 <= i < j < final(self).status_filter_items@.len() ==> crate::sorting::str_le(
                    (#[trigger] final(self).status_filter_items@[i]).0@,
                    (#[trigger] final(self).status_filter_items@[j]).0@,
                ) && final(self).status_filter_items@[i].0@ != final(self).status_filter_items@[j].0@,
            forall|i: int|
                0 <= i < final(self).status_filter_items@.len() ==> (#[trigger] final(self).status_filter_items@[i]).1 == phase_count(
                    old(self).items@,
                    old(self).items@.len() as int,
                    final(self).status_filter_items@[i].0@,
                ),
            forall|k: int|
                0 <= k < old(self).items@.len() && (#[trigger] old(self).items@[k]) is Pod
                    ==> exists|i: int|
                    0 <= i < final(self).status_filter_items@.len()
                        && (#[trigger] final(self).status_filter_items@[i]).0@ == phase_of(old(self).items@[k]),
            forall|i: int|
                0 <= i < final(self).status_filter_items@.len() ==> (#[trigger] final(
                    self).status_filter_items@[i]).1 >= 1,
            forall|i: int|
                0 <= i < final(self).status_filter_items@.len() ==> (
                final(self).status_filter_selected@.contains(i as usize) <==> crate::state::has_name(
                    old(self).status_filter@,
                    (#[trigger] final(self).status_filter_items@[i]).0@,
                )),
    {
        let mut counts: Vec<(String, usize)> = Vec::new();
        let mut k: usize = 0;
        while k < self.items.len()
            invariant
                k <= self.items@.len(),
                self.items == old(self).items,
                forall|i: int, j: int|
                    0 <= i < j < counts@.len() ==> crate::sorting::str_le(
                        (#[trigger] counts@[i]).0@,
                        (#[trigger] counts@[j]).0@,
                    ) && counts@[i].0@ != counts@[j].0@,
                forall|i: int|
                    0 <= i < counts@.len() ==> (#[trigger] counts@[i]).1 == phase_count(
                        self.items@,
                        k as int,
                        counts@[i].0@,
                    ),
                forall|i: int| 0 <= i < counts@.len() ==> (#[trigger] counts@[i]).1 <= k,
                forall|i: int| 0 <= i < counts@.len() ==> (#[trigger] counts@[i]).1 >= 1,
                forall|m: int|
                    0 <= m < k && (#[trigger] self.items@[m]) is Pod ==> exists|i: int|
                        0 <= i < counts@.len() && (#[trigger] counts@[i]).0@ == phase_of(self.items@[m]),
            decreases self.items@.len() - k,
        {
            if let KubeResource::Pod(p) = &self.items[k] {
                let phase: &str = match &p.phase {
                    Some(s) => s.as_str(),
                    None => "Unknown",
                };
                counts = count_phase(counts, phase, Ghost(self.items@), k);
            } else {
                proof {
                    assert forall|i: int| 0 <= i < counts@.len() implies (#[trigger] counts@[i]).1
                        == phase_count(self.items@, k + 1, counts@[i].0@) by {}
                }
            }
            k = k + 1;
        }
        let marked = mark_chosen(&self.status_filter, &counts);
        self.status_filter_items = counts;
        self.status_filter_selected = marked;
    }
}

/// The rows of `counts` whose phase is among `chosen`, ascending.
fn mark_chosen(chosen: &Vec<String>, counts: &Vec<(String, usize)>) -> (r: HashSet<usize>)
    ensures
        forall|x: usize| #[trigger] r@.contains(x) ==> x < counts@.len(),
        forall|i: int|
            0 <= i < counts@.len() ==> (r@.contains(i as usize) <==> crate::state::has_name(
                chosen@,
                (#[trigger] counts@[i]).0@,
            )),
{
    let mut marked: HashSet<usize> = HashSet::new();
    let mut i: usize = 0;
    while i < counts.len()
        invariant
            i <= counts@.len(),
            forall|x: usize| #[trigger] marked@.contains(x) ==> x < i,
            forall|x: int|
                0 <= x < i ==> (marked@.contains(x as usize) <==> crate::state::has_name(
                    chosen@,
                    (#[trigger] counts@[x]).0@,
                )),
        decreases counts@.len() - i,
    {
        let mut j: usize = 0;
        let mut found = false;
        while j < chosen.len()
            invariant
                j <= chosen@.len(),
                i < counts@.len(),
                found == exists|t: int| 0 <= t < j && (#[trigger] chosen@[t])@ == counts@[i as int].0@,
            decreases chosen@.len() - j,
        {
            if same_str(chosen[j].as_str(), counts[i].0.as_str()) {
                found = true;
            }
            j = j + 1;
        }
        if found {
            marked.insert(i);
        }
        i = i + 1;
    }
    marked
}

/// Adds item `k` (a pod in phase `phase`) to the sorted phase counts.
fn count_phase(counts: Vec<(String, usize)>, phase: &str, items: Ghost<Seq<KubeResource>>, k: usize) -> (r: Vec<(String, usize)>)
    requires
        k < items@.len(),
        k < usize::MAX,
        items@[k as int] is Pod,
        phase@ == phase_of(items@[k as int]),
        forall|i: int, j: int|
            0 <= i < j < counts@.len() ==> crate::sorting::str_le(
                (#[trigger] counts@[i]).0@,
                (#[trigger] counts@[j]).0@,
            ) && counts@[i].0@ != counts@[j].0@,
        forall|i: int|
            0 <= i < counts@.len() ==> (#[trigger] counts@[i]).1 == phase_count(
                items@,
                k as int,
                counts@[i].0@,
            ),
        forall|i: int| 0 <= i < counts@.len() ==> (#[trigger] counts@[i]).1 <= k,
        forall|i: int| 0 <= i < counts@.len() ==> (#[trigger] counts@[i]).1 >= 1,
        forall|m: int|
            0 <= m < k && (#[trigger] items@[m]) is Pod ==> exists|i: int|
                0 <= i < counts@.len() && (#[trigger] counts@[i]).0@ == phase_of(items@[m]),
    ensures
        forall|i: int, j: int|
            0 <= i < j < r@.len() ==> crate::sorting::str_le(
                (#[trigger] r@[i]).0@,
                (#[trigger] r@[j]).0@,
            ) && r@[i].0@ != r@[j].0@,
        forall|i: int|
            0 <= i < r@.len() ==> (#[trigger] r@[i]).1 == phase_count(items@, k + 1, r@[i].0@),
        forall|i: int| 0 <= i < r@.len() ==> (#[trigger] r@[i]).1 <= k + 1,
        forall|i: int| 0 <= i < r@.len() ==> (#[trigger] r@[i]).1 >= 1,
        forall|m: int|
            0 <= m < k + 1 && (#[trigger] items@[m]) is Pod ==> exists|i: int|
                0 <= i < r@.len() && (#[trigger] r@[i]).0@ == phase_of(items@[m]),
{
    let mut counts = counts;
    let mut pos: usize = 0;
    while pos < counts.len() && crate::sorting::name_le(counts[pos].0.as_str(), phase)
        && !same_str(counts[pos].0.as_str(), phase)
        invariant
            pos <= counts@.len(),
            forall|j: int|
                0 <= j < pos ==> crate::sorting::str_le((#[trigger] counts@[j]).0@, phase@)
                    && counts@[j].0@ != phase@,
        decreases counts@.len() - pos,
    {
        pos = pos + 1;
    }
    let ghost before = counts@;
    if pos < counts.len() && same_str(counts[pos].0.as_str(), phase) {
        let c = counts[pos].1;
        let name = counts[pos].0.clone();
        counts.set(pos, (name, c + 1));
        proof {
            assert forall|i: int| 0 <= i < counts@.len() implies (#[trigger] counts@[i]).1
                == phase_count(items@, k + 1, counts@[i].0@) by {
                if i != pos {
                    assert(counts@[i] == before[i]);
                    assert(before[i].0@ != phase@) by {
                        if i < pos {
                        } else {
                            assert(before[pos as int].0@ != before[i].0@);
                        }
                    };
                }
            }
            assert forall|m: int|
                0 <= m < k + 1 && (#[trigger] items@[m]) is Pod implies exists|i: int|
                0 <= i < counts@.len() && (#[trigger] counts@[i]).0@ == phase_of(items@[m]) by {
                if m < k {
                    let i = choose|i: int| 0 <= i < before.len() && (#[trigger] before[i]).0@ == phase_of(items@[m]);
                    assert(counts@[i].0@ == before[i].0@);
                } else {
                    assert(counts@[pos as int].0@ == phase@);
                }
            }
        }
        counts
    } else {
        proof {
            assert forall|j: int| pos <= j < before.len() implies crate::sorting::str_le(
                phase@,
                (#[trigger] before[j]).0@,
            ) && before[j].0@ != phase@ by {
                crate::sorting::lemma_str_le_total(before[pos as int].0@, phase@);
                assert(before[pos as int].0@ != phase@);
                if j > pos {
                    crate::sorting::lemma_str_le_trans(phase@, before[pos as int].0@, before[j].0@);
                    if before[j].0@ == phase@ {
                        lemma_str_le_antisym(phase@, before[pos as int].0@);
                    }
                }
            }
        }
        counts.insert(pos, (phase.to_owned(), 1));
        proof {
            before.insert_ensures(pos as int, counts@[pos as int]);
            assert forall|i: int| 0 <= i < counts@.len() implies (#[trigger] counts@[i]).1
                == phase_count(items@, k + 1, counts@[i].0@) by {
                if i < pos {
                    assert(counts@[i] == before[i]);
                } else if i > pos {
                    assert(counts@[i] == before[(i - 1) + 1 - 1]);
                    assert(counts@[(i - 1) + 1] == before[i - 1]);
                } else {
                    lemma_phase_count_absent(items@, k as int, phase@, before);
                }
            }
            assert forall|i: int, j: int| 0 <= i < j < counts@.len() implies crate::sorting::str_le(
                (#[trigger] counts@[i]).0@,
                (#[trigger] counts@[j]).0@,
            ) && counts@[i].0@ != counts@[j].0@ by {
                if j < pos {
                } else if j == pos {
                } else if i < pos {
                    assert(counts@[(j - 1) + 1] == before[j - 1]);
                    crate::sorting::lemma_str_le_trans(before[i].0@, phase@, before[j - 1].0@);
                    if before[i].0@ == before[j - 1].0@ {
                        lemma_str_le_antisym(before[i].0@, phase@);
                    }
                } else if i == pos {
                    assert(counts@[(j - 1) + 1] == before[j - 1]);
                } else {
                    assert(counts@[(i - 1) + 1] == before[i - 1]);
                    assert(counts@[(j - 1) + 1] == before[j - 1]);
                }
            }
            assert forall|m: int|
                0 <= m < k + 1 && (#[trigger] items@[m]) is Pod implies exists|i: int|
                0 <= i < counts@.len() && (#[trigger] counts@[i]).0@ == phase_of(items@[m]) by {
                if m < k {
                    let i = choose|i: int| 0 <= i < before.len() && (#[trigger] before[i]).0@ == phase_of(items@[m]);
                    if i < pos {
                        assert(counts@[i] == before[i]);
                    } else {
                        assert(counts@[(i) + 1] == before[i]);
                    }
                } else {
                    assert(counts@[pos as int].0@ == phase@);
                }
            }
        }
        counts
    }
}

proof fn lemma_str_le_antisym(a: Seq<char>, b: Seq<char>)
    requires
        crate::sorting::str_le(a, b),
        crate::sorting::str_le(b, a),
    ensures
        a == b,
    decreases a.len(),
{
    if a.len() > 0 && b.len() > 0 && a[0] == b[0] {
        lemma_str_le_antisym(a.drop_first(), b.drop_first());
        assert(a =~= seq![a[0]] + a.drop_first());
        assert(b =~= seq![b[0]] + b.drop_first());
    } else if a.len() == 0 && b.len() == 0 {
        assert(a =~= b);
    }
}

/// A phase that no counted pod has so far has count zero.
proof fn lemma_phase_count_absent(
    items: Seq<KubeResource>,
    k: int,
    phase: Seq<char>,
    counts: Seq<(String, usize)>,
)
    requires
        0 <= k <= items.len(),
        forall|i: int| 0 <= i < counts.len() ==> (#[trigger] counts[i]).0@ != phase,
        forall|m: int|
            0 <= m < k && (#[trigger] items[m]) is Pod ==> exists|i: int|
                0 <= i < counts.len() && (#[trigger] counts[i]).0@ == phase_of(items[m]),
    ensures
        phase_count(items, k, phase) == 0,
    decreases k,
{
    if k > 0 {
        lemma_phase_count_absent(items, k - 1, phase, counts);
        if items[k - 1] is Pod {
            let i = choose|i: int| 0 <= i < counts.len() && (#[trigger] counts[i]).0@ == phase_of(items[k - 1]);
        }
    }
}

/// Relies on `String::from_utf8`: the text when the bytes are valid UTF-8.
#[verifier::external_body]
fn utf8_text(b: &Vec<u8>) -> (r: Option<String>)
    ensures
        r is Some <==> valid_utf8(b@),
        r is Some ==> r->0@ == decode_utf8(b@),
{
    String::from_utf8(b.clone()).ok()
}

/// The text shown for a secret value: the value when it is UTF-8 text.
pub open spec fn shown_value(b: Seq<u8>) -> Seq<char> {
    if valid_utf8(b) {
        decode_utf8(b)
    } else {
        "<binary>"@
    }
}

impl Banner {
    pub open spec fn shows_error(&self, msg: Seq<char>) -> bool {
        &&& self.last_error is Some
        &&& self.last_error->0@ == msg
        &&& self.last_success is None
        &&& self.message_time == Some(self.now)
    }

    pub open spec fn shows_success(&self, msg: Seq<char>) -> bool {
        &&& self.last_success is Some
        &&& self.last_success->0@ == msg
        &&& self.last_error is None
        &&& self.message_time == Some(self.now)
    }

    /// Sets an error message, replacing any success message.
    pub fn set_error(&mut self, msg: String)
        ensures
            final(self).last_error == Some(msg),
            final(self).last_success is None,
            final(self).message_time == Some(old(self).now),
            final(self).now == old(self).now,
    {
        self.last_error = Some(msg);
        self.last_success = None;
        self.message_time = Some(self.now);
    }

    /// Sets a success message, replacing any error message.
    pub fn set_success(&mut self, msg: String)
        ensures
            final(self).last_success == Some(msg),
            final(self).last_error is None,
            final(self).message_time == Some(old(self).now),
            final(self).now == old(self).now,
    {
        self.last_success = Some(msg);
        self.last_error = None;
        self.message_time = Some(self.now);
    }

    /// What `clear_stale_messages` does: a success message goes after 5
    /// seconds, an error after 15, and an access-denied error never.
    pub open spec fn clear_post(a: Banner, b: Banner) -> bool {
        match a.message_time {
            None => b == a,
            Some(t) => {
                let elapsed = if a.now >= t {
                    a.now - t
                } else {
                    0
                };
                let success_expired = a.last_success is Some && elapsed >= 5;
                let s1 = if success_expired {
                    Banner {
                        last_success: None,
                        message_time: if a.last_error is None {
                            None
                        } else {
                            a.message_time
                        },
                        ..a
                    }
                } else {
                    a
                };
                let error_expired = match s1.last_error {
                    Some(e) => !starts_with(e@, "Access denied"@) && elapsed >= 15,
                    None => false,
                };
                if error_expired {
                    b == Banner { last_error: None, message_time: None, ..s1 }
                } else {
                    b == s1
                }
            },
        }
    }

    /// Expires messages whose time is up, by the clock in `now`.
    pub fn clear_stale_messages(&mut self)
        ensures
            Banner::clear_post(*old(self), *final(self)),
    {
        match self.message_time {
            None => {},
            Some(t) => {
                let elapsed = if self.now >= t {
                    self.now - t
                } else {
                    0
                };
                if self.last_success.is_some() && elapsed >= 5 {
                    self.last_success = None;
                    if self.last_error.is_none() {
                        self.message_time = None;
                    }
                }
                let expired = match &self.last_error {
                    Some(e) => !is_access_denied(e.as_str()) && elapsed >= 15,
                    None => false,
                };
                if expired {
                    self.last_error = None;
                    self.message_time = None;
                }
            },
        }
    }
}

/// An access-denied banner survives every expiry pass: it stays until the
/// watch subscription is replaced.
pub proof fn lemma_forbidden_banner_sticky(a: Banner, b: Banner, tab: ResourceType, msg: Seq<char>)
    requires
        a.last_error is Some,
        a.last_error->0@ == forbidden_message(tab, msg),
        Banner::clear_post(a, b),
    ensures
        b.last_error == a.last_error,
{
    let p = "Access denied"@;
    let e = forbidden_message(tab, msg);
    assert(p =~= "Access denied"@);
    if msg.len() == 0 {
        assert(e =~= "Access denied: cannot list "@ + kind_plural(tab));
    }
    assert(starts_with(e, p)) by {
        reveal_strlit("Access denied");
        reveal_strlit("Access denied: cannot list ");
        reveal_strlit("Access denied: ");
        assert(e.subrange(0, 13) =~= p);
    }
}

impl App {
    /// The session after startup in `namespace` under `context`: list mode
    /// on the pod tab, loading, nothing watched yet.
    pub fn new(namespace: String, context: String, app_state: AppState, now: u64) -> (r: App)
        ensures
            r.log.wf(),
            r.mode == AppMode::List,
            r.list.active_tab == ResourceType::Pod,
            r.current_namespace == namespace,
            r.current_context == context,
            r.watch.is_loading,
            r.watch.loading_since == Some(now),
            r.watch.watched is None,
            !r.watch.parked,
            r.dirty,
            !r.should_quit,
            r.commands@.len() == 0,
            r.app_state == app_state,
            r.log.buffer@.len() == 0,
            r.log.tail_lines == crate::logs::HISTORY_STEP,
            r.log.generation == 0,
            !r.log.loading_history,
            !r.log.history_exhausted,
            !r.log.following,
            r.log.scroll_offset is None,
            r.log.search_query@.len() == 0,
            r.log.search_input@.len() == 0,
            r.log.search_match_line is None,
            !r.log.search_pending,
            r.list.items@.len() == 0,
            r.list.filtered@.len() == 0,
            r.list.selected is None,
            r.list.filter_query@.len() == 0,
            r.list.selected_indices@.is_empty(),
            r.list.status_filter@.len() == 0,
            r.banner.last_error is None,
            r.banner.last_success is None,
            r.banner.message_time is None,
            r.banner.now == now,
            r.popup.available_contexts@.len() == 0,
            r.popup.available_namespaces@.len() == 0,
            r.viewer.pending_action is None,
            r.viewer.secret_decoded is None,
            r.pending_context is None,
    {
        App {
            mode: AppMode::List,
            should_quit: false,
            dirty: true,
            screen_rows: None,
            current_namespace: namespace,
            current_context: context,
            pending_context: None,
            list: ResourceList {
                active_tab: ResourceType::Pod,
                items: Vec::new(),
                filtered: Vec::new(),
                selected: None,
                filter_query: String::new(),
                selected_indices: HashSet::new(),
                status_filter: Vec::new(),
                status_filter_items: Vec::new(),
                status_filter_selected: HashSet::new(),
                status_filter_cursor: None,
            },
            log: LogState::new(),
            banner: Banner { last_error: None, last_success: None, message_time: None, now },
            watch: WatchState {
                watched: None,
                parked: false,
                is_loading: true,
                loading_since: Some(now),
            },
            popup: Popup {
                available_contexts: Vec::new(),
                available_namespaces: Vec::new(),
                filtered_namespaces: Vec::new(),
                namespace_input: String::new(),
                namespace_typing: false,
                selected: None,
            },
            viewer: Viewer {
                secret_decoded: None,
                secret_scroll: 0,
                secret_revealed: false,
                describe_content: Vec::new(),
                describe_scroll: 0,
                shell_active: false,
                scale_input: String::new(),
                pending_action: None,
            },
            app_state,
            commands: Vec::new(),
        }
    }

    /// A session for exercising handlers: context "test-context", namespace
    /// "default", two known contexts and two known namespaces, not loading.
    pub fn new_test() -> (r: App)
        ensures
            r.log.wf(),
            r.mode == AppMode::List,
            r.list.active_tab == ResourceType::Pod,
            r.commands@.len() == 0,
            r.current_namespace@ == "default"@,
            r.current_context@ == "test-context"@,
            !r.watch.is_loading,
            r.watch.loading_since is None,
            r.watch.watched is None,
            r.dirty,
            r.log.buffer@.len() == 0,
            r.log.tail_lines == crate::logs::HISTORY_STEP,
            r.log.generation == 0,
            !r.log.loading_history,
            !r.log.history_exhausted,
            r.log.scroll_offset is None,
            r.log.search_query@.len() == 0,
            r.log.search_match_line is None,
            !r.log.search_pending,
            r.list.items@.len() == 0,
            r.list.filtered@.len() == 0,
            r.list.selected is None,
            r.list.filter_query@.len() == 0,
            r.list.status_filter@.len() == 0,
            r.banner.last_error is None,
            r.banner.last_success is None,
            r.app_state.namespaces@.len() == 0,
            r.popup.available_contexts@.len() == 2,
            r.popup.available_contexts@[0]@ == "ctx1"@,
            r.popup.available_contexts@[1]@ == "ctx2"@,
            r.popup.available_namespaces@.len() == 2,
            r.popup.available_namespaces@[0]@ == "default"@,
            r.popup.available_namespaces@[1]@ == "kube-system"@,
            r.popup.filtered_namespaces@ == r.popup.available_namespaces@,
            r.viewer.pending_action is None,
    {
        let mut app = App::new("default".to_owned(), "test-context".to_owned(), AppState::default(), 0);
        app.watch.is_loading = false;
        app.watch.loading_since = None;
        app.popup.available_contexts = vec!["ctx1".to_owned(), "ctx2".to_owned()];
        app.popup.available_namespaces = vec!["default".to_owned(), "kube-system".to_owned()];
        app.popup.filtered_namespaces = crate::state::copy_strings(&app.popup.available_namespaces);
        proof {
            reveal_strlit("default");
            reveal_strlit("kube-system");
            reveal_strlit("ctx1");
            reveal_strlit("ctx2");
        }
        app
    }

    /// Everything but the log, the banner and the command queue is as in `a`.
    pub open spec fn rest_same(a: App, b: App) -> bool {
        &&& b.mode == a.mode
        &&& b.should_quit == a.should_quit
        &&& b.dirty == a.dirty
        &&& b.screen_rows == a.screen_rows
        &&& b.current_namespace == a.current_namespace
        &&& b.current_context == a.current_context
        &&& b.pending_context == a.pending_context
        &&& b.list == a.list
        &&& b.watch == a.watch
        &&& b.popup == a.popup
        &&& b.viewer == a.viewer
        &&& b.app_state == a.app_state
    }

    /// How the session reports a log event: a fetch request is queued, a
    /// failed search shows its message; `Quiet` changes nothing.
    pub open spec fn event_post(a: App, b: App, e: LogEvent) -> bool {
        match e {
            LogEvent::Quiet => b.banner == a.banner && b.commands == a.commands,
            LogEvent::Fetch { tail_lines, generation } => b.banner == a.banner && b.commands@
                == a.commands@.push(
                Command::FetchLogHistory {
                    pod: a.log.pod_name,
                    namespace: a.log.namespace,
                    tail_lines,
                    generation,
                },
            ),
            LogEvent::NoMoreMatches => b.banner.shows_error("No more matches"@) && b.banner.now
                == a.banner.now && b.commands == a.commands,
            LogEvent::NotFound => b.banner.shows_error("Not found"@) && b.banner.now
                == a.banner.now && b.commands == a.commands,
            LogEvent::NotFoundInLoaded(n) => b.banner.shows_success(
                crate::logs::not_found_message(n as nat),
            ) && b.banner.now == a.banner.now && b.commands == a.commands,
        }
    }

    fn apply_log_event(&mut self, e: LogEvent)
        ensures
            App::rest_same(*old(self), *final(self)),
            final(self).log == old(self).log,
            App::event_post(*old(self), *final(self), e),
    {
        match e {
            LogEvent::Quiet => {},
            LogEvent::Fetch { tail_lines, generation } => {
                self.commands.push(
                    Command::FetchLogHistory {
                        pod: self.log.pod_name.clone(),
                        namespace: self.log.namespace.clone(),
                        tail_lines,
                        generation,
                    },
                );
            },
            LogEvent::NoMoreMatches => {
                self.banner.set_error("No more matches".to_owned());
            },
            LogEvent::NotFound => {
                self.banner.set_error("Not found".to_owned());
            },
            LogEvent::NotFoundInLoaded(n) => {
                let mut msg = String::new();
                push_str(&mut msg, "Not found in ");
                push_decimal(&mut msg, n as u64);
                push_str(&mut msg, " loaded lines, press n to load more");
                self.banner.set_success(msg);
            },
        }
    }

    /// Appends a line from the live follow (see `LogState::push_line`).
    pub fn push_log_line(&mut self, line: String)
        requires
            old(self).log.wf(),
        ensures
            final(self).log.wf(),
            final(self).log.buffer@ == crate::logs::pushed(old(self).log.buffer@, line),
            final(self).log.buffer@.len() <= MAX_LOG_LINES,
            final(self).log == (LogState {
                buffer: final(self).log.buffer,
                scroll_offset: crate::logs::offset_after_push(
                    old(self).log.buffer@.len(),
                    old(self).log.scroll_offset,
                ),
                ..old(self).log
            }),
            App::rest_same(*old(self), *final(self)),
            final(self).banner == old(self).banner,
            final(self).commands == old(self).commands,
    {
        self.log.push_line(line);
    }

    /// Asks for more history (see `LogState::request_more_history`); a fetch
    /// is queued only when the request is made.
    pub fn load_more_history(&mut self)
        requires
            old(self).log.wf(),
        ensures
            final(self).log.wf(),
            App::rest_same(*old(self), *final(self)),
            exists|e: LogEvent|
                LogState::more_post(old(self).log, final(self).log, e) && App::event_post(
                    *old(self),
                    *final(self),
                    e,
                ),
            final(self).commands == old(self).commands || exists|t: i64, g: u64|
                final(self).commands@ == old(self).commands@.push(
                    #[trigger] fetch_command(old(self).log.pod_name, old(self).log.namespace, t, g),
                ),
    {
        let e = self.log.request_more_history();
        self.apply_log_event(e);
        if let LogEvent::Fetch { tail_lines, generation } = e {
            assert(self.commands@ == old(self).commands@.push(
                fetch_command(old(self).log.pod_name, old(self).log.namespace, tail_lines, generation),
            ));
        }
        assert(LogState::more_post(old(self).log, self.log, e) && App::event_post(
            *old(self),
            *self,
            e,
        ));
    }

    /// Merges a history response (see `LogState::merge_history`).
    pub fn merge_log_history(&mut self, generation: u64, lines: Vec<String>)
        requires
            old(self).log.wf(),
        ensures
            final(self).log.wf(),
            App::rest_same(*old(self), *final(self)),
            generation != old(self).log.generation ==> final(self).log == (LogState {
                loading_history: false,
                ..old(self).log
            }) && final(self).banner == old(self).banner && final(self).commands == old(self).commands,
            generation == old(self).log.generation ==> final(self).log.buffer@
                == crate::logs::merged(old(self).log.buffer@, lines@),
            exists|e: LogEvent|
                LogState::merge_post(
                    old(self).log,
                    final(self).log,
                    generation,
                    lines@,
                    old(self).log_visible_height() as int,
                    e,
                ) && App::event_post(*old(self), *final(self), e),
    {
        let visible = self.log_visible_height();
        let ghost view = lines@;
        let e = self.log.merge_history(generation, lines, visible);
        self.apply_log_event(e);
        assert(LogState::merge_post(old(self).log, self.log, generation, view, visible as int, e)
            && App::event_post(*old(self), *self, e));
    }

    pub open spec fn log_visible_rows(&self) -> usize {
        match self.screen_rows {
            Some(h) => if h >= LOG_CHROME_LINES {
                (h - LOG_CHROME_LINES) as usize
            } else {
                0
            },
            None => 20,
        }
    }

    /// Rows available for log lines.
    #[verifier::when_used_as_spec(log_visible_rows)]
    pub fn log_visible_height(&self) -> (r: usize)
        ensures
            r == self.log_visible_rows(),
    {
        match self.screen_rows {
            Some(h) => if h >= LOG_CHROME_LINES {
                h - LOG_CHROME_LINES
            } else {
                0
            },
            None => 20,
        }
    }

    /// Searches toward older lines (see `LogState::search_next`).
    pub fn log_search_next_with_height(&mut self, visible: usize)
        requires
            old(self).log.wf(),
        ensures
            final(self).log.wf(),
            exists|e: LogEvent|
                LogState::next_post(old(self).log, final(self).log, visible as int, e) && App::event_post(
                    *old(self),
                    *final(self),
                    e,
                ),
            App::rest_same(*old(self), *final(self)),
            final(self).log.search_query == old(self).log.search_query,
            final(self).log.search_input == old(self).log.search_input,
            final(self).commands == old(self).commands || exists|t: i64, g: u64|
                final(self).commands@ == old(self).commands@.push(
                    #[trigger] fetch_command(old(self).log.pod_name, old(self).log.namespace, t, g),
                ),
    {
        let e = self.log.search_next(visible);
        self.apply_log_event(e);
        assert(LogState::next_post(old(self).log, self.log, visible as int, e) && App::event_post(*old(self), *self, e));
        if let LogEvent::Fetch { tail_lines, generation } = e {
            assert(self.commands@ == old(self).commands@.push(
                fetch_command(old(self).log.pod_name, old(self).log.namespace, tail_lines, generation),
            ));
        }
    }

    /// Searches toward newer lines (see `LogState::search_prev`).
    pub fn log_search_prev_with_height(&mut self, visible: usize)
        requires
            old(self).log.wf(),
        ensures
            final(self).log.wf(),
            exists|e: LogEvent|
                LogState::prev_post(old(self).log, final(self).log, visible as int, e) && App::event_post(
                    *old(self),
                    *final(self),
                    e,
                ),
            App::rest_same(*old(self), *final(self)),
            final(self).log.search_query == old(self).log.search_query,
            final(self).log.search_input == old(self).log.search_input,
            final(self).commands == old(self).commands || exists|t: i64, g: u64|
                final(self).commands@ == old(self).commands@.push(
                    #[trigger] fetch_command(old(self).log.pod_name, old(self).log.namespace, t, g),
                ),
    {
        let e = self.log.search_prev(visible);
        self.apply_log_event(e);
        assert(LogState::prev_post(old(self).log, self.log, visible as int, e) && App::event_post(*old(self), *self, e));
        if let LogEvent::Fetch { tail_lines, generation } = e {
            assert(self.commands@ == old(self).commands@.push(
                fetch_command(old(self).log.pod_name, old(self).log.namespace, tail_lines, generation),
            ));
        }
    }

    pub fn log_search_next(&mut self)
        requires
            old(self).log.wf(),
        ensures
            final(self).log.wf(),
            exists|e: LogEvent|
                LogState::next_post(old(self).log, final(self).log, old(self).log_visible_rows() as int, e)
                    && App::event_post(*old(self), *final(self), e),
            App::rest_same(*old(self), *final(self)),
            final(self).log.search_query == old(self).log.search_query,
            final(self).log.search_input == old(self).log.search_input,
            final(self).commands == old(self).commands || exists|t: i64, g: u64|
                final(self).commands@ == old(self).commands@.push(
                    #[trigger] fetch_command(old(self).log.pod_name, old(self).log.namespace, t, g),
                ),
    {
        let visible = self.log_visible_height();
        self.log_search_next_with_height(visible);
    }

    pub fn log_search_prev(&mut self)
        requires
            old(self).log.wf(),
        ensures
            final(self).log.wf(),
            exists|e: LogEvent|
                LogState::prev_post(old(self).log, final(self).log, old(self).log_visible_rows() as int, e)
                    && App::event_post(*old(self), *final(self), e),
            App::rest_same(*old(self), *final(self)),
            final(self).log.search_query == old(self).log.search_query,
            final(self).log.search_input == old(self).log.search_input,
            final(self).commands == old(self).commands || exists|t: i64, g: u64|
                final(self).commands@ == old(self).commands@.push(
                    #[trigger] fetch_command(old(self).log.pod_name, old(self).log.namespace, t, g),
                ),
    {
        let visible = self.log_visible_height();
        self.log_search_prev_with_height(visible);
    }

    /// Cancels the live follow and any history fetch.
    pub fn abort_log_stream(&mut self)
        ensures
            final(self).log == (LogState {
                following: false,
                search_pending: false,
                ..old(self).log
            }),
            final(self).commands@ == old(self).commands@.push(Command::AbortLogTasks),
            App::rest_same(*old(self), *final(self)),
            final(self).banner == old(self).banner,
    {
        self.log.abort();
        self.commands.push(Command::AbortLogTasks);
    }

    /// Opens the log view of a pod: cancels the previous tasks, resets the
    /// log state under a new generation and starts a live follow.
    pub fn stream_logs(&mut self, pod_name: &str, namespace: &str)
        requires
            old(self).log.generation < u64::MAX,
        ensures
            final(self).log.wf(),
            final(self).log.buffer@.len() == 0,
            final(self).log.generation == old(self).log.generation + 1,
            final(self).log.pod_name@ == pod_name@,
            final(self).log.namespace@ == namespace@,
            final(self).log.following,
            final(self).log.scroll_offset is None,
            final(self).log.search_match_line is None,
            !final(self).log.search_pending,
            !final(self).log.history_exhausted,
            final(self).log.tail_lines == crate::logs::HISTORY_STEP,
            !final(self).log.loading_history,
            final(self).log.search_query@.len() == 0,
            final(self).log.search_input@.len() == 0,
            final(self).mode == AppMode::LogView,
            final(self).commands@ == old(self).commands@.push(Command::AbortLogTasks).push(
                Command::StreamLogs {
                    pod: final(self).log.pod_name,
                    namespace: final(self).log.namespace,
                    tail_lines: crate::logs::HISTORY_STEP,
                },
            ),
    {
        self.abort_log_stream();
        self.log.start(pod_name.to_owned(), namespace.to_owned());
        self.mode = AppMode::LogView;
        self.commands.push(
            Command::StreamLogs {
                pod: self.log.pod_name.clone(),
                namespace: self.log.namespace.clone(),
                tail_lines: self.log.tail_lines,
            },
        );
    }

    /// Switches to the next tab and clears the previous tab's collection.
    pub fn next_tab(&mut self)
        ensures
            App::tab_post(*old(self), *final(self), tab_after(old(self).list.active_tab)),
    {
        self.list.active_tab = match self.list.active_tab {
            ResourceType::Pod => ResourceType::Deployment,
            ResourceType::Deployment => ResourceType::Secret,
            ResourceType::Secret => ResourceType::Pod,
        };
        self.list.reset_tab_state();
    }

    /// Switches to the previous tab and clears the previous tab's collection.
    pub fn prev_tab(&mut self)
        ensures
            App::tab_post(*old(self), *final(self), tab_before(old(self).list.active_tab)),
    {
        self.list.active_tab = match self.list.active_tab {
            ResourceType::Pod => ResourceType::Secret,
            ResourceType::Deployment => ResourceType::Pod,
            ResourceType::Secret => ResourceType::Deployment,
        };
        self.list.reset_tab_state();
    }

    /// Replaces the items with the watch cache's snapshot, sorted by name,
    /// and recomputes the filtered list.
    pub fn refresh_items(&mut self, snapshot: Vec<KubeResource>)
        ensures
            sorted_by_name(final(self).list.items@),
            final(self).list.items@.to_multiset() == snapshot@.to_multiset(),
            final(self).list.filtered@ == final(self).list.kept_now(),
            final(self).list.selected_indices@.is_empty(),
            final(self).list.active_tab == old(self).list.active_tab,
            final(self).list.filter_query == old(self).list.filter_query,
            final(self).list.status_filter == old(self).list.status_filter,
    {
        self.list.items = sort_by_name(snapshot);
        self.list.update_filter();
    }

    /// Recomputes the filtered list (see `ResourceList::update_filter`).
    pub fn update_filter(&mut self)
        ensures
            final(self).list.filtered@ == old(self).list.kept_now(),
            final(self).list.selected_indices@.is_empty(),
            final(self).list.items == old(self).list.items,
            final(self).list.filter_query == old(self).list.filter_query,
            final(self).list.status_filter == old(self).list.status_filter,
            final(self).list.active_tab == old(self).list.active_tab,
            final(self).mode == old(self).mode,
            final(self).log == old(self).log,
            final(self).commands == old(self).commands,
    {
        self.list.update_filter();
    }

    /// The highlighted item of the filtered list, if the row exists.
    pub fn get_selected_resource(&self) -> (r: Option<&KubeResource>)
        ensures
            r matches Some(x) ==> self.get_selected_spec() == Some(*x),
            r is None ==> self.get_selected_spec() is None,
    {
        match self.list.selected {
            Some(i) => self.list.filtered_item(i),
            None => None,
        }
    }

    /// Decodes the highlighted secret's values for display: text values as
    /// they are, others as "<binary>". Does nothing unless a secret is
    /// highlighted.
    pub fn decode_selected_secret(&mut self)
        ensures
            match old(self).get_selected_spec() {
                Some(KubeResource::Secret(s)) => final(self).viewer.secret_decoded matches Some(d)
                    && match s.data {
                    Some(data) => d@.len() == data@.len() && forall|i: int|
                        0 <= i < data@.len() ==> (#[trigger] d@[i]).0@ == data@[i].0@ && d@[i].1@
                            == shown_value(data@[i].1@),
                    None => d@.len() == 0,
                },
                _ => final(self).viewer.secret_decoded == old(self).viewer.secret_decoded,
            },
            final(self).list == old(self).list,
            final(self).mode == old(self).mode,
            final(self).log == old(self).log,
            final(self).commands == old(self).commands,
    {
        let decoded: Option<Vec<(String, String)>> = match self.get_selected_resource() {
            Some(KubeResource::Secret(s)) => match &s.data {
                Some(data) => {
                    let mut out: Vec<(String, String)> = Vec::new();
                    let mut i: usize = 0;
                    while i < data.len()
                        invariant
                            i <= data@.len(),
                            out@.len() == i,
                            forall|k: int|
                                0 <= k < i ==> (#[trigger] out@[k]).0@ == data@[k].0@ && out@[k].1@
                                    == shown_value(data@[k].1@),
                        decreases data@.len() - i,
                    {
                        let value = match utf8_text(&data[i].1) {
                            Some(t) => t,
                            None => "<binary>".to_owned(),
                        };
                        out.push((data[i].0.clone(), value));
                        i = i + 1;
                    }
                    Some(out)
                },
                None => Some(Vec::new()),
            },
            _ => None,
        };
        if decoded.is_some() {
            self.viewer.secret_decoded = decoded;
        }
    }

    /// The highlighted item, as a value.
    pub open spec fn get_selected_spec(&self) -> Option<KubeResource> {
        match self.list.selected {
            Some(i) => if i < self.list.filtered@.len() && self.list.filtered@[i as int]
                < self.list.items@.len() {
                Some(self.list.items@[self.list.filtered@[i as int] as int])
            } else {
                None
            },
            None => None,
        }
    }
}

/// The subscription serves exactly (tab, ns, ctx).
pub open spec fn serves(w: Option<WatchKey>, tab: ResourceType, ns: Seq<char>, ctx: Seq<char>) -> bool {
    match w {
        Some(k) => k.kind == tab && k.namespace@ == ns && k.context@ == ctx,
        None => false,
    }
}

impl App {
    /// What `sync_watch` does from `a` to `b`, reporting `changed`.
    pub open spec fn sync_post(a: App, b: App, changed: bool) -> bool {
        &&& changed == !serves(
            a.watch.watched,
            a.list.active_tab,
            a.current_namespace@,
            a.current_context@,
        )
        &&& !changed ==> b.watch == a.watch && b.list == a.list && b.commands == a.commands
            && b.banner == a.banner
        &&& changed ==> {
            &&& b.commands@ == a.commands@ + (if a.watch.watched is Some {
                seq![Command::StopWatch]
            } else {
                Seq::empty()
            }) + seq![
                Command::StartWatch {
                    kind: a.list.active_tab,
                    namespace: b.watch.watched->0.namespace,
                    context: b.watch.watched->0.context,
                },
            ]
            &&& serves(
                b.watch.watched,
                a.list.active_tab,
                a.current_namespace@,
                a.current_context@,
            )
            &&& !b.watch.parked
            &&& b.watch.is_loading
            &&& b.watch.loading_since == Some(a.banner.now)
            &&& b.list.items@.len() == 0
            &&& b.list.filtered@.len() == 0
            &&& b.list.selected_indices@.is_empty()
            &&& b.list.active_tab == a.list.active_tab
            &&& b.dirty
            &&& match a.banner.last_error {
                Some(e) => if starts_with(e@, "Access denied"@) {
                    b.banner.last_error is None && b.banner.message_time is None
                } else {
                    b.banner == a.banner
                },
                None => b.banner == a.banner,
            }
        }
        &&& b.list.selected == a.list.selected
        &&& b.list.status_filter == a.list.status_filter
        &&& b.current_namespace == a.current_namespace
        &&& b.current_context == a.current_context
        &&& b.log == a.log
        &&& b.mode == a.mode
        &&& b.viewer == a.viewer
        &&& b.popup == a.popup
        &&& b.app_state == a.app_state
    }

    /// What a tab switch to `t` does from `a` to `b`: the previous tab's
    /// collection, marks and status filter are gone; the watch is untouched.
    pub open spec fn tab_post(a: App, b: App, t: ResourceType) -> bool {
        &&& b.list.active_tab == t
        &&& b.list.items@.len() == 0
        &&& b.list.filtered@.len() == 0
        &&& b.list.selected is None
        &&& b.list.selected_indices@.is_empty()
        &&& b.list.status_filter@.len() == 0
        &&& b.watch == a.watch
        &&& b.commands == a.commands
        &&& b.current_namespace == a.current_namespace
        &&& b.current_context == a.current_context
        &&& b.log == a.log
        &&& b.mode == a.mode
    }

    /// Orchestrator step run before waiting for events: when the active
    /// (tab, namespace, context) differs from what the watch serves, the old
    /// subscription is detached first, the collection and loading state are
    /// reset (an access-denied banner is cleared only here), and a fresh
    /// subscription is requested. Returns whether that happened.
    pub fn sync_watch(&mut self) -> (changed: bool)
        ensures
            App::sync_post(*old(self), *final(self), changed),
    {
        let same = match &self.watch.watched {
            Some(k) => k.kind == self.list.active_tab && same_str(
                k.namespace.as_str(),
                self.current_namespace.as_str(),
            ) && same_str(k.context.as_str(), self.current_context.as_str()),
            None => false,
        };
        if same {
            return false;
        }
        let ghost cmds0 = self.commands@;
        if self.watch.watched.is_some() {
            self.commands.push(Command::StopWatch);
        }
        let ghost cmds1 = self.commands@;
        self.list.items = Vec::new();
        self.list.filtered = Vec::new();
        self.list.selected_indices = HashSet::new();
        self.watch.is_loading = true;
        self.watch.loading_since = Some(self.banner.now);
        self.watch.parked = false;
        let denied = match &self.banner.last_error {
            Some(e) => is_access_denied(e.as_str()),
            None => false,
        };
        if denied {
            self.banner.last_error = None;
            self.banner.message_time = None;
        }
        let key = WatchKey {
            kind: self.list.active_tab,
            namespace: self.current_namespace.clone(),
            context: self.current_context.clone(),
        };
        self.commands.push(
            Command::StartWatch {
                kind: key.kind,
                namespace: key.namespace.clone(),
                context: key.context.clone(),
            },
        );
        self.watch.watched = Some(key);
        self.dirty = true;
        assert(self.commands@ =~= cmds0 + (if old(self).watch.watched is Some {
            seq![Command::StopWatch]
        } else {
            Seq::empty()
        }) + seq![
            Command::StartWatch {
                kind: old(self).list.active_tab,
                namespace: self.watch.watched->0.namespace,
                context: self.watch.watched->0.context,
            },
        ]);
        true
    }

    /// Handles an event of the watch stream. Returns whether the items
    /// should be recomputed from the watch cache now. A permission failure
    /// shows a sticky banner naming the resource kind, ends loading and
    /// parks the subscription; other failures show a transient banner.
    pub fn handle_watcher_event(&mut self, event: KubeResourceEvent) -> (refresh: bool)
        ensures
            match event {
                KubeResourceEvent::WatcherForbidden(msg) => {
                    &&& !refresh
                    &&& final(self).watch.parked
                    &&& !final(self).watch.is_loading
                    &&& final(self).watch.loading_since is None
                    &&& final(self).watch.watched == old(self).watch.watched
                    &&& final(self).banner.last_error is Some
                    &&& final(self).banner.last_error->0@ == forbidden_message(
                        old(self).list.active_tab,
                        msg@,
                    )
                    &&& final(self).banner.last_success is None
                    &&& final(self).dirty
                },
                KubeResourceEvent::Error(msg) => !refresh && final(self).banner.last_error == Some(
                    msg,
                ) && final(self).watch == old(self).watch && final(self).dirty,
                KubeResourceEvent::InitialListDone => refresh && !final(self).watch.is_loading
                    && final(self).watch.loading_since is None && final(self).watch.parked == old(self).watch.parked && final(self).dirty,
                _ => refresh == !old(self).watch.is_loading && final(self).watch == old(self).watch,
            },
            final(self).list == old(self).list,
            final(self).log == old(self).log,
            final(self).commands == old(self).commands,
    {
        match event {
            KubeResourceEvent::WatcherForbidden(msg) => {
                let kind = kind_plural_str(self.list.active_tab);
                let mut text = String::new();
                if msg.as_str().is_empty() {
                    push_str(&mut text, "Access denied: cannot list ");
                    push_str(&mut text, kind);
                } else {
                    push_str(&mut text, "Access denied: ");
                    push_str(&mut text, kind);
                    push_str(&mut text, " \u{2014} ");
                    push_str(&mut text, msg.as_str());
                }
                self.banner.set_error(text);
                self.watch.is_loading = false;
                self.watch.loading_since = None;
                self.watch.parked = true;
                self.dirty = true;
                false
            },
            KubeResourceEvent::Error(msg) => {
                self.banner.set_error(msg);
                self.dirty = true;
                false
            },
            KubeResourceEvent::InitialListDone => {
                self.watch.is_loading = false;
                self.watch.loading_since = None;
                self.dirty = true;
                true
            },
            _ => !self.watch.is_loading,
        }
    }

    /// Applies a result delivered by a background operation.
    pub fn handle_channel_event(&mut self, event: KubeResourceEvent)
        requires
            old(self).log.wf(),
        ensures
            final(self).log.wf(),
            final(self).dirty,
            match event {
                KubeResourceEvent::Log(line) => final(self).log.buffer@ == crate::logs::pushed(
                    old(self).log.buffer@,
                    line,
                ) && final(self).log == (LogState {
                    buffer: final(self).log.buffer,
                    scroll_offset: crate::logs::offset_after_push(
                        old(self).log.buffer@.len(),
                        old(self).log.scroll_offset,
                    ),
                    ..old(self).log
                }) && final(self).banner == old(self).banner && final(self).commands == old(
                    self).commands,
                KubeResourceEvent::LogHistory(g, lines) => exists|e: LogEvent|
                    LogState::merge_post(
                        old(self).log,
                        final(self).log,
                        g,
                        lines@,
                        old(self).log_visible_rows() as int,
                        e,
                    ) && App::event_post(*old(self), *final(self), e),
                KubeResourceEvent::Error(e) => final(self).banner.last_error == Some(e),
                KubeResourceEvent::Success(m) => final(self).banner.last_success == Some(m),
                KubeResourceEvent::ShellExited => !final(self).viewer.shell_active && (old(self).mode == AppMode::ShellView ==> final(self).mode == AppMode::List && final(self).banner.last_success is Some && final(self).banner.last_success->0@ == "Shell session ended"@)
                    && (old(self).mode != AppMode::ShellView ==> final(self).mode == old(self).mode),
                KubeResourceEvent::DescribeReady(lines) => final(self).viewer.describe_content
                    == lines && final(self).viewer.describe_scroll == 0 && final(self).mode
                    == AppMode::DescribeView,
                KubeResourceEvent::NamespacesLoaded(found) => final(self).popup.available_namespaces@ == final(self).app_state.remembered_for(
                    old(self).current_context@,
                ) && final(self).commands@ == old(self).commands@.push(Command::SaveState),
                _ => final(self).log == old(self).log && final(self).mode == old(self).mode,
            },
    {
        self.dirty = true;
        match event {
            KubeResourceEvent::Log(line) => {
                self.push_log_line(line);
            },
            KubeResourceEvent::LogHistory(generation, lines) => {
                let ghost before = *self;
                let ghost view = lines@;
                self.merge_log_history(generation, lines);
                proof {
                    let e = choose|e: LogEvent|
                        LogState::merge_post(
                            before.log,
                            self.log,
                            generation,
                            view,
                            before.log_visible_rows() as int,
                            e,
                        ) && App::event_post(before, *self, e);
                    assert(LogState::merge_post(
                        old(self).log,
                        self.log,
                        generation,
                        view,
                        old(self).log_visible_rows() as int,
                        e,
                    ) && App::event_post(*old(self), *self, e));
                }
            },
            KubeResourceEvent::Error(e) => {
                self.banner.set_error(e);
            },
            KubeResourceEvent::Success(m) => {
                self.banner.set_success(m);
            },
            KubeResourceEvent::ShellExited => {
                self.viewer.shell_active = false;
                if self.mode == AppMode::ShellView {
                    self.mode = AppMode::List;
                    self.banner.set_success("Shell session ended".to_owned());
                }
            },
            KubeResourceEvent::DescribeReady(lines) => {
                self.viewer.describe_content = lines;
                self.viewer.describe_scroll = 0;
                self.mode = AppMode::DescribeView;
            },
            KubeResourceEvent::NamespacesLoaded(found) => {
                let ctx = self.current_context.clone();
                self.popup.available_namespaces = self.app_state.merge_namespaces(
                    ctx.as_str(),
                    found.as_slice(),
                );
                self.commands.push(Command::SaveState);
            },
            _ => {},
        }
    }

    /// Narrows the namespace list to names containing the typed text,
    /// ignoring case, and highlights the first one.
    pub fn update_namespace_filter(&mut self)
        ensures
            old(self).popup.namespace_input@.len() == 0 ==> final(self).popup.filtered_namespaces@
                == old(self).popup.available_namespaces@,
            old(self).popup.namespace_input@.len() > 0 ==> final(self).popup.filtered_namespaces@ == old(self).popup.available_namespaces@.filter(
                |n: String| contains_seq(lower_of(n@), lower_of(old(self).popup.namespace_input@)),
            ),
            final(self).popup.selected == if final(self).popup.filtered_namespaces@.len() == 0 {
                None
            } else {
                Some(0usize)
            },
            final(self).popup.available_namespaces == old(self).popup.available_namespaces,
            final(self).popup.namespace_input == old(self).popup.namespace_input,
            final(self).log == old(self).log,
            final(self).commands == old(self).commands,
            final(self).mode == old(self).mode,
    {
        if self.popup.namespace_input.as_str().is_empty() {
            self.popup.filtered_namespaces = crate::state::copy_strings(
                &self.popup.available_namespaces,
            );
        } else {
            let query = lowercase(self.popup.namespace_input.as_str());
            let ghost pred = |n: String| contains_seq(lower_of(n@), lower_of(self.popup.namespace_input@));
            let mut out: Vec<String> = Vec::new();
            let mut i: usize = 0;
            assert(self.popup.available_namespaces@.subrange(0, 0).filter(pred) =~= Seq::<String>::empty()) by {
                reveal(Seq::filter);
            }
            while i < self.popup.available_namespaces.len()
                invariant
                    i <= self.popup.available_namespaces@.len(),
                    query@ == lower_of(self.popup.namespace_input@),
                    pred == (|n: String| contains_seq(lower_of(n@), lower_of(self.popup.namespace_input@))),
                    out@ == self.popup.available_namespaces@.subrange(0, i as int).filter(pred),
                decreases self.popup.available_namespaces@.len() - i,
            {
                let name = &self.popup.available_namespaces[i];
                let low = lowercase(name.as_str());
                proof {
                    let s = self.popup.available_namespaces@;
                    assert(s.subrange(0, i + 1).filter(pred) == if pred(s[i as int]) {
                        s.subrange(0, i as int).filter(pred).push(s[i as int])
                    } else {
                        s.subrange(0, i as int).filter(pred)
                    }) by {
                        reveal(Seq::filter);
                        assert(s.subrange(0, i + 1).drop_last() =~= s.subrange(0, i as int));
                    }
                }
                if contains_str(low.as_str(), query.as_str()) {
                    out.push(name.clone());
                }
                i = i + 1;
            }
            assert(self.popup.available_namespaces@.subrange(
                0,
                self.popup.available_namespaces@.len() as int,
            ) =~= self.popup.available_namespaces@);
            self.popup.filtered_namespaces = out;
        }
        if self.popup.filtered_namespaces.len() == 0 {
            self.popup.selected = None;
        } else {
            self.popup.selected = Some(0);
        }
    }
}

impl App {
    /// Shows an error banner, replacing any success banner.
    pub fn set_error(&mut self, msg: String)
        ensures
            final(self).banner.last_error == Some(msg),
            final(self).banner.last_success is None,
            final(self).banner.message_time == Some(old(self).banner.now),
            App::rest_same(*old(self), *final(self)),
            final(self).log == old(self).log,
            final(self).commands == old(self).commands,
    {
        self.banner.set_error(msg);
    }

    /// Shows a success banner, replacing any error banner.
    pub fn set_success(&mut self, msg: String)
        ensures
            final(self).banner.last_success == Some(msg),
            final(self).banner.last_error is None,
            final(self).banner.message_time == Some(old(self).banner.now),
            App::rest_same(*old(self), *final(self)),
            final(self).log == old(self).log,
            final(self).commands == old(self).commands,
    {
        self.banner.set_success(msg);
    }

    /// Expires banners by the clock in `now` (see `Banner::clear_stale_messages`).
    pub fn clear_stale_messages(&mut self, now: u64)
        ensures
            Banner::clear_post(Banner { now, ..old(self).banner }, final(self).banner),
            App::rest_same(*old(self), *final(self)),
            final(self).log == old(self).log,
    {
        self.banner.now = now;
        self.banner.clear_stale_messages();
    }

    /// Asks for an interactive shell in a pod.
    pub fn start_shell(&mut self, pod_name: &str, namespace: &str)
        ensures
            final(self).commands@ == old(self).commands@.push(
                Command::StartShell {
                    pod: final(self).commands@.last()->StartShell_pod,
                    namespace: final(self).commands@.last()->StartShell_namespace,
                    context: old(self).current_context,
                },
            ),
            final(self).commands@.last()->StartShell_pod@ == pod_name@,
            final(self).commands@.last()->StartShell_namespace@ == namespace@,
            App::rest_same(*old(self), *final(self)),
    {
        self.commands.push(
            Command::StartShell {
                pod: pod_name.to_owned(),
                namespace: namespace.to_owned(),
                context: self.current_context.clone(),
            },
        );
    }

    /// Asks for an external editor on a resource.
    pub fn start_kubectl_edit(&mut self, kind: &str, name: &str, namespace: &str)
        ensures
            final(self).commands@.len() == old(self).commands@.len() + 1,
            final(self).commands@.drop_last() == old(self).commands@,
            final(self).commands@.last() matches Command::StartEdit { kind: k, name: n, namespace: ns, context: c }
                && k@ == kind@ && n@ == name@ && ns@ == namespace@ && c == old(self).current_context,
            App::rest_same(*old(self), *final(self)),
    {
        let ghost before = self.commands@;
        self.commands.push(
            Command::StartEdit {
                kind: kind.to_owned(),
                name: name.to_owned(),
                namespace: namespace.to_owned(),
                context: self.current_context.clone(),
            },
        );
        assert(self.commands@.drop_last() =~= before);
    }

    /// Asks for the namespace list of the current context; the host falls
    /// back to the current namespace when the cluster cannot say.
    pub fn load_namespaces(&mut self)
        ensures
            final(self).commands@ == old(self).commands@.push(
                Command::LoadNamespaces {
                    context: old(self).current_context,
                    fallback_namespace: old(self).current_namespace,
                },
            ),
            App::rest_same(*old(self), *final(self)),
    {
        self.commands.push(
            Command::LoadNamespaces {
                context: self.current_context.clone(),
                fallback_namespace: self.current_namespace.clone(),
            },
        );
    }

    /// The phase a pod reports, "Unknown" when it reports none.
    pub fn pod_phase(p: &crate::models::PodInfo) -> (r: &str)
        ensures
            r@ == phase_of(KubeResource::Pod(*p)),
    {
        match &p.phase {
            Some(s) => s.as_str(),
            None => "Unknown",
        }
    }

    /// Counts the pods per phase for the status filter picker (see
    /// `ResourceList::build_status_filter_items`).
    pub fn build_status_filter_items(&mut self)
        ensures
            final(self).list.items == old(self).list.items,
            final(self).list.status_filter == old(self).list.status_filter,
            final(self).list.filtered == old(self).list.filtered,
            ResourceList::status_rows_post(old(self).list, final(self).list),
            App::rest_same(
                *old(self),
                App { list: old(self).list, ..*final(self) },
            ),
    {
        self.list.build_status_filter_items();
    }

    /// Hands the queued commands to the host, oldest first.
    pub fn take_commands(&mut self) -> (r: Vec<Command>)
        ensures
            r == old(self).commands,
            final(self).commands@.len() == 0,
            App::rest_same(*old(self), *final(self)),
    {
        let mut out: Vec<Command> = Vec::new();
        std::mem::swap(&mut out, &mut self.commands);
        out
    }
}

/// A failed watch as the host reads it off the watch stream: the API
/// server's status (its reason and message) when it sent one, and a
/// description of the failure.
pub struct WatchFailure {
    pub status: Option<(String, String)>,
    pub description: String,
}

/// A status whose reason is "Forbidden": the API server refused the call
/// for lack of permission.
pub open spec fn forbidden_status(status: Option<(String, String)>) -> bool {
    match status {
        Some(st) => st.0@ == "Forbidden"@,
        None => false,
    }
}

/// Whether an API status reason marks a permission failure.
pub fn is_forbidden_reason(reason: &str) -> (r: bool)
    ensures
        r == (reason@ == "Forbidden"@),
{
    same_str(reason, "Forbidden")
}

/// One item of the watch stream, as far as the session tells items apart.
pub enum WatchItem {
    InitDone,
    Changed,
    Failed(WatchFailure),
}

/// Classifies a watch stream item: the end of the initial list, a change
/// that asks for a refresh, a permission failure (which parks the watch),
/// or any other failure (reported, while the watch retries on its own).
pub fn map_watcher_event(item: WatchItem) -> (r: KubeResourceEvent)
    ensures
        match item {
            WatchItem::InitDone => r == KubeResourceEvent::InitialListDone,
            WatchItem::Changed => r == KubeResourceEvent::Refresh,
            WatchItem::Failed(f) => if forbidden_status(f.status) {
                r == KubeResourceEvent::WatcherForbidden((f.status->0).1)
            } else {
                r matches KubeResourceEvent::Error(m) && m@ == "Watcher error: "@ + f.description@
            },
        },
{
    match item {
        WatchItem::InitDone => KubeResourceEvent::InitialListDone,
        WatchItem::Changed => KubeResourceEvent::Refresh,
        WatchItem::Failed(f) => {
            let forbidden = match &f.status {
                Some(st) => is_forbidden_reason(st.0.as_str()),
                None => false,
            };
            if forbidden {
                match f.status {
                    Some(st) => KubeResourceEvent::WatcherForbidden(st.1),
                    None => KubeResourceEvent::WatcherForbidden(String::new()),
                }
            } else {
                let mut m = String::new();
                push_str(&mut m, "Watcher error: ");
                push_str(&mut m, f.description.as_str());
                KubeResourceEvent::Error(m)
            }
        },
    }
}

/// Switching the tab while a subscription serves the old one: the next
/// orchestrator step detaches the old subscription and only then asks for
/// one for the new tab, and the new tab starts with no items, no filtered
/// items, no highlighted or marked rows and no status filter.
pub proof fn lemma_tab_switch_resubscribes(a: App, b: App, c: App, changed: bool)
    requires
        serves(a.watch.watched, a.list.active_tab, a.current_namespace@, a.current_context@),
        App::tab_post(a, b, tab_after(a.list.active_tab)) || App::tab_post(
            a,
            b,
            tab_before(a.list.active_tab),
        ),
        App::sync_post(b, c, changed),
    ensures
        changed,
        c.commands@.len() == a.commands@.len() + 2,
        c.commands@.subrange(0, a.commands@.len() as int) == a.commands@,
        c.commands@[a.commands@.len() as int] == Command::StopWatch,
        c.commands@[a.commands@.len() + 1int] matches Command::StartWatch { kind, .. }
            && kind == b.list.active_tab && kind != a.list.active_tab,
        c.list.items@.len() == 0,
        c.list.filtered@.len() == 0,
        c.list.selected is None,
        c.list.selected_indices@.is_empty(),
        c.list.status_filter@.len() == 0,
{
    let k = c.commands@;
    assert(k.subrange(0, a.commands@.len() as int) =~= a.commands@);
}

/// A subscription parked after a permission failure stays parked, and its
/// banner stays, for as long as the tab, namespace and context stay.
pub proof fn lemma_parked_until_key_changes(a: App, b: App, changed: bool)
    requires
        a.watch.parked,
        serves(a.watch.watched, a.list.active_tab, a.current_namespace@, a.current_context@),
        App::sync_post(a, b, changed),
    ensures
        !changed,
        b.watch.parked,
        b.banner == a.banner,
        b.commands == a.commands,
{
}

impl App {
    /// Points the session at `namespace` under `context`. The namespace
    /// picker offers the names remembered for the context; when the
    /// namespace itself is not among them it is added and the list sorted.
    pub fn enter_context(&mut self, namespace: String, context: String)
        ensures
            final(self).current_namespace == namespace,
            final(self).current_context == context,
            crate::state::has_name(old(self).app_state.remembered_for(context@), namespace@)
                ==> final(self).popup.available_namespaces@ == old(
                self).app_state.remembered_for(context@),
            !crate::state::has_name(old(self).app_state.remembered_for(context@), namespace@)
                ==> crate::sorting::sorted_strings(final(self).popup.available_namespaces@)
                && forall|x: Seq<char>|
                crate::state::has_name(final(self).popup.available_namespaces@, x) <==> (
                crate::state::has_name(old(self).app_state.remembered_for(context@), x) || x
                    == namespace@),
            final(self).app_state == old(self).app_state,
            final(self).list == old(self).list,
            final(self).log == old(self).log,
            final(self).commands == old(self).commands,
    {
        let mut names = self.app_state.get_namespaces(context.as_str());
        if !crate::state::contains_name(&names, namespace.as_str()) {
            let ghost before = names@;
            names.push(namespace.clone());
            let ghost pushed = names@;
            names = crate::sorting::sort_strings(names);
            proof {
                crate::state::lemma_same_names(names@, pushed);
                assert forall|x: Seq<char>| crate::state::has_name(pushed, x) <==> (
                crate::state::has_name(before, x) || x == namespace@) by {
                    crate::state::lemma_has_name_push(before, pushed.last(), x);
                    assert(pushed =~= before.push(pushed.last()));
                }
            }
        }
        self.popup.available_namespaces = names;
        self.current_namespace = namespace;
        self.current_context = context;
    }
}

} // verus!
