//! Ordering of names and the two stable sorts built on it.
use crate::models::KubeResource;
use crate::text::chars_of;
use vstd::prelude::*;
use vstd::seq_lib::{to_multiset_build, to_multiset_insert};

verus! {

/// `a` orders before or equal to `b`, comparing character codes from the left.
pub open spec fn str_le(a: Seq<char>, b: Seq<char>) -> bool
    decreases a.len(),
{
    if a.len() == 0 {
        true
    } else if b.len() == 0 {
        false
    } else if a[0] != b[0] {
        a[0] < b[0]
    } else {
        str_le(a.drop_first(), b.drop_first())
    }
}

pub open spec fn sorted_strings(s: Seq<String>) -> bool {
    forall|i: int, j: int| 0 <= i < j < s.len() ==> str_le(#[trigger] s[i]@, #[trigger] s[j]@)
}

pub open spec fn sorted_by_name(s: Seq<KubeResource>) -> bool {
    forall|i: int, j: int|
        0 <= i < j < s.len() ==> str_le(#[trigger] s[i].spec_name(), #[trigger] s[j].spec_name())
}

pub proof fn lemma_str_le_total(a: Seq<char>, b: Seq<char>)
    ensures
        str_le(a, b) || str_le(b, a),
    decreases a.len(),
{
    if a.len() > 0 && b.len() > 0 && a[0] == b[0] {
        lemma_str_le_total(a.drop_first(), b.drop_first());
    }
}

pub proof fn lemma_str_le_trans(a: Seq<char>, b: Seq<char>, c: Seq<char>)
    requires
        str_le(a, b),
        str_le(b, c),
    ensures
        str_le(a, c),
    decreases a.len(),
{
    if a.len() > 0 && b.len() > 0 && c.len() > 0 && a[0] == b[0] && b[0] == c[0] {
        lemma_str_le_trans(a.drop_first(), b.drop_first(), c.drop_first());
    }
}

/// Whether `a` orders before or equal to `b`.
pub fn name_le(a: &str, b: &str) -> (r: bool)
    ensures
        r == str_le(a@, b@),
{
    let x = chars_of(a);
    let y = chars_of(b);
    let mut i: usize = 0;
    assert(a@.subrange(0, a@.len() as int) =~= a@);
    assert(b@.subrange(0, b@.len() as int) =~= b@);
    while i < x.len() && i < y.len()
        invariant
            i <= x@.len(),
            i <= y@.len(),
            x@ == a@,
            y@ == b@,
            str_le(a@, b@) == str_le(a@.subrange(i as int, a@.len() as int), b@.subrange(i as int, b@.len() as int)),
        decreases x@.len() - i,
    {
        let ghost sa = a@.subrange(i as int, a@.len() as int);
        let ghost sb = b@.subrange(i as int, b@.len() as int);
        assert(sa[0] == x@[i as int]);
        assert(sb[0] == y@[i as int]);
        if x[i] != y[i] {
            return x[i] < y[i];
        }
        assert(sa.drop_first() =~= a@.subrange(i + 1, a@.len() as int));
        assert(sb.drop_first() =~= b@.subrange(i + 1, b@.len() as int));
        i = i + 1;
    }
    i == x.len()
}

/// Inserting `x` where everything before orders at or below it and
/// everything after at or above it keeps the sequence sorted.
proof fn lemma_insert_sorted_by_name(s: Seq<KubeResource>, pos: int, x: KubeResource)
    requires
        sorted_by_name(s),
        0 <= pos <= s.len(),
        forall|j: int| 0 <= j < pos ==> str_le(#[trigger] s[j].spec_name(), x.spec_name()),
        forall|j: int| pos <= j < s.len() ==> str_le(x.spec_name(), #[trigger] s[j].spec_name()),
    ensures
        sorted_by_name(s.insert(pos, x)),
{
    let t = s.insert(pos, x);
    s.insert_ensures(pos, x);
    assert forall|i: int, j: int| 0 <= i < j < t.len() implies str_le(
        #[trigger] t[i].spec_name(),
        #[trigger] t[j].spec_name(),
    ) by {
        if j < pos {
        } else if j == pos {
        } else if i < pos {
            assert(t[(j - 1) + 1] == s[j - 1]);
        } else if i == pos {
            assert(t[(j - 1) + 1] == s[j - 1]);
        } else {
            assert(t[(i - 1) + 1] == s[i - 1]);
            assert(t[(j - 1) + 1] == s[j - 1]);
        }
    }
}

/// The list ordered by name, ascending; equal names keep their order.
pub fn sort_by_name(v: Vec<KubeResource>) -> (r: Vec<KubeResource>)
    ensures
        sorted_by_name(r@),
        r@.to_multiset() == v@.to_multiset(),
{
    let mut rest = v;
    let mut out: Vec<KubeResource> = Vec::new();
    let ghost n = v@.len();
    let ghost k: int = 0;
    assert(out@ =~= v@.subrange(0, 0));
    assert(rest@ =~= v@.subrange(0, n as int));
    while rest.len() > 0
        invariant
            0 <= k <= n == v@.len(),
            sorted_by_name(out@),
            rest@ == v@.subrange(k, n as int),
            out@.to_multiset() == v@.subrange(0, k).to_multiset(),
        decreases rest@.len(),
    {
        let ghost before = rest@;
        let x = rest.remove(0);
        assert(rest@ =~= v@.subrange(k + 1, n as int));
        assert(x == v@[k]);
        let mut pos: usize = 0;
        while pos < out.len() && name_le(out[pos].name(), x.name())
            invariant
                pos <= out@.len(),
                forall|j: int| 0 <= j < pos ==> str_le(#[trigger] out@[j].spec_name(), x.spec_name()),
            decreases out@.len() - pos,
        {
            pos = pos + 1;
        }
        proof {
            assert forall|j: int| pos <= j < out@.len() implies str_le(
                x.spec_name(),
                #[trigger] out@[j].spec_name(),
            ) by {
                lemma_str_le_total(out@[pos as int].spec_name(), x.spec_name());
                if j > pos {
                    lemma_str_le_trans(x.spec_name(), out@[pos as int].spec_name(), out@[j].spec_name());
                }
            }
            lemma_insert_sorted_by_name(out@, pos as int, x);
            to_multiset_insert(out@, pos as int, x);
            to_multiset_build(v@.subrange(0, k), x);
            assert(v@.subrange(0, k + 1) =~= v@.subrange(0, k).push(x));
        }
        out.insert(pos, x);
        proof {
            k = k + 1;
        }
    }
    assert(v@.subrange(0, n as int) =~= v@);
    out
}

/// Inserting `x` where everything before orders at or below it and
/// everything after at or above it keeps the sequence sorted.
proof fn lemma_insert_sorted_strings(s: Seq<String>, pos: int, x: String)
    requires
        sorted_strings(s),
        0 <= pos <= s.len(),
        forall|j: int| 0 <= j < pos ==> str_le(#[trigger] s[j]@, x@),
        forall|j: int| pos <= j < s.len() ==> str_le(x@, #[trigger] s[j]@),
    ensures
        sorted_strings(s.insert(pos, x)),
{
    let t = s.insert(pos, x);
    s.insert_ensures(pos, x);
    assert forall|i: int, j: int| 0 <= i < j < t.len() implies str_le(
        #[trigger] t[i]@,
        #[trigger] t[j]@,
    ) by {
        if j < pos {
        } else if j == pos {
        } else if i < pos {
            assert(t[(j - 1) + 1] == s[j - 1]);
        } else if i == pos {
            assert(t[(j - 1) + 1] == s[j - 1]);
        } else {
            assert(t[(i - 1) + 1] == s[i - 1]);
            assert(t[(j - 1) + 1] == s[j - 1]);
        }
    }
}

/// The names ordered ascending; equal names keep their order.
pub fn sort_strings(v: Vec<String>) -> (r: Vec<String>)
    ensures
        sorted_strings(r@),
        r@.to_multiset() == v@.to_multiset(),
{
    let mut rest = v;
    let mut out: Vec<String> = Vec::new();
    let ghost n = v@.len();
    let ghost k: int = 0;
    assert(out@ =~= v@.subrange(0, 0));
    assert(rest@ =~= v@.subrange(0, n as int));
    while rest.len() > 0
        invariant
            0 <= k <= n == v@.len(),
            sorted_strings(out@),
            rest@ == v@.subrange(k, n as int),
            out@.to_multiset() == v@.subrange(0, k).to_multiset(),
        decreases rest@.len(),
    {
        let ghost before = rest@;
        let x = rest.remove(0);
        assert(rest@ =~= v@.subrange(k + 1, n as int));
        assert(x == v@[k]);
        let mut pos: usize = 0;
        while pos < out.len() && name_le(out[pos].as_str(), x.as_str())
            invariant
                pos <= out@.len(),
                forall|j: int| 0 <= j < pos ==> str_le(#[trigger] out@[j]@, x@),
            decreases out@.len() - pos,
        {
            pos = pos + 1;
        }
        proof {
            assert forall|j: int| pos <= j < out@.len() implies str_le(
                x@,
                #[trigger] out@[j]@,
            ) by {
                lemma_str_le_total(out@[pos as int]@, x@);
                if j > pos {
                    lemma_str_le_trans(x@, out@[pos as int]@, out@[j]@);
                }
            }
            lemma_insert_sorted_strings(out@, pos as int, x);
            to_multiset_insert(out@, pos as int, x);
            to_multiset_build(v@.subrange(0, k), x);
            assert(v@.subrange(0, k + 1) =~= v@.subrange(0, k).push(x));
        }
        out.insert(pos, x);
        proof {
            k = k + 1;
        }
    }
    assert(v@.subrange(0, n as int) =~= v@);
    out
}

} // verus!
