//! The order of a report: by severity (worst first), then line, then id.
//! Findings with the same key keep the order in which the rules found them.
use vstd::prelude::*;

use crate::score::{gate_penalty, lemma_count_concat, lemma_penalty_concat, severity_count, Gate, Severity};
use crate::text::chars_of;
use vstd::seq_lib::{to_multiset_build, to_multiset_insert};
use crate::{views, Finding, FindingView};

verus! {

/// Lexicographic order of character sequences (which for strings is the
/// order of their UTF-8 bytes).
pub open spec fn lex_lt(x: Seq<char>, y: Seq<char>) -> bool
    decreases x.len(),
{
    if x.len() == 0 {
        y.len() > 0
    } else if y.len() == 0 {
        false
    } else if x[0] != y[0] {
        x[0] < y[0]
    } else {
        lex_lt(x.drop_first(), y.drop_first())
    }
}

/// The sort key: severity rank, line, id.
pub open spec fn key(f: FindingView) -> (u8, usize, Seq<char>) {
    (f.severity.spec_rank(), f.line, f.id)
}

/// Key `a` comes strictly before key `b`: higher rank first, then lower
/// line, then smaller id.
pub open spec fn key_lt(a: (u8, usize, Seq<char>), b: (u8, usize, Seq<char>)) -> bool {
    ||| a.0 > b.0
    ||| a.0 == b.0 && a.1 < b.1
    ||| a.0 == b.0 && a.1 == b.1 && lex_lt(a.2, b.2)
}

pub open spec fn goes_before(a: FindingView, b: FindingView) -> bool {
    key_lt(key(a), key(b))
}

/// No finding goes before one that precedes it.
pub open spec fn sorted(s: Seq<FindingView>) -> bool {
    forall|i: int, j: int| 0 <= i < j < s.len() ==> !goes_before(#[trigger] s[j], #[trigger] s[i])
}

/// The findings of `s` whose key is `k`, in order.
pub open spec fn with_key(s: Seq<FindingView>, k: (u8, usize, Seq<char>)) -> Seq<FindingView>
    decreases s.len(),
{
    if s.len() == 0 {
        seq![]
    } else {
        with_key(s.drop_last(), k) + if key(s.last()) == k {
            seq![s.last()]
        } else {
            seq![]
        }
    }
}

pub proof fn lemma_lex_irrefl(x: Seq<char>)
    ensures
        !lex_lt(x, x),
    decreases x.len(),
{
    if x.len() > 0 {
        lemma_lex_irrefl(x.drop_first());
    }
}

pub proof fn lemma_lex_trans(x: Seq<char>, y: Seq<char>, z: Seq<char>)
    requires
        lex_lt(x, y),
        lex_lt(y, z),
    ensures
        lex_lt(x, z),
    decreases x.len(),
{
    if x.len() > 0 && y.len() > 0 && z.len() > 0 && x[0] == y[0] && y[0] == z[0] {
        lemma_lex_trans(x.drop_first(), y.drop_first(), z.drop_first());
    }
}

pub proof fn lemma_lex_total(x: Seq<char>, y: Seq<char>)
    ensures
        lex_lt(x, y) || lex_lt(y, x) || x == y,
    decreases x.len(),
{
    if x.len() > 0 && y.len() > 0 {
        if x[0] == y[0] {
            lemma_lex_total(x.drop_first(), y.drop_first());
            if x.drop_first() == y.drop_first() {
                assert(x =~= seq![x[0]] + x.drop_first());
                assert(y =~= seq![y[0]] + y.drop_first());
            }
        }
    } else if x.len() == 0 && y.len() == 0 {
        assert(x =~= y);
    }
}

pub proof fn lemma_key_order(a: (u8, usize, Seq<char>), b: (u8, usize, Seq<char>), c: (u8, usize, Seq<char>))
    ensures
        !key_lt(a, a),
        key_lt(a, b) && key_lt(b, c) ==> key_lt(a, c),
        key_lt(a, b) || key_lt(b, a) || a == b,
{
    lemma_lex_irrefl(a.2);
    if key_lt(a, b) && key_lt(b, c) && a.0 == c.0 && a.1 == c.1 {
        lemma_lex_trans(a.2, b.2, c.2);
    }
    lemma_lex_total(a.2, b.2);
}

pub proof fn lemma_with_key_concat(a: Seq<FindingView>, b: Seq<FindingView>, k: (u8, usize, Seq<char>))
    ensures
        with_key(a + b, k) == with_key(a, k) + with_key(b, k),
    decreases b.len(),
{
    if b.len() == 0 {
        assert(a + b =~= a);
        assert(with_key(a, k) + with_key(b, k) =~= with_key(a, k));
    } else {
        assert((a + b).drop_last() =~= a + b.drop_last());
        lemma_with_key_concat(a, b.drop_last(), k);
        assert(with_key(a, k) + with_key(b.drop_last(), k) + (if key(b.last()) == k {
            seq![b.last()]
        } else {
            seq![]
        }) =~= with_key(a, k) + (with_key(b.drop_last(), k) + (if key(b.last()) == k {
            seq![b.last()]
        } else {
            seq![]
        })));
    }
}

proof fn lemma_with_key_none(s: Seq<FindingView>, k: (u8, usize, Seq<char>))
    requires
        forall|i: int| 0 <= i < s.len() ==> key(#[trigger] s[i]) != k,
    ensures
        with_key(s, k) == Seq::<FindingView>::empty(),
    decreases s.len(),
{
    if s.len() > 0 {
        assert forall|i: int| 0 <= i < s.drop_last().len() implies key(
            #[trigger] s.drop_last()[i],
        ) != k by {
            assert(s.drop_last()[i] == s[i]);
        }
        lemma_with_key_none(s.drop_last(), k);
        assert(key(s.last()) != k);
        assert(with_key(s, k) =~= Seq::<FindingView>::empty());
    }
}

proof fn lemma_with_key_one(x: FindingView, k: (u8, usize, Seq<char>))
    ensures
        with_key(seq![x], k) == if key(x) == k {
            seq![x]
        } else {
            Seq::<FindingView>::empty()
        },
{
    assert(seq![x].drop_last() =~= Seq::<FindingView>::empty());
    assert(with_key(Seq::<FindingView>::empty(), k) == Seq::<FindingView>::empty());
    if key(x) == k {
        assert(Seq::<FindingView>::empty() + seq![x] =~= seq![x]);
    } else {
        assert(Seq::<FindingView>::empty() + Seq::<FindingView>::empty() =~= Seq::<
            FindingView,
        >::empty());
    }
}

proof fn lemma_with_key_has(s: Seq<FindingView>, i: int)
    requires
        0 <= i < s.len(),
    ensures
        with_key(s, key(s[i])).len() > 0,
    decreases s.len(),
{
    if i < s.len() - 1 {
        assert(s.drop_last()[i] == s[i]);
        lemma_with_key_has(s.drop_last(), i);
    }
}

proof fn lemma_with_key_from(s: Seq<FindingView>, k: (u8, usize, Seq<char>))
    requires
        with_key(s, k).len() > 0,
    ensures
        exists|i: int| 0 <= i < s.len() && key(#[trigger] s[i]) == k,
    decreases s.len(),
{
    if s.len() == 0 {
        assert(with_key(s, k).len() == 0);
    } else if key(s.last()) != k {
        lemma_with_key_from(s.drop_last(), k);
        let i = choose|i: int| 0 <= i < s.drop_last().len() && key(#[trigger] s.drop_last()[i]) == k;
        assert(s[i] == s.drop_last()[i]);
    } else {
        assert(key(s[s.len() - 1]) == k);
    }
}

/// The last finding of a sorted sequence has the greatest key: no finding's
/// key comes after it.
proof fn lemma_sorted_last(s: Seq<FindingView>, j: int)
    requires
        sorted(s),
        0 <= j < s.len(),
    ensures
        !key_lt(key(s.last()), key(s[j])),
{
    if j < s.len() - 1 {
        assert(!goes_before(s[s.len() - 1], s[j]));
    } else {
        lemma_key_order(key(s[j]), key(s[j]), key(s[j]));
    }
}

/// Two sorted sequences that hold the same findings of every key, in the same
/// order, are equal.
pub proof fn lemma_sorted_unique(a: Seq<FindingView>, b: Seq<FindingView>)
    requires
        sorted(a),
        sorted(b),
        forall|k: (u8, usize, Seq<char>)| #[trigger] with_key(a, k) == with_key(b, k),
    ensures
        a == b,
    decreases a.len(),
{
    if a.len() == 0 || b.len() == 0 {
        if b.len() > 0 {
            lemma_with_key_has(b, b.len() - 1);
            assert(with_key(a, key(b[b.len() - 1])).len() == 0);
        }
        if a.len() > 0 {
            lemma_with_key_has(a, a.len() - 1);
            assert(with_key(b, key(a[a.len() - 1])).len() == 0);
        }
        assert(a =~= b);
    } else {
        let x = a.last();
        let y = b.last();
        lemma_with_key_has(a, a.len() - 1);
        lemma_with_key_has(b, b.len() - 1);
        assert(with_key(b, key(x)) == with_key(a, key(x)));
        assert(with_key(a, key(y)) == with_key(b, key(y)));
        lemma_with_key_from(b, key(x));
        lemma_with_key_from(a, key(y));
        let j = choose|i: int| 0 <= i < b.len() && key(#[trigger] b[i]) == key(x);
        let i = choose|i: int| 0 <= i < a.len() && key(#[trigger] a[i]) == key(y);
        lemma_sorted_last(b, j);
        lemma_sorted_last(a, i);
        lemma_key_order(key(x), key(y), key(x));
        let k = key(x);
        assert(key(y) == k);
        let a1 = a.drop_last();
        let b1 = b.drop_last();
        assert(with_key(a, k) == with_key(a1, k) + seq![x]);
        assert(with_key(b, k) == with_key(b1, k) + seq![y]);
        assert(x == with_key(a, k).last());
        assert(y == with_key(b, k).last());
        assert forall|k2: (u8, usize, Seq<char>)| #[trigger] with_key(a1, k2) == with_key(b1, k2) by {
            if k2 == k {
                assert(with_key(a1, k) =~= with_key(a, k).drop_last());
                assert(with_key(b1, k) =~= with_key(b, k).drop_last());
            } else {
                assert(with_key(a, k2) =~= with_key(a1, k2));
                assert(with_key(b, k2) =~= with_key(b1, k2));
            }
        }
        assert forall|p: int, q: int| 0 <= p < q < a1.len() implies !goes_before(
            #[trigger] a1[q],
            #[trigger] a1[p],
        ) by {
            assert(a1[q] == a[q] && a1[p] == a[p]);
        }
        assert forall|p: int, q: int| 0 <= p < q < b1.len() implies !goes_before(
            #[trigger] b1[q],
            #[trigger] b1[p],
        ) by {
            assert(b1[q] == b[q] && b1[p] == b[p]);
        }
        lemma_sorted_unique(a1, b1);
        assert(a =~= a1.push(x));
        assert(b =~= b1.push(y));
    }
}

fn lex_lt_exec(x: &Vec<char>, y: &Vec<char>) -> (r: bool)
    ensures
        r == lex_lt(x@, y@),
{
    let mut i: usize = 0;
    assert(x@.skip(0) =~= x@);
    assert(y@.skip(0) =~= y@);
    while i < x.len() && i < y.len() && x[i] == y[i]
        invariant
            i <= x.len(),
            i <= y.len(),
            lex_lt(x@, y@) == lex_lt(x@.skip(i as int), y@.skip(i as int)),
        decreases x.len() - i,
    {
        proof {
            assert(x@.skip(i as int).drop_first() =~= x@.skip(i + 1));
            assert(y@.skip(i as int).drop_first() =~= y@.skip(i + 1));
        }
        i = i + 1;
    }
    proof {
        if i < x.len() && i < y.len() {
            assert(x@.skip(i as int)[0] == x@[i as int]);
            assert(y@.skip(i as int)[0] == y@[i as int]);
        }
    }
    if i == x.len() {
        i < y.len()
    } else if i == y.len() {
        false
    } else {
        x[i] < y[i]
    }
}

fn goes_before_exec(a: &Finding, b: &Finding) -> (r: bool)
    ensures
        r == goes_before(a@, b@),
{
    let ra = a.severity.rank();
    let rb = b.severity.rank();
    if ra != rb {
        return ra > rb;
    }
    if a.line != b.line {
        return a.line < b.line;
    }
    let ia = chars_of(a.id.as_str());
    let ib = chars_of(b.id.as_str());
    lex_lt_exec(&ia, &ib)
}

/// Stable insertion sort by `key`.
pub fn sort_findings(v: Vec<Finding>) -> (out: Vec<Finding>)
    ensures
        sorted(views(out@)),
        forall|k: (u8, usize, Seq<char>)| #[trigger] with_key(views(out@), k) == with_key(views(v@), k),
        forall|g: Gate| #[trigger] gate_penalty(views(out@), g) == gate_penalty(views(v@), g),
        forall|s: Severity| #[trigger] severity_count(views(out@), s) == severity_count(views(v@), s),
        views(out@).to_multiset() == views(v@).to_multiset(),
        out@.len() == v@.len(),
{
    let ghost all = views(v@);
    let mut input = v;
    let mut out: Vec<Finding> = Vec::new();
    let ghost mut i: int = 0;
    proof {
        assert(all.skip(0) =~= all);
        assert forall|k: (u8, usize, Seq<char>)| #[trigger] with_key(views(out@), k) == with_key(all.take(0), k) by {
            assert(views(out@) =~= all.take(0));
        }
        assert(views(out@) =~= all.take(0));
    }
    while input.len() > 0
        invariant
            0 <= i <= all.len(),
            views(input@) == all.skip(i),
            views(out@).len() == i,
            sorted(views(out@)),
            forall|k: (u8, usize, Seq<char>)| #[trigger] with_key(views(out@), k) == with_key(all.take(i), k),
            forall|g: Gate| #[trigger] gate_penalty(views(out@), g) == gate_penalty(all.take(i), g),
            forall|s: Severity| #[trigger] severity_count(views(out@), s) == severity_count(all.take(i), s),
            views(out@).to_multiset() == all.take(i).to_multiset(),
        decreases input.len(),
    {
        let ghost before = views(input@);
        let x = input.remove(0);
        let ghost s = views(out@);
        proof {
            assert(views(input@) =~= before.drop_first());
            assert(before.drop_first() =~= all.skip(i + 1));
            assert(x@ == before[0]);
            assert(before[0] == all[i]);
        }
        let mut p = out.len();
        while p > 0 && goes_before_exec(&x, &out[p - 1])
            invariant
                p <= out.len(),
                s == views(out@),
                forall|q: int| p <= q < s.len() ==> goes_before(x@, #[trigger] s[q]),
            decreases p,
        {
            p = p - 1;
        }
        proof {
            // everything before p may come before x
            assert forall|q: int| 0 <= q < p implies !goes_before(x@, #[trigger] s[q]) by {
                if q < p - 1 && goes_before(x@, s[q]) {
                    lemma_key_order(key(s[q]), key(s[p - 1]), key(x@));
                    lemma_key_order(key(x@), key(s[q]), key(s[p - 1]));
                    assert(!goes_before(s[p - 1], s[q]));
                }
            }
        }
        out.insert(p, x);
        proof {
            let t = views(out@);
            assert(t =~= s.insert(p as int, x@));
            assert(t =~= s.take(p as int) + seq![x@] + s.skip(p as int));
            assert(s =~= s.take(p as int) + s.skip(p as int));
            let nxt = all.take(i + 1);
            assert(nxt =~= all.take(i) + seq![x@]);
            // sortedness
            assert forall|a: int, b: int| 0 <= a < b < t.len() implies !goes_before(
                #[trigger] t[b],
                #[trigger] t[a],
            ) by {
                if b < p {
                    assert(t[a] == s[a]);
                    assert(t[b] == s[b]);
                } else if b == p {
                    assert(t[a] == s[a]);
                    assert(t[b] == x@);
                } else if a == p {
                    assert(t[a] == x@);
                    assert(t[b] == s[b - 1]);
                    assert(goes_before(x@, s[b - 1]));
                    lemma_key_order(key(x@), key(s[b - 1]), key(x@));
                } else if a < p {
                    assert(t[a] == s[a]);
                    assert(t[b] == s[b - 1]);
                } else {
                    assert(t[a] == s[a - 1]);
                    assert(t[b] == s[b - 1]);
                }
            }
            // same findings per key, in the same order
            assert forall|k: (u8, usize, Seq<char>)| #[trigger] with_key(t, k) == with_key(nxt, k) by {
                lemma_with_key_concat(s.take(p as int) + seq![x@], s.skip(p as int), k);
                lemma_with_key_concat(s.take(p as int), seq![x@], k);
                lemma_with_key_concat(s.take(p as int), s.skip(p as int), k);
                lemma_with_key_concat(all.take(i), seq![x@], k);
                lemma_with_key_one(x@, k);
                if key(x@) == k {
                    assert forall|q: int| 0 <= q < s.skip(p as int).len() implies key(
                        #[trigger] s.skip(p as int)[q],
                    ) != k by {
                        lemma_key_order(key(x@), key(x@), key(x@));
                        assert(goes_before(x@, s[p + q]));
                    }
                    lemma_with_key_none(s.skip(p as int), k);
                    assert(with_key(s, k) =~= with_key(s.take(p as int), k));
                    assert(with_key(t, k) =~= with_key(s.take(p as int), k) + seq![x@]);
                } else {
                    assert(with_key(t, k) =~= with_key(s.take(p as int), k) + with_key(
                        s.skip(p as int),
                        k,
                    ));
                    assert(with_key(nxt, k) =~= with_key(all.take(i), k));
                }
            }
            assert forall|g: Gate| #[trigger] gate_penalty(t, g) == gate_penalty(nxt, g) by {
                lemma_penalty_concat(s.take(p as int) + seq![x@], s.skip(p as int), g);
                lemma_penalty_concat(s.take(p as int), seq![x@], g);
                lemma_penalty_concat(s.take(p as int), s.skip(p as int), g);
                lemma_penalty_concat(all.take(i), seq![x@], g);
            }
            assert forall|sv: Severity| #[trigger] severity_count(t, sv) == severity_count(nxt, sv) by {
                lemma_count_concat(s.take(p as int) + seq![x@], s.skip(p as int), sv);
                lemma_count_concat(s.take(p as int), seq![x@], sv);
                lemma_count_concat(s.take(p as int), s.skip(p as int), sv);
                lemma_count_concat(all.take(i), seq![x@], sv);
            }
            assert(t.to_multiset() == nxt.to_multiset()) by {
                to_multiset_insert(s, p as int, x@);
                assert(nxt =~= all.take(i).push(x@));
                to_multiset_build(all.take(i), x@);
            }
            i = i + 1;
        }
    }
    proof {
        assert(all.take(i) =~= all);
    }
    out
}

} // verus!
