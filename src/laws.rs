use vstd::prelude::*;
use crate::label::{LabelOptionsView, LabelView, options_of, unique_names, without_pound};
use crate::plan::{
    OperationView, SyncMode, creations, deletions, has_name, incremental_op, incremental_ops,
    op_name, planned_batches,
};

verus! {

/// The label the service holds after it accepted these fields.
pub open spec fn label_of(o: LabelOptionsView) -> LabelView {
    LabelView { color: o.color, name: o.name, description: Some(o.description) }
}

/// The remote labels after the service carried out one operation: a create
/// adds a label, an update rewrites every label of that name, a delete
/// removes every label of that name.
pub open spec fn apply_op(r: Seq<LabelView>, op: OperationView) -> Seq<LabelView> {
    match op {
        OperationView::Create(o) => r.push(label_of(o)),
        OperationView::Update(n, o) => r.map_values(
            |l: LabelView|
                if l.name == n {
                    label_of(o)
                } else {
                    l
                },
        ),
        OperationView::Delete(n) => r.filter(|l: LabelView| l.name != n),
    }
}

/// The remote labels after the service carried out a sequence of operations.
pub open spec fn apply_ops(r: Seq<LabelView>, ops: Seq<OperationView>) -> Seq<LabelView>
    decreases ops.len(),
{
    if ops.len() == 0 {
        r
    } else {
        apply_op(apply_ops(r, ops.drop_last()), ops.last())
    }
}

/// After a first incremental run over the first `k` declared labels: each of
/// them is present on the remote side with the declared fields, every remote
/// label is named after one that was listed or after one of them, and no
/// listed name was lost.
spec fn converged(s: Seq<LabelView>, d: Seq<LabelView>, k: int, r: Seq<LabelView>) -> bool {
    &&& forall|j: int| 0 <= j < k ==> has_name(s, #[trigger] d[j].name)
    &&& forall|j: int, e: int|
        0 <= j < k && 0 <= e < s.len() && #[trigger] s[e].name == #[trigger] d[j].name ==> s[e]
            == label_of(options_of(d[j]))
    &&& forall|e: int|
        0 <= e < s.len() ==> has_name(r, #[trigger] s[e].name) || exists|j: int|
            0 <= j < k && s[e].name == #[trigger] d[j].name
    &&& forall|n: Seq<char>| has_name(r, n) ==> #[trigger] has_name(s, n)
}

proof fn lemma_incremental_step(d: Seq<LabelView>, r: Seq<LabelView>, u: bool, k: int)
    requires
        0 < k <= d.len(),
    ensures
        incremental_ops(d.take(k), r, u) == incremental_ops(d.take(k - 1), r, u) + incremental_op(
            d[k - 1],
            r,
            u,
        ),
{
    assert(d.take(k).drop_last() =~= d.take(k - 1));
}

proof fn lemma_apply_one_more(r: Seq<LabelView>, a: Seq<OperationView>, x: Seq<OperationView>)
    requires
        x.len() <= 1,
    ensures
        apply_ops(r, a + x) == if x.len() == 0 {
            apply_ops(r, a)
        } else {
            apply_op(apply_ops(r, a), x[0])
        },
{
    if x.len() == 0 {
        assert(a + x =~= a);
    } else {
        assert((a + x).drop_last() =~= a);
    }
}

proof fn lemma_first_run(d: Seq<LabelView>, r: Seq<LabelView>, k: int)
    requires
        unique_names(d),
        0 <= k <= d.len(),
    ensures
        converged(apply_ops(r, incremental_ops(d.take(k), r, true)), d, k, r),
    decreases k,
{
    if k == 0 {
        assert(d.take(0) =~= Seq::<LabelView>::empty());
    } else {
        lemma_first_run(d, r, k - 1);
        lemma_incremental_step(d, r, true, k);
        let s = apply_ops(r, incremental_ops(d.take(k - 1), r, true));
        let dk = d[k - 1];
        let x = incremental_op(dk, r, true);
        lemma_apply_one_more(r, incremental_ops(d.take(k - 1), r, true), x);
        let s2 = apply_op(s, x[0]);
        if has_name(r, dk.name) {
            let f = |l: LabelView|
                if l.name == dk.name {
                    label_of(options_of(dk))
                } else {
                    l
                };
            assert(s2 == s.map_values(f));
            assert forall|e: int| 0 <= e < s.len() implies #[trigger] s2[e].name == s[e].name by {}
            assert forall|n: Seq<char>| has_name(s, n) implies #[trigger] has_name(s2, n) by {
                let e = choose|e: int| 0 <= e < s.len() && #[trigger] s[e].name == n;
                assert(s2[e].name == n);
            }
            assert forall|j: int, e: int|
                0 <= j < k && 0 <= e < s2.len() && #[trigger] s2[e].name
                    == #[trigger] d[j].name implies s2[e] == label_of(options_of(d[j])) by {
                if j < k - 1 {
                    assert(d[j].name != dk.name);
                }
            }
            assert forall|e: int| 0 <= e < s2.len() implies has_name(r, #[trigger] s2[e].name)
                || exists|j: int| 0 <= j < k && s2[e].name == #[trigger] d[j].name by {
                assert(s2[e].name == s[e].name);
                if !has_name(r, s[e].name) {
                    let j = choose|j: int| 0 <= j < k - 1 && s[e].name == #[trigger] d[j].name;
                    assert(0 <= j < k && s2[e].name == d[j].name);
                }
            }
            assert(converged(s2, d, k, r));
        } else {
            let new = label_of(options_of(dk));
            assert(s2 == s.push(new));
            assert(s2[s.len() as int] == new);
            assert forall|n: Seq<char>| has_name(s, n) implies #[trigger] has_name(s2, n) by {
                let e = choose|e: int| 0 <= e < s.len() && #[trigger] s[e].name == n;
                assert(s2[e].name == n);
            }
            assert(s2[s.len() as int].name == dk.name);
            assert(has_name(s2, dk.name));
            assert forall|j: int, e: int|
                0 <= j < k && 0 <= e < s2.len() && #[trigger] s2[e].name
                    == #[trigger] d[j].name implies s2[e] == label_of(options_of(d[j])) by {
                if j < k - 1 {
                    assert(d[j].name != dk.name);
                    if e < s.len() {
                        assert(s2[e] == s[e]);
                    }
                } else if e < s.len() {
                    assert(s2[e] == s[e]);
                    if !has_name(r, s[e].name) {
                        let i = choose|i: int| 0 <= i < k - 1 && s[e].name == #[trigger] d[i].name;
                        assert(d[i].name != dk.name);
                    }
                }
            }
            assert forall|e: int| 0 <= e < s2.len() implies has_name(r, #[trigger] s2[e].name)
                || exists|j: int| 0 <= j < k && s2[e].name == #[trigger] d[j].name by {
                if e < s.len() {
                    assert(s2[e] == s[e]);
                    if !has_name(r, s[e].name) {
                        let j = choose|j: int| 0 <= j < k - 1 && s[e].name == #[trigger] d[j].name;
                        assert(0 <= j < k && s2[e].name == d[j].name);
                    }
                } else {
                    assert(s2[e].name == d[k - 1].name);
                }
            }
            assert(converged(s2, d, k, r));
        }
    }
}

/// Where every declared label is present with its declared fields, a run that
/// updates existing labels only rewrites them as they are.
proof fn lemma_second_run(d: Seq<LabelView>, s: Seq<LabelView>, k: int)
    requires
        0 <= k <= d.len(),
        forall|j: int| 0 <= j < d.len() ==> has_name(s, #[trigger] d[j].name),
        forall|j: int, e: int|
            0 <= j < d.len() && 0 <= e < s.len() && #[trigger] s[e].name == #[trigger] d[j].name
                ==> s[e] == label_of(options_of(d[j])),
    ensures
        incremental_ops(d.take(k), s, true).len() == k,
        forall|i: int|
            0 <= i < k ==> #[trigger] incremental_ops(d.take(k), s, true)[i] == OperationView::Update(
                d[i].name,
                options_of(d[i]),
            ),
        apply_ops(s, incremental_ops(d.take(k), s, true)) == s,
        incremental_ops(d.take(k), s, false).len() == 0,
    decreases k,
{
    if k == 0 {
        assert(d.take(0) =~= Seq::<LabelView>::empty());
    } else {
        lemma_second_run(d, s, k - 1);
        lemma_incremental_step(d, s, true, k);
        lemma_incremental_step(d, s, false, k);
        let dk = d[k - 1];
        assert(has_name(s, dk.name));
        let prev = incremental_ops(d.take(k - 1), s, true);
        let x = incremental_op(dk, s, true);
        lemma_apply_one_more(s, prev, x);
        let s2 = apply_op(s, x[0]);
        assert(s2 =~= s);
    }
}

/// Running the incremental policy with updates a second time, against what the
/// first run left, creates nothing: each declared label is updated in place
/// with the fields it already has, so the remote labels stay as they are, and
/// without updates the second run does nothing at all. Declared labels are
/// taken to have distinct names.
pub proof fn lemma_incremental_idempotent(d: Seq<LabelView>, r: Seq<LabelView>)
    requires
        unique_names(d),
    ensures
        ({
            let s = apply_ops(r, incremental_ops(d, r, true));
            let again = incremental_ops(d, s, true);
            &&& again.len() == d.len()
            &&& forall|i: int| 0 <= i < again.len() ==> !(#[trigger] again[i] is Create)
            &&& apply_ops(s, again) == s
            &&& incremental_ops(d, s, false).len() == 0
        }),
{
    lemma_first_run(d, r, d.len() as int);
    assert(d.take(d.len() as int) =~= d);
    let s = apply_ops(r, incremental_ops(d, r, true));
    lemma_second_run(d, s, d.len() as int);
}

/// Deleting the names of `x` leaves only labels of `s0` that are named after
/// none of them.
proof fn lemma_deletions_remove(s0: Seq<LabelView>, x: Seq<LabelView>)
    ensures
        ({
            let st = apply_ops(s0, deletions(x));
            forall|i: int|
                0 <= i < st.len() ==> s0.contains(#[trigger] st[i]) && forall|j: int|
                    0 <= j < x.len() ==> st[i].name != #[trigger] x[j].name
        }),
    decreases x.len(),
{
    if x.len() > 0 {
        lemma_deletions_remove(s0, x.drop_last());
        assert(deletions(x).drop_last() =~= deletions(x.drop_last()));
        let prev = apply_ops(s0, deletions(x.drop_last()));
        let n = x.last().name;
        let pred = |l: LabelView| l.name != n;
        let st = apply_ops(s0, deletions(x));
        assert(st == prev.filter(pred));
        assert forall|i: int| 0 <= i < st.len() implies s0.contains(#[trigger] st[i]) && forall|
            j: int,
        |
            0 <= j < x.len() ==> st[i].name != #[trigger] x[j].name by {
            prev.lemma_filter_pred(pred, i);
            assert(st.contains(st[i]));
            prev.lemma_filter_contains_rev(pred, st[i]);
            let m = choose|m: int| 0 <= m < prev.len() && prev[m] == st[i];
            assert forall|j: int| 0 <= j < x.len() implies st[i].name != #[trigger] x[j].name by {
                if j < x.len() - 1 {
                    assert(x.drop_last()[j] == x[j]);
                }
            }
        }
    }
}

/// Creating the declared labels one after the other, starting from none,
/// leaves exactly the declared labels, in order, as the service holds them.
proof fn lemma_creations_fill(d: Seq<LabelView>)
    ensures
        apply_ops(Seq::empty(), creations(d)) == d.map_values(
            |l: LabelView| label_of(options_of(l)),
        ),
    decreases d.len(),
{
    if d.len() > 0 {
        lemma_creations_fill(d.drop_last());
        assert(creations(d).drop_last() =~= creations(d.drop_last()));
        assert(apply_ops(Seq::empty(), creations(d)) =~= d.map_values(
            |l: LabelView| label_of(options_of(l)),
        ));
    } else {
        assert(apply_ops(Seq::empty(), creations(d)) =~= d.map_values(
            |l: LabelView| label_of(options_of(l)),
        ));
    }
}

/// Full synchronisation deletes every remote label and creates every declared
/// one, in two batches with the deletes first, and never updates, whatever
/// names the two sides share. The deletes leave no label behind, and the
/// creates then leave exactly the declared ones.
pub proof fn lemma_full_sync_counts(d: Seq<LabelView>, r: Seq<LabelView>)
    ensures
        ({
            let b = planned_batches(d, r, SyncMode::FullSync);
            &&& b.len() == 2
            &&& b[0].len() == r.len()
            &&& b[1].len() == d.len()
            &&& forall|i: int| 0 <= i < b[0].len() ==> #[trigger] b[0][i] is Delete
            &&& forall|i: int| 0 <= i < b[1].len() ==> #[trigger] b[1][i] is Create
            &&& apply_ops(r, b[0]) == Seq::<LabelView>::empty()
            &&& apply_ops(apply_ops(r, b[0]), b[1]) == d.map_values(
                |l: LabelView| label_of(options_of(l)),
            )
        }),
{
    lemma_deletions_remove(r, r);
    let st = apply_ops(r, deletions(r));
    if st.len() > 0 {
        let m = choose|m: int| 0 <= m < r.len() && r[m] == st[0];
        assert(st[0].name != r[m].name);
    }
    assert(st =~= Seq::<LabelView>::empty());
    lemma_creations_fill(d);
}

/// Without updates, the incremental policy emits no operation at all for a
/// name that the remote side already has.
pub proof fn lemma_skip_existing(d: Seq<LabelView>, r: Seq<LabelView>, n: Seq<char>)
    requires
        has_name(r, n),
    ensures
        forall|i: int|
            0 <= i < incremental_ops(d, r, false).len() ==> op_name(
                #[trigger] incremental_ops(d, r, false)[i],
            ) != n,
    decreases d.len(),
{
    if d.len() > 0 {
        lemma_skip_existing(d.drop_last(), r, n);
        let prev = incremental_ops(d.drop_last(), r, false);
        let x = incremental_op(d.last(), r, false);
        let all = incremental_ops(d, r, false);
        assert(all == prev + x);
        assert forall|i: int| 0 <= i < all.len() implies op_name(#[trigger] all[i]) != n by {
            if i >= prev.len() {
                assert(all[i] == x[i - prev.len()]);
            } else {
                assert(all[i] == prev[i]);
            }
        }
    }
}

/// A color is sent the same whether or not it was written with a leading `#`.
pub proof fn lemma_color_normalization(c: Seq<char>)
    requires
        c.len() == 0 || c[0] != '#',
    ensures
        without_pound(seq!['#'] + c) == c,
        without_pound(c) == c,
{
    assert((seq!['#'] + c).drop_first() =~= c);
}

} // verus!
