use vstd::prelude::*;

verus! {

/// Row indices below `n` assigned to the test set, in increasing
/// order: every index divisible by 5.
pub open spec fn spec_test_indices(n: int) -> Seq<int>
    decreases n,
{
    if n <= 0 {
        Seq::empty()
    } else if (n - 1) % 5 == 0 {
        spec_test_indices(n - 1).push(n - 1)
    } else {
        spec_test_indices(n - 1)
    }
}

/// Row indices below `n` assigned to the training set, in increasing
/// order: every index not divisible by 5.
pub open spec fn spec_train_indices(n: int) -> Seq<int>
    decreases n,
{
    if n <= 0 {
        Seq::empty()
    } else if (n - 1) % 5 != 0 {
        spec_train_indices(n - 1).push(n - 1)
    } else {
        spec_train_indices(n - 1)
    }
}

/// Law: the deterministic dataset split partitions the `n` row indices
/// exactly once.  The test set is precisely the multiples of five
/// below `n` — `⌈n/5⌉` of them, the `j`-th being `5·j` — and the
/// training set is precisely the rest; both are strictly increasing,
/// and their sizes sum to `n`.
pub proof fn lemma_split_partitions(n: int)
    requires
        n >= 0,
    ensures
        spec_test_indices(n).len() == (n + 4) / 5,
        forall|j: int|
            0 <= j < spec_test_indices(n).len() ==> #[trigger] spec_test_indices(n)[j] == 5 * j,
        forall|i: int| 0 <= i < n ==> (spec_test_indices(n).contains(i) <==> i % 5 == 0),
        forall|i: int| 0 <= i < n ==> (spec_train_indices(n).contains(i) <==> i % 5 != 0),
        forall|i: int| spec_test_indices(n).contains(i) ==> 0 <= i < n,
        forall|i: int| spec_train_indices(n).contains(i) ==> 0 <= i < n,
        spec_train_indices(n).len() + spec_test_indices(n).len() == n,
        forall|j: int, k: int|
            0 <= j < k < spec_train_indices(n).len() ==> spec_train_indices(n)[j]
                < spec_train_indices(n)[k],
        forall|j: int, k: int|
            0 <= j < k < spec_test_indices(n).len() ==> spec_test_indices(n)[j]
                < spec_test_indices(n)[k],
    decreases n,
{
    if n == 0 {
    } else {
        lemma_split_partitions(n - 1);
        let tr = spec_train_indices(n);
        let te = spec_test_indices(n);
        let tr0 = spec_train_indices(n - 1);
        let te0 = spec_test_indices(n - 1);
        if (n - 1) % 5 == 0 {
            assert(te == te0.push(n - 1));
            assert(te.len() - 1 == (n - 1 + 4) / 5);
            assert((n - 1) == 5 * ((n - 1) / 5));
            assert(te[te.len() - 1] == n - 1);
            assert forall|j: int| 0 <= j < te.len() implies #[trigger] te[j] == 5 * j by {
                if j < te.len() - 1 {
                    assert(te[j] == te0[j]);
                } else {
                    assert(te.len() - 1 == (n - 1) / 5);
                }
            }
            assert forall|i: int| te.contains(i) implies 0 <= i < n by {
                let j = choose|j: int| 0 <= j < te.len() && te[j] == i;
                if j < te.len() - 1 {
                    assert(te0[j] == i);
                    assert(te0.contains(i));
                }
            }
            assert forall|i: int| tr.contains(i) implies 0 <= i < n by {
                assert(tr == tr0);
            }
            assert forall|i: int| 0 <= i < n && i % 5 == 0 implies te.contains(i) by {
                if i < n - 1 {
                    assert(te0.contains(i));
                    let j = choose|j: int| 0 <= j < te0.len() && te0[j] == i;
                    assert(te[j] == i);
                } else {
                    assert(te[te.len() - 1] == i);
                }
            }
            assert forall|i: int| 0 <= i < n implies (tr.contains(i) <==> i % 5 != 0) by {
                assert(tr == tr0);
                if i == n - 1 {
                    assert(!tr0.contains(i));
                }
            }
            assert forall|i: int| 0 <= i < n && te.contains(i) implies i % 5 == 0 by {
                let j = choose|j: int| 0 <= j < te.len() && te[j] == i;
                if j < te.len() - 1 {
                    assert(te0[j] == i);
                    assert(te0.contains(i));
                }
            }
        } else {
            assert(tr == tr0.push(n - 1));
            assert(te == te0);
            assert forall|i: int| tr.contains(i) implies 0 <= i < n by {
                let j = choose|j: int| 0 <= j < tr.len() && tr[j] == i;
                if j < tr.len() - 1 {
                    assert(tr0[j] == i);
                    assert(tr0.contains(i));
                }
            }
            assert forall|i: int| te.contains(i) implies 0 <= i < n by {
                assert(te == te0);
            }
            assert forall|i: int| 0 <= i < n && i % 5 != 0 implies tr.contains(i) by {
                if i < n - 1 {
                    assert(tr0.contains(i));
                    let j = choose|j: int| 0 <= j < tr0.len() && tr0[j] == i;
                    assert(tr[j] == i);
                } else {
                    assert(tr[tr.len() - 1] == i);
                }
            }
            assert forall|i: int| 0 <= i < n implies (te.contains(i) <==> i % 5 == 0) by {
                assert(te == te0);
                if i == n - 1 {
                    assert(!te0.contains(i));
                }
            }
            assert forall|i: int| 0 <= i < n && tr.contains(i) implies i % 5 != 0 by {
                let j = choose|j: int| 0 <= j < tr.len() && tr[j] == i;
                if j < tr.len() - 1 {
                    assert(tr0[j] == i);
                    assert(tr0.contains(i));
                }
            }
            assert forall|j: int, k: int|
                0 <= j < k < tr.len() implies tr[j] < tr[k] by {
                if k < tr.len() - 1 {
                    assert(tr0[j] < tr0[k]);
                } else {
                    assert(tr0.contains(tr0[j]));
                    assert(tr[j] < n - 1);
                }
            }
        }
    }
}

/// Split `n` row indices into training and test index lists: index `i`
/// lands in the test list exactly when `i` is a multiple of 5, else in
/// the training list, each list in increasing order.
pub fn split_train_test_indices(n: usize) -> (r: (Vec<usize>, Vec<usize>))
    ensures
        r.0@.map_values(|x: usize| x as int) == spec_train_indices(n as int),
        r.1@.map_values(|x: usize| x as int) == spec_test_indices(n as int),
{
    let mut train: Vec<usize> = Vec::new();
    let mut test: Vec<usize> = Vec::new();
    let mut i: usize = 0;
    while i < n
        invariant
            i <= n,
            train@.map_values(|x: usize| x as int) == spec_train_indices(i as int),
            test@.map_values(|x: usize| x as int) == spec_test_indices(i as int),
        decreases n - i,
    {
        if i % 5 == 0 {
            test.push(i);
            proof {
                assert(test@.map_values(|x: usize| x as int) =~= spec_test_indices(i + 1 as int));
                assert(train@.map_values(|x: usize| x as int) =~= spec_train_indices(
                    i + 1 as int,
                ));
            }
        } else {
            train.push(i);
            proof {
                assert(train@.map_values(|x: usize| x as int) =~= spec_train_indices(
                    i + 1 as int,
                ));
                assert(test@.map_values(|x: usize| x as int) =~= spec_test_indices(i + 1 as int));
            }
        }
        i += 1;
    }
    (train, test)
}

/// How many positions two equally long label sequences agree on.
pub open spec fn spec_count_matches(a: Seq<u32>, b: Seq<u32>) -> int
    decreases a.len(),
{
    if a.len() == 0 {
        0
    } else {
        spec_count_matches(a.drop_last(), b.drop_last()) + if a.last() == b.last() {
            1int
        } else {
            0int
        }
    }
}

/// Law: a prediction vector that agrees with the truth everywhere
/// scores a full match count — the accuracy ratio is then exactly one.
pub proof fn lemma_perfect_predictions_score_full(a: Seq<u32>, b: Seq<u32>)
    requires
        a == b,
    ensures
        spec_count_matches(a, b) == a.len(),
    decreases a.len(),
{
    if a.len() > 0 {
        lemma_perfect_predictions_score_full(a.drop_last(), b.drop_last());
    }
}

/// Count the positions where predicted and true labels agree.  The
/// accuracy of a model is this count over the total; the two label
/// vectors must be equally long.
pub fn count_correct(predicted: &Vec<u32>, actual: &Vec<u32>) -> (r: usize)
    requires
        predicted@.len() == actual@.len(),
    ensures
        r == spec_count_matches(predicted@, actual@),
        r <= predicted@.len(),
{
    let mut r: usize = 0;
    let mut i: usize = 0;
    while i < predicted.len()
        invariant
            predicted@.len() == actual@.len(),
            i <= predicted@.len(),
            r == spec_count_matches(predicted@.take(i as int), actual@.take(i as int)),
            r <= i,
        decreases predicted@.len() - i,
    {
        proof {
            assert(predicted@.take(i + 1 as int).drop_last() =~= predicted@.take(i as int));
            assert(actual@.take(i + 1 as int).drop_last() =~= actual@.take(i as int));
            assert(predicted@.take(i + 1 as int).last() == predicted@[i as int]);
            assert(actual@.take(i + 1 as int).last() == actual@[i as int]);
        }
        if predicted[i] == actual[i] {
            r += 1;
        }
        i += 1;
    }
    proof {
        assert(predicted@.take(predicted@.len() as int) =~= predicted@);
        assert(actual@.take(actual@.len() as int) =~= actual@);
    }
    r
}

} // verus!
