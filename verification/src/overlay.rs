//! Keeping the overlays in step with the windows: on every poll, which
//! overlays to close and which to open.
//!
//! A window is known by its window number. The caller holds the overlays
//! themselves; this module decides on numbers alone.

use vstd::prelude::*;

verus! {

/// The numbers of `from` that are not in `without`, each once, in the order
/// in which `from` first holds them.
pub open spec fn missing_from(from: Seq<i64>, without: Seq<i64>) -> Seq<i64>
    decreases from.len(),
{
    if from.len() == 0 {
        Seq::empty()
    } else {
        let earlier = missing_from(from.drop_last(), without);
        if without.contains(from.last()) || earlier.contains(from.last()) {
            earlier
        } else {
            earlier.push(from.last())
        }
    }
}

/// What one poll asks of the caller.
#[derive(Debug)]
pub struct OverlayChanges {
    /// The windows whose overlay is to be closed: they are gone.
    pub to_close: Vec<i64>,
    /// The windows that need an overlay: they are new.
    pub to_open: Vec<i64>,
}

/// `missing_from` holds exactly the numbers of `from` that are not in
/// `without`, and none of them twice.
pub proof fn lemma_missing_from(from: Seq<i64>, without: Seq<i64>)
    ensures
        missing_from(from, without).no_duplicates(),
        forall|n: i64| #[trigger]
            missing_from(from, without).contains(n) <==> from.contains(n) && !without.contains(n),
    decreases from.len(),
{
    let result = missing_from(from, without);
    if from.len() > 0 {
        let head = from.drop_last();
        let earlier = missing_from(head, without);
        lemma_missing_from(head, without);
        assert forall|n: i64| #[trigger]
            result.contains(n) <==> from.contains(n) && !without.contains(n) by {
            if from.contains(n) {
                let i = choose|i: int| 0 <= i < from.len() && from[i] == n;
                if i < head.len() {
                    assert(head[i] == n);
                }
            }
            if earlier.contains(n) && result != earlier {
                let i = choose|i: int| 0 <= i < earlier.len() && earlier[i] == n;
                assert(result[i] == n);
            }
            if n == from.last() && result != earlier {
                assert(result[result.len() - 1] == n);
            }
        }
    }
}

/// Whether `numbers` holds `n`.
pub fn holds_number(numbers: &Vec<i64>, n: i64) -> (held: bool)
    ensures
        held == numbers@.contains(n),
{
    let mut i: usize = 0;
    while i < numbers.len()
        invariant
            i <= numbers.len(),
            forall|j: int| 0 <= j < i ==> numbers@[j] != n,
        decreases numbers.len() - i,
    {
        if numbers[i] == n {
            return true;
        }
        i += 1;
    }
    false
}

/// The numbers of `from` that are not in `without`, each once, in the order
/// in which `from` first holds them.
pub fn numbers_missing(from: &Vec<i64>, without: &Vec<i64>) -> (missing: Vec<i64>)
    ensures
        missing@ == missing_from(from@, without@),
{
    let mut missing: Vec<i64> = Vec::new();
    let mut i: usize = 0;
    while i < from.len()
        invariant
            i <= from.len(),
            missing@ == missing_from(from@.take(i as int), without@),
        decreases from.len() - i,
    {
        let n = from[i];
        assert(from@.take(i + 1).drop_last() =~= from@.take(i as int));
        if !holds_number(without, n) && !holds_number(&missing, n) {
            missing.push(n);
        }
        i += 1;
    }
    assert(from@.take(i as int) =~= from@);
    missing
}

/// Compares the windows that have an overlay with the windows seen now.
///
/// An overlay is to be closed where its window is no longer seen, and one is
/// to be opened for each window seen that has none. No number is named
/// twice, and a window that is both shown and seen is named in neither list.
/// Once the caller has done both, the windows with an overlay are exactly
/// the windows seen.
pub fn reconcile(displayed: &Vec<i64>, observed: &Vec<i64>) -> (changes: OverlayChanges)
    ensures
        changes.to_close@ == missing_from(displayed@, observed@),
        changes.to_open@ == missing_from(observed@, displayed@),
        changes.to_close@.no_duplicates(),
        changes.to_open@.no_duplicates(),
        forall|n: i64| #[trigger]
            changes.to_close@.contains(n) <==> displayed@.contains(n) && !observed@.contains(n),
        forall|n: i64| #[trigger]
            changes.to_open@.contains(n) <==> observed@.contains(n) && !displayed@.contains(n),
        forall|n: i64| #[trigger]
            observed@.contains(n) <==> (displayed@.contains(n) && !changes.to_close@.contains(n))
                || changes.to_open@.contains(n),
{
    proof {
        lemma_missing_from(displayed@, observed@);
        lemma_missing_from(observed@, displayed@);
    }
    OverlayChanges {
        to_close: numbers_missing(displayed, observed),
        to_open: numbers_missing(observed, displayed),
    }
}

/// Where the windows seen are the windows shown, nothing is to be done.
pub proof fn lemma_reconcile_settled(displayed: Seq<i64>, observed: Seq<i64>)
    requires
        forall|n: i64| displayed.contains(n) <==> observed.contains(n),
    ensures
        missing_from(displayed, observed) == Seq::<i64>::empty(),
        missing_from(observed, displayed) == Seq::<i64>::empty(),
{
    lemma_missing_from(displayed, observed);
    lemma_missing_from(observed, displayed);
    let close = missing_from(displayed, observed);
    let open = missing_from(observed, displayed);
    if close.len() > 0 {
        assert(close.contains(close[0]));
    }
    if open.len() > 0 {
        assert(open.contains(open[0]));
    }
}

} // verus!
