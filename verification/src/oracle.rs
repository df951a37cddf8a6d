use vstd::prelude::*;

verus! {

/// The values that come from outside while a program runs (the identities of
/// new functions and the readings of the clock), by the order in which they
/// are drawn.
pub type Oracle = spec_fn(nat) -> u64;

/// Whether `o` gives the values of `log` at their places.
pub open spec fn foretold(o: Oracle, log: Seq<u64>) -> bool {
    forall|i: int| 0 <= i < log.len() ==> o(i as nat) == #[trigger] log[i]
}

/// Whether `later` starts with `earlier`.
pub open spec fn extends(later: Seq<u64>, earlier: Seq<u64>) -> bool {
    &&& earlier.len() <= later.len()
    &&& forall|i: int| 0 <= i < earlier.len() ==> later[i] == #[trigger] earlier[i]
}

/// An oracle that gives the values of a log gives those of each of its
/// beginnings.
pub broadcast proof fn lemma_foretold_earlier(o: Oracle, later: Seq<u64>, earlier: Seq<u64>)
    requires
        #[trigger] foretold(o, later),
        #[trigger] extends(later, earlier),
    ensures
        foretold(o, earlier),
{
    assert forall|i: int| 0 <= i < earlier.len() implies o(i as nat) == #[trigger] earlier[i] by {
        assert(later[i] == earlier[i]);
    }
}

/// Every log is foretold by some oracle: what is said of all oracles that
/// foretell a log is never said of none.
pub proof fn lemma_log_is_foretold(log: Seq<u64>)
    ensures
        exists|o: Oracle| foretold(o, log),
{
    let o: Oracle = |i: nat|
        if i < log.len() {
            log[i as int]
        } else {
            0u64
        };
    assert(foretold(o, log));
}

} // verus!
