use vstd::prelude::*;
use crate::tui_typing_state::{consistent, initial, opt_chars, run, step, Progress, TuiTypingState};

verus! {

/// One keystroke keeps the partition and the trail of wrong keys consistent.
pub proof fn lemma_step_consistent(p: Progress, key: char)
    requires
        consistent(p),
    ensures
        consistent(step(p, key)),
{
    let q = step(p, key);
    if let Some(c) = p.current {
        if key == c {
            assert(p.reference =~= p.typed + seq![c] + p.untyped);
            if p.untyped.len() > 0 {
                assert(q.typed + opt_chars(q.current) + q.untyped =~= p.reference);
            } else {
                assert(q.typed + opt_chars(q.current) + q.untyped =~= p.reference);
            }
        } else {
            assert forall|i: int| 0 <= i < q.mistyped.len() implies Some(
                #[trigger] q.mistyped[i],
            ) != q.current by {
                if i < p.mistyped.len() {
                    assert(q.mistyped[i] == p.mistyped[i]);
                }
            }
        }
    }
}

/// Every state reached from an opened session, by any keystrokes, holds
/// `typed ++ current ++ untyped == reference`.
pub proof fn lemma_partition_kept(reference: Seq<char>, keys: Seq<char>)
    requires
        reference.len() > 0,
    ensures
        consistent(run(initial(reference), keys)),
        run(initial(reference), keys).typed + opt_chars(run(initial(reference), keys).current)
            + run(initial(reference), keys).untyped == reference,
    decreases keys.len(),
{
    let p0 = initial(reference);
    assert(p0.typed + opt_chars(p0.current) + p0.untyped =~= reference);
    if keys.len() > 0 {
        lemma_partition_kept(reference, keys.drop_last());
        lemma_step_consistent(run(p0, keys.drop_last()), keys.last());
    }
    lemma_run_keeps_reference(p0, keys);
}

/// Keystrokes never change the reference text.
pub proof fn lemma_run_keeps_reference(p: Progress, keys: Seq<char>)
    ensures
        run(p, keys).reference == p.reference,
    decreases keys.len(),
{
    if keys.len() > 0 {
        lemma_run_keeps_reference(p, keys.drop_last());
    }
}

/// The typed text only grows: after any keystrokes the old typed text is a
/// prefix of the new one.
pub proof fn lemma_typed_monotone(p: Progress, keys: Seq<char>)
    ensures
        run(p, keys).typed.len() >= p.typed.len(),
        run(p, keys).typed.take(p.typed.len() as int) == p.typed,
    decreases keys.len(),
{
    if keys.len() > 0 {
        let q = run(p, keys.drop_last());
        lemma_typed_monotone(p, keys.drop_last());
        let r = step(q, keys.last());
        if r.typed != q.typed {
            assert(r.typed.take(p.typed.len() as int) =~= q.typed.take(p.typed.len() as int));
        }
    }
}

/// A keystroke equal to the expected character leaves no wrong keys behind.
pub proof fn lemma_match_clears_mistyped(p: Progress, key: char)
    requires
        p.current == Some(key),
    ensures
        step(p, key).mistyped.len() == 0,
{
}

/// Once the text is typed, no keystroke changes the session.
pub proof fn lemma_complete_stays(p: Progress, keys: Seq<char>)
    requires
        p.current is None,
    ensures
        run(p, keys) == p,
        run(p, keys).current is None,
    decreases keys.len(),
{
    if keys.len() > 0 {
        lemma_complete_stays(p, keys.drop_last());
    }
}

/// Two sessions opened on the same text and fed the same keystrokes end in
/// the same state.
pub proof fn lemma_deterministic(a: &TuiTypingState, b: &TuiTypingState, keys: Seq<char>)
    requires
        a@.reference == b@.reference,
        a@ == initial(a@.reference),
        b@ == initial(b@.reference),
    ensures
        run(a@, keys) == run(b@, keys),
{
}

} // verus!
