use vstd::prelude::*;

verus! {

/// Whether `step` answers every state in exactly one way.
pub open spec fn functional<S, T, F: Fn(S) -> (T, S)>(step: F) -> bool {
    forall|s: S, a: (T, S), b: (T, S)|
        #[trigger] call_ensures(step, (s,), a) && #[trigger] call_ensures(step, (s,), b) ==> a == b
}

/// Whether drawing `out.len()` samples from a source in state `start` can
/// yield `out`, in that order, and leave the source in state `end`. Each
/// sample comes from one call of `step`, which hands back the sample and the
/// state that follows.
pub open spec fn produces<S, T, F: Fn(S) -> (T, S)>(step: F, start: S, out: Seq<T>, end: S) -> bool
    decreases out.len(),
{
    if out.len() == 0 {
        start == end
    } else {
        exists|mid: S|
            produces(step, start, out.drop_last(), mid) && #[trigger] call_ensures(
                step,
                (mid,),
                (out.last(), end),
            )
    }
}

/// Fills every slot of `buf`, first to last, with successive samples of the
/// source: one call of `step` per slot, each continuing from the state that
/// the call before it left. Returns the state after the last slot, from which
/// the next buffer continues.
pub fn fill_buffer<S, T, F: Fn(S) -> (T, S)>(buf: &mut [T], start: S, step: F) -> (end: S)
    requires
        forall|s: S| call_requires(step, (s,)),
    ensures
        final(buf)@.len() == old(buf)@.len(),
        produces(step, start, final(buf)@, end),
{
    let n: usize = buf.len();
    let mut state = start;
    let mut i: usize = 0;
    while i < n
        invariant
            i <= n,
            buf@.len() == n,
            produces(step, start, buf@.take(i as int), state),
            forall|s: S| call_requires(step, (s,)),
        decreases n - i,
    {
        let ghost before = buf@;
        let ghost mid = state;
        let (sample, following) = step(state);
        buf[i] = sample;
        state = following;
        proof {
            let filled = buf@.take(i + 1);
            assert(filled.drop_last() =~= before.take(i as int));
            assert(call_ensures(step, (mid,), (filled.last(), state)));
        }
        i += 1;
    }
    proof {
        assert(buf@.take(n as int) =~= buf@);
    }
    state
}

/// Buffers filled one after the other read as one: if a first fill yields
/// `first` and leaves the source in state `mid`, and a second fill that starts
/// from `mid` yields `second`, then a single fill from the first state yields
/// `first` followed by `second` and ends where the second fill ended.
pub proof fn lemma_fills_compose<S, T, F: Fn(S) -> (T, S)>(
    step: F,
    start: S,
    first: Seq<T>,
    mid: S,
    second: Seq<T>,
    end: S,
)
    requires
        produces(step, start, first, mid),
        produces(step, mid, second, end),
    ensures
        produces(step, start, first + second, end),
    decreases second.len(),
{
    if second.len() == 0 {
        assert(first + second =~= first);
    } else {
        let before = choose|before: S|
            produces(step, mid, second.drop_last(), before) && #[trigger] call_ensures(
                step,
                (before,),
                (second.last(), end),
            );
        lemma_fills_compose(step, start, first, mid, second.drop_last(), before);
        assert((first + second).drop_last() =~= first + second.drop_last());
        assert((first + second).last() == second.last());
    }
}

/// A fill can be cut anywhere: what a fill of `out` yields up to slot `k` is
/// a fill of its own, and the rest is a fill that starts where it stopped.
pub proof fn lemma_fill_splits<S, T, F: Fn(S) -> (T, S)>(
    step: F,
    start: S,
    out: Seq<T>,
    end: S,
    k: int,
)
    requires
        produces(step, start, out, end),
        0 <= k <= out.len(),
    ensures
        exists|mid: S|
            #[trigger] produces(step, start, out.take(k), mid) && produces(
                step,
                mid,
                out.skip(k),
                end,
            ),
    decreases out.len(),
{
    if k == out.len() {
        assert(out.take(k) =~= out);
        assert(produces(step, start, out.take(k), end) && produces(step, end, out.skip(k), end));
    } else {
        let before = choose|before: S|
            produces(step, start, out.drop_last(), before) && #[trigger] call_ensures(
                step,
                (before,),
                (out.last(), end),
            );
        lemma_fill_splits(step, start, out.drop_last(), before, k);
        let mid = choose|mid: S|
            #[trigger] produces(step, start, out.drop_last().take(k), mid) && produces(
                step,
                mid,
                out.drop_last().skip(k),
                before,
            );
        assert(out.drop_last().take(k) =~= out.take(k));
        assert(out.skip(k).drop_last() =~= out.drop_last().skip(k));
        assert(out.skip(k).last() == out.last());
        assert(produces(step, start, out.take(k), mid) && produces(step, mid, out.skip(k), end));
    }
}

/// The state of a source after `n` draws, where `advance` is what one draw
/// does to the state.
pub open spec fn advanced<S>(advance: spec_fn(S) -> S, start: S, n: nat) -> S
    decreases n,
{
    if n == 0 {
        start
    } else {
        advance(advanced(advance, start, (n - 1) as nat))
    }
}

/// No slot is skipped, repeated or reordered: where every call of `step`
/// hands back `sample` of the state it was given and moves on to `advance` of
/// it, slot `i` of a fill holds the sample of the state after `i` draws, and
/// the fill ends in the state after as many draws as the buffer has slots.
pub proof fn lemma_fill_follows_source<S, T, F: Fn(S) -> (T, S)>(
    step: F,
    sample: spec_fn(S) -> T,
    advance: spec_fn(S) -> S,
    start: S,
    out: Seq<T>,
    end: S,
)
    requires
        forall|s: S, r: (T, S)| #[trigger] call_ensures(step, (s,), r) ==> r == (sample(s), advance(s)),
        produces(step, start, out, end),
    ensures
        end == advanced(advance, start, out.len()),
        forall|i: int| 0 <= i < out.len() ==> out[i] == sample(advanced(advance, start, i as nat)),
    decreases out.len(),
{
    if out.len() > 0 {
        let mid = choose|mid: S|
            produces(step, start, out.drop_last(), mid) && #[trigger] call_ensures(
                step,
                (mid,),
                (out.last(), end),
            );
        lemma_fill_follows_source(step, sample, advance, start, out.drop_last(), mid);
        assert forall|i: int| 0 <= i < out.len() implies out[i] == sample(
            advanced(advance, start, i as nat),
        ) by {
            if i < out.len() - 1 {
                assert(out[i] == out.drop_last()[i]);
            }
        }
    }
}

/// What every draw keeps, a fill keeps: if `holds` is true of the state that
/// `step` hands back whenever it was true of the state it was given, and
/// `within` is true of every sample that `step` hands back from such a state,
/// then a fill that starts in such a state ends in one, and `within` is true
/// of every slot.
pub proof fn lemma_fill_keeps_invariant<S, T, F: Fn(S) -> (T, S)>(
    step: F,
    holds: spec_fn(S) -> bool,
    within: spec_fn(T) -> bool,
    start: S,
    out: Seq<T>,
    end: S,
)
    requires
        forall|s: S, r: (T, S)|
            holds(s) && #[trigger] call_ensures(step, (s,), r) ==> within(r.0) && holds(r.1),
        holds(start),
        produces(step, start, out, end),
    ensures
        holds(end),
        forall|i: int| 0 <= i < out.len() ==> within(#[trigger] out[i]),
    decreases out.len(),
{
    if out.len() > 0 {
        let mid = choose|mid: S|
            produces(step, start, out.drop_last(), mid) && #[trigger] call_ensures(
                step,
                (mid,),
                (out.last(), end),
            );
        lemma_fill_keeps_invariant(step, holds, within, start, out.drop_last(), mid);
        assert forall|i: int| 0 <= i < out.len() implies within(#[trigger] out[i]) by {
            if i < out.len() - 1 {
                assert(out[i] == out.drop_last()[i]);
            }
        }
    }
}

/// A source whose `step` is functional is reproducible: two fills of the same
/// length from the same state yield the same samples and end in the same
/// state.
pub proof fn lemma_fill_deterministic<S, T, F: Fn(S) -> (T, S)>(
    step: F,
    start: S,
    out_a: Seq<T>,
    end_a: S,
    out_b: Seq<T>,
    end_b: S,
)
    requires
        functional(step),
        produces(step, start, out_a, end_a),
        produces(step, start, out_b, end_b),
        out_a.len() == out_b.len(),
    ensures
        out_a == out_b,
        end_a == end_b,
    decreases out_a.len(),
{
    if out_a.len() == 0 {
        assert(out_a =~= out_b);
    } else {
        let mid_a = choose|mid: S|
            produces(step, start, out_a.drop_last(), mid) && #[trigger] call_ensures(
                step,
                (mid,),
                (out_a.last(), end_a),
            );
        let mid_b = choose|mid: S|
            produces(step, start, out_b.drop_last(), mid) && #[trigger] call_ensures(
                step,
                (mid,),
                (out_b.last(), end_b),
            );
        lemma_fill_deterministic(step, start, out_a.drop_last(), mid_a, out_b.drop_last(), mid_b);
        assert(out_a =~= out_a.drop_last().push(out_a.last()));
        assert(out_b =~= out_b.drop_last().push(out_b.last()));
    }
}

} // verus!
