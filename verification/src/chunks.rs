use vstd::prelude::*;

verus! {

/// The parts, one after the other.
pub open spec fn flatten_chunks<A>(parts: Seq<Seq<A>>) -> Seq<A>
    decreases parts.len(),
{
    if parts.len() == 0 {
        seq![]
    } else {
        flatten_chunks(parts.drop_last()) + parts.last()
    }
}

/// Where every part has length `w`, the `k`-th part stands at `w * k` of the
/// concatenation.
pub proof fn lemma_flatten_chunks<A>(parts: Seq<Seq<A>>, w: int)
    requires
        w >= 0,
        forall|k: int| 0 <= k < parts.len() ==> (#[trigger] parts[k]).len() == w,
    ensures
        flatten_chunks(parts).len() == w * parts.len(),
        forall|k: int|
            0 <= k < parts.len() ==> flatten_chunks(parts).subrange(w * k, w * k + w)
                == #[trigger] parts[k],
    decreases parts.len(),
{
    if parts.len() > 0 {
        let n = parts.len() - 1;
        let init = parts.drop_last();
        assert forall|k: int| 0 <= k < init.len() implies (#[trigger] init[k]).len() == w by {
            assert(init[k] == parts[k]);
        }
        lemma_flatten_chunks(init, w);
        assert(w * n + w == w * parts.len()) by (nonlinear_arith)
            requires
                n == parts.len() - 1,
        ;
        let e = flatten_chunks(parts);
        assert(parts.last() == parts[n]);
        assert forall|k: int| 0 <= k < parts.len() implies e.subrange(w * k, w * k + w)
            == #[trigger] parts[k] by {
            if k < n {
                assert(0 <= w * k && w * k + w <= w * n) by (nonlinear_arith)
                    requires
                        0 <= k < n,
                        w >= 0,
                ;
                assert(init[k] == parts[k]);
                assert(e.subrange(w * k, w * k + w) =~= flatten_chunks(init).subrange(w * k, w * k + w));
            } else {
                assert(e.subrange(w * k, w * k + w) =~= parts.last());
            }
        }
    }
}

/// A sequence of length `w * n` whose `w`-element chunks are the parts is
/// their concatenation.
pub proof fn lemma_flatten_chunks_of<A>(parts: Seq<Seq<A>>, s: Seq<A>, w: int)
    requires
        w >= 0,
        s.len() == w * parts.len(),
        forall|k: int| 0 <= k < parts.len() ==> s.subrange(w * k, w * k + w) == #[trigger] parts[k],
    ensures
        flatten_chunks(parts) == s,
    decreases parts.len(),
{
    if parts.len() == 0 {
        assert(w * parts.len() == 0) by (nonlinear_arith)
            requires
                parts.len() == 0,
        ;
        assert(s =~= seq![]);
    } else {
        let n = parts.len() - 1;
        let init = parts.drop_last();
        assert(w * n + w == w * parts.len()) by (nonlinear_arith)
            requires
                n == parts.len() - 1,
        ;
        assert(0 <= w * n) by (nonlinear_arith)
            requires
                n >= 0,
                w >= 0,
        ;
        let prefix = s.subrange(0, w * n);
        assert forall|k: int| 0 <= k < init.len() implies prefix.subrange(w * k, w * k + w)
            == #[trigger] init[k] by {
            assert(0 <= w * k && w * k + w <= w * n) by (nonlinear_arith)
                requires
                    0 <= k < n,
                    w >= 0,
            ;
            assert(init[k] == parts[k]);
            assert(prefix.subrange(w * k, w * k + w) =~= s.subrange(w * k, w * k + w));
        }
        lemma_flatten_chunks_of(init, prefix, w);
        assert(parts.last() == parts[n]);
        assert(s =~= prefix + s.subrange(w * n, w * n + w));
    }
}

} // verus!
