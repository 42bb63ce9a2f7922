use vstd::prelude::*;

verus! {

/// A successfully decoded InfoFrame paired with any warnings produced during decoding.
///
/// `T` is the decoded frame type (e.g. `AviInfoFrame`); `W` is the corresponding
/// warning enum (e.g. [`AviWarning`](crate::warn::AviWarning)).
///
/// A non-empty warning list does not mean decoding failed — the frame is present
/// and usable. The caller decides how to act on the warnings. Warnings are kept
/// in the order they were recorded.
#[derive(Debug)]
pub struct Decoded<T, W> {
    /// The decoded frame.
    pub value: T,
    /// Warnings produced during decoding, in the order they were recorded.
    pub warnings: Vec<W>,
}

impl<T, W> Decoded<T, W> {
    /// Construct a `Decoded` with no warnings.
    pub fn new(value: T) -> (d: Self)
        ensures
            d.value == value,
            d.warnings@ == Seq::<W>::empty(),
    {
        Decoded { value, warnings: Vec::new() }
    }

    /// Append a warning.
    pub fn push_warning(&mut self, warning: W)
        ensures
            final(self).value == old(self).value,
            final(self).warnings@ == old(self).warnings@.push(warning),
    {
        self.warnings.push(warning);
    }

    /// Convert into a `Decoded<U, V>` by mapping the decoded value with
    /// `frame_fn` and each warning, in order, with `warn_fn`.
    pub fn wrap<U, V, F: FnOnce(T) -> U, G: Fn(W) -> V>(self, frame_fn: F, warn_fn: G) -> (out:
        Decoded<U, V>)
        requires
            frame_fn.requires((self.value,)),
            forall|w: W| warn_fn.requires((w,)),
        ensures
            frame_fn.ensures((self.value,), out.value),
            out.warnings@.len() == self.warnings@.len(),
            forall|i: int|
                0 <= i < self.warnings@.len() ==> warn_fn.ensures(
                    (self.warnings@[i],),
                    #[trigger] out.warnings@[i],
                ),
    {
        let ghost ws = self.warnings@;
        let ghost v0 = self.value;
        let mut out = Decoded::new(frame_fn(self.value));
        for w in it: self.warnings.into_iter()
            invariant
                forall|w: W| warn_fn.requires((w,)),
                it.seq() == ws,
                frame_fn.ensures((v0,), out.value),
                out.warnings@.len() == it.index(),
                forall|i: int|
                    0 <= i < it.index() ==> warn_fn.ensures((ws[i],), #[trigger] out.warnings@[i]),
        {
            out.push_warning(warn_fn(w));
        }
        out
    }

    /// Iterate over all warnings produced during decoding, in the order they
    /// were recorded.
    pub fn iter_warnings(&self) -> (it: std::slice::Iter<'_, W>)
        ensures
            vstd::std_specs::slice::into_iter_elts(it) == self.warnings@,
    {
        self.warnings.as_slice().iter()
    }
}

/// The warnings held after pushing each of `ws`, in order, onto `start`.
pub open spec fn pushed_all<W>(start: Seq<W>, ws: Seq<W>) -> Seq<W>
    decreases ws.len(),
{
    if ws.len() == 0 {
        start
    } else {
        pushed_all(start, ws.drop_last()).push(ws.last())
    }
}

/// Pushing warnings one at a time appends them in push order: a fresh
/// [`Decoded`] with `w_1`, …, `w_n` pushed holds exactly `w_1`, …, `w_n`
/// (nothing when `n == 0`), which [`Decoded::iter_warnings`] yields in that
/// order; pushing never changes the value.
pub proof fn lemma_pushed_all<W>(start: Seq<W>, ws: Seq<W>)
    ensures
        pushed_all(start, ws) == start + ws,
        pushed_all(Seq::<W>::empty(), ws) == ws,
    decreases ws.len(),
{
    if ws.len() > 0 {
        lemma_pushed_all(start, ws.drop_last());
        lemma_pushed_all(Seq::<W>::empty(), ws.drop_last());
        assert(start + ws.drop_last().push(ws.last()) =~= start + ws);
        assert(ws.drop_last().push(ws.last()) =~= ws);
    } else {
        assert(start + ws =~= start);
    }
}

} // verus!
