use vstd::prelude::*;

use vstd::arithmetic::power2::{lemma2_to64, pow2};

use crate::dynamic_hdr::bits::{
    bits_of, holds_at, lemma_bits_of_low, lemma_bits_of_val, lemma_bits_val_bound,
    lemma_holds_at_split, lemma_pow2_monotone, max_payload_bits, read_at, BitReader, BitWriter,
};
use crate::error::DecodeError;

verus! {

/// The total number of bits of a list of field widths.
pub open spec fn width_sum(ws: Seq<u8>) -> nat
    decreases ws.len(),
{
    if ws.len() == 0 {
        0
    } else {
        width_sum(ws.drop_last()) + ws.last() as nat
    }
}

/// Every width is between 1 and 32 bits.
pub open spec fn widths_ok(ws: Seq<u8>) -> bool {
    forall|i: int| 0 <= i < ws.len() ==> 1 <= #[trigger] ws[i] <= 32
}

/// Reading consecutive fields of the given widths at `pos`: the values and
/// the position after them, or `None` when the bits run out.
pub open spec fn parse_fields(bits: Seq<bool>, pos: int, ws: Seq<u8>) -> Option<(Seq<u32>, int)>
    decreases ws.len(),
{
    if ws.len() == 0 {
        Some((Seq::empty(), pos))
    } else {
        match parse_fields(bits, pos, ws.drop_last()) {
            None => None,
            Some((vs, q)) => match read_at(bits, q, ws.last() as nat) {
                None => None,
                Some((v, r)) => Some((vs.push(v as u32), r)),
            },
        }
    }
}

/// The bits of consecutive fields: the low `ws[i]` bits of each `vs[i]`.
pub open spec fn enc_fields(vs: Seq<u32>, ws: Seq<u8>) -> Seq<bool>
    decreases ws.len(),
{
    if ws.len() == 0 {
        Seq::empty()
    } else {
        enc_fields(vs.drop_last(), ws.drop_last()) + bits_of(vs.last(), ws.last() as nat)
    }
}

/// Each value fits its field's width.
pub open spec fn fields_fit(vs: Seq<u32>, ws: Seq<u8>) -> bool {
    &&& vs.len() == ws.len()
    &&& forall|i: int| 0 <= i < ws.len() ==> #[trigger] ws[i] <= 32 && vs[i] < pow2(ws[i] as nat)
}

/// Reading `k` consecutive groups of fields, each group of widths `ws`.
pub open spec fn parse_groups(bits: Seq<bool>, pos: int, k: nat, ws: Seq<u8>) -> Option<
    (Seq<Seq<u32>>, int),
>
    decreases k,
{
    if k == 0 {
        Some((Seq::empty(), pos))
    } else {
        match parse_groups(bits, pos, (k - 1) as nat, ws) {
            None => None,
            Some((gs, q)) => match parse_fields(bits, q, ws) {
                None => None,
                Some((vs, r)) => Some((gs.push(vs), r)),
            },
        }
    }
}

/// The bits of consecutive groups of fields.
pub open spec fn enc_groups(gs: Seq<Seq<u32>>, ws: Seq<u8>) -> Seq<bool>
    decreases gs.len(),
{
    if gs.len() == 0 {
        Seq::empty()
    } else {
        enc_groups(gs.drop_last(), ws) + enc_fields(gs.last(), ws)
    }
}

/// Every group's values fit the widths.
pub open spec fn groups_fit(gs: Seq<Seq<u32>>, ws: Seq<u8>) -> bool {
    forall|i: int| 0 <= i < gs.len() ==> fields_fit(#[trigger] gs[i], ws)
}

// ---------------------------------------------------------------------------
// Laws
// ---------------------------------------------------------------------------

/// The encoding of fields is as long as the sum of their widths.
pub proof fn lemma_enc_fields_len(vs: Seq<u32>, ws: Seq<u8>)
    requires
        vs.len() == ws.len(),
    ensures
        enc_fields(vs, ws).len() == width_sum(ws),
    decreases ws.len(),
{
    if ws.len() > 0 {
        lemma_enc_fields_len(vs.drop_last(), ws.drop_last());
    }
}

/// Fields written with values that fit are read back exactly.
pub proof fn lemma_fields_round_trip(bits: Seq<bool>, pos: int, vs: Seq<u32>, ws: Seq<u8>)
    requires
        fields_fit(vs, ws),
        holds_at(bits, pos, enc_fields(vs, ws)),
    ensures
        enc_fields(vs, ws).len() == width_sum(ws),
        parse_fields(bits, pos, ws) == Some((vs, pos + width_sum(ws))),
    decreases ws.len(),
{
    lemma_enc_fields_len(vs, ws);
    if ws.len() == 0 {
        assert(vs =~= Seq::<u32>::empty());
    } else {
        let a = enc_fields(vs.drop_last(), ws.drop_last());
        let b = bits_of(vs.last(), ws.last() as nat);
        lemma_holds_at_split(bits, pos, a, b);
        assert(fields_fit(vs.drop_last(), ws.drop_last())) by {
            assert forall|i: int| 0 <= i < ws.drop_last().len() implies #[trigger] ws.drop_last()[i]
                <= 32 && vs.drop_last()[i] < pow2(ws.drop_last()[i] as nat) by {
                assert(ws[i] <= 32);
            }
        }
        lemma_fields_round_trip(bits, pos, vs.drop_last(), ws.drop_last());
        lemma_enc_fields_len(vs.drop_last(), ws.drop_last());
        assert(ws[ws.len() - 1] <= 32);
        lemma_bits_of_val(vs.last(), ws.last() as nat);
        assert(vs.drop_last().push(vs.last()) =~= vs);
    }
}

/// The values fields of widths `ws` hold after `vs` is written into them:
/// the low `ws[i]` bits of each `vs[i]`.
pub open spec fn masked_fields(vs: Seq<u32>, ws: Seq<u8>) -> Seq<u32> {
    Seq::new(ws.len(), |i: int| ((vs[i] as nat) % pow2(ws[i] as nat)) as u32)
}

/// Fields written with any values are read back as the low bits of each.
pub proof fn lemma_enc_fields_read_back(bits: Seq<bool>, pos: int, vs: Seq<u32>, ws: Seq<u8>)
    requires
        vs.len() == ws.len(),
        widths_ok(ws),
        holds_at(bits, pos, enc_fields(vs, ws)),
    ensures
        enc_fields(vs, ws).len() == width_sum(ws),
        parse_fields(bits, pos, ws) == Some((masked_fields(vs, ws), pos + width_sum(ws))),
    decreases ws.len(),
{
    lemma_enc_fields_len(vs, ws);
    if ws.len() == 0 {
        assert(masked_fields(vs, ws) =~= Seq::<u32>::empty());
    } else {
        let a = enc_fields(vs.drop_last(), ws.drop_last());
        let b = bits_of(vs.last(), ws.last() as nat);
        lemma_holds_at_split(bits, pos, a, b);
        assert(widths_ok(ws.drop_last()));
        lemma_enc_fields_read_back(bits, pos, vs.drop_last(), ws.drop_last());
        lemma_enc_fields_len(vs.drop_last(), ws.drop_last());
        assert(1 <= ws[ws.len() - 1] <= 32);
        lemma_bits_of_low(vs.last(), ws.last() as nat);
        assert(masked_fields(vs.drop_last(), ws.drop_last()).push(
            ((vs.last() as nat) % pow2(ws.last() as nat)) as u32,
        ) =~= masked_fields(vs, ws));
    }
}

/// A failure to read a prefix of the fields is a failure to read them all.
pub proof fn lemma_parse_fields_prefix_none(bits: Seq<bool>, pos: int, ws: Seq<u8>, j: int)
    requires
        0 <= j <= ws.len(),
        parse_fields(bits, pos, ws.take(j)) is None,
    ensures
        parse_fields(bits, pos, ws) is None,
    decreases ws.len(),
{
    if j == ws.len() {
        assert(ws.take(j) =~= ws);
    } else {
        assert(ws.drop_last().take(j) =~= ws.take(j));
        lemma_parse_fields_prefix_none(bits, pos, ws.drop_last(), j);
    }
}

/// Reading fields never moves past the end of the bits and advances by the
/// sum of their widths.
pub proof fn lemma_parse_fields_advance(bits: Seq<bool>, pos: int, ws: Seq<u8>)
    requires
        parse_fields(bits, pos, ws) is Some,
    ensures
        parse_fields(bits, pos, ws).unwrap().1 == pos + width_sum(ws),
        parse_fields(bits, pos, ws).unwrap().0.len() == ws.len(),
    decreases ws.len(),
{
    if ws.len() > 0 {
        lemma_parse_fields_advance(bits, pos, ws.drop_last());
    }
}

/// Every value read fits its field's width.
pub proof fn lemma_parse_fields_fit(bits: Seq<bool>, pos: int, ws: Seq<u8>)
    requires
        parse_fields(bits, pos, ws) is Some,
        widths_ok(ws),
    ensures
        fields_fit(parse_fields(bits, pos, ws).unwrap().0, ws),
    decreases ws.len(),
{
    if ws.len() > 0 {
        assert(widths_ok(ws.drop_last()));
        lemma_parse_fields_fit(bits, pos, ws.drop_last());
        let (vs, q) = parse_fields(bits, pos, ws.drop_last()).unwrap();
        assert(1 <= ws[ws.len() - 1] <= 32);
        lemma_bits_val_bound(bits.subrange(q, q + ws.last()));
        lemma_pow2_monotone(ws.last() as nat, 32);
        lemma2_to64();
        let vs2 = parse_fields(bits, pos, ws).unwrap().0;
        assert forall|i: int| 0 <= i < ws.len() implies #[trigger] ws[i] <= 32 && vs2[i] < pow2(
            ws[i] as nat,
        ) by {
            assert(1 <= ws[i] <= 32);
            if i < ws.len() - 1 {
                assert(ws.drop_last()[i] == ws[i]);
            }
        }
    }
}

/// Every group read fits the widths.
pub proof fn lemma_parse_groups_fit(bits: Seq<bool>, pos: int, k: nat, ws: Seq<u8>)
    requires
        parse_groups(bits, pos, k, ws) is Some,
        widths_ok(ws),
    ensures
        groups_fit(parse_groups(bits, pos, k, ws).unwrap().0, ws),
    decreases k,
{
    if k > 0 {
        lemma_parse_groups_fit(bits, pos, (k - 1) as nat, ws);
        let q = parse_groups(bits, pos, (k - 1) as nat, ws).unwrap().1;
        lemma_parse_fields_fit(bits, q, ws);
    }
}

/// The encoding of groups is as long as their number times the group width.
pub proof fn lemma_enc_groups_len(gs: Seq<Seq<u32>>, ws: Seq<u8>)
    requires
        forall|i: int| 0 <= i < gs.len() ==> (#[trigger] gs[i]).len() == ws.len(),
    ensures
        enc_groups(gs, ws).len() == gs.len() * width_sum(ws),
    decreases gs.len(),
{
    if gs.len() > 0 {
        lemma_enc_groups_len(gs.drop_last(), ws);
        lemma_enc_fields_len(gs.last(), ws);
        assert((gs.len() - 1) * width_sum(ws) + width_sum(ws) == gs.len() * width_sum(ws))
            by (nonlinear_arith);
    }
}

/// Writing the groups one at a time: the bits of the first `i + 1` groups are
/// those of the first `i` followed by group `i`, and stay within the bits of
/// all of them.
pub proof fn lemma_enc_groups_prefix(gs: Seq<Seq<u32>>, ws: Seq<u8>, i: int)
    requires
        0 <= i < gs.len(),
        forall|k: int| 0 <= k < gs.len() ==> (#[trigger] gs[k]).len() == ws.len(),
    ensures
        enc_groups(gs.take(i + 1), ws) == enc_groups(gs.take(i), ws) + enc_fields(gs[i], ws),
        enc_groups(gs.take(i), ws).len() + width_sum(ws) <= enc_groups(gs, ws).len(),
        enc_fields(gs[i], ws).len() == width_sum(ws),
{
    assert(gs.take(i + 1).drop_last() =~= gs.take(i));
    lemma_enc_groups_len(gs.take(i), ws);
    lemma_enc_groups_len(gs, ws);
    lemma_enc_fields_len(gs[i], ws);
    assert(i * width_sum(ws) + width_sum(ws) <= gs.len() * width_sum(ws)) by (nonlinear_arith)
        requires
            i + 1 <= gs.len(),
    ;
}

/// Groups written with values that fit are read back exactly.
pub proof fn lemma_groups_round_trip(bits: Seq<bool>, pos: int, gs: Seq<Seq<u32>>, ws: Seq<u8>)
    requires
        groups_fit(gs, ws),
        holds_at(bits, pos, enc_groups(gs, ws)),
    ensures
        parse_groups(bits, pos, gs.len(), ws) == Some((gs, pos + enc_groups(gs, ws).len())),
    decreases gs.len(),
{
    if gs.len() == 0 {
        assert(gs =~= Seq::<Seq<u32>>::empty());
    } else {
        let a = enc_groups(gs.drop_last(), ws);
        let b = enc_fields(gs.last(), ws);
        lemma_holds_at_split(bits, pos, a, b);
        assert(groups_fit(gs.drop_last(), ws)) by {
            assert forall|i: int| 0 <= i < gs.drop_last().len() implies fields_fit(
                #[trigger] gs.drop_last()[i],
                ws,
            ) by {
                assert(fields_fit(gs[i], ws));
            }
        }
        lemma_groups_round_trip(bits, pos, gs.drop_last(), ws);
        assert(fields_fit(gs[gs.len() - 1], ws));
        lemma_fields_round_trip(bits, pos + a.len(), gs.last(), ws);
        assert(gs.drop_last().push(gs.last()) =~= gs);
    }
}

/// A failure to read some of the groups is a failure to read them all.
pub proof fn lemma_parse_groups_prefix_none(bits: Seq<bool>, pos: int, j: nat, k: nat, ws: Seq<u8>)
    requires
        j <= k,
        parse_groups(bits, pos, j, ws) is None,
    ensures
        parse_groups(bits, pos, k, ws) is None,
    decreases k,
{
    if j < k {
        lemma_parse_groups_prefix_none(bits, pos, j, (k - 1) as nat, ws);
    }
}

/// Every group read has one value per width.
pub proof fn lemma_parse_groups_shape(bits: Seq<bool>, pos: int, k: nat, ws: Seq<u8>)
    requires
        parse_groups(bits, pos, k, ws) is Some,
    ensures
        parse_groups(bits, pos, k, ws).unwrap().0.len() == k,
        forall|i: int|
            0 <= i < k ==> (#[trigger] parse_groups(bits, pos, k, ws).unwrap().0[i]).len()
                == ws.len(),
    decreases k,
{
    if k > 0 {
        lemma_parse_groups_shape(bits, pos, (k - 1) as nat, ws);
        let q = parse_groups(bits, pos, (k - 1) as nat, ws).unwrap().1;
        lemma_parse_fields_advance(bits, q, ws);
    }
}

/// The width sum of a prefix of the widths.
pub proof fn lemma_width_sum_take(ws: Seq<u8>, i: int)
    requires
        0 <= i < ws.len(),
    ensures
        width_sum(ws.take(i + 1)) == width_sum(ws.take(i)) + ws[i],
        width_sum(ws.take(i + 1)) <= width_sum(ws),
    decreases ws.len(),
{
    assert(ws.take(i + 1).drop_last() =~= ws.take(i));
    if i + 1 < ws.len() {
        assert(ws.drop_last().take(i + 1) =~= ws.take(i + 1));
        assert(ws.drop_last().take(i) =~= ws.take(i));
        lemma_width_sum_take(ws.drop_last(), i);
    } else {
        assert(ws.take(i + 1) =~= ws);
    }
}

// ---------------------------------------------------------------------------
// Executable readers and writers
// ---------------------------------------------------------------------------

/// Read consecutive fields of the given widths.
pub fn read_fields(r: &mut BitReader<'_>, ws: &[u8]) -> (res: Result<Vec<u32>, DecodeError>)
    requires
        old(r).wf(),
        widths_ok(ws@),
    ensures
        final(r).wf(),
        final(r).bits() == old(r).bits(),
        match parse_fields(old(r).bits(), old(r).pos(), ws@) {
            Some((vs, q)) => res matches Ok(v) && v@ == vs && final(r).pos() == q,
            None => res == Err::<Vec<u32>, DecodeError>(DecodeError::MalformedPayload),
        },
{
    let ghost bits = r.bits();
    let ghost p0 = r.pos();
    let mut out: Vec<u32> = Vec::new();
    let mut i: usize = 0;
    assert(ws@.take(0) =~= Seq::<u8>::empty());
    while i < ws.len()
        invariant
            r.wf(),
            r.bits() == bits,
            bits == old(r).bits(),
            p0 == old(r).pos(),
            widths_ok(ws@),
            i <= ws.len(),
            parse_fields(bits, p0, ws@.take(i as int)) == Some((out@, r.pos())),
        decreases ws.len() - i,
    {
        assert(ws@.take(i + 1).drop_last() =~= ws@.take(i as int));
        assert(1 <= ws@[i as int] <= 32);
        let v = match r.read_bits(ws[i]) {
            Ok(v) => v,
            Err(e) => {
                proof {
                    lemma_parse_fields_prefix_none(bits, p0, ws@, i + 1);
                }
                return Err(e);
            },
        };
        out.push(v);
        i = i + 1;
    }
    assert(ws@.take(ws.len() as int) =~= ws@);
    Ok(out)
}

/// Read `k` consecutive groups of fields, each of widths `ws`.
pub fn read_groups(r: &mut BitReader<'_>, k: usize, ws: &[u8]) -> (res: Result<
    Vec<Vec<u32>>,
    DecodeError,
>)
    requires
        old(r).wf(),
        widths_ok(ws@),
    ensures
        final(r).wf(),
        final(r).bits() == old(r).bits(),
        match parse_groups(old(r).bits(), old(r).pos(), k as nat, ws@) {
            Some((gs, q)) => res matches Ok(v) && v@.len() == gs.len() && (forall|i: int|
                0 <= i < gs.len() ==> (#[trigger] v@[i])@ == gs[i]) && final(r).pos() == q,
            None => res == Err::<Vec<Vec<u32>>, DecodeError>(DecodeError::MalformedPayload),
        },
{
    let ghost bits = r.bits();
    let ghost p0 = r.pos();
    let mut out: Vec<Vec<u32>> = Vec::new();
    let mut i: usize = 0;
    while i < k
        invariant
            r.wf(),
            r.bits() == bits,
            bits == old(r).bits(),
            p0 == old(r).pos(),
            widths_ok(ws@),
            i <= k,
            parse_groups(bits, p0, i as nat, ws@) matches Some((gs, q)) && q == r.pos()
                && gs.len() == out@.len() && forall|j: int|
                0 <= j < gs.len() ==> (#[trigger] out@[j])@ == gs[j],
        decreases k - i,
    {
        let ghost before = out@;
        let g = match read_fields(r, ws) {
            Ok(g) => g,
            Err(e) => {
                proof {
                    lemma_parse_groups_prefix_none(bits, p0, (i + 1) as nat, k as nat, ws@);
                }
                return Err(e);
            },
        };
        out.push(g);
        i = i + 1;
        proof {
            let gs = parse_groups(bits, p0, i as nat, ws@).unwrap().0;
            assert forall|j: int| 0 <= j < gs.len() implies (#[trigger] out@[j])@ == gs[j] by {
                if j < before.len() {
                    assert(out@[j] == before[j]);
                }
            }
        }
    }
    Ok(out)
}

/// Write consecutive fields: the low `ws[i]` bits of each `vs[i]`.
pub fn write_fields(w: &mut BitWriter, vs: &[u32], ws: &[u8])
    requires
        old(w).wf(),
        vs@.len() == ws@.len(),
        widths_ok(ws@),
        old(w).written().len() + width_sum(ws@) <= max_payload_bits(),
    ensures
        final(w).wf(),
        final(w).written() == old(w).written() + enc_fields(vs@, ws@),
{
    let ghost w0 = w.written();
    let mut i: usize = 0;
    assert(ws@.take(0) =~= Seq::<u8>::empty());
    assert(vs@.take(0) =~= Seq::<u32>::empty());
    assert(w0 + enc_fields(vs@.take(0), ws@.take(0)) =~= w0);
    while i < ws.len()
        invariant
            w.wf(),
            vs@.len() == ws@.len(),
            widths_ok(ws@),
            i <= ws.len(),
            w0.len() + width_sum(ws@) <= max_payload_bits(),
            w.written() == w0 + enc_fields(vs@.take(i as int), ws@.take(i as int)),
            enc_fields(vs@.take(i as int), ws@.take(i as int)).len() == width_sum(
                ws@.take(i as int),
            ),
        decreases ws.len() - i,
    {
        proof {
            lemma_width_sum_take(ws@, i as int);
            assert(1 <= ws@[i as int] <= 32);
            assert(ws@.take(i + 1).drop_last() =~= ws@.take(i as int));
            assert(vs@.take(i + 1).drop_last() =~= vs@.take(i as int));
            lemma_enc_fields_len(vs@.take(i + 1), ws@.take(i + 1));
        }
        w.write_bits(vs[i], ws[i]);
        assert(w.written() =~= w0 + enc_fields(vs@.take(i + 1), ws@.take(i + 1)));
        i = i + 1;
    }
    assert(ws@.take(ws.len() as int) =~= ws@);
    assert(vs@.take(ws.len() as int) =~= vs@);
}

} // verus!
