//! Transactional I/O adapter.

use vstd::prelude::*;

use crate::expander::Expander;
use crate::expander::pin::ExpanderIO;
use crate::expander::pin::PortPin;
use crate::interface::BusOp;
use crate::interface::ExpanderInterface;
use crate::interface::bit;
use crate::registers::valid_port;
use vstd::std_specs::bits::u32_trailing_zeros;

verus! {

broadcast use vstd::std_specs::bits::axiom_u32_trailing_zeros;

/// Bit `p` of `x | (0xFF << s)`: the OR of a window of eight set bits leaves
/// every bit outside the window alone and sets every bit inside it.
proof fn lemma_bit_or_window(x: u32, s: u32, p: u32)
    requires
        s < 32,
        p < 32,
    ensures
        bit(x | (0xFFu32 << s), p) == (bit(x, p) || (s <= p < s + 8)),
{
    assert((s < 32 && p < 32) ==> (((((x | (0xFFu32 << s)) >> p) & 1u32) == 1u32) == ((((x >> p)
        & 1u32) == 1u32) || (s <= p && p < s + 8)))) by (bit_vector);
}

/// Bit `p` of the load buffer after OR-ing in a byte read at `s`: inside the
/// window the buffer takes the device's pin bit, outside it is untouched.
proof fn lemma_bit_or_load(l: u32, pins: u32, s: u32, p: u32)
    requires
        s < 32,
        p < 32,
    ensures
        bit(l | (((pins >> s) & 0xFFu32) << s), p) == (bit(l, p) || (s <= p < s + 8 && bit(
            pins,
            p,
        ))),
{
    assert((s < 32 && p < 32) ==> (((((l | (((pins >> s) & 0xFFu32) << s)) >> p) & 1u32) == 1u32)
        == ((((l >> p) & 1u32) == 1u32) || (s <= p && p < s + 8 && (((pins >> p) & 1u32)
        == 1u32))))) by (bit_vector);
}

/// OR-ing a window that starts at port 4 or above keeps the low four bits of
/// a mask clear.
proof fn lemma_window_keeps_low_clear(f: u32, s: u32)
    requires
        f & 0x0Fu32 == 0,
        4 <= s < 32,
    ensures
        (f | (0xFFu32 << s)) & 0x0Fu32 == 0,
{
    assert((f & 0x0Fu32 == 0 && 4 <= s && s < 32) ==> (f | (0xFFu32 << s)) & 0x0Fu32 == 0)
        by (bit_vector);
}

/// Bit `j` of `(w >> t) & !0xFF`: the shift moves bit `t + j` of `w` down to
/// `j`, and the mask clears the low eight positions.
proof fn lemma_bit_shift_clear8(w: u32, t: u32, j: u32)
    requires
        t < 32,
        j < 32,
    ensures
        bit((w >> t) & 0xFFFFFF00u32, j) == (8 <= j && t + j < 32 && bit(w, (t + j) as u32)),
{
    assert((t < 32 && j < 32) ==> ((((((w >> t) & 0xFFFFFF00u32) >> j) & 1u32) == 1u32) == (8 <= j
        && t + j < 32 && (((w >> (t + j)) & 1u32) == 1u32)))) by (bit_vector);
}

/// Bit `i` of `w >> t` is bit `t + i` of `w`.
proof fn lemma_bit_shift(w: u32, t: u32, i: u32)
    requires
        t < 32,
        i < 32,
    ensures
        bit(w >> t, i) == (t + i < 32 && bit(w, (t + i) as u32)),
{
    assert((t < 32 && i < 32) ==> (((((w >> t) >> i) & 1u32) == 1u32) == (t + i < 32 && (((w >> (t
        + i)) & 1u32) == 1u32)))) by (bit_vector);
}

/// The zero mask has no bit set and leaves every well-formedness clause
/// trivially true.
proof fn lemma_zero_mask(m: u32, p: u32)
    ensures
        !bit(0u32, p),
        0u32 & 0x0Fu32 == 0u32,
        0u32 & !m == 0u32,
        0u32 | m == m,
        m | 0u32 == m,
{
    assert(((0u32 >> p) & 1u32) == 0u32 && 0u32 & 0x0Fu32 == 0u32 && 0u32 & !m == 0u32 && 0u32 | m
        == m && m | 0u32 == m) by (bit_vector);
}

/// Clearing the low eight bits of a mask whose lowest set bit is bit 0
/// strictly shrinks it; the step each batch-read iteration takes.
proof fn lemma_consume_window_shrinks(w: u32)
    requires
        w != 0,
    ensures
        ((w >> u32_trailing_zeros(w)) & 0xFFFFFF00u32) < w,
{
    let t = u32_trailing_zeros(w);
    assert((t < 32 && (w >> t) & 1u32 == 1u32) ==> ((w >> t) & 0xFFFFFF00u32) < w)
        by (bit_vector);
}

/// The absolute start ports of the batch reads `refresh` issues: `work` is
/// the mask of ports still to cover, shifted so that its bit 0 stands for
/// port `start`. Each batch read lands on the lowest port still wanted and
/// incidentally covers the seven ports above it.
pub open spec fn spec_refresh_starts(work: u32, start: int) -> Seq<int>
    decreases work,
    via spec_refresh_starts_dec
{
    if work == 0 {
        Seq::empty()
    } else {
        let skip = u32_trailing_zeros(work) as int;
        seq![start + skip] + spec_refresh_starts(
            (work >> u32_trailing_zeros(work)) & 0xFFFFFF00u32,
            start + skip,
        )
    }
}

#[via_fn]
proof fn spec_refresh_starts_dec(work: u32, start: int) {
    if work != 0 {
        lemma_consume_window_shrinks(work);
    }
}

/// The batch-read transactions for the pending mask `work`, whose bit 0
/// stands for port `start`, oldest first.
pub open spec fn spec_reads_of(work: u32, start: int) -> Seq<BusOp> {
    spec_refresh_starts(work, start).map_values(|s: int| BusOp::Read { addr: (0x40 + s) as u8 })
}

/// The batch reads `refresh` issues for the given issued mask, oldest first.
pub open spec fn spec_refresh_reads(issued: u32) -> Seq<BusOp> {
    spec_reads_of(issued >> 4u32, 4)
}

/// The freshness mask `refresh` builds: the OR of one 8-bit window at each
/// batch-read start port, for the pending mask `work` whose bit 0 stands for
/// port `start`.
pub open spec fn spec_refresh_fresh(work: u32, start: int) -> u32
    decreases work,
    via spec_refresh_fresh_dec
{
    if work == 0 {
        0u32
    } else {
        let skip = u32_trailing_zeros(work) as int;
        (0xFFu32 << ((start + skip) as u32)) | spec_refresh_fresh(
            (work >> u32_trailing_zeros(work)) & 0xFFFFFF00u32,
            start + skip,
        )
    }
}

#[via_fn]
proof fn spec_refresh_fresh_dec(work: u32, start: int) {
    if work != 0 {
        lemma_consume_window_shrinks(work);
    }
}

/// Bitwise OR is associative.
proof fn lemma_or_assoc(a: u32, b: u32, c: u32)
    ensures
        (a | b) | c == a | (b | c),
{
    assert((a | b) | c == a | (b | c)) by (bit_vector);
}

/// Bit `p` of `a | b` is the disjunction of the two bits.
proof fn lemma_bit_or(a: u32, b: u32, p: u32)
    requires
        p < 32,
    ensures
        bit(a | b, p) == (bit(a, p) || bit(b, p)),
{
    assert((p < 32) ==> (((((a | b) >> p) & 1u32) == 1u32) == ((((a >> p) & 1u32) == 1u32) || (((b
        >> p) & 1u32) == 1u32)))) by (bit_vector);
}

/// Setting or clearing one bit touches exactly that position.
proof fn lemma_bit_set_clear(m: u32, s: u32, p: u32)
    requires
        s < 32,
        p < 32,
    ensures
        bit(m | (1u32 << s), p) == (bit(m, p) || p == s),
        bit(m & !(1u32 << s), p) == (bit(m, p) && p != s),
{
    assert((s < 32 && p < 32) ==> ((((((m | (1u32 << s)) >> p) & 1u32) == 1u32) == ((((m >> p)
        & 1u32) == 1u32) || p == s)) && (((((m & !(1u32 << s)) >> p) & 1u32) == 1u32) == ((((m
        >> p) & 1u32) == 1u32) && p != s)))) by (bit_vector);
}

/// Testing a bit by mask equals testing it by shift.
proof fn lemma_bit_test(m: u32, s: u32)
    requires
        s < 32,
    ensures
        (m & (1u32 << s) != 0) == bit(m, s),
{
    assert((s < 32) ==> ((m & (1u32 << s) != 0) == (((m >> s) & 1u32) == 1u32))) by (bit_vector);
}

/// An 8-port batch write replaces the pins inside its window with the cached
/// bits and leaves every other pin alone.
proof fn lemma_batch_write_pins(pins: u32, cache: u32, v: u32, s: u32, p: u32)
    requires
        v == (cache >> s) & 0xFFu32,
        s < 32,
        p < 32,
    ensures
        bit((pins & !(0xFFu32 << s)) | (v << s), p) == (if s <= p < s + 8 {
            bit(cache, p)
        } else {
            bit(pins, p)
        }),
{
    assert((v == (cache >> s) & 0xFFu32 && s < 32 && p < 32) ==> (((((pins & !(0xFFu32 << s)) | (v
        << s)) >> p) & 1u32 == 1u32) == (if s <= p && p < s + 8 {
        ((cache >> p) & 1u32) == 1u32
    } else {
        ((pins >> p) & 1u32) == 1u32
    }))) by (bit_vector);
}

/// Bit `j` of `(w >> t) & !0x01`: the shift moves bit `t + j` of `w` down to
/// `j`, and the mask clears position 0.
proof fn lemma_bit_shift_clear1(w: u32, t: u32, j: u32)
    requires
        t < 32,
        j < 32,
    ensures
        bit((w >> t) & 0xFFFFFFFEu32, j) == (1 <= j && t + j < 32 && bit(w, (t + j) as u32)),
{
    assert((t < 32 && j < 32) ==> ((((((w >> t) & 0xFFFFFFFEu32) >> j) & 1u32) == 1u32) == (1 <= j
        && t + j < 32 && (((w >> (t + j)) & 1u32) == 1u32)))) by (bit_vector);
}

/// Clearing the lowest set bit of a mask strictly shrinks it; the step each
/// single-port write iteration takes.
proof fn lemma_consume_bit_shrinks(w: u32)
    requires
        w != 0,
    ensures
        ((w >> u32_trailing_zeros(w)) & 0xFFFFFFFEu32) < w,
{
    let t = u32_trailing_zeros(w);
    assert((t < 32 && (w >> t) & 1u32 == 1u32) ==> ((w >> t) & 0xFFFFFFFEu32) < w)
        by (bit_vector);
}

/// The mask of ports a write-back strategy permits the driver to touch.
pub open spec fn spec_ok_mask(strategy: Strategy, dirty: u32, fresh: u32) -> u32 {
    match strategy {
        Strategy::Exact => dirty,
        Strategy::StompClean => fresh,
        Strategy::StompAny => 0xFFFFFFFCu32,
    }
}

/// The bus transactions `write_back` issues: `work` is the mask of pending
/// writes and `ok` the mask of touchable ports, both shifted so that bit 0
/// stands for port `start`; `cache` is the snapshot being flushed. Each step
/// lands on the lowest pending port and issues one batch write if the
/// strategy permits touching its whole 8-port window, else one single-port
/// write.
pub open spec fn spec_wb_ops(work: u32, ok: u32, cache: u32, start: int) -> Seq<BusOp>
    decreases work,
    via spec_wb_ops_dec
{
    if work == 0 {
        Seq::empty()
    } else {
        let t = u32_trailing_zeros(work);
        let s = start + t as int;
        let w = work >> t;
        let o = ok >> t;
        if o & 0xFFu32 == 0xFFu32 {
            seq![
                BusOp::Write {
                    addr: (0x40 + s) as u8,
                    value: ((cache >> (s as u32)) & 0xFFu32) as u8,
                },
            ] + spec_wb_ops(w & 0xFFFFFF00u32, o, cache, s)
        } else {
            seq![
                BusOp::Write {
                    addr: (0x20 + s) as u8,
                    value: if bit(cache, s as u32) {
                        0x01u8
                    } else {
                        0x00u8
                    },
                },
            ] + spec_wb_ops(w & 0xFFFFFFFEu32, o, cache, s)
        }
    }
}

#[via_fn]
proof fn spec_wb_ops_dec(work: u32, ok: u32, cache: u32, start: int) {
    if work != 0 {
        lemma_consume_window_shrinks(work);
        lemma_consume_bit_shrinks(work);
    }
}

/// The mask of ports `write_back` writes, batch windows included, for the
/// same arguments as `spec_wb_ops`.
pub open spec fn spec_wb_written(work: u32, ok: u32, start: int) -> u32
    decreases work,
    via spec_wb_written_dec
{
    if work == 0 {
        0u32
    } else {
        let t = u32_trailing_zeros(work);
        let s = start + t as int;
        let w = work >> t;
        let o = ok >> t;
        if o & 0xFFu32 == 0xFFu32 {
            (0xFFu32 << (s as u32)) | spec_wb_written(w & 0xFFFFFF00u32, o, s)
        } else {
            (1u32 << (s as u32)) | spec_wb_written(w & 0xFFFFFFFEu32, o, s)
        }
    }
}

#[via_fn]
proof fn spec_wb_written_dec(work: u32, ok: u32, start: int) {
    if work != 0 {
        lemma_consume_window_shrinks(work);
        lemma_consume_bit_shrinks(work);
    }
}

/// Every port the write plan touches is one the permission mask `ok`
/// allows, provided every pending port is permitted: a batch is only taken
/// over a fully permitted window, and a single write lands on a pending
/// port.
proof fn lemma_wb_written_within_ok(w: u32, o: u32, start: u32, p: u32)
    requires
        w & !o == 0u32,
        start <= 32,
        forall|i: u32| i < 32 && #[trigger] bit(w, i) ==> start + i < 32,
        p < 32,
    ensures
        bit(spec_wb_written(w, o, start as int), p) ==> (start <= p && bit(o, (p - start) as u32)),
    decreases w,
{
    if w == 0 {
        lemma_zero_mask(0, p);
    } else {
        let t = u32_trailing_zeros(w);
        assert(bit(w, t) && t < 32);
        assert(start + t < 32);
        let s = (start + t) as u32;
        let w2 = w >> t;
        let o2 = o >> t;
        assert((w & !o == 0u32 && t < 32) ==> ((w >> t) & !(o >> t)) == 0u32) by (bit_vector);
        if o2 & 0xFFu32 == 0xFFu32 {
            let wn = w2 & 0xFFFFFF00u32;
            lemma_consume_window_shrinks(w);
            assert forall|i: u32| i < 32 && #[trigger] bit(wn, i) implies s + i < 32 by {
                lemma_bit_shift_clear8(w, t, i);
            }
            assert(((w2 & !o2) == 0u32) ==> ((w2 & 0xFFFFFF00u32) & !o2) == 0u32) by (bit_vector);
            lemma_wb_written_within_ok(wn, o2, s, p);
            lemma_bit_or(0xFFu32 << s, spec_wb_written(wn, o2, s as int), p);
            lemma_bit_or_window(0, s, p);
            lemma_zero_mask(0xFFu32 << s, p);
            if bit(spec_wb_written(w, o, start as int), p) {
                if s <= p < s + 8 {
                    let k = (p - s) as u32;
                    assert(((o2 & 0xFFu32) == 0xFFu32 && k < 8) ==> (((o2 >> k) & 1u32)
                        == 1u32)) by (bit_vector);
                    lemma_bit_shift(o, t, k);
                } else {
                    lemma_bit_shift(o, t, (p - s) as u32);
                }
            }
        } else {
            let wn = w2 & 0xFFFFFFFEu32;
            lemma_consume_bit_shrinks(w);
            assert forall|i: u32| i < 32 && #[trigger] bit(wn, i) implies s + i < 32 by {
                lemma_bit_shift_clear1(w, t, i);
            }
            assert(((w2 & !o2) == 0u32) ==> ((w2 & 0xFFFFFFFEu32) & !o2) == 0u32) by (bit_vector);
            lemma_wb_written_within_ok(wn, o2, s, p);
            lemma_bit_or(1u32 << s, spec_wb_written(wn, o2, s as int), p);
            lemma_bit_set_clear(0, s, p);
            lemma_zero_mask(1u32 << s, p);
            if bit(spec_wb_written(w, o, start as int), p) {
                if p == s {
                    assert((((w >> t) & !(o >> t)) == 0u32 && ((w >> t) & 1u32) == 1u32) ==> (((o
                        >> t) & 1u32) == 1u32)) by (bit_vector);
                } else {
                    lemma_bit_shift(o, t, (p - s) as u32);
                }
            }
        }
    }
}

/// Every pending port is in the write plan, whatever the permission mask.
proof fn lemma_wb_written_covers(w: u32, o: u32, start: u32, i: u32)
    requires
        start <= 32,
        forall|i2: u32| i2 < 32 && #[trigger] bit(w, i2) ==> start + i2 < 32,
        i < 32,
        bit(w, i),
    ensures
        bit(spec_wb_written(w, o, start as int), (start + i) as u32),
    decreases w,
{
    assert((((w >> i) & 1u32) == 1u32) ==> w != 0) by (bit_vector);
    let t = u32_trailing_zeros(w);
    assert(bit(w, t) && t < 32);
    assert(start + t < 32);
    assert(t <= i);
    let s = (start + t) as u32;
    let p = (start + i) as u32;
    let w2 = w >> t;
    let o2 = o >> t;
    if o2 & 0xFFu32 == 0xFFu32 {
        let wn = w2 & 0xFFFFFF00u32;
        lemma_consume_window_shrinks(w);
        lemma_bit_or(0xFFu32 << s, spec_wb_written(wn, o2, s as int), p);
        lemma_bit_or_window(0, s, p);
        lemma_zero_mask(0xFFu32 << s, p);
        if i < t + 8 {
            assert(s <= p < s + 8);
        } else {
            let j = (i - t) as u32;
            lemma_bit_shift_clear8(w, t, j);
            assert forall|i2: u32| i2 < 32 && #[trigger] bit(wn, i2) implies s + i2 < 32 by {
                lemma_bit_shift_clear8(w, t, i2);
            }
            lemma_wb_written_covers(wn, o2, s, j);
        }
    } else {
        let wn = w2 & 0xFFFFFFFEu32;
        lemma_consume_bit_shrinks(w);
        lemma_bit_or(1u32 << s, spec_wb_written(wn, o2, s as int), p);
        lemma_bit_set_clear(0, s, p);
        lemma_zero_mask(1u32 << s, p);
        if i == t {
            assert(p == s);
        } else {
            let j = (i - t) as u32;
            lemma_bit_shift_clear1(w, t, j);
            assert forall|i2: u32| i2 < 32 && #[trigger] bit(wn, i2) implies s + i2 < 32 by {
                lemma_bit_shift_clear1(w, t, i2);
            }
            lemma_wb_written_covers(wn, o2, s, j);
        }
    }
}

/// When the permission mask agrees with the pending mask from its lowest
/// pending bit upward, the write plan touches only pending ports: a batch is
/// then only taken over eight contiguous pending ports.
proof fn lemma_wb_written_sub_work(w: u32, o: u32, start: u32, p: u32)
    requires
        start <= 32,
        forall|i: u32| i < 32 && #[trigger] bit(w, i) ==> start + i < 32,
        forall|j: u32|
            j < 32 && u32_trailing_zeros(w) <= j ==> #[trigger] bit(o, j) == bit(w, j),
        p < 32,
    ensures
        bit(spec_wb_written(w, o, start as int), p) ==> (start <= p && bit(w, (p - start) as u32)),
    decreases w,
{
    if w == 0 {
        lemma_zero_mask(0, p);
    } else {
        let t = u32_trailing_zeros(w);
        assert(bit(w, t) && t < 32);
        assert(start + t < 32);
        let s = (start + t) as u32;
        let w2 = w >> t;
        let o2 = o >> t;
        if o2 & 0xFFu32 == 0xFFu32 {
            let wn = w2 & 0xFFFFFF00u32;
            lemma_consume_window_shrinks(w);
            assert forall|i: u32| i < 32 && #[trigger] bit(wn, i) implies s + i < 32 by {
                lemma_bit_shift_clear8(w, t, i);
            }
            assert forall|q: u32| q < 8 implies !bit(wn, q) by {
                assert((q < 8) ==> ((((w2 & 0xFFFFFF00u32) >> q) & 1u32) == 0u32)) by (bit_vector);
            }
            assert(u32_trailing_zeros(wn) >= 8) by {
                if wn != 0 && u32_trailing_zeros(wn) < 8 {
                    assert(bit(wn, u32_trailing_zeros(wn)));
                }
            }
            assert forall|j: u32| j < 32 && u32_trailing_zeros(wn) <= j implies #[trigger] bit(
                o2,
                j,
            ) == bit(wn, j) by {
                lemma_bit_shift(o, t, j);
                lemma_bit_shift_clear8(w, t, j);
                if t + j < 32 {
                    assert(bit(o, (t + j) as u32) == bit(w, (t + j) as u32));
                }
            }
            lemma_wb_written_sub_work(wn, o2, s, p);
            lemma_bit_or(0xFFu32 << s, spec_wb_written(wn, o2, s as int), p);
            lemma_bit_or_window(0, s, p);
            lemma_zero_mask(0xFFu32 << s, p);
            if bit(spec_wb_written(w, o, start as int), p) {
                if s <= p < s + 8 {
                    let k = (p - s) as u32;
                    assert(((o2 & 0xFFu32) == 0xFFu32 && k < 8) ==> (((o2 >> k) & 1u32)
                        == 1u32)) by (bit_vector);
                    lemma_bit_shift(o, t, k);
                    assert(bit(o, (t + k) as u32) == bit(w, (t + k) as u32));
                } else {
                    lemma_bit_shift_clear8(w, t, (p - s) as u32);
                }
            }
        } else {
            let wn = w2 & 0xFFFFFFFEu32;
            lemma_consume_bit_shrinks(w);
            assert forall|i: u32| i < 32 && #[trigger] bit(wn, i) implies s + i < 32 by {
                lemma_bit_shift_clear1(w, t, i);
            }
            assert forall|q: u32| q < 1 implies !bit(wn, q) by {
                assert((q < 1) ==> ((((w2 & 0xFFFFFFFEu32) >> q) & 1u32) == 0u32)) by (bit_vector);
            }
            assert(u32_trailing_zeros(wn) >= 1) by {
                if wn != 0 && u32_trailing_zeros(wn) < 1 {
                    assert(bit(wn, u32_trailing_zeros(wn)));
                }
            }
            assert forall|j: u32| j < 32 && u32_trailing_zeros(wn) <= j implies #[trigger] bit(
                o2,
                j,
            ) == bit(wn, j) by {
                lemma_bit_shift(o, t, j);
                lemma_bit_shift_clear1(w, t, j);
                if t + j < 32 {
                    assert(bit(o, (t + j) as u32) == bit(w, (t + j) as u32));
                }
            }
            lemma_wb_written_sub_work(wn, o2, s, p);
            lemma_bit_or(1u32 << s, spec_wb_written(wn, o2, s as int), p);
            lemma_bit_set_clear(0, s, p);
            lemma_zero_mask(1u32 << s, p);
            if bit(spec_wb_written(w, o, start as int), p) {
                if p != s {
                    lemma_bit_shift_clear1(w, t, (p - s) as u32);
                }
            }
        }
    }
}

/// The mask of ports one bus transaction touches: a port-range write covers
/// the 8-port window above its start port, a single-port write covers its
/// port alone, and reads touch none.
pub open spec fn spec_op_ports(op: BusOp) -> u32 {
    match op {
        BusOp::Write { addr, value } => {
            if 0x44 <= addr <= 0x5F {
                0xFFu32 << ((addr - 0x40) as u32)
            } else if 0x24 <= addr <= 0x3F {
                1u32 << ((addr - 0x20) as u32)
            } else {
                0u32
            }
        },
        BusOp::Read { addr } => 0u32,
    }
}

/// The transactions of a write plan touch pairwise disjoint port sets, every
/// port they touch is in the written mask and at or above the lowest pending
/// port, and every written port is touched by some transaction.
proof fn lemma_wb_ops_ports(w: u32, ok: u32, cache: u32, start: u32)
    requires
        start <= 32,
        forall|i: u32| i < 32 && #[trigger] bit(w, i) ==> 4 <= start + i < 32,
    ensures
        forall|k: int, p: u32|
            0 <= k < spec_wb_ops(w, ok, cache, start as int).len() && p < 32 && #[trigger] bit(
                spec_op_ports(spec_wb_ops(w, ok, cache, start as int)[k]),
                p,
            ) ==> start + u32_trailing_zeros(w) <= p && bit(
                spec_wb_written(w, ok, start as int),
                p,
            ),
        forall|p: u32|
            p < 32 && #[trigger] bit(spec_wb_written(w, ok, start as int), p) ==> exists|k: int|
                0 <= k < spec_wb_ops(w, ok, cache, start as int).len() && bit(
                    #[trigger] spec_op_ports(spec_wb_ops(w, ok, cache, start as int)[k]),
                    p,
                ),
        forall|k1: int, k2: int, p: u32|
            0 <= k1 < k2 < spec_wb_ops(w, ok, cache, start as int).len() && p < 32 ==> !(#[trigger] bit(
                spec_op_ports(spec_wb_ops(w, ok, cache, start as int)[k1]),
                p,
            ) && #[trigger] bit(spec_op_ports(spec_wb_ops(w, ok, cache, start as int)[k2]), p)),
    decreases w,
{
    let ops = spec_wb_ops(w, ok, cache, start as int);
    let written = spec_wb_written(w, ok, start as int);
    if w == 0 {
        assert forall|p: u32| p < 32 implies !bit(written, p) by {
            lemma_zero_mask(0, p);
        }
    } else {
        let t = u32_trailing_zeros(w);
        assert(bit(w, t) && t < 32);
        assert(4 <= start + t < 32);
        let s = (start + t) as u32;
        let w2 = w >> t;
        let o2 = ok >> t;
        if o2 & 0xFFu32 == 0xFFu32 {
            let wn = w2 & 0xFFFFFF00u32;
            lemma_consume_window_shrinks(w);
            assert forall|i: u32| i < 32 && #[trigger] bit(wn, i) implies 4 <= s + i < 32 by {
                lemma_bit_shift_clear8(w, t, i);
            }
            assert forall|q: u32| q < 8 implies !bit(wn, q) by {
                assert((q < 8) ==> ((((w2 & 0xFFFFFF00u32) >> q) & 1u32) == 0u32)) by (bit_vector);
            }
            assert(u32_trailing_zeros(wn) >= 8) by {
                if wn != 0 && u32_trailing_zeros(wn) < 8 {
                    assert(bit(wn, u32_trailing_zeros(wn)));
                }
            }
            lemma_wb_ops_ports(wn, o2, cache, s);
            let rest = spec_wb_ops(wn, o2, cache, s as int);
            let rest_written = spec_wb_written(wn, o2, s as int);
            assert(ops.len() == 1 + rest.len());
            assert(spec_op_ports(ops[0]) == 0xFFu32 << s);
            assert forall|k: int| 1 <= k < ops.len() implies ops[k] == rest[k - 1] by {}
            assert forall|p: u32| p < 32 implies (bit(written, p) == ((s <= p < s + 8) || bit(
                rest_written,
                p,
            )) && bit(0xFFu32 << s, p) == (s <= p < s + 8)) by {
                lemma_bit_or(0xFFu32 << s, rest_written, p);
                lemma_bit_or_window(0, s, p);
                lemma_zero_mask(0xFFu32 << s, p);
            }
            assert forall|p: u32|
                p < 32 && #[trigger] bit(written, p) implies exists|k: int|
                    0 <= k < ops.len() && bit(#[trigger] spec_op_ports(ops[k]), p) by {
                if s <= p < s + 8 {
                    assert(bit(spec_op_ports(ops[0]), p));
                } else {
                    let k0 = choose|k: int|
                        0 <= k < rest.len() && bit(#[trigger] spec_op_ports(rest[k]), p);
                    assert(bit(spec_op_ports(ops[k0 + 1]), p));
                }
            }
            assert forall|k: int, p: u32|
                0 <= k < ops.len() && p < 32 && #[trigger] bit(
                    spec_op_ports(ops[k]),
                    p,
                ) implies start + u32_trailing_zeros(w) <= p && bit(written, p) by {
                if k >= 1 {
                    assert(bit(spec_op_ports(rest[k - 1]), p));
                    assert(s + u32_trailing_zeros(wn) <= p && bit(rest_written, p));
                } else {
                    lemma_bit_or_window(0, s, p);
                    lemma_zero_mask(0xFFu32 << s, p);
                    assert(s <= p < s + 8);
                }
            }
        } else {
            let wn = w2 & 0xFFFFFFFEu32;
            lemma_consume_bit_shrinks(w);
            assert forall|i: u32| i < 32 && #[trigger] bit(wn, i) implies 4 <= s + i < 32 by {
                lemma_bit_shift_clear1(w, t, i);
            }
            assert forall|q: u32| q < 1 implies !bit(wn, q) by {
                assert((q < 1) ==> ((((w2 & 0xFFFFFFFEu32) >> q) & 1u32) == 0u32)) by (bit_vector);
            }
            assert(u32_trailing_zeros(wn) >= 1) by {
                if wn != 0 && u32_trailing_zeros(wn) < 1 {
                    assert(bit(wn, u32_trailing_zeros(wn)));
                }
            }
            lemma_wb_ops_ports(wn, o2, cache, s);
            let rest = spec_wb_ops(wn, o2, cache, s as int);
            let rest_written = spec_wb_written(wn, o2, s as int);
            assert(ops.len() == 1 + rest.len());
            assert(spec_op_ports(ops[0]) == 1u32 << s);
            assert forall|k: int| 1 <= k < ops.len() implies ops[k] == rest[k - 1] by {}
            assert forall|p: u32| p < 32 implies (bit(written, p) == ((p == s) || bit(
                rest_written,
                p,
            )) && bit(1u32 << s, p) == (p == s)) by {
                lemma_bit_or(1u32 << s, rest_written, p);
                lemma_bit_set_clear(0, s, p);
                lemma_zero_mask(1u32 << s, p);
            }
            assert forall|p: u32|
                p < 32 && #[trigger] bit(written, p) implies exists|k: int|
                    0 <= k < ops.len() && bit(#[trigger] spec_op_ports(ops[k]), p) by {
                if p == s {
                    assert(bit(spec_op_ports(ops[0]), p));
                } else {
                    let k0 = choose|k: int|
                        0 <= k < rest.len() && bit(#[trigger] spec_op_ports(rest[k]), p);
                    assert(bit(spec_op_ports(ops[k0 + 1]), p));
                }
            }
            assert forall|k: int, p: u32|
                0 <= k < ops.len() && p < 32 && #[trigger] bit(
                    spec_op_ports(ops[k]),
                    p,
                ) implies start + u32_trailing_zeros(w) <= p && bit(written, p) by {
                if k >= 1 {
                    assert(bit(spec_op_ports(rest[k - 1]), p));
                    assert(s + u32_trailing_zeros(wn) <= p && bit(rest_written, p));
                } else {
                    lemma_bit_set_clear(0, s, p);
                    lemma_zero_mask(1u32 << s, p);
                    assert(p == s);
                }
            }
        }
    }
}

/// Write-back under the Exact strategy writes every pending port exactly
/// once and touches no other port: the port set of each issued transaction
/// lies within the pending mask, the sets are pairwise disjoint, and every
/// pending port is covered by one of them. `write_back`'s contract adds that
/// each written port ends up carrying its cached bit.
pub proof fn lemma_write_back_exact_transactions(dirty: u32, cache: u32)
    requires
        dirty & 0x0Fu32 == 0,
    ensures
        forall|k: int, p: u32|
            0 <= k < spec_wb_ops(dirty, dirty, cache, 0).len() && p < 32 && #[trigger] bit(
                spec_op_ports(spec_wb_ops(dirty, dirty, cache, 0)[k]),
                p,
            ) ==> bit(dirty, p),
        forall|p: u32|
            p < 32 && #[trigger] bit(dirty, p) ==> exists|k: int|
                0 <= k < spec_wb_ops(dirty, dirty, cache, 0).len() && bit(
                    #[trigger] spec_op_ports(spec_wb_ops(dirty, dirty, cache, 0)[k]),
                    p,
                ),
        forall|k1: int, k2: int, p: u32|
            0 <= k1 < k2 < spec_wb_ops(dirty, dirty, cache, 0).len() && p < 32 ==> !(#[trigger] bit(
                spec_op_ports(spec_wb_ops(dirty, dirty, cache, 0)[k1]),
                p,
            ) && #[trigger] bit(spec_op_ports(spec_wb_ops(dirty, dirty, cache, 0)[k2]), p)),
{
    assert forall|i: u32| i < 32 && #[trigger] bit(dirty, i) implies 4 <= 0 + i < 32 by {
        assert((dirty & 0x0Fu32 == 0 && i < 32 && ((dirty >> i) & 1u32) == 1u32) ==> 4
            <= i) by (bit_vector);
    }
    lemma_wb_ops_ports(dirty, dirty, cache, 0);
    lemma_write_back_exact(dirty);
    let ops = spec_wb_ops(dirty, dirty, cache, 0);
    assert forall|p: u32| p < 32 && #[trigger] bit(dirty, p) implies exists|k: int|
        0 <= k < ops.len() && bit(#[trigger] spec_op_ports(ops[k]), p) by {
        assert(bit(spec_wb_written(dirty, dirty, 0), p));
    }
}

/// Write-back under the Exact strategy writes precisely the pending ports:
/// a port is in the write plan — in a batch or singly — exactly when its pin
/// was written since the last flush. Together with `write_back`'s contract
/// this says every pending port ends up carrying its cached bit and no other
/// port is touched.
pub proof fn lemma_write_back_exact(dirty: u32)
    ensures
        forall|p: u32|
            p < 32 ==> (#[trigger] bit(spec_wb_written(dirty, dirty, 0), p) == bit(dirty, p)),
{
    assert forall|p: u32| p < 32 implies (#[trigger] bit(spec_wb_written(dirty, dirty, 0), p)
        == bit(dirty, p)) by {
        lemma_wb_written_sub_work(dirty, dirty, 0, p);
        if bit(dirty, p) {
            lemma_wb_written_covers(dirty, dirty, 0, p);
        }
    }
}

/// Write-back under the StompClean strategy never blind-writes: given the
/// adapter's invariant that every pending port is fresh, every port in the
/// write plan — batch windows included — is one the cache holds a value for
/// from the last refresh or from a pin write.
pub proof fn lemma_write_back_stomp_clean(dirty: u32, fresh: u32)
    requires
        dirty & !fresh == 0u32,
    ensures
        forall|p: u32|
            p < 32 && #[trigger] bit(spec_wb_written(dirty, fresh, 0), p) ==> bit(fresh, p),
{
    assert forall|p: u32| p < 32 && #[trigger] bit(spec_wb_written(dirty, fresh, 0), p) implies bit(
        fresh,
        p,
    ) by {
        lemma_wb_written_within_ok(dirty, fresh, 0, p);
    }
}

/// Whatever the permission mask — so under every strategy — the write plan
/// covers every pending port.
pub proof fn lemma_write_back_covers_dirty(dirty: u32, ok: u32)
    ensures
        forall|p: u32|
            p < 32 && #[trigger] bit(dirty, p) ==> bit(spec_wb_written(dirty, ok, 0), p),
{
    assert forall|p: u32| p < 32 && #[trigger] bit(dirty, p) implies bit(
        spec_wb_written(dirty, ok, 0),
        p,
    ) by {
        lemma_wb_written_covers(dirty, ok, 0, p);
    }
}

/// Control how `TransactionalIO::write_back` will batch writes to modified
/// pins.
pub enum Strategy {
    /// Issue writes such that only the ports whose output values were
    /// explicitly set are altered. The safest but least efficient strategy.
    Exact,
    /// Relax the batching so that any port whose state was read and cached by
    /// the most recent `refresh` may be overwritten, re-asserting the value
    /// it already had.
    StompClean,
    /// Relax the batching further so that any valid port may be overwritten,
    /// even one never refreshed, whose cached value is then undefined unless
    /// it was written.
    StompAny,
}

/// This I/O adapter captures the `Expander` and provides a factory for
/// generating GPIO pins backed by a transactional write-back cache.
///
/// Pin writes land in the cache and are flushed in batches by `write_back`;
/// pin reads are served from the cache, which `refresh` fills with batch
/// reads. Batching exploits the MAX7301's registers that read or write 8
/// consecutive ports in one bus transaction.
pub struct TransactionalIO<EI: ExpanderInterface> {
    /// The captured expander; only `refresh` and `write_back` touch it.
    pub expander: Expander<EI>,
    /// Bit `p` is set iff a `PortPin` for port `p` was handed out.
    pub issued: u32,
    /// Bit `p` is the cached value of port `p`, meaningful where `fresh`.
    pub cache: u32,
    /// Bit `p` is set iff port `p` was written since the last flush.
    pub dirty: u32,
    /// Bit `p` is set iff the cache holds a value for port `p`, from a
    /// refresh read or from a pin write.
    pub fresh: u32,
}

impl<EI: ExpanderInterface> TransactionalIO<EI> {
    /// The adapter's masks speak only of ports 4 through 31, and every
    /// pending write is backed by a cached value.
    pub open spec fn wf(&self) -> bool {
        &&& self.issued & 0x0Fu32 == 0
        &&& self.dirty & 0x0Fu32 == 0
        &&& self.fresh & 0x0Fu32 == 0
        &&& self.dirty & !self.fresh == 0u32
    }

    pub(crate) fn new(expander: Expander<EI>) -> (r: Self)
        ensures
            r.expander == expander,
            r.issued == 0u32,
            r.cache == 0u32,
            r.dirty == 0u32,
            r.fresh == 0u32,
            r.wf(),
    {
        let r = TransactionalIO { expander, issued: 0, cache: 0, dirty: 0, fresh: 0 };
        proof {
            assert(0u32 & 0x0Fu32 == 0 && 0u32 & !0u32 == 0) by (bit_vector);
        }
        r
    }

    /// Create a `PortPin` corresponding to one of the ports on the MAX7301.
    /// The pin's operations read and write the local cache; `refresh` and
    /// `write_back` move the cache to and from the hardware. Issuing the same
    /// port twice is permitted and changes nothing further.
    pub fn port_pin(&mut self, port: u8) -> (r: PortPin)
        requires
            4 <= port <= 31,
        ensures
            final(self).issued == old(self).issued | (1u32 << (port as u32)),
            final(self).cache == old(self).cache,
            final(self).dirty == old(self).dirty,
            final(self).fresh == old(self).fresh,
            final(self).expander == old(self).expander,
            old(self).wf() ==> final(self).wf(),
            r.port == port,
    {
        let p: u32 = valid_port(port) as u32;
        self.issued = self.issued | (1u32 << p);
        proof {
            let m = old(self).issued;
            assert((4 <= p < 32 && m & 0x0Fu32 == 0) ==> (m | (1u32 << p)) & 0x0Fu32 == 0)
                by (bit_vector);
        }
        PortPin::new(port)
    }

    /// Refresh the local cache by reading the port values of every
    /// outstanding `PortPin` issued from this adapter, grouped into as few
    /// 8-port batch reads as the issued set allows; a batch lands on the
    /// lowest uncovered issued port and incidentally covers the seven ports
    /// above it, which is harmless because port reads have no side effect.
    /// All pending pin writes are discarded. On a bus error the call returns
    /// at once and the cache keeps its previous content.
    #[verifier::loop_isolation(false)]
    pub fn refresh(&mut self) -> (r: Result<(), EI::Error>)
        requires
            old(self).wf(),
        ensures
            final(self).wf(),
            final(self).issued == old(self).issued,
            final(self).dirty == 0u32,
            final(self).expander.config == old(self).expander.config,
            r is Ok ==> final(self).expander.iface.state() == old(self).expander.iface.state(),
            r is Ok ==> final(self).expander.iface.ops() == old(self).expander.iface.ops()
                + spec_refresh_reads(old(self).issued),
            r is Ok ==> forall|p: u32|
                p < 32 && bit(old(self).issued, p) ==> bit(final(self).fresh, p),
            r is Ok ==> forall|p: u32|
                p < 32 && bit(final(self).fresh, p) ==> bit(final(self).cache, p) == bit(
                    old(self).expander.iface.state().pins,
                    p,
                ),
            r is Ok ==> forall|p: u32| p < 32 && !bit(final(self).fresh, p) ==> !bit(
                final(self).cache,
                p,
            ),
            r is Ok ==> final(self).fresh == spec_refresh_fresh(old(self).issued >> 4u32, 4),
            old(self).issued == 0u32 ==> r is Ok && final(self).fresh == 0u32 && final(self).cache
                == 0u32,
            r is Err ==> final(self).fresh == old(self).fresh && final(self).cache == old(
                self,
            ).cache,
    {
        self.dirty = 0;
        let ghost st0 = self.expander.iface.state();
        let ghost ops0 = self.expander.iface.ops();
        let ghost issued0 = self.issued;
        let mut load_buffer: u32 = 0;
        let mut fresh_buffer: u32 = 0;
        let mut start_port: u32 = 4;
        let mut ports_to_read: u32 = self.issued >> 4u32;
        proof {
            lemma_zero_mask(self.fresh, 0);
            assert forall|p: u32| p < 32 && bit(issued0, p) implies 4 <= p && bit(
                ports_to_read,
                (p - 4) as u32,
            ) by {
                let i = (p - 4) as u32;
                assert((issued0 & 0x0Fu32 == 0 && p < 32 && ((issued0 >> p) & 1u32) == 1u32) ==> (4
                    <= p)) by (bit_vector);
                lemma_bit_shift(issued0, 4, i);
            }
            assert forall|i: u32| i < 32 && bit(ports_to_read, i) implies 4 + i < 32 by {
                lemma_bit_shift(issued0, 4, i);
            }
            assert forall|p: u32| p < 32 implies !bit(fresh_buffer, p) && !bit(load_buffer, p) by {
                lemma_zero_mask(0, p);
            }
            lemma_zero_mask(spec_refresh_fresh(ports_to_read, 4), 0);
            assert((0u32 >> 4u32) == 0u32) by (bit_vector);
        }
        while ports_to_read != 0
            invariant
                self.issued == issued0,
                self.dirty == 0u32,
                self.fresh == old(self).fresh,
                self.cache == old(self).cache,
                old(self).wf(),
                self.expander.iface.state() == st0,
                self.expander.config == old(self).expander.config,
                4 <= start_port <= 32,
                self.expander.iface.ops() + spec_reads_of(ports_to_read, start_port as int) == ops0
                    + spec_reads_of(issued0 >> 4u32, 4),
                forall|p: u32|
                    p < 32 && bit(fresh_buffer, p) ==> bit(load_buffer, p) == bit(st0.pins, p),
                forall|p: u32| p < 32 && !bit(fresh_buffer, p) ==> !bit(load_buffer, p),
                fresh_buffer & 0x0Fu32 == 0,
                forall|p: u32|
                    p < 32 && bit(issued0, p) ==> bit(fresh_buffer, p) || (start_port <= p && bit(
                        ports_to_read,
                        (p - start_port) as u32,
                    )),
                forall|i: u32| i < 32 && bit(ports_to_read, i) ==> start_port + i < 32,
                fresh_buffer | spec_refresh_fresh(ports_to_read, start_port as int)
                    == spec_refresh_fresh(issued0 >> 4u32, 4),
                issued0 == 0u32 ==> ports_to_read == 0u32 && fresh_buffer == 0u32 && load_buffer
                    == 0u32,
            decreases ports_to_read,
        {
            let ghost work_pre = ports_to_read;
            let ghost start_pre = start_port;
            let ghost fb_pre = fresh_buffer;
            let ghost lb_pre = load_buffer;
            let skip: u32 = ports_to_read.trailing_zeros();
            proof {
                assert(bit(work_pre, skip) && skip < 32);
                assert(start_port + skip < 32);
            }
            ports_to_read = ports_to_read >> skip;
            start_port = start_port + skip;
            let port_values = match self.expander.read_ports(start_port as u8) {
                Ok(v) => v,
                Err(e) => {
                    proof {
                        lemma_zero_mask(self.fresh, 0);
                    }
                    return Err(e);
                },
            };
            load_buffer = load_buffer | ((port_values as u32) << start_port);
            fresh_buffer = fresh_buffer | (0xFFu32 << start_port);
            ports_to_read = ports_to_read & !0xFFu32;
            proof {
                let s = start_port;
                let v32 = port_values as u32;
                let pins = st0.pins;
                assert(v32 == (pins >> s) & 0xFFu32) by {
                    assert(port_values == ((pins >> s) & 0xFFu32) as u8);
                    assert((((pins >> s) & 0xFFu32) as u8) as u32 == (pins >> s)
                        & 0xFFu32) by (bit_vector);
                };
                lemma_window_keeps_low_clear(fb_pre, s);
                assert forall|p: u32| p < 32 implies (bit(fresh_buffer, p) == (bit(fb_pre, p) || (s
                    <= p < s + 8))) && (bit(load_buffer, p) == (bit(lb_pre, p) || (s <= p < s + 8
                    && bit(st0.pins, p)))) by {
                    lemma_bit_or_window(fb_pre, s, p);
                    lemma_bit_or_load(lb_pre, st0.pins, s, p);
                }
                // The consumed mask: bits of the new work mask are the old
                // work bits eight or more places above the skip point.
                assert(ports_to_read == (work_pre >> skip) & 0xFFFFFF00u32) by {
                    assert((work_pre >> skip) & !0xFFu32 == (work_pre >> skip)
                        & 0xFFFFFF00u32) by (bit_vector);
                };
                assert forall|j: u32| j < 32 implies bit(ports_to_read, j) == (8 <= j && skip + j
                    < 32 && bit(work_pre, (skip + j) as u32)) by {
                    lemma_bit_shift_clear8(work_pre, skip, j);
                }
                // Coverage is preserved: an issued port is either already in
                // a window or still pending in the shrunk mask.
                assert forall|p: u32| p < 32 && bit(issued0, p) implies bit(fresh_buffer, p) || (
                start_port <= p && bit(ports_to_read, (p - start_port) as u32)) by {
                    if !bit(fb_pre, p) {
                        let i = (p - start_pre) as u32;
                        assert(start_pre <= p && bit(work_pre, i));
                        if i < skip {
                            assert(!bit(work_pre, i));
                        } else if i < skip + 8 {
                            assert(s <= p < s + 8);
                        } else {
                            let j = (i - skip) as u32;
                            assert(bit(ports_to_read, j) == (8 <= j && skip + j < 32 && bit(
                                work_pre,
                                (skip + j) as u32,
                            )));
                            assert(bit(ports_to_read, (p - start_port) as u32));
                        }
                    }
                }
                // The freshness mask keeps pace with its window OR.
                assert(spec_refresh_fresh(work_pre, start_pre as int) == (0xFFu32 << s)
                    | spec_refresh_fresh(ports_to_read, start_port as int));
                lemma_or_assoc(
                    fb_pre,
                    0xFFu32 << s,
                    spec_refresh_fresh(ports_to_read, start_port as int),
                );
                // The trace keeps pace with the read plan.
                assert(spec_reads_of(work_pre, start_pre as int) =~= seq![
                    BusOp::Read { addr: (0x40 + s) as u8 },
                ] + spec_reads_of(ports_to_read, s as int));
                assert(self.expander.iface.ops() + spec_reads_of(ports_to_read, start_port as int)
                    =~= ops0 + spec_reads_of(issued0 >> 4u32, 4));
                assert(ports_to_read < work_pre) by {
                    lemma_consume_window_shrinks(work_pre);
                };
            }
        }
        self.cache = load_buffer;
        self.fresh = fresh_buffer;
        proof {
            lemma_zero_mask(fresh_buffer, 0);
            assert forall|p: u32| p < 32 && bit(issued0, p) implies bit(fresh_buffer, p) by {
                lemma_zero_mask(0, (p - start_port) as u32);
            }
            assert(spec_reads_of(0u32, start_port as int) =~= Seq::<BusOp>::empty());
            assert(self.expander.iface.ops() =~= ops0 + spec_refresh_reads(issued0));
            assert(spec_refresh_fresh(0u32, start_port as int) == 0u32);
            lemma_zero_mask(fresh_buffer, 0);
        }
        Ok(())
    }

    /// Write back any pending pin writes to the MAX7301, in ascending port
    /// order, using the fewest transactions `strategy` allows: whenever the
    /// strategy permits touching the whole 8-port window above the lowest
    /// pending port, one batch write flushes it, otherwise that port alone is
    /// written. On a bus error the call returns at once with the pending set
    /// untouched; ports already flushed stay flushed.
    #[verifier::loop_isolation(false)]
    pub fn write_back(&mut self, strategy: Strategy) -> (r: Result<(), EI::Error>)
        requires
            old(self).wf(),
        ensures
            final(self).wf(),
            final(self).issued == old(self).issued,
            final(self).cache == old(self).cache,
            final(self).fresh == old(self).fresh,
            final(self).expander.config == old(self).expander.config,
            r is Ok ==> final(self).dirty == 0u32,
            r is Err ==> final(self).dirty == old(self).dirty,
            old(self).dirty == 0u32 ==> r is Ok,
            r is Ok ==> final(self).expander.iface.state().regs == old(
                self,
            ).expander.iface.state().regs,
            r is Ok ==> final(self).expander.iface.ops() == old(self).expander.iface.ops()
                + spec_wb_ops(
                old(self).dirty,
                spec_ok_mask(strategy, old(self).dirty, old(self).fresh),
                old(self).cache,
                0,
            ),
            r is Ok ==> forall|p: u32|
                p < 32 && bit(
                    spec_wb_written(
                        old(self).dirty,
                        spec_ok_mask(strategy, old(self).dirty, old(self).fresh),
                        0,
                    ),
                    p,
                ) ==> bit(final(self).expander.iface.state().pins, p) == bit(old(self).cache, p),
            r is Ok ==> forall|p: u32|
                p < 32 && !bit(
                    spec_wb_written(
                        old(self).dirty,
                        spec_ok_mask(strategy, old(self).dirty, old(self).fresh),
                        0,
                    ),
                    p,
                ) ==> bit(final(self).expander.iface.state().pins, p) == bit(
                    old(self).expander.iface.state().pins,
                    p,
                ),
    {
        let ghost st0 = self.expander.iface.state();
        let ghost ops0 = self.expander.iface.ops();
        let ghost dirty0 = self.dirty;
        let ghost fresh0 = self.fresh;
        let mut start_port: u32 = 0;
        let mut ports_to_write: u32 = self.dirty;
        let mut ok_to_write: u32 = match strategy {
            Strategy::Exact => ports_to_write,
            Strategy::StompClean => self.fresh,
            Strategy::StompAny => 0xFFFFFFFC,
        };
        let cache = self.cache;
        let ghost ok0 = ok_to_write;
        let ghost big_w = spec_wb_written(dirty0, ok0, 0);
        let ghost mut done: u32 = 0;
        proof {
            assert forall|p: u32| p < 32 implies !bit(done, p) by {
                lemma_zero_mask(0, p);
            }
            assert forall|i: u32| i < 32 && bit(ports_to_write, i) implies 4 <= start_port + i
                < 32 by {
                assert((dirty0 & 0x0Fu32 == 0 && i < 32 && ((dirty0 >> i) & 1u32) == 1u32) ==> 4
                    <= i) by (bit_vector);
            }
        }
        while ports_to_write != 0
            invariant
                self.issued == old(self).issued,
                self.dirty == dirty0,
                self.fresh == fresh0,
                self.cache == old(self).cache,
                self.expander.config == old(self).expander.config,
                self.expander.iface.state().regs == st0.regs,
                self.expander.iface.ops() + spec_wb_ops(
                    ports_to_write,
                    ok_to_write,
                    cache,
                    start_port as int,
                ) == ops0 + spec_wb_ops(dirty0, ok0, cache, 0),
                forall|p: u32|
                    p < 32 ==> (bit(big_w, p) == (bit(done, p) || bit(
                        spec_wb_written(ports_to_write, ok_to_write, start_port as int),
                        p,
                    ))),
                forall|p: u32|
                    p < 32 && bit(done, p) ==> bit(self.expander.iface.state().pins, p) == bit(
                        cache,
                        p,
                    ),
                forall|p: u32|
                    p < 32 && !bit(done, p) ==> bit(self.expander.iface.state().pins, p) == bit(
                        st0.pins,
                        p,
                    ),
                forall|i: u32| i < 32 && bit(ports_to_write, i) ==> 4 <= start_port + i < 32,
                start_port <= 32,
                dirty0 == 0u32 ==> ports_to_write == 0u32,
            decreases ports_to_write,
        {
            let ghost work_pre = ports_to_write;
            let ghost ok_pre = ok_to_write;
            let ghost start_pre = start_port;
            let ghost done_pre = done;
            let ghost pins_pre = self.expander.iface.state().pins;
            let skip: u32 = ports_to_write.trailing_zeros();
            proof {
                assert(bit(work_pre, skip) && skip < 32);
                assert(4 <= start_port + skip < 32);
            }
            ports_to_write = ports_to_write >> skip;
            ok_to_write = ok_to_write >> skip;
            start_port = start_port + skip;
            if ok_to_write & 0xFF == 0xFF {
                let port_values: u8 = ((cache >> start_port) & 0xFF) as u8;
                match self.expander.write_ports(start_port as u8, port_values) {
                    Ok(()) => {},
                    Err(e) => return Err(e),
                }
                ports_to_write = ports_to_write & !0xFFu32;
                proof {
                    let s = start_port;
                    done = done_pre | (0xFFu32 << s);
                    assert(!0xFFu32 == 0xFFFFFF00u32) by (bit_vector);
                    let v32 = port_values as u32;
                    assert(v32 == (cache >> s) & 0xFFu32) by {
                        assert((((cache >> s) & 0xFFu32) as u8) as u32 == (cache >> s)
                            & 0xFFu32) by (bit_vector);
                    };
                    assert forall|p: u32| p < 32 implies (bit(done, p) == (bit(done_pre, p) || (s
                        <= p < s + 8))) && (bit(
                        self.expander.iface.state().pins,
                        p,
                    ) == (if s <= p < s + 8 {
                        bit(cache, p)
                    } else {
                        bit(pins_pre, p)
                    })) by {
                        lemma_bit_or_window(done_pre, s, p);
                        lemma_batch_write_pins(pins_pre, cache, v32, s, p);
                    }
                    assert forall|p: u32| p < 32 implies bit(
                        spec_wb_written(work_pre, ok_pre, start_pre as int),
                        p,
                    ) == ((s <= p < s + 8) || bit(
                        spec_wb_written(ports_to_write, ok_to_write, s as int),
                        p,
                    )) by {
                        lemma_bit_or(
                            0xFFu32 << s,
                            spec_wb_written(ports_to_write, ok_to_write, s as int),
                            p,
                        );
                        lemma_bit_or_window(0, s, p);
                        lemma_zero_mask(0xFFu32 << s, p);
                    }
                    assert forall|j: u32| j < 32 implies bit(ports_to_write, j) == (8 <= j && skip
                        + j < 32 && bit(work_pre, (skip + j) as u32)) by {
                        lemma_bit_shift_clear8(work_pre, skip, j);
                    }
                    assert(self.expander.iface.ops() + spec_wb_ops(
                        ports_to_write,
                        ok_to_write,
                        cache,
                        start_port as int,
                    ) =~= ops0 + spec_wb_ops(dirty0, ok0, cache, 0));
                    assert(ports_to_write < work_pre) by {
                        lemma_consume_window_shrinks(work_pre);
                    };
                }
            } else {
                let port_value = cache & (1u32 << start_port) != 0;
                match self.expander.write_port(start_port as u8, port_value) {
                    Ok(()) => {},
                    Err(e) => return Err(e),
                }
                ports_to_write = ports_to_write & !0x01u32;
                proof {
                    let s = start_port;
                    done = done_pre | (1u32 << s);
                    assert(!0x01u32 == 0xFFFFFFFEu32) by (bit_vector);
                    lemma_bit_test(cache, s);
                    crate::interface::lemma_single_port_write_bits();
                    assert forall|p: u32| p < 32 implies (bit(done, p) == (bit(done_pre, p) || p
                        == s)) && (bit(self.expander.iface.state().pins, p) == (if p == s {
                        bit(cache, p)
                    } else {
                        bit(pins_pre, p)
                    })) by {
                        lemma_bit_set_clear(done_pre, s, p);
                        lemma_bit_set_clear(pins_pre, s, p);
                    }
                    assert forall|p: u32| p < 32 implies bit(
                        spec_wb_written(work_pre, ok_pre, start_pre as int),
                        p,
                    ) == ((p == s) || bit(
                        spec_wb_written(ports_to_write, ok_to_write, s as int),
                        p,
                    )) by {
                        lemma_bit_or(
                            1u32 << s,
                            spec_wb_written(ports_to_write, ok_to_write, s as int),
                            p,
                        );
                        lemma_bit_set_clear(0, s, p);
                        lemma_zero_mask(1u32 << s, p);
                    }
                    assert forall|j: u32| j < 32 implies bit(ports_to_write, j) == (1 <= j && skip
                        + j < 32 && bit(work_pre, (skip + j) as u32)) by {
                        lemma_bit_shift_clear1(work_pre, skip, j);
                    }
                    assert(self.expander.iface.ops() + spec_wb_ops(
                        ports_to_write,
                        ok_to_write,
                        cache,
                        start_port as int,
                    ) =~= ops0 + spec_wb_ops(dirty0, ok0, cache, 0));
                    assert(ports_to_write < work_pre) by {
                        lemma_consume_bit_shrinks(work_pre);
                    };
                }
            }
        }
        self.dirty = 0;
        proof {
            lemma_zero_mask(fresh0, 0);
            assert forall|p: u32| p < 32 implies !bit(
                spec_wb_written(0u32, ok_to_write, start_port as int),
                p,
            ) by {
                lemma_zero_mask(0, p);
            }
            assert(self.expander.iface.ops() =~= ops0 + spec_wb_ops(dirty0, ok0, cache, 0));
        }
        Ok(())
    }
}

impl<EI: ExpanderInterface> ExpanderIO for TransactionalIO<EI> {
    type Error = EI::Error;

    /// The adapter reports the cached pin values.
    open spec fn pin_view(&self) -> u32 {
        self.cache
    }

    /// Only a port the cache holds a value for may be read; reading any
    /// other port is a mis-sequencing error, ruled out up front.
    open spec fn can_read(&self, port: u8) -> bool {
        bit(self.fresh, port as u32)
    }

    /// A pin write never reaches the bus: it lands in the cache and marks
    /// the port dirty and fresh. It cannot fail.
    open spec fn write_effect(&self, pre: Self, port: u8, bit: bool, ok: bool) -> bool {
        &&& ok == true
        &&& self.expander == pre.expander
        &&& self.issued == pre.issued
        &&& self.dirty == pre.dirty | (1u32 << (port as u32))
        &&& self.fresh == pre.fresh | (1u32 << (port as u32))
        &&& pre.wf() ==> self.wf()
    }

    /// A pin read never reaches the bus and leaves the adapter as it was. It
    /// cannot fail.
    open spec fn read_effect(&self, pre: Self, port: u8, ok: bool) -> bool {
        &&& ok == true
        &&& *self == pre
    }

    fn write_port(&mut self, port: u8, bit: bool) -> (r: Result<(), EI::Error>) {
        let or_bit: u32 = 1u32 << (port as u32);
        if bit {
            self.cache = self.cache | or_bit;
        } else {
            self.cache = self.cache & !or_bit;
        }
        self.dirty = self.dirty | or_bit;
        self.fresh = self.fresh | or_bit;
        proof {
            let d = old(self).dirty;
            let f = old(self).fresh;
            let i = old(self).issued;
            let m = or_bit;
            assert(((d & 0x0Fu32 == 0 && 4 <= port < 32) ==> (d | (1u32 << (port as u32)))
                & 0x0Fu32 == 0) && ((f & 0x0Fu32 == 0 && 4 <= port < 32) ==> (f | (1u32 << (
            port as u32))) & 0x0Fu32 == 0) && ((d & !f == 0u32) ==> (d | (1u32 << (port as u32)))
                & !(f | (1u32 << (port as u32))) == 0u32)) by (bit_vector);
        }
        Ok(())
    }

    fn read_port(&mut self, port: u8) -> (r: Result<bool, EI::Error>) {
        Ok((self.cache >> (port as u32)) & 1 == 1)
    }
}

/// Reading a port whose fresh bit is clear — one neither covered by a
/// refresh nor written since — is the mis-sequencing error the driver
/// treats as fatal: `can_read` refuses it, so verified code cannot perform
/// such a read. A freshly built adapter, whose fresh mask is zero, therefore
/// permits no read at all.
pub proof fn lemma_unrefreshed_read_forbidden<EI: ExpanderInterface>(
    io: &TransactionalIO<EI>,
    port: u8,
)
    requires
        !bit(io.fresh, port as u32),
    ensures
        !io.can_read(port),
{
}

} // verus!
