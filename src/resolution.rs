//! What label resolution leaves at each reference: the label's address if it
//! is declared, the placeholder if not; and that a resolved label operand
//! assembles exactly as the label's address written as a number.

use vstd::arithmetic::div_mod::lemma_mod_breakdown;
use vstd::arithmetic::div_mod::lemma_mod_mod;
use vstd::prelude::*;

use crate::codegen::{
    addr_hi, addr_lo, assembled, assembly_logs, layout_logs, unresolved_message, encode, lay_items, lay_line, layout, resolve, Layout, Patch,
    PLACEHOLDER_HI, PLACEHOLDER_LO,
};
use crate::instruction::Instruction;
use crate::parser::{DataByteView, DirectiveView, LineDataView, LineView, LogView, ParametersView};

verus! {

/// The byte at `q` once the patches `ps` are applied, a later patch winning.
pub open spec fn resolved_byte(bytes: Seq<u8>, symbols: Map<Seq<char>, nat>, ps: Seq<Patch>, q: int) -> u8
    decreases ps.len(),
{
    if ps.len() == 0 {
        bytes[q]
    } else {
        let p = ps.last();
        if symbols.contains_key(p.name) && q == p.at {
            addr_lo(symbols[p.name])
        } else if symbols.contains_key(p.name) && q == p.at + 1 {
            addr_hi(symbols[p.name])
        } else {
            resolved_byte(bytes, symbols, ps.drop_last(), q)
        }
    }
}

/// Every patch lies inside the first `len` bytes.
pub open spec fn in_bounds(ps: Seq<Patch>, len: nat) -> bool {
    forall|i: int| 0 <= i < ps.len() ==> #[trigger] ps[i].at + 2 <= len
}

/// The patches lie one after the other, without overlapping.
pub open spec fn sorted(ps: Seq<Patch>) -> bool {
    forall|i: int, j: int| 0 <= i < j < ps.len() ==> #[trigger] ps[i].at + 2 <= #[trigger] ps[j].at
}

pub open spec fn well_placed(st: Layout) -> bool {
    sorted(st.patches) && in_bounds(st.patches, st.bytes.len())
}

proof fn lemma_resolve_at(bytes: Seq<u8>, symbols: Map<Seq<char>, nat>, ps: Seq<Patch>, q: int)
    requires
        in_bounds(ps, bytes.len()),
        0 <= q < bytes.len(),
    ensures
        resolve(bytes, symbols, ps).0.len() == bytes.len(),
        resolve(bytes, symbols, ps).0[q] == resolved_byte(bytes, symbols, ps, q),
    decreases ps.len(),
{
    if ps.len() > 0 {
        assert(in_bounds(ps.drop_last(), bytes.len())) by {
            assert forall|i: int| 0 <= i < ps.drop_last().len() implies #[trigger] ps.drop_last()[i].at + 2
                <= bytes.len() by {
                assert(ps.drop_last()[i] == ps[i]);
            }
        }
        assert(ps.last() == ps[ps.len() - 1]);
        lemma_resolve_at(bytes, symbols, ps.drop_last(), q);
    }
}

proof fn lemma_resolve_len(bytes: Seq<u8>, symbols: Map<Seq<char>, nat>, ps: Seq<Patch>)
    requires
        in_bounds(ps, bytes.len()),
    ensures
        resolve(bytes, symbols, ps).0.len() == bytes.len(),
    decreases ps.len(),
{
    if ps.len() > 0 {
        assert(in_bounds(ps.drop_last(), bytes.len())) by {
            assert forall|i: int| 0 <= i < ps.drop_last().len() implies #[trigger] ps.drop_last()[i].at + 2
                <= bytes.len() by {
                assert(ps.drop_last()[i] == ps[i]);
            }
        }
        lemma_resolve_len(bytes, symbols, ps.drop_last());
    }
}

/// Patches that do not touch `q` do not change it.
proof fn lemma_suffix_uncovered(
    bytes: Seq<u8>,
    symbols: Map<Seq<char>, nat>,
    z: Seq<Patch>,
    y: Seq<Patch>,
    q: int,
)
    requires
        forall|i: int| 0 <= i < y.len() ==> #[trigger] y[i].at != q && y[i].at + 1 != q,
    ensures
        resolved_byte(bytes, symbols, z + y, q) == resolved_byte(bytes, symbols, z, q),
    decreases y.len(),
{
    if y.len() == 0 {
        assert(z + y =~= z);
    } else {
        assert((z + y).drop_last() =~= z + y.drop_last());
        assert((z + y).last() == y[y.len() - 1]);
        assert forall|i: int| 0 <= i < y.drop_last().len() implies #[trigger] y.drop_last()[i].at != q
            && y.drop_last()[i].at + 1 != q by {
            assert(y.drop_last()[i] == y[i]);
        }
        lemma_suffix_uncovered(bytes, symbols, z, y.drop_last(), q);
    }
}

/// A patch that does not touch `q` can be left out.
proof fn lemma_skip_patch(
    bytes: Seq<u8>,
    symbols: Map<Seq<char>, nat>,
    x: Seq<Patch>,
    p: Patch,
    y: Seq<Patch>,
    q: int,
)
    requires
        q != p.at,
        q != p.at + 1,
    ensures
        resolved_byte(bytes, symbols, x.push(p) + y, q) == resolved_byte(bytes, symbols, x + y, q),
    decreases y.len(),
{
    if y.len() == 0 {
        assert(x.push(p) + y =~= x.push(p));
        assert(x + y =~= x);
        assert(x.push(p).drop_last() =~= x);
    } else {
        assert((x.push(p) + y).drop_last() =~= x.push(p) + y.drop_last());
        assert((x + y).drop_last() =~= x + y.drop_last());
        assert((x.push(p) + y).last() == y.last());
        assert((x + y).last() == y.last());
        lemma_skip_patch(bytes, symbols, x, p, y.drop_last(), q);
    }
}

proof fn lemma_bytes_agree(b1: Seq<u8>, b2: Seq<u8>, symbols: Map<Seq<char>, nat>, ps: Seq<Patch>, q: int)
    requires
        b1[q] == b2[q],
    ensures
        resolved_byte(b1, symbols, ps, q) == resolved_byte(b2, symbols, ps, q),
    decreases ps.len(),
{
    if ps.len() > 0 {
        lemma_bytes_agree(b1, b2, symbols, ps.drop_last(), q);
    }
}

proof fn lemma_items_placed(st: Layout, items: Seq<DataByteView>, line: nat, origin: Seq<char>)
    requires
        well_placed(st),
    ensures
        well_placed(lay_items(st, items, line, origin)),
        lay_items(st, items, line, origin).bytes.len() >= st.bytes.len(),
    decreases items.len(),
{
    if items.len() > 0 {
        lemma_items_placed(st, items.drop_last(), line, origin);
        let prev = lay_items(st, items.drop_last(), line, origin);
        let r = lay_items(st, items, line, origin);
        match items.last() {
            DataByteView::Byte(b) => {
                assert(r.patches == prev.patches);
            },
            DataByteView::Label(name) => {
                assert(r.patches == prev.patches.push(
                    Patch { name, at: prev.bytes.len(), line, origin },
                ));
                assert forall|i: int| 0 <= i < r.patches.len() implies #[trigger] r.patches[i].at + 2
                    <= r.bytes.len() by {
                    if i < prev.patches.len() {
                        assert(r.patches[i] == prev.patches[i]);
                    }
                }
                assert forall|i: int, j: int| 0 <= i < j < r.patches.len() implies #[trigger] r.patches[i].at + 2
                    <= #[trigger] r.patches[j].at by {
                    assert(r.patches[i] == prev.patches[i]);
                    if j < prev.patches.len() {
                        assert(r.patches[j] == prev.patches[j]);
                    }
                }
            },
        }
    }
}

proof fn lemma_line_placed(st: Layout, l: LineView)
    requires
        well_placed(st),
    ensures
        well_placed(lay_line(st, l)),
        lay_line(st, l).bytes.len() >= st.bytes.len(),
{
    match l.data {
        LineDataView::Directive(DirectiveView::DB(items)) => {
            lemma_items_placed(st, items, l.line, l.origin);
        },
        LineDataView::Instruction(ins, p) => {
            let r = lay_line(st, l);
            assert(r.bytes.len() == st.bytes.len() + 3 || r.bytes.len() == st.bytes.len() + 2);
            match p {
                ParametersView::Label(name) => {
                    assert(r.bytes.len() == st.bytes.len() + 3);
                    assert forall|i: int| 0 <= i < r.patches.len() implies #[trigger] r.patches[i].at
                        + 2 <= r.bytes.len() by {
                        if i < st.patches.len() {
                            assert(r.patches[i] == st.patches[i]);
                        }
                    }
                    assert forall|i: int, j: int| 0 <= i < j < r.patches.len() implies #[trigger] r.patches[i].at
                        + 2 <= #[trigger] r.patches[j].at by {
                        assert(r.patches[i] == st.patches[i]);
                        if j < st.patches.len() {
                            assert(r.patches[j] == st.patches[j]);
                        }
                    }
                },
                _ => {},
            }
        },
        _ => {},
    }
}

proof fn lemma_layout_placed(lines: Seq<LineView>)
    ensures
        well_placed(layout(lines)),
    decreases lines.len(),
{
    if lines.len() > 0 {
        lemma_layout_placed(lines.drop_last());
        lemma_line_placed(layout(lines.drop_last()), lines.last());
    }
}

/// `a` is the layout with the label patch `p` (at `pk` among the patches)
/// and `b` the one with the bytes `lo`, `hi` written in its place.
spec fn related(a: Layout, b: Layout, p: Patch, pk: int, lo: u8, hi: u8) -> bool {
    &&& a.bytes.len() == b.bytes.len()
    &&& p.at + 2 <= a.bytes.len()
    &&& forall|q: int|
        0 <= q < a.bytes.len() && q != p.at && q != p.at + 1 ==> #[trigger] a.bytes[q] == b.bytes[q]
    &&& b.bytes[p.at as int] == lo
    &&& b.bytes[p.at + 1int] == hi
    &&& a.symbols == b.symbols
    &&& 0 <= pk <= b.patches.len()
    &&& a.patches == b.patches.take(pk).push(p) + b.patches.skip(pk)
}

proof fn lemma_append_related(a: Layout, b: Layout, p: Patch, pk: int, lo: u8, hi: u8, e: Seq<u8>)
    requires
        related(a, b, p, pk, lo, hi),
    ensures
        related(Layout { bytes: a.bytes + e, ..a }, Layout { bytes: b.bytes + e, ..b }, p, pk, lo, hi),
{
    let a2 = Layout { bytes: a.bytes + e, ..a };
    let b2 = Layout { bytes: b.bytes + e, ..b };
    assert forall|q: int| 0 <= q < a2.bytes.len() && q != p.at && q != p.at + 1 implies #[trigger] a2.bytes[q]
        == b2.bytes[q] by {
        if q < a.bytes.len() {
            assert(a2.bytes[q] == a.bytes[q]);
            assert(b2.bytes[q] == b.bytes[q]);
        }
    }
}

proof fn lemma_push_patch_related(a: Layout, b: Layout, p: Patch, pk: int, lo: u8, hi: u8, n: Patch)
    requires
        related(a, b, p, pk, lo, hi),
    ensures
        related(
            Layout { patches: a.patches.push(n), ..a },
            Layout { patches: b.patches.push(n), ..b },
            p,
            pk,
            lo,
            hi,
        ),
{
    assert(b.patches.push(n).take(pk) =~= b.patches.take(pk));
    assert(b.patches.push(n).skip(pk) =~= b.patches.skip(pk).push(n));
    assert(a.patches.push(n) =~= b.patches.push(n).take(pk).push(p) + b.patches.push(n).skip(pk));
}

proof fn lemma_items_related(
    a: Layout,
    b: Layout,
    items: Seq<DataByteView>,
    line: nat,
    origin: Seq<char>,
    p: Patch,
    pk: int,
    lo: u8,
    hi: u8,
)
    requires
        related(a, b, p, pk, lo, hi),
    ensures
        related(lay_items(a, items, line, origin), lay_items(b, items, line, origin), p, pk, lo, hi),
    decreases items.len(),
{
    if items.len() > 0 {
        lemma_items_related(a, b, items.drop_last(), line, origin, p, pk, lo, hi);
        let a1 = lay_items(a, items.drop_last(), line, origin);
        let b1 = lay_items(b, items.drop_last(), line, origin);
        match items.last() {
            DataByteView::Byte(x) => {
                lemma_append_related(a1, b1, p, pk, lo, hi, seq![x]);
                assert(a1.bytes.push(x) =~= a1.bytes + seq![x]);
                assert(b1.bytes.push(x) =~= b1.bytes + seq![x]);
            },
            DataByteView::Label(name) => {
                let e = seq![PLACEHOLDER_LO, PLACEHOLDER_HI];
                lemma_append_related(a1, b1, p, pk, lo, hi, e);
                let n = Patch { name, at: a1.bytes.len(), line, origin };
                lemma_push_patch_related(
                    Layout { bytes: a1.bytes + e, ..a1 },
                    Layout { bytes: b1.bytes + e, ..b1 },
                    p,
                    pk,
                    lo,
                    hi,
                    n,
                );
            },
        }
    }
}

proof fn lemma_line_related(a: Layout, b: Layout, l: LineView, p: Patch, pk: int, lo: u8, hi: u8)
    requires
        related(a, b, p, pk, lo, hi),
    ensures
        related(lay_line(a, l), lay_line(b, l), p, pk, lo, hi),
{
    match l.data {
        LineDataView::Label(name) => {},
        LineDataView::Directive(DirectiveView::Line(off)) => {
            if (off as nat) >= a.bytes.len() {
                lemma_append_related(a, b, p, pk, lo, hi, Seq::new((off as nat - a.bytes.len()) as nat, |k: int| 0u8));
            }
        },
        LineDataView::Directive(DirectiveView::DB(items)) => {
            lemma_items_related(a, b, items, l.line, l.origin, p, pk, lo, hi);
        },
        LineDataView::Instruction(ins, q) => {
            lemma_append_related(a, b, p, pk, lo, hi, encode(ins, q));
            match q {
                ParametersView::Label(name) => {
                    let n = Patch { name, at: a.bytes.len() + 1, line: l.line, origin: l.origin };
                    lemma_push_patch_related(
                        Layout { bytes: a.bytes + encode(ins, q), ..a },
                        Layout { bytes: b.bytes + encode(ins, q), ..b },
                        p,
                        pk,
                        lo,
                        hi,
                        n,
                    );
                },
                _ => {},
            }
        },
    }
}

/// The line `k`, with its label operand replaced by the number `v`.
pub open spec fn with_number(lines: Seq<LineView>, k: int, ins: Instruction, v: u16) -> Seq<LineView> {
    lines.update(
        k,
        LineView { data: LineDataView::Instruction(ins, ParametersView::LongImmediate(v)), ..lines[k] },
    )
}

proof fn lemma_prefix_related(
    lines: Seq<LineView>,
    k: int,
    ins: Instruction,
    v: u16,
    j: int,
    p: Patch,
    pk: int,
)
    requires
        0 <= k < lines.len(),
        k + 1 <= j <= lines.len(),
        lines[k].data matches LineDataView::Instruction(i, ParametersView::Label(name)) && i == ins && name == p.name,
        p == (Patch {
            name: p.name,
            at: layout(lines.take(k)).bytes.len() + 1,
            line: lines[k].line,
            origin: lines[k].origin,
        }),
        pk == layout(lines.take(k)).patches.len(),
    ensures
        related(
            layout(lines.take(j)),
            layout(with_number(lines, k, ins, v).take(j)),
            p,
            pk,
            (v & 0xFFu16) as u8,
            (v >> 8u16) as u8,
        ),
    decreases j,
{
    let lines2 = with_number(lines, k, ins, v);
    if j == k + 1 {
        assert(lines.take(j).drop_last() =~= lines.take(k));
        assert(lines2.take(j).drop_last() =~= lines.take(k));
        assert(lines.take(j).last() == lines[k]);
        assert(lines2.take(j).last() == lines2[k]);
        let c = layout(lines.take(k));
        let a = layout(lines.take(j));
        let b = layout(lines2.take(j));
        assert(b.patches.take(pk) =~= c.patches);
        assert(b.patches.skip(pk) =~= Seq::<Patch>::empty());
        assert(a.patches =~= b.patches.take(pk).push(p) + b.patches.skip(pk));
        assert forall|q: int| 0 <= q < a.bytes.len() && q != p.at && q != p.at + 1 implies #[trigger] a.bytes[q]
            == b.bytes[q] by {
            if q < c.bytes.len() {
                assert(a.bytes[q] == c.bytes[q]);
                assert(b.bytes[q] == c.bytes[q]);
            }
        }
    } else {
        lemma_prefix_related(lines, k, ins, v, j - 1, p, pk);
        assert(lines.take(j).drop_last() =~= lines.take(j - 1));
        assert(lines2.take(j).drop_last() =~= lines2.take(j - 1));
        assert(lines2.take(j).last() == lines.take(j).last());
        lemma_line_related(
            layout(lines.take(j - 1)),
            layout(lines2.take(j - 1)),
            lines[j - 1],
            p,
            pk,
            (v & 0xFFu16) as u8,
            (v >> 8u16) as u8,
        );
    }
}

proof fn lemma_address_bytes(n: nat)
    ensures
        (((n % 65536) as u16) & 0xFFu16) as u8 == addr_lo(n),
        (((n % 65536) as u16) >> 8u16) as u8 == addr_hi(n),
{
    let v = (n % 65536) as u16;
    assert(v & 0xFFu16 == v % 256 && v >> 8u16 == v / 256) by (bit_vector);
    lemma_mod_mod(n as int, 256, 256);
    lemma_mod_breakdown(n as int, 256, 256);
    assert((n % 65536) / 256 == (n / 256) % 256);
}

/// An instruction that names a declared label assembles to the same bytes
/// as the same instruction with the label's address, as a 16-bit number,
/// in place of the label.
pub proof fn lemma_label_transparent(lines: Seq<LineView>, k: int, ins: Instruction, name: Seq<char>)
    requires
        0 <= k < lines.len(),
        lines[k].data == LineDataView::Instruction(ins, ParametersView::Label(name)),
        layout(lines).symbols.contains_key(name),
    ensures
        assembled(lines) == assembled(
            with_number(lines, k, ins, (layout(lines).symbols[name] % 65536) as u16),
        ),
{
    let n = layout(lines).symbols[name];
    let v = (n % 65536) as u16;
    let lines2 = with_number(lines, k, ins, v);
    let p = Patch {
        name,
        at: layout(lines.take(k)).bytes.len() + 1,
        line: lines[k].line,
        origin: lines[k].origin,
    };
    let pk = layout(lines.take(k)).patches.len() as int;
    lemma_prefix_related(lines, k, ins, v, lines.len() as int, p, pk);
    assert(lines.take(lines.len() as int) =~= lines);
    assert(lines2.take(lines.len() as int) =~= lines2);
    let a = layout(lines);
    let b = layout(lines2);
    let s = a.symbols;
    let lo = (v & 0xFFu16) as u8;
    let hi = (v >> 8u16) as u8;
    lemma_address_bytes(n);
    lemma_layout_placed(lines);
    lemma_layout_placed(lines2);
    let x = b.patches.take(pk);
    let y = b.patches.skip(pk);
    assert(b.patches =~= x + y);
    assert(a.patches[pk] == p);
    lemma_resolve_len(a.bytes, s, a.patches);
    lemma_resolve_len(b.bytes, s, b.patches);
    let ra = resolve(a.bytes, s, a.patches).0;
    let rb = resolve(b.bytes, s, b.patches).0;
    assert forall|q: int| 0 <= q < ra.len() implies ra[q] == rb[q] by {
        lemma_resolve_at(a.bytes, s, a.patches, q);
        lemma_resolve_at(b.bytes, s, b.patches, q);
        if q != p.at && q != p.at + 1 {
            lemma_skip_patch(a.bytes, s, x, p, y, q);
            lemma_bytes_agree(a.bytes, b.bytes, s, x + y, q);
        } else {
            assert forall|i: int| 0 <= i < y.len() implies #[trigger] y[i].at != q && y[i].at + 1 != q by {
                assert(y[i] == a.patches[pk + 1 + i]);
                assert(a.patches[pk].at + 2 <= a.patches[pk + 1 + i].at);
            }
            assert forall|i: int| 0 <= i < x.len() implies #[trigger] x[i].at != q && x[i].at + 1 != q by {
                assert(x[i] == a.patches[i]);
                assert(a.patches[i].at + 2 <= a.patches[pk].at);
            }
            lemma_suffix_uncovered(a.bytes, s, x.push(p), y, q);
            assert(x.push(p).drop_last() =~= x);
            lemma_suffix_uncovered(b.bytes, s, x, y, q);
            lemma_suffix_uncovered(b.bytes, s, Seq::<Patch>::empty(), x, q);
            assert(Seq::<Patch>::empty() + x =~= x);
        }
    }
    assert(ra =~= rb);
}

/// Each reference still holds the placeholder before resolution.
pub open spec fn placeholders_kept(st: Layout) -> bool {
    forall|i: int|
        0 <= i < st.patches.len() ==> st.bytes[#[trigger] st.patches[i].at as int] == PLACEHOLDER_LO
            && st.bytes[st.patches[i].at + 1int] == PLACEHOLDER_HI
}

proof fn lemma_items_kept(st: Layout, items: Seq<DataByteView>, line: nat, origin: Seq<char>)
    requires
        well_placed(st),
        placeholders_kept(st),
    ensures
        placeholders_kept(lay_items(st, items, line, origin)),
    decreases items.len(),
{
    if items.len() > 0 {
        lemma_items_kept(st, items.drop_last(), line, origin);
        lemma_items_placed(st, items.drop_last(), line, origin);
        let prev = lay_items(st, items.drop_last(), line, origin);
        let r = lay_items(st, items, line, origin);
        assert forall|i: int| 0 <= i < r.patches.len() implies r.bytes[#[trigger] r.patches[i].at as int]
            == PLACEHOLDER_LO && r.bytes[r.patches[i].at + 1int] == PLACEHOLDER_HI by {
            if i < prev.patches.len() {
                assert(r.patches[i] == prev.patches[i]);
                assert(prev.patches[i].at + 2 <= prev.bytes.len());
            }
        }
    }
}

proof fn lemma_line_kept(st: Layout, l: LineView)
    requires
        well_placed(st),
        placeholders_kept(st),
    ensures
        placeholders_kept(lay_line(st, l)),
{
    let r = lay_line(st, l);
    match l.data {
        LineDataView::Directive(DirectiveView::DB(items)) => {
            lemma_items_kept(st, items, l.line, l.origin);
        },
        _ => {
            assert forall|i: int| 0 <= i < r.patches.len() implies r.bytes[#[trigger] r.patches[i].at as int]
                == PLACEHOLDER_LO && r.bytes[r.patches[i].at + 1int] == PLACEHOLDER_HI by {
                if i < st.patches.len() {
                    assert(r.patches[i] == st.patches[i]);
                    assert(st.patches[i].at + 2 <= st.bytes.len());
                }
            }
        },
    }
}

proof fn lemma_layout_kept(lines: Seq<LineView>)
    ensures
        placeholders_kept(layout(lines)),
    decreases lines.len(),
{
    if lines.len() > 0 {
        lemma_layout_kept(lines.drop_last());
        lemma_layout_placed(lines.drop_last());
        lemma_line_kept(layout(lines.drop_last()), lines.last());
    }
}

/// After assembly, each label reference (a `.db` item or an instruction
/// operand) holds the label's address, low byte first, where the label is
/// declared anywhere in the program, and keeps the placeholder bytes where
/// it is not.
pub proof fn lemma_reference_resolution(lines: Seq<LineView>, i: int)
    requires
        0 <= i < layout(lines).patches.len(),
    ensures
        ({
            let l = layout(lines);
            let p = l.patches[i];
            &&& p.at + 2 <= assembled(lines).len()
            &&& l.symbols.contains_key(p.name) ==> assembled(lines)[p.at as int] == addr_lo(l.symbols[p.name])
                && assembled(lines)[p.at + 1int] == addr_hi(l.symbols[p.name])
            &&& !l.symbols.contains_key(p.name) ==> assembled(lines)[p.at as int] == PLACEHOLDER_LO
                && assembled(lines)[p.at + 1int] == PLACEHOLDER_HI
        }),
{
    let l = layout(lines);
    let ps = l.patches;
    let p = ps[i];
    lemma_layout_placed(lines);
    lemma_layout_kept(lines);
    lemma_resolve_len(l.bytes, l.symbols, ps);
    let z = ps.take(i + 1);
    let y = ps.skip(i + 1);
    assert(ps =~= z + y);
    assert(z.last() == p);
    assert(z.drop_last() =~= ps.take(i));
    let x = ps.take(i);
    assert forall|q: int| q == p.at || q == p.at + 1 implies resolve(l.bytes, l.symbols, ps).0[q]
        == (if l.symbols.contains_key(p.name) {
        if q == p.at {
            addr_lo(l.symbols[p.name])
        } else {
            addr_hi(l.symbols[p.name])
        }
    } else {
        l.bytes[q]
    }) by {
        lemma_resolve_at(l.bytes, l.symbols, ps, q);
        assert forall|k: int| 0 <= k < y.len() implies #[trigger] y[k].at != q && y[k].at + 1 != q by {
            assert(y[k] == ps[i + 1 + k]);
            assert(ps[i].at + 2 <= ps[i + 1 + k].at);
        }
        lemma_suffix_uncovered(l.bytes, l.symbols, z, y, q);
        assert forall|k: int| 0 <= k < x.len() implies #[trigger] x[k].at != q && x[k].at + 1 != q by {
            assert(x[k] == ps[k]);
            assert(ps[k].at + 2 <= ps[i].at);
        }
        lemma_suffix_uncovered(l.bytes, l.symbols, Seq::<Patch>::empty(), x, q);
        assert(Seq::<Patch>::empty() + x =~= x);
    }
}

pub open spec fn unresolved_report(p: Patch) -> LogView {
    LogView::Error(p.line, unresolved_message(p.name), p.origin)
}

proof fn lemma_resolve_reports(bytes: Seq<u8>, symbols: Map<Seq<char>, nat>, ps: Seq<Patch>)
    ensures
        resolve(bytes, symbols, ps).1 == ps.filter(|p: Patch| !symbols.contains_key(p.name)).map_values(
            |p: Patch| unresolved_report(p),
        ),
    decreases ps.len(),
{
    reveal_with_fuel(Seq::filter, 1);
    if ps.len() > 0 {
        lemma_resolve_reports(bytes, symbols, ps.drop_last());
        let f = ps.drop_last().filter(|p: Patch| !symbols.contains_key(p.name));
        assert(f.push(ps.last()).map_values(|p: Patch| unresolved_report(p)) =~= f.map_values(
            |p: Patch| unresolved_report(p),
        ).push(unresolved_report(ps.last())));
    }
}

/// Resolution reports exactly one unresolved-symbol error for each label
/// reference whose label is declared nowhere in the program, in the order
/// of the references, after the diagnostics of the forward pass.
pub proof fn lemma_unresolved_reports(lines: Seq<LineView>)
    ensures
        assembly_logs(lines) == layout_logs(lines) + layout(lines).patches.filter(
            |p: Patch| !layout(lines).symbols.contains_key(p.name),
        ).map_values(|p: Patch| unresolved_report(p)),
{
    let l = layout(lines);
    lemma_resolve_reports(l.bytes, l.symbols, l.patches);
}

} // verus!
