//! Code generation: lays parsed lines out into a flat byte image, then patches
//! every label reference with the label's address.

use vstd::prelude::*;
use vstd::string::StringExecFns;

use crate::text::owned;
use crate::instruction::{opcode, register_map, Instruction, RegisterMap};
use crate::parser::{
    data_view, lines_view, logs_view, DataByte, DataByteView, Directive, DirectiveView, Line,
    LineData, LineDataView, LineView, Log, LogView, Parameters, ParametersView,
};

verus! {

/// A register number, 0 to 15.
#[derive(Clone, Copy, Debug)]
pub struct Register(u8);

impl View for Register {
    type V = u8;

    closed spec fn view(&self) -> u8 {
        self.0
    }
}

impl Register {
    #[verifier::type_invariant]
    spec fn in_range(self) -> bool {
        self.0 <= 15
    }

    /// The register numbered `r`, if there is one.
    pub fn from_u8(r: u8) -> (res: Option<Register>)
        ensures
            r <= 15 ==> (res matches Some(x) && x@ == r),
            r > 15 ==> res is None,
    {
        if r <= 15 {
            Some(Register(r))
        } else {
            None
        }
    }

    /// The register number.
    pub fn value(&self) -> (v: u8)
        ensures
            v == self@,
            v <= 15,
    {
        proof {
            use_type_invariant(self);
        }
        self.0
    }
}

/// The bytes written where a label's address will go until it is resolved.
pub const PLACEHOLDER_LO: u8 = 0xDE;
pub const PLACEHOLDER_HI: u8 = 0xAD;

/// The register byte: `a` in the low nibble, `b` in the high one.
pub open spec fn nibbles(a: u8, b: u8) -> u8 {
    (a & 0x0F) | (b << 4u8 & 0xF0)
}

/// The (low, high) nibble registers for the parsed (first, second) registers.
pub open spec fn mapped(m: RegisterMap, a: u8, b: u8) -> (u8, u8) {
    match m {
        RegisterMap::AA => (a, a),
        RegisterMap::AB => (a, b),
        RegisterMap::BA => (b, a),
    }
}

/// The register byte of `ins` with parsed registers `a` and `b`.
pub open spec fn register_byte(ins: Instruction, a: u8, b: u8) -> u8 {
    let (x, y) = mapped(register_map(ins), a, b);
    nibbles(x, y)
}

/// The low byte of the 16-bit address of offset `off`.
pub open spec fn addr_lo(off: nat) -> u8 {
    (off % 256) as u8
}

/// The high byte of the 16-bit address of offset `off`.
pub open spec fn addr_hi(off: nat) -> u8 {
    ((off / 256) % 256) as u8
}

/// The bytes an instruction occupies; a label operand leaves the placeholder.
pub open spec fn encode(ins: Instruction, p: ParametersView) -> Seq<u8> {
    let op = opcode(ins);
    let imm = op | 0x80u8;
    match p {
        ParametersView::NoOperands => seq![op, register_byte(ins, 0, 0)],
        ParametersView::OneRegister(a) => seq![op, register_byte(ins, a, a)],
        ParametersView::TwoRegisters(a, b) => seq![op, register_byte(ins, a, b)],
        ParametersView::OneRegisterImmediate(a, i) => seq![imm, register_byte(ins, a, a), i],
        ParametersView::TwoRegistersImmediate(a, b, i) => seq![imm, register_byte(ins, a, b), i],
        ParametersView::LongImmediate(v) => seq![imm, (v & 0xFFu16) as u8, (v >> 8u16) as u8],
        ParametersView::Label(_) => seq![imm, PLACEHOLDER_LO, PLACEHOLDER_HI],
    }
}

/// A label reference waiting for its address: the label, the offset of the
/// two placeholder bytes, and the line that made it.
pub struct Patch {
    pub name: Seq<char>,
    pub at: nat,
    pub line: nat,
    pub origin: Seq<char>,
}

/// What the forward pass has produced so far.
pub struct Layout {
    pub bytes: Seq<u8>,
    pub symbols: Map<Seq<char>, nat>,
    pub patches: Seq<Patch>,
}

pub open spec fn duplicate_message(name: Seq<char>) -> Seq<char> {
    "symbol "@ + name + " declared multiple times"@
}

pub open spec fn backward_message(len: nat) -> Seq<char> {
    "line offset is less than current offset: "@ + hex_text(len)
}

pub open spec fn alignment_message() -> Seq<char> {
    "line offset will not guarantee instruction alignment"@
}

pub open spec fn unresolved_message(name: Seq<char>) -> Seq<char> {
    "unresolved symbol: "@ + name
}

pub open spec fn hex_digit(d: nat) -> char {
    if d < 10 {
        (('0' as u32) + d) as char
    } else {
        (('a' as u32) + d - 10) as char
    }
}

/// `n` in lower-case hexadecimal, without leading zeros.
pub open spec fn hex_text(n: nat) -> Seq<char>
    decreases n,
{
    if n < 16 {
        seq![hex_digit(n)]
    } else {
        hex_text(n / 16).push(hex_digit(n % 16))
    }
}

/// Lays out the `.db` items one after the other.
pub open spec fn lay_items(st: Layout, items: Seq<DataByteView>, line: nat, origin: Seq<char>) -> Layout
    decreases items.len(),
{
    if items.len() == 0 {
        st
    } else {
        let prev = lay_items(st, items.drop_last(), line, origin);
        match items.last() {
            DataByteView::Byte(b) => Layout { bytes: prev.bytes.push(b), ..prev },
            DataByteView::Label(name) => Layout {
                bytes: prev.bytes + seq![PLACEHOLDER_LO, PLACEHOLDER_HI],
                patches: prev.patches.push(Patch { name, at: prev.bytes.len(), line, origin }),
                ..prev
            },
        }
    }
}

/// The forward pass over one line.
pub open spec fn lay_line(st: Layout, l: LineView) -> Layout {
    match l.data {
        LineDataView::Label(name) => Layout {
            symbols: st.symbols.insert(name, st.bytes.len()),
            ..st
        },
        LineDataView::Directive(DirectiveView::Line(off)) => if (off as nat) < st.bytes.len() {
            st
        } else {
            Layout {
                bytes: st.bytes + Seq::new((off as nat - st.bytes.len()) as nat, |k: int| 0u8),
                ..st
            }
        },
        LineDataView::Directive(DirectiveView::DB(items)) => lay_items(st, items, l.line, l.origin),
        LineDataView::Instruction(ins, p) => Layout {
            bytes: st.bytes + encode(ins, p),
            patches: match p {
                ParametersView::Label(name) => st.patches.push(
                    Patch { name, at: st.bytes.len() + 1, line: l.line, origin: l.origin },
                ),
                _ => st.patches,
            },
            ..st
        },
    }
}

/// The diagnostics of the forward pass over one line.
pub open spec fn line_logs(st: Layout, l: LineView) -> Seq<LogView> {
    match l.data {
        LineDataView::Label(name) => if st.symbols.contains_key(name) {
            seq![LogView::Error(l.line, duplicate_message(name), l.origin)]
        } else {
            seq![]
        },
        LineDataView::Directive(DirectiveView::Line(off)) => if (off as nat) < st.bytes.len() {
            seq![LogView::Error(l.line, backward_message(st.bytes.len()), l.origin)]
        } else if (off as nat - st.bytes.len()) % 2 == 1 {
            seq![LogView::Warning(l.line, alignment_message(), l.origin)]
        } else {
            seq![]
        },
        _ => seq![],
    }
}

pub open spec fn empty_layout() -> Layout {
    Layout { bytes: seq![], symbols: Map::empty(), patches: seq![] }
}

/// The forward pass over a sequence of lines.
pub open spec fn layout(lines: Seq<LineView>) -> Layout
    decreases lines.len(),
{
    if lines.len() == 0 {
        empty_layout()
    } else {
        lay_line(layout(lines.drop_last()), lines.last())
    }
}

/// The diagnostics of the forward pass over a sequence of lines.
pub open spec fn layout_logs(lines: Seq<LineView>) -> Seq<LogView>
    decreases lines.len(),
{
    if lines.len() == 0 {
        seq![]
    } else {
        layout_logs(lines.drop_last()) + line_logs(layout(lines.drop_last()), lines.last())
    }
}

/// Applies the patches in order: each one whose label is declared gets the
/// label's address, little-endian; each other one is reported.
pub open spec fn resolve(bytes: Seq<u8>, symbols: Map<Seq<char>, nat>, patches: Seq<Patch>) -> (
    Seq<u8>,
    Seq<LogView>,
)
    decreases patches.len(),
{
    if patches.len() == 0 {
        (bytes, seq![])
    } else {
        let (b, logs) = resolve(bytes, symbols, patches.drop_last());
        let p = patches.last();
        if symbols.contains_key(p.name) {
            let off = symbols[p.name];
            (b.update(p.at as int, addr_lo(off)).update(p.at + 1int, addr_hi(off)), logs)
        } else {
            (b, logs.push(LogView::Error(p.line, unresolved_message(p.name), p.origin)))
        }
    }
}

/// The binary image of a program.
pub open spec fn assembled(lines: Seq<LineView>) -> Seq<u8> {
    let l = layout(lines);
    resolve(l.bytes, l.symbols, l.patches).0
}

/// The diagnostics of assembling a program: those of the forward pass, then
/// one for each unresolved reference.
pub open spec fn assembly_logs(lines: Seq<LineView>) -> Seq<LogView> {
    let l = layout(lines);
    layout_logs(lines) + resolve(l.bytes, l.symbols, l.patches).1
}

/// A label reference recorded during the forward pass.
struct Pending {
    name: String,
    at: usize,
    line: usize,
    origin: String,
}

impl View for Pending {
    type V = Patch;

    closed spec fn view(&self) -> Patch {
        Patch { name: self.name@, at: self.at as nat, line: self.line as nat, origin: self.origin@ }
    }
}

spec fn pending_view(p: Seq<Pending>) -> Seq<Patch> {
    p.map_values(|x: Pending| x@)
}

/// The symbol table kept as a list of declarations; a later one of a name
/// overrides an earlier one.
spec fn table_map(t: Seq<(String, usize)>) -> Map<Seq<char>, nat>
    decreases t.len(),
{
    if t.len() == 0 {
        Map::empty()
    } else {
        table_map(t.drop_last()).insert(t.last().0@, t.last().1 as nat)
    }
}

/// The state of the forward pass.
struct Assembly {
    buffer: Vec<u8>,
    table: Vec<(String, usize)>,
    pending: Vec<Pending>,
}

impl View for Assembly {
    type V = Layout;

    closed spec fn view(&self) -> Layout {
        Layout {
            bytes: self.buffer@,
            symbols: table_map(self.table@),
            patches: pending_view(self.pending@),
        }
    }
}

proof fn lemma_table_skip(t: Seq<(String, usize)>, i: int, name: Seq<char>)
    requires
        0 <= i <= t.len(),
        forall|j: int| i <= j < t.len() ==> t[j].0@ != name,
    ensures
        table_map(t).contains_key(name) == table_map(t.take(i)).contains_key(name),
        table_map(t).contains_key(name) ==> table_map(t)[name] == table_map(t.take(i))[name],
    decreases t.len(),
{
    if t.len() == i {
        assert(t.take(i) =~= t);
    } else {
        let u = t.drop_last();
        assert(u.take(i) =~= t.take(i));
        lemma_table_skip(u, i, name);
    }
}

/// The offset recorded for `name`, the latest declaration winning.
fn lookup(table: &Vec<(String, usize)>, name: &String) -> (r: Option<usize>)
    ensures
        r is Some <==> table_map(table@).contains_key(name@),
        r matches Some(v) ==> table_map(table@)[name@] == v as nat,
{
    let mut i = table.len();
    while i > 0
        invariant
            i <= table@.len(),
            forall|j: int| i <= j < table@.len() ==> table@[j].0@ != name@,
        decreases i,
    {
        i = i - 1;
        if table[i].0 == *name {
            proof {
                lemma_table_skip(table@, i + 1, name@);
                assert(table@.take(i + 1).drop_last() =~= table@.take(i as int));
            }
            return Some(table[i].1);
        }
    }
    proof {
        lemma_table_skip(table@, 0, name@);
    }
    None
}

fn push_hex(out: &mut String, n: usize)
    ensures
        final(out)@ == old(out)@ + hex_text(n as nat),
    decreases n,
{
    if n >= 16 {
        push_hex(out, n / 16);
    }
    let d = n % 16;
    let c = if d < 10 {
        (('0' as u8) + d as u8) as char
    } else {
        (('a' as u8) + (d - 10) as u8) as char
    };
    out.push(c);
    assert(out@ =~= old(out)@ + hex_text(n as nat));
}

/// Records a label declaration at the current offset.
fn emit_label(a: &mut Assembly, l: &Line, name: &String, logs: &mut Vec<Log>)
    requires
        l.data@ == LineDataView::Label(name@),
    ensures
        final(a)@ == lay_line(old(a)@, l@),
        logs_view(final(logs)@) == logs_view(old(logs)@) + line_logs(old(a)@, l@),
{
    if lookup(&a.table, name).is_some() {
        let mut msg = owned("symbol ");
        msg.append(name.as_str());
        msg.append(" declared multiple times");
        logs.push(Log::Error(l.line, msg, l.origin.clone()));
    }
    let len = a.buffer.len();
    a.table.push((name.clone(), len));
    assert(a.table@.drop_last() =~= old(a).table@);
    assert(logs_view(logs@) =~= logs_view(old(logs)@) + line_logs(old(a)@, l@));
}

/// Pads with zero bytes up to `offset`.
fn emit_offset(a: &mut Assembly, l: &Line, offset: u16, logs: &mut Vec<Log>)
    requires
        l.data@ == LineDataView::Directive(DirectiveView::Line(offset)),
    ensures
        final(a)@ == lay_line(old(a)@, l@),
        logs_view(final(logs)@) == logs_view(old(logs)@) + line_logs(old(a)@, l@),
{
    let len = a.buffer.len();
    if (offset as usize) < len {
        let mut msg = owned("line offset is less than current offset: ");
        push_hex(&mut msg, len);
        logs.push(Log::Error(l.line, msg, l.origin.clone()));
    } else {
        let padding = offset as usize - len;
        if padding % 2 == 1 {
            logs.push(Log::Warning(l.line, owned("line offset will not guarantee instruction alignment"), l.origin.clone()));
        }
        let mut k: usize = 0;
        while k < padding
            invariant
                k <= padding,
                a.buffer@ == old(a).buffer@ + Seq::new(k as nat, |m: int| 0u8),
                a.table == old(a).table,
                a.pending == old(a).pending,
            decreases padding - k,
        {
            a.buffer.push(0);
            assert(a.buffer@ =~= old(a).buffer@ + Seq::new((k + 1) as nat, |m: int| 0u8));
            k = k + 1;
        }
    }
    assert(final(a)@ =~= lay_line(old(a)@, l@));
    assert(logs_view(logs@) =~= logs_view(old(logs)@) + line_logs(old(a)@, l@));
}

/// Emits the `.db` items, recording each label item for patching.
fn emit_data(a: &mut Assembly, l: &Line, items: &Vec<DataByte>)
    requires
        l.data@ == LineDataView::Directive(DirectiveView::DB(data_view(items@))),
    ensures
        final(a)@ == lay_line(old(a)@, l@),
{
    let mut k: usize = 0;
    while k < items.len()
        invariant
            k <= items@.len(),
            a@ == lay_items(old(a)@, data_view(items@).take(k as int), l.line as nat, l.origin@),
        decreases items@.len() - k,
    {
        proof {
            assert(data_view(items@).take(k + 1).drop_last() =~= data_view(items@).take(k as int));
        }
        match &items[k] {
            DataByte::Byte(b) => {
                a.buffer.push(*b);
            },
            DataByte::Label(name) => {
                let at = a.buffer.len();
                a.pending.push(Pending { name: name.clone(), at, line: l.line, origin: l.origin.clone() });
                a.buffer.push(PLACEHOLDER_LO);
                a.buffer.push(PLACEHOLDER_HI);
            },
        }
        proof {
            assert(a.buffer@ =~= lay_items(old(a)@, data_view(items@).take(k + 1), l.line as nat, l.origin@).bytes);
            assert(pending_view(a.pending@) =~= lay_items(old(a)@, data_view(items@).take(k + 1), l.line as nat, l.origin@).patches);
        }
        k = k + 1;
    }
    assert(data_view(items@).take(items@.len() as int) =~= data_view(items@));
}

/// Emits the bytes of one instruction.
fn emit_instruction(a: &mut Assembly, l: &Line, name: Instruction, params: &Parameters)
    requires
        l.data@ == LineDataView::Instruction(name, params@),
    ensures
        final(a)@ == lay_line(old(a)@, l@),
{
    let (op, _, map) = name.assemble_info();
    match params {
        Parameters::Label(label) => {
            a.buffer.push(op | 0b10000000);
            let at = a.buffer.len();
            a.pending.push(Pending { name: label.clone(), at, line: l.line, origin: l.origin.clone() });
            a.buffer.push(PLACEHOLDER_LO);
            a.buffer.push(PLACEHOLDER_HI);
            assert(pending_view(a.pending@) =~= pending_view(old(a).pending@).push(
                Patch { name: label@, at: old(a).buffer@.len() + 1, line: l.line as nat, origin: l.origin@ },
            ));
        },
        Parameters::LongImmediate(i) => {
            a.buffer.push(op | 0b10000000);
            a.buffer.push((*i & 0xFF) as u8);
            a.buffer.push((*i >> 8) as u8);
        },
        _ => {
            let (ra, rb, imm): (u8, u8, Option<u8>) = match params {
                Parameters::OneRegister(x) => (x.value(), x.value(), None),
                Parameters::TwoRegisters(x, y) => (x.value(), y.value(), None),
                Parameters::OneRegisterImmediate(x, i) => (x.value(), x.value(), Some(*i)),
                Parameters::TwoRegistersImmedaite(x, y, i) => (x.value(), y.value(), Some(*i)),
                _ => (0, 0, None),
            };
            let (lo, hi): (u8, u8) = match map {
                RegisterMap::AA => (ra, ra),
                RegisterMap::AB => (ra, rb),
                RegisterMap::BA => (rb, ra),
            };
            let mid = (lo & 0x0F) | (hi << 4 & 0xF0);
            assert(mid == register_byte(name, ra, rb));
            match imm {
                Some(i) => {
                    a.buffer.push(op | 0b10000000);
                    a.buffer.push(mid);
                    a.buffer.push(i);
                },
                None => {
                    a.buffer.push(op);
                    a.buffer.push(mid);
                },
            }
        },
    }
    assert(a.buffer@ =~= old(a).buffer@ + encode(name, params@));
}

/// The forward pass: lays out every line and records the label references.
fn lay_out(lines: &[Line], logs: &mut Vec<Log>) -> (a: Assembly)
    ensures
        a@ == layout(lines_view(lines@)),
        logs_view(final(logs)@) == logs_view(old(logs)@) + layout_logs(lines_view(lines@)),
        forall|k: int| 0 <= k < a@.patches.len() ==> a@.patches[k].at + 2 <= a@.bytes.len(),
{
    let ghost lv = lines_view(lines@);
    let mut a = Assembly { buffer: Vec::new(), table: Vec::new(), pending: Vec::new() };
    proof {
        assert(a@.bytes =~= empty_layout().bytes);
        assert(a@.patches =~= empty_layout().patches);
        assert(a@.symbols =~= empty_layout().symbols);
        assert(lv.take(0) =~= seq![]);
        assert(logs_view(logs@) =~= logs_view(old(logs)@) + layout_logs(lv.take(0)));
    }
    let mut i: usize = 0;
    while i < lines.len()
        invariant
            lv == lines_view(lines@),
            i <= lines@.len(),
            a@ == layout(lv.take(i as int)),
            logs_view(logs@) == logs_view(old(logs)@) + layout_logs(lv.take(i as int)),
            forall|k: int| 0 <= k < a@.patches.len() ==> a@.patches[k].at + 2 <= a@.bytes.len(),
        decreases lines@.len() - i,
    {
        let line = &lines[i];
        let ghost before = a@;
        let ghost logs_before = logs_view(logs@);
        proof {
            assert(lv.take(i + 1).drop_last() =~= lv.take(i as int));
            assert(lv.take(i + 1).last() == line@);
        }
        match &line.data {
            LineData::Label(name) => emit_label(&mut a, line, name, logs),
            LineData::Directive(Directive::Line(offset)) => emit_offset(&mut a, line, *offset, logs),
            LineData::Directive(Directive::DB(items)) => {
                emit_data(&mut a, line, items);
                proof {
                    lemma_items_grow(before, data_view(items@), line.line as nat, line.origin@);
                    assert(logs_view(logs@) =~= logs_before + line_logs(before, line@));
                }
            },
            LineData::Instruction { name, params } => {
                emit_instruction(&mut a, line, *name, params);
                assert(logs_view(logs@) =~= logs_before + line_logs(before, line@));
            },
        }
        assert(logs_view(logs@) =~= logs_view(old(logs)@) + layout_logs(lv.take(i + 1)));
        i = i + 1;
    }
    proof {
        assert(lv.take(lines@.len() as int) =~= lv);
    }
    a
}

/// Writes the address of every declared label into its references and
/// reports the references to labels never declared.
fn patch_all(a: Assembly, logs: &mut Vec<Log>) -> (r: Vec<u8>)
    requires
        forall|k: int| 0 <= k < a@.patches.len() ==> a@.patches[k].at + 2 <= a@.bytes.len(),
    ensures
        r@ == resolve(a@.bytes, a@.symbols, a@.patches).0,
        logs_view(final(logs)@) == logs_view(old(logs)@) + resolve(a@.bytes, a@.symbols, a@.patches).1,
{
    let ghost laid = a@;
    let Assembly { mut buffer, table, pending } = a;
    let mut k: usize = 0;
    proof {
        assert(laid.patches.take(0) =~= seq![]);
        assert(logs_view(logs@) =~= logs_view(old(logs)@) + seq![]);
    }
    while k < pending.len()
        invariant
            pending_view(pending@) == laid.patches,
            table_map(table@) == laid.symbols,
            k <= pending@.len(),
            buffer@.len() == laid.bytes.len(),
            forall|m: int| 0 <= m < laid.patches.len() ==> laid.patches[m].at + 2 <= laid.bytes.len(),
            buffer@ == resolve(laid.bytes, laid.symbols, laid.patches.take(k as int)).0,
            logs_view(logs@) == logs_view(old(logs)@) + resolve(
                laid.bytes,
                laid.symbols,
                laid.patches.take(k as int),
            ).1,
        decreases pending@.len() - k,
    {
        proof {
            assert(laid.patches.take(k + 1).drop_last() =~= laid.patches.take(k as int));
            assert(laid.patches.take(k + 1).last() == pending@[k as int]@);
            assert(laid.patches[k as int] == pending@[k as int]@);
        }
        let p = &pending[k];
        match lookup(&table, &p.name) {
            Some(off) => {
                let n = buffer.len();
                assert(p.at + 2 <= n);
                buffer.set(p.at, (off % 256) as u8);
                buffer.set(p.at + 1, ((off / 256) % 256) as u8);
            },
            None => {
                let mut msg = owned("unresolved symbol: ");
                msg.append(p.name.as_str());
                let ghost before = logs_view(logs@);
                logs.push(Log::Error(p.line, msg, p.origin.clone()));
                assert(logs_view(logs@) =~= before.push(
                    LogView::Error(p.line as nat, unresolved_message(p.name@), p.origin@),
                ));
            },
        }
        k = k + 1;
    }
    proof {
        assert(laid.patches.take(pending@.len() as int) =~= laid.patches);
    }
    buffer
}

/// Assembles parsed lines into a binary image, appending the diagnostics of
/// code generation to `logs`. A label's address is its offset in the image;
/// a reference to a label never declared keeps the placeholder bytes and is
/// reported as unresolved.
pub fn assemble_lines(lines: &[Line], logs: &mut Vec<Log>) -> (r: Vec<u8>)
    ensures
        r@ == assembled(lines_view(lines@)),
        logs_view(final(logs)@) == logs_view(old(logs)@) + assembly_logs(lines_view(lines@)),
{
    let a = lay_out(lines, logs);
    let r = patch_all(a, logs);
    assert(logs_view(logs@) =~= logs_view(old(logs)@) + assembly_logs(lines_view(lines@)));
    r
}

proof fn lemma_items_grow(st: Layout, items: Seq<DataByteView>, line: nat, origin: Seq<char>)
    requires
        forall|k: int| 0 <= k < st.patches.len() ==> st.patches[k].at + 2 <= st.bytes.len(),
    ensures
        ({
            let r = lay_items(st, items, line, origin);
            forall|k: int| 0 <= k < r.patches.len() ==> r.patches[k].at + 2 <= r.bytes.len()
        }),
    decreases items.len(),
{
    if items.len() > 0 {
        let prev = lay_items(st, items.drop_last(), line, origin);
        lemma_items_grow(st, items.drop_last(), line, origin);
        let r = lay_items(st, items, line, origin);
        match items.last() {
            DataByteView::Byte(b) => {
                assert(r.bytes.len() == prev.bytes.len() + 1);
                assert(r.patches == prev.patches);
            },
            DataByteView::Label(name) => {
                assert(r.bytes.len() == prev.bytes.len() + 2);
                assert forall|k: int| 0 <= k < r.patches.len() implies r.patches[k].at + 2
                    <= r.bytes.len() by {
                    if k < prev.patches.len() {
                        assert(r.patches[k] == prev.patches[k]);
                    }
                }
            },
        }
    }
}

} // verus!
