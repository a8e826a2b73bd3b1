//! Parsed lines, diagnostics, and the per-mode operand grammar that turns a
//! line of tokens into a parsed line.

use vstd::prelude::*;

use vstd::string::StringExecFns;

use crate::codegen::Register;
use crate::instruction::Instruction;
use crate::lexer::{lex, lex_chars, tokens_view, TokenView};
use crate::operands::{line_label, line_outcome, parse_tokens, strings_view, LineEnd, Parsed};
use crate::text::{chars_of, owned};

verus! {

/// A diagnostic: severity, source line (0-based), message and the name of the
/// file it came from.
#[derive(Clone, Debug)]
pub enum Log {
    Warning(usize, String, String),
    Error(usize, String, String),
    /// A file that could not be read or written: message and path.
    IOError(String, String),
}

pub enum LogView {
    Warning(nat, Seq<char>, Seq<char>),
    Error(nat, Seq<char>, Seq<char>),
    IOError(Seq<char>, Seq<char>),
}

impl View for Log {
    type V = LogView;

    open spec fn view(&self) -> LogView {
        match self {
            Log::Warning(line, msg, origin) => LogView::Warning(*line as nat, msg@, origin@),
            Log::Error(line, msg, origin) => LogView::Error(*line as nat, msg@, origin@),
            Log::IOError(msg, origin) => LogView::IOError(msg@, origin@),
        }
    }
}

pub open spec fn logs_view(logs: Seq<Log>) -> Seq<LogView> {
    logs.map_values(|l: Log| l@)
}

impl Log {
    /// Whether the entry is an error, which makes the output unusable.
    pub fn is_error(&self) -> (r: bool)
        ensures
            r == !(self is Warning),
    {
        match self {
            Log::Warning(..) => false,
            _ => true,
        }
    }

    /// The entry as one line of text: severity, file, line (counted from
    /// 1) and message.
    pub fn text(&self) -> (r: String)
        ensures
            r@ == log_text(self@),
    {
        match self {
            Log::Warning(line, msg, origin) => {
                let mut out = owned("WARNING: ");
                out.append(origin.as_str());
                out.append(":");
                push_decimal(&mut out, *line as u128 + 1);
                out.append(": ");
                out.append(msg.as_str());
                out
            },
            Log::Error(line, msg, origin) => {
                let mut out = owned("ERROR:   ");
                out.append(origin.as_str());
                out.append(":");
                push_decimal(&mut out, *line as u128 + 1);
                out.append(": ");
                out.append(msg.as_str());
                out
            },
            Log::IOError(msg, origin) => {
                let mut out = owned("ERROR:   ");
                out.append(origin.as_str());
                out.append(": ");
                out.append(msg.as_str());
                out
            },
        }
    }
}

/// `n` in decimal, without leading zeros.
pub open spec fn decimal_text(n: nat) -> Seq<char>
    decreases n,
{
    if n < 10 {
        seq![(('0' as u32) + n) as char]
    } else {
        decimal_text(n / 10).push((('0' as u32) + n % 10) as char)
    }
}

pub open spec fn log_text(l: LogView) -> Seq<char> {
    match l {
        LogView::Warning(line, msg, origin) => "WARNING: "@ + origin + ":"@ + decimal_text(line + 1) + ": "@ + msg,
        LogView::Error(line, msg, origin) => "ERROR:   "@ + origin + ":"@ + decimal_text(line + 1) + ": "@ + msg,
        LogView::IOError(msg, origin) => "ERROR:   "@ + origin + ": "@ + msg,
    }
}

fn push_decimal(out: &mut String, n: u128)
    ensures
        final(out)@ == old(out)@ + decimal_text(n as nat),
    decreases n,
{
    if n >= 10 {
        push_decimal(out, n / 10);
    }
    out.push((('0' as u8) + (n % 10) as u8) as char);
    assert(out@ =~= old(out)@ + decimal_text(n as nat));
}

/// The operands of an instruction, as parsed.
#[derive(Clone, Debug)]
pub enum Parameters {
    NoOperands,
    Label(String),
    LongImmediate(u16),
    OneRegister(Register),
    TwoRegisters(Register, Register),
    OneRegisterImmediate(Register, u8),
    TwoRegistersImmedaite(Register, Register, u8),
}

pub enum ParametersView {
    NoOperands,
    Label(Seq<char>),
    LongImmediate(u16),
    OneRegister(u8),
    TwoRegisters(u8, u8),
    OneRegisterImmediate(u8, u8),
    TwoRegistersImmediate(u8, u8, u8),
}

impl View for Parameters {
    type V = ParametersView;

    open spec fn view(&self) -> ParametersView {
        match self {
            Parameters::NoOperands => ParametersView::NoOperands,
            Parameters::Label(l) => ParametersView::Label(l@),
            Parameters::LongImmediate(i) => ParametersView::LongImmediate(*i),
            Parameters::OneRegister(a) => ParametersView::OneRegister(a@),
            Parameters::TwoRegisters(a, b) => ParametersView::TwoRegisters(a@, b@),
            Parameters::OneRegisterImmediate(a, i) => ParametersView::OneRegisterImmediate(a@, *i),
            Parameters::TwoRegistersImmedaite(a, b, i) => ParametersView::TwoRegistersImmediate(
                a@,
                b@,
                *i,
            ),
        }
    }
}

/// One item of a `.db` directive.
#[derive(Clone, Debug)]
pub enum DataByte {
    Label(String),
    Byte(u8),
}

pub enum DataByteView {
    Label(Seq<char>),
    Byte(u8),
}

impl View for DataByte {
    type V = DataByteView;

    open spec fn view(&self) -> DataByteView {
        match self {
            DataByte::Label(l) => DataByteView::Label(l@),
            DataByte::Byte(b) => DataByteView::Byte(*b),
        }
    }
}

pub open spec fn data_view(items: Seq<DataByte>) -> Seq<DataByteView> {
    items.map_values(|d: DataByte| d@)
}

#[derive(Clone, Debug)]
pub enum Directive {
    /// Pad with zero bytes up to an absolute offset.
    Line(u16),
    /// Raw data bytes.
    DB(Vec<DataByte>),
}

pub enum DirectiveView {
    Line(u16),
    DB(Seq<DataByteView>),
}

impl View for Directive {
    type V = DirectiveView;

    open spec fn view(&self) -> DirectiveView {
        match self {
            Directive::Line(o) => DirectiveView::Line(*o),
            Directive::DB(items) => DirectiveView::DB(data_view(items@)),
        }
    }
}

#[derive(Clone, Debug)]
pub enum LineData {
    Label(String),
    Directive(Directive),
    Instruction { name: Instruction, params: Parameters },
}

pub enum LineDataView {
    Label(Seq<char>),
    Directive(DirectiveView),
    Instruction(Instruction, ParametersView),
}

impl View for LineData {
    type V = LineDataView;

    open spec fn view(&self) -> LineDataView {
        match self {
            LineData::Label(l) => LineDataView::Label(l@),
            LineData::Directive(d) => LineDataView::Directive(d@),
            LineData::Instruction { name, params } => LineDataView::Instruction(*name, params@),
        }
    }
}

/// A parsed line with the file and the (0-based) line it came from.
#[derive(Clone, Debug)]
pub struct Line {
    pub origin: String,
    pub line: usize,
    pub data: LineData,
}

pub struct LineView {
    pub origin: Seq<char>,
    pub line: nat,
    pub data: LineDataView,
}

impl View for Line {
    type V = LineView;

    open spec fn view(&self) -> LineView {
        LineView { origin: self.origin@, line: self.line as nat, data: self.data@ }
    }
}

pub open spec fn lines_view(lines: Seq<Line>) -> Seq<LineView> {
    lines.map_values(|l: Line| l@)
}

/// Where a source text comes from.
pub struct ParseOptions {
    /// The file name that diagnostics and parsed lines carry
    pub origin: String,
    /// Directories to search for included files
    pub include_paths: Vec<String>,
}

/// The parsed lines that a line of tokens contributes: its label, then what
/// follows it.
pub open spec fn line_parsed(t: Seq<TokenView>, line: nat, origin: Seq<char>) -> Seq<LineView> {
    let label = match line_label(t) {
        Some(l) => seq![LineView { origin, line, data: LineDataView::Label(l) }],
        None => seq![],
    };
    match line_outcome(t).end {
        LineEnd::Data(d) => label.push(LineView { origin, line, data: d }),
        _ => label,
    }
}

/// The diagnostics of a line of tokens.
pub open spec fn line_diagnostics(t: Seq<TokenView>, line: nat, origin: Seq<char>) -> Seq<LogView> {
    let o = line_outcome(t);
    o.warnings.map_values(|m: Seq<char>| LogView::Warning(line, m, origin)) + match o.end {
        LineEnd::Fail(m) => seq![LogView::Error(line, m, origin)],
        LineEnd::Note(m) => seq![LogView::Warning(line, m, origin)],
        _ => seq![],
    }
}

/// The file that a line of tokens includes, if it is an include directive.
pub open spec fn line_include(t: Seq<TokenView>) -> Option<Seq<char>> {
    match line_outcome(t).end {
        LineEnd::Include(p) => Some(p),
        _ => None,
    }
}

pub open spec fn strip_cr(l: Seq<char>) -> Seq<char> {
    if l.len() > 0 && l.last() == '\r' {
        l.drop_last()
    } else {
        l
    }
}

/// The lines of `s` after the unfinished line `cur`: a line ends at `\n`
/// (a `\r` before it is dropped); the last line needs no `\n`.
pub open spec fn lines_from(s: Seq<char>, cur: Seq<char>) -> Seq<Seq<char>>
    decreases s.len(),
{
    if s.len() == 0 {
        if cur.len() == 0 {
            seq![]
        } else {
            seq![cur]
        }
    } else if s[0] == '\n' {
        seq![strip_cr(cur)] + lines_from(s.drop_first(), seq![])
    } else {
        lines_from(s.drop_first(), cur.push(s[0]))
    }
}

pub open spec fn source_lines(s: Seq<char>) -> Seq<Seq<char>> {
    lines_from(s, seq![])
}

/// The parse of a source text so far: the parsed lines, the diagnostics and
/// the number of include directives met.
pub struct SourceParse {
    pub lines: Seq<LineView>,
    pub logs: Seq<LogView>,
    pub includes: nat,
}

pub open spec fn files_view(included: Seq<(Vec<Line>, Vec<Log>)>) -> Seq<(Seq<LineView>, Seq<LogView>)> {
    included.map_values(|f: (Vec<Line>, Vec<Log>)| (lines_view(f.0@), logs_view(f.1@)))
}

/// The parse of the source line `text`, numbered `n`; an include directive
/// splices in the next of the `included` files, if there is one.
pub open spec fn parse_step(
    st: SourceParse,
    text: Seq<char>,
    n: nat,
    origin: Seq<char>,
    included: Seq<(Seq<LineView>, Seq<LogView>)>,
) -> SourceParse {
    let t = lex(text);
    let spliced = if line_include(t) is Some && st.includes < included.len() {
        included[st.includes as int]
    } else {
        (seq![], seq![])
    };
    SourceParse {
        lines: st.lines + line_parsed(t, n, origin) + spliced.0,
        logs: st.logs + line_diagnostics(t, n, origin) + spliced.1,
        includes: if line_include(t) is Some {
            st.includes + 1
        } else {
            st.includes
        },
    }
}

/// The parse of the source lines `ls`.
pub open spec fn parse_lines(
    ls: Seq<Seq<char>>,
    origin: Seq<char>,
    included: Seq<(Seq<LineView>, Seq<LogView>)>,
) -> SourceParse
    decreases ls.len(),
{
    if ls.len() == 0 {
        SourceParse { lines: seq![], logs: seq![], includes: 0 }
    } else {
        parse_step(parse_lines(ls.drop_last(), origin, included), ls.last(), (ls.len() - 1) as nat, origin, included)
    }
}

/// The files that the source lines `ls` include, in order.
pub open spec fn include_list(ls: Seq<Seq<char>>) -> Seq<Seq<char>>
    decreases ls.len(),
{
    if ls.len() == 0 {
        seq![]
    } else {
        match line_include(lex(ls.last())) {
            Some(p) => include_list(ls.drop_last()).push(p),
            None => include_list(ls.drop_last()),
        }
    }
}

pub open spec fn origin_name(options: Option<&ParseOptions>) -> Seq<char> {
    match options {
        Some(o) => o.origin@,
        None => "[unknown]"@,
    }
}

/// Parses one line of characters, numbered `line`, appending its parsed
/// lines and diagnostics; returns the file it includes, if any.
pub fn parse_line(
    text: &Vec<char>,
    line: usize,
    origin: &String,
    lines: &mut Vec<Line>,
    logs: &mut Vec<Log>,
) -> (r: Option<String>)
    ensures
        lines_view(final(lines)@) == lines_view(old(lines)@) + line_parsed(lex(text@), line as nat, origin@),
        logs_view(final(logs)@) == logs_view(old(logs)@) + line_diagnostics(lex(text@), line as nat, origin@),
        r matches Some(p) ==> line_include(lex(text@)) == Some(p@),
        r is None ==> line_include(lex(text@)) is None,
{
    let t = lex_chars(text);
    let ghost tv = tokens_view(t@);
    let mut warnings: Vec<String> = Vec::new();
    let (label, end) = parse_tokens(&t, &mut warnings);
    let ghost lines0 = lines_view(lines@);
    if let Some(l) = label {
        lines.push(Line { origin: origin.clone(), line, data: LineData::Label(l) });
    }
    let ghost labelled = lines_view(lines@);
    assert(labelled =~= lines0 + match line_label(tv) {
        Some(l) => seq![LineView { origin: origin@, line: line as nat, data: LineDataView::Label(l) }],
        None => Seq::<LineView>::empty(),
    });
    let ghost logs0 = logs_view(logs@);
    let mut k: usize = 0;
    while k < warnings.len()
        invariant
            k <= warnings@.len(),
            logs_view(logs@) == logs0 + strings_view(warnings@).take(k as int).map_values(
                |m: Seq<char>| LogView::Warning(line as nat, m, origin@),
            ),
        decreases warnings@.len() - k,
    {
        let ghost before = logs_view(logs@);
        let w = warnings[k].clone();
        logs.push(Log::Warning(line, w, origin.clone()));
        assert(logs_view(logs@) =~= before.push(LogView::Warning(line as nat, warnings@[k as int]@, origin@)));
        assert(strings_view(warnings@).take(k + 1) =~= strings_view(warnings@).take(k as int).push(warnings@[k as int]@));
        assert(strings_view(warnings@).take(k + 1).map_values(
            |m: Seq<char>| LogView::Warning(line as nat, m, origin@),
        ) =~= strings_view(warnings@).take(k as int).map_values(
            |m: Seq<char>| LogView::Warning(line as nat, m, origin@),
        ).push(LogView::Warning(line as nat, warnings@[k as int]@, origin@)));
        assert(logs_view(logs@) =~= logs0 + strings_view(warnings@).take(k + 1).map_values(
            |m: Seq<char>| LogView::Warning(line as nat, m, origin@),
        ));
        k = k + 1;
    }
    assert(strings_view(warnings@).take(warnings@.len() as int) =~= line_outcome(tv).warnings);
    assert(logs_view(logs@) == logs0 + line_outcome(tv).warnings.map_values(
        |m: Seq<char>| LogView::Warning(line as nat, m, origin@),
    ));
    let ghost warned = logs_view(logs@);
    let r = match end {
        Parsed::Data(d) => {
            lines.push(Line { origin: origin.clone(), line, data: d });
            None
        },
        Parsed::Include(p) => Some(p),
        Parsed::Fail(m) => {
            logs.push(Log::Error(line, m, origin.clone()));
            assert(logs_view(logs@) =~= warned + seq![LogView::Error(line as nat, m@, origin@)]);
            None
        },
        Parsed::Note(m) => {
            logs.push(Log::Warning(line, m, origin.clone()));
            assert(logs_view(logs@) =~= warned + seq![LogView::Warning(line as nat, m@, origin@)]);
            None
        },
        Parsed::Nothing => None,
    };
    assert(lines_view(lines@) =~= lines0 + line_parsed(tv, line as nat, origin@));
    assert(logs_view(logs@) =~= logs0 + line_diagnostics(tv, line as nat, origin@));
    r
}

/// The included files not yet spliced in, last first.
spec fn pending_ok(pending: Seq<(Vec<Line>, Vec<Log>)>, included: Seq<(Vec<Line>, Vec<Log>)>, k: nat) -> bool {
    &&& pending.len() == (if k <= included.len() {
        included.len() - k
    } else {
        0
    })
    &&& forall|j: int| 0 <= j < pending.len() ==> pending[j] == included[included.len() - 1 - j]
}

/// Parses one source line and splices in the file it includes, if any.
fn splice_line(
    text: &Vec<char>,
    n: usize,
    origin: &String,
    lines: &mut Vec<Line>,
    logs: &mut Vec<Log>,
    pending: &mut Vec<(Vec<Line>, Vec<Log>)>,
    Ghost(st): Ghost<SourceParse>,
    Ghost(included): Ghost<Seq<(Vec<Line>, Vec<Log>)>>,
)
    requires
        lines_view(old(lines)@) == st.lines,
        logs_view(old(logs)@) == st.logs,
        pending_ok(old(pending)@, included, st.includes),
    ensures
        ({
            let next = parse_step(st, text@, n as nat, origin@, files_view(included));
            &&& lines_view(final(lines)@) == next.lines
            &&& logs_view(final(logs)@) == next.logs
            &&& pending_ok(final(pending)@, included, next.includes)
        }),
{
    let ghost t = lex(text@);
    let inc = parse_line(text, n, origin, lines, logs);
    let ghost lines1 = lines_view(lines@);
    let ghost logs1 = logs_view(logs@);
    if inc.is_some() {
        let ghost before = pending@;
        match pending.pop() {
            Some((mut l, mut g)) => {
                let ghost lv = lines_view(l@);
                let ghost gv = logs_view(g@);
                proof {
                    assert(before.len() > 0);
                    assert(st.includes < included.len());
                    assert(before[before.len() - 1] == included[st.includes as int]);
                    assert(files_view(included)[st.includes as int] == (lines_view(l@), logs_view(g@)));
                }
                lines.append(&mut l);
                logs.append(&mut g);
                proof {
                    assert(lines_view(lines@) =~= lines1 + lv);
                    assert(logs_view(logs@) =~= logs1 + gv);
                    assert forall|j: int| 0 <= j < pending@.len() implies pending@[j] == included[included.len() - 1 - j] by {
                        assert(pending@[j] == before[j]);
                    }
                }
            },
            None => {
                assert(lines_view(lines@) =~= lines1 + Seq::<LineView>::empty());
                assert(logs_view(logs@) =~= logs1 + Seq::<LogView>::empty());
            },
        }
    } else {
        assert(lines_view(lines@) =~= lines1 + Seq::<LineView>::empty());
        assert(logs_view(logs@) =~= logs1 + Seq::<LogView>::empty());
    }
}

pub open spec fn chars_view(v: Seq<Vec<char>>) -> Seq<Seq<char>> {
    v.map_values(|l: Vec<char>| l@)
}

/// Splits a source text into its lines.
pub fn split_lines(s: &Vec<char>) -> (r: Vec<Vec<char>>)
    ensures
        chars_view(r@) == source_lines(s@),
{
    let mut out: Vec<Vec<char>> = Vec::new();
    let mut cur: Vec<char> = Vec::new();
    let mut i: usize = 0;
    proof {
        assert(s@.skip(0) =~= s@);
        assert(source_lines(s@) =~= chars_view(out@) + lines_from(s@.skip(0), cur@));
    }
    while i < s.len()
        invariant
            i <= s@.len(),
            source_lines(s@) == chars_view(out@) + lines_from(s@.skip(i as int), cur@),
        decreases s@.len() - i,
    {
        proof {
            assert(s@.skip(i as int).drop_first() =~= s@.skip(i + 1));
            assert(s@.skip(i as int)[0] == s@[i as int]);
        }
        let ghost raw = cur@;
        let ghost before = chars_view(out@);
        if s[i] == '\n' {
            if cur.len() > 0 && cur[cur.len() - 1] == '\r' {
                cur.pop();
            }
            assert(cur@ =~= strip_cr(raw));
            out.push(cur);
            cur = Vec::new();
            assert(chars_view(out@) =~= before.push(strip_cr(raw)));
            assert(source_lines(s@) =~= chars_view(out@) + lines_from(s@.skip(i + 1), cur@));
        } else {
            cur.push(s[i]);
            assert(cur@ =~= raw.push(s@[i as int]));
        }
        i = i + 1;
    }
    assert(s@.skip(i as int) =~= Seq::<char>::empty());
    if cur.len() > 0 {
        let ghost before = chars_view(out@);
        let ghost last = cur@;
        out.push(cur);
        assert(chars_view(out@) =~= before.push(last));
    }
    assert(chars_view(out@) =~= source_lines(s@));
    out
}

/// Parses a source text. `included` holds, in order, the parse of each file
/// that its include directives name (see `include_paths`); the k-th include
/// directive splices in the k-th of them, or nothing when there are fewer.
pub fn parse_raw(
    source: &str,
    options: Option<&ParseOptions>,
    included: Vec<(Vec<Line>, Vec<Log>)>,
) -> (r: (Vec<Line>, Vec<Log>))
    ensures
        lines_view(r.0@) == parse_lines(source_lines(source@), origin_name(options), files_view(included@)).lines,
        logs_view(r.1@) == parse_lines(source_lines(source@), origin_name(options), files_view(included@)).logs,
{
    let origin = match options {
        Some(o) => o.origin.clone(),
        None => owned("[unknown]"),
    };
    let ghost inc = included@;
    let ghost files = files_view(inc);
    let mut included = included;
    let mut pending: Vec<(Vec<Line>, Vec<Log>)> = Vec::new();
    while included.len() > 0
        invariant
            inc.len() == included@.len() + pending@.len(),
            forall|j: int| 0 <= j < included@.len() ==> included@[j] == inc[j],
            forall|j: int| 0 <= j < pending@.len() ==> pending@[j] == inc[inc.len() - 1 - j],
        decreases included@.len(),
    {
        match included.pop() {
            Some(x) => {
                pending.push(x);
            },
            None => {},
        }
    }
    let s = chars_of(source);
    let source_text = split_lines(&s);
    let ghost ls = chars_view(source_text@);
    let mut lines: Vec<Line> = Vec::new();
    let mut logs: Vec<Log> = Vec::new();
    let mut k: usize = 0;
    proof {
        assert(ls.take(0) =~= Seq::<Seq<char>>::empty());
        assert(lines_view(lines@) =~= Seq::<LineView>::empty());
        assert(logs_view(logs@) =~= Seq::<LogView>::empty());
    }
    while k < source_text.len()
        invariant
            k <= source_text@.len(),
            ls == chars_view(source_text@),
            lines_view(lines@) == parse_lines(ls.take(k as int), origin@, files).lines,
            logs_view(logs@) == parse_lines(ls.take(k as int), origin@, files).logs,
            pending_ok(pending@, inc, parse_lines(ls.take(k as int), origin@, files).includes),
            files == files_view(inc),
        decreases source_text@.len() - k,
    {
        proof {
            assert(ls.take(k + 1).drop_last() =~= ls.take(k as int));
            assert(ls.take(k + 1).last() == source_text@[k as int]@);
        }
        splice_line(
            &source_text[k],
            k,
            &origin,
            &mut lines,
            &mut logs,
            &mut pending,
            Ghost(parse_lines(ls.take(k as int), origin@, files)),
            Ghost(inc),
        );
        k = k + 1;
    }
    proof {
        assert(ls.take(k as int) =~= ls);
    }
    (lines, logs)
}

/// The files that the include directives of a source text name, in order.
pub fn include_paths(source: &str) -> (r: Vec<String>)
    ensures
        strings_view(r@) == include_list(source_lines(source@)),
{
    let s = chars_of(source);
    let source_text = split_lines(&s);
    let ghost ls = chars_view(source_text@);
    let mut out: Vec<String> = Vec::new();
    let mut k: usize = 0;
    proof {
        assert(ls.take(0) =~= Seq::<Seq<char>>::empty());
        assert(strings_view(out@) =~= Seq::<Seq<char>>::empty());
    }
    while k < source_text.len()
        invariant
            k <= source_text@.len(),
            ls == chars_view(source_text@),
            strings_view(out@) == include_list(ls.take(k as int)),
        decreases source_text@.len() - k,
    {
        proof {
            assert(ls.take(k + 1).drop_last() =~= ls.take(k as int));
            assert(ls.take(k + 1).last() == source_text@[k as int]@);
        }
        let t = lex_chars(&source_text[k]);
        let mut warnings: Vec<String> = Vec::new();
        let (_label, end) = parse_tokens(&t, &mut warnings);
        if let Parsed::Include(p) = end {
            let ghost before = strings_view(out@);
            out.push(p);
            assert(strings_view(out@) =~= before.push(p@));
        }
        k = k + 1;
    }
    proof {
        assert(ls.take(k as int) =~= ls);
    }
    out
}

} // verus!
