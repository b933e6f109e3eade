//! Translation of VM commands into Hack assembly lines.
use vstd::prelude::*;
use crate::name_map::NameMap;
use crate::text::{decimal, decimal_string, lemma_decimal_injective};
use crate::vm::instr::{listing, jump_text, render, set_text, Cond, Dst, Ins, Op};
use crate::vm::parser::{Bin, Cmd, CmdModel, Comp, Math, Neg, Segment};
use crate::vm::writer_model::{emit, WriterModel};

verus! {

// ---------------------------------------------------------------------------
// The assembly of each helper
// ---------------------------------------------------------------------------

/// `@name`
pub open spec fn at(x: Seq<char>) -> Seq<Ins> {
    seq![Ins::AtSym(x)]
}

/// `dst=op`
pub open spec fn asg(d: Dst, o: Op) -> Seq<Ins> {
    seq![Ins::Assign(d, o)]
}

/// Points A at the top element of the stack.
pub open spec fn stack_peak() -> Seq<Ins> {
    at("SP"@) + asg(Dst::A, Op::MMinusOne)
}

/// Pops the stack into D.
pub open spec fn stack_pop_read() -> Seq<Ins> {
    at("SP"@) + asg(Dst::AM, Op::MMinusOne) + asg(Dst::D, Op::M)
}

/// Pushes D: stores it at the stack pointer and moves the pointer up.
pub open spec fn stack_push() -> Seq<Ins> {
    at("SP"@) + asg(Dst::A, Op::M) + asg(Dst::M, Op::D) + at("SP"@) + asg(Dst::M, Op::MPlusOne)
}

/// Loads a constant into D.
pub open spec fn cache_const(v: nat) -> Seq<Ins> {
    seq![Ins::AtNum(v)] + asg(Dst::D, Op::A)
}

/// The base-pointer register of a dynamic segment.
pub open spec fn segment_register(seg: Segment) -> Seq<char> {
    match seg {
        Segment::Local => "LCL"@,
        Segment::Argument => "ARG"@,
        Segment::This => "THIS"@,
        _ => "THAT"@,
    }
}

/// Whether the segment has a base pointer.
pub open spec fn is_dynamic(seg: Segment) -> bool {
    seg == Segment::Local || seg == Segment::Argument || seg == Segment::This || seg
        == Segment::That
}

/// The current count of an internal-label prefix.
pub open spec fn label_count(labels: Map<Seq<char>, u32>, prefix: Seq<char>) -> u32 {
    if labels.contains_key(prefix) {
        labels[prefix]
    } else {
        0
    }
}

/// The name of a label of the current function.
pub open spec fn external_label(function: Seq<char>, label: Seq<char>) -> Seq<char> {
    function + "$"@ + label
}

/// The address of a static variable.
pub open spec fn static_name(file: Seq<char>, index: u32) -> Seq<char> {
    file + "."@ + decimal(index as nat)
}

/// The register that the pointer segment's offset names.
pub open spec fn pointer_register(index: u32) -> Seq<char> {
    if index == 0 { "THIS"@ } else { "THAT"@ }
}

/// The assembly of a push.
pub open spec fn push_ins(file: Seq<char>, seg: Segment, index: u32) -> Seq<Ins> {
    (match seg {
        Segment::Constant => cache_const(index as nat),
        Segment::Static => at(static_name(file, index)) + asg(Dst::D, Op::M),
        Segment::Temp => seq![Ins::AtNum((5 + index) as nat)] + asg(Dst::D, Op::M),
        Segment::Pointer => at(pointer_register(index)) + asg(Dst::D, Op::M),
        _ => at(segment_register(seg)) + asg(Dst::D, Op::M) + seq![Ins::AtNum(index as nat)]
            + asg(Dst::A, Op::DPlusA) + asg(Dst::D, Op::M),
    }) + stack_push()
}

/// The assembly of a pop (none for the constant segment).
pub open spec fn pop_ins(file: Seq<char>, seg: Segment, index: u32) -> Seq<Ins> {
    match seg {
        Segment::Constant => Seq::empty(),
        Segment::Static => stack_pop_read() + at(static_name(file, index)) + asg(Dst::M, Op::D),
        Segment::Temp => stack_pop_read() + seq![Ins::AtNum((5 + index) as nat)] + asg(
            Dst::M,
            Op::D,
        ),
        Segment::Pointer => stack_pop_read() + at(pointer_register(index)) + asg(Dst::M, Op::D),
        _ => at(segment_register(seg)) + asg(Dst::D, Op::M) + seq![Ins::AtNum(index as nat)] + asg(
            Dst::D,
            Op::DPlusA,
        ) + at("R14"@) + asg(Dst::M, Op::D) + stack_pop_read() + at("R14"@) + asg(Dst::A, Op::M)
            + asg(Dst::M, Op::D),
    }
}

/// The routine that a comparison jumps to.
pub open spec fn comparison_entry(c: Comp) -> Seq<char> {
    match c {
        Comp::Eq => "ENTER_EQ"@,
        Comp::Gt => "ENTER_GT"@,
        Comp::Lt => "ENTER_LT"@,
    }
}

/// The computation of a binary command, on the two operands.
pub open spec fn bin_op(op: Bin) -> Op {
    match op {
        Bin::Add => Op::DPlusM,
        Bin::Sub => Op::MMinusD,
        Bin::And => Op::MAndD,
        Bin::Or => Op::MOrD,
    }
}

/// `0;JMP`
pub open spec fn goto_a() -> Seq<Ins> {
    seq![Ins::Jump(Op::Zero, Cond::JMP)]
}

/// The assembly of an arithmetic command, given the return label of a comparison.
pub open spec fn math_ins(m: Math, ret: Seq<char>) -> Seq<Ins> {
    match m {
        Math::Neg(op) => stack_peak() + asg(
            Dst::M,
            match op {
                Neg::Not => Op::NotM,
                Neg::Neg => Op::NegM,
            },
        ),
        Math::Bin(op) => stack_pop_read() + asg(Dst::A, Op::AMinusOne) + asg(Dst::M, bin_op(op)),
        Math::Comp(c) => at(ret) + asg(Dst::D, Op::A) + at(comparison_entry(c)) + goto_a()
            + seq![Ins::Label(ret)],
    }
}

/// The assembly that allocates `n` zeroed locals.
pub open spec fn zero_locals(n: nat) -> Seq<Ins>
    decreases n,
{
    if n == 0 {
        Seq::empty()
    } else {
        zero_locals((n - 1) as nat) + cache_const(0) + stack_push()
    }
}

/// The assembly of a call, given its return label: the argument count in
/// R13, the callee in R14, the return address in D, then the jump to the
/// shared call routine.
pub open spec fn call_ins(function: Seq<char>, n_args: u32, ret: Seq<char>) -> Seq<Ins> {
    cache_const(n_args as nat) + at("R13"@) + asg(Dst::M, Op::D) + at(function) + asg(
        Dst::D,
        Op::A,
    ) + at("R14"@) + asg(Dst::M, Op::D) + at(ret) + asg(Dst::D, Op::A) + at("ENTER_CALL"@)
        + goto_a() + seq![Ins::Label(ret)]
}

/// The writer after taking the next label with `prefix`, and that label.
pub open spec fn take_label(m: WriterModel, prefix: Seq<char>) -> (WriterModel, Seq<char>) {
    let n = label_count(m.labels, prefix);
    (
        WriterModel { labels: m.labels.insert(prefix, (n + 1) as u32), ..m },
        prefix + decimal(n as nat),
    )
}

/// Whether the writer can take `cmd` without a counter or an index
/// overflowing.
pub open spec fn fits(m: WriterModel, cmd: CmdModel) -> bool {
    &&& label_count(m.labels, "COMP_RTRN"@) < 0xffff_ffff
    &&& label_count(m.labels, "RTRN_CALL"@) < 0xffff_ffff
    &&& match cmd {
        CmdModel::Push(Segment::Temp, i) => i <= 0xffff_ffff - 5,
        CmdModel::Pop(Segment::Temp, i) => i <= 0xffff_ffff - 5,
        _ => true,
    }
}

/// The writer after an arithmetic command; a comparison takes a return label.
pub open spec fn math_step(m: WriterModel, op: Math) -> WriterModel {
    match op {
        Math::Comp(c) => {
            let (m2, ret) = take_label(m, "COMP_RTRN"@);
            emit(m2, listing(math_ins(Math::Comp(c), ret)))
        },
        _ => emit(m, listing(math_ins(op, Seq::empty()))),
    }
}

/// The assembly of `if-goto l`: pop, and jump to `l` where the popped
/// value is zero.
pub open spec fn if_ins(target: Seq<char>) -> Seq<Ins> {
    stack_pop_read() + at(target) + seq![Ins::Jump(Op::D, Cond::JEQ)]
}

/// The assembly of a function's entry: its label and its zeroed locals.
pub open spec fn function_ins(f: Seq<char>, n: nat) -> Seq<Ins> {
    seq![Ins::Label(f)] + zero_locals(n)
}

/// The writer after a command, or the error for popping a constant.
pub open spec fn step(m: WriterModel, cmd: CmdModel) -> Result<WriterModel, Seq<char>> {
    match cmd {
        CmdModel::Math(op) => Ok(math_step(m, op)),
        CmdModel::Push(seg, i) => Ok(emit(m, listing(push_ins(m.file, seg, i)))),
        CmdModel::Pop(seg, i) => if seg == Segment::Constant {
            Err("Cannot pop constant"@)
        } else {
            Ok(emit(m, listing(pop_ins(m.file, seg, i))))
        },
        CmdModel::Label(l) => Ok(emit(m, listing(seq![Ins::Label(external_label(m.function, l))]))),
        CmdModel::Goto(l) => Ok(emit(m, listing(at(external_label(m.function, l)) + goto_a()))),
        CmdModel::If(l) => Ok(emit(m, listing(if_ins(external_label(m.function, l))))),
        CmdModel::Function(f, n) => Ok(
            emit(WriterModel { function: f, ..m }, listing(function_ins(f, n as nat))),
        ),
        CmdModel::Call(f, n) => {
            let (m2, ret) = take_label(m, "RTRN_CALL"@);
            Ok(emit(m2, listing(call_ins(f, n, ret))))
        },
        CmdModel::Return => Ok(emit(m, listing(at("ENTER_RTRN"@) + goto_a()))),
    }
}

/// The comparison routines' shared prologue: the return address saved in
/// R15, the operands popped, the result cell set to false.
pub open spec fn enter_macro() -> Seq<Ins> {
    at("R15"@) + asg(Dst::M, Op::D) + stack_pop_read() + asg(Dst::A, Op::AMinusOne) + asg(
        Dst::D,
        Op::MMinusD,
    ) + asg(Dst::M, Op::Zero)
}

/// A comparison routine: entry label, test, result, exit through R15.
pub open spec fn comparison_routine(name: Seq<char>, skip: Cond) -> Seq<Ins> {
    seq![Ins::Label("ENTER_"@ + name)] + enter_macro() + at("END_"@ + name) + seq![
        Ins::Jump(Op::D, skip),
    ] + stack_peak() + asg(Dst::M, Op::MinusOne) + seq![Ins::Label("END_"@ + name)] + at("R15"@)
        + asg(Dst::A, Op::M) + goto_a()
}

/// Restores a segment pointer from the frame, counting R14 down.
pub open spec fn frame_pop(seg: Segment) -> Seq<Ins> {
    at("R14"@) + asg(Dst::AM, Op::MMinusOne) + asg(Dst::D, Op::M) + at(segment_register(seg)) + asg(
        Dst::M,
        Op::D,
    )
}

/// Pushes a segment pointer.
pub open spec fn frame_stack_push(seg: Segment) -> Seq<Ins> {
    at(segment_register(seg)) + asg(Dst::D, Op::M) + stack_push()
}

/// Stack set up and a jump over the routines.
pub open spec fn boot_start() -> Seq<Ins> {
    cache_const(256) + at("SP"@) + asg(Dst::M, Op::D) + at("BOOTED"@) + goto_a()
}

/// Stack set up, jump over the routines, and the three comparison routines.
pub open spec fn boot_prefix() -> Seq<Ins> {
    boot_start() + comparison_routine("EQ"@, Cond::JNE) + comparison_routine("GT"@, Cond::JLE)
        + comparison_routine("LT"@, Cond::JGE)
}

/// The return routine's start: the return address saved in R13.
pub open spec fn return_head() -> Seq<Ins> {
    seq![Ins::Label("ENTER_RTRN"@)] + cache_const(5) + at("LCL"@) + asg(Dst::A, Op::MMinusD) + asg(
        Dst::D,
        Op::M,
    ) + at("R13"@) + asg(Dst::M, Op::D)
}

/// The return routine's middle: the return value stored, the stack reset,
/// the frame's end kept in R14.
pub open spec fn return_body() -> Seq<Ins> {
    stack_pop_read() + at("ARG"@) + asg(Dst::A, Op::M) + asg(Dst::M, Op::D) + asg(Dst::D, Op::A)
        + at("SP"@) + asg(Dst::M, Op::DPlusOne) + at("LCL"@) + asg(Dst::D, Op::M) + at("R14"@)
        + asg(Dst::M, Op::D)
}

/// The return routine's end: the caller's segments restored, the jump back.
pub open spec fn return_tail() -> Seq<Ins> {
    frame_pop(Segment::That) + frame_pop(Segment::This) + frame_pop(Segment::Argument) + frame_pop(
        Segment::Local,
    ) + at("R13"@) + asg(Dst::A, Op::M) + goto_a()
}

/// The shared return routine.
pub open spec fn return_routine() -> Seq<Ins> {
    return_head() + return_body() + return_tail()
}

/// The call routine's start: the return address and the frame pushed.
pub open spec fn call_head() -> Seq<Ins> {
    seq![Ins::Label("ENTER_CALL"@)] + stack_push() + frame_stack_push(Segment::Local)
        + frame_stack_push(Segment::Argument) + frame_stack_push(Segment::This) + frame_stack_push(
        Segment::That,
    )
}

/// The call routine's end: ARG and LCL set, the jump to the callee.
pub open spec fn call_tail() -> Seq<Ins> {
    at("R13"@) + asg(Dst::D, Op::M) + seq![Ins::AtNum(5)] + asg(Dst::D, Op::DPlusA) + at("SP"@)
        + asg(Dst::D, Op::MMinusD) + at("ARG"@) + asg(Dst::M, Op::D) + at("SP"@) + asg(Dst::D, Op::M)
        + at("LCL"@) + asg(Dst::M, Op::D) + at("R14"@) + asg(Dst::A, Op::M) + goto_a()
}

/// The shared call routine, followed by the `BOOTED` label.
pub open spec fn call_routine() -> Seq<Ins> {
    call_head() + call_tail() + seq![Ins::Label("BOOTED"@)]
}

/// The bootstrap and shared routines, up to the `BOOTED` label.
pub open spec fn bootstrap_ins() -> Seq<Ins> {
    boot_prefix() + return_routine() + call_routine()
}

/// The writer after the bootstrap: the shared routines, then a call of `Sys.init`.
pub open spec fn init_step(m: WriterModel) -> WriterModel {
    let (m2, ret) = take_label(emit(m, listing(bootstrap_ins())), "RTRN_CALL"@);
    emit(m2, listing(call_ins("Sys.init"@, 0, ret)))
}

// ---------------------------------------------------------------------------
// Laws of the writer
// ---------------------------------------------------------------------------

/// A comparison writes its code with the return label `COMP_RTRN<n>`, `n`
/// the comparisons written before, and counts one more.
pub proof fn lemma_comparison_label(m: WriterModel, c: Comp)
    requires
        label_count(m.labels, "COMP_RTRN"@) < 0xffff_ffff,
    ensures
        step(m, CmdModel::Math(Math::Comp(c))) matches Ok(m1) && m1.lines == m.lines + listing(math_ins(
            Math::Comp(c),
            "COMP_RTRN"@ + decimal(label_count(m.labels, "COMP_RTRN"@) as nat),
        )) && label_count(m1.labels, "COMP_RTRN"@) == label_count(m.labels, "COMP_RTRN"@) + 1,
{
}

/// A call writes its code with the return label `RTRN_CALL<n>`, `n` the
/// calls written before, and counts one more.
pub proof fn lemma_call_label(m: WriterModel, f: Seq<char>, n_args: u32)
    requires
        label_count(m.labels, "RTRN_CALL"@) < 0xffff_ffff,
    ensures
        step(m, CmdModel::Call(f, n_args)) matches Ok(m1) && m1.lines == m.lines + listing(call_ins(
            f,
            n_args,
            "RTRN_CALL"@ + decimal(label_count(m.labels, "RTRN_CALL"@) as nat),
        )) && label_count(m1.labels, "RTRN_CALL"@) == label_count(m.labels, "RTRN_CALL"@) + 1,
{
}

/// The return labels that the writer takes at different counts differ, so
/// no two comparisons or calls share one.
pub proof fn lemma_return_labels_distinct(prefix: Seq<char>, a: nat, b: nat)
    requires
        a != b,
    ensures
        prefix + decimal(a) != prefix + decimal(b),
{
    if prefix + decimal(a) == prefix + decimal(b) {
        assert((prefix + decimal(a)).skip(prefix.len() as int) =~= decimal(a));
        assert((prefix + decimal(b)).skip(prefix.len() as int) =~= decimal(b));
        lemma_decimal_injective(a, b);
    }
}

/// The one command that the writer refuses is a pop into the constant
/// segment; every other command is written, appending to what was there.
pub proof fn lemma_step_refuses_only_constant_pop(m: WriterModel, cmd: CmdModel)
    ensures
        step(m, cmd) is Err <==> cmd matches CmdModel::Pop(Segment::Constant, _),
        step(m, cmd) matches Ok(m1) ==> m1.lines.take(m.lines.len() as int) == m.lines
            && m1.file == m.file,
{
    if let Ok(m1) = step(m, cmd) {
        assert(m1.lines.take(m.lines.len() as int) =~= m.lines);
    }
}

// ---------------------------------------------------------------------------
// The writer
// ---------------------------------------------------------------------------

/// Writes the assembly of VM commands, one line at a time.
pub struct CodeWriter {
    current_file: String,
    current_function: String,
    label_map: NameMap<u32>,
    lines: Vec<String>,
}

impl View for CodeWriter {
    type V = WriterModel;

    closed spec fn view(&self) -> WriterModel {
        WriterModel {
            file: self.current_file@,
            function: self.current_function@,
            labels: self.label_map@,
            lines: self.lines@.map_values(|s: String| s@),
        }
    }
}

impl CodeWriter {
    /// The writer is well formed.
    pub closed spec fn wf(&self) -> bool {
        self.label_map.wf()
    }

    /// A writer with nothing written, in file `Sys` and function `init`.
    pub fn new() -> (r: Self)
        ensures
            r.wf(),
            r@ == (WriterModel {
                file: "Sys"@,
                function: "init"@,
                labels: Map::empty(),
                lines: Seq::empty(),
            }),
    {
        let r = CodeWriter {
            current_file: String::from_str("Sys"),
            current_function: String::from_str("init"),
            label_map: NameMap::new(),
            lines: Vec::new(),
        };
        assert(r.lines@.map_values(|s: String| s@) =~= Seq::<Seq<char>>::empty());
        r
    }

    /// The assembly lines written so far.
    pub fn lines(&self) -> (r: &Vec<String>)
        ensures
            r@.map_values(|s: String| s@) == self@.lines,
    {
        &self.lines
    }

    /// Names the file whose commands come next (it names static variables).
    pub fn set_file_name(&mut self, name: &str)
        ensures
            final(self).wf() == old(self).wf(),
            final(self)@ == (WriterModel { file: name@, ..old(self)@ }),
    {
        self.current_file = String::from_str(name);
    }

    fn put(&mut self, line: String)
        ensures
            final(self).wf() == old(self).wf(),
            final(self)@ == emit(old(self)@, seq![line@]),
    {
        let ghost before = self.lines@.map_values(|s: String| s@);
        let ghost lv = line@;
        self.lines.push(line);
        assert(self.lines@.map_values(|s: String| s@) =~= before + seq![lv]);
    }

    /// Writes one instruction, given its text.
    fn put_ins(&mut self, line: String, Ghost(i): Ghost<Ins>)
        requires
            line@ == render(i),
        ensures
            final(self).wf() == old(self).wf(),
            final(self)@ == emit(old(self)@, listing(seq![i])),
    {
        assert(listing(seq![i]) =~= seq![line@]);
        self.put(line);
    }

    fn at(&mut self, addr: &str)
        ensures
            final(self).wf() == old(self).wf(),
            final(self)@ == emit(old(self)@, listing(at(addr@))),
    {
        let mut s = String::from_str("@");
        s.append(addr);
        self.put_ins(s, Ghost(Ins::AtSym(addr@)));
    }

    fn at_num(&mut self, n: u64)
        ensures
            final(self).wf() == old(self).wf(),
            final(self)@ == emit(old(self)@, listing(seq![Ins::AtNum(n as nat)])),
    {
        let d = decimal_string(n);
        let mut s = String::from_str("@");
        s.append(d.as_str());
        self.put_ins(s, Ghost(Ins::AtNum(n as nat)));
    }

    fn set(&mut self, d: Dst, o: Op)
        ensures
            final(self).wf() == old(self).wf(),
            final(self)@ == emit(old(self)@, listing(asg(d, o))),
    {
        self.put_ins(set_text(d, o), Ghost(Ins::Assign(d, o)));
    }

    fn jump(&mut self, o: Op, c: Cond)
        ensures
            final(self).wf() == old(self).wf(),
            final(self)@ == emit(old(self)@, listing(seq![Ins::Jump(o, c)])),
    {
        self.put_ins(jump_text(o, c), Ghost(Ins::Jump(o, c)));
    }

    fn wrapped(&mut self, label: &str)
        ensures
            final(self).wf() == old(self).wf(),
            final(self)@ == emit(old(self)@, listing(seq![Ins::Label(label@)])),
    {
        let mut s = String::from_str("(");
        s.append(label);
        s.append(")");
        self.put_ins(s, Ghost(Ins::Label(label@)));
    }

    fn stack_peak(&mut self)
        ensures
            final(self).wf() == old(self).wf(),
            final(self)@ == emit(old(self)@, listing(stack_peak())),
    {
        self.at("SP");
        self.set(Dst::A, Op::MMinusOne);
        assert(self@.lines =~= old(self)@.lines + listing(stack_peak()));
    }

    fn stack_pop_read(&mut self)
        ensures
            final(self).wf() == old(self).wf(),
            final(self)@ == emit(old(self)@, listing(stack_pop_read())),
    {
        self.at("SP");
        self.set(Dst::AM, Op::MMinusOne);
        self.set(Dst::D, Op::M);
        assert(self@.lines =~= old(self)@.lines + listing(stack_pop_read()));
    }

    fn stack_push(&mut self)
        ensures
            final(self).wf() == old(self).wf(),
            final(self)@ == emit(old(self)@, listing(stack_push())),
    {
        self.at("SP");
        self.set(Dst::A, Op::M);
        self.set(Dst::M, Op::D);
        self.at("SP");
        self.set(Dst::M, Op::MPlusOne);
        assert(self@.lines =~= old(self)@.lines + listing(stack_push()));
    }

    fn cache_const(&mut self, val: u64)
        ensures
            final(self).wf() == old(self).wf(),
            final(self)@ == emit(old(self)@, listing(cache_const(val as nat))),
    {
        self.at_num(val);
        self.set(Dst::D, Op::A);
        assert(self@.lines =~= old(self)@.lines + listing(cache_const(val as nat)));
    }

    fn at_segment(&mut self, seg: Segment)
        requires
            is_dynamic(seg),
        ensures
            final(self).wf() == old(self).wf(),
            final(self)@ == emit(old(self)@, listing(at(segment_register(seg)))),
    {
        match seg {
            Segment::Local => self.at("LCL"),
            Segment::Argument => self.at("ARG"),
            Segment::This => self.at("THIS"),
            _ => self.at("THAT"),
        }
    }

    fn external_label(&self, label: &str) -> (r: String)
        ensures
            r@ == external_label(self@.function, label@),
    {
        let mut s = self.current_function.clone();
        s.append("$");
        s.append(label);
        s
    }

    fn static_name(&self, index: u32) -> (r: String)
        ensures
            r@ == static_name(self@.file, index),
    {
        let d = decimal_string(index as u64);
        let mut s = self.current_file.clone();
        s.append(".");
        s.append(d.as_str());
        s
    }

    /// The next label with `prefix`; each prefix counts from 0.
    fn internal_label(&mut self, prefix: &str) -> (r: String)
        requires
            old(self).wf(),
            label_count(old(self)@.labels, prefix@) < 0xffff_ffff,
        ensures
            final(self).wf(),
            (final(self)@, r@) == take_label(old(self)@, prefix@),
    {
        let count: u32 = match self.label_map.get(prefix) {
            Some(c) => *c,
            None => 0,
        };
        let d = decimal_string(count as u64);
        let mut label = String::from_str(prefix);
        label.append(d.as_str());
        self.label_map.insert(String::from_str(prefix), count + 1);
        label
    }

    fn arithmetic(&mut self, math: Math)
        requires
            old(self).wf(),
            label_count(old(self)@.labels, "COMP_RTRN"@) < 0xffff_ffff,
        ensures
            final(self).wf(),
            final(self)@ == math_step(old(self)@, math),
    {
        match math {
            Math::Neg(op) => {
                self.stack_peak();
                match op {
                    Neg::Not => self.set(Dst::M, Op::NotM),
                    Neg::Neg => self.set(Dst::M, Op::NegM),
                }
            },
            Math::Bin(op) => {
                self.stack_pop_read();
                self.set(Dst::A, Op::AMinusOne);
                let o = match op {
                    Bin::Add => Op::DPlusM,
                    Bin::Sub => Op::MMinusD,
                    Bin::And => Op::MAndD,
                    Bin::Or => Op::MOrD,
                };
                self.set(Dst::M, o);
            },
            Math::Comp(op) => {
                let label = self.internal_label("COMP_RTRN");
                self.at(label.as_str());
                self.set(Dst::D, Op::A);
                match op {
                    Comp::Eq => self.at("ENTER_EQ"),
                    Comp::Gt => self.at("ENTER_GT"),
                    Comp::Lt => self.at("ENTER_LT"),
                }
                self.jump(Op::Zero, Cond::JMP);
                self.wrapped(label.as_str());
            },
        }
        assert(self@.lines =~= math_step(old(self)@, math).lines);
    }

    fn push(&mut self, seg: Segment, index: u32)
        requires
            seg == Segment::Temp ==> index <= 0xffff_ffff - 5,
        ensures
            final(self).wf() == old(self).wf(),
            final(self)@ == emit(old(self)@, listing(push_ins(old(self)@.file, seg, index))),
    {
        match seg {
            Segment::Constant => {
                self.cache_const(index as u64);
            },
            Segment::Static => {
                let name = self.static_name(index);
                self.at(name.as_str());
                self.set(Dst::D, Op::M);
            },
            Segment::Temp => {
                self.at_num((5 + index) as u64);
                self.set(Dst::D, Op::M);
            },
            Segment::Pointer => {
                self.at(if index == 0 { "THIS" } else { "THAT" });
                self.set(Dst::D, Op::M);
            },
            _ => {
                self.at_segment(seg);
                self.set(Dst::D, Op::M);
                self.at_num(index as u64);
                self.set(Dst::A, Op::DPlusA);
                self.set(Dst::D, Op::M);
            },
        }
        self.stack_push();
        assert(self@.lines =~= old(self)@.lines + listing(push_ins(old(self)@.file, seg, index)));
    }

    fn pop(&mut self, seg: Segment, index: u32)
        requires
            seg != Segment::Constant,
            seg == Segment::Temp ==> index <= 0xffff_ffff - 5,
        ensures
            final(self).wf() == old(self).wf(),
            final(self)@ == emit(old(self)@, listing(pop_ins(old(self)@.file, seg, index))),
    {
        match seg {
            Segment::Static => {
                self.stack_pop_read();
                let name = self.static_name(index);
                self.at(name.as_str());
                self.set(Dst::M, Op::D);
            },
            Segment::Temp => {
                self.stack_pop_read();
                self.at_num((5 + index) as u64);
                self.set(Dst::M, Op::D);
            },
            Segment::Pointer => {
                self.stack_pop_read();
                self.at(if index == 0 { "THIS" } else { "THAT" });
                self.set(Dst::M, Op::D);
            },
            _ => {
                self.at_segment(seg);
                self.set(Dst::D, Op::M);
                self.at_num(index as u64);
                self.set(Dst::D, Op::DPlusA);
                self.at("R14");
                self.set(Dst::M, Op::D);
                self.stack_pop_read();
                self.at("R14");
                self.set(Dst::A, Op::M);
                self.set(Dst::M, Op::D);
            },
        }
        assert(self@.lines =~= old(self)@.lines + listing(pop_ins(old(self)@.file, seg, index)));
    }

    fn function(&mut self, function: &str, n_vars: u32)
        ensures
            final(self).wf() == old(self).wf(),
            final(self)@ == emit(
                WriterModel { function: function@, ..old(self)@ },
                listing(function_ins(function@, n_vars as nat)),
            ),
    {
        self.current_function = String::from_str(function);
        self.wrapped(function);
        let ghost base = self@;
        assert(base.lines + listing(zero_locals(0)) =~= base.lines);
        let mut i: u32 = 0;
        while i < n_vars
            invariant
                i <= n_vars,
                self.wf() == old(self).wf(),
                self@ == emit(base, listing(zero_locals(i as nat))),
            decreases n_vars - i,
        {
            self.cache_const(0);
            self.stack_push();
            assert(self@.lines =~= base.lines + listing(zero_locals((i + 1) as nat)));
            i = i + 1;
        }
        assert(self@.lines =~= old(self)@.lines + listing(function_ins(function@, n_vars as nat)));
    }

    fn call(&mut self, function: &str, n_args: u32)
        requires
            old(self).wf(),
            label_count(old(self)@.labels, "RTRN_CALL"@) < 0xffff_ffff,
        ensures
            final(self).wf(),
            final(self)@ == emit(
                take_label(old(self)@, "RTRN_CALL"@).0,
                listing(call_ins(function@, n_args, take_label(old(self)@, "RTRN_CALL"@).1)),
            ),
    {
        let label = self.internal_label("RTRN_CALL");
        let ghost m1 = self@;
        self.cache_const(n_args as u64);
        self.at("R13");
        self.set(Dst::M, Op::D);
        self.at(function);
        self.set(Dst::D, Op::A);
        self.at("R14");
        self.set(Dst::M, Op::D);
        self.at(label.as_str());
        self.set(Dst::D, Op::A);
        self.at("ENTER_CALL");
        self.jump(Op::Zero, Cond::JMP);
        self.wrapped(label.as_str());
        assert(self@.lines =~= m1.lines + listing(call_ins(function@, n_args, label@)));
    }

    /// Writes the assembly of one command. Popping into the constant
    /// segment is refused.
    pub fn command(&mut self, cmd: Cmd) -> (r: Result<(), String>)
        requires
            old(self).wf(),
            fits(old(self)@, cmd@),
        ensures
            final(self).wf(),
            match r {
                Ok(()) => step(old(self)@, cmd@) == Ok::<WriterModel, Seq<char>>(final(self)@),
                Err(e) => step(old(self)@, cmd@) == Err::<WriterModel, Seq<char>>(e@) && final(self)@
                    == old(self)@,
            },
    {
        if let Cmd::Pop(Segment::Constant, _) = cmd {
            return Err(String::from_str("Cannot pop constant"));
        }
        match cmd {
            Cmd::Math(math) => self.arithmetic(math),
            Cmd::Push(seg, idx) => self.push(seg, idx),
            Cmd::Pop(seg, idx) => self.pop(seg, idx),
            Cmd::Label(label) => {
                let l = self.external_label(label.as_str());
                self.wrapped(l.as_str());
            },
            Cmd::Goto(label) => {
                let l = self.external_label(label.as_str());
                self.at(l.as_str());
                self.jump(Op::Zero, Cond::JMP);
                assert(self@.lines =~= old(self)@.lines + listing(at(l@) + goto_a()));
            },
            Cmd::If(label) => {
                self.stack_pop_read();
                let l = self.external_label(label.as_str());
                self.at(l.as_str());
                self.jump(Op::D, Cond::JEQ);
                assert(self@.lines =~= old(self)@.lines + listing(if_ins(l@)));
            },
            Cmd::Function(name, n_vars) => self.function(name.as_str(), n_vars),
            Cmd::Call(name, n_args) => self.call(name.as_str(), n_args),
            Cmd::Return => {
                self.at("ENTER_RTRN");
                self.jump(Op::Zero, Cond::JMP);
                assert(self@.lines =~= old(self)@.lines + listing(at("ENTER_RTRN"@) + goto_a()));
            },
        }
        Ok(())
    }

    fn enter_macro(&mut self)
        ensures
            final(self).wf() == old(self).wf(),
            final(self)@ == emit(old(self)@, listing(enter_macro())),
    {
        self.at("R15");
        self.set(Dst::M, Op::D);
        self.stack_pop_read();
        self.set(Dst::A, Op::AMinusOne);
        self.set(Dst::D, Op::MMinusD);
        self.set(Dst::M, Op::Zero);
        assert(self@.lines =~= old(self)@.lines + listing(enter_macro()));
    }

    fn comparison_routine(&mut self, name: &str, skip: Cond)
        ensures
            final(self).wf() == old(self).wf(),
            final(self)@ == emit(old(self)@, listing(comparison_routine(name@, skip))),
    {
        let mut entry = String::from_str("ENTER_");
        entry.append(name);
        self.wrapped(entry.as_str());
        self.enter_macro();
        let mut end = String::from_str("END_");
        end.append(name);
        self.at(end.as_str());
        self.jump(Op::D, skip);
        self.stack_peak();
        self.set(Dst::M, Op::MinusOne);
        self.wrapped(end.as_str());
        self.at("R15");
        self.set(Dst::A, Op::M);
        self.jump(Op::Zero, Cond::JMP);
        assert(self@.lines =~= old(self)@.lines + listing(comparison_routine(name@, skip)));
    }

    fn frame_pop(&mut self, seg: Segment)
        requires
            is_dynamic(seg),
        ensures
            final(self).wf() == old(self).wf(),
            final(self)@ == emit(old(self)@, listing(frame_pop(seg))),
    {
        self.at("R14");
        self.set(Dst::AM, Op::MMinusOne);
        self.set(Dst::D, Op::M);
        self.at_segment(seg);
        self.set(Dst::M, Op::D);
        assert(self@.lines =~= old(self)@.lines + listing(frame_pop(seg)));
    }

    fn frame_stack_push(&mut self, seg: Segment)
        requires
            is_dynamic(seg),
        ensures
            final(self).wf() == old(self).wf(),
            final(self)@ == emit(old(self)@, listing(frame_stack_push(seg))),
    {
        self.at_segment(seg);
        self.set(Dst::D, Op::M);
        self.stack_push();
        assert(self@.lines =~= old(self)@.lines + listing(frame_stack_push(seg)));
    }

    fn boot_prefix(&mut self)
        ensures
            final(self).wf() == old(self).wf(),
            final(self)@ == emit(old(self)@, listing(boot_prefix())),
    {
        self.cache_const(256);
        self.at("SP");
        self.set(Dst::M, Op::D);
        self.at("BOOTED");
        self.jump(Op::Zero, Cond::JMP);
        assert(self@.lines =~= old(self)@.lines + listing(boot_start()));
        self.comparison_routine("EQ", Cond::JNE);
        self.comparison_routine("GT", Cond::JLE);
        self.comparison_routine("LT", Cond::JGE);
        assert(self@.lines =~= old(self)@.lines + listing(boot_prefix()));
    }

    fn return_routine(&mut self)
        ensures
            final(self).wf() == old(self).wf(),
            final(self)@ == emit(old(self)@, listing(return_routine())),
    {
        self.wrapped("ENTER_RTRN");
        self.cache_const(5);
        self.at("LCL");
        self.set(Dst::A, Op::MMinusD);
        self.set(Dst::D, Op::M);
        self.at("R13");
        self.set(Dst::M, Op::D);
        assert(self@.lines =~= old(self)@.lines + listing(return_head()));
        let ghost m1 = self@;
        self.stack_pop_read();
        self.at("ARG");
        self.set(Dst::A, Op::M);
        self.set(Dst::M, Op::D);
        self.set(Dst::D, Op::A);
        self.at("SP");
        self.set(Dst::M, Op::DPlusOne);
        self.at("LCL");
        self.set(Dst::D, Op::M);
        self.at("R14");
        self.set(Dst::M, Op::D);
        assert(self@.lines =~= m1.lines + listing(return_body()));
        let ghost m2 = self@;
        self.frame_pop(Segment::That);
        self.frame_pop(Segment::This);
        self.frame_pop(Segment::Argument);
        self.frame_pop(Segment::Local);
        self.at("R13");
        self.set(Dst::A, Op::M);
        self.jump(Op::Zero, Cond::JMP);
        assert(self@.lines =~= m2.lines + listing(return_tail()));
        proof {
            crate::vm::instr::lemma_listing_add(return_head(), return_body());
            crate::vm::instr::lemma_listing_add(return_head() + return_body(), return_tail());
        }
        assert(self@.lines =~= old(self)@.lines + listing(return_routine()));
    }

    fn call_routine(&mut self)
        ensures
            final(self).wf() == old(self).wf(),
            final(self)@ == emit(old(self)@, listing(call_routine())),
    {
        self.wrapped("ENTER_CALL");
        self.stack_push();
        self.frame_stack_push(Segment::Local);
        self.frame_stack_push(Segment::Argument);
        self.frame_stack_push(Segment::This);
        self.frame_stack_push(Segment::That);
        assert(self@.lines =~= old(self)@.lines + listing(call_head()));
        let ghost m1 = self@;
        self.at("R13");
        self.set(Dst::D, Op::M);
        self.at_num(5);
        self.set(Dst::D, Op::DPlusA);
        self.at("SP");
        self.set(Dst::D, Op::MMinusD);
        self.at("ARG");
        self.set(Dst::M, Op::D);
        self.at("SP");
        self.set(Dst::D, Op::M);
        self.at("LCL");
        self.set(Dst::M, Op::D);
        self.at("R14");
        self.set(Dst::A, Op::M);
        self.jump(Op::Zero, Cond::JMP);
        assert(self@.lines =~= m1.lines + listing(call_tail()));
        let ghost m2 = self@;
        self.wrapped("BOOTED");
        proof {
            crate::vm::instr::lemma_listing_add(call_head(), call_tail());
            crate::vm::instr::lemma_listing_add(call_head() + call_tail(), seq![Ins::Label("BOOTED"@)]);
        }
        assert(self@.lines =~= old(self)@.lines + listing(call_routine()));
    }

    /// Writes the bootstrap: stack set to 256, the shared comparison, call
    /// and return routines, then a call of `Sys.init`.
    pub fn init(&mut self)
        requires
            old(self).wf(),
            label_count(old(self)@.labels, "RTRN_CALL"@) < 0xffff_ffff,
        ensures
            final(self).wf(),
            final(self)@ == init_step(old(self)@),
    {
        self.boot_prefix();
        let ghost m1 = self@;
        self.return_routine();
        let ghost m2 = self@;
        self.call_routine();
        proof {
            crate::vm::instr::lemma_listing_add(boot_prefix(), return_routine());
            crate::vm::instr::lemma_listing_add(boot_prefix() + return_routine(), call_routine());
        }
        assert(self@.lines =~= old(self)@.lines + listing(bootstrap_ins()));
        self.call("Sys.init", 0);
    }
}

} // verus!
