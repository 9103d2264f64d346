//! The virtual machine: one step of it as a function of its state, and the
//! executable machine that follows that function.

use vstd::prelude::*;

use crate::arena::{Arena, ArenaView};
use crate::instruction::{Instruction, StackAddress};
use crate::value::{
    add_spec, binary_spec, copy_values, display, entries_view, objects_view, bitwise_not_spec, get_spec, heap_view, logic_spec, neg_spec, not_spec,
    to_boolean, values_view, InstructionAddress, NumericOp, Object, ObjectView, Upcast, Value,
    ValueView,
};

verus! {

/// Why the machine stopped on corrupt bytecode.
#[derive(Debug, Clone, Copy, PartialEq, Eq, Structural)]
pub enum Fault {
    /// An instruction needed more operands than the stack holds.
    EmptyStack,
    /// A stack or global address outside the stack.
    BadAddress,
    /// A jump past the end of the instruction stream.
    BadJump,
    /// A return with no call to return from.
    CallStackUnderflow,
    /// A call of something that is neither a function nor a closure.
    NotCallable,
}

/// The state of a machine, apart from its instructions.
pub struct MachineView {
    pub ip: int,
    pub stack: Seq<ValueView>,
    pub globals: Seq<ValueView>,
    pub base: int,
    /// Saved `(return address, stack base)` pairs, innermost last.
    pub frames: Seq<(int, int)>,
    pub heap: ArenaView<ObjectView>,
}

/// The global area after `v` was stored at `a`; slots never written read as
/// `Undefined`.
pub open spec fn set_global(g: Seq<ValueView>, a: int, v: ValueView) -> Seq<ValueView> {
    if a < g.len() {
        g.update(a, v)
    } else {
        (g + undefineds((a - g.len()) as nat)).push(v)
    }
}

pub open spec fn undefineds(k: nat) -> Seq<ValueView> {
    Seq::new(k, |j: int| ValueView::Undefined)
}

pub open spec fn global_at(g: Seq<ValueView>, a: int) -> ValueView {
    if a < g.len() {
        g[a]
    } else {
        ValueView::Undefined
    }
}

pub open spec fn numeric_op(i: Instruction) -> Option<NumericOp> {
    match i {
        Instruction::Sub => Some(NumericOp::Sub),
        Instruction::Mul => Some(NumericOp::Mul),
        Instruction::Div => Some(NumericOp::Div),
        Instruction::Rem => Some(NumericOp::Rem),
        Instruction::BitwiseAnd => Some(NumericOp::BitAnd),
        Instruction::BitwiseOr => Some(NumericOp::BitOr),
        Instruction::BitwiseXor => Some(NumericOp::BitXor),
        Instruction::BitwiseShiftLeft => Some(NumericOp::ShiftLeft),
        Instruction::BitwiseShiftRight => Some(NumericOp::ShiftRight),
        Instruction::Equal => Some(NumericOp::Equal),
        Instruction::NotEqual => Some(NumericOp::NotEqual),
        Instruction::SmallerEqual => Some(NumericOp::SmallerEqual),
        Instruction::GreaterEqual => Some(NumericOp::GreaterEqual),
        _ => None,
    }
}

/// The entries of a map built from `w`: keys and values alternating, each
/// key coerced to a string.
pub open spec fn dict_entries(w: Seq<ValueView>, heap: Seq<ObjectView>) -> Seq<(Seq<char>, ValueView)> {
    Seq::new(w.len() / 2, |j: int| (display(w[2 * j], heap), w[2 * j + 1]))
}

/// The instructions that pop two operands and push one result.
pub open spec fn is_binary(i: Instruction) -> bool {
    numeric_op(i) is Some || i is Add || i is And || i is Or || i is Get
}

pub open spec fn binary_result(i: Instruction, l: ValueView, r: ValueView, heap: Seq<ObjectView>) -> ValueView {
    match i {
        Instruction::Add => add_spec(l, r, heap),
        Instruction::And => logic_spec(true, l, r),
        Instruction::Or => logic_spec(false, l, r),
        Instruction::Get => get_spec(l, r, heap),
        _ => match numeric_op(i) {
            Some(op) => binary_spec(op, l, r),
            None => ValueView::Undefined,
        },
    }
}

/// The instructions that pop one operand and push one result.
pub open spec fn is_unary(i: Instruction) -> bool {
    i is Not || i is Negation || i is BitwiseNot
}

pub open spec fn unary_result(i: Instruction, v: ValueView) -> ValueView {
    match i {
        Instruction::Not => not_spec(v),
        Instruction::Negation => neg_spec(v),
        _ => bitwise_not_spec(v),
    }
}

impl MachineView {
    pub open spec fn with_stack(self, ip: int, stack: Seq<ValueView>) -> MachineView {
        MachineView { ip, stack, ..self }
    }

    /// Enters a call of `entry` whose arguments lie on `stack`, with
    /// `locals` as the first slots of the new frame.
    pub open spec fn enter(self, stack: Seq<ValueView>, locals: Seq<ValueView>, entry: int) -> MachineView {
        MachineView {
            ip: entry,
            stack: stack + locals,
            base: stack.len() as int,
            frames: self.frames.push((self.ip + 1, self.base)),
            ..self
        }
    }

    /// Allocates `o` in the heap, replacing the top `k` stack values by a
    /// reference to it.
    pub open spec fn allocate(self, k: int, o: ObjectView) -> MachineView {
        MachineView {
            ip: self.ip + 1,
            stack: self.stack.take(self.stack.len() - k).push(ValueView::Reference(self.heap.next_index() as usize)),
            heap: self.heap.pushed(o),
            ..self
        }
    }
}

/// One fetch-decode-execute step of a running machine: the next state, or
/// the fault that stops it.
pub open spec fn step(code: Seq<Instruction>, m: MachineView) -> Result<MachineView, Fault> {
    let s = m.stack;
    let n = s.len() as int;
    let next = m.ip + 1;
    let i = code[m.ip];
    if is_binary(i) {
        if n < 2 {
            Err(Fault::EmptyStack)
        } else {
            Ok(m.with_stack(next, s.take(n - 2).push(binary_result(i, s[n - 2], s[n - 1], m.heap.slots))))
        }
    } else if is_unary(i) {
        if n < 1 {
            Err(Fault::EmptyStack)
        } else {
            Ok(m.with_stack(next, s.drop_last().push(unary_result(i, s[n - 1]))))
        }
    } else {
        match i {
            Instruction::StoreGlobal(a) => if n < 1 {
                Err(Fault::EmptyStack)
            } else if a < 0 {
                Err(Fault::BadAddress)
            } else {
                Ok(MachineView { ip: next, stack: s.drop_last(), globals: set_global(m.globals, a as int, s.last()), ..m })
            },
            Instruction::LoadGlobal(a) => if a < 0 {
                Err(Fault::BadAddress)
            } else {
                Ok(m.with_stack(next, s.push(global_at(m.globals, a as int))))
            },
            Instruction::Store(a) => if n < 1 {
                Err(Fault::EmptyStack)
            } else if !(0 <= m.base + a < n - 1) {
                Err(Fault::BadAddress)
            } else {
                Ok(m.with_stack(next, s.drop_last().update(m.base + a, s.last())))
            },
            Instruction::Load(a) => if !(0 <= m.base + a < n) {
                Err(Fault::BadAddress)
            } else {
                Ok(m.with_stack(next, s.push(s[m.base + a])))
            },
            Instruction::Push(v) => Ok(m.with_stack(next, s.push(v@))),
            Instruction::JumpStatic(a) => if a > code.len() {
                Err(Fault::BadJump)
            } else {
                Ok(m.with_stack(a as int, s))
            },
            Instruction::JumpConditional(a) => if n < 1 {
                Err(Fault::EmptyStack)
            } else if a > code.len() {
                Err(Fault::BadJump)
            } else {
                Ok(m.with_stack(if to_boolean(s.last()) { a as int } else { next }, s.drop_last()))
            },
            Instruction::Jump => if n < 1 {
                Err(Fault::EmptyStack)
            } else {
                match s.last() {
                    ValueView::FunctionPointer(a) => if a > code.len() {
                        Err(Fault::BadJump)
                    } else {
                        Ok(m.enter(s.drop_last(), Seq::empty(), a as int))
                    },
                    ValueView::Reference(r) => if r < m.heap.slots.len() {
                        match m.heap.slots[r as int] {
                            ObjectView::Closure { environment, function_pointer } => if function_pointer > code.len() {
                                Err(Fault::BadJump)
                            } else {
                                Ok(m.enter(s.drop_last(), environment, function_pointer as int))
                            },
                            _ => Err(Fault::NotCallable),
                        }
                    } else {
                        Err(Fault::NotCallable)
                    },
                    _ => Err(Fault::NotCallable),
                }
            },
            Instruction::Return => if m.frames.len() == 0 {
                Err(Fault::CallStackUnderflow)
            } else if n < 1 {
                Err(Fault::EmptyStack)
            } else if m.base > n - 1 {
                Err(Fault::BadAddress)
            } else {
                Ok(MachineView {
                    ip: m.frames.last().0,
                    base: m.frames.last().1,
                    stack: s.take(m.base).push(s.last()),
                    frames: m.frames.drop_last(),
                    ..m
                })
            },
            Instruction::MakeArray(k) => if n < k {
                Err(Fault::EmptyStack)
            } else {
                Ok(m.allocate(k as int, ObjectView::Array(s.subrange(n - k, n))))
            },
            Instruction::MakeDict(k) => if n / 2 < k {
                Err(Fault::EmptyStack)
            } else {
                Ok(m.allocate(2 * k, ObjectView::Dict(dict_entries(s.subrange(n - 2 * k, n), m.heap.slots))))
            },
            Instruction::MakeClosure(k, entry) => if n < k {
                Err(Fault::EmptyStack)
            } else {
                Ok(m.allocate(k as int, ObjectView::Closure { environment: s.subrange(n - k, n), function_pointer: entry }))
            },
            _ => Err(Fault::EmptyStack),
        }
    }
}

pub open spec fn frames_view(s: Seq<(usize, usize)>) -> Seq<(int, int)> {
    s.map_values(|f: (usize, usize)| (f.0 as int, f.1 as int))
}

/// Map entries from keys and values alternating in `w`, keys coerced to
/// strings.
fn make_entries(w: &Vec<Value>, arena: &Arena<Object>) -> (r: Vec<(String, Value)>)
    requires
        w@.len() % 2 == 0,
    ensures
        entries_view(r@) == dict_entries(values_view(w@), heap_view(*arena)),
{
    let ghost target = dict_entries(values_view(w@), heap_view(*arena));
    let mut r: Vec<(String, Value)> = Vec::new();
    let mut j: usize = 0;
    while j < w.len() / 2
        invariant
            w@.len() % 2 == 0,
            j <= w@.len() / 2,
            target == dict_entries(values_view(w@), heap_view(*arena)),
            entries_view(r@) == target.take(j as int),
        decreases w@.len() / 2 - j,
    {
        let key = w[2 * j].to_display(arena);
        let value = w[2 * j + 1].duplicate();
        let ghost before = r@;
        r.push((key, value));
        proof {
            assert(entries_view(r@) =~= entries_view(before).push((key@, value@)));
            assert(target.take(j + 1) =~= target.take(j as int).push(target[j as int]));
        }
        j = j + 1;
    }
    assert(target.take(j as int) =~= target);
    r
}

/// Extends the global area with `Undefined` up to `a` slots.
fn pad_globals(g: &mut Vec<Value>, a: usize)
    requires
        old(g)@.len() <= a,
    ensures
        values_view(final(g)@) == values_view(old(g)@) + undefineds((a - old(g)@.len()) as nat),
{
    let ghost start = values_view(g@);
    while g.len() < a
        invariant
            start.len() <= g@.len() <= a,
            values_view(g@) == start + undefineds((g@.len() - start.len()) as nat),
        decreases a - g.len(),
    {
        let ghost prev = values_view(g@);
        g.push(Value::Undefined);
        assert(values_view(g@) =~= prev.push(ValueView::Undefined));
        assert(undefineds((g@.len() - start.len()) as nat) =~= undefineds((prev.len() - start.len()) as nat).push(ValueView::Undefined));
        assert(values_view(g@) =~= start + undefineds((g@.len() - start.len()) as nat));
    }
}

/// A binary instruction applied to its two operands.
fn apply_binary(instr: &Instruction, left: Value, right: Value, arena: &Arena<Object>) -> (r: Value)
    requires
        is_binary(*instr),
    ensures
        r@ == binary_result(*instr, left@, right@, heap_view(*arena)),
{
    match instr {
        Instruction::Add => left.add(right, arena),
        Instruction::And => left.logic(right, true),
        Instruction::Or => left.logic(right, false),
        Instruction::Get => left.get(right, arena),
        Instruction::Sub => left.apply_numeric(NumericOp::Sub, right),
        Instruction::Mul => left.apply_numeric(NumericOp::Mul, right),
        Instruction::Div => left.apply_numeric(NumericOp::Div, right),
        Instruction::Rem => left.apply_numeric(NumericOp::Rem, right),
        Instruction::BitwiseAnd => left.apply_numeric(NumericOp::BitAnd, right),
        Instruction::BitwiseOr => left.apply_numeric(NumericOp::BitOr, right),
        Instruction::BitwiseXor => left.apply_numeric(NumericOp::BitXor, right),
        Instruction::BitwiseShiftLeft => left.apply_numeric(NumericOp::ShiftLeft, right),
        Instruction::BitwiseShiftRight => left.apply_numeric(NumericOp::ShiftRight, right),
        Instruction::Equal => left.apply_numeric(NumericOp::Equal, right),
        Instruction::NotEqual => left.apply_numeric(NumericOp::NotEqual, right),
        Instruction::SmallerEqual => left.apply_numeric(NumericOp::SmallerEqual, right),
        _ => left.apply_numeric(NumericOp::GreaterEqual, right),
    }
}

/// A unary instruction applied to its operand.
fn apply_unary(instr: &Instruction, v: Value) -> (r: Value)
    requires
        is_unary(*instr),
    ensures
        r@ == unary_result(*instr, v@),
{
    match instr {
        Instruction::Not => v.not(),
        Instruction::Negation => v.neg(),
        _ => v.bitwise_not(),
    }
}

/// Runs a machine for at most `budget` steps: the final state and whether it
/// halted (its instruction pointer past the last instruction), or the fault
/// that stopped it.
pub open spec fn run_spec(code: Seq<Instruction>, m: MachineView, budget: nat) -> Result<(MachineView, bool), Fault>
    decreases budget,
{
    if !(0 <= m.ip < code.len()) {
        Ok((m, true))
    } else if budget == 0 {
        Ok((m, false))
    } else {
        match step(code, m) {
            Ok(m2) => run_spec(code, m2, (budget - 1) as nat),
            Err(f) => Err(f),
        }
    }
}

/// A call followed by its matching return resumes the caller just after the
/// call, with the caller's stack base and saved frames. Of the stack, what
/// lay below the callee's frame stays and the return value sits on top; so
/// where the callee left the caller's part alone, that is the caller's stack
/// as it was before the call, without the callee, plus the return value.
pub proof fn lemma_call_return_round_trip(code: Seq<Instruction>, m: MachineView, t: MachineView)
    requires
        0 <= m.ip < code.len(),
        code[m.ip] is Jump,
        step(code, m) is Ok,
        0 <= t.ip < code.len(),
        code[t.ip] is Return,
        t.frames == step(code, m)->Ok_0.frames,
        t.base == step(code, m)->Ok_0.base,
        t.stack.len() > t.base,
    ensures
        step(code, t) is Ok,
        step(code, t)->Ok_0.ip == m.ip + 1,
        step(code, t)->Ok_0.base == m.base,
        step(code, t)->Ok_0.frames == m.frames,
        step(code, t)->Ok_0.stack == t.stack.take(m.stack.len() - 1).push(t.stack.last()),
        t.stack.take(t.base) == m.stack.drop_last() ==> step(code, t)->Ok_0.stack == m.stack.drop_last().push(t.stack.last()),
{
    let c = step(code, m)->Ok_0;
    assert(c.frames == m.frames.push((m.ip + 1, m.base)));
    assert(c.base == m.stack.len() - 1);
    assert(c.frames.drop_last() =~= m.frames);
}

/// Virtual stack machine that interprets instructions.
pub struct VirtualMachine {
    arena: Arena<Object>,
    stack: Vec<Value>,
    globals: Vec<Value>,
    instructions: Vec<Instruction>,
    instruction_pointer: InstructionAddress,
    stack_base: usize,
    call_stack: Vec<(InstructionAddress, usize)>,
}

impl View for VirtualMachine {
    type V = MachineView;

    closed spec fn view(&self) -> MachineView {
        MachineView {
            ip: self.instruction_pointer as int,
            stack: values_view(self.stack@),
            globals: values_view(self.globals@),
            base: self.stack_base as int,
            frames: frames_view(self.call_stack@),
            heap: ArenaView { slots: heap_view(self.arena), free: self.arena@.free },
        }
    }
}

impl VirtualMachine {
    /// The instruction stream.
    pub closed spec fn code(&self) -> Seq<Instruction> {
        self.instructions@
    }

    pub closed spec fn wf(&self) -> bool {
        self.arena@.wf()
    }

    /// A fresh machine at the start of `instructions`.
    pub fn new(instructions: Vec<Instruction>) -> (r: VirtualMachine)
        ensures
            r.wf(),
            r.code() == instructions@,
            r@.ip == 0,
            r@.stack == Seq::<ValueView>::empty(),
            r@.globals == Seq::<ValueView>::empty(),
            r@.base == 0,
            r@.frames == Seq::<(int, int)>::empty(),
            r@.heap.slots == Seq::<ObjectView>::empty(),
            r@.heap.free == Seq::<usize>::empty(),
    {
        let initial_stack_size: usize = 256;
        let r = VirtualMachine {
            arena: Arena::new(),
            stack: Vec::with_capacity(initial_stack_size),
            globals: Vec::new(),
            instructions,
            instruction_pointer: 0,
            stack_base: 0,
            call_stack: Vec::new(),
        };
        assert(r@.stack =~= Seq::<ValueView>::empty());
        assert(r@.globals =~= Seq::<ValueView>::empty());
        assert(r@.frames =~= Seq::<(int, int)>::empty());
        assert(r@.heap.slots =~= Seq::<ObjectView>::empty());
        r
    }

    /// Whether the instruction pointer has run past the last instruction.
    pub fn is_halted(&self) -> (r: bool)
        ensures
            r == !(self@.ip < self.code().len()),
    {
        self.instruction_pointer >= self.instructions.len()
    }

    /// Executes instructions until the machine halts, faults, or has taken
    /// `budget` steps; returns whether it halted.
    pub fn run(&mut self, budget: usize) -> (r: Result<bool, Fault>)
        requires
            old(self).wf(),
        ensures
            final(self).wf(),
            final(self).code() == old(self).code(),
            match run_spec(old(self).code(), old(self)@, budget as nat) {
                Ok((m, halted)) => r == Ok::<bool, Fault>(halted) && final(self)@ == m,
                Err(f) => r == Err::<bool, Fault>(f),
            },
    {
        let ghost code = self.code();
        let mut left = budget;
        while left > 0 && self.instruction_pointer < self.instructions.len()
            invariant
                self.wf(),
                self.code() == code,
                code == old(self).code(),
                run_spec(code, old(self)@, budget as nat) == run_spec(code, self@, left as nat),
            decreases left,
        {
            let ghost before = self@;
            assert(run_spec(code, before, left as nat) == match step(code, before) {
                Ok(m2) => run_spec(code, m2, (left - 1) as nat),
                Err(f) => Err(f),
            });
            match self.next() {
                Ok(()) => {},
                Err(f) => {
                    return Err(f);
                },
            }
            left = left - 1;
        }
        Ok(self.instruction_pointer >= self.instructions.len())
    }

    /// The operand and local stack, bottom first.
    pub fn stack(&self) -> (r: &Vec<Value>)
        ensures
            values_view(r@) == self@.stack,
    {
        &self.stack
    }

    /// The global slots written so far.
    pub fn globals(&self) -> (r: &Vec<Value>)
        ensures
            values_view(r@) == self@.globals,
    {
        &self.globals
    }

    pub fn instruction_pointer(&self) -> (r: InstructionAddress)
        ensures
            r as int == self@.ip,
    {
        self.instruction_pointer
    }

    /// Where the current frame's locals begin on the stack.
    pub fn stack_base(&self) -> (r: usize)
        ensures
            r as int == self@.base,
    {
        self.stack_base
    }

    /// How many calls are waiting for a return.
    pub fn call_depth(&self) -> (r: usize)
        ensures
            r as int == self@.frames.len(),
    {
        self.call_stack.len()
    }

    /// The heap.
    pub fn arena(&self) -> (r: &Arena<Object>)
        ensures
            heap_view(*r) == self@.heap.slots,
            r@.free == self@.heap.free,
    {
        &self.arena
    }

    /// Allocates `o` and pushes a reference to it.
    fn allocate(&mut self, o: Object)
        requires
            old(self).wf(),
        ensures
            final(self).wf(),
            final(self).code() == old(self).code(),
            final(self)@ == (MachineView {
                stack: old(self)@.stack.push(ValueView::Reference(old(self)@.heap.next_index() as usize)),
                heap: old(self)@.heap.pushed(o@),
                ..old(self)@
            }),
    {
        let ghost before = self.arena@;
        let index = self.arena.push(o);
        self.stack.push(Value::Reference(index));
        proof {
            assert(values_view(self.stack@) =~= old(self)@.stack.push(ValueView::Reference(index)));
            if before.free.len() > 0 {
                assert(heap_view(self.arena) =~= objects_view(before.slots).update(before.free.last() as int, o@));
            } else {
                assert(heap_view(self.arena) =~= objects_view(before.slots).push(o@));
            }
        }
    }

    /// Executes the instruction at the instruction pointer.
    pub fn next(&mut self) -> (r: Result<(), Fault>)
        requires
            old(self).wf(),
            0 <= old(self)@.ip < old(self).code().len(),
        ensures
            final(self).wf(),
            final(self).code() == old(self).code(),
            match step(old(self).code(), old(self)@) {
                Ok(m) => r is Ok && final(self)@ == m,
                Err(f) => r == Err::<(), Fault>(f),
            },
    {
        let ghost m = self@;
        let ip = self.instruction_pointer;
        let n = self.stack.len();
        let instr = self.instructions[ip].duplicate();
        let len = self.instructions.len();
        assert(instr == self.code()[ip as int]);
        if instr.is_binary() {
            if n < 2 {
                return Err(Fault::EmptyStack);
            }
            let right = self.stack.pop().unwrap();
            let left = self.stack.pop().unwrap();
            let result = apply_binary(&instr, left, right, &self.arena);
            self.stack.push(result);
            self.instruction_pointer = ip + 1;
            assert(self@.stack =~= m.stack.take(n - 2).push(binary_result(instr, m.stack[n - 2], m.stack[n - 1], m.heap.slots)));
            return Ok(());
        }
        if instr.is_unary() {
            if n < 1 {
                return Err(Fault::EmptyStack);
            }
            let v = self.stack.pop().unwrap();
            let result = apply_unary(&instr, v);
            self.stack.push(result);
            self.instruction_pointer = ip + 1;
            assert(self@.stack =~= m.stack.drop_last().push(unary_result(instr, m.stack[n - 1])));
            return Ok(());
        }
        match instr {
            Instruction::StoreGlobal(a) => {
                if n < 1 {
                    return Err(Fault::EmptyStack);
                }
                if a < 0 {
                    return Err(Fault::BadAddress);
                }
                let v = self.stack.pop().unwrap();
                let a = a as usize;
                if a < self.globals.len() {
                    self.globals.set(a, v);
                    assert(self@.globals =~= set_global(m.globals, a as int, m.stack.last()));
                } else {
                    pad_globals(&mut self.globals, a);
                    self.globals.push(v);
                    assert(self@.globals =~= set_global(m.globals, a as int, m.stack.last()));
                }
                self.instruction_pointer = ip + 1;
                assert(self@.stack =~= m.stack.drop_last());
                Ok(())
            },
            Instruction::LoadGlobal(a) => {
                if a < 0 {
                    return Err(Fault::BadAddress);
                }
                let a = a as usize;
                let v = if a < self.globals.len() {
                    self.globals[a].duplicate()
                } else {
                    Value::Undefined
                };
                self.stack.push(v);
                self.instruction_pointer = ip + 1;
                assert(self@.stack =~= m.stack.push(global_at(m.globals, a as int)));
                Ok(())
            },
            Instruction::Store(a) => {
                if n < 1 {
                    return Err(Fault::EmptyStack);
                }
                let index: i128 = self.stack_base as i128 + a as i128;
                if !(0 <= index && index < (n - 1) as i128) {
                    return Err(Fault::BadAddress);
                }
                let v = self.stack.pop().unwrap();
                self.stack.set(index as usize, v);
                self.instruction_pointer = ip + 1;
                assert(self@.stack =~= m.stack.drop_last().update(m.base + a, m.stack.last()));
                Ok(())
            },
            Instruction::Load(a) => {
                let index: i128 = self.stack_base as i128 + a as i128;
                if !(0 <= index && index < n as i128) {
                    return Err(Fault::BadAddress);
                }
                let v = self.stack[index as usize].duplicate();
                self.stack.push(v);
                self.instruction_pointer = ip + 1;
                assert(self@.stack =~= m.stack.push(m.stack[m.base + a]));
                Ok(())
            },
            Instruction::Push(v) => {
                self.stack.push(v);
                self.instruction_pointer = ip + 1;
                assert(self@.stack =~= m.stack.push(v@));
                Ok(())
            },
            Instruction::JumpStatic(a) => {
                if a > len {
                    return Err(Fault::BadJump);
                }
                self.instruction_pointer = a;
                Ok(())
            },
            Instruction::JumpConditional(a) => {
                if n < 1 {
                    return Err(Fault::EmptyStack);
                }
                if a > len {
                    return Err(Fault::BadJump);
                }
                let condition = self.stack.pop().unwrap();
                let truthy: Result<bool, ()> = condition.upcast();
                self.instruction_pointer = match truthy {
                    Ok(true) => a,
                    _ => ip + 1,
                };
                assert(self@.stack =~= m.stack.drop_last());
                Ok(())
            },
            Instruction::Jump => {
                if n < 1 {
                    return Err(Fault::EmptyStack);
                }
                let (entry, locals) = match &self.stack[n - 1] {
                    Value::FunctionPointer(a) => (*a, Vec::new()),
                    Value::Reference(r) => match self.arena.get(*r) {
                        Some(Object::Closure { environment, function_pointer }) => (*function_pointer, copy_values(environment)),
                        _ => {
                            return Err(Fault::NotCallable);
                        },
                    },
                    _ => {
                        return Err(Fault::NotCallable);
                    },
                };
                if entry > len {
                    return Err(Fault::BadJump);
                }
                let ghost locals_view = values_view(locals@);
                let _callee = self.stack.pop();
                self.call_stack.push((ip + 1, self.stack_base));
                self.stack_base = self.stack.len();
                let mut locals = locals;
                self.stack.append(&mut locals);
                self.instruction_pointer = entry;
                assert(self@.stack =~= m.stack.drop_last() + locals_view);
                assert(self@.frames =~= m.frames.push((m.ip + 1, m.base)));
                Ok(())
            },
            Instruction::Return => {
                if self.call_stack.len() == 0 {
                    return Err(Fault::CallStackUnderflow);
                }
                if n < 1 {
                    return Err(Fault::EmptyStack);
                }
                if self.stack_base > n - 1 {
                    return Err(Fault::BadAddress);
                }
                let v = self.stack.pop().unwrap();
                self.stack.truncate(self.stack_base);
                self.stack.push(v);
                let (return_ip, return_base) = self.call_stack.pop().unwrap();
                self.instruction_pointer = return_ip;
                self.stack_base = return_base;
                assert(self@.stack =~= m.stack.take(m.base).push(m.stack.last()));
                assert(self@.frames =~= m.frames.drop_last());
                Ok(())
            },
            Instruction::MakeArray(k) => {
                if n < k {
                    return Err(Fault::EmptyStack);
                }
                let elements = self.stack.split_off(n - k);
                assert(values_view(elements@) =~= m.stack.subrange(n - k, n as int));
                assert(values_view(self.stack@) =~= m.stack.take(n - k));
                self.allocate(Object::Array(elements));
                self.instruction_pointer = ip + 1;
                Ok(())
            },
            Instruction::MakeDict(k) => {
                if n / 2 < k {
                    return Err(Fault::EmptyStack);
                }
                let pairs = self.stack.split_off(n - 2 * k);
                assert(values_view(pairs@) =~= m.stack.subrange(n - 2 * k, n as int));
                assert(values_view(self.stack@) =~= m.stack.take(n - 2 * k));
                let entries = make_entries(&pairs, &self.arena);
                self.allocate(Object::Dict(entries));
                self.instruction_pointer = ip + 1;
                Ok(())
            },
            Instruction::MakeClosure(k, entry) => {
                if n < k {
                    return Err(Fault::EmptyStack);
                }
                let environment = self.stack.split_off(n - k);
                assert(values_view(environment@) =~= m.stack.subrange(n - k, n as int));
                assert(values_view(self.stack@) =~= m.stack.take(n - k));
                self.allocate(Object::Closure { environment, function_pointer: entry });
                self.instruction_pointer = ip + 1;
                Ok(())
            },
            _ => Err(Fault::EmptyStack),
        }
    }
}

} // verus!
