//! The virtual machine: call frames over closures, a value stack, global
//! variables, and the heap. It runs one instruction at a time. Arithmetic and
//! comparison on numbers are left to the caller, who gets the two operands
//! and pushes the result back: numbers are IEEE 754 doubles.
use vstd::prelude::*;
use vstd::string::StringExecFns;

use super::allocator::{alloc_spec, heap_wf, intern_spec, Allocator, HeapView, ObjView, Reference, Trace};
use super::chunk::{Chunk, OpCode};
use super::function::{Closure, Function, NativeFn};
use super::value::Value;

verus! {

broadcast use {Reference::lemma_at_slot, Reference::lemma_at_slot_view, vstd::string::to_string_from_display_ensures_for_str};

/// How interpreting a program ended.
#[derive(Debug, PartialEq, Eq)]
pub enum InterpretResult {
    Success,
    CompileError(String),
    RuntimeError,
}

/// A call in progress: the closure it runs, the next instruction, and where
/// its slots start on the stack.
#[derive(Clone, Copy)]
pub struct CallFrame {
    pub closure_id: Reference<Closure>,
    pub ip: usize,
    pub slot: usize,
}

impl CallFrame {
    /// A call of `closure_id` from its first instruction, its slots from the
    /// bottom of the stack.
    pub open spec fn new_spec(closure_id: Reference<Closure>) -> CallFrame {
        CallFrame { closure_id, ip: 0, slot: 0 }
    }

    /// A call of `closure_id` from its first instruction, its slots from the
    /// bottom of the stack.
    pub fn new(closure_id: Reference<Closure>) -> (f: CallFrame)
        ensures
            f == CallFrame::new_spec(closure_id),
    {
        CallFrame { closure_id, ip: 0, slot: 0 }
    }
}

/// Why running stopped with an error.
#[derive(Clone, Copy)]
pub enum Fault {
    /// A global read or assigned before it was defined.
    UndefinedGlobal(Reference<String>),
    /// An operator on numbers met something else.
    OperandsNumbers,
    /// Negation or `!` met an operand it does not take.
    OperandNumber,
    /// `+` met operands that are neither two numbers nor two strings; the
    /// line of the instruction.
    OperandsNumbersOrStrings(usize),
    /// A call of something that is not a closure.
    NotCallable,
    /// A closure made from a constant that is not a function.
    NotFunction,
}

/// What one instruction asks of the caller.
#[derive(Clone, Copy)]
pub enum Step {
    /// Nothing: run on.
    Continue,
    /// Print the value, then run on.
    Print(Value),
    /// Apply the operator (`Equal`, `Greater`, `Less`, `Add`, `Subtract`,
    /// `Multiply` or `Divide`) to the two numbers, left then right, push
    /// the result (a boolean for the comparisons), then run on.
    Numeric(OpCode, u64, u64),
    /// Push the negation of the number, then run on.
    Negate(u64),
    /// Call the machine's function with the arguments on top of the stack,
    /// their number given, and push its result over them, then run on.
    Native(NativeFn, usize),
    /// The script returned: running ended well.
    Finished,
    /// Running ended with an error.
    Fault(Fault),
}

/// The state of the machine.
pub ghost struct VMView {
    pub frames: Seq<CallFrame>,
    pub stack: Seq<Value>,
    pub globals: Seq<(Reference<String>, Value)>,
    pub heap: HeapView,
}

/// The instructions, constants and lines of the function a frame runs, when
/// its closure and function are in the heap.
pub open spec fn frame_code(h: HeapView, f: CallFrame) -> Option<(Seq<OpCode>, Seq<Value>, Seq<usize>)> {
    if f.closure_id@ < h.objects.len() {
        match h.objects[f.closure_id@ as int].1 {
            ObjView::Closure(fid) => if fid < h.objects.len() {
                match h.objects[fid as int].1 {
                    ObjView::Function(_, ins, vals, lines) => Some((ins, vals, lines)),
                    _ => None,
                }
            } else {
                None
            },
            _ => None,
        }
    } else {
        None
    }
}

/// The first entry of the globals for `k`, from `i` on.
pub open spec fn find_global(g: Seq<(Reference<String>, Value)>, k: Reference<String>, i: int) -> Option<int>
    decreases g.len() - i,
{
    if i < 0 || i >= g.len() {
        None
    } else if g[i].0 == k {
        Some(i)
    } else {
        find_global(g, k, i + 1)
    }
}

/// The value of global `k`.
pub open spec fn global_get(g: Seq<(Reference<String>, Value)>, k: Reference<String>) -> Option<Value> {
    match find_global(g, k, 0) {
        Some(i) => Some(g[i].1),
        None => None,
    }
}

/// The globals with `k` set to `v`: its entry updated, or a new one last.
pub open spec fn global_set(g: Seq<(Reference<String>, Value)>, k: Reference<String>, v: Value) -> Seq<(Reference<String>, Value)> {
    match find_global(g, k, 0) {
        Some(i) => g.update(i, (k, v)),
        None => g.push((k, v)),
    }
}


/// No name occurs twice among the globals.
pub open spec fn globals_unique(g: Seq<(Reference<String>, Value)>) -> bool {
    forall|i: int, j: int| 0 <= i < j < g.len() ==> g[i].0 != g[j].0
}

/// The search for `k` from `i` finds its first entry from there, if any.
proof fn lemma_find_global(g: Seq<(Reference<String>, Value)>, k: Reference<String>, i: int)
    requires
        0 <= i,
    ensures
        find_global(g, k, i) matches Some(j) ==> i <= j < g.len() && g[j].0 == k && forall|m: int|
            i <= m < j ==> g[m].0 != k,
        find_global(g, k, i) is None ==> forall|m: int| i <= m < g.len() ==> g[m].0 != k,
    decreases g.len() - i,
{
    if i < g.len() && g[i].0 != k {
        lemma_find_global(g, k, i + 1);
    }
}

/// The globals behave as a map from names: setting a name keeps every name
/// once, reading it back gives what was set, and the other names keep their
/// values.
pub proof fn lemma_global_set(g: Seq<(Reference<String>, Value)>, k: Reference<String>, v: Value)
    requires
        globals_unique(g),
    ensures
        globals_unique(global_set(g, k, v)),
        global_get(global_set(g, k, v), k) == Some(v),
        forall|k2: Reference<String>| k2 != k ==> #[trigger] global_get(global_set(g, k, v), k2) == global_get(g, k2),
{
    let g2 = global_set(g, k, v);
    lemma_find_global(g, k, 0);
    lemma_find_global(g2, k, 0);
    match find_global(g, k, 0) {
        Some(i) => {
            assert(g2[i].0 == k);
            if let Some(j) = find_global(g2, k, 0) {
                if j < i {
                    assert(g2[j].0 == g[j].0);
                }
            }
            assert(find_global(g2, k, 0) == Some(i));
        },
        None => {
            let n = g.len() as int;
            assert(g2[n].0 == k);
            if let Some(j) = find_global(g2, k, 0) {
                if j < n {
                    assert(g2[j].0 == g[j].0);
                }
            }
            assert(find_global(g2, k, 0) == Some(n));
        },
    }
    assert forall|k2: Reference<String>| k2 != k implies #[trigger] global_get(g2, k2) == global_get(g, k2) by {
        lemma_find_global(g, k2, 0);
        lemma_find_global(g2, k2, 0);
        match find_global(g, k2, 0) {
            Some(j) => {
                if let Some(j2) = find_global(g2, k2, 0) {
                    if j2 < j {
                        assert(g2[j2].0 == g[j2].0);
                    }
                    if j < j2 {
                        assert(g2[j].0 == g[j].0);
                    }
                } else {
                    assert(g2[j].0 == g[j].0);
                }
            },
            None => {
                if let Some(j2) = find_global(g2, k2, 0) {
                    if j2 < g.len() {
                        assert(g2[j2].0 == g[j2].0);
                    }
                }
            },
        }
    }
}


/// Running an instruction never puts a name twice among the globals.
pub proof fn lemma_step_globals_unique(v: VMView)
    requires
        v.step_ok(),
        globals_unique(v.globals),
    ensures
        globals_unique(v.step_view().0.globals),
{
    let vals = v.code().1;
    match v.op() {
        OpCode::SetGlobal(i) => {
            lemma_global_set(v.globals, vals[i as int]->String_0, v.peek(0));
        },
        OpCode::DefineGlobal(i) => {
            lemma_global_set(v.globals, vals[i as int]->String_0, v.peek(0));
        },
        _ => {},
    }
}

/// Whether two values are equal, where neither is a number.
pub open spec fn value_eq(a: Value, b: Value) -> bool {
    match (a, b) {
        (Value::Bool(x), Value::Bool(y)) => x == y,
        (Value::Nil, Value::Nil) => true,
        (Value::String(x), Value::String(y)) => x@ == y@,
        (Value::Function(x), Value::Function(y)) => x@ == y@,
        (Value::Closure(x), Value::Closure(y)) => x@ == y@,
        _ => false,
    }
}

/// A reference the heap can follow.
pub open spec fn value_in_heap(h: HeapView, v: Value) -> bool {
    match v {
        Value::String(r) => r@ < h.objects.len(),
        Value::Function(r) => r@ < h.objects.len(),
        Value::Closure(r) => r@ < h.objects.len(),
        _ => true,
    }
}

/// The text of a string value, when the heap holds it.
pub open spec fn str_of(h: HeapView, v: Value) -> Option<Seq<char>> {
    match v {
        Value::String(r) => if r@ < h.objects.len() {
            match h.objects[r@ as int].1 {
                ObjView::Str(s) => Some(s),
                _ => None,
            }
        } else {
            None
        },
        _ => None,
    }
}

impl VMView {
    /// The frame running.
    pub open spec fn cur(self) -> CallFrame {
        self.frames.last()
    }

    /// The code of the frame running.
    pub open spec fn code(self) -> (Seq<OpCode>, Seq<Value>, Seq<usize>) {
        frame_code(self.heap, self.cur()).unwrap()
    }

    /// The instruction to run.
    pub open spec fn op(self) -> OpCode {
        self.code().0[self.cur().ip as int]
    }

    /// The state with the running frame moved past the instruction, then on
    /// by `off` more.
    pub open spec fn jump(self, ip: int) -> VMView {
        VMView {
            frames: self.frames.update(
                self.frames.len() - 1,
                CallFrame { ip: ip as usize, ..self.cur() },
            ),
            ..self
        }
    }

    /// The top of the stack, `d` below the last.
    pub open spec fn peek(self, d: int) -> Value {
        self.stack[self.stack.len() - 1 - d]
    }

    /// The state with the stack replaced.
    pub open spec fn with_stack(self, s: Seq<Value>) -> VMView {
        VMView { stack: s, ..self }
    }

    /// Whether running the next instruction cannot fail on an index, a
    /// stack, an offset or the heap: the machine's own checks aside.
    pub open spec fn step_ok(self) -> bool {
        let n = self.stack.len();
        let ip = self.cur().ip as int;
        &&& heap_wf(self.heap)
        &&& self.frames.len() > 0
        &&& frame_code(self.heap, self.cur()) is Some
        &&& 0 <= ip < self.code().0.len()
        &&& ip + 1 <= usize::MAX
        &&& match self.op() {
            OpCode::Return => n >= 1,
            OpCode::Print => n >= 1,
            OpCode::JumpIfFalse(off) => n >= 1 && ip + 1 + off <= usize::MAX,
            OpCode::Jump(off) => ip + 1 + off <= usize::MAX,
            OpCode::Loop(off) => off <= ip + 1,
            OpCode::Pop => n >= 1,
            OpCode::GetGlobal(i) => i < self.code().1.len() && self.code().1[i as int] is String,
            OpCode::SetGlobal(i) => i < self.code().1.len() && self.code().1[i as int] is String && n >= 1,
            OpCode::DefineGlobal(i) => i < self.code().1.len() && self.code().1[i as int] is String && n >= 1,
            OpCode::GetLocal(i) => i + self.cur().slot < n,
            OpCode::SetLocal(i) => n >= 1 && i + self.cur().slot <= n,
            OpCode::Constant(i) => i < self.code().1.len() && value_in_heap(self.heap, self.code().1[i as int]),
            OpCode::Call(a) => a < n,
            OpCode::Closure(i) => i < self.code().1.len() && value_in_heap(self.heap, self.code().1[i as int]),
            OpCode::Add => n >= 2 && (self.peek(0) is String && self.peek(1) is String ==> str_of(
                self.heap,
                self.peek(0),
            ) is Some && str_of(self.heap, self.peek(1)) is Some) && (!(self.peek(0) is Number
                && self.peek(1) is Number) && !(self.peek(0) is String && self.peek(1) is String)
                ==> ip < self.code().2.len()),
            OpCode::Equal | OpCode::Greater | OpCode::Less | OpCode::Subtract | OpCode::Multiply
            | OpCode::Divide => n >= 2,
            OpCode::Negate | OpCode::Not => n >= 1,
            _ => true,
        }
    }

    /// Two numbers off the stack, for the caller to combine.
    pub open spec fn numeric(self, w: VMView, op: OpCode) -> (VMView, Step) {
        let n = self.stack.len();
        match (self.peek(0), self.peek(1)) {
            (Value::Number(b), Value::Number(a)) => (w.with_stack(self.stack.subrange(0, n - 2)), Step::Numeric(op, a, b)),
            _ => (w.with_stack(self.stack.subrange(0, n - 2)), Step::Fault(Fault::OperandsNumbers)),
        }
    }

    /// What running the next instruction does: the state after it, and what
    /// it asks of the caller.
    pub open spec fn step_view(self) -> (VMView, Step) {
        let n = self.stack.len();
        let f = self.cur();
        let ip = f.ip as int;
        let w = self.jump(ip + 1);
        let vals = self.code().1;
        match self.op() {
            OpCode::Return => {
                let v = self.peek(0);
                if self.frames.len() == 1 {
                    (VMView { frames: self.frames.drop_last(), stack: self.stack.drop_last(), ..self }, Step::Finished)
                } else {
                    let s = self.stack.drop_last();
                    let kept = if f.slot < s.len() { s.subrange(0, f.slot as int) } else { s };
                    (VMView { frames: self.frames.drop_last(), stack: kept.push(v), ..self }, Step::Continue)
                }
            },
            OpCode::Print => (w.with_stack(self.stack.drop_last()), Step::Print(self.peek(0))),
            OpCode::JumpIfFalse(off) => if self.peek(0).is_falsy_spec() {
                (self.jump(ip + 1 + off), Step::Continue)
            } else {
                (w, Step::Continue)
            },
            OpCode::Jump(off) => (self.jump(ip + 1 + off), Step::Continue),
            OpCode::Loop(off) => (self.jump(ip + 1 - off), Step::Continue),
            OpCode::Pop => (w.with_stack(self.stack.drop_last()), Step::Continue),
            OpCode::GetGlobal(i) => {
                let k = vals[i as int]->String_0;
                match global_get(self.globals, k) {
                    Some(v) => (w.with_stack(self.stack.push(v)), Step::Continue),
                    None => (w, Step::Fault(Fault::UndefinedGlobal(k))),
                }
            },
            OpCode::SetGlobal(i) => {
                let k = vals[i as int]->String_0;
                match global_get(self.globals, k) {
                    Some(_) => (VMView { globals: global_set(self.globals, k, self.peek(0)), ..w }, Step::Continue),
                    None => (w, Step::Fault(Fault::UndefinedGlobal(k))),
                }
            },
            OpCode::DefineGlobal(i) => {
                let k = vals[i as int]->String_0;
                (VMView { globals: global_set(self.globals, k, self.peek(0)), stack: self.stack.drop_last(), ..w }, Step::Continue)
            },
            OpCode::GetLocal(i) => (w.with_stack(self.stack.push(self.stack[i + f.slot])), Step::Continue),
            OpCode::SetLocal(i) => (w.with_stack(self.stack.insert(i + f.slot, self.peek(0))), Step::Continue),
            OpCode::Constant(i) => (w.with_stack(self.stack.push(vals[i as int])), Step::Continue),
            OpCode::Call(a) => match self.peek(a as int) {
                Value::Closure(c) => (VMView {
                    frames: w.frames.push(CallFrame { closure_id: c, ip: 0, slot: (n - a - 1) as usize }),
                    ..w
                }, Step::Continue),
                Value::Native(nf) => (w, Step::Native(nf, a)),
                _ => (w, Step::Fault(Fault::NotCallable)),
            },
            OpCode::Closure(i) => match vals[i as int] {
                Value::Function(fid) => {
                    let (h2, r) = alloc_spec(self.heap, ObjView::Closure(fid@));
                    (VMView { heap: h2, stack: self.stack.push(Value::Closure(Reference::at_slot(r))), ..w }, Step::Continue)
                },
                _ => (w, Step::Fault(Fault::NotFunction)),
            },
            OpCode::Nil => (w.with_stack(self.stack.push(Value::Nil)), Step::Continue),
            OpCode::True => (w.with_stack(self.stack.push(Value::Bool(true))), Step::Continue),
            OpCode::False => (w.with_stack(self.stack.push(Value::Bool(false))), Step::Continue),
            OpCode::Equal => match (self.peek(0), self.peek(1)) {
                (Value::Number(b), Value::Number(a)) => (w.with_stack(self.stack.subrange(0, n - 2)), Step::Numeric(OpCode::Equal, a, b)),
                _ => (w.with_stack(self.stack.subrange(0, n - 2).push(Value::Bool(value_eq(self.peek(0), self.peek(1))))), Step::Continue),
            },
            OpCode::Greater => self.numeric(w, OpCode::Greater),
            OpCode::Less => self.numeric(w, OpCode::Less),
            OpCode::Add => match (self.peek(0), self.peek(1)) {
                (Value::Number(b), Value::Number(a)) => (w.with_stack(self.stack.subrange(0, n - 2)), Step::Numeric(OpCode::Add, a, b)),
                (Value::String(_), Value::String(_)) => {
                    let text = str_of(self.heap, self.peek(1)).unwrap() + str_of(self.heap, self.peek(0)).unwrap();
                    let (h2, r) = intern_spec(self.heap, text);
                    (VMView { heap: h2, stack: self.stack.subrange(0, n - 2).push(Value::String(Reference::at_slot(r))), ..w }, Step::Continue)
                },
                _ => (w.with_stack(self.stack.subrange(0, n - 2)), Step::Fault(Fault::OperandsNumbersOrStrings(self.code().2[ip]))),
            },
            OpCode::Subtract => self.numeric(w, OpCode::Subtract),
            OpCode::Multiply => self.numeric(w, OpCode::Multiply),
            OpCode::Divide => self.numeric(w, OpCode::Divide),
            OpCode::Negate => match self.peek(0) {
                Value::Number(x) => (w.with_stack(self.stack.drop_last()), Step::Negate(x)),
                _ => (w.with_stack(self.stack.drop_last()), Step::Fault(Fault::OperandNumber)),
            },
            OpCode::Not => match self.peek(0) {
                Value::Bool(_) | Value::Nil => (w.with_stack(self.stack.drop_last().push(Value::Bool(self.peek(0).is_falsy_spec()))), Step::Continue),
                _ => (w.with_stack(self.stack.drop_last()), Step::Fault(Fault::OperandNumber)),
            },
        }
    }
}


/// The machine's functions, in the order the machine defines them.
pub open spec fn natives() -> Seq<NativeFn> {
    seq![NativeFn::Clock, NativeFn::Max, NativeFn::Panic]
}

/// The names of the machine's functions, in the same order.
pub open spec fn native_names() -> Seq<Seq<char>> {
    seq!["clock"@, "max"@, "panic"@]
}

/// The machine.
pub struct VM {
    pub frames: Vec<CallFrame>,
    pub stack: Vec<Value>,
    pub globals: Vec<(Reference<String>, Value)>,
    pub allocator: Allocator,
}

impl VM {
    /// The state of the machine.
    pub open spec fn state(&self) -> VMView {
        VMView {
            frames: self.frames@,
            stack: self.stack@,
            globals: self.globals@,
            heap: self.allocator@,
        }
    }

    /// A machine with no frame and an empty stack, whose globals are its own
    /// functions, their names the only strings in the heap.
    pub fn new() -> (vm: VM)
        ensures
            vm.state().frames.len() == 0,
            vm.state().stack.len() == 0,
            vm.allocator.wf(),
            vm.state().globals.len() == 3,
            globals_unique(vm.state().globals),
            vm.state().heap.objects.len() == 3,
            forall|i: int|
                0 <= i < 3 ==> #[trigger] vm.state().globals[i] == (Reference::<String>::at_slot(i as usize), Value::Native(natives()[i]))
                    && vm.state().heap.objects[i].1 == ObjView::Str(native_names()[i]),
    {
        let mut vm = VM { frames: Vec::new(), stack: Vec::new(), globals: Vec::new(), allocator: Allocator::new() };
        proof {
            reveal_strlit("clock");
            reveal_strlit("max");
            reveal_strlit("panic");
        }
        let ghost h0 = vm.allocator@;
        vm.define_native("clock".to_string(), NativeFn::Clock);
        let ghost h1 = vm.allocator@;
        assert(h1.strings =~= seq![("clock"@, 0usize)]);
        assert(vm.globals@ =~= seq![(Reference::<String>::at_slot(0), Value::Native(NativeFn::Clock))]);
        vm.define_native("max".to_string(), NativeFn::Max);
        let ghost h2 = vm.allocator@;
        assert("clock"@.len() != "max"@.len());
        assert(h1.strings[0].0 != "max"@);
        assert(h2.strings =~= seq![("clock"@, 0usize), ("max"@, 1usize)]);
        assert(Reference::<String>::at_slot(0)@ != Reference::<String>::at_slot(1)@);
        assert(find_global(seq![(Reference::<String>::at_slot(0), Value::Native(NativeFn::Clock))], Reference::<String>::at_slot(1), 1) is None);
        assert(vm.globals@ =~= seq![
            (Reference::<String>::at_slot(0), Value::Native(NativeFn::Clock)),
            (Reference::<String>::at_slot(1), Value::Native(NativeFn::Max)),
        ]);
        let ghost g2 = vm.globals@;
        vm.define_native("panic".to_string(), NativeFn::Panic);
        assert("clock"@[0] != "panic"@[0]);
        assert("max"@.len() != "panic"@.len());
        assert(h2.strings[0].0 != "panic"@);
        assert(h2.strings[1].0 != "panic"@);
        assert(Reference::<String>::at_slot(2)@ != Reference::<String>::at_slot(1)@);
        assert(Reference::<String>::at_slot(2)@ != Reference::<String>::at_slot(0)@);
        assert(find_global(g2, Reference::<String>::at_slot(2), 2) is None);
        assert(find_global(g2, Reference::<String>::at_slot(2), 1) is None);
        assert(vm.globals@ =~= seq![
            (Reference::<String>::at_slot(0), Value::Native(NativeFn::Clock)),
            (Reference::<String>::at_slot(1), Value::Native(NativeFn::Max)),
            (Reference::<String>::at_slot(2), Value::Native(NativeFn::Panic)),
        ]);
        vm
    }

    /// Binds global `name` to the machine's function `f`.
    fn define_native(&mut self, name: String, f: NativeFn)
        requires
            old(self).allocator.wf(),
        ensures
            final(self).allocator.wf(),
            ({
                let (h, r) = intern_spec(old(self).allocator@, name@);
                &&& final(self).allocator@ == h
                &&& final(self).globals@ == global_set(old(self).globals@, Reference::at_slot(r), Value::Native(f))
            }),
            final(self).frames@ == old(self).frames@,
            final(self).stack@ == old(self).stack@,
    {
        let r = self.allocator.new_string(name);
        self.global_set(r, Value::Native(f));
    }

    /// Pushes a value, such as the result of what `step` left to the caller.
    pub fn push(&mut self, v: Value)
        ensures
            final(self).state() == old(self).state().with_stack(old(self).state().stack.push(v)),
    {
        self.stack.push(v);
    }

    fn pop(&mut self) -> (v: Value)
        requires
            old(self).stack@.len() >= 1,
        ensures
            v == old(self).stack@.last(),
            final(self).state() == old(self).state().with_stack(old(self).stack@.drop_last()),
    {
        match self.stack.pop() {
            Some(v) => v,
            None => vstd::pervasive::unreached(),
        }
    }

    fn peek(&self, distance: usize) -> (v: Value)
        requires
            distance < self.stack@.len(),
        ensures
            v == self.state().peek(distance as int),
    {
        self.stack[self.stack.len() - (distance + 1)]
    }

    /// The code the frame on top runs.
    fn current_chunk(&self) -> (c: &Chunk)
        requires
            self.frames@.len() > 0,
            frame_code(self.allocator@, self.frames@.last()) is Some,
            self.allocator.wf(),
        ensures
            (c.instructions@, c.values@, c.lines@) == frame_code(self.allocator@, self.frames@.last()).unwrap(),
    {
        let frame = &self.frames[self.frames.len() - 1];
        let closure: &Closure = self.allocator.deref(&frame.closure_id);
        let function: &Function = self.allocator.deref(&closure.func_id);
        &function.chunk
    }

    /// The first entry of the globals for `k`.
    fn global_find(&self, k: Reference<String>) -> (r: Option<usize>)
        ensures
            r matches Some(i) ==> find_global(self.globals@, k, 0) == Some(i as int) && i < self.globals@.len(),
            r is None ==> find_global(self.globals@, k, 0) is None,
    {
        let mut i: usize = 0;
        while i < self.globals.len()
            invariant
                i <= self.globals@.len(),
                find_global(self.globals@, k, 0) == find_global(self.globals@, k, i as int),
            decreases self.globals.len() - i,
        {
            if self.globals[i].0.index() == k.index() {
                proof {
                    assert(self.globals@[i as int].0 == Reference::<String>::at_slot(self.globals@[i as int].0@));
                    assert(k == Reference::<String>::at_slot(k@));
                }
                return Some(i);
            }
            proof {
                assert(self.globals@[i as int].0 == Reference::<String>::at_slot(self.globals@[i as int].0@));
                assert(k == Reference::<String>::at_slot(k@));
            }
            i += 1;
        }
        None
    }

    /// Sets global `k` to `v`.
    fn global_set(&mut self, k: Reference<String>, v: Value)
        ensures
            final(self).state() == (VMView { globals: global_set(old(self).globals@, k, v), ..old(self).state() }),
    {
        match self.global_find(k) {
            Some(i) => self.globals.set(i, (k, v)),
            None => self.globals.push((k, v)),
        }
    }

    /// Runs the next instruction of the frame on top.
    pub fn step(&mut self) -> (s: Step)
        requires
            old(self).state().step_ok(),
        ensures
            (final(self).state(), s) == old(self).state().step_view(),
            final(self).allocator.wf(),
    {
        let ghost v = self.state();
        let fi = self.frames.len() - 1;
        let frame = self.frames[fi];
        let instruction = self.current_chunk().instructions[frame.ip];
        self.frames.set(fi, CallFrame { ip: frame.ip + 1, ..frame });
        assert(self.state() == v.jump(frame.ip + 1));
        match instruction {
            OpCode::Return => {
                let value = self.pop();
                let _ = self.frames.pop();
                assert(self.frames@ =~= v.frames.drop_last());
                if self.frames.len() == 0 {
                    return Step::Finished;
                }
                let ghost s0 = self.stack@;
                self.stack.truncate(frame.slot);
                assert(self.stack@ =~= (if frame.slot < s0.len() { s0.subrange(0, frame.slot as int) } else { s0 }));
                self.push(value);
                Step::Continue
            },
            OpCode::Print => {
                let value = self.pop();
                Step::Print(value)
            },
            OpCode::JumpIfFalse(offset) => {
                if self.peek(0).is_falsy() {
                    self.frames.set(fi, CallFrame { ip: frame.ip + 1 + offset, ..frame });
                    assert(self.frames@ =~= v.jump(frame.ip + 1 + offset).frames);
                }
                Step::Continue
            },
            OpCode::Jump(offset) => {
                self.frames.set(fi, CallFrame { ip: frame.ip + 1 + offset, ..frame });
                assert(self.frames@ =~= v.jump(frame.ip + 1 + offset).frames);
                Step::Continue
            },
            OpCode::Loop(offset) => {
                self.frames.set(fi, CallFrame { ip: frame.ip + 1 - offset, ..frame });
                assert(self.frames@ =~= v.jump(frame.ip + 1 - offset).frames);
                Step::Continue
            },
            OpCode::Pop => {
                self.pop();
                Step::Continue
            },
            OpCode::GetGlobal(index) => {
                let key = *self.current_chunk().read_string(index);
                match self.global_find(key) {
                    Some(i) => {
                        let value = self.globals[i].1;
                        self.push(value);
                        Step::Continue
                    },
                    None => Step::Fault(Fault::UndefinedGlobal(key)),
                }
            },
            OpCode::SetGlobal(index) => {
                let key = *self.current_chunk().read_string(index);
                match self.global_find(key) {
                    Some(_) => {
                        let value = self.peek(0);
                        self.global_set(key, value);
                        Step::Continue
                    },
                    None => Step::Fault(Fault::UndefinedGlobal(key)),
                }
            },
            OpCode::DefineGlobal(index) => {
                let key = *self.current_chunk().read_string(index);
                let value = self.peek(0);
                self.global_set(key, value);
                self.pop();
                Step::Continue
            },
            OpCode::GetLocal(index) => {
                let n = self.stack.len();
                let value = self.stack[index + frame.slot];
                self.push(value);
                Step::Continue
            },
            OpCode::SetLocal(index) => {
                let value = self.peek(0);
                let n = self.stack.len();
                self.stack.insert(index + frame.slot, value);
                Step::Continue
            },
            OpCode::Constant(index) => {
                let value = self.current_chunk().values[index];
                self.push(value);
                Step::Continue
            },
            OpCode::Call(arg_num) => {
                match self.peek(arg_num) {
                    Value::Closure(callee) => {
                        let slot = self.stack.len() - arg_num - 1;
                        self.frames.push(CallFrame { closure_id: callee, ip: 0, slot });
                        Step::Continue
                    },
                    Value::Native(nf) => Step::Native(nf, arg_num),
                    _ => Step::Fault(Fault::NotCallable),
                }
            },
            OpCode::Closure(index) => {
                match self.current_chunk().values[index] {
                    Value::Function(func_id) => {
                        let closure_id = self.allocator.allocate(Closure::new(func_id));
                        self.push(Value::Closure(closure_id));
                        Step::Continue
                    },
                    _ => Step::Fault(Fault::NotFunction),
                }
            },
            OpCode::Nil => {
                self.push(Value::Nil);
                Step::Continue
            },
            OpCode::True => {
                self.push(Value::Bool(true));
                Step::Continue
            },
            OpCode::False => {
                self.push(Value::Bool(false));
                Step::Continue
            },
            OpCode::Equal => {
                let b = self.pop();
                let a = self.pop();
                assert(self.stack@ =~= v.stack.subrange(0, v.stack.len() - 2));
                match (b, a) {
                    (Value::Number(y), Value::Number(x)) => Step::Numeric(OpCode::Equal, x, y),
                    _ => {
                        self.push(Value::Bool(values_equal(b, a)));
                        Step::Continue
                    },
                }
            },
            OpCode::Add => {
                let b = self.pop();
                let a = self.pop();
                assert(self.stack@ =~= v.stack.subrange(0, v.stack.len() - 2));
                match (b, a) {
                    (Value::Number(y), Value::Number(x)) => Step::Numeric(OpCode::Add, x, y),
                    (Value::String(rb), Value::String(ra)) => {
                        let mut text = self.allocator.deref(&ra).as_str().to_string();
                        text.append(self.allocator.deref(&rb).as_str());
                        let r = self.allocator.new_string(text);
                        self.push(Value::String(r));
                        Step::Continue
                    },
                    _ => {
                        let line = self.current_chunk().lines[frame.ip];
                        Step::Fault(Fault::OperandsNumbersOrStrings(line))
                    },
                }
            },
            OpCode::Negate => match self.pop() {
                Value::Number(x) => Step::Negate(x),
                _ => Step::Fault(Fault::OperandNumber),
            },
            OpCode::Not => {
                let value = self.pop();
                match value {
                    Value::Bool(_) | Value::Nil => {
                        self.push(Value::Bool(value.is_falsy()));
                        Step::Continue
                    },
                    _ => Step::Fault(Fault::OperandNumber),
                }
            },
            op => {
                let b = self.pop();
                let a = self.pop();
                assert(self.stack@ =~= v.stack.subrange(0, v.stack.len() - 2));
                match (b, a) {
                    (Value::Number(y), Value::Number(x)) => Step::Numeric(op, x, y),
                    _ => Step::Fault(Fault::OperandsNumbers),
                }
            },
        }
    }
}

impl VM {
    /// Whether the heap can follow `v`.
    fn in_heap(&self, v: Value) -> (r: bool)
        ensures
            r == value_in_heap(self.allocator@, v),
    {
        match v {
            Value::String(r) => r.index() < self.allocator.slots(),
            Value::Function(r) => r.index() < self.allocator.slots(),
            Value::Closure(r) => r.index() < self.allocator.slots(),
            _ => true,
        }
    }

    /// Whether the heap holds the string `v` refers to.
    fn holds_str(&self, v: Value) -> (r: bool)
        ensures
            r == (str_of(self.allocator@, v) is Some),
    {
        match v {
            Value::String(r) => self.allocator.holds(&r),
            _ => false,
        }
    }

    /// Whether `step` can run the next instruction (see `VMView::step_ok`).
    pub fn can_step(&self) -> (r: bool)
        requires
            self.allocator.wf(),
        ensures
            r == self.state().step_ok(),
    {
        let ghost v = self.state();
        if self.frames.len() == 0 {
            return false;
        }
        let frame = self.frames[self.frames.len() - 1];
        if !self.allocator.holds(&frame.closure_id) {
            return false;
        }
        let closure: &Closure = self.allocator.deref(&frame.closure_id);
        if !self.allocator.holds(&closure.func_id) {
            return false;
        }
        let chunk = self.current_chunk();
        if frame.ip >= chunk.instructions.len() || frame.ip == usize::MAX {
            return false;
        }
        let n = self.stack.len();
        let ip = frame.ip;
        let nvals = chunk.values.len();
        match chunk.instructions[ip] {
            OpCode::Return | OpCode::Print | OpCode::Pop | OpCode::Negate | OpCode::Not => n >= 1,
            OpCode::JumpIfFalse(off) => n >= 1 && off <= usize::MAX - 1 - ip,
            OpCode::Jump(off) => off <= usize::MAX - 1 - ip,
            OpCode::Loop(off) => off <= ip + 1,
            OpCode::GetGlobal(i) => i < nvals && matches!(chunk.values[i], Value::String(_)),
            OpCode::SetGlobal(i) | OpCode::DefineGlobal(i) => i < nvals && matches!(chunk.values[i], Value::String(_)) && n >= 1,
            OpCode::GetLocal(i) => i < n && frame.slot < n - i,
            OpCode::SetLocal(i) => n >= 1 && i <= n && frame.slot <= n - i,
            OpCode::Constant(i) | OpCode::Closure(i) => i < nvals && self.in_heap(chunk.values[i]),
            OpCode::Call(a) => a < n,
            OpCode::Add => {
                if n < 2 {
                    return false;
                }
                let b = self.stack[n - 1];
                let a = self.stack[n - 2];
                let strings = matches!(b, Value::String(_)) && matches!(a, Value::String(_));
                let numbers = matches!(b, Value::Number(_)) && matches!(a, Value::Number(_));
                (!strings || (self.holds_str(b) && self.holds_str(a))) && (numbers || strings || ip < chunk.lines.len())
            },
            OpCode::Equal | OpCode::Greater | OpCode::Less | OpCode::Subtract | OpCode::Multiply
            | OpCode::Divide => n >= 2,
            _ => true,
        }
    }

    /// Starts running the script `func_id`: the function goes on the stack,
    /// a closure over it is made, and a frame for that closure starts.
    pub fn call_script(&mut self, func_id: Reference<Function>)
        requires
            old(self).allocator.wf(),
            func_id@ < old(self).allocator@.objects.len(),
        ensures
            final(self).allocator.wf(),
            ({
                let (h2, r) = alloc_spec(old(self).allocator@, ObjView::Closure(func_id@));
                &&& final(self).allocator@ == h2
                &&& final(self).stack@ == old(self).stack@.push(Value::Function(func_id))
                &&& final(self).frames@ == old(self).frames@.push(CallFrame::new_spec(Reference::at_slot(r)))
                &&& final(self).globals@ == old(self).globals@
            }),
    {
        self.push(Value::Function(func_id));
        let closure_id = self.allocator.allocate(Closure::new(func_id));
        self.frames.push(CallFrame::new(closure_id));
    }
}

/// Whether two values are equal, where neither is a number.
fn values_equal(a: Value, b: Value) -> (r: bool)
    ensures
        r == value_eq(a, b),
{
    match (a, b) {
        (Value::Bool(x), Value::Bool(y)) => x == y,
        (Value::Nil, Value::Nil) => true,
        (Value::String(x), Value::String(y)) => x.index() == y.index(),
        (Value::Function(x), Value::Function(y)) => x.index() == y.index(),
        (Value::Closure(x), Value::Closure(y)) => x.index() == y.index(),
        _ => false,
    }
}

/// The operators the caller computes on two numbers.
pub open spec fn is_numeric_op(op: OpCode) -> bool {
    op is Equal || op is Greater || op is Less || op is Add || op is Subtract || op is Multiply || op is Divide
}

/// A step that asks the caller to compute on two numbers names the
/// operator of the instruction it runs, and hands over the two numbers on
/// top of the stack, the one below first, which it pops. Conversely, an
/// arithmetic or comparison instruction (`Equal`, `Greater`, `Less`, `Add`,
/// `Subtract`, `Multiply`, `Divide`) run on two numbers `a` (below) and `b`
/// (top) asks for exactly that operator on `a` and `b`: `a > b` for
/// `Greater`, `a < b` for `Less`, and so on.
pub proof fn lemma_numeric_step(v: VMView)
    requires
        v.step_ok(),
    ensures
        v.step_view().1 matches Step::Numeric(op, a, b) ==> {
            &&& op == v.op()
            &&& is_numeric_op(op)
            &&& v.peek(1) == Value::Number(a)
            &&& v.peek(0) == Value::Number(b)
            &&& v.step_view().0.stack == v.stack.subrange(0, v.stack.len() - 2)
        },
        is_numeric_op(v.op()) ==> (v.peek(1) matches Value::Number(a) ==> (v.peek(0) matches Value::Number(b)
            ==> v.step_view().1 == Step::Numeric(v.op(), a, b))),
{
}

/// The instructions that push a constant value push it, and the ones that
/// negate act on the top of the stack: `True`, `False` and `Nil` push their
/// value; `Not` replaces a boolean `b` by `!b` and `nil` by `true`;
/// `Negate` pops a number `x` and asks the caller for `-x`; `Print` pops
/// the top and asks the caller to print it.
pub proof fn lemma_simple_steps(v: VMView)
    requires
        v.step_ok(),
    ensures
        v.op() is True ==> v.step_view().0.stack == v.stack.push(Value::Bool(true)) && v.step_view().1 is Continue,
        v.op() is False ==> v.step_view().0.stack == v.stack.push(Value::Bool(false)) && v.step_view().1 is Continue,
        v.op() is Nil ==> v.step_view().0.stack == v.stack.push(Value::Nil) && v.step_view().1 is Continue,
        v.op() is Not ==> (v.peek(0) matches Value::Bool(b) ==> v.step_view().0.stack == v.stack.drop_last().push(
            Value::Bool(!b),
        ) && v.step_view().1 is Continue),
        v.op() is Not && v.peek(0) is Nil ==> v.step_view().0.stack == v.stack.drop_last().push(Value::Bool(true)),
        v.op() is Negate ==> (v.peek(0) matches Value::Number(x) ==> v.step_view().0.stack == v.stack.drop_last()
            && v.step_view().1 == Step::Negate(x)),
        v.op() is Print ==> v.step_view().0.stack == v.stack.drop_last() && v.step_view().1 == Step::Print(v.peek(0)),
{
}

} // verus!
