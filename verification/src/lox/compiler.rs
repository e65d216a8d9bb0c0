//! The compiler: Lox source to the bytecode of a script function, in one
//! pass over the tokens. What each construct compiles to is stated in
//! `grammar`; each method here meets the function of the same name there.
use vstd::prelude::*;

use super::allocator::{heap_wf, intern_spec, Allocator, HeapView, Reference};
use super::chunk::OpCode;
use super::function::{Function, FunctionType};
use super::grammar::{
    add_constant, advance, and, assign_or_get, begin_scope, binary, binary_op, block, block_loop,
    call, call_args, code_wf, compile_loop, compile_program, consume, declaration, define_variable,
    emit, emit_constant, emit_loop, emit_return, end_scope, expression, expression_statement,
    find_local, finish_function, fns_wf, for_body, for_condition, for_increment, for_statement,
    fresh_op_wf, fun_declaration, function, grouping, identifier_constant, if_statement, infix,
    infix_loop, lemma_intern_fns_wf, lemma_patch_wf, lemma_push_op_wf, lemma_push_value_wf,
    lemma_store_fns_wf, lift, literal, matched, new_frame, number, or, params, parse_identifier,
    parse_precedence, patch_jump, pop_compiler, pop_locals, prefix, print_statement, push_compiler,
    resolve_local, return_statement, rule_of, state_wf, statement, string, unary, values_extend,
    var_declaration, variable, while_statement, CompileError, Frame, Infix, Out, PState, ParseRule,
    Precedence, Prefix, Src,
};
use super::scanner::{lemma_scan_all_ends, scan_all, ScanStep, Scanner};
use super::token::{Token, TokenType};
use super::value::Value;

verus! {

broadcast use {Reference::lemma_at_slot, Reference::lemma_at_slot_view, vstd::string::to_string_from_display_ensures_for_str};

/// The rule of a token kind.
pub fn get_rule(t: TokenType) -> (r: Option<ParseRule>)
    ensures
        r == rule_of(t),
{
    match t {
        TokenType::LeftParen => Some(ParseRule::new(Some(Prefix::Grouping), Some(Infix::Call), Precedence::Call)),
        TokenType::RightParen => Some(ParseRule::new(None, None, Precedence::Lowest)),
        TokenType::Plus => Some(ParseRule::new(None, Some(Infix::Binary), Precedence::Term)),
        TokenType::Minus => Some(ParseRule::new(Some(Prefix::Unary), Some(Infix::Binary), Precedence::Term)),
        TokenType::Star => Some(ParseRule::new(None, Some(Infix::Binary), Precedence::Term)),
        TokenType::Slash => Some(ParseRule::new(None, Some(Infix::Binary), Precedence::Term)),
        TokenType::SemiColon => Some(ParseRule::new(None, None, Precedence::Lowest)),
        TokenType::Comma => Some(ParseRule::new(None, None, Precedence::Lowest)),
        TokenType::Identifier => Some(ParseRule::new(Some(Prefix::Variable), None, Precedence::Lowest)),
        TokenType::String => Some(ParseRule::new(Some(Prefix::Str), None, Precedence::Lowest)),
        TokenType::Number => Some(ParseRule::new(Some(Prefix::Number), None, Precedence::Lowest)),
        TokenType::And => Some(ParseRule::new(None, Some(Infix::And), Precedence::And)),
        TokenType::Or => Some(ParseRule::new(None, Some(Infix::Or), Precedence::Or)),
        TokenType::True => Some(ParseRule::new(Some(Prefix::Literal), None, Precedence::Lowest)),
        TokenType::False => Some(ParseRule::new(Some(Prefix::Literal), None, Precedence::Lowest)),
        TokenType::Nil => Some(ParseRule::new(Some(Prefix::Literal), None, Precedence::Lowest)),
        TokenType::Print => Some(ParseRule::new(None, None, Precedence::Lowest)),
        TokenType::Bang => Some(ParseRule::new(Some(Prefix::Unary), None, Precedence::Lowest)),
        TokenType::BangEqual => Some(ParseRule::new(None, Some(Infix::Binary), Precedence::Equality)),
        TokenType::Equal => Some(ParseRule::new(None, None, Precedence::Lowest)),
        TokenType::EqualEqual => Some(ParseRule::new(None, Some(Infix::Binary), Precedence::Equality)),
        TokenType::Greater => Some(ParseRule::new(None, Some(Infix::Binary), Precedence::Comparison)),
        TokenType::GreaterEqual => Some(ParseRule::new(None, Some(Infix::Binary), Precedence::Comparison)),
        TokenType::Less => Some(ParseRule::new(None, Some(Infix::Binary), Precedence::Comparison)),
        TokenType::LessEqual => Some(ParseRule::new(None, Some(Infix::Binary), Precedence::Comparison)),
        TokenType::Eof => Some(ParseRule::new(None, None, Precedence::Lowest)),
        _ => None,
    }
}

/// Whether two strings hold the same characters.
fn str_eq(a: &str, b: &str) -> (r: bool)
    ensures
        r == (a@ == b@),
{
    let n = a.unicode_len();
    if n != b.unicode_len() {
        return false;
    }
    let mut i: usize = 0;
    while i < n
        invariant
            n == a@.len(),
            n == b@.len(),
            i <= n,
            forall|j: int| 0 <= j < i ==> a@[j] == b@[j],
        decreases n - i,
    {
        if a.get_char(i) != b.get_char(i) {
            return false;
        }
        i += 1;
    }
    assert(a@ =~= b@);
    true
}

/// A local variable: its name, and the depth of its scope (0 while its
/// initializer is compiled).
#[derive(Clone, Copy)]
pub struct Local<'a> {
    pub name: &'a str,
    pub depth: usize,
}

/// A function under construction, with its local variables and scope depth.
pub struct Compiler<'a> {
    locals: Vec<Local<'a>>,
    scope_depth: usize,
    function: Function,
    func_type: FunctionType,
}

/// The locals as names and depths.
pub open spec fn locals_view<'a>(locals: Seq<Local<'a>>) -> Seq<(Seq<char>, usize)> {
    locals.map_values(|l: Local<'a>| (l.name@, l.depth))
}

impl<'a> Compiler<'a> {
    /// The function under construction.
    pub closed spec fn frame(&self) -> Frame {
        Frame {
            code: self.function.chunk.instructions@,
            lines: self.function.chunk.lines@,
            values: self.function.chunk.values@,
            name: self.function.name,
            locals: locals_view(self.locals@),
            depth: self.scope_depth,
            kind: self.func_type,
        }
    }

    /// A function called `name` with no code yet.
    pub fn new(kind: FunctionType, name: Reference<String>) -> (c: Self)
        ensures
            c.frame() == new_frame(name, kind),
    {
        let mut locals: Vec<Local<'a>> = Vec::new();
        locals.push(Local { name: "", depth: 0 });
        proof {
            reveal_strlit("");
            assert(locals@[0].name@ =~= Seq::<char>::empty());
            assert(locals_view(locals@) =~= seq![(Seq::<char>::empty(), 0usize)]);
        }
        Compiler { locals, scope_depth: 0, function: Function::new(name), func_type: kind }
    }
}

/// The tokens run to one end-of-text token, the last.
pub open spec fn tokens_ok(toks: Seq<(TokenType, usize, Seq<char>)>) -> bool {
    &&& toks.len() > 0
    &&& toks.last().0 == TokenType::Eof
    &&& forall|i: int| 0 <= i < toks.len() - 1 ==> (#[trigger] toks[i]).0 != TokenType::Eof
}

/// The names of the functions under construction are slots of the heap.
pub open spec fn names_in(s: PState) -> bool {
    &&& s.cur.name@ < s.heap.objects.len()
    &&& forall|i: int| 0 <= i < s.outer.len() ==> (#[trigger] s.outer[i]).name@ < s.heap.objects.len()
}

/// An optional index as an optional position.
pub open spec fn opt_int(o: Option<usize>) -> Option<int> {
    match o {
        Some(i) => Some(i as int),
        None => None,
    }
}

/// A method's result as an outcome.
pub open spec fn out_of(r: Result<(), CompileError>, s: PState) -> Out {
    match r {
        Ok(_) => Some(Ok(s)),
        Err(CompileError::Abort) => None,
        Err(e) => Some(Err(e)),
    }
}

/// Interning never shrinks the heap, and the string's slot lies in it.
proof fn lemma_intern(h: HeapView, s: Seq<char>)
    requires
        heap_wf(h),
    ensures
        intern_spec(h, s).0.objects.len() >= h.objects.len(),
        intern_spec(h, s).1 < intern_spec(h, s).0.objects.len(),
{
    let (h2, r) = intern_spec(h, s);
    if exists|k: int| 0 <= k < h.strings.len() && h.strings[k].0 == s {
        let k = choose|k: int| 0 <= k < h.strings.len() && h.strings[k].0 == s;
        assert(h.strings[k].1 < h.objects.len());
    } else if h.free_slots.len() > 0 {
        assert(h.free_slots[h.free_slots.len() - 1] < h.objects.len());
    }
}

/// A parser over the tokens of one source text.
pub struct Parser<'a> {
    compiler: Compiler<'a>,
    enclosing: Vec<Compiler<'a>>,
    tokens: Vec<Token<'a>>,
    numbers: Vec<u64>,
    token_pos: usize,
}

impl<'a> Parser<'a> {
    /// The tokens and the values of the numbers among them.
    pub closed spec fn src(&self) -> Src {
        Src { toks: self.tokens@.map_values(|t: Token<'a>| (t.typ, t.line, t.source@)), nums: self.numbers@ }
    }

    /// The state of the compiler, with the heap `h`.
    pub closed spec fn st(&self, h: HeapView) -> PState {
        PState {
            pos: self.token_pos as int,
            cur: self.compiler.frame(),
            outer: self.enclosing@.map_values(|c: Compiler<'a>| c.frame()),
            heap: h,
        }
    }

    /// The tokens are well formed, each has its number value, the position
    /// lies within them, the heap is well formed and holds the names of the
    /// functions under construction.
    pub closed spec fn inv(&self, h: HeapView) -> bool {
        &&& tokens_ok(self.src().toks)
        &&& self.numbers@.len() == self.tokens@.len()
        &&& self.token_pos <= self.tokens@.len()
        &&& heap_wf(h)
        &&& names_in(self.st(h))
    }

    /// The parser has compiled nothing: the script function has no code, and
    /// it is the only function under construction.
    pub closed spec fn fresh(&self, h: HeapView) -> bool {
        &&& self.enclosing@.len() == 0
        &&& self.compiler.frame() == new_frame(self.compiler.function.name, FunctionType::Script)
        &&& self.compiler.function.name@ < h.objects.len()
    }

    /// The name of the script function.
    pub closed spec fn script_name(&self) -> Reference<String> {
        self.compiler.function.name
    }

    /// A parser for a script, its name interned in `heap`.
    pub fn new(heap: &mut Allocator) -> (p: Self)
        requires
            old(heap).wf(),
        ensures
            final(heap).wf(),
            (final(heap)@, p.script_name()@) == intern_spec(old(heap)@, "script"@),
            p.fresh(final(heap)@),
    {
        proof {
            lemma_intern(old(heap)@, "script"@);
        }
        let name = heap.new_string("script".to_string());
        Parser {
            compiler: Compiler::new(FunctionType::Script, name),
            enclosing: Vec::new(),
            tokens: Vec::new(),
            numbers: Vec::new(),
            token_pos: 0,
        }
    }

    /// `b` is `a` moved `n` tokens on.
    pub closed spec fn moved(a: &Parser<'a>, b: &Parser<'a>, n: int) -> bool {
        &&& b.token_pos == a.token_pos + n
        &&& b.compiler == a.compiler
        &&& b.enclosing == a.enclosing
        &&& b.tokens == a.tokens
        &&& b.numbers == a.numbers
    }

    /// The tokens as the compiler reads them.
    proof fn lemma_src(&self)
        ensures
            self.src().toks.len() == self.tokens@.len(),
            forall|i: int| 0 <= i < self.tokens@.len() ==> #[trigger] self.src().toks[i] == (self.tokens@[i].typ, self.tokens@[i].line, self.tokens@[i].source@),
            self.src().nums == self.numbers@,
    {
    }

    /// The token at the position.
    fn current(&self) -> (t: Token<'a>)
        requires
            self.token_pos < self.tokens@.len(),
        ensures
            t == self.tokens@[self.token_pos as int],
    {
        self.tokens[self.token_pos]
    }

    /// The token before the position.
    fn previous(&self) -> (t: Token<'a>)
        requires
            1 <= self.token_pos <= self.tokens@.len(),
        ensures
            t == self.tokens@[self.token_pos - 1],
    {
        self.tokens[self.token_pos - 1]
    }

    /// A token other than the end of the text is followed by another.
    proof fn lemma_not_last(&self, i: int)
        requires
            tokens_ok(self.src().toks),
            0 <= i < self.tokens@.len(),
            self.tokens@[i].typ != TokenType::Eof,
        ensures
            i + 1 < self.tokens@.len(),
    {
        self.lemma_src();
        if i == self.tokens@.len() - 1 {
            assert(self.src().toks[i].0 == TokenType::Eof);
        }
    }

    /// Moves one token on.
    fn advance(&mut self, heap: &Allocator)
        requires
            old(self).token_pos < old(self).tokens@.len(),
        ensures
            Self::moved(old(self), final(self), 1),
            final(self).st(heap@) == advance(old(self).st(heap@)),
            final(self).src() == old(self).src(),
            final(self).tokens == old(self).tokens,
            final(self).numbers == old(self).numbers,
            old(self).inv(heap@) ==> final(self).inv(heap@),
            old(self).inv(heap@) && old(self).tokens@[old(self).token_pos as int].typ != TokenType::Eof
                ==> final(self).token_pos < final(self).tokens@.len(),
    {
        proof {
            if old(self).inv(heap@) && old(self).tokens@[old(self).token_pos as int].typ != TokenType::Eof {
                self.lemma_not_last(self.token_pos as int);
            }
        }
        let n = self.tokens.len();
        assert(self.token_pos < n);
        self.token_pos = self.token_pos + 1;
    }

    /// Moves one token on where the token at the position is of kind `t`.
    fn advance_if_matched(&mut self, heap: &Allocator, t: TokenType) -> (b: bool)
        requires
            old(self).token_pos < old(self).tokens@.len(),
        ensures
            b == (old(self).tokens@[old(self).token_pos as int].typ == t),
            b == matched(old(self).src(), old(self).st(heap@), t),
            Self::moved(old(self), final(self), if b { 1int } else { 0int }),
            final(self).st(heap@) == if b { advance(old(self).st(heap@)) } else { old(self).st(heap@) },
            final(self).src() == old(self).src(),
            final(self).tokens == old(self).tokens,
            final(self).numbers == old(self).numbers,
            old(self).inv(heap@) ==> final(self).inv(heap@),
            old(self).inv(heap@) && t != TokenType::Eof ==> final(self).token_pos < final(self).tokens@.len(),
    {
        proof {
            self.lemma_src();
        }
        if self.current().typ == t {
            self.advance(heap);
            true
        } else {
            false
        }
    }

    /// Takes a token of kind `t`, or fails with `msg`.
    fn consume(&mut self, heap: &Allocator, t: TokenType, msg: &'static str) -> (r: Result<(), CompileError>)
        requires
            old(self).token_pos < old(self).tokens@.len(),
        ensures
            out_of(r, final(self).st(heap@)) == consume(old(self).src(), old(self).st(heap@), t, msg),
            Self::moved(old(self), final(self), if r is Ok { 1int } else { 0int }),
            final(self).src() == old(self).src(),
            final(self).tokens == old(self).tokens,
            final(self).numbers == old(self).numbers,
            old(self).inv(heap@) ==> final(self).inv(heap@),
            r is Ok && old(self).inv(heap@) && t != TokenType::Eof ==> final(self).token_pos < final(self).tokens@.len(),
    {
        proof {
            self.lemma_src();
        }
        if self.current().typ == t {
            self.advance(heap);
            return Ok(());
        }
        Err(CompileError::At(self.current().line, msg))
    }

    /// Appends `op`, from the line of the token before the position.
    fn emit(&mut self, heap: &Allocator, op: OpCode)
        requires
            1 <= old(self).token_pos <= old(self).tokens@.len(),
        ensures
            final(self).st(heap@) == emit(old(self).src(), old(self).st(heap@), op),
            final(self).src() == old(self).src(),
            final(self).tokens == old(self).tokens,
            final(self).numbers == old(self).numbers,
            final(self).token_pos == old(self).token_pos,
            final(self).enclosing == old(self).enclosing,
            old(self).inv(heap@) ==> final(self).inv(heap@),
            state_wf(old(self).st(heap@)) && fresh_op_wf(old(self).st(heap@).cur, op) ==> state_wf(final(self).st(heap@)),
            values_extend(old(self).st(heap@).cur, final(self).st(heap@).cur),
    {
        proof {
            if state_wf(old(self).st(heap@)) && fresh_op_wf(old(self).st(heap@).cur, op) {
                lemma_push_op_wf(old(self).st(heap@).cur, op, old(self).tokens@[old(self).token_pos - 1].line);
            }
        }
        proof {
            self.lemma_src();
        }
        let line = self.previous().line;
        self.compiler.function.chunk.add_instruction(op, line);
    }

    /// Appends the constant `v`; its index.
    fn make_constant(&mut self, heap: &Allocator, v: Value) -> (i: usize)
        ensures
            final(self).st(heap@) == add_constant(old(self).st(heap@), v),
            i == old(self).st(heap@).cur.values.len(),
            final(self).src() == old(self).src(),
            final(self).tokens == old(self).tokens,
            final(self).numbers == old(self).numbers,
            final(self).token_pos == old(self).token_pos,
            final(self).enclosing == old(self).enclosing,
            old(self).inv(heap@) ==> final(self).inv(heap@),
            state_wf(old(self).st(heap@)) ==> state_wf(final(self).st(heap@)),
            values_extend(old(self).st(heap@).cur, final(self).st(heap@).cur),
    {
        proof {
            if state_wf(old(self).st(heap@)) {
                lemma_push_value_wf(old(self).st(heap@).cur, v);
            }
        }
        self.compiler.function.chunk.add_constant(v)
    }

    /// Appends the constant `v` and the instruction that loads it.
    fn emit_constant(&mut self, heap: &Allocator, v: Value)
        requires
            1 <= old(self).token_pos <= old(self).tokens@.len(),
        ensures
            final(self).st(heap@) == emit_constant(old(self).src(), old(self).st(heap@), v),
            final(self).src() == old(self).src(),
            final(self).tokens == old(self).tokens,
            final(self).numbers == old(self).numbers,
            final(self).token_pos == old(self).token_pos,
            final(self).enclosing == old(self).enclosing,
            old(self).inv(heap@) ==> final(self).inv(heap@),
            state_wf(old(self).st(heap@)) ==> state_wf(final(self).st(heap@)),
            values_extend(old(self).st(heap@).cur, final(self).st(heap@).cur),
    {
        let i = self.make_constant(heap, v);
        self.emit(heap, OpCode::Constant(i));
    }

    /// Returns `nil`.
    fn emit_return(&mut self, heap: &Allocator)
        requires
            1 <= old(self).token_pos <= old(self).tokens@.len(),
        ensures
            final(self).st(heap@) == emit_return(old(self).src(), old(self).st(heap@)),
            final(self).src() == old(self).src(),
            final(self).tokens == old(self).tokens,
            final(self).numbers == old(self).numbers,
            final(self).token_pos == old(self).token_pos,
            final(self).enclosing == old(self).enclosing,
            old(self).inv(heap@) ==> final(self).inv(heap@),
            state_wf(old(self).st(heap@)) ==> state_wf(final(self).st(heap@)),
            values_extend(old(self).st(heap@).cur, final(self).st(heap@).cur),
    {
        self.emit(heap, OpCode::Nil);
        self.emit(heap, OpCode::Return);
    }

    /// Ends the function under construction with a return of `nil`.
    fn end_compiler(&mut self, heap: &Allocator)
        requires
            1 <= old(self).token_pos <= old(self).tokens@.len(),
        ensures
            final(self).st(heap@) == emit_return(old(self).src(), old(self).st(heap@)),
            final(self).src() == old(self).src(),
            final(self).tokens == old(self).tokens,
            final(self).numbers == old(self).numbers,
            final(self).token_pos == old(self).token_pos,
            final(self).enclosing == old(self).enclosing,
            old(self).inv(heap@) ==> final(self).inv(heap@),
            state_wf(old(self).st(heap@)) ==> state_wf(final(self).st(heap@)),
    {
        self.emit_return(heap);
    }

    /// Appends a jump to be patched; its index.
    fn emit_jump(&mut self, heap: &Allocator, op: OpCode) -> (i: usize)
        requires
            1 <= old(self).token_pos <= old(self).tokens@.len(),
        ensures
            final(self).st(heap@) == emit(old(self).src(), old(self).st(heap@), op),
            i == old(self).st(heap@).cur.code.len(),
            final(self).src() == old(self).src(),
            final(self).tokens == old(self).tokens,
            final(self).numbers == old(self).numbers,
            final(self).token_pos == old(self).token_pos,
            final(self).enclosing == old(self).enclosing,
            old(self).inv(heap@) ==> final(self).inv(heap@),
            state_wf(old(self).st(heap@)) && fresh_op_wf(old(self).st(heap@).cur, op) ==> state_wf(final(self).st(heap@)),
            values_extend(old(self).st(heap@).cur, final(self).st(heap@).cur),
    {
        self.emit(heap, op);
        self.compiler.function.chunk.instructions.len() - 1
    }

    /// Sets the jump at `pos` to land after the last instruction.
    fn patch_jump(&mut self, heap: &Allocator, pos: usize) -> (r: Result<(), CompileError>)
        ensures
            out_of(r, final(self).st(heap@)) == lift(patch_jump(old(self).st(heap@), pos as int)),
            final(self).src() == old(self).src(),
            final(self).tokens == old(self).tokens,
            final(self).numbers == old(self).numbers,
            final(self).token_pos == old(self).token_pos,
            final(self).enclosing == old(self).enclosing,
            old(self).inv(heap@) ==> final(self).inv(heap@),
            state_wf(old(self).st(heap@)) && r is Ok ==> state_wf(final(self).st(heap@)),
            values_extend(old(self).st(heap@).cur, final(self).st(heap@).cur),
    {
        proof {
            if state_wf(old(self).st(heap@)) {
                lemma_patch_wf(old(self).st(heap@), pos as int);
            }
        }
        let n = self.compiler.function.chunk.instructions.len();
        if pos >= n {
            return Err(CompileError::Abort);
        }
        let offset = n - 1 - pos;
        match self.compiler.function.chunk.instructions[pos] {
            OpCode::JumpIfFalse(_) => {
                self.compiler.function.chunk.instructions.set(pos, OpCode::JumpIfFalse(offset));
                Ok(())
            },
            OpCode::Jump(_) => {
                self.compiler.function.chunk.instructions.set(pos, OpCode::Jump(offset));
                Ok(())
            },
            _ => Err(CompileError::Abort),
        }
    }

    /// Appends a jump back to the instruction after `start`.
    fn emit_loop(&mut self, heap: &Allocator, start: usize) -> (r: Result<(), CompileError>)
        requires
            1 <= old(self).token_pos <= old(self).tokens@.len(),
        ensures
            out_of(r, final(self).st(heap@)) == lift(emit_loop(old(self).src(), old(self).st(heap@), start as int)),
            final(self).src() == old(self).src(),
            final(self).tokens == old(self).tokens,
            final(self).numbers == old(self).numbers,
            final(self).token_pos == old(self).token_pos,
            final(self).enclosing == old(self).enclosing,
            old(self).inv(heap@) ==> final(self).inv(heap@),
            state_wf(old(self).st(heap@)) && r is Ok ==> state_wf(final(self).st(heap@)),
            values_extend(old(self).st(heap@).cur, final(self).st(heap@).cur),
    {
        let n = self.compiler.function.chunk.instructions.len();
        if start > n {
            return Err(CompileError::Abort);
        }
        self.emit(heap, OpCode::Loop(n - start));
        Ok(())
    }

    /// Enters a scope.
    fn begin_scope(&mut self, heap: &Allocator) -> (r: Result<(), CompileError>)
        ensures
            out_of(r, final(self).st(heap@)) == lift(begin_scope(old(self).st(heap@))),
            final(self).src() == old(self).src(),
            final(self).tokens == old(self).tokens,
            final(self).numbers == old(self).numbers,
            final(self).token_pos == old(self).token_pos,
            final(self).enclosing == old(self).enclosing,
            old(self).inv(heap@) ==> final(self).inv(heap@),
            state_wf(old(self).st(heap@)) && r is Ok ==> state_wf(final(self).st(heap@)),
    {
        if self.compiler.scope_depth == usize::MAX {
            return Err(CompileError::Abort);
        }
        self.compiler.scope_depth = self.compiler.scope_depth + 1;
        Ok(())
    }

    /// Leaves a scope, popping its locals off the stack.
    fn end_scope(&mut self, heap: &Allocator) -> (r: Result<(), CompileError>)
        requires
            1 <= old(self).token_pos <= old(self).tokens@.len(),
        ensures
            out_of(r, final(self).st(heap@)) == lift(end_scope(old(self).src(), old(self).st(heap@))),
            final(self).src() == old(self).src(),
            final(self).tokens == old(self).tokens,
            final(self).numbers == old(self).numbers,
            final(self).token_pos == old(self).token_pos,
            final(self).enclosing == old(self).enclosing,
            old(self).inv(heap@) ==> final(self).inv(heap@),
            state_wf(old(self).st(heap@)) && r is Ok ==> state_wf(final(self).st(heap@)),
    {
        if self.compiler.scope_depth == 0 {
            return Err(CompileError::Abort);
        }
        self.compiler.scope_depth = self.compiler.scope_depth - 1;
        let ghost src = self.src();
        let ghost target = pop_locals(src, self.st(heap@));
        while self.compiler.locals.len() > 0
            && self.compiler.locals[self.compiler.locals.len() - 1].depth > self.compiler.scope_depth
            invariant
                1 <= self.token_pos <= self.tokens@.len(),
                self.src() == src,
                self.token_pos == old(self).token_pos,
                self.tokens == old(self).tokens,
                self.numbers == old(self).numbers,
                self.enclosing == old(self).enclosing,
                self.compiler.function.name == old(self).compiler.function.name,
                old(self).inv(heap@) ==> self.inv(heap@),
                state_wf(old(self).st(heap@)) ==> state_wf(self.st(heap@)),
                pop_locals(src, self.st(heap@)) == target,
            decreases self.compiler.locals@.len(),
        {
            let ghost before = self.st(heap@);
            self.compiler.locals.pop();
            assert(locals_view(self.compiler.locals@) =~= before.cur.locals.drop_last());
            self.emit(heap, OpCode::Pop);
        }
        Ok(())
    }

    /// Adds the name of a global as a constant; its index.
    fn identifier_constant(&mut self, heap: &mut Allocator, name: &str) -> (i: usize)
        requires
            old(self).inv(old(heap)@),
        ensures
            (final(self).st(final(heap)@), i) == identifier_constant(old(self).st(old(heap)@), name@),
            final(self).inv(final(heap)@),
            final(heap).wf(),
            final(self).src() == old(self).src(),
            final(self).tokens == old(self).tokens,
            final(self).numbers == old(self).numbers,
            final(self).token_pos == old(self).token_pos,
            final(self).enclosing == old(self).enclosing,
            state_wf(old(self).st(old(heap)@)) ==> state_wf(final(self).st(final(heap)@)),
            values_extend(old(self).st(old(heap)@).cur, final(self).st(final(heap)@).cur),
            i < final(self).st(final(heap)@).cur.values.len() && final(self).st(final(heap)@).cur.values[i as int] is String,
            fns_wf(old(heap)@) ==> fns_wf(final(heap)@),
    {
        proof {
            if fns_wf(old(heap)@) {
                lemma_intern_fns_wf(old(heap)@, name@);
            }
        }
        proof {
            lemma_intern(old(heap)@, name@);
        }
        let r = heap.new_string(name.to_string());
        self.make_constant(heap, Value::String(r))
    }

    /// The name just read; in a scope it becomes a local, not yet initialized.
    fn parse_identifier(&mut self, heap: &Allocator) -> (name: &'a str)
        requires
            1 <= old(self).token_pos <= old(self).tokens@.len(),
        ensures
            (final(self).st(heap@), name@) == parse_identifier(old(self).src(), old(self).st(heap@)),
            final(self).src() == old(self).src(),
            final(self).tokens == old(self).tokens,
            final(self).numbers == old(self).numbers,
            final(self).token_pos == old(self).token_pos,
            final(self).enclosing == old(self).enclosing,
            old(self).inv(heap@) ==> final(self).inv(heap@),
            state_wf(old(self).st(heap@)) ==> state_wf(final(self).st(heap@)),
    {
        proof {
            self.lemma_src();
        }
        let name = self.previous().source;
        if self.compiler.scope_depth > 0 {
            let ghost before = self.compiler.locals@;
            self.compiler.locals.push(Local { name, depth: 0 });
            assert(locals_view(self.compiler.locals@) =~= locals_view(before).push((name@, 0usize)));
        }
        name
    }

    /// Defines the variable just declared: in a scope the last local gets the
    /// scope's depth; otherwise a global of that name is defined.
    fn define_variable(&mut self, heap: &mut Allocator, name: &'a str) -> (r: Result<(), CompileError>)
        requires
            old(self).inv(old(heap)@),
            1 <= old(self).token_pos <= old(self).tokens@.len(),
        ensures
            out_of(r, final(self).st(final(heap)@)) == lift(define_variable(old(self).src(), old(self).st(old(heap)@), name@)),
            final(self).src() == old(self).src(),
            final(self).tokens == old(self).tokens,
            final(self).numbers == old(self).numbers,
            final(self).token_pos == old(self).token_pos,
            final(self).enclosing == old(self).enclosing,
            r is Ok ==> final(self).inv(final(heap)@),
            final(heap).wf(),
            state_wf(old(self).st(old(heap)@)) && r is Ok ==> state_wf(final(self).st(final(heap)@)),
            fns_wf(old(heap)@) ==> fns_wf(final(heap)@),
    {
        if self.compiler.scope_depth > 0 {
            let n = self.compiler.locals.len();
            if n == 0 {
                return Err(CompileError::Abort);
            }
            let last = self.compiler.locals[n - 1];
            let ghost before = self.compiler.locals@;
            self.compiler.locals.set(n - 1, Local { name: last.name, depth: self.compiler.scope_depth });
            assert(locals_view(self.compiler.locals@) =~= locals_view(before).update(
                n - 1,
                (locals_view(before)[n - 1].0, self.compiler.scope_depth),
            ));
            return Ok(());
        }
        let g = self.identifier_constant(heap, name);
        self.emit(heap, OpCode::DefineGlobal(g));
        Ok(())
    }

    /// Starts compiling a function called `name`, inside the current one.
    fn push_compiler(&mut self, heap: &mut Allocator, name: &str, kind: FunctionType)
        requires
            old(self).inv(old(heap)@),
        ensures
            final(self).st(final(heap)@) == push_compiler(old(self).st(old(heap)@), name@, kind),
            final(self).inv(final(heap)@),
            final(heap).wf(),
            final(self).src() == old(self).src(),
            final(self).tokens == old(self).tokens,
            final(self).numbers == old(self).numbers,
            final(self).token_pos == old(self).token_pos,
            state_wf(old(self).st(old(heap)@)) ==> state_wf(final(self).st(final(heap)@)),
            fns_wf(old(heap)@) ==> fns_wf(final(heap)@),
    {
        proof {
            if fns_wf(old(heap)@) {
                lemma_intern_fns_wf(old(heap)@, name@);
            }
        }
        proof {
            lemma_intern(old(heap)@, name@);
        }
        let r = heap.new_string(name.to_string());
        let mut c = Compiler::new(kind, r);
        std::mem::swap(&mut self.compiler, &mut c);
        let ghost before = self.enclosing@;
        self.enclosing.push(c);
        assert(self.enclosing@.map_values(|c: Compiler<'a>| c.frame()) =~= before.map_values(|c: Compiler<'a>| c.frame()).push(
            c.frame(),
        ));
    }

    /// Finishes the function under construction with a return of `nil` and
    /// goes back to the one it is nested in; the finished function.
    fn pop_compiler(&mut self, heap: &Allocator) -> (r: Result<Function, CompileError>)
        requires
            1 <= old(self).token_pos <= old(self).tokens@.len(),
        ensures
            match pop_compiler(old(self).src(), old(self).st(heap@)) {
                None => r == Err::<Function, CompileError>(CompileError::Abort),
                Some((s1, f)) => r matches Ok(func) && final(self).st(heap@) == s1 && func.name == f.name
                    && func.chunk.instructions@ == f.code && func.chunk.values@ == f.values && func.chunk.lines@ == f.lines,
            },
            final(self).src() == old(self).src(),
            final(self).tokens == old(self).tokens,
            final(self).numbers == old(self).numbers,
            final(self).token_pos == old(self).token_pos,
            state_wf(old(self).st(heap@)) ==> (r matches Ok(func) ==> state_wf(final(self).st(heap@)) && code_wf(func.chunk.instructions@, func.chunk.values@, func.chunk.lines@)),
    {
        self.end_compiler(heap);
        let ghost before = self.enclosing@;
        match self.enclosing.pop() {
            Some(mut enc) => {
                assert(self.enclosing@.map_values(|c: Compiler<'a>| c.frame()) =~= before.map_values(
                    |c: Compiler<'a>| c.frame(),
                ).drop_last());
                std::mem::swap(&mut self.compiler, &mut enc);
                Ok(enc.function)
            },
            None => Err(CompileError::Abort),
        }
    }

    /// Finishes a function declaration: its function goes to the heap, and
    /// the enclosing code makes a closure of it.
    fn finish_function(&mut self, heap: &mut Allocator) -> (r: Result<(), CompileError>)
        requires
            old(self).inv(old(heap)@),
            1 <= old(self).token_pos <= old(self).tokens@.len(),
        ensures
            out_of(r, final(self).st(final(heap)@)) == finish_function(old(self).src(), old(self).st(old(heap)@)),
            final(self).src() == old(self).src(),
            final(self).tokens == old(self).tokens,
            final(self).numbers == old(self).numbers,
            final(self).token_pos == old(self).token_pos,
            r is Ok ==> final(self).inv(final(heap)@),
            final(heap).wf(),
            state_wf(old(self).st(old(heap)@)) && r is Ok ==> state_wf(final(self).st(final(heap)@)),
            state_wf(old(self).st(old(heap)@)) && fns_wf(old(heap)@) && r is Ok ==> fns_wf(final(heap)@),
    {
        let ghost s0 = self.st(heap@);
        let f = self.pop_compiler(heap)?;
        assert(f.name@ < heap@.objects.len());
        let ghost h0 = heap@;
        proof {
            if state_wf(s0) && fns_wf(h0) {
                let fr = Frame {
                    code: f.chunk.instructions@,
                    lines: f.chunk.lines@,
                    values: f.chunk.values@,
                    name: f.name,
                    locals: Seq::empty(),
                    depth: 0,
                    kind: FunctionType::Function,
                };
                lemma_store_fns_wf(self.st(heap@), fr);
            }
        }
        let fref = heap.allocate(f);
        assert(heap@.objects.len() >= h0.objects.len());
        let i = self.make_constant(heap, Value::Function(fref));
        self.emit(heap, OpCode::Closure(i));
        assert(forall|k: int| 0 <= k < s0.outer.len() ==> (#[trigger] s0.outer[k]).name@ < h0.objects.len());
        Ok(())
    }

    /// The slot of the local `name`: the innermost one; an error where it is
    /// still being initialized.
    fn resolve_local(&self, name: &str) -> (r: Result<Option<usize>, CompileError>)
        ensures
            r == resolve_local(self.compiler.frame(), name@),
    {
        let ghost lv = locals_view(self.compiler.locals@);
        let mut i = self.compiler.locals.len();
        while i > 0
            invariant
                i <= self.compiler.locals@.len(),
                lv == locals_view(self.compiler.locals@),
                lv == self.compiler.frame().locals,
                find_local(lv, name@, lv.len() - 1) == find_local(lv, name@, i - 1),
            decreases i,
        {
            i = i - 1;
            let l = self.compiler.locals[i];
            if str_eq(l.name, name) {
                if l.depth == 0 {
                    return Err(CompileError::Plain("Can't read local variable in its own initializer."));
                }
                return Ok(Some(i));
            }
        }
        Ok(None)
    }

    /// A function, variable or statement.
    fn declaration(&mut self, heap: &mut Allocator) -> (r: Result<(), CompileError>)
        requires
            old(self).inv(old(heap)@),
            state_wf(old(self).st(old(heap)@)),
            old(self).token_pos < old(self).tokens@.len(),
        ensures
            out_of(r, final(self).st(final(heap)@)) == declaration(old(self).src(), old(self).st(old(heap)@)),
            final(self).src() == old(self).src(),
            final(self).tokens == old(self).tokens,
            final(self).numbers == old(self).numbers,
            r is Ok ==> final(self).inv(final(heap)@) && old(self).token_pos < final(self).token_pos < final(self).tokens@.len(),
            r is Ok ==> state_wf(final(self).st(final(heap)@)),
            r is Ok && fns_wf(old(heap)@) ==> fns_wf(final(heap)@),
        decreases old(self).tokens@.len() - old(self).token_pos, 22int,
    {
        let t = self.current().typ;
        if t == TokenType::Fun {
            self.advance(heap);
            self.fun_declaration(heap)
        } else if t == TokenType::Var {
            self.advance(heap);
            self.var_declaration(heap)
        } else {
            self.statement(heap)
        }
    }

    /// `fun` NAME, then the function.
    fn fun_declaration(&mut self, heap: &mut Allocator) -> (r: Result<(), CompileError>)
        requires
            old(self).inv(old(heap)@),
            state_wf(old(self).st(old(heap)@)),
            old(self).token_pos < old(self).tokens@.len(),
            1 <= old(self).token_pos,
        ensures
            out_of(r, final(self).st(final(heap)@)) == fun_declaration(old(self).src(), old(self).st(old(heap)@)),
            final(self).src() == old(self).src(),
            final(self).tokens == old(self).tokens,
            final(self).numbers == old(self).numbers,
            r is Ok ==> final(self).inv(final(heap)@) && old(self).token_pos <= final(self).token_pos < final(self).tokens@.len(),
            r is Ok ==> state_wf(final(self).st(final(heap)@)),
            r is Ok && fns_wf(old(heap)@) ==> fns_wf(final(heap)@),
        decreases old(self).tokens@.len() - old(self).token_pos, 21int,
    {
        self.consume(heap, TokenType::Identifier, "Expect function name")?;
        let name = self.parse_identifier(heap);
        self.function(heap, name, FunctionType::Function)?;
        self.define_variable(heap, name)
    }

    /// `var` NAME, an optional `=` and initializer, `;`.
    fn var_declaration(&mut self, heap: &mut Allocator) -> (r: Result<(), CompileError>)
        requires
            old(self).inv(old(heap)@),
            state_wf(old(self).st(old(heap)@)),
            old(self).token_pos < old(self).tokens@.len(),
            1 <= old(self).token_pos,
        ensures
            out_of(r, final(self).st(final(heap)@)) == var_declaration(old(self).src(), old(self).st(old(heap)@)),
            final(self).src() == old(self).src(),
            final(self).tokens == old(self).tokens,
            final(self).numbers == old(self).numbers,
            r is Ok ==> final(self).inv(final(heap)@) && old(self).token_pos <= final(self).token_pos < final(self).tokens@.len(),
            r is Ok ==> state_wf(final(self).st(final(heap)@)),
            r is Ok && fns_wf(old(heap)@) ==> fns_wf(final(heap)@),
        decreases old(self).tokens@.len() - old(self).token_pos, 21int,
    {
        self.consume(heap, TokenType::Identifier, "Expect variable name")?;
        let name = self.parse_identifier(heap);
        if self.advance_if_matched(heap, TokenType::Equal) {
            self.expression(heap)?;
        } else {
            self.emit(heap, OpCode::Nil);
        }
        self.consume(heap, TokenType::SemiColon, "Expect ';' after value declaration.")?;
        self.define_variable(heap, name)
    }

    /// The parameters and body of a function called `name`, compiled as a function of its own, then made a closure of.
    fn function(&mut self, heap: &mut Allocator, name: &str, kind: FunctionType) -> (r: Result<(), CompileError>)
        requires
            old(self).inv(old(heap)@),
            state_wf(old(self).st(old(heap)@)),
            old(self).token_pos < old(self).tokens@.len(),
            1 <= old(self).token_pos,
        ensures
            out_of(r, final(self).st(final(heap)@)) == function(old(self).src(), old(self).st(old(heap)@), name@, kind),
            final(self).src() == old(self).src(),
            final(self).tokens == old(self).tokens,
            final(self).numbers == old(self).numbers,
            r is Ok ==> final(self).inv(final(heap)@) && old(self).token_pos <= final(self).token_pos < final(self).tokens@.len(),
            r is Ok ==> state_wf(final(self).st(final(heap)@)),
            r is Ok && fns_wf(old(heap)@) ==> fns_wf(final(heap)@),
        decreases old(self).tokens@.len() - old(self).token_pos, 20int,
    {
        self.push_compiler(heap, name, kind);
        self.begin_scope(heap)?;
        self.consume(heap, TokenType::LeftParen, "Expect '(' after function name.")?;
        if !self.advance_if_matched(heap, TokenType::RightParen) {
            self.params(heap)?;
            self.consume(heap, TokenType::RightParen, "Expect ')' after parameters.")?;
        }
        self.consume(heap, TokenType::LeftBrace, "Expect '{' before function body.")?;
        self.block(heap)?;
        self.finish_function(heap)
    }

    /// The parameter names, separated by commas; each becomes a local.
    fn params(&mut self, heap: &mut Allocator) -> (r: Result<(), CompileError>)
        requires
            old(self).inv(old(heap)@),
            state_wf(old(self).st(old(heap)@)),
            old(self).token_pos < old(self).tokens@.len(),
            1 <= old(self).token_pos,
        ensures
            out_of(r, final(self).st(final(heap)@)) == params(old(self).src(), old(self).st(old(heap)@)),
            final(self).src() == old(self).src(),
            final(self).tokens == old(self).tokens,
            final(self).numbers == old(self).numbers,
            r is Ok ==> final(self).inv(final(heap)@) && old(self).token_pos <= final(self).token_pos < final(self).tokens@.len(),
            r is Ok ==> state_wf(final(self).st(final(heap)@)),
            r is Ok && fns_wf(old(heap)@) ==> fns_wf(final(heap)@),
        decreases old(self).tokens@.len() - old(self).token_pos, 20int,
    {
        let ghost src = self.src();
        let ghost target = params(src, self.st(heap@));
        loop
            invariant
                self.inv(heap@),
                1 <= self.token_pos < self.tokens@.len(),
                self.src() == src,
                src == old(self).src(),
                self.tokens == old(self).tokens,
                self.numbers == old(self).numbers,
                self.tokens@.len() == old(self).tokens@.len(),
                target == params(old(self).src(), old(self).st(old(heap)@)),
                old(self).token_pos <= self.token_pos,
                state_wf(self.st(heap@)),
                fns_wf(old(heap)@) ==> fns_wf(heap@),
                params(src, self.st(heap@)) == target,
            decreases self.tokens@.len() - self.token_pos,
        {
            self.advance(heap);
            let p = self.parse_identifier(heap);
            self.define_variable(heap, p)?;
            if self.token_pos >= self.tokens.len() {
                return Err(CompileError::Abort);
            }
            if !self.advance_if_matched(heap, TokenType::Comma) {
                return Ok(());
            }
        }
    }

    /// The declarations of a block, through its closing brace.
    fn block(&mut self, heap: &mut Allocator) -> (r: Result<(), CompileError>)
        requires
            old(self).inv(old(heap)@),
            state_wf(old(self).st(old(heap)@)),
            old(self).token_pos < old(self).tokens@.len(),
        ensures
            out_of(r, final(self).st(final(heap)@)) == block(old(self).src(), old(self).st(old(heap)@)),
            final(self).src() == old(self).src(),
            final(self).tokens == old(self).tokens,
            final(self).numbers == old(self).numbers,
            r is Ok ==> final(self).inv(final(heap)@) && old(self).token_pos <= final(self).token_pos < final(self).tokens@.len(),
            r is Ok ==> state_wf(final(self).st(final(heap)@)),
            r is Ok && fns_wf(old(heap)@) ==> fns_wf(final(heap)@),
        decreases old(self).tokens@.len() - old(self).token_pos, 24int,
    {
        let ghost src = self.src();
        let ghost target = block_loop(src, self.st(heap@));
        while self.current().typ != TokenType::RightBrace && self.current().typ != TokenType::Eof
            invariant
                self.inv(heap@),
                self.token_pos < self.tokens@.len(),
                self.src() == src,
                src == old(self).src(),
                self.tokens == old(self).tokens,
                self.numbers == old(self).numbers,
                self.tokens@.len() == old(self).tokens@.len(),
                target == block_loop(old(self).src(), old(self).st(old(heap)@)),
                old(self).token_pos <= self.token_pos,
                state_wf(self.st(heap@)),
                fns_wf(old(heap)@) ==> fns_wf(heap@),
                block_loop(src, self.st(heap@)) == target,
            decreases self.tokens@.len() - self.token_pos,
        {
            self.declaration(heap)?;
        }
        self.consume(heap, TokenType::RightBrace, "Expect '}' after block.")
    }

    /// A statement.
    fn statement(&mut self, heap: &mut Allocator) -> (r: Result<(), CompileError>)
        requires
            old(self).inv(old(heap)@),
            state_wf(old(self).st(old(heap)@)),
            old(self).token_pos < old(self).tokens@.len(),
        ensures
            out_of(r, final(self).st(final(heap)@)) == statement(old(self).src(), old(self).st(old(heap)@)),
            final(self).src() == old(self).src(),
            final(self).tokens == old(self).tokens,
            final(self).numbers == old(self).numbers,
            r is Ok ==> final(self).inv(final(heap)@) && old(self).token_pos < final(self).token_pos < final(self).tokens@.len(),
            r is Ok ==> state_wf(final(self).st(final(heap)@)),
            r is Ok && fns_wf(old(heap)@) ==> fns_wf(final(heap)@),
        decreases old(self).tokens@.len() - old(self).token_pos, 20int,
    {
        let t = self.current().typ;
        if t == TokenType::Print {
            self.advance(heap);
            self.print_statement(heap)
        } else if t == TokenType::If {
            self.advance(heap);
            self.if_statement(heap)
        } else if t == TokenType::Return {
            self.advance(heap);
            self.return_statement(heap)
        } else if t == TokenType::While {
            self.advance(heap);
            self.while_statement(heap)
        } else if t == TokenType::For {
            self.advance(heap);
            self.for_statement(heap)
        } else if t == TokenType::LeftBrace {
            self.advance(heap);
            self.begin_scope(heap)?;
            self.block(heap)?;
            self.end_scope(heap)
        } else {
            self.expression_statement(heap)
        }
    }

    /// `print` EXPRESSION `;`.
    fn print_statement(&mut self, heap: &mut Allocator) -> (r: Result<(), CompileError>)
        requires
            old(self).inv(old(heap)@),
            state_wf(old(self).st(old(heap)@)),
            old(self).token_pos < old(self).tokens@.len(),
            1 <= old(self).token_pos,
        ensures
            out_of(r, final(self).st(final(heap)@)) == print_statement(old(self).src(), old(self).st(old(heap)@)),
            final(self).src() == old(self).src(),
            final(self).tokens == old(self).tokens,
            final(self).numbers == old(self).numbers,
            r is Ok ==> final(self).inv(final(heap)@) && old(self).token_pos <= final(self).token_pos < final(self).tokens@.len(),
            r is Ok ==> state_wf(final(self).st(final(heap)@)),
            r is Ok && fns_wf(old(heap)@) ==> fns_wf(final(heap)@),
        decreases old(self).tokens@.len() - old(self).token_pos, 19int,
    {
        self.expression(heap)?;
        self.consume(heap, TokenType::SemiColon, "Expect ';' after print statement.")?;
        self.emit(heap, OpCode::Print);
        Ok(())
    }

    /// `if` `(` CONDITION `)` STATEMENT, then `else` STATEMENT where it follows.
    fn if_statement(&mut self, heap: &mut Allocator) -> (r: Result<(), CompileError>)
        requires
            old(self).inv(old(heap)@),
            state_wf(old(self).st(old(heap)@)),
            old(self).token_pos < old(self).tokens@.len(),
            1 <= old(self).token_pos,
        ensures
            out_of(r, final(self).st(final(heap)@)) == if_statement(old(self).src(), old(self).st(old(heap)@)),
            final(self).src() == old(self).src(),
            final(self).tokens == old(self).tokens,
            final(self).numbers == old(self).numbers,
            r is Ok ==> final(self).inv(final(heap)@) && old(self).token_pos <= final(self).token_pos < final(self).tokens@.len(),
            r is Ok ==> state_wf(final(self).st(final(heap)@)),
            r is Ok && fns_wf(old(heap)@) ==> fns_wf(final(heap)@),
        decreases old(self).tokens@.len() - old(self).token_pos, 19int,
    {
        self.consume(heap, TokenType::LeftParen, "Expect '(' after 'if'.")?;
        self.expression(heap)?;
        self.consume(heap, TokenType::RightParen, "Expect ')' after condition of 'if'.")?;
        let then_pos = self.emit_jump(heap, OpCode::JumpIfFalse(0));
        self.emit(heap, OpCode::Pop);
        self.statement(heap)?;
        let else_pos = self.emit_jump(heap, OpCode::Jump(0));
        self.patch_jump(heap, then_pos)?;
        self.emit(heap, OpCode::Pop);
        if self.advance_if_matched(heap, TokenType::Else) {
            self.statement(heap)?;
        }
        self.patch_jump(heap, else_pos)
    }

    /// `return` `;`, or `return` VALUE `;`; refused in the script.
    fn return_statement(&mut self, heap: &mut Allocator) -> (r: Result<(), CompileError>)
        requires
            old(self).inv(old(heap)@),
            state_wf(old(self).st(old(heap)@)),
            old(self).token_pos < old(self).tokens@.len(),
            1 <= old(self).token_pos,
        ensures
            out_of(r, final(self).st(final(heap)@)) == return_statement(old(self).src(), old(self).st(old(heap)@)),
            final(self).src() == old(self).src(),
            final(self).tokens == old(self).tokens,
            final(self).numbers == old(self).numbers,
            r is Ok ==> final(self).inv(final(heap)@) && old(self).token_pos <= final(self).token_pos < final(self).tokens@.len(),
            r is Ok ==> state_wf(final(self).st(final(heap)@)),
            r is Ok && fns_wf(old(heap)@) ==> fns_wf(final(heap)@),
        decreases old(self).tokens@.len() - old(self).token_pos, 19int,
    {
        if self.compiler.func_type == FunctionType::Script {
            return Err(CompileError::At(self.current().line, "Cannot return from top-level code."));
        }
        if self.advance_if_matched(heap, TokenType::SemiColon) {
            self.emit_return(heap);
            return Ok(());
        }
        self.expression(heap)?;
        self.consume(heap, TokenType::SemiColon, "Expect ';' after return value.")?;
        self.emit(heap, OpCode::Return);
        Ok(())
    }

    /// `while` `(` CONDITION `)` STATEMENT; the loop starts over after the last instruction emitted before it.
    fn while_statement(&mut self, heap: &mut Allocator) -> (r: Result<(), CompileError>)
        requires
            old(self).inv(old(heap)@),
            state_wf(old(self).st(old(heap)@)),
            old(self).token_pos < old(self).tokens@.len(),
            1 <= old(self).token_pos,
        ensures
            out_of(r, final(self).st(final(heap)@)) == while_statement(old(self).src(), old(self).st(old(heap)@)),
            final(self).src() == old(self).src(),
            final(self).tokens == old(self).tokens,
            final(self).numbers == old(self).numbers,
            r is Ok ==> final(self).inv(final(heap)@) && old(self).token_pos <= final(self).token_pos < final(self).tokens@.len(),
            r is Ok ==> state_wf(final(self).st(final(heap)@)),
            r is Ok && fns_wf(old(heap)@) ==> fns_wf(final(heap)@),
        decreases old(self).tokens@.len() - old(self).token_pos, 19int,
    {
        let n = self.compiler.function.chunk.instructions.len();
        if n == 0 {
            return Err(CompileError::Abort);
        }
        let start = n - 1;
        self.consume(heap, TokenType::LeftParen, "Expect '(' after 'while'.")?;
        self.expression(heap)?;
        self.consume(heap, TokenType::RightParen, "Expect ')' after condition of 'while'.")?;
        let exit = self.emit_jump(heap, OpCode::JumpIfFalse(0));
        self.emit(heap, OpCode::Pop);
        self.statement(heap)?;
        self.emit_loop(heap, start)?;
        self.patch_jump(heap, exit)?;
        self.emit(heap, OpCode::Pop);
        Ok(())
    }

    /// `for` `(` INITIALIZER CONDITION `;` INCREMENT `)` STATEMENT, in a scope of its own.
    fn for_statement(&mut self, heap: &mut Allocator) -> (r: Result<(), CompileError>)
        requires
            old(self).inv(old(heap)@),
            state_wf(old(self).st(old(heap)@)),
            old(self).token_pos < old(self).tokens@.len(),
            1 <= old(self).token_pos,
        ensures
            out_of(r, final(self).st(final(heap)@)) == for_statement(old(self).src(), old(self).st(old(heap)@)),
            final(self).src() == old(self).src(),
            final(self).tokens == old(self).tokens,
            final(self).numbers == old(self).numbers,
            r is Ok ==> final(self).inv(final(heap)@) && old(self).token_pos <= final(self).token_pos < final(self).tokens@.len(),
            r is Ok ==> state_wf(final(self).st(final(heap)@)),
            r is Ok && fns_wf(old(heap)@) ==> fns_wf(final(heap)@),
        decreases old(self).tokens@.len() - old(self).token_pos, 19int,
    {
        self.begin_scope(heap)?;
        self.consume(heap, TokenType::LeftParen, "Expect '(' after 'for' .")?;
        if self.advance_if_matched(heap, TokenType::SemiColon) {
        } else if self.advance_if_matched(heap, TokenType::Var) {
            self.var_declaration(heap)?;
        } else {
            self.expression_statement(heap)?;
        }
        let n = self.compiler.function.chunk.instructions.len();
        if n == 0 {
            return Err(CompileError::Abort);
        }
        self.for_condition(heap, n - 1)
    }

    /// The condition clause of a `for`: none, or an expression that leaves the loop when false.
    fn for_condition(&mut self, heap: &mut Allocator, cond: usize) -> (r: Result<(), CompileError>)
        requires
            old(self).inv(old(heap)@),
            state_wf(old(self).st(old(heap)@)),
            old(self).token_pos < old(self).tokens@.len(),
            1 <= old(self).token_pos,
        ensures
            out_of(r, final(self).st(final(heap)@)) == for_condition(old(self).src(), old(self).st(old(heap)@), cond as int),
            final(self).src() == old(self).src(),
            final(self).tokens == old(self).tokens,
            final(self).numbers == old(self).numbers,
            r is Ok ==> final(self).inv(final(heap)@) && old(self).token_pos <= final(self).token_pos < final(self).tokens@.len(),
            r is Ok ==> state_wf(final(self).st(final(heap)@)),
            r is Ok && fns_wf(old(heap)@) ==> fns_wf(final(heap)@),
        decreases old(self).tokens@.len() - old(self).token_pos, 18int,
    {
        if self.advance_if_matched(heap, TokenType::SemiColon) {
            return self.for_increment(heap, cond, None);
        }
        self.expression(heap)?;
        self.consume(heap, TokenType::SemiColon, "Expect ';'.")?;
        let exit = self.emit_jump(heap, OpCode::JumpIfFalse(0));
        self.emit(heap, OpCode::Pop);
        self.for_increment(heap, cond, Some(exit))
    }

    /// The increment clause of a `for`: none, or an expression the body jumps over.
    fn for_increment(&mut self, heap: &mut Allocator, cond: usize, exit: Option<usize>) -> (r: Result<(), CompileError>)
        requires
            old(self).inv(old(heap)@),
            state_wf(old(self).st(old(heap)@)),
            old(self).token_pos < old(self).tokens@.len(),
            1 <= old(self).token_pos,
        ensures
            out_of(r, final(self).st(final(heap)@)) == for_increment(old(self).src(), old(self).st(old(heap)@), cond as int, opt_int(exit)),
            final(self).src() == old(self).src(),
            final(self).tokens == old(self).tokens,
            final(self).numbers == old(self).numbers,
            r is Ok ==> final(self).inv(final(heap)@) && old(self).token_pos <= final(self).token_pos < final(self).tokens@.len(),
            r is Ok ==> state_wf(final(self).st(final(heap)@)),
            r is Ok && fns_wf(old(heap)@) ==> fns_wf(final(heap)@),
        decreases old(self).tokens@.len() - old(self).token_pos, 18int,
    {
        if self.advance_if_matched(heap, TokenType::RightParen) {
            return self.for_body(heap, cond, exit);
        }
        let body_jump = self.emit_jump(heap, OpCode::Jump(0));
        self.expression(heap)?;
        self.emit(heap, OpCode::Pop);
        self.consume(heap, TokenType::RightParen, "Expect ')' after clause of 'for' .")?;
        self.emit_loop(heap, cond)?;
        self.patch_jump(heap, body_jump)?;
        self.for_body(heap, body_jump, exit)
    }

    /// The body of a `for`, the jump back to `back`, the exit, the end of its scope.
    fn for_body(&mut self, heap: &mut Allocator, back: usize, exit: Option<usize>) -> (r: Result<(), CompileError>)
        requires
            old(self).inv(old(heap)@),
            state_wf(old(self).st(old(heap)@)),
            old(self).token_pos < old(self).tokens@.len(),
            1 <= old(self).token_pos,
        ensures
            out_of(r, final(self).st(final(heap)@)) == for_body(old(self).src(), old(self).st(old(heap)@), back as int, opt_int(exit)),
            final(self).src() == old(self).src(),
            final(self).tokens == old(self).tokens,
            final(self).numbers == old(self).numbers,
            r is Ok ==> final(self).inv(final(heap)@) && old(self).token_pos <= final(self).token_pos < final(self).tokens@.len(),
            r is Ok ==> state_wf(final(self).st(final(heap)@)),
            r is Ok && fns_wf(old(heap)@) ==> fns_wf(final(heap)@),
        decreases old(self).tokens@.len() - old(self).token_pos, 21int,
    {
        self.statement(heap)?;
        self.emit_loop(heap, back)?;
        match exit {
            Some(e) => {
                self.patch_jump(heap, e)?;
                self.emit(heap, OpCode::Pop);
            },
            None => {},
        }
        self.end_scope(heap)
    }

    /// EXPRESSION `;`, its value dropped.
    fn expression_statement(&mut self, heap: &mut Allocator) -> (r: Result<(), CompileError>)
        requires
            old(self).inv(old(heap)@),
            state_wf(old(self).st(old(heap)@)),
            old(self).token_pos < old(self).tokens@.len(),
        ensures
            out_of(r, final(self).st(final(heap)@)) == expression_statement(old(self).src(), old(self).st(old(heap)@)),
            final(self).src() == old(self).src(),
            final(self).tokens == old(self).tokens,
            final(self).numbers == old(self).numbers,
            r is Ok ==> final(self).inv(final(heap)@) && old(self).token_pos < final(self).token_pos < final(self).tokens@.len(),
            r is Ok ==> state_wf(final(self).st(final(heap)@)),
            r is Ok && fns_wf(old(heap)@) ==> fns_wf(final(heap)@),
        decreases old(self).tokens@.len() - old(self).token_pos, 18int,
    {
        self.expression(heap)?;
        self.consume(heap, TokenType::SemiColon, "Expect ';' after expression statement.")?;
        self.emit(heap, OpCode::Pop);
        Ok(())
    }

    /// An expression, assignments included.
    fn expression(&mut self, heap: &mut Allocator) -> (r: Result<(), CompileError>)
        requires
            old(self).inv(old(heap)@),
            state_wf(old(self).st(old(heap)@)),
            old(self).token_pos < old(self).tokens@.len(),
        ensures
            out_of(r, final(self).st(final(heap)@)) == expression(old(self).src(), old(self).st(old(heap)@)),
            final(self).src() == old(self).src(),
            final(self).tokens == old(self).tokens,
            final(self).numbers == old(self).numbers,
            r is Ok ==> final(self).inv(final(heap)@) && old(self).token_pos < final(self).token_pos < final(self).tokens@.len(),
            r is Ok ==> state_wf(final(self).st(final(heap)@)),
            r is Ok ==> values_extend(old(self).st(old(heap)@).cur, final(self).st(final(heap)@).cur),
            r is Ok && fns_wf(old(heap)@) ==> fns_wf(final(heap)@),
        decreases old(self).tokens@.len() - old(self).token_pos, 17int,
    {
        self.parse_precedence(heap, Precedence::Assignment)
    }

    /// An expression of operators binding at least as tightly as `prec`.
    fn parse_precedence(&mut self, heap: &mut Allocator, prec: Precedence) -> (r: Result<(), CompileError>)
        requires
            old(self).inv(old(heap)@),
            state_wf(old(self).st(old(heap)@)),
            old(self).token_pos < old(self).tokens@.len(),
        ensures
            out_of(r, final(self).st(final(heap)@)) == parse_precedence(old(self).src(), old(self).st(old(heap)@), prec),
            final(self).src() == old(self).src(),
            final(self).tokens == old(self).tokens,
            final(self).numbers == old(self).numbers,
            r is Ok ==> final(self).inv(final(heap)@) && old(self).token_pos < final(self).token_pos < final(self).tokens@.len(),
            r is Ok ==> state_wf(final(self).st(final(heap)@)),
            r is Ok ==> values_extend(old(self).st(old(heap)@).cur, final(self).st(final(heap)@).cur),
            r is Ok && fns_wf(old(heap)@) ==> fns_wf(final(heap)@),
        decreases old(self).tokens@.len() - old(self).token_pos, 16int,
    {
        self.advance(heap);
        let t = self.previous();
        let rule = match get_rule(t.typ) {
            Some(rule) => rule,
            None => {
                return Err(CompileError::Abort);
            },
        };
        let p = match rule.prefix {
            Some(p) => p,
            None => {
                return Err(CompileError::Near(t.line, "Expect expression"));
            },
        };
        let can_assign = prec.le(&Precedence::Assignment);
        self.prefix(heap, p, can_assign)?;
        self.infix_loop(heap, prec, can_assign)
    }

    /// The operators that extend an expression of precedence `prec`, then the check that no `=` follows where assignment is not allowed.
    fn infix_loop(&mut self, heap: &mut Allocator, prec: Precedence, can_assign: bool) -> (r: Result<(), CompileError>)
        requires
            old(self).inv(old(heap)@),
            state_wf(old(self).st(old(heap)@)),
            old(self).token_pos < old(self).tokens@.len(),
            1 <= old(self).token_pos,
        ensures
            out_of(r, final(self).st(final(heap)@)) == infix_loop(old(self).src(), old(self).st(old(heap)@), prec, can_assign),
            final(self).src() == old(self).src(),
            final(self).tokens == old(self).tokens,
            final(self).numbers == old(self).numbers,
            r is Ok ==> final(self).inv(final(heap)@) && old(self).token_pos <= final(self).token_pos < final(self).tokens@.len(),
            r is Ok ==> state_wf(final(self).st(final(heap)@)),
            r is Ok ==> values_extend(old(self).st(old(heap)@).cur, final(self).st(final(heap)@).cur),
            r is Ok && fns_wf(old(heap)@) ==> fns_wf(final(heap)@),
        decreases old(self).tokens@.len() - old(self).token_pos, 15int,
    {
        let ghost src = self.src();
        let ghost target = infix_loop(src, self.st(heap@), prec, can_assign);
        loop
            invariant
                self.inv(heap@),
                1 <= self.token_pos < self.tokens@.len(),
                self.src() == src,
                src == old(self).src(),
                self.tokens == old(self).tokens,
                self.numbers == old(self).numbers,
                self.tokens@.len() == old(self).tokens@.len(),
                target == infix_loop(old(self).src(), old(self).st(old(heap)@), prec, can_assign),
                old(self).token_pos <= self.token_pos,
                state_wf(self.st(heap@)),
                fns_wf(old(heap)@) ==> fns_wf(heap@),
                values_extend(old(self).st(old(heap)@).cur, self.st(heap@).cur),
                infix_loop(src, self.st(heap@), prec, can_assign) == target,
            decreases self.tokens@.len() - self.token_pos,
        {
            let t = self.current();
            let rule = match get_rule(t.typ) {
                Some(rule) => rule,
                None => {
                    return Err(CompileError::Abort);
                },
            };
            if !prec.le(&rule.precedence) {
                if can_assign && t.typ == TokenType::Equal {
                    return Err(CompileError::Near(t.line, "Invalid assignment target."));
                }
                return Ok(());
            }
            self.advance(heap);
            let i = match rule.infix {
                Some(i) => i,
                None => {
                    return Err(CompileError::Abort);
                },
            };
            self.infix(heap, i, can_assign)?;
        }
    }

    /// The start of an expression, its first token just read.
    fn prefix(&mut self, heap: &mut Allocator, p: Prefix, can_assign: bool) -> (r: Result<(), CompileError>)
        requires
            old(self).inv(old(heap)@),
            state_wf(old(self).st(old(heap)@)),
            old(self).token_pos < old(self).tokens@.len(),
            1 <= old(self).token_pos,
        ensures
            out_of(r, final(self).st(final(heap)@)) == prefix(old(self).src(), old(self).st(old(heap)@), p, can_assign),
            final(self).src() == old(self).src(),
            final(self).tokens == old(self).tokens,
            final(self).numbers == old(self).numbers,
            r is Ok ==> final(self).inv(final(heap)@) && old(self).token_pos <= final(self).token_pos < final(self).tokens@.len(),
            r is Ok ==> state_wf(final(self).st(final(heap)@)),
            r is Ok ==> values_extend(old(self).st(old(heap)@).cur, final(self).st(final(heap)@).cur),
            r is Ok && fns_wf(old(heap)@) ==> fns_wf(final(heap)@),
        decreases old(self).tokens@.len() - old(self).token_pos, 30int,
    {
        match p {
            Prefix::Grouping => self.grouping(heap),
            Prefix::Unary => self.unary(heap),
            Prefix::Variable => self.variable(heap, can_assign),
            Prefix::Str => self.string(heap),
            Prefix::Number => self.number(heap),
            Prefix::Literal => self.literal(heap),
        }
    }

    /// An operator after an operand, the operator just read.
    fn infix(&mut self, heap: &mut Allocator, i: Infix, can_assign: bool) -> (r: Result<(), CompileError>)
        requires
            old(self).inv(old(heap)@),
            state_wf(old(self).st(old(heap)@)),
            old(self).token_pos < old(self).tokens@.len(),
            1 <= old(self).token_pos,
        ensures
            out_of(r, final(self).st(final(heap)@)) == infix(old(self).src(), old(self).st(old(heap)@), i, can_assign),
            final(self).src() == old(self).src(),
            final(self).tokens == old(self).tokens,
            final(self).numbers == old(self).numbers,
            r is Ok ==> final(self).inv(final(heap)@) && old(self).token_pos <= final(self).token_pos < final(self).tokens@.len(),
            r is Ok ==> state_wf(final(self).st(final(heap)@)),
            r is Ok ==> values_extend(old(self).st(old(heap)@).cur, final(self).st(final(heap)@).cur),
            r is Ok && fns_wf(old(heap)@) ==> fns_wf(final(heap)@),
        decreases old(self).tokens@.len() - old(self).token_pos, 30int,
    {
        match i {
            Infix::Call => self.call(heap),
            Infix::Binary => self.binary(heap),
            Infix::And => self.and(heap),
            Infix::Or => self.or(heap),
        }
    }

    /// `(` EXPRESSION `)`, the `(` just read.
    fn grouping(&mut self, heap: &mut Allocator) -> (r: Result<(), CompileError>)
        requires
            old(self).inv(old(heap)@),
            state_wf(old(self).st(old(heap)@)),
            old(self).token_pos < old(self).tokens@.len(),
            1 <= old(self).token_pos,
        ensures
            out_of(r, final(self).st(final(heap)@)) == grouping(old(self).src(), old(self).st(old(heap)@)),
            final(self).src() == old(self).src(),
            final(self).tokens == old(self).tokens,
            final(self).numbers == old(self).numbers,
            r is Ok ==> final(self).inv(final(heap)@) && old(self).token_pos <= final(self).token_pos < final(self).tokens@.len(),
            r is Ok ==> state_wf(final(self).st(final(heap)@)),
            r is Ok ==> values_extend(old(self).st(old(heap)@).cur, final(self).st(final(heap)@).cur),
            r is Ok && fns_wf(old(heap)@) ==> fns_wf(final(heap)@),
        decreases old(self).tokens@.len() - old(self).token_pos, 29int,
    {
        self.expression(heap)?;
        self.consume(heap, TokenType::RightParen, "Expect ')' after expression.")
    }

    /// `-` or `!` and its operand, the operator just read.
    fn unary(&mut self, heap: &mut Allocator) -> (r: Result<(), CompileError>)
        requires
            old(self).inv(old(heap)@),
            state_wf(old(self).st(old(heap)@)),
            old(self).token_pos < old(self).tokens@.len(),
            1 <= old(self).token_pos,
        ensures
            out_of(r, final(self).st(final(heap)@)) == unary(old(self).src(), old(self).st(old(heap)@)),
            final(self).src() == old(self).src(),
            final(self).tokens == old(self).tokens,
            final(self).numbers == old(self).numbers,
            r is Ok ==> final(self).inv(final(heap)@) && old(self).token_pos <= final(self).token_pos < final(self).tokens@.len(),
            r is Ok ==> state_wf(final(self).st(final(heap)@)),
            r is Ok ==> values_extend(old(self).st(old(heap)@).cur, final(self).st(final(heap)@).cur),
            r is Ok && fns_wf(old(heap)@) ==> fns_wf(final(heap)@),
        decreases old(self).tokens@.len() - old(self).token_pos, 29int,
    {
        let t = self.previous().typ;
        self.parse_precedence(heap, Precedence::Unary)?;
        match t {
            TokenType::Minus => {
                self.emit(heap, OpCode::Negate);
                Ok(())
            },
            TokenType::Bang => {
                self.emit(heap, OpCode::Not);
                Ok(())
            },
            _ => Err(CompileError::Abort),
        }
    }

    /// The right operand of a binary operator, one step tighter than the operator, then the operator.
    fn binary(&mut self, heap: &mut Allocator) -> (r: Result<(), CompileError>)
        requires
            old(self).inv(old(heap)@),
            state_wf(old(self).st(old(heap)@)),
            old(self).token_pos < old(self).tokens@.len(),
            1 <= old(self).token_pos,
        ensures
            out_of(r, final(self).st(final(heap)@)) == binary(old(self).src(), old(self).st(old(heap)@)),
            final(self).src() == old(self).src(),
            final(self).tokens == old(self).tokens,
            final(self).numbers == old(self).numbers,
            r is Ok ==> final(self).inv(final(heap)@) && old(self).token_pos <= final(self).token_pos < final(self).tokens@.len(),
            r is Ok ==> state_wf(final(self).st(final(heap)@)),
            r is Ok ==> values_extend(old(self).st(old(heap)@).cur, final(self).st(final(heap)@).cur),
            r is Ok && fns_wf(old(heap)@) ==> fns_wf(final(heap)@),
        decreases old(self).tokens@.len() - old(self).token_pos, 29int,
    {
        let t = self.previous().typ;
        let rule = match get_rule(t) {
            Some(rule) => rule,
            None => {
                return Err(CompileError::Abort);
            },
        };
        let p = match rule.precedence.next() {
            Some(p) => p,
            None => {
                return Err(CompileError::Abort);
            },
        };
        self.parse_precedence(heap, p)?;
        self.binary_op(heap, t)
    }

    /// `and` and its right operand, skipped when the left one is false.
    fn and(&mut self, heap: &mut Allocator) -> (r: Result<(), CompileError>)
        requires
            old(self).inv(old(heap)@),
            state_wf(old(self).st(old(heap)@)),
            old(self).token_pos < old(self).tokens@.len(),
            1 <= old(self).token_pos,
        ensures
            out_of(r, final(self).st(final(heap)@)) == and(old(self).src(), old(self).st(old(heap)@)),
            final(self).src() == old(self).src(),
            final(self).tokens == old(self).tokens,
            final(self).numbers == old(self).numbers,
            r is Ok ==> final(self).inv(final(heap)@) && old(self).token_pos <= final(self).token_pos < final(self).tokens@.len(),
            r is Ok ==> state_wf(final(self).st(final(heap)@)),
            r is Ok ==> values_extend(old(self).st(old(heap)@).cur, final(self).st(final(heap)@).cur),
            r is Ok && fns_wf(old(heap)@) ==> fns_wf(final(heap)@),
        decreases old(self).tokens@.len() - old(self).token_pos, 29int,
    {
        let jump = self.emit_jump(heap, OpCode::JumpIfFalse(0));
        self.emit(heap, OpCode::Pop);
        self.parse_precedence(heap, Precedence::And)?;
        self.patch_jump(heap, jump)
    }

    /// `or` and its right operand, skipped when the left one is true.
    fn or(&mut self, heap: &mut Allocator) -> (r: Result<(), CompileError>)
        requires
            old(self).inv(old(heap)@),
            state_wf(old(self).st(old(heap)@)),
            old(self).token_pos < old(self).tokens@.len(),
            1 <= old(self).token_pos,
        ensures
            out_of(r, final(self).st(final(heap)@)) == or(old(self).src(), old(self).st(old(heap)@)),
            final(self).src() == old(self).src(),
            final(self).tokens == old(self).tokens,
            final(self).numbers == old(self).numbers,
            r is Ok ==> final(self).inv(final(heap)@) && old(self).token_pos <= final(self).token_pos < final(self).tokens@.len(),
            r is Ok ==> state_wf(final(self).st(final(heap)@)),
            r is Ok ==> values_extend(old(self).st(old(heap)@).cur, final(self).st(final(heap)@).cur),
            r is Ok && fns_wf(old(heap)@) ==> fns_wf(final(heap)@),
        decreases old(self).tokens@.len() - old(self).token_pos, 29int,
    {
        let else_jump = self.emit_jump(heap, OpCode::JumpIfFalse(0));
        let end_jump = self.emit_jump(heap, OpCode::Jump(0));
        self.patch_jump(heap, else_jump)?;
        self.emit(heap, OpCode::Pop);
        self.parse_precedence(heap, Precedence::Or)?;
        self.patch_jump(heap, end_jump)
    }

    /// The arguments of a call and `)`, the `(` just read.
    fn call(&mut self, heap: &mut Allocator) -> (r: Result<(), CompileError>)
        requires
            old(self).inv(old(heap)@),
            state_wf(old(self).st(old(heap)@)),
            old(self).token_pos < old(self).tokens@.len(),
            1 <= old(self).token_pos,
        ensures
            out_of(r, final(self).st(final(heap)@)) == call(old(self).src(), old(self).st(old(heap)@)),
            final(self).src() == old(self).src(),
            final(self).tokens == old(self).tokens,
            final(self).numbers == old(self).numbers,
            r is Ok ==> final(self).inv(final(heap)@) && old(self).token_pos <= final(self).token_pos < final(self).tokens@.len(),
            r is Ok ==> state_wf(final(self).st(final(heap)@)),
            r is Ok ==> values_extend(old(self).st(old(heap)@).cur, final(self).st(final(heap)@).cur),
            r is Ok && fns_wf(old(heap)@) ==> fns_wf(final(heap)@),
        decreases old(self).tokens@.len() - old(self).token_pos, 29int,
    {
        if self.advance_if_matched(heap, TokenType::RightParen) {
            self.emit(heap, OpCode::Call(0));
            return Ok(());
        }
        self.call_args(heap)
    }

    /// The arguments from the position on, through `)`.
    fn call_args(&mut self, heap: &mut Allocator) -> (r: Result<(), CompileError>)
        requires
            old(self).inv(old(heap)@),
            state_wf(old(self).st(old(heap)@)),
            old(self).token_pos < old(self).tokens@.len(),
            1 <= old(self).token_pos,
        ensures
            out_of(r, final(self).st(final(heap)@)) == call_args(old(self).src(), old(self).st(old(heap)@), 0),
            final(self).src() == old(self).src(),
            final(self).tokens == old(self).tokens,
            final(self).numbers == old(self).numbers,
            r is Ok ==> final(self).inv(final(heap)@) && old(self).token_pos <= final(self).token_pos < final(self).tokens@.len(),
            r is Ok ==> state_wf(final(self).st(final(heap)@)),
            r is Ok ==> values_extend(old(self).st(old(heap)@).cur, final(self).st(final(heap)@).cur),
            r is Ok && fns_wf(old(heap)@) ==> fns_wf(final(heap)@),
        decreases old(self).tokens@.len() - old(self).token_pos, 28int,
    {
        let ghost src = self.src();
        let mut count: usize = 0;
        let ghost target = call_args(src, self.st(heap@), 0);
        loop
            invariant
                self.inv(heap@),
                1 <= self.token_pos < self.tokens@.len(),
                self.src() == src,
                src == old(self).src(),
                self.tokens == old(self).tokens,
                self.numbers == old(self).numbers,
                self.tokens@.len() == old(self).tokens@.len(),
                target == call_args(old(self).src(), old(self).st(old(heap)@), 0),
                old(self).token_pos <= self.token_pos,
                state_wf(self.st(heap@)),
                fns_wf(old(heap)@) ==> fns_wf(heap@),
                values_extend(old(self).st(old(heap)@).cur, self.st(heap@).cur),
                call_args(src, self.st(heap@), count) == target,
            decreases self.tokens@.len() - self.token_pos,
        {
            self.expression(heap)?;
            if count == usize::MAX {
                return Err(CompileError::Abort);
            }
            count = count + 1;
            if !self.advance_if_matched(heap, TokenType::Comma) {
                self.consume(heap, TokenType::RightParen, "Expect ')' after arguments.")?;
                self.emit(heap, OpCode::Call(count));
                return Ok(());
            }
        }
    }

    /// A variable, its name just read: a local where one has that name, otherwise a global.
    fn variable(&mut self, heap: &mut Allocator, can_assign: bool) -> (r: Result<(), CompileError>)
        requires
            old(self).inv(old(heap)@),
            state_wf(old(self).st(old(heap)@)),
            old(self).token_pos < old(self).tokens@.len(),
            1 <= old(self).token_pos,
        ensures
            out_of(r, final(self).st(final(heap)@)) == variable(old(self).src(), old(self).st(old(heap)@), can_assign),
            final(self).src() == old(self).src(),
            final(self).tokens == old(self).tokens,
            final(self).numbers == old(self).numbers,
            r is Ok ==> final(self).inv(final(heap)@) && old(self).token_pos <= final(self).token_pos < final(self).tokens@.len(),
            r is Ok ==> state_wf(final(self).st(final(heap)@)),
            r is Ok ==> values_extend(old(self).st(old(heap)@).cur, final(self).st(final(heap)@).cur),
            r is Ok && fns_wf(old(heap)@) ==> fns_wf(final(heap)@),
        decreases old(self).tokens@.len() - old(self).token_pos, 29int,
    {
        let name = self.previous().source;
        match self.resolve_local(name)? {
            Some(i) => self.assign_or_get(heap, OpCode::SetLocal(i), OpCode::GetLocal(i), can_assign),
            None => {
                let g = self.identifier_constant(heap, name);
                self.assign_or_get(heap, OpCode::SetGlobal(g), OpCode::GetGlobal(g), can_assign)
            },
        }
    }

    /// `=` and a value, then `set`, where assignment is allowed and `=` follows; otherwise `get`.
    fn assign_or_get(&mut self, heap: &mut Allocator, set: OpCode, get: OpCode, can_assign: bool) -> (r: Result<(), CompileError>)
        requires
            old(self).inv(old(heap)@),
            state_wf(old(self).st(old(heap)@)),
            fresh_op_wf(old(self).st(old(heap)@).cur, set),
            !(set is Loop),
            fresh_op_wf(old(self).st(old(heap)@).cur, get),
            old(self).token_pos < old(self).tokens@.len(),
            1 <= old(self).token_pos,
        ensures
            out_of(r, final(self).st(final(heap)@)) == assign_or_get(old(self).src(), old(self).st(old(heap)@), set, get, can_assign),
            final(self).src() == old(self).src(),
            final(self).tokens == old(self).tokens,
            final(self).numbers == old(self).numbers,
            r is Ok ==> final(self).inv(final(heap)@) && old(self).token_pos <= final(self).token_pos < final(self).tokens@.len(),
            r is Ok ==> state_wf(final(self).st(final(heap)@)),
            r is Ok ==> values_extend(old(self).st(old(heap)@).cur, final(self).st(final(heap)@).cur),
            r is Ok && fns_wf(old(heap)@) ==> fns_wf(final(heap)@),
        decreases old(self).tokens@.len() - old(self).token_pos, 28int,
    {
        if can_assign {
            if self.advance_if_matched(heap, TokenType::Equal) {
                self.expression(heap)?;
                proof {
                    let f0 = old(self).st(old(heap)@).cur;
                    let f1 = self.st(heap@).cur;
                    match set {
                        OpCode::SetGlobal(g) => {
                            assert(f1.values[g as int] == f0.values[g as int]);
                        },
                        OpCode::GetGlobal(g) => {
                            assert(f1.values[g as int] == f0.values[g as int]);
                        },
                        OpCode::DefineGlobal(g) => {
                            assert(f1.values[g as int] == f0.values[g as int]);
                        },
                        OpCode::Closure(g) => {
                            assert(f1.values[g as int] == f0.values[g as int]);
                        },
                        _ => {},
                    }
                    assert(fresh_op_wf(f1, set));
                }
                self.emit(heap, set);
                return Ok(());
            }
        }
        self.emit(heap, get);
        Ok(())
    }

    /// A number literal, just read.
    fn number(&mut self, heap: &mut Allocator) -> (r: Result<(), CompileError>)
        requires
            old(self).inv(old(heap)@),
            state_wf(old(self).st(old(heap)@)),
            1 <= old(self).token_pos < old(self).tokens@.len(),
        ensures
            out_of(r, final(self).st(final(heap)@)) == number(old(self).src(), old(self).st(old(heap)@)),
            final(self).src() == old(self).src(),
            final(self).tokens == old(self).tokens,
            final(self).numbers == old(self).numbers,
            r is Ok ==> final(self).inv(final(heap)@) && old(self).token_pos == final(self).token_pos,
            r is Ok ==> state_wf(final(self).st(final(heap)@)),
            r is Ok ==> values_extend(old(self).st(old(heap)@).cur, final(self).st(final(heap)@).cur),
            r is Ok && fns_wf(old(heap)@) ==> fns_wf(final(heap)@),
    {
        let v = self.numbers[self.token_pos - 1];
        self.emit_constant(heap, Value::Number(v));
        Ok(())
    }

    /// A string literal, just read: its text without the quotes.
    fn string(&mut self, heap: &mut Allocator) -> (r: Result<(), CompileError>)
        requires
            old(self).inv(old(heap)@),
            state_wf(old(self).st(old(heap)@)),
            1 <= old(self).token_pos < old(self).tokens@.len(),
        ensures
            out_of(r, final(self).st(final(heap)@)) == string(old(self).src(), old(self).st(old(heap)@)),
            final(self).src() == old(self).src(),
            final(self).tokens == old(self).tokens,
            final(self).numbers == old(self).numbers,
            r is Ok ==> final(self).inv(final(heap)@) && old(self).token_pos == final(self).token_pos,
            r is Ok ==> state_wf(final(self).st(final(heap)@)),
            r is Ok ==> values_extend(old(self).st(old(heap)@).cur, final(self).st(final(heap)@).cur),
            r is Ok && fns_wf(old(heap)@) ==> fns_wf(final(heap)@),
    {
        proof {
            self.lemma_src();
        }
        let text = self.previous().source;
        let n = text.unicode_len();
        if n < 2 {
            return Err(CompileError::Abort);
        }
        let body = text.substring_char(1, n - 1);
        proof {
            lemma_intern(heap@, body@);
        }
        let r = heap.new_string(body.to_string());
        self.emit_constant(heap, Value::String(r));
        Ok(())
    }

    /// `true`, `false` or `nil`, just read.
    fn literal(&mut self, heap: &mut Allocator) -> (r: Result<(), CompileError>)
        requires
            old(self).inv(old(heap)@),
            state_wf(old(self).st(old(heap)@)),
            1 <= old(self).token_pos < old(self).tokens@.len(),
        ensures
            out_of(r, final(self).st(final(heap)@)) == literal(old(self).src(), old(self).st(old(heap)@)),
            final(self).src() == old(self).src(),
            final(self).tokens == old(self).tokens,
            final(self).numbers == old(self).numbers,
            r is Ok ==> final(self).inv(final(heap)@) && old(self).token_pos == final(self).token_pos,
            r is Ok ==> state_wf(final(self).st(final(heap)@)),
            r is Ok ==> values_extend(old(self).st(old(heap)@).cur, final(self).st(final(heap)@).cur),
            r is Ok && fns_wf(old(heap)@) ==> fns_wf(final(heap)@),
    {
        proof {
            self.lemma_src();
        }
        match self.previous().typ {
            TokenType::True => self.emit(heap, OpCode::True),
            TokenType::False => self.emit(heap, OpCode::False),
            TokenType::Nil => self.emit(heap, OpCode::Nil),
            _ => {
                return Err(CompileError::Abort);
            },
        }
        Ok(())
    }

    /// The instructions a binary operator compiles to.
    fn binary_op(&mut self, heap: &mut Allocator, t: TokenType) -> (r: Result<(), CompileError>)
        requires
            old(self).inv(old(heap)@),
            state_wf(old(self).st(old(heap)@)),
            1 <= old(self).token_pos < old(self).tokens@.len(),
        ensures
            out_of(r, final(self).st(final(heap)@)) == lift(binary_op(old(self).src(), old(self).st(old(heap)@), t)),
            final(self).src() == old(self).src(),
            final(self).tokens == old(self).tokens,
            final(self).numbers == old(self).numbers,
            r is Ok ==> final(self).inv(final(heap)@) && old(self).token_pos == final(self).token_pos,
            r is Ok ==> state_wf(final(self).st(final(heap)@)),
            r is Ok ==> values_extend(old(self).st(old(heap)@).cur, final(self).st(final(heap)@).cur),
            r is Ok && fns_wf(old(heap)@) ==> fns_wf(final(heap)@),
    {
        match t {
            TokenType::Plus => self.emit(heap, OpCode::Add),
            TokenType::Minus => self.emit(heap, OpCode::Subtract),
            TokenType::Star => self.emit(heap, OpCode::Multiply),
            TokenType::Slash => self.emit(heap, OpCode::Divide),
            TokenType::BangEqual => {
                self.emit(heap, OpCode::Equal);
                self.emit(heap, OpCode::Not);
            },
            TokenType::EqualEqual => self.emit(heap, OpCode::Equal),
            TokenType::Greater => self.emit(heap, OpCode::Greater),
            TokenType::GreaterEqual => {
                self.emit(heap, OpCode::Less);
                self.emit(heap, OpCode::Not);
            },
            TokenType::Less => self.emit(heap, OpCode::Less),
            TokenType::LessEqual => {
                self.emit(heap, OpCode::Greater);
                self.emit(heap, OpCode::Not);
            },
            _ => {
                return Err(CompileError::Abort);
            },
        }
        Ok(())
    }

    /// The text of token `i`.
    pub closed spec fn token_source(&self, i: int) -> &'a str {
        self.tokens@[i].source
    }

    /// The tokens: kind, line and text of each.
    pub closed spec fn token_views(&self) -> Seq<(TokenType, usize, Seq<char>)> {
        self.src().toks
    }

    /// The value of each number token.
    pub closed spec fn number_values(&self) -> Seq<u64> {
        self.numbers@
    }

    /// Compiles `source` into the script function, stored in `heap`; `number`
    /// gives the value of a number literal from its text. Where the scanner
    /// would not return, or the compiler stop the program, the error is
    /// `Abort`. Compiling keeps every function in the heap well formed: each
    /// instruction has a line, its constant lies in its function and is of
    /// the kind it needs, and its jump lands within the code.
    pub fn compile<F: Fn(&str) -> u64>(&mut self, heap: &mut Allocator, source: &'a str, number: &F) -> (r: Result<
        Reference<Function>,
        CompileError,
    >)
        requires
            old(heap).wf(),
            old(self).fresh(old(heap)@),
            source.is_ascii(),
            source@.len() <= usize::MAX,
            forall|s: &str| number.requires((s,)),
        ensures
            match scan_all(source@, 0, 0) {
                None => r == Err::<Reference<Function>, CompileError>(CompileError::Abort),
                Some(Err(st)) => r matches Err(CompileError::Scan(l, m)) && l == st.line && m@ == st.text,
                Some(Ok(steps)) => {
                    &&& final(self).token_views() == steps.map_values(|st: ScanStep| (st.typ, st.line as usize, st.text))
                    &&& forall|i: int|
                        0 <= i < steps.len() && steps[i].typ == TokenType::Number ==> final(self).token_source(i)@ == steps[i].text
                            && number.ensures((final(self).token_source(i),), #[trigger] final(self).number_values()[i])
                    &&& match compile_program(
                        Src { toks: final(self).token_views(), nums: final(self).number_values() },
                        PState { pos: 0, cur: new_frame(old(self).script_name(), FunctionType::Script), outer: Seq::empty(), heap: old(heap)@ },
                    ) {
                        None => r == Err::<Reference<Function>, CompileError>(CompileError::Abort),
                        Some(Err(e)) => r == Err::<Reference<Function>, CompileError>(e),
                        Some(Ok((s, f))) => {
                            &&& r == Ok::<Reference<Function>, CompileError>(f)
                            &&& final(heap)@ == s.heap
                            &&& final(heap).wf()
                            &&& fns_wf(old(heap)@) ==> fns_wf(final(heap)@)
                        },
                    }
                },
            },
    {
        let mut scanner = Scanner::new(source);
        let tokens = match scanner.scan_tokens() {
            None => {
                return Err(CompileError::Abort);
            },
            Some(Err(t)) => {
                return Err(CompileError::Scan(t.line, t.source.to_string()));
            },
            Some(Ok(v)) => v,
        };
        let ghost steps = scan_all(source@, 0, 0)->Some_0->Ok_0;
        proof {
            lemma_scan_all_ends(source@, 0, 0);
        }
        let mut numbers: Vec<u64> = Vec::new();
        let mut i: usize = 0;
        while i < tokens.len()
            invariant
                i <= tokens@.len(),
                numbers@.len() == i,
                forall|s: &str| number.requires((s,)),
                forall|j: int|
                    0 <= j < i && tokens@[j].typ == TokenType::Number ==> number.ensures((tokens@[j].source,), #[trigger] numbers@[j]),
            decreases tokens.len() - i,
        {
            let v = if tokens[i].typ == TokenType::Number {
                number(tokens[i].source)
            } else {
                0
            };
            numbers.push(v);
            i = i + 1;
        }
        self.tokens = tokens;
        self.numbers = numbers;
        self.token_pos = 0;
        proof {
            self.lemma_src();
            assert(self.src().toks =~= steps.map_values(|st: ScanStep| (st.typ, st.line as usize, st.text)));
            assert(self.st(heap@) == PState { pos: 0, cur: new_frame(old(self).script_name(), FunctionType::Script), outer: Seq::empty(), heap: old(heap)@ }) by {
                assert(self.enclosing@.map_values(|c: Compiler<'a>| c.frame()) =~= Seq::<Frame>::empty());
            }
            assert(self.inv(heap@));
            assert(state_wf(self.st(heap@)));
        }
        self.program(heap)
    }

    /// The declarations from the position to the end of the text, then the
    /// script goes to the heap.
    fn program(&mut self, heap: &mut Allocator) -> (r: Result<Reference<Function>, CompileError>)
        requires
            old(self).inv(old(heap)@),
            state_wf(old(self).st(old(heap)@)),
            old(self).token_pos < old(self).tokens@.len(),
        ensures
            final(self).src() == old(self).src(),
            final(self).tokens == old(self).tokens,
            final(self).numbers == old(self).numbers,
            match compile_program(old(self).src(), old(self).st(old(heap)@)) {
                None => r == Err::<Reference<Function>, CompileError>(CompileError::Abort),
                Some(Err(e)) => r == Err::<Reference<Function>, CompileError>(e),
                Some(Ok((s, f))) => r == Ok::<Reference<Function>, CompileError>(f) && final(heap)@ == s.heap && final(heap).wf(),
            },
            r is Ok && fns_wf(old(heap)@) ==> fns_wf(final(heap)@),
    {
        let ghost src = self.src();
        let ghost target = compile_loop(src, self.st(heap@));
        loop
            invariant
                self.inv(heap@),
                self.token_pos < self.tokens@.len(),
                self.src() == src,
                src == old(self).src(),
                self.tokens == old(self).tokens,
                self.numbers == old(self).numbers,
                target == compile_loop(old(self).src(), old(self).st(old(heap)@)),
                compile_loop(src, self.st(heap@)) == target,
                state_wf(self.st(heap@)),
                fns_wf(old(heap)@) ==> fns_wf(heap@),
            decreases self.tokens@.len() - self.token_pos,
        {
            if self.advance_if_matched(heap, TokenType::Eof) {
                self.end_compiler(heap);
                proof {
                    if fns_wf(old(heap)@) {
                        lemma_store_fns_wf(self.st(heap@), self.st(heap@).cur);
                    }
                }
                let name = self.compiler.function.name;
                let mut f = Function::new(name);
                std::mem::swap(&mut self.compiler.function, &mut f);
                let r = heap.allocate(f);
                return Ok(r);
            }
            self.declaration(heap)?;
        }
    }
}

} // verus!
