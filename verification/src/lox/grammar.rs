//! What the compiler makes of a stream of tokens. Each construct of the
//! grammar is a function from the compiler's state (where it is in the
//! tokens, the functions under construction, the heap) to its state after the
//! construct: `None` where the compiler stops the program, an error where the
//! source is not accepted.
//!
//! The compiler reads the tokens once, front to back, and emits code as it
//! goes: jumps forward get a placeholder that is patched once the target is
//! known. Every construct moves forward in the tokens; where a construct
//! builds on what another left, these functions check so, which lets them
//! terminate on any state.
use vstd::prelude::*;

use super::allocator::{alloc_spec, intern_spec, HeapView, ObjView, Reference};
use super::chunk::OpCode;
use super::function::{Function, FunctionType};
use super::token::TokenType;
use super::value::Value;

verus! {

/// How tightly an operator binds, loosest first.
#[derive(Debug, Clone, Copy, PartialEq, Eq, Structural)]
pub enum Precedence {
    /// Binds nothing: the token is no operator.
    Lowest,
    Assignment,
    Or,
    And,
    Equality,
    Comparison,
    Term,
    Factor,
    Unary,
    Call,
    Primary,
}

impl Precedence {
    /// The place of the precedence in the order, from 0.
    pub open spec fn rank(self) -> int {
        match self {
            Precedence::Lowest => 0,
            Precedence::Assignment => 1,
            Precedence::Or => 2,
            Precedence::And => 3,
            Precedence::Equality => 4,
            Precedence::Comparison => 5,
            Precedence::Term => 6,
            Precedence::Factor => 7,
            Precedence::Unary => 8,
            Precedence::Call => 9,
            Precedence::Primary => 10,
        }
    }
}

/// The precedence of rank `i`, where there is one.
pub open spec fn precedence_of(i: int) -> Option<Precedence> {
    if i == 0 {
        Some(Precedence::Lowest)
    } else if i == 1 {
        Some(Precedence::Assignment)
    } else if i == 2 {
        Some(Precedence::Or)
    } else if i == 3 {
        Some(Precedence::And)
    } else if i == 4 {
        Some(Precedence::Equality)
    } else if i == 5 {
        Some(Precedence::Comparison)
    } else if i == 6 {
        Some(Precedence::Term)
    } else if i == 7 {
        Some(Precedence::Factor)
    } else if i == 8 {
        Some(Precedence::Unary)
    } else if i == 9 {
        Some(Precedence::Call)
    } else if i == 10 {
        Some(Precedence::Primary)
    } else {
        None
    }
}

impl Precedence {
    /// The precedence of rank `i`, where there is one.
    pub fn from_rank(i: i32) -> (r: Option<Precedence>)
        ensures
            r == precedence_of(i as int),
    {
        match i {
            0 => Some(Precedence::Lowest),
            1 => Some(Precedence::Assignment),
            2 => Some(Precedence::Or),
            3 => Some(Precedence::And),
            4 => Some(Precedence::Equality),
            5 => Some(Precedence::Comparison),
            6 => Some(Precedence::Term),
            7 => Some(Precedence::Factor),
            8 => Some(Precedence::Unary),
            9 => Some(Precedence::Call),
            10 => Some(Precedence::Primary),
            _ => None,
        }
    }

    /// The rank of the precedence.
    pub fn to_rank(&self) -> (r: i32)
        ensures
            r == self.rank(),
    {
        match self {
            Precedence::Lowest => 0,
            Precedence::Assignment => 1,
            Precedence::Or => 2,
            Precedence::And => 3,
            Precedence::Equality => 4,
            Precedence::Comparison => 5,
            Precedence::Term => 6,
            Precedence::Factor => 7,
            Precedence::Unary => 8,
            Precedence::Call => 9,
            Precedence::Primary => 10,
        }
    }

    /// The next tighter precedence, where there is one.
    pub fn next(&self) -> (r: Option<Precedence>)
        ensures
            r == precedence_of(self.rank() + 1),
    {
        Precedence::from_rank(self.to_rank() + 1)
    }

    /// Whether `self` binds no tighter than `other`.
    pub fn le(&self, other: &Precedence) -> (r: bool)
        ensures
            r == (self.rank() <= other.rank()),
    {
        self.to_rank() <= other.to_rank()
    }
}

/// What a token does at the start of an expression.
#[derive(Debug, Clone, Copy, PartialEq, Eq, Structural)]
pub enum Prefix {
    Grouping,
    Unary,
    Variable,
    Str,
    Number,
    Literal,
}

/// What a token does after an operand.
#[derive(Debug, Clone, Copy, PartialEq, Eq, Structural)]
pub enum Infix {
    Call,
    Binary,
    And,
    Or,
}

/// How the compiler parses a token in an expression.
#[derive(Debug, Clone, Copy, PartialEq, Eq, Structural)]
pub struct ParseRule {
    pub prefix: Option<Prefix>,
    pub infix: Option<Infix>,
    pub precedence: Precedence,
}

impl ParseRule {
    /// A rule from its parts.
    pub fn new(prefix: Option<Prefix>, infix: Option<Infix>, precedence: Precedence) -> (r: Self)
        ensures
            r == (ParseRule { prefix, infix, precedence }),
    {
        ParseRule { prefix, infix, precedence }
    }
}

/// The rule of a token kind. Braces, `.`, `else` and the keywords that start
/// statements or declarations have none. `*` and `/` sit at the level of `+`
/// and `-`: the four apply from left to right.
pub open spec fn rule_of(t: TokenType) -> Option<ParseRule> {
    let r = |p: Option<Prefix>, i: Option<Infix>, q: Precedence| Some(ParseRule { prefix: p, infix: i, precedence: q });
    match t {
        TokenType::LeftParen => r(Some(Prefix::Grouping), Some(Infix::Call), Precedence::Call),
        TokenType::RightParen => r(None, None, Precedence::Lowest),
        TokenType::Plus => r(None, Some(Infix::Binary), Precedence::Term),
        TokenType::Minus => r(Some(Prefix::Unary), Some(Infix::Binary), Precedence::Term),
        TokenType::Star => r(None, Some(Infix::Binary), Precedence::Term),
        TokenType::Slash => r(None, Some(Infix::Binary), Precedence::Term),
        TokenType::SemiColon => r(None, None, Precedence::Lowest),
        TokenType::Comma => r(None, None, Precedence::Lowest),
        TokenType::Identifier => r(Some(Prefix::Variable), None, Precedence::Lowest),
        TokenType::String => r(Some(Prefix::Str), None, Precedence::Lowest),
        TokenType::Number => r(Some(Prefix::Number), None, Precedence::Lowest),
        TokenType::And => r(None, Some(Infix::And), Precedence::And),
        TokenType::Or => r(None, Some(Infix::Or), Precedence::Or),
        TokenType::True => r(Some(Prefix::Literal), None, Precedence::Lowest),
        TokenType::False => r(Some(Prefix::Literal), None, Precedence::Lowest),
        TokenType::Nil => r(Some(Prefix::Literal), None, Precedence::Lowest),
        TokenType::Print => r(None, None, Precedence::Lowest),
        TokenType::Bang => r(Some(Prefix::Unary), None, Precedence::Lowest),
        TokenType::BangEqual => r(None, Some(Infix::Binary), Precedence::Equality),
        TokenType::Equal => r(None, None, Precedence::Lowest),
        TokenType::EqualEqual => r(None, Some(Infix::Binary), Precedence::Equality),
        TokenType::Greater => r(None, Some(Infix::Binary), Precedence::Comparison),
        TokenType::GreaterEqual => r(None, Some(Infix::Binary), Precedence::Comparison),
        TokenType::Less => r(None, Some(Infix::Binary), Precedence::Comparison),
        TokenType::LessEqual => r(None, Some(Infix::Binary), Precedence::Comparison),
        TokenType::Eof => r(None, None, Precedence::Lowest),
        _ => None,
    }
}

/// Why compiling stopped.
#[derive(Debug, PartialEq, Eq)]
pub enum CompileError {
    /// The token met is not the one expected: its line and the message.
    At(usize, &'static str),
    /// An expression goes wrong at the token before: its line and the message.
    Near(usize, &'static str),
    /// A message that names no line.
    Plain(&'static str),
    /// The scanner's error token: its line and message.
    Scan(usize, String),
    /// The compiler stops the program here.
    Abort,
}

/// A token as the compiler reads it: its kind, its line, its text.
pub type Tok = (TokenType, usize, Seq<char>);

/// What the compiler reads: the tokens, and the value of each number token
/// (the bits of its IEEE 754 double).
pub ghost struct Src {
    pub toks: Seq<Tok>,
    pub nums: Seq<u64>,
}

/// A function under construction: its code, the line of each instruction,
/// its constants, its name, its local variables (name and scope depth, 0
/// while the initializer is compiled), the depth of the scope, its kind.
pub ghost struct Frame {
    pub code: Seq<OpCode>,
    pub lines: Seq<usize>,
    pub values: Seq<Value>,
    pub name: Reference<String>,
    pub locals: Seq<(Seq<char>, usize)>,
    pub depth: usize,
    pub kind: FunctionType,
}

/// The state of the compiler: the position in the tokens, the function under
/// construction, the functions it is nested in (innermost last), the heap.
pub ghost struct PState {
    pub pos: int,
    pub cur: Frame,
    pub outer: Seq<Frame>,
    pub heap: HeapView,
}

/// The outcome of compiling a construct: `None` where the compiler stops the
/// program; otherwise the state after the construct, or the error met.
pub type Out = Option<Result<PState, CompileError>>;

/// A function with no code yet, its one local the unnamed slot of the callee.
pub open spec fn new_frame(name: Reference<String>, kind: FunctionType) -> Frame {
    Frame {
        code: Seq::empty(),
        lines: Seq::empty(),
        values: Seq::empty(),
        name,
        locals: seq![(Seq::<char>::empty(), 0usize)],
        depth: 0,
        kind,
    }
}

/// The position is on a token.
pub open spec fn in_range(src: Src, s: PState) -> bool {
    0 <= s.pos < src.toks.len()
}

/// The kind of the token at the position.
pub open spec fn cur_typ(src: Src, s: PState) -> TokenType {
    src.toks[s.pos].0
}

/// The line of the token at the position.
pub open spec fn cur_line(src: Src, s: PState) -> usize {
    src.toks[s.pos].1
}

/// The token before the position.
pub open spec fn prev(src: Src, s: PState) -> Tok {
    src.toks[s.pos - 1]
}

/// One token further.
pub open spec fn advance(s: PState) -> PState {
    PState { pos: s.pos + 1, ..s }
}

/// The token at the position is of kind `t`.
pub open spec fn matched(src: Src, s: PState, t: TokenType) -> bool {
    in_range(src, s) && cur_typ(src, s) == t
}

/// `s2` lies at or after `s1`, within the tokens.
pub open spec fn fwd(src: Src, s1: PState, s2: PState) -> bool {
    s1.pos <= s2.pos <= src.toks.len()
}

/// `s2` lies after `s1`, within the tokens.
pub open spec fn strictly_fwd(src: Src, s1: PState, s2: PState) -> bool {
    s1.pos < s2.pos <= src.toks.len()
}

/// The state with `f` as the function under construction.
pub open spec fn with_cur(s: PState, f: Frame) -> PState {
    PState { cur: f, ..s }
}

/// Takes a token of kind `t`, or fails with `msg` at the line of the token met.
pub open spec fn consume(src: Src, s: PState, t: TokenType, msg: &'static str) -> Out {
    if !in_range(src, s) {
        None
    } else if cur_typ(src, s) == t {
        Some(Ok(advance(s)))
    } else {
        Some(Err(CompileError::At(cur_line(src, s), msg)))
    }
}

/// A state as an outcome; `None` stays `None`.
pub open spec fn lift(o: Option<PState>) -> Out {
    match o {
        Some(s) => Some(Ok(s)),
        None => None,
    }
}

/// Appends `op`, from the line of the token before the position.
pub open spec fn emit(src: Src, s: PState, op: OpCode) -> PState {
    with_cur(s, Frame { code: s.cur.code.push(op), lines: s.cur.lines.push(prev(src, s).1), ..s.cur })
}

/// Appends the constant `v`; it goes at index `s.cur.values.len()`.
pub open spec fn add_constant(s: PState, v: Value) -> PState {
    with_cur(s, Frame { values: s.cur.values.push(v), ..s.cur })
}

/// Appends the constant `v` and the instruction that loads it.
pub open spec fn emit_constant(src: Src, s: PState, v: Value) -> PState {
    emit(src, add_constant(s, v), OpCode::Constant(s.cur.values.len() as usize))
}

/// Returns `nil`.
pub open spec fn emit_return(src: Src, s: PState) -> PState {
    emit(src, emit(src, s, OpCode::Nil), OpCode::Return)
}

/// Sets the jump at `at` to land after the last instruction; `None` where
/// there is no jump there.
pub open spec fn patch_jump(s: PState, at: int) -> Option<PState> {
    let code = s.cur.code;
    if 0 <= at < code.len() {
        let offset = (code.len() - 1 - at) as usize;
        match code[at] {
            OpCode::JumpIfFalse(_) => Some(with_cur(s, Frame { code: code.update(at, OpCode::JumpIfFalse(offset)), ..s.cur })),
            OpCode::Jump(_) => Some(with_cur(s, Frame { code: code.update(at, OpCode::Jump(offset)), ..s.cur })),
            _ => None,
        }
    } else {
        None
    }
}

/// Appends a jump back to the instruction after `start`.
pub open spec fn emit_loop(src: Src, s: PState, start: int) -> Option<PState> {
    if 0 <= start <= s.cur.code.len() {
        Some(emit(src, s, OpCode::Loop((s.cur.code.len() - start) as usize)))
    } else {
        None
    }
}

/// Enters a scope.
pub open spec fn begin_scope(s: PState) -> Option<PState> {
    if s.cur.depth < usize::MAX {
        Some(with_cur(s, Frame { depth: (s.cur.depth + 1) as usize, ..s.cur }))
    } else {
        None
    }
}

/// Drops the locals deeper than the scope, popping each off the stack.
pub open spec fn pop_locals(src: Src, s: PState) -> PState
    decreases s.cur.locals.len(),
{
    let locals = s.cur.locals;
    if locals.len() > 0 && locals.last().1 > s.cur.depth {
        pop_locals(src, emit(src, with_cur(s, Frame { locals: locals.drop_last(), ..s.cur }), OpCode::Pop))
    } else {
        s
    }
}

/// Leaves a scope.
pub open spec fn end_scope(src: Src, s: PState) -> Option<PState> {
    if s.cur.depth > 0 {
        Some(pop_locals(src, with_cur(s, Frame { depth: (s.cur.depth - 1) as usize, ..s.cur })))
    } else {
        None
    }
}

/// Interns `name` in the heap: the state after, and the string's reference.
pub open spec fn intern(s: PState, name: Seq<char>) -> (PState, Reference<String>) {
    let (h, r) = intern_spec(s.heap, name);
    (PState { heap: h, ..s }, Reference::<String>::at_slot(r))
}

/// Adds the name of a global as a constant; its index.
pub open spec fn identifier_constant(s: PState, name: Seq<char>) -> (PState, usize) {
    let (s1, r) = intern(s, name);
    (add_constant(s1, Value::String(r)), s.cur.values.len() as usize)
}

/// The name just read; in a scope it becomes a local, not yet initialized.
pub open spec fn parse_identifier(src: Src, s: PState) -> (PState, Seq<char>) {
    let name = prev(src, s).2;
    if s.cur.depth > 0 {
        (with_cur(s, Frame { locals: s.cur.locals.push((name, 0usize)), ..s.cur }), name)
    } else {
        (s, name)
    }
}

/// Defines the variable just declared: in a scope, the last local gets the
/// scope's depth; otherwise a global of that name is defined.
pub open spec fn define_variable(src: Src, s: PState, name: Seq<char>) -> Option<PState> {
    if s.cur.depth > 0 {
        let locals = s.cur.locals;
        if locals.len() > 0 {
            let last = locals.last();
            Some(with_cur(s, Frame { locals: locals.update(locals.len() - 1, (last.0, s.cur.depth)), ..s.cur }))
        } else {
            None
        }
    } else {
        let (s1, g) = identifier_constant(s, name);
        Some(emit(src, s1, OpCode::DefineGlobal(g)))
    }
}

/// Starts compiling a function called `name`, inside the current one.
pub open spec fn push_compiler(s: PState, name: Seq<char>, kind: FunctionType) -> PState {
    let (s1, r) = intern(s, name);
    PState { cur: new_frame(r, kind), outer: s1.outer.push(s1.cur), ..s1 }
}

/// Finishes the function under construction with a return of `nil`, and
/// goes back to the one it is nested in: the state after and the function.
pub open spec fn pop_compiler(src: Src, s: PState) -> Option<(PState, Frame)> {
    let s1 = emit_return(src, s);
    if s1.outer.len() == 0 {
        None
    } else {
        Some((PState { cur: s1.outer.last(), outer: s1.outer.drop_last(), ..s1 }, s1.cur))
    }
}

/// Stores a finished function in the heap: the state after, and its reference.
pub open spec fn store_function(s: PState, f: Frame) -> (PState, Reference<Function>) {
    let (h, i) = alloc_spec(s.heap, ObjView::Function(f.name@, f.code, f.values, f.lines));
    (PState { heap: h, ..s }, Reference::<Function>::at_slot(i))
}

/// The last local from `i` down called `name`.
pub open spec fn find_local(locals: Seq<(Seq<char>, usize)>, name: Seq<char>, i: int) -> Option<int>
    decreases i + 1,
{
    if i < 0 || i >= locals.len() {
        None
    } else if locals[i].0 == name {
        Some(i)
    } else {
        find_local(locals, name, i - 1)
    }
}

/// The slot of the local `name` in the function under construction: the
/// innermost one; an error where it is still being initialized.
pub open spec fn resolve_local(f: Frame, name: Seq<char>) -> Result<Option<usize>, CompileError> {
    match find_local(f.locals, name, f.locals.len() - 1) {
        Some(i) => if f.locals[i].1 == 0 {
            Err(CompileError::Plain("Can't read local variable in its own initializer."))
        } else {
            Ok(Some(i as usize))
        },
        None => Ok(None),
    }
}

/// The instructions a binary operator compiles to.
pub open spec fn binary_op(src: Src, s: PState, t: TokenType) -> Option<PState> {
    match t {
        TokenType::Plus => Some(emit(src, s, OpCode::Add)),
        TokenType::Minus => Some(emit(src, s, OpCode::Subtract)),
        TokenType::Star => Some(emit(src, s, OpCode::Multiply)),
        TokenType::Slash => Some(emit(src, s, OpCode::Divide)),
        TokenType::BangEqual => Some(emit(src, emit(src, s, OpCode::Equal), OpCode::Not)),
        TokenType::EqualEqual => Some(emit(src, s, OpCode::Equal)),
        TokenType::Greater => Some(emit(src, s, OpCode::Greater)),
        TokenType::GreaterEqual => Some(emit(src, emit(src, s, OpCode::Less), OpCode::Not)),
        TokenType::Less => Some(emit(src, s, OpCode::Less)),
        TokenType::LessEqual => Some(emit(src, emit(src, s, OpCode::Greater), OpCode::Not)),
        _ => None,
    }
}

/// A number literal, just read.
pub open spec fn number(src: Src, s: PState) -> Out {
    Some(Ok(emit_constant(src, s, Value::Number(src.nums[s.pos - 1]))))
}

/// A string literal, just read: its text without the quotes.
pub open spec fn string(src: Src, s: PState) -> Out {
    let text = prev(src, s).2;
    if text.len() < 2 {
        None
    } else {
        let (s1, r) = intern(s, text.subrange(1, text.len() - 1));
        Some(Ok(emit_constant(src, s1, Value::String(r))))
    }
}

/// `true`, `false` or `nil`, just read.
pub open spec fn literal(src: Src, s: PState) -> Out {
    let t = prev(src, s).0;
    if t == TokenType::True {
        Some(Ok(emit(src, s, OpCode::True)))
    } else if t == TokenType::False {
        Some(Ok(emit(src, s, OpCode::False)))
    } else if t == TokenType::Nil {
        Some(Ok(emit(src, s, OpCode::Nil)))
    } else {
        None
    }
}

/// Finishes a function declaration: its function goes to the heap, and the
/// enclosing code makes a closure of it.
pub open spec fn finish_function(src: Src, s: PState) -> Out {
    match pop_compiler(src, s) {
        None => None,
        Some((s1, f)) => {
            let (s2, r) = store_function(s1, f);
            let s3 = add_constant(s2, Value::Function(r));
            Some(Ok(emit(src, s3, OpCode::Closure(s2.cur.values.len() as usize))))
        },
    }
}

/// The whole program, from the position to the end of the text, which ends
/// the script with a return of `nil`.
pub open spec fn compile_loop(src: Src, s: PState) -> Out
    decreases src.toks.len() - s.pos, 25int,
{
    if !in_range(src, s) {
        None
    } else if cur_typ(src, s) == TokenType::Eof {
        Some(Ok(emit_return(src, advance(s))))
    } else {
        match declaration(src, s) {
            Some(Ok(s1)) => if strictly_fwd(src, s, s1) {
                compile_loop(src, s1)
            } else {
                None
            },
            other => other,
        }
    }
}

/// The declarations of a block, through its closing brace.
pub open spec fn block(src: Src, s: PState) -> Out
    decreases src.toks.len() - s.pos, 24int,
{
    block_loop(src, s)
}

/// The rest of a block: declarations until a closing brace or the end.
pub open spec fn block_loop(src: Src, s: PState) -> Out
    decreases src.toks.len() - s.pos, 23int,
{
    if !in_range(src, s) {
        None
    } else if cur_typ(src, s) != TokenType::RightBrace && cur_typ(src, s) != TokenType::Eof {
        match declaration(src, s) {
            Some(Ok(s1)) => if strictly_fwd(src, s, s1) {
                block_loop(src, s1)
            } else {
                None
            },
            other => other,
        }
    } else {
        consume(src, s, TokenType::RightBrace, "Expect '}' after block.")
    }
}

/// A function, variable or statement.
pub open spec fn declaration(src: Src, s: PState) -> Out
    decreases src.toks.len() - s.pos, 22int,
{
    if !in_range(src, s) {
        None
    } else if cur_typ(src, s) == TokenType::Fun {
        fun_declaration(src, advance(s))
    } else if cur_typ(src, s) == TokenType::Var {
        var_declaration(src, advance(s))
    } else {
        statement(src, s)
    }
}

/// `fun` NAME, then the function.
pub open spec fn fun_declaration(src: Src, s: PState) -> Out
    decreases src.toks.len() - s.pos, 21int,
{
    match consume(src, s, TokenType::Identifier, "Expect function name") {
        Some(Ok(s1)) => {
            let (s2, name) = parse_identifier(src, s1);
            match function(src, s2, name, FunctionType::Function) {
                Some(Ok(s3)) => lift(define_variable(src, s3, name)),
                other => other,
            }
        },
        other => other,
    }
}

/// `var` NAME, an optional `=` and initializer, `;`.
pub open spec fn var_declaration(src: Src, s: PState) -> Out
    decreases src.toks.len() - s.pos, 21int,
{
    match consume(src, s, TokenType::Identifier, "Expect variable name") {
        Some(Ok(s1)) => {
            let (s2, name) = parse_identifier(src, s1);
            let init = if matched(src, s2, TokenType::Equal) {
                expression(src, advance(s2))
            } else {
                Some(Ok(emit(src, s2, OpCode::Nil)))
            };
            match init {
                Some(Ok(s3)) => match consume(src, s3, TokenType::SemiColon, "Expect ';' after value declaration.") {
                    Some(Ok(s4)) => lift(define_variable(src, s4, name)),
                    other => other,
                },
                other => other,
            }
        },
        other => other,
    }
}

/// The parameters and body of a function called `name`, compiled as a
/// function of its own, then made a closure of.
pub open spec fn function(src: Src, s: PState, name: Seq<char>, kind: FunctionType) -> Out
    decreases src.toks.len() - s.pos, 20int,
{
    match begin_scope(push_compiler(s, name, kind)) {
        None => None,
        Some(s1) => match consume(src, s1, TokenType::LeftParen, "Expect '(' after function name.") {
            Some(Ok(s2)) => {
                let after_params = if matched(src, s2, TokenType::RightParen) {
                    Some(Ok(advance(s2)))
                } else {
                    match params(src, s2) {
                        Some(Ok(s3)) => consume(src, s3, TokenType::RightParen, "Expect ')' after parameters."),
                        other => other,
                    }
                };
                match after_params {
                    Some(Ok(s4)) => if fwd(src, s, s4) {
                        match consume(src, s4, TokenType::LeftBrace, "Expect '{' before function body.") {
                            Some(Ok(s5)) => match block(src, s5) {
                                Some(Ok(s6)) => finish_function(src, s6),
                                other => other,
                            },
                            other => other,
                        }
                    } else {
                        None
                    },
                    other => other,
                }
            },
            other => other,
        },
    }
}

/// The parameter names, separated by commas; each becomes a local.
pub open spec fn params(src: Src, s: PState) -> Out
    decreases src.toks.len() - s.pos, 20int,
{
    if !in_range(src, s) {
        None
    } else {
        let (s1, p) = parse_identifier(src, advance(s));
        match define_variable(src, s1, p) {
            None => None,
            Some(s2) => if s2.pos != s.pos + 1 || !in_range(src, s2) {
                None
            } else if cur_typ(src, s2) == TokenType::Comma {
                params(src, advance(s2))
            } else {
                Some(Ok(s2))
            },
        }
    }
}

/// A statement.
pub open spec fn statement(src: Src, s: PState) -> Out
    decreases src.toks.len() - s.pos, 20int,
{
    if !in_range(src, s) {
        None
    } else if cur_typ(src, s) == TokenType::Print {
        print_statement(src, advance(s))
    } else if cur_typ(src, s) == TokenType::If {
        if_statement(src, advance(s))
    } else if cur_typ(src, s) == TokenType::Return {
        return_statement(src, advance(s))
    } else if cur_typ(src, s) == TokenType::While {
        while_statement(src, advance(s))
    } else if cur_typ(src, s) == TokenType::For {
        for_statement(src, advance(s))
    } else if cur_typ(src, s) == TokenType::LeftBrace {
        match begin_scope(advance(s)) {
            None => None,
            Some(s1) => match block(src, s1) {
                Some(Ok(s2)) => lift(end_scope(src, s2)),
                other => other,
            },
        }
    } else {
        expression_statement(src, s)
    }
}

/// `print` EXPRESSION `;`.
pub open spec fn print_statement(src: Src, s: PState) -> Out
    decreases src.toks.len() - s.pos, 19int,
{
    match expression(src, s) {
        Some(Ok(s1)) => match consume(src, s1, TokenType::SemiColon, "Expect ';' after print statement.") {
            Some(Ok(s2)) => Some(Ok(emit(src, s2, OpCode::Print))),
            other => other,
        },
        other => other,
    }
}

/// `if` `(` CONDITION `)` STATEMENT, then `else` STATEMENT where it follows.
pub open spec fn if_statement(src: Src, s: PState) -> Out
    decreases src.toks.len() - s.pos, 19int,
{
    match consume(src, s, TokenType::LeftParen, "Expect '(' after 'if'.") {
        Some(Ok(s1)) => match expression(src, s1) {
            Some(Ok(s2)) => if !fwd(src, s, s2) {
                None
            } else {
                match consume(src, s2, TokenType::RightParen, "Expect ')' after condition of 'if'.") {
                    Some(Ok(s3)) => {
                        let then_pos: int = s3.cur.code.len() as int;
                        let s4 = emit(src, emit(src, s3, OpCode::JumpIfFalse(0)), OpCode::Pop);
                        match statement(src, s4) {
                            Some(Ok(s5)) => if !fwd(src, s, s5) {
                                None
                            } else {
                                let else_pos: int = s5.cur.code.len() as int;
                                match patch_jump(emit(src, s5, OpCode::Jump(0)), then_pos) {
                                    None => None,
                                    Some(s6) => {
                                        let s7 = emit(src, s6, OpCode::Pop);
                                        let s8 = if matched(src, s7, TokenType::Else) {
                                            statement(src, advance(s7))
                                        } else {
                                            Some(Ok(s7))
                                        };
                                        match s8 {
                                            Some(Ok(s9)) => lift(patch_jump(s9, else_pos)),
                                            other => other,
                                        }
                                    },
                                }
                            },
                            other => other,
                        }
                    },
                    other => other,
                }
            },
            other => other,
        },
        other => other,
    }
}

/// `return` `;`, or `return` VALUE `;`; refused in the script.
pub open spec fn return_statement(src: Src, s: PState) -> Out
    decreases src.toks.len() - s.pos, 19int,
{
    if !in_range(src, s) {
        None
    } else if s.cur.kind == FunctionType::Script {
        Some(Err(CompileError::At(cur_line(src, s), "Cannot return from top-level code.")))
    } else if cur_typ(src, s) == TokenType::SemiColon {
        Some(Ok(emit_return(src, advance(s))))
    } else {
        match expression(src, s) {
            Some(Ok(s1)) => match consume(src, s1, TokenType::SemiColon, "Expect ';' after return value.") {
                Some(Ok(s2)) => Some(Ok(emit(src, s2, OpCode::Return))),
                other => other,
            },
            other => other,
        }
    }
}

/// `while` `(` CONDITION `)` STATEMENT; the loop starts over at the last
/// instruction emitted before it, which must exist.
pub open spec fn while_statement(src: Src, s: PState) -> Out
    decreases src.toks.len() - s.pos, 19int,
{
    if s.cur.code.len() == 0 {
        None
    } else {
        let start = s.cur.code.len() - 1;
        match consume(src, s, TokenType::LeftParen, "Expect '(' after 'while'.") {
            Some(Ok(s1)) => match expression(src, s1) {
                Some(Ok(s2)) => if !fwd(src, s, s2) {
                    None
                } else {
                    match consume(src, s2, TokenType::RightParen, "Expect ')' after condition of 'while'.") {
                        Some(Ok(s3)) => {
                            let exit: int = s3.cur.code.len() as int;
                            let s4 = emit(src, emit(src, s3, OpCode::JumpIfFalse(0)), OpCode::Pop);
                            match statement(src, s4) {
                                Some(Ok(s5)) => match emit_loop(src, s5, start) {
                                    None => None,
                                    Some(s6) => match patch_jump(s6, exit) {
                                        None => None,
                                        Some(s7) => Some(Ok(emit(src, s7, OpCode::Pop))),
                                    },
                                },
                                other => other,
                            }
                        },
                        other => other,
                    }
                },
                other => other,
            },
            other => other,
        }
    }
}

/// `for` `(` INITIALIZER CONDITION `;` INCREMENT `)` STATEMENT, in a scope of
/// its own.
pub open spec fn for_statement(src: Src, s: PState) -> Out
    decreases src.toks.len() - s.pos, 19int,
{
    match begin_scope(s) {
        None => None,
        Some(s0) => match consume(src, s0, TokenType::LeftParen, "Expect '(' after 'for' .") {
            Some(Ok(s1)) => {
                let init = if matched(src, s1, TokenType::SemiColon) {
                    Some(Ok(advance(s1)))
                } else if matched(src, s1, TokenType::Var) {
                    var_declaration(src, advance(s1))
                } else {
                    expression_statement(src, s1)
                };
                match init {
                    Some(Ok(s2)) => if !fwd(src, s1, s2) || s2.cur.code.len() == 0 {
                        None
                    } else {
                        for_condition(src, s2, s2.cur.code.len() - 1)
                    },
                    other => other,
                }
            },
            other => other,
        },
    }
}

/// The condition clause of a `for`: none, or an expression that leaves the
/// loop when false; the loop starts over after `cond`.
pub open spec fn for_condition(src: Src, s: PState, cond: int) -> Out
    decreases src.toks.len() - s.pos, 18int,
{
    if matched(src, s, TokenType::SemiColon) {
        for_increment(src, advance(s), cond, None)
    } else {
        match expression(src, s) {
            Some(Ok(s1)) => if !fwd(src, s, s1) {
                None
            } else {
                match consume(src, s1, TokenType::SemiColon, "Expect ';'.") {
                    Some(Ok(s2)) => {
                        let exit: int = s2.cur.code.len() as int;
                        let s3 = emit(src, emit(src, s2, OpCode::JumpIfFalse(0)), OpCode::Pop);
                        for_increment(src, s3, cond, Some(exit))
                    },
                    other => other,
                }
            },
            other => other,
        }
    }
}

/// The increment clause of a `for`: none, or an expression the body jumps
/// over, run after the body before the condition.
pub open spec fn for_increment(src: Src, s: PState, cond: int, exit: Option<int>) -> Out
    decreases src.toks.len() - s.pos, 18int,
{
    if matched(src, s, TokenType::RightParen) {
        for_body(src, advance(s), cond, exit)
    } else {
        let body_jump: int = s.cur.code.len() as int;
        let s1 = emit(src, s, OpCode::Jump(0));
        match expression(src, s1) {
            Some(Ok(s2)) => if !fwd(src, s, s2) {
                None
            } else {
                match consume(src, emit(src, s2, OpCode::Pop), TokenType::RightParen, "Expect ')' after clause of 'for' .") {
                    Some(Ok(s3)) => match emit_loop(src, s3, cond) {
                        None => None,
                        Some(s4) => match patch_jump(s4, body_jump) {
                            None => None,
                            Some(s5) => for_body(src, s5, body_jump, exit),
                        },
                    },
                    other => other,
                }
            },
            other => other,
        }
    }
}

/// The body of a `for`, the jump back to `back`, the exit, the end of its scope.
pub open spec fn for_body(src: Src, s: PState, back: int, exit: Option<int>) -> Out
    decreases src.toks.len() - s.pos, 21int,
{
    match statement(src, s) {
        Some(Ok(s1)) => match emit_loop(src, s1, back) {
            None => None,
            Some(s2) => match exit {
                Some(e) => match patch_jump(s2, e) {
                    None => None,
                    Some(s3) => lift(end_scope(src, emit(src, s3, OpCode::Pop))),
                },
                None => lift(end_scope(src, s2)),
            },
        },
        other => other,
    }
}

/// EXPRESSION `;`, its value dropped.
pub open spec fn expression_statement(src: Src, s: PState) -> Out
    decreases src.toks.len() - s.pos, 18int,
{
    match expression(src, s) {
        Some(Ok(s1)) => match consume(src, s1, TokenType::SemiColon, "Expect ';' after expression statement.") {
            Some(Ok(s2)) => Some(Ok(emit(src, s2, OpCode::Pop))),
            other => other,
        },
        other => other,
    }
}

/// An expression, assignments included.
pub open spec fn expression(src: Src, s: PState) -> Out
    decreases src.toks.len() - s.pos, 17int,
{
    parse_precedence(src, s, Precedence::Assignment)
}

/// An expression of operators binding at least as tightly as `prec`: the
/// token read first says how it starts, then each operator that binds tight
/// enough extends it.
pub open spec fn parse_precedence(src: Src, s: PState, prec: Precedence) -> Out
    decreases src.toks.len() - s.pos, 16int,
{
    if !in_range(src, s) {
        None
    } else {
        let t = src.toks[s.pos];
        match rule_of(t.0) {
            None => None,
            Some(rule) => match rule.prefix {
                None => Some(Err(CompileError::Near(t.1, "Expect expression"))),
                Some(p) => {
                    let can_assign = prec.rank() <= Precedence::Assignment.rank();
                    match prefix(src, advance(s), p, can_assign) {
                        Some(Ok(s1)) => if fwd(src, s, s1) {
                            infix_loop(src, s1, prec, can_assign)
                        } else {
                            None
                        },
                        other => other,
                    }
                },
            },
        }
    }
}

/// The operators that extend an expression of precedence `prec`, then the
/// check that no `=` follows where assignment is not allowed.
pub open spec fn infix_loop(src: Src, s: PState, prec: Precedence, can_assign: bool) -> Out
    decreases src.toks.len() - s.pos, 15int,
{
    if !in_range(src, s) {
        None
    } else {
        match rule_of(cur_typ(src, s)) {
            None => None,
            Some(rule) => if prec.rank() <= rule.precedence.rank() {
                match rule.infix {
                    None => None,
                    Some(i) => match infix(src, advance(s), i, can_assign) {
                        Some(Ok(s1)) => if strictly_fwd(src, s, s1) {
                            infix_loop(src, s1, prec, can_assign)
                        } else {
                            None
                        },
                        other => other,
                    },
                }
            } else if can_assign && cur_typ(src, s) == TokenType::Equal {
                Some(Err(CompileError::Near(cur_line(src, s), "Invalid assignment target.")))
            } else {
                Some(Ok(s))
            },
        }
    }
}

/// The start of an expression, its first token just read.
pub open spec fn prefix(src: Src, s: PState, p: Prefix, can_assign: bool) -> Out
    decreases src.toks.len() - s.pos, 30int,
{
    match p {
        Prefix::Grouping => grouping(src, s),
        Prefix::Unary => unary(src, s),
        Prefix::Variable => variable(src, s, can_assign),
        Prefix::Str => string(src, s),
        Prefix::Number => number(src, s),
        Prefix::Literal => literal(src, s),
    }
}

/// An operator after an operand, the operator just read.
pub open spec fn infix(src: Src, s: PState, i: Infix, can_assign: bool) -> Out
    decreases src.toks.len() - s.pos, 30int,
{
    match i {
        Infix::Call => call(src, s),
        Infix::Binary => binary(src, s),
        Infix::And => and(src, s),
        Infix::Or => or(src, s),
    }
}

/// `(` EXPRESSION `)`, the `(` just read.
pub open spec fn grouping(src: Src, s: PState) -> Out
    decreases src.toks.len() - s.pos, 29int,
{
    match expression(src, s) {
        Some(Ok(s1)) => consume(src, s1, TokenType::RightParen, "Expect ')' after expression."),
        other => other,
    }
}

/// `-` or `!` and its operand, the operator just read.
pub open spec fn unary(src: Src, s: PState) -> Out
    decreases src.toks.len() - s.pos, 29int,
{
    let t = prev(src, s).0;
    match parse_precedence(src, s, Precedence::Unary) {
        Some(Ok(s1)) => if t == TokenType::Minus {
            Some(Ok(emit(src, s1, OpCode::Negate)))
        } else if t == TokenType::Bang {
            Some(Ok(emit(src, s1, OpCode::Not)))
        } else {
            None
        },
        other => other,
    }
}

/// The right operand of a binary operator, which binds one step tighter than
/// the operator, then the operator; the operator just read.
pub open spec fn binary(src: Src, s: PState) -> Out
    decreases src.toks.len() - s.pos, 29int,
{
    let t = prev(src, s).0;
    match rule_of(t) {
        None => None,
        Some(rule) => match precedence_of(rule.precedence.rank() + 1) {
            None => None,
            Some(p) => match parse_precedence(src, s, p) {
                Some(Ok(s1)) => lift(binary_op(src, s1, t)),
                other => other,
            },
        },
    }
}

/// `and` and its right operand, skipped when the left one is false.
pub open spec fn and(src: Src, s: PState) -> Out
    decreases src.toks.len() - s.pos, 29int,
{
    let jump: int = s.cur.code.len() as int;
    let s1 = emit(src, emit(src, s, OpCode::JumpIfFalse(0)), OpCode::Pop);
    match parse_precedence(src, s1, Precedence::And) {
        Some(Ok(s2)) => lift(patch_jump(s2, jump)),
        other => other,
    }
}

/// `or` and its right operand, skipped when the left one is true.
pub open spec fn or(src: Src, s: PState) -> Out
    decreases src.toks.len() - s.pos, 29int,
{
    let else_jump: int = s.cur.code.len() as int;
    let s1 = emit(src, s, OpCode::JumpIfFalse(0));
    let end_jump: int = s1.cur.code.len() as int;
    match patch_jump(emit(src, s1, OpCode::Jump(0)), else_jump) {
        None => None,
        Some(s2) => match parse_precedence(src, emit(src, s2, OpCode::Pop), Precedence::Or) {
            Some(Ok(s3)) => lift(patch_jump(s3, end_jump)),
            other => other,
        },
    }
}

/// The arguments of a call and `)`, the `(` just read.
pub open spec fn call(src: Src, s: PState) -> Out
    decreases src.toks.len() - s.pos, 29int,
{
    if matched(src, s, TokenType::RightParen) {
        Some(Ok(emit(src, advance(s), OpCode::Call(0))))
    } else {
        call_args(src, s, 0)
    }
}

/// The arguments from the position on, `count` of them already read.
pub open spec fn call_args(src: Src, s: PState, count: usize) -> Out
    decreases src.toks.len() - s.pos, 28int,
{
    match expression(src, s) {
        Some(Ok(s1)) => if !fwd(src, s, s1) || count == usize::MAX {
            None
        } else if matched(src, s1, TokenType::Comma) {
            call_args(src, advance(s1), (count + 1) as usize)
        } else {
            match consume(src, s1, TokenType::RightParen, "Expect ')' after arguments.") {
                Some(Ok(s2)) => Some(Ok(emit(src, s2, OpCode::Call((count + 1) as usize)))),
                other => other,
            }
        },
        other => other,
    }
}

/// A variable, its name just read: a local where one has that name,
/// otherwise a global; assigned where `=` follows and assignment is allowed.
pub open spec fn variable(src: Src, s: PState, can_assign: bool) -> Out
    decreases src.toks.len() - s.pos, 29int,
{
    let name = prev(src, s).2;
    match resolve_local(s.cur, name) {
        Err(e) => Some(Err(e)),
        Ok(Some(i)) => assign_or_get(src, s, OpCode::SetLocal(i), OpCode::GetLocal(i), can_assign),
        Ok(None) => {
            let (s1, g) = identifier_constant(s, name);
            assign_or_get(src, s1, OpCode::SetGlobal(g), OpCode::GetGlobal(g), can_assign)
        },
    }
}

/// `=` and a value, then `set`, where assignment is allowed and `=` follows;
/// otherwise `get`.
pub open spec fn assign_or_get(src: Src, s: PState, set: OpCode, get: OpCode, can_assign: bool) -> Out
    decreases src.toks.len() - s.pos, 28int,
{
    if can_assign && matched(src, s, TokenType::Equal) {
        match expression(src, advance(s)) {
            Some(Ok(s1)) => Some(Ok(emit(src, s1, set))),
            other => other,
        }
    } else {
        Some(Ok(emit(src, s, get)))
    }
}

/// A whole program: its declarations, then the script goes to the heap. The
/// state after, and the reference of the script's function.
pub open spec fn compile_program(src: Src, s: PState) -> Option<Result<(PState, Reference<Function>), CompileError>> {
    match compile_loop(src, s) {
        Some(Ok(s1)) => Some(Ok(store_function(s1, s1.cur))),
        Some(Err(e)) => Some(Err(e)),
        None => None,
    }
}


/// The instruction at `p` refers only to what its function holds: a constant
/// of the kind it needs, a jump target within the code.
pub open spec fn op_wf(code: Seq<OpCode>, values: Seq<Value>, p: int) -> bool {
    match code[p] {
        OpCode::JumpIfFalse(o) => p + 1 + o <= code.len(),
        OpCode::Jump(o) => p + 1 + o <= code.len(),
        OpCode::Loop(o) => o <= p + 1,
        OpCode::Constant(i) => i < values.len(),
        OpCode::GetGlobal(i) => i < values.len() && values[i as int] is String,
        OpCode::SetGlobal(i) => i < values.len() && values[i as int] is String,
        OpCode::DefineGlobal(i) => i < values.len() && values[i as int] is String,
        OpCode::Closure(i) => i < values.len() && values[i as int] is Function,
        _ => true,
    }
}

/// Code whose every instruction has a line and refers only to what its
/// function holds.
pub open spec fn code_wf(code: Seq<OpCode>, values: Seq<Value>, lines: Seq<usize>) -> bool {
    &&& lines.len() == code.len()
    &&& forall|p: int| 0 <= p < code.len() ==> #[trigger] op_wf(code, values, p)
}

/// The code of a function under construction is well formed.
pub open spec fn frame_wf(f: Frame) -> bool {
    code_wf(f.code, f.values, f.lines)
}

/// Every function in the heap has well-formed code.
pub open spec fn fns_wf(h: HeapView) -> bool {
    forall|i: int|
        0 <= i < h.objects.len() ==> match #[trigger] h.objects[i].1 {
            ObjView::Function(_, c, v, l) => code_wf(c, v, l),
            _ => true,
        }
}

/// Every function under construction has well-formed code.
pub open spec fn state_wf(s: PState) -> bool {
    &&& frame_wf(s.cur)
    &&& forall|k: int| 0 <= k < s.outer.len() ==> frame_wf(#[trigger] s.outer[k])
}

/// An instruction that may be appended to well-formed code: a jump still to
/// be patched, a loop back to within the code, or a constant of the kind it
/// needs.
pub open spec fn fresh_op_wf(f: Frame, op: OpCode) -> bool {
    match op {
        OpCode::JumpIfFalse(o) => o == 0,
        OpCode::Jump(o) => o == 0,
        OpCode::Loop(o) => o <= f.code.len() + 1,
        OpCode::Constant(i) => i < f.values.len(),
        OpCode::GetGlobal(i) => i < f.values.len() && f.values[i as int] is String,
        OpCode::SetGlobal(i) => i < f.values.len() && f.values[i as int] is String,
        OpCode::DefineGlobal(i) => i < f.values.len() && f.values[i as int] is String,
        OpCode::Closure(i) => i < f.values.len() && f.values[i as int] is Function,
        _ => true,
    }
}

/// Appending a fitting instruction keeps code well formed.
pub proof fn lemma_push_op_wf(f: Frame, op: OpCode, line: usize)
    requires
        frame_wf(f),
        fresh_op_wf(f, op),
    ensures
        frame_wf(Frame { code: f.code.push(op), lines: f.lines.push(line), ..f }),
{
    let c = f.code.push(op);
    assert forall|p: int| 0 <= p < c.len() implies #[trigger] op_wf(c, f.values, p) by {
        if p < f.code.len() {
            assert(op_wf(f.code, f.values, p));
            assert(c[p] == f.code[p]);
        }
    }
}

/// Adding a constant keeps code well formed.
pub proof fn lemma_push_value_wf(f: Frame, v: Value)
    requires
        frame_wf(f),
    ensures
        frame_wf(Frame { values: f.values.push(v), ..f }),
{
    let vs = f.values.push(v);
    assert forall|p: int| 0 <= p < f.code.len() implies #[trigger] op_wf(f.code, vs, p) by {
        assert(op_wf(f.code, f.values, p));
    }
}

/// Patching a jump to land at the end keeps code well formed.
pub proof fn lemma_patch_wf(s: PState, at: int)
    requires
        frame_wf(s.cur),
    ensures
        patch_jump(s, at) matches Some(s1) ==> frame_wf(s1.cur) && s1.outer == s.outer && s1.heap == s.heap,
{
    if let Some(s1) = patch_jump(s, at) {
        let c = s1.cur.code;
        assert forall|p: int| 0 <= p < c.len() implies #[trigger] op_wf(c, s.cur.values, p) by {
            if p != at {
                assert(op_wf(s.cur.code, s.cur.values, p));
            }
        }
    }
}

/// Interning a string keeps the heap's functions well formed.
pub proof fn lemma_intern_fns_wf(h: HeapView, name: Seq<char>)
    requires
        fns_wf(h),
    ensures
        fns_wf(intern_spec(h, name).0),
{
    let h2 = intern_spec(h, name).0;
    assert forall|i: int| 0 <= i < h2.objects.len() implies match #[trigger] h2.objects[i].1 {
        ObjView::Function(_, c, v, l) => code_wf(c, v, l),
        _ => true,
    } by {
        if i < h.objects.len() {
            assert(h2.objects[i] == h.objects[i]);
        }
    }
}

/// Storing a well-formed function keeps the heap's functions well formed.
pub proof fn lemma_store_fns_wf(s: PState, f: Frame)
    requires
        fns_wf(s.heap),
        frame_wf(f),
    ensures
        fns_wf(store_function(s, f).0.heap),
{
    let h2 = store_function(s, f).0.heap;
    assert forall|i: int| 0 <= i < h2.objects.len() implies match #[trigger] h2.objects[i].1 {
        ObjView::Function(_, c, v, l) => code_wf(c, v, l),
        _ => true,
    } by {
        if i < s.heap.objects.len() {
            assert(h2.objects[i] == s.heap.objects[i]);
        }
    }
}


/// `g` holds the constants of `f`, and maybe more after them.
pub open spec fn values_extend(f: Frame, g: Frame) -> bool {
    &&& f.values.len() <= g.values.len()
    &&& forall|i: int| 0 <= i < f.values.len() ==> #[trigger] g.values[i] == f.values[i]
}

/// A value on the stack of a computation with numbers and booleans.
pub ghost enum Calc {
    Num(int),
    Truth(bool),
    Nothing,
}

/// Running the instructions `ops` on the stack `st`, where each arithmetic
/// or comparison instruction takes two numbers (the lower one first),
/// `Negate` negates a number, `Not` a boolean, and `True`, `False`, `Nil`
/// push their value: the stack after them, or `None` where one meets
/// operands it does not take or is of another kind.
pub open spec fn run_ops(ops: Seq<OpCode>, st: Seq<Calc>) -> Option<Seq<Calc>>
    decreases ops.len(),
{
    if ops.len() == 0 {
        Some(st)
    } else {
        let n = st.len();
        let next = match ops[0] {
            OpCode::True => Some(st.push(Calc::Truth(true))),
            OpCode::False => Some(st.push(Calc::Truth(false))),
            OpCode::Nil => Some(st.push(Calc::Nothing)),
            OpCode::Negate => if n >= 1 && st[n - 1] is Num {
                Some(st.drop_last().push(Calc::Num(-st[n - 1]->Num_0)))
            } else {
                None
            },
            OpCode::Not => if n >= 1 && st[n - 1] is Truth {
                Some(st.drop_last().push(Calc::Truth(!st[n - 1]->Truth_0)))
            } else {
                None
            },
            op => if n >= 2 && st[n - 2] is Num && st[n - 1] is Num {
                let a = st[n - 2]->Num_0;
                let b = st[n - 1]->Num_0;
                let rest = st.subrange(0, n - 2);
                match op {
                    OpCode::Greater => Some(rest.push(Calc::Truth(a > b))),
                    OpCode::Less => Some(rest.push(Calc::Truth(a < b))),
                    OpCode::Equal => Some(rest.push(Calc::Truth(a == b))),
                    OpCode::Add => Some(rest.push(Calc::Num(a + b))),
                    OpCode::Subtract => Some(rest.push(Calc::Num(a - b))),
                    OpCode::Multiply => Some(rest.push(Calc::Num(a * b))),
                    _ => None,
                }
            } else {
                None
            },
        };
        match next {
            Some(st2) => run_ops(ops.drop_first(), st2),
            None => None,
        }
    }
}

/// What the operator `t` means on the numbers `a` and `b`, for the binary
/// operators but `/`.
pub open spec fn operator_meaning(t: TokenType, a: int, b: int) -> Option<Calc> {
    match t {
        TokenType::Plus => Some(Calc::Num(a + b)),
        TokenType::Minus => Some(Calc::Num(a - b)),
        TokenType::Star => Some(Calc::Num(a * b)),
        TokenType::Greater => Some(Calc::Truth(a > b)),
        TokenType::GreaterEqual => Some(Calc::Truth(a >= b)),
        TokenType::Less => Some(Calc::Truth(a < b)),
        TokenType::LessEqual => Some(Calc::Truth(a <= b)),
        TokenType::EqualEqual => Some(Calc::Truth(a == b)),
        TokenType::BangEqual => Some(Calc::Truth(a != b)),
        _ => None,
    }
}

/// The code a binary operator compiles to computes the operator: appended
/// to the code so far, run on the two operands `a` and `b`, it leaves the
/// one value the operator means, so that `a <= b` leaves true exactly when
/// `a` is not greater than `b`, `a >= b` when it is not less, `a != b` when
/// they differ, and `a + b`, `a - b`, `a * b` their sum, difference and
/// product.
pub proof fn lemma_binary_op_meaning(src: Src, s: PState, t: TokenType, a: int, b: int)
    requires
        operator_meaning(t, a, b) is Some,
    ensures
        binary_op(src, s, t) matches Some(s2) && {
            &&& s2.cur.code.len() >= s.cur.code.len()
            &&& s2.cur.code.subrange(0, s.cur.code.len() as int) == s.cur.code
            &&& run_ops(s2.cur.code.skip(s.cur.code.len() as int), seq![Calc::Num(a), Calc::Num(b)])
                == Some(seq![operator_meaning(t, a, b).unwrap()])
        },
{
    reveal_with_fuel(run_ops, 3);
    let s2 = binary_op(src, s, t).unwrap();
    let code = s.cur.code;
    let st = seq![Calc::Num(a), Calc::Num(b)];
    assert(st.subrange(0, 0) =~= Seq::<Calc>::empty());
    if s2.cur.code.len() == code.len() + 1 {
        let op = s2.cur.code[code.len() as int];
        assert(s2.cur.code.skip(code.len() as int) =~= seq![op]);
        assert(s2.cur.code.subrange(0, code.len() as int) =~= code);
        assert(seq![op].drop_first() =~= Seq::<OpCode>::empty());
    } else {
        let op1 = s2.cur.code[code.len() as int];
        let op2 = s2.cur.code[code.len() + 1int];
        assert(s2.cur.code.skip(code.len() as int) =~= seq![op1, op2]);
        assert(s2.cur.code.subrange(0, code.len() as int) =~= code);
        assert(seq![op1, op2].drop_first() =~= seq![op2]);
        assert(seq![op2].drop_first() =~= Seq::<OpCode>::empty());
        let mid = Seq::<Calc>::empty().push(Calc::Truth(false));
        assert(mid.drop_last() =~= Seq::<Calc>::empty());
        let mid2 = Seq::<Calc>::empty().push(Calc::Truth(true));
        assert(mid2.drop_last() =~= Seq::<Calc>::empty());
    }
}

/// A literal compiles to code that pushes its value: `true`, `false`, `nil`.
pub proof fn lemma_literal_meaning(src: Src, s: PState)
    ensures
        literal(src, s) matches Some(Ok(s2)) ==> {
            &&& s2.cur.code.len() == s.cur.code.len() + 1
            &&& s2.cur.code.subrange(0, s.cur.code.len() as int) == s.cur.code
            &&& run_ops(s2.cur.code.skip(s.cur.code.len() as int), Seq::empty()) == Some(seq![
                if prev(src, s).0 == TokenType::True {
                    Calc::Truth(true)
                } else if prev(src, s).0 == TokenType::False {
                    Calc::Truth(false)
                } else {
                    Calc::Nothing
                },
            ])
            &&& prev(src, s).0 == TokenType::True || prev(src, s).0 == TokenType::False || prev(src, s).0 == TokenType::Nil
        },
{
    reveal_with_fuel(run_ops, 2);
    if literal(src, s) is Some && literal(src, s)->Some_0 is Ok {
        let s2 = literal(src, s)->Some_0->Ok_0;
        let code = s.cur.code;
        let op = s2.cur.code[code.len() as int];
        assert(s2.cur.code.skip(code.len() as int) =~= seq![op]);
        assert(s2.cur.code.subrange(0, code.len() as int) =~= code);
        assert(seq![op].drop_first() =~= Seq::<OpCode>::empty());
        assert(Seq::<Calc>::empty().push(Calc::Truth(true)) =~= seq![Calc::Truth(true)]);
        assert(Seq::<Calc>::empty().push(Calc::Truth(false)) =~= seq![Calc::Truth(false)]);
        assert(Seq::<Calc>::empty().push(Calc::Nothing) =~= seq![Calc::Nothing]);
    }
}

/// A unary operator compiles, after its operand, to code that negates it:
/// `-` a number, `!` a boolean.
pub proof fn lemma_unary_meaning(src: Src, s: PState, a: int, b: bool)
    ensures
        unary(src, s) matches Some(Ok(s2)) ==> parse_precedence(src, s, Precedence::Unary) matches Some(Ok(s1)) && {
            &&& s2.cur.code.len() == s1.cur.code.len() + 1
            &&& s2.cur.code.subrange(0, s1.cur.code.len() as int) == s1.cur.code
            &&& prev(src, s).0 == TokenType::Minus ==> run_ops(s2.cur.code.skip(s1.cur.code.len() as int), seq![Calc::Num(a)])
                == Some(seq![Calc::Num(-a)])
            &&& prev(src, s).0 == TokenType::Bang ==> run_ops(s2.cur.code.skip(s1.cur.code.len() as int), seq![Calc::Truth(b)])
                == Some(seq![Calc::Truth(!b)])
            &&& prev(src, s).0 == TokenType::Minus || prev(src, s).0 == TokenType::Bang
        },
{
    reveal_with_fuel(run_ops, 2);
    if unary(src, s) is Some && unary(src, s)->Some_0 is Ok {
        let s2 = unary(src, s)->Some_0->Ok_0;
        let s1 = parse_precedence(src, s, Precedence::Unary)->Some_0->Ok_0;
        let code = s1.cur.code;
        let op = s2.cur.code[code.len() as int];
        assert(s2.cur.code.skip(code.len() as int) =~= seq![op]);
        assert(s2.cur.code.subrange(0, code.len() as int) =~= code);
        assert(seq![op].drop_first() =~= Seq::<OpCode>::empty());
        assert(seq![Calc::Num(a)].drop_last() =~= Seq::<Calc>::empty());
        assert(seq![Calc::Truth(b)].drop_last() =~= Seq::<Calc>::empty());
        assert(Seq::<Calc>::empty().push(Calc::Num(-a)) =~= seq![Calc::Num(-a)]);
        assert(Seq::<Calc>::empty().push(Calc::Truth(!b)) =~= seq![Calc::Truth(!b)]);
    }
}

} // verus!
