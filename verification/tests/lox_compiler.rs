use lib::lox::allocator::Allocator;
use lib::lox::chunk::OpCode;
use lib::lox::compiler::Parser;
use lib::lox::function::{Function, NativeFn};
use lib::lox::grammar::CompileError;
use lib::lox::value::Value;
use lib::lox::vm::{InterpretResult, Step, VM};

fn number_bits(s: &str) -> u64 {
    s.parse::<f64>().expect("Compiler tried to parse to number").to_bits()
}

fn num(x: f64) -> Value {
    Value::Number(x.to_bits())
}

/// Compiles `source` and runs it to its end, doing the arithmetic and the
/// native calls the machine hands back.
fn interpret(vm: &mut VM, source: &str) -> InterpretResult {
    let mut parser = Parser::new(&mut vm.allocator);
    let fid = match parser.compile(&mut vm.allocator, source, &number_bits) {
        Ok(fid) => fid,
        Err(e) => return InterpretResult::CompileError(format!("{:?}", e)),
    };
    vm.call_script(fid);
    loop {
        if !vm.can_step() {
            return InterpretResult::RuntimeError;
        }
        match vm.step() {
            Step::Continue | Step::Print(_) => {}
            Step::Numeric(op, a, b) => {
                let (x, y) = (f64::from_bits(a), f64::from_bits(b));
                vm.push(match op {
                    OpCode::Add => num(x + y),
                    OpCode::Subtract => num(x - y),
                    OpCode::Multiply => num(x * y),
                    OpCode::Divide => num(x / y),
                    OpCode::Greater => Value::Bool(x > y),
                    OpCode::Less => Value::Bool(x < y),
                    _ => Value::Bool(x == y),
                });
            }
            Step::Negate(a) => vm.push(num(-f64::from_bits(a))),
            Step::Native(f, argc) => {
                let args = &vm.stack[vm.stack.len() - argc..];
                let result = match f {
                    NativeFn::Clock => num(1234.0),
                    NativeFn::Max => match (args[0], args[1]) {
                        (Value::Number(a), Value::Number(b)) => {
                            if f64::from_bits(a) > f64::from_bits(b) { args[0] } else { args[1] }
                        }
                        _ => panic!("panic: Operand must be numbers."),
                    },
                    NativeFn::Panic => panic!("panic"),
                };
                vm.push(result);
            }
            Step::Finished => return InterpretResult::Success,
            Step::Fault(_) => return InterpretResult::RuntimeError,
        }
    }
}

/// The value of the global called `name`.
fn global(vm: &VM, name: &str) -> Option<Value> {
    vm.globals.iter().find(|g| vm.allocator.deref(&g.0).as_str() == name).map(|g| g.1)
}

fn global_str<'v>(vm: &'v VM, name: &str) -> &'v str {
    vm.allocator.deref(global(vm, name).expect("no such key").as_string()).as_str()
}

fn global_num(vm: &VM, name: &str) -> f64 {
    f64::from_bits(global(vm, name).expect("no such key").as_number())
}

#[test]
fn compiler_run_arithmetic() {
    let source = r#"
-5 + (6 - 2);
"#;
    let mut vm = VM::new();
    assert_eq!(InterpretResult::Success, interpret(&mut vm, source));
}

#[test]
fn run_comparison() {
    let source = r#"
!(5 - 4 > 3 * 2 == !nil);
"#;
    let mut vm = VM::new();
    assert_eq!(InterpretResult::Success, interpret(&mut vm, source));
}

#[test]
fn run_string() {
    let source = r#"
"foo" + "bar" == "foobar";
"#;
    let mut vm = VM::new();
    assert_eq!(InterpretResult::Success, interpret(&mut vm, source));
}

#[test]
fn run_print() {
    let source = r#"
print "foobar";
"#;
    let mut vm = VM::new();
    assert_eq!(InterpretResult::Success, interpret(&mut vm, source));
}

#[test]
fn run_global() {
    let source = r#"
var beverage = "cafe au lait";
var breakfast = "beignets with " + beverage;
print breakfast;

var mut_foo = "foo";
mut_foo = "updated foo!";
print mut_foo;
"#;
    let mut vm = VM::new();
    assert_eq!(InterpretResult::Success, interpret(&mut vm, source));
    assert_eq!("beignets with cafe au lait", global_str(&vm, "breakfast"));
    assert_eq!("updated foo!", global_str(&vm, "mut_foo"));
}

#[test]
fn run_local() {
    let source = r#"
var global = "globalized";
var con = "";
{
    var local = "localized";
    con = local + " and " + global;
    print con;
}
"#;
    let mut vm = VM::new();
    assert_eq!(InterpretResult::Success, interpret(&mut vm, source));
    assert_eq!("globalized", global_str(&vm, "global"));
    assert_eq!("localized and globalized", global_str(&vm, "con"));
}

#[test]
fn run_if() {
    let source = r#"
var global = "globalized";
var falsy = false;
if (global == "globalized") {
    global = "localized";
} else {
    global = "foo";
}
if (global != "localized") {
    falsy = false;
} else {
    falsy = true;
}
"#;
    let mut vm = VM::new();
    assert_eq!(InterpretResult::Success, interpret(&mut vm, source));
    assert_eq!("localized", global_str(&vm, "global"));
    assert_eq!(true, global(&vm, "falsy").expect("no such key").as_bool());
}

#[test]
fn run_logical_operators() {
    let source = r#"
var global = "globalized";
var local = "localized";
var and_exp_true = ( global == "globalized" and local == "localized" );
var and_exp_false = ( global != "globalized" and local == "localized" );
var or_exp_true = ( global == "globalized" or local != "localized" );
var or_exp_false = ( global != "globalized" or local != "localized" );
"#;
    let mut vm = VM::new();
    assert_eq!(InterpretResult::Success, interpret(&mut vm, source));
    assert_eq!(true, global(&vm, "and_exp_true").expect("no such key").as_bool());
    assert_eq!(false, global(&vm, "and_exp_false").expect("no such key").as_bool());
    assert_eq!(true, global(&vm, "or_exp_true").expect("no such key").as_bool());
    assert_eq!(false, global(&vm, "or_exp_false").expect("no such key").as_bool());
}

#[test]
fn run_while() {
    let source = r#"
var retries = 5;
var cnt = 0;
while (cnt < retries) {
    cnt = cnt + 1;
}
"#;
    let mut vm = VM::new();
    assert_eq!(InterpretResult::Success, interpret(&mut vm, source));
    assert_eq!(5_f64, global_num(&vm, "cnt"));
}

#[test]
fn run_for() {
    let source = r#"
var a = 0;
for (var cnt = 0; cnt < 5; cnt = cnt + 1) {
    a = a + 1;
}

var b = 0;
var c = 0;
for (; b < 5; b = b + 1) {
    c = c + 1;
}

var d = 0;
for (;d < 5;) {
    d = d + 1;
}
"#;
    let mut vm = VM::new();
    assert_eq!(InterpretResult::Success, interpret(&mut vm, source));
    assert_eq!(5_f64, global_num(&vm, "a"));
    assert_eq!(5_f64, global_num(&vm, "b"));
    assert_eq!(5_f64, global_num(&vm, "c"));
    assert_eq!(5_f64, global_num(&vm, "d"));
}

#[test]
fn run_call_function() {
    let source = r#"
var c = 5;
fun foo() {
    var a = 1;
    var b = 2;

    c = a + b;
}
foo();
"#;
    let mut vm = VM::new();
    assert_eq!(InterpretResult::Success, interpret(&mut vm, source));
    assert_eq!(3_f64, global_num(&vm, "c"));
}

#[test]
fn run_call_function_with_args() {
    let source = r#"
var c = 5;
fun foo(a, b) {
    c = a + b;
}
foo(1, 2);
"#;
    let mut vm = VM::new();
    assert_eq!(InterpretResult::Success, interpret(&mut vm, source));
    assert_eq!(3_f64, global_num(&vm, "c"));
}

#[test]
fn run_call_function_with_args_and_returns() {
    let source = r#"
var c = 5;
fun foo(a, b) {
    return a + b;
}
c = foo(1, 2);
"#;
    let mut vm = VM::new();
    assert_eq!(InterpretResult::Success, interpret(&mut vm, source));
    assert_eq!(3_f64, global_num(&vm, "c"));
}

#[test]
fn run_call_function_early_return() {
    let source = r#"
var c = 5;
fun foo(a, b) {
    c = a + b;
    return;
    c = 1;
}
foo(1, 2);
"#;
    let mut vm = VM::new();
    assert_eq!(InterpretResult::Success, interpret(&mut vm, source));
    assert_eq!(3_f64, global_num(&vm, "c"));
}

#[test]
fn run_native_max_call() {
    let source = r#"
var a = 0;
a = max(1, 2);
"#;
    let mut vm = VM::new();
    assert_eq!(InterpretResult::Success, interpret(&mut vm, source));
    assert_eq!(2_f64, global_num(&vm, "a"));
}

/// Compiles `source` alone, into a fresh heap; the script's code.
fn compile(source: &str) -> Result<Vec<OpCode>, CompileError> {
    let mut heap = Allocator::new();
    let mut parser = Parser::new(&mut heap);
    let fid = parser.compile(&mut heap, source, &number_bits)?;
    let f: &Function = heap.deref(&fid);
    Ok(f.chunk.instructions.clone())
}

#[test]
fn compile_expression_statement_code() {
    assert_eq!(
        compile("1 + 2 * 3;").unwrap(),
        vec![
            OpCode::Constant(0),
            OpCode::Constant(1),
            OpCode::Add,
            OpCode::Constant(2),
            OpCode::Multiply,
            OpCode::Pop,
            OpCode::Nil,
            OpCode::Return,
        ]
    );
}

#[test]
fn compile_if_patches_both_jumps() {
    assert_eq!(
        compile("if (true) print 1; else print 2;").unwrap(),
        vec![
            OpCode::True,
            OpCode::JumpIfFalse(4),
            OpCode::Pop,
            OpCode::Constant(0),
            OpCode::Print,
            OpCode::Jump(3),
            OpCode::Pop,
            OpCode::Constant(1),
            OpCode::Print,
            OpCode::Nil,
            OpCode::Return,
        ]
    );
}

#[test]
fn compile_errors() {
    assert_eq!(compile("var 1;"), Err(CompileError::At(0, "Expect variable name")));
    assert_eq!(compile("print 1"), Err(CompileError::At(0, "Expect ';' after print statement.")));
    assert_eq!(compile("return 1;"), Err(CompileError::At(0, "Cannot return from top-level code.")));
    assert_eq!(compile("1 + ;"), Err(CompileError::Near(0, "Expect expression")));
    assert_eq!(compile("1 = 2;"), Err(CompileError::Near(0, "Invalid assignment target.")));
    assert_eq!(
        compile("{ var a = a; }"),
        Err(CompileError::Plain("Can't read local variable in its own initializer."))
    );
    assert!(matches!(compile("var s = \"open;"), Err(CompileError::Scan(0, _))));
}

#[test]
fn compile_aborts_where_the_compiler_would_stop() {
    // no rule for `}` after an expression
    assert_eq!(compile("{ print 1 }"), Err(CompileError::Abort));
    // a loop as the very first code
    assert_eq!(compile("while (true) print 1;"), Err(CompileError::Abort));
    // parameters running into the end of the text
    assert_eq!(compile("fun f("), Err(CompileError::Abort));
    // a `/` that starts no comment stops the scanner
    assert_eq!(compile("4 / 2;"), Err(CompileError::Abort));
}

/// Whether every instruction has a line, refers to a constant of its
/// function of the kind it needs, and jumps within the code.
fn code_wf(f: &Function) -> bool {
    let code = &f.chunk.instructions;
    let values = &f.chunk.values;
    let n = code.len();
    f.chunk.lines.len() == n
        && code.iter().enumerate().all(|(p, op)| match *op {
            OpCode::JumpIfFalse(o) | OpCode::Jump(o) => p + 1 + o <= n,
            OpCode::Loop(o) => o <= p + 1,
            OpCode::Constant(i) => i < values.len(),
            OpCode::GetGlobal(i) | OpCode::SetGlobal(i) | OpCode::DefineGlobal(i) => {
                i < values.len() && matches!(values[i], Value::String(_))
            }
            OpCode::Closure(i) => i < values.len() && matches!(values[i], Value::Function(_)),
            _ => true,
        })
}

#[test]
fn compiled_functions_are_well_formed() {
    let source = r#"
var n = 0;
fun count(a, b) {
    var i = a;
    while (i < b or false) { i = i + 1; n = n + 1; }
    if (n > 3 and true) { return n; } else { return; }
}
for (var k = 0; k < 2; k = k + 1) { count(k, 4); }
"#;
    let mut heap = Allocator::new();
    let mut parser = Parser::new(&mut heap);
    let fid = parser.compile(&mut heap, source, &number_bits).unwrap();
    let script: &Function = heap.deref(&fid);
    assert!(code_wf(script));
    let closures: Vec<usize> = script
        .chunk
        .values
        .iter()
        .filter_map(|v| match v {
            Value::Function(r) => Some(r.index()),
            _ => None,
        })
        .collect();
    assert_eq!(closures.len(), 1);
    for v in script.chunk.values.iter() {
        if let Value::Function(r) = v {
            assert!(code_wf(heap.deref(r)));
        }
    }
}

#[test]
fn redefining_a_global_keeps_one_entry() {
    let mut vm = VM::new();
    assert_eq!(InterpretResult::Success, interpret(&mut vm, "var a = 1; var a = 2; a = a + 1;"));
    let entries = vm.globals.iter().filter(|g| vm.allocator.deref(&g.0).as_str() == "a").count();
    assert_eq!(entries, 1);
    assert_eq!(3_f64, global_num(&vm, "a"));
    // the machine's functions and the one name
    assert_eq!(vm.globals.len(), 4);
}

#[test]
fn run_star_binds_like_plus() {
    let source = r#"
var a = 1 + 2 * 3;
var b = 8 - 3 * 2;
var c = (1 + 2) * 3;
"#;
    let mut vm = VM::new();
    assert_eq!(InterpretResult::Success, interpret(&mut vm, source));
    assert_eq!(9_f64, global_num(&vm, "a"));
    assert_eq!(10_f64, global_num(&vm, "b"));
    assert_eq!(9_f64, global_num(&vm, "c"));
}
