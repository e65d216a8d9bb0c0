use lib::lox::chunk::OpCode;
use lib::lox::function::{Function, NativeFn};
use lib::lox::value::Value;
use lib::lox::vm::{Fault, Step, VM};

fn num(x: f64) -> Value {
    Value::Number(x.to_bits())
}

/// Runs until the machine stops, doing the arithmetic it hands back.
fn run(vm: &mut VM) -> Result<Vec<String>, Fault> {
    let mut printed = Vec::new();
    loop {
        assert!(vm.can_step());
        match vm.step() {
            Step::Continue => {}
            Step::Print(v) => printed.push(match v {
                Value::Number(b) => format!("{}", f64::from_bits(b)),
                Value::Bool(b) => format!("{}", b),
                Value::Nil => "nil".to_string(),
                _ => "<obj>".to_string(),
            }),
            Step::Numeric(op, a, b) => {
                let (x, y) = (f64::from_bits(a), f64::from_bits(b));
                let r = match op {
                    OpCode::Add => num(x + y),
                    OpCode::Subtract => num(x - y),
                    OpCode::Multiply => num(x * y),
                    OpCode::Divide => num(x / y),
                    OpCode::Greater => Value::Bool(x > y),
                    OpCode::Less => Value::Bool(x < y),
                    _ => Value::Bool(x == y),
                };
                vm.push(r);
            }
            Step::Negate(a) => vm.push(num(-f64::from_bits(a))),
            Step::Native(_, _) => vm.push(Value::Nil),
            Step::Finished => return Ok(printed),
            Step::Fault(f) => return Err(f),
        }
    }
}

fn script(vm: &mut VM, code: Vec<OpCode>, values: Vec<Value>) {
    let name = vm.allocator.new_string("script".to_string());
    let mut f = Function::new(name);
    let n = code.len();
    f.chunk.instructions = code;
    f.chunk.values = values;
    f.chunk.lines = vec![1; n];
    let fid = vm.allocator.allocate(f);
    vm.call_script(fid);
}

#[test]
fn vm_run_arithmetic_into_a_global() {
    let mut vm = VM::new();
    let x = vm.allocator.new_string("x".to_string());
    script(
        &mut vm,
        vec![
            OpCode::Constant(0),
            OpCode::Constant(1),
            OpCode::Add,
            OpCode::Negate,
            OpCode::DefineGlobal(2),
            OpCode::GetGlobal(2),
            OpCode::Print,
            OpCode::Nil,
            OpCode::Return,
        ],
        vec![num(1.5), num(2.0), Value::String(x)],
    );
    assert_eq!(run(&mut vm).ok(), Some(vec!["-3.5".to_string()]));
    // the machine's own functions come first
    assert_eq!(vm.globals.len(), 4);
    assert!(vm.globals[3].0 == x);
}

#[test]
fn vm_undefined_global_is_an_error() {
    let mut vm = VM::new();
    let y = vm.allocator.new_string("y".to_string());
    script(&mut vm, vec![OpCode::GetGlobal(0), OpCode::Return], vec![Value::String(y)]);
    assert!(matches!(run(&mut vm), Err(Fault::UndefinedGlobal(_))));
}

#[test]
fn vm_strings_concatenate_and_intern() {
    let mut vm = VM::new();
    let foo = vm.allocator.new_string("foo".to_string());
    let bar = vm.allocator.new_string("bar".to_string());
    let foobar = vm.allocator.new_string("foobar".to_string());
    script(
        &mut vm,
        vec![
            OpCode::Constant(0),
            OpCode::Constant(1),
            OpCode::Add,
            OpCode::Constant(2),
            OpCode::Equal,
            OpCode::Print,
            OpCode::Nil,
            OpCode::Return,
        ],
        vec![Value::String(foo), Value::String(bar), Value::String(foobar)],
    );
    assert_eq!(run(&mut vm).ok(), Some(vec!["true".to_string()]));
}

#[test]
fn vm_jumps_and_not() {
    let mut vm = VM::new();
    script(
        &mut vm,
        vec![
            OpCode::False,
            OpCode::JumpIfFalse(2),
            OpCode::True,
            OpCode::Print,
            OpCode::Not,
            OpCode::Print,
            OpCode::Nil,
            OpCode::Return,
        ],
        vec![],
    );
    assert_eq!(run(&mut vm).ok(), Some(vec!["true".to_string()]));
}

#[test]
fn vm_arithmetic_on_a_bool_is_an_error() {
    let mut vm = VM::new();
    script(&mut vm, vec![OpCode::True, OpCode::Nil, OpCode::Subtract, OpCode::Return], vec![]);
    assert!(matches!(run(&mut vm), Err(Fault::OperandsNumbers)));
    let mut vm = VM::new();
    script(&mut vm, vec![OpCode::True, OpCode::Nil, OpCode::Add, OpCode::Return], vec![]);
    assert!(matches!(run(&mut vm), Err(Fault::OperandsNumbersOrStrings(1))));
}

#[test]
fn vm_cannot_step_past_the_end() {
    let mut vm = VM::new();
    assert!(!vm.can_step());
    script(&mut vm, vec![OpCode::Pop], vec![]);
    // the stack holds the script function: one pop is fine, then the code ends
    assert!(vm.can_step());
    assert!(matches!(vm.step(), Step::Continue));
    assert!(!vm.can_step());
}

#[test]
fn vm_run_arithmetic() {
    let mut vm = VM::new();
    let name = vm.allocator.new_string("script".to_string());
    let mut function = Function::new(name);
    let i = function.chunk.add_constant(num(1.2));
    function.chunk.add_instruction(OpCode::Constant(i), 1);
    let i = function.chunk.add_constant(num(3.4));
    function.chunk.add_instruction(OpCode::Constant(i), 1);
    function.chunk.add_instruction(OpCode::Add, 1);
    let i = function.chunk.add_constant(num(4.6));
    function.chunk.add_instruction(OpCode::Constant(i), 1);
    function.chunk.add_instruction(OpCode::Divide, 1);
    function.chunk.add_instruction(OpCode::Negate, 1);
    function.chunk.add_instruction(OpCode::Return, 2);
    let fid = vm.allocator.allocate(function);
    vm.call_script(fid);
    // run up to the return, then look at the result it returns
    let mut steps = 0;
    while steps < 8 {
        match vm.step() {
            Step::Numeric(op, a, b) => {
                let (x, y) = (f64::from_bits(a), f64::from_bits(b));
                vm.push(num(if op == OpCode::Add { x + y } else { x / y }));
            }
            Step::Negate(a) => vm.push(num(-f64::from_bits(a))),
            _ => {}
        }
        steps += 1;
        if vm.frames[0].ip == 6 {
            break;
        }
    }
    assert_eq!(-1_f64, f64::from_bits(vm.stack[1].as_number())); // - (1.2 + 3.4) / 4.6
    assert!(matches!(vm.step(), Step::Finished));
}

#[test]
fn vm_new_binds_the_native_functions() {
    let vm = VM::new();
    assert_eq!(vm.globals.len(), 3);
    let names: Vec<&str> = vm.globals.iter().map(|g| vm.allocator.deref(&g.0).as_str()).collect();
    assert_eq!(names, vec!["clock", "max", "panic"]);
    assert!(matches!(vm.globals[0].1, Value::Native(NativeFn::Clock)));
    assert!(matches!(vm.globals[1].1, Value::Native(NativeFn::Max)));
    assert!(matches!(vm.globals[2].1, Value::Native(NativeFn::Panic)));
}
