use lib::lox::chunk::{listing, Operand};
use lib::lox::allocator::Allocator;
use lib::lox::chunk::{Chunk, OpCode};
use lib::lox::value::Value;

#[test]
fn strings_are_interned() {
    let mut heap = Allocator::new();
    let a = heap.new_string("foo".to_string());
    let b = heap.new_string("bar".to_string());
    let c = heap.new_string("foo".to_string());
    assert!(a == c);
    assert!(a != b);
    assert_eq!(heap.deref(&a), "foo");
}

#[test]
fn collection_frees_unmarked_objects() {
    let mut heap = Allocator::new();
    let a = heap.allocate("kept".to_string());
    let b = heap.allocate("dropped".to_string());
    heap.mark_object(a);
    heap.collect_garbage();
    // the freed slot is handed out again
    let c = heap.allocate("again".to_string());
    assert_eq!(c.index(), b.index());
    assert_eq!(heap.deref(&a), "kept");
}

#[test]
fn values_and_chunks() {
    assert!(Value::Nil.is_falsy());
    assert!(Value::Bool(false).is_falsy());
    assert!(!Value::Bool(true).is_falsy());
    assert!(!Value::Number(0).is_falsy());
    let mut chunk = Chunk::new();
    let i = chunk.add_constant(Value::Number(7));
    assert_eq!(i, 0);
    chunk.add_instruction(OpCode::Constant(i), 1);
    chunk.add_instruction(OpCode::Return, 2);
    assert_eq!(chunk.instructions, vec![OpCode::Constant(0), OpCode::Return]);
    assert_eq!(chunk.lines, vec![1, 2]);
}

#[test]
fn listing_names_and_lines() {
    assert_eq!(listing(&OpCode::Return), ("OP_RETURN", Operand::Simple));
    assert_eq!(listing(&OpCode::Jump(3)), ("OP_JUMP", Operand::Byte(3)));
    assert_eq!(listing(&OpCode::DefineGlobal(2)), ("OP_DEFINE_GLOBAL", Operand::Constant(2)));
    let mut chunk = Chunk::new();
    chunk.add_instruction(OpCode::Nil, 1);
    chunk.add_instruction(OpCode::Pop, 1);
    chunk.add_instruction(OpCode::Return, 2);
    assert_eq!(chunk.line_column(0), Some(1));
    assert_eq!(chunk.line_column(1), None);
    assert_eq!(chunk.line_column(2), Some(2));
}

#[test]
fn interning_twice_gives_one_slot() {
    let mut heap = Allocator::new();
    let a = heap.new_string("x".to_string());
    let n = heap.slots();
    let b = heap.new_string("x".to_string());
    assert!(a == b);
    assert_eq!(heap.slots(), n);
}

#[test]
fn collection_lists_the_freed_slots_in_order() {
    let mut heap = Allocator::new();
    let a = heap.allocate("a".to_string());
    let b = heap.allocate("b".to_string());
    let c = heap.allocate("c".to_string());
    let d = heap.allocate("d".to_string());
    heap.mark_object(c);
    heap.mark_object(c);
    heap.collect_garbage();
    assert_eq!(heap.deref(&c), "c");
    // a, b and d were freed in slot order: the last freed is handed out first
    assert_eq!(heap.allocate("x".to_string()).index(), d.index());
    assert_eq!(heap.allocate("y".to_string()).index(), b.index());
    assert_eq!(heap.allocate("z".to_string()).index(), a.index());
    // nothing stays marked: a second collection with no mark frees c too
    heap.collect_garbage();
    assert_eq!(heap.allocate("w".to_string()).index(), 3);
}
