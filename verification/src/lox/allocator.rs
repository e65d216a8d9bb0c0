//! The object heap of the interpreter, with a mark-and-sweep collector.
use vstd::prelude::*;
use std::marker::PhantomData;
use vstd::std_specs::cmp::PartialEqSpecImpl;

use super::chunk::{Chunk, OpCode};
use super::function::{Closure, Function};
use super::value::Value;

verus! {

/// A reference to a heap object of type `T`: its slot in the heap.
pub struct Reference<T> {
    index: usize,
    _marker: PhantomData<T>,
}

impl<T> View for Reference<T> {
    type V = usize;

    closed spec fn view(&self) -> usize {
        self.index
    }
}

impl<T> Reference<T> {
    /// The reference to slot `i`.
    pub closed spec fn at_slot(i: usize) -> Reference<T> {
        Reference { index: i, _marker: PhantomData }
    }

    /// A reference is the one to its slot.
    pub broadcast proof fn lemma_at_slot(r: Reference<T>)
        ensures
            #[trigger] Reference::<T>::at_slot(r@) == r,
    {
    }

    /// The reference to slot `i` refers to it.
    pub broadcast proof fn lemma_at_slot_view(i: usize)
        ensures
            #[trigger] Reference::<T>::at_slot(i)@ == i,
    {
    }

    fn at(index: usize) -> (r: Self)
        ensures
            r@ == index,
    {
        Reference { index, _marker: PhantomData }
    }

    /// The slot it refers to.
    pub fn index(&self) -> (r: usize)
        ensures
            r == self@,
    {
        self.index
    }
}

impl<T> Clone for Reference<T> {
    fn clone(&self) -> (r: Self)
        ensures
            r@ == self@,
    {
        Reference { index: self.index, _marker: PhantomData }
    }
}

impl<T> Copy for Reference<T> {
}

impl<T> PartialEq for Reference<T> {
    fn eq(&self, other: &Self) -> (r: bool) {
        self.index == other.index
    }
}

impl<T> PartialEqSpecImpl for Reference<T> {
    open spec fn obeys_eq_spec() -> bool {
        true
    }

    open spec fn eq_spec(&self, other: &Self) -> bool {
        self@ == other@
    }
}

impl<T> Eq for Reference<T> {
}

/// What a heap object holds: a function by its name's slot and its chunk, a
/// closure by its function's slot.
pub ghost enum ObjView {
    Empty,
    Str(Seq<char>),
    Function(usize, Seq<OpCode>, Seq<Value>, Seq<usize>),
    Closure(usize),
}

/// The slots a heap object refers to.
pub open spec fn children(o: ObjView) -> Seq<usize> {
    match o {
        ObjView::Function(name, _, _, _) => seq![name],
        ObjView::Closure(func) => seq![func],
        _ => Seq::empty(),
    }
}

/// A heap object.
pub enum Object {
    Empty,
    Str(String),
    Function(Function),
    Closure(Closure),
}

impl View for Object {
    type V = ObjView;

    open spec fn view(&self) -> ObjView {
        match self {
            Object::Empty => ObjView::Empty,
            Object::Str(s) => ObjView::Str(s@),
            Object::Function(f) => ObjView::Function(f.name@, f.chunk.instructions@, f.chunk.values@, f.chunk.lines@),
            Object::Closure(c) => ObjView::Closure(c.func_id@),
        }
    }
}

/// The heap as a whole: each slot with its mark and object, the slots freed for
/// reuse, the marked slots whose children are still to be marked, and the
/// interned strings with their slots.
pub ghost struct HeapView {
    pub objects: Seq<(bool, ObjView)>,
    pub free_slots: Seq<usize>,
    pub gray: Seq<usize>,
    pub strings: Seq<(Seq<char>, usize)>,
}

/// The heap with slot `i` marked, and pushed to be traced if it was not marked.
pub open spec fn mark_spec(h: HeapView, i: usize) -> HeapView {
    if h.objects[i as int].0 {
        h
    } else {
        HeapView { objects: h.objects.update(i as int, (true, h.objects[i as int].1)), gray: h.gray.push(i), ..h }
    }
}

/// A value that the heap can hold.
pub trait Trace: Sized {
    /// The object that holds this value.
    spec fn heap_view(&self) -> ObjView;

    /// Whether an object holds a value of this type.
    spec fn is_kind(o: ObjView) -> bool;

    /// Marks the objects this value refers to.
    fn trace(&self, allocator: &mut Allocator)
        requires
            old(allocator).wf(),
            forall|k: int| 0 <= k < children(self.heap_view()).len() ==> children(self.heap_view())[k] < old(allocator)@.objects.len(),
        ensures
            final(allocator).wf(),
            children(self.heap_view()).len() == 0 ==> final(allocator)@ == old(allocator)@,
            children(self.heap_view()).len() == 1 ==> final(allocator)@ == mark_spec(old(allocator)@, children(self.heap_view())[0]),
    ;

    /// The object that holds the value.
    fn into_object(self) -> (o: Object)
        ensures
            o@ == self.heap_view(),
            Self::is_kind(o@),
    ;

    /// The value an object holds, where it holds one of this type.
    fn from_object(o: &Object) -> (r: Option<&Self>)
        ensures
            Self::is_kind(o@) ==> (r matches Some(x) && x.heap_view() == o@),
            !Self::is_kind(o@) ==> r is None,
    ;
}

impl Trace for String {
    open spec fn heap_view(&self) -> ObjView {
        ObjView::Str(self@)
    }

    open spec fn is_kind(o: ObjView) -> bool {
        o is Str
    }

    fn trace(&self, allocator: &mut Allocator) {
    }

    fn into_object(self) -> (o: Object) {
        Object::Str(self)
    }

    fn from_object(o: &Object) -> (r: Option<&Self>) {
        match o {
            Object::Str(s) => Some(s),
            _ => None,
        }
    }
}

impl Trace for Function {
    open spec fn heap_view(&self) -> ObjView {
        ObjView::Function(self.name@, self.chunk.instructions@, self.chunk.values@, self.chunk.lines@)
    }

    open spec fn is_kind(o: ObjView) -> bool {
        o is Function
    }

    fn trace(&self, allocator: &mut Allocator) {
        assert(children(self.heap_view())[0] == self.name@);
        allocator.mark_object(self.name);
    }

    fn into_object(self) -> (o: Object) {
        Object::Function(self)
    }

    fn from_object(o: &Object) -> (r: Option<&Self>) {
        match o {
            Object::Function(f) => Some(f),
            _ => None,
        }
    }
}

impl Trace for Closure {
    open spec fn heap_view(&self) -> ObjView {
        ObjView::Closure(self.func_id@)
    }

    open spec fn is_kind(o: ObjView) -> bool {
        o is Closure
    }

    fn trace(&self, allocator: &mut Allocator) {
        assert(children(self.heap_view())[0] == self.func_id@);
        allocator.mark_object(self.func_id);
    }

    fn into_object(self) -> (o: Object) {
        Object::Closure(self)
    }

    fn from_object(o: &Object) -> (r: Option<&Self>) {
        match o {
            Object::Closure(c) => Some(c),
            _ => None,
        }
    }
}

/// The placeholder in a freed slot.
pub struct Empty;

impl Trace for Empty {
    open spec fn heap_view(&self) -> ObjView {
        ObjView::Empty
    }

    open spec fn is_kind(o: ObjView) -> bool {
        o is Empty
    }

    fn trace(&self, allocator: &mut Allocator) {
    }

    fn into_object(self) -> (o: Object) {
        Object::Empty
    }

    fn from_object(o: &Object) -> (r: Option<&Self>) {
        match o {
            Object::Empty => Some(&Empty),
            _ => None,
        }
    }
}

struct ObjHeader {
    is_marked: bool,
    obj: Object,
}

impl ObjHeader {
    fn empty() -> (r: Self)
        ensures
            !r.is_marked,
            r.obj@ == ObjView::Empty,
    {
        Self { is_marked: false, obj: Object::Empty }
    }
}

/// The heap.
pub struct Allocator {
    objects: Vec<ObjHeader>,
    free_slots: Vec<usize>,
    gray_stack: Vec<usize>,
    strings: Vec<(String, Reference<String>)>,
}

impl View for Allocator {
    type V = HeapView;

    closed spec fn view(&self) -> HeapView {
        HeapView {
            objects: self.objects@.map_values(|h: ObjHeader| (h.is_marked, h.obj@)),
            free_slots: self.free_slots@,
            gray: self.gray_stack@,
            strings: self.strings@.map_values(|e: (String, Reference<String>)| (e.0@, e.1@)),
        }
    }
}

/// The shape of the heap: objects refer only to slots before their own, and
/// freed slots and interned strings refer to slots of the heap, no string
/// interned twice.
/// Where `allocate` puts an object, and the heap after it: a freed slot is
/// handed out again as it is; otherwise the object goes into a new slot.
pub open spec fn alloc_spec(h: HeapView, o: ObjView) -> (HeapView, usize) {
    if h.free_slots.len() > 0 {
        (HeapView { free_slots: h.free_slots.drop_last(), ..h }, h.free_slots.last())
    } else {
        (HeapView { objects: h.objects.push((false, o)), ..h }, h.objects.len() as usize)
    }
}

/// The slot of the interned string `s`, if it is interned.
pub open spec fn interned(h: HeapView, s: Seq<char>) -> Option<usize> {
    if exists|k: int| 0 <= k < h.strings.len() && h.strings[k].0 == s {
        Some(h.strings[choose|k: int| 0 <= k < h.strings.len() && h.strings[k].0 == s].1)
    } else {
        None
    }
}

/// Interning `s`: its slot, allocated and listed when it is new, and the heap
/// after it.
pub open spec fn intern_spec(h: HeapView, s: Seq<char>) -> (HeapView, usize) {
    match interned(h, s) {
        Some(r) => (h, r),
        None => {
            let (h2, r) = alloc_spec(h, ObjView::Str(s));
            (HeapView { strings: h2.strings.push((s, r)), ..h2 }, r)
        },
    }
}

/// Interning a string a second time gives the slot of the first time, and
/// changes nothing.
pub proof fn lemma_intern_twice(h: HeapView, s: Seq<char>)
    requires
        heap_base(h),
    ensures
        intern_spec(intern_spec(h, s).0, s) == intern_spec(h, s),
{
    let (h2, r) = intern_spec(h, s);
    match interned(h, s) {
        Some(_) => {},
        None => {
            let last = h2.strings.len() - 1;
            assert(h2.strings[last].0 == s);
            let k = choose|k: int| 0 <= k < h2.strings.len() && h2.strings[k].0 == s;
            if k != last {
                assert(h.strings[k].0 == s);
                assert(false);
            }
        },
    }
}

/// The slots the heap refers to exist, children sit in earlier slots, and
/// no string is interned twice.
pub open spec fn heap_base(h: HeapView) -> bool {
    let n = h.objects.len();
    &&& n <= usize::MAX
    &&& forall|i: int, k: int| 0 <= i < n && 0 <= k < children(h.objects[i].1).len() ==> #[trigger] children(h.objects[i].1)[k] < i
    &&& forall|k: int| 0 <= k < h.free_slots.len() ==> #[trigger] h.free_slots[k] < n
    &&& forall|k: int| 0 <= k < h.strings.len() ==> #[trigger] h.strings[k].1 < n
    &&& forall|k: int, l: int| 0 <= k < l < h.strings.len() ==> h.strings[k].0 != h.strings[l].0
}

/// The slots still to trace are slots of the heap, marked, and listed once.
pub open spec fn gray_ok(h: HeapView) -> bool {
    &&& forall|k: int| 0 <= k < h.gray.len() ==> #[trigger] h.gray[k] < h.objects.len() && h.objects[h.gray[k] as int].0
    &&& forall|k: int, l: int| 0 <= k < l < h.gray.len() ==> h.gray[k] != h.gray[l]
}

/// A marked slot that is not still to trace has its children marked.
pub open spec fn tricolor(h: HeapView) -> bool {
    forall|i: int, k: int|
        0 <= i < h.objects.len() && h.objects[i].0 && !h.gray.contains(i as usize) && 0 <= k < children(h.objects[i].1).len()
            ==> h.objects[#[trigger] children(h.objects[i].1)[k] as int].0
}

/// The heap invariant.
pub open spec fn heap_wf(h: HeapView) -> bool {
    heap_base(h) && gray_ok(h) && tricolor(h)
}

impl Default for Allocator {
    /// An empty heap.
    fn default() -> (r: Self)
        ensures
            r.wf(),
            r@.objects.len() == 0,
            r@.free_slots.len() == 0,
            r@.gray.len() == 0,
            r@.strings.len() == 0,
    {
        Allocator::new()
    }
}

impl Allocator {
    /// The heap keeps its invariants.
    pub open spec fn wf(&self) -> bool {
        heap_wf(self@)
    }

    /// An empty heap.
    pub fn new() -> (r: Self)
        ensures
            r.wf(),
            r@.objects.len() == 0,
            r@.free_slots.len() == 0,
            r@.gray.len() == 0,
            r@.strings.len() == 0,
    {
        let r = Allocator { objects: Vec::new(), free_slots: Vec::new(), gray_stack: Vec::new(), strings: Vec::new() };
        assert(r@.objects =~= Seq::<(bool, ObjView)>::empty());
        assert(r@.strings =~= Seq::<(Seq<char>, usize)>::empty());
        r
    }

    /// Whether a collection is due: always.
    pub fn should_gc(&self) -> (r: bool)
        ensures
            r,
    {
        true
    }

    /// Allocates `obj`: in the slot freed last where there is one, which keeps
    /// what it holds, and otherwise in a new slot holding `obj` unmarked.
    pub fn allocate<T: Trace>(&mut self, obj: T) -> (r: Reference<T>)
        requires
            old(self).wf(),
            forall|k: int| 0 <= k < children(obj.heap_view()).len() ==> children(obj.heap_view())[k] < old(self)@.objects.len(),
        ensures
            final(self).wf(),
            old(self)@.free_slots.len() > 0 ==> {
                &&& r@ == old(self)@.free_slots.last()
                &&& final(self)@ == (HeapView { free_slots: old(self)@.free_slots.drop_last(), ..old(self)@ })
            },
            old(self)@.free_slots.len() == 0 ==> {
                &&& r@ == old(self)@.objects.len()
                &&& final(self)@ == (HeapView { objects: old(self)@.objects.push((false, obj.heap_view())), ..old(self)@ })
            },
            (final(self)@, r@) == alloc_spec(old(self)@, obj.heap_view()),
    {
        let index = match self.free_slots.pop() {
            Some(index) => {
                assert(self@.free_slots =~= old(self)@.free_slots.drop_last());
                index
            },
            None => {
                let ghost h = self@;
                self.objects.push(ObjHeader { obj: obj.into_object(), is_marked: false });
                assert(self@.objects =~= h.objects.push((false, obj.heap_view())));
                assert(self@.gray =~= h.gray);
                self.objects.len() - 1
            },
        };
        Reference::at(index)
    }

    /// The interned string `name`: the one interned before, or a new one.
    pub fn new_string(&mut self, name: String) -> (r: Reference<String>)
        requires
            old(self).wf(),
        ensures
            final(self).wf(),
            (exists|k: int| 0 <= k < old(self)@.strings.len() && old(self)@.strings[k].0 == name@) ==> {
                &&& final(self)@ == old(self)@
                &&& exists|k: int| 0 <= k < old(self)@.strings.len() && old(self)@.strings[k] == (name@, r@)
            },
            !(exists|k: int| 0 <= k < old(self)@.strings.len() && old(self)@.strings[k].0 == name@) ==> {
                &&& old(self)@.free_slots.len() > 0 ==> r@ == old(self)@.free_slots.last()
                    && final(self)@.objects == old(self)@.objects
                    && final(self)@.free_slots == old(self)@.free_slots.drop_last()
                &&& old(self)@.free_slots.len() == 0 ==> r@ == old(self)@.objects.len()
                    && final(self)@.objects == old(self)@.objects.push((false, ObjView::Str(name@)))
                    && final(self)@.free_slots == old(self)@.free_slots
                &&& final(self)@.gray == old(self)@.gray
                &&& final(self)@.strings == old(self)@.strings.push((name@, r@))
            },
            (final(self)@, r@) == intern_spec(old(self)@, name@),
    {
        let mut i: usize = 0;
        while i < self.strings.len()
            invariant
                self == old(self),
                self.wf(),
                i <= self.strings@.len(),
                forall|k: int| 0 <= k < i ==> self@.strings[k].0 != name@,
            decreases self.strings@.len() - i,
        {
            if self.strings[i].0 == name {
                let r = self.strings[i].1;
                assert(self@.strings[i as int] == (name@, r@));
                proof {
                    let k = choose|k: int| 0 <= k < self@.strings.len() && self@.strings[k].0 == name@;
                    if k != i {
                        if k < i {
                            assert(self@.strings[k].0 != self@.strings[i as int].0);
                        } else {
                            assert(self@.strings[i as int].0 != self@.strings[k].0);
                        }
                    }
                }
                return r;
            }
            i = i + 1;
        }
        let ghost h = self@;
        let reference = self.allocate(name.clone());
        let ghost h2 = self@;
        self.strings.push((name, reference));
        assert(self@.strings =~= h2.strings.push((name@, reference@)));
        reference
    }

    /// Whether `reference` refers to a slot that holds a value of its type.
    pub fn holds<T: Trace>(&self, reference: &Reference<T>) -> (b: bool)
        ensures
            b == (reference@ < self@.objects.len() && T::is_kind(self@.objects[reference@ as int].1)),
    {
        reference.index < self.objects.len() && T::from_object(&self.objects[reference.index].obj).is_some()
    }

    /// The number of slots.
    pub fn slots(&self) -> (n: usize)
        ensures
            n == self@.objects.len(),
    {
        self.objects.len()
    }

    /// The value in the slot `reference` refers to.
    pub fn deref<T: Trace>(&self, reference: &Reference<T>) -> (r: &T)
        requires
            reference@ < self@.objects.len(),
            T::is_kind(self@.objects[reference@ as int].1),
        ensures
            r.heap_view() == self@.objects[reference@ as int].1,
    {
        match T::from_object(&self.objects[reference.index].obj) {
            Some(r) => r,
            None => vstd::pervasive::unreached(),
        }
    }

    /// Frees the slot `index`: it holds nothing, unmarked, and is listed for reuse.
    fn free(&mut self, index: usize)
        requires
            heap_base(old(self)@),
            index < old(self)@.objects.len(),
        ensures
            heap_base(final(self)@),
            final(self)@ == (HeapView {
                objects: old(self)@.objects.update(index as int, (false, ObjView::Empty)),
                free_slots: old(self)@.free_slots.push(index),
                ..old(self)@
            }),
    {
        let ghost h = self@;
        self.objects.set(index, ObjHeader::empty());
        self.free_slots.push(index);
        assert(self@.objects =~= h.objects.update(index as int, (false, ObjView::Empty)));
        assert(self@.strings =~= h.strings);
        assert(self@.free_slots =~= h.free_slots.push(index));
    }

    /// Marks the slot of `v` and lists it to be traced, unless it is marked.
    pub fn mark_object<T>(&mut self, v: Reference<T>)
        requires
            old(self).wf(),
            v@ < old(self)@.objects.len(),
        ensures
            final(self).wf(),
            final(self)@ == mark_spec(old(self)@, v@),
    {
        proof {
            lemma_mark(self@, v@);
        }
        self.mark_slot(v.index);
    }

    fn mark_slot(&mut self, i: usize)
        requires
            heap_base(old(self)@),
            gray_ok(old(self)@),
            i < old(self)@.objects.len(),
        ensures
            final(self)@ == mark_spec(old(self)@, i),
    {
        if self.objects[i].is_marked {
            return;
        }
        let ghost h = self@;
        self.objects[i].is_marked = true;
        self.gray_stack.push(i);
        assert(self@.objects =~= h.objects.update(i as int, (true, h.objects[i as int].1)));
        assert(self@.gray =~= h.gray.push(i));
        assert(self@.strings =~= h.strings);
    }

    /// Marks the objects a value refers to.
    pub fn mark_value(&mut self, v: Value)
        requires
            old(self).wf(),
            v matches Value::String(r) ==> r@ < old(self)@.objects.len(),
            v matches Value::Function(r) ==> r@ < old(self)@.objects.len(),
            v matches Value::Closure(r) ==> r@ < old(self)@.objects.len(),
        ensures
            final(self).wf(),
            match v {
                Value::String(r) => final(self)@ == mark_spec(old(self)@, r@),
                Value::Function(r) => final(self)@ == mark_spec(old(self)@, r@),
                Value::Closure(r) => final(self)@ == mark_spec(old(self)@, r@),
                _ => final(self)@ == old(self)@,
            },
    {
        match v {
            Value::String(id) => self.mark_object(id),
            Value::Closure(id) => self.mark_object(id),
            Value::Function(id) => self.mark_object(id),
            _ => {},
        }
    }

    /// Collects garbage: traces from the marked slots, then frees every slot
    /// that is not marked and unmarks the rest.
    pub fn collect_garbage(&mut self)
        requires
            old(self).wf(),
        ensures
            final(self).wf(),
            collected(old(self)@, final(self)@),
    {
        let ghost h0 = self@;
        self.trace_references();
        let ghost h1 = self@;
        self.sweep();
        proof {
            let keep = Set::new(|i: int| 0 <= i < h1.objects.len() && h1.objects[i].0);
            lemma_collected(h0, h1, self@);
            assert(collected_with(h0, self@, keep));
        }
    }

    /// Traces every listed slot until none is left.
    fn trace_references(&mut self)
        requires
            old(self).wf(),
        ensures
            final(self).wf(),
            traced(old(self)@, final(self)@),
    {
        let ghost h0 = self@;
        loop
            invariant
                self.wf(),
                h0 == old(self)@,
                traced_partly(h0, self@),
            decreases count_unmarked(self@.objects), self@.gray.len(),
        {
            let ghost before = self@;
            match self.gray_stack.pop() {
                Some(index) => {
                    proof {
                        assert(self@.gray =~= before.gray.drop_last());
                        assert(self@.strings =~= before.strings);
                        assert(self@.objects =~= before.objects);
                        lemma_blacken(before);
                        let cs = children(before.objects[index as int].1);
                        if cs.len() == 1 {
                            lemma_mark_base(self@, cs[0]);
                        }
                    }
                    self.blacken_object(index);
                    proof {
                        lemma_traced_step(h0, before, self@);
                    }
                },
                None => {
                    assert(self@.gray.len() == 0);
                    return;
                },
            }
        }
    }

    /// Marks the children of slot `i`, which was taken off the list.
    fn blacken_object(&mut self, i: usize)
        requires
            heap_base(old(self)@),
            gray_ok(old(self)@),
            i < old(self)@.objects.len(),
            forall|k: int| 0 <= k < children(old(self)@.objects[i as int].1).len() ==> children(old(self)@.objects[i as int].1)[k] < old(self)@.objects.len(),
        ensures
            children(old(self)@.objects[i as int].1).len() == 0 ==> final(self)@ == old(self)@,
            children(old(self)@.objects[i as int].1).len() == 1 ==> final(self)@ == mark_spec(old(self)@, children(old(self)@.objects[i as int].1)[0]),
    {
        assert(self@.objects[i as int] == (self.objects@[i as int].is_marked, self.objects@[i as int].obj@));
        let child: Option<usize> = match &self.objects[i].obj {
            Object::Function(f) => Some(f.name.index()),
            Object::Closure(c) => Some(c.func_id.index()),
            _ => None,
        };
        assert(child matches Some(c) ==> children(old(self)@.objects[i as int].1) =~= seq![c]);
        assert(child matches Some(c) ==> children(old(self)@.objects[i as int].1)[0] == c);
        assert(child is None ==> children(old(self)@.objects[i as int].1).len() == 0);
        match child {
            Some(c) => {
                self.mark_slot(c);
            },
            None => {},
        }
    }

    /// Unmarks each marked slot and frees each other one.
    fn sweep(&mut self)
        requires
            old(self).wf(),
            old(self)@.gray.len() == 0,
        ensures
            final(self).wf(),
            swept(old(self)@, final(self)@),
    {
        let ghost h0 = self@;
        let n = self.objects.len();
        let mut i: usize = 0;
        while i < n
            invariant
                heap_base(self@),
                h0 == old(self)@,
                n == self@.objects.len(),
                n == h0.objects.len(),
                i <= n,
                self@.gray.len() == 0,
                self@.strings == h0.strings,
                forall|j: int| 0 <= j < i ==> self@.objects[j] == if h0.objects[j].0 { (false, h0.objects[j].1) } else { (false, ObjView::Empty) },
                forall|j: int| i <= j < n ==> self@.objects[j] == h0.objects[j],
                self@.free_slots == h0.free_slots + unmarked_before(h0.objects, i as int),
            decreases n - i,
        {
            if self.objects[i].is_marked {
                let ghost h = self@;
                self.objects[i].is_marked = false;
                assert(self@.objects =~= h.objects.update(i as int, (false, h.objects[i as int].1)));
                assert(self@.gray =~= h.gray);
                assert(self@.strings =~= h.strings);
            } else {
                self.free(i);
            }
            i = i + 1;
            assert(unmarked_before(h0.objects, i as int) =~= unmarked_before(h0.objects, i - 1) + if h0.objects[i - 1].0 {
                Seq::<usize>::empty()
            } else {
                seq![(i - 1) as usize]
            });
        }
        proof {
            assert(self@.objects.len() == h0.objects.len());
            assert(self@.gray =~= h0.gray);
            assert(gray_ok(self@));
            assert(tricolor(self@));
        }
    }
}

/// The slots before `i` that are not marked, in order.
pub open spec fn unmarked_before(objs: Seq<(bool, ObjView)>, i: int) -> Seq<usize>
    decreases i,
{
    if i <= 0 {
        Seq::empty()
    } else {
        unmarked_before(objs, i - 1) + if objs[i - 1].0 {
            Seq::<usize>::empty()
        } else {
            seq![(i - 1) as usize]
        }
    }
}

/// How many slots are not marked.
pub open spec fn count_unmarked(objs: Seq<(bool, ObjView)>) -> nat
    decreases objs.len(),
{
    if objs.len() == 0 {
        0
    } else {
        count_unmarked(objs.drop_last()) + if objs.last().0 {
            0nat
        } else {
            1nat
        }
    }
}

/// Tracing so far from `h0` gave `h`: the objects stay, marks are only added,
/// each slot marked since `h0` is a child of a marked slot, and the strings and
/// freed slots stay.
pub open spec fn traced_partly(h0: HeapView, h: HeapView) -> bool {
    &&& h.objects.len() == h0.objects.len()
    &&& forall|i: int| 0 <= i < h.objects.len() ==> #[trigger] h.objects[i].1 == h0.objects[i].1
    &&& forall|i: int| 0 <= i < h.objects.len() && h0.objects[i].0 ==> #[trigger] h.objects[i].0
    &&& forall|i: int| 0 <= i < h.objects.len() && #[trigger] h.objects[i].0 && !h0.objects[i].0 ==> exists|j: int| 0 <= j < h.objects.len() && h.objects[j].0 && children(h.objects[j].1).contains(i as usize)
    &&& h.free_slots == h0.free_slots
    &&& h.strings == h0.strings
}

/// Tracing from `h0` is done in `h`: as far as `traced_partly`, with nothing
/// left to trace, so that the marked slots are closed under children.
pub open spec fn traced(h0: HeapView, h: HeapView) -> bool {
    &&& traced_partly(h0, h)
    &&& h.gray.len() == 0
}

/// Sweeping `h0` gave `h`: marked slots keep their objects, unmarked, the
/// other slots are freed and listed in order after the slots freed before.
pub open spec fn swept(h0: HeapView, h: HeapView) -> bool {
    &&& h.objects.len() == h0.objects.len()
    &&& forall|j: int| 0 <= j < h.objects.len() ==> #[trigger] h.objects[j] == if h0.objects[j].0 {
        (false, h0.objects[j].1)
    } else {
        (false, ObjView::Empty)
    }
    &&& h.free_slots == h0.free_slots + unmarked_before(h0.objects, h0.objects.len() as int)
    &&& h.gray == h0.gray
    &&& h.strings == h0.strings
}

/// A collection from `h0` to `h` kept exactly the slots of `keep`: they hold
/// marked slots of `h0` and the children of the slots they hold, and each of
/// them is marked in `h0` or a child of another; they keep their objects,
/// unmarked, and every other slot is freed.
pub open spec fn collected_with(h0: HeapView, h: HeapView, keep: Set<int>) -> bool {
    let n = h0.objects.len();
    &&& h.objects.len() == n
    &&& forall|i: int| 0 <= i < n && h0.objects[i].0 ==> keep.contains(i)
    &&& forall|i: int, k: int| keep.contains(i) && 0 <= k < children(h0.objects[i].1).len() ==> keep.contains(#[trigger] children(h0.objects[i].1)[k] as int)
    &&& forall|i: int| #[trigger] keep.contains(i) ==> 0 <= i < n && (h0.objects[i].0 || exists|j: int| keep.contains(j) && children(h0.objects[j].1).contains(i as usize))
    &&& forall|i: int| 0 <= i < n ==> #[trigger] h.objects[i] == if keep.contains(i) { (false, h0.objects[i].1) } else { (false, ObjView::Empty) }
    &&& h.free_slots == h0.free_slots + dropped_before(keep, n as int)
    &&& h.gray.len() == 0
    &&& h.strings == h0.strings
}

/// The slots before `i` that are not in `keep`, in order.
pub open spec fn dropped_before(keep: Set<int>, i: int) -> Seq<usize>
    decreases i,
{
    if i <= 0 {
        Seq::empty()
    } else {
        dropped_before(keep, i - 1) + if keep.contains(i - 1) {
            Seq::<usize>::empty()
        } else {
            seq![(i - 1) as usize]
        }
    }
}

proof fn lemma_dropped_unmarked(objs: Seq<(bool, ObjView)>, keep: Set<int>, i: int)
    requires
        0 <= i <= objs.len(),
        forall|j: int| 0 <= j < objs.len() ==> (keep.contains(j) <==> #[trigger] objs[j].0),
    ensures
        unmarked_before(objs, i) == dropped_before(keep, i),
    decreases i,
{
    if i > 0 {
        lemma_dropped_unmarked(objs, keep, i - 1);
    }
}

/// What a collection does: it keeps some set of slots as `collected_with` says.
pub open spec fn collected(h0: HeapView, h: HeapView) -> bool {
    exists|keep: Set<int>| collected_with(h0, h, keep)
}

/// Marking a slot keeps the invariant, and takes one slot off the unmarked
/// ones where it was not marked.
pub proof fn lemma_mark(h: HeapView, i: usize)
    requires
        heap_wf(h),
        i < h.objects.len(),
    ensures
        heap_wf(mark_spec(h, i)),
        !h.objects[i as int].0 ==> count_unmarked(mark_spec(h, i).objects) + 1 == count_unmarked(h.objects),
        h.objects[i as int].0 ==> mark_spec(h, i) == h,
{
    lemma_mark_base(h, i);
    if !h.objects[i as int].0 {
        let m = mark_spec(h, i);
        assert forall|j: int, k: int|
            0 <= j < m.objects.len() && m.objects[j].0 && !m.gray.contains(j as usize) && 0 <= k < children(m.objects[j].1).len()
            implies m.objects[#[trigger] children(m.objects[j].1)[k] as int].0 by {
            assert(m.gray[h.gray.len() as int] == i);
            assert(j != i);
            assert(h.objects[j].0);
            if h.gray.contains(j as usize) {
                let l = choose|l: int| 0 <= l < h.gray.len() && h.gray[l] == j as usize;
                assert(m.gray[l] == j as usize);
            }
        }
    }
}

/// Marking keeps the shape of the heap and the list of slots to trace right,
/// and takes one slot off the unmarked ones where it was not marked.
pub proof fn lemma_mark_base(h: HeapView, i: usize)
    requires
        heap_base(h),
        gray_ok(h),
        i < h.objects.len(),
    ensures
        heap_base(mark_spec(h, i)),
        gray_ok(mark_spec(h, i)),
        !h.objects[i as int].0 ==> count_unmarked(mark_spec(h, i).objects) + 1 == count_unmarked(h.objects),
{
    if !h.objects[i as int].0 {
        let m = mark_spec(h, i);
        assert forall|k: int| 0 <= k < h.gray.len() implies h.gray[k] != i by {
        }
        lemma_count_mark(h.objects, i as int);
    }
}

proof fn lemma_count_mark(s: Seq<(bool, ObjView)>, i: int)
    requires
        0 <= i < s.len(),
        !s[i].0,
    ensures
        count_unmarked(s.update(i, (true, s[i].1))) + 1 == count_unmarked(s),
    decreases s.len(),
{
    let u = s.update(i, (true, s[i].1));
    if i == s.len() - 1 {
        assert(u.drop_last() =~= s.drop_last());
    } else {
        lemma_count_mark(s.drop_last(), i);
        assert(u.drop_last() =~= s.drop_last().update(i, (true, s[i].1)));
    }
}

/// One step of tracing keeps what tracing so far promises.
proof fn lemma_traced_step(h0: HeapView, before: HeapView, after: HeapView)
    requires
        traced_partly(h0, before),
        heap_wf(before),
        before.gray.len() > 0,
        ({
            let index = before.gray.last();
            let h1 = HeapView { gray: before.gray.drop_last(), ..before };
            let cs = children(before.objects[index as int].1);
            &&& cs.len() == 0 ==> after == h1
            &&& cs.len() == 1 ==> after == mark_spec(h1, cs[0])
            &&& cs.len() <= 1
        }),
    ensures
        traced_partly(h0, after),
{
    let index = before.gray.last();
    let g = before.gray.len() - 1;
    let h1 = HeapView { gray: before.gray.drop_last(), ..before };
    let cs = children(before.objects[index as int].1);
    assert(before.gray[g] == index);
    assert(before.objects[index as int].0);
    if cs.len() == 1 {
        let c = cs[0];
        assert forall|i: int| 0 <= i < after.objects.len() && #[trigger] after.objects[i].0 && !h0.objects[i].0 implies
            exists|j: int| 0 <= j < after.objects.len() && after.objects[j].0 && children(after.objects[j].1).contains(i as usize) by {
            if i == c as int && !before.objects[i].0 {
                assert(children(after.objects[index as int].1)[0] == c);
                assert(after.objects[index as int].0);
            } else {
                assert(before.objects[i].0);
                let j = choose|j: int| 0 <= j < before.objects.len() && before.objects[j].0 && children(before.objects[j].1).contains(i as usize);
                assert(after.objects[j].0);
                assert(after.objects[j].1 == before.objects[j].1);
            }
        }
    }
}

/// Tracing and then sweeping keeps exactly the slots marked after tracing.
proof fn lemma_collected(h0: HeapView, h1: HeapView, h2: HeapView)
    requires
        heap_wf(h1),
        traced(h0, h1),
        swept(h1, h2),
    ensures
        collected_with(h0, h2, Set::new(|i: int| 0 <= i < h1.objects.len() && h1.objects[i].0)),
{
    let keep = Set::new(|i: int| 0 <= i < h1.objects.len() && h1.objects[i].0);
    let n = h0.objects.len();
    lemma_dropped_unmarked(h1.objects, keep, n as int);
    assert forall|i: int, k: int| keep.contains(i) && 0 <= k < children(h0.objects[i].1).len() implies keep.contains(
        #[trigger] children(h0.objects[i].1)[k] as int,
    ) by {
        assert(h1.objects[i].1 == h0.objects[i].1);
        assert(!h1.gray.contains(i as usize));
        let c = children(h1.objects[i].1)[k];
        assert(h1.objects[c as int].0);
        assert(c < i);
    }
    assert forall|i: int| #[trigger] keep.contains(i) implies 0 <= i < n && (h0.objects[i].0 || exists|j: int|
        keep.contains(j) && children(h0.objects[j].1).contains(i as usize)) by {
        if !h0.objects[i].0 {
            let j = choose|j: int| 0 <= j < h1.objects.len() && h1.objects[j].0 && children(h1.objects[j].1).contains(i as usize);
            assert(keep.contains(j));
            assert(h1.objects[j].1 == h0.objects[j].1);
        }
    }
    assert forall|i: int| 0 <= i < n implies #[trigger] h2.objects[i] == if keep.contains(i) {
        (false, h0.objects[i].1)
    } else {
        (false, ObjView::Empty)
    } by {
        assert(h1.objects[i].1 == h0.objects[i].1);
    }
}

/// Taking the last slot to trace off the list and marking its children keeps
/// the invariant.
proof fn lemma_blacken(before: HeapView)
    requires
        heap_wf(before),
        before.gray.len() > 0,
    ensures
        ({
            let index = before.gray.last();
            let h1 = HeapView { gray: before.gray.drop_last(), ..before };
            let cs = children(before.objects[index as int].1);
            &&& heap_base(h1)
            &&& gray_ok(h1)
            &&& index < h1.objects.len()
            &&& forall|k: int| 0 <= k < cs.len() ==> cs[k] < h1.objects.len()
            &&& cs.len() <= 1
            &&& cs.len() == 0 ==> heap_wf(h1)
            &&& cs.len() == 1 ==> heap_wf(mark_spec(h1, cs[0]))
        }),
{
    let index = before.gray.last();
    let g = before.gray.len() - 1;
    let h1 = HeapView { gray: before.gray.drop_last(), ..before };
    let cs = children(before.objects[index as int].1);
    assert(before.gray[g] == index);
    assert forall|k: int| 0 <= k < h1.gray.len() implies h1.gray[k] != index by {
        assert(before.gray[k] != before.gray[g]);
    }
    assert forall|j: int| 0 <= j < h1.objects.len() && j != index && #[trigger] h1.gray.contains(j as usize) == false implies
        !before.gray.contains(j as usize) by {
        if before.gray.contains(j as usize) {
            let l = choose|l: int| 0 <= l < before.gray.len() && before.gray[l] == j as usize;
            assert(j as usize != index);
            assert(l != g);
            assert(h1.gray[l] == j as usize);
        }
    }
    if cs.len() == 0 {
        assert(tricolor(h1));
    } else {
        let c = cs[0];
        lemma_mark_base(h1, c);
        let m = mark_spec(h1, c);
        assert forall|j: int, k: int|
            0 <= j < m.objects.len() && m.objects[j].0 && !m.gray.contains(j as usize) && 0 <= k < children(m.objects[j].1).len()
            implies m.objects[#[trigger] children(m.objects[j].1)[k] as int].0 by {
            if j == index {
                assert(k == 0);
            } else if !h1.objects[c as int].0 {
                assert(m.gray[h1.gray.len() as int] == c);
                if j != c {
                    if h1.gray.contains(j as usize) {
                        let l = choose|l: int| 0 <= l < h1.gray.len() && h1.gray[l] == j as usize;
                        assert(m.gray[l] == j as usize);
                    }
                    assert(!before.gray.contains(j as usize));
                }
            } else {
                assert(!before.gray.contains(j as usize));
            }
        }
    }
}

/// Slot `i` is reached from slot `j` by following children (in zero or more
/// steps). Children sit in earlier slots, so the walk goes down.
pub open spec fn descends(h: HeapView, j: int, i: int) -> bool
    decreases j,
{
    if j == i {
        true
    } else if 0 <= j < h.objects.len() && children(h.objects[j].1).len() > 0 && children(h.objects[j].1)[0] < j {
        descends(h, children(h.objects[j].1)[0] as int, i)
    } else {
        false
    }
}

/// Slot `i` is reached from a marked slot.
pub open spec fn reachable(h: HeapView, i: int) -> bool {
    exists|j: int| 0 <= j < h.objects.len() && h.objects[j].0 && #[trigger] descends(h, j, i)
}

/// What a kept slot descends to is kept.
proof fn lemma_kept_descends(h0: HeapView, h: HeapView, keep: Set<int>, j: int, i: int)
    requires
        heap_base(h0),
        collected_with(h0, h, keep),
        keep.contains(j),
        descends(h0, j, i),
    ensures
        keep.contains(i),
    decreases j,
{
    if j != i {
        let c = children(h0.objects[j].1)[0];
        assert(keep.contains(c as int));
        lemma_kept_descends(h0, h, keep, c as int, i);
    }
}

/// A walk to slot `j` goes on to the child of `j`.
proof fn lemma_descends_child(h: HeapView, r: int, j: int)
    requires
        heap_base(h),
        0 <= j < h.objects.len(),
        children(h.objects[j].1).len() > 0,
        descends(h, r, j),
    ensures
        descends(h, r, children(h.objects[j].1)[0] as int),
    decreases r,
{
    let c = children(h.objects[j].1)[0];
    assert(c < j);
    if r != j {
        lemma_descends_child(h, children(h.objects[r].1)[0] as int, j);
    } else {
        assert(descends(h, c as int, c as int));
    }
}

/// A kept slot is reached from a marked slot.
proof fn lemma_kept_reachable(h0: HeapView, h: HeapView, keep: Set<int>, i: int)
    requires
        heap_base(h0),
        collected_with(h0, h, keep),
        keep.contains(i),
    ensures
        reachable(h0, i),
    decreases h0.objects.len() - i,
{
    if h0.objects[i].0 {
        assert(descends(h0, i, i));
    } else {
        let j = choose|j: int| keep.contains(j) && children(h0.objects[j].1).contains(i as usize);
        let k = choose|k: int| 0 <= k < children(h0.objects[j].1).len() && children(h0.objects[j].1)[k] == i as usize;
        assert(0 <= j < h0.objects.len());
        assert(children(h0.objects[j].1)[k] < j);
        assert(k == 0);
        lemma_kept_reachable(h0, h, keep, j);
        let r = choose|r: int| 0 <= r < h0.objects.len() && h0.objects[r].0 && #[trigger] descends(h0, r, j);
        lemma_descends_child(h0, r, j);
        assert(descends(h0, r, i));
    }
}

/// A collection keeps exactly the slots reached from the marked ones, with
/// their objects, unmarked, and frees every other slot.
pub proof fn lemma_collect_keeps_reachable(h0: HeapView, h: HeapView)
    requires
        heap_base(h0),
        collected(h0, h),
    ensures
        h.objects.len() == h0.objects.len(),
        forall|i: int|
            0 <= i < h0.objects.len() ==> #[trigger] h.objects[i] == if reachable(h0, i) {
                (false, h0.objects[i].1)
            } else {
                (false, ObjView::Empty)
            },
{
    let keep = choose|keep: Set<int>| collected_with(h0, h, keep);
    assert forall|i: int| 0 <= i < h0.objects.len() implies #[trigger] h.objects[i] == if reachable(h0, i) {
        (false, h0.objects[i].1)
    } else {
        (false, ObjView::Empty)
    } by {
        if keep.contains(i) {
            lemma_kept_reachable(h0, h, keep, i);
        }
        if reachable(h0, i) {
            let r = choose|r: int| 0 <= r < h0.objects.len() && h0.objects[r].0 && #[trigger] descends(h0, r, i);
            lemma_kept_descends(h0, h, keep, r, i);
        }
    }
}

/// A collection from a given heap has one outcome.
pub proof fn lemma_collect_determined(h0: HeapView, h1: HeapView, h2: HeapView)
    requires
        heap_base(h0),
        collected(h0, h1),
        collected(h0, h2),
    ensures
        h1 == h2,
{
    let k1 = choose|keep: Set<int>| collected_with(h0, h1, keep);
    let k2 = choose|keep: Set<int>| collected_with(h0, h2, keep);
    assert forall|i: int| k1.contains(i) <==> k2.contains(i) by {
        if k1.contains(i) {
            lemma_kept_reachable(h0, h1, k1, i);
            let r = choose|r: int| 0 <= r < h0.objects.len() && h0.objects[r].0 && #[trigger] descends(h0, r, i);
            lemma_kept_descends(h0, h2, k2, r, i);
        }
        if k2.contains(i) {
            lemma_kept_reachable(h0, h2, k2, i);
            let r = choose|r: int| 0 <= r < h0.objects.len() && h0.objects[r].0 && #[trigger] descends(h0, r, i);
            lemma_kept_descends(h0, h1, k1, r, i);
        }
    }
    assert(k1 =~= k2);
    assert(h1.objects =~= h2.objects);
    assert(h1.gray =~= h2.gray);
}

/// Marking a slot twice is marking it once; a collection after it keeps the
/// slot and every slot reached from it, with their objects.
pub proof fn lemma_mark_twice(h: HeapView, i: usize, h2: HeapView)
    requires
        heap_wf(h),
        i < h.objects.len(),
        collected(mark_spec(h, i), h2),
    ensures
        mark_spec(mark_spec(h, i), i) == mark_spec(h, i),
        forall|j: int| #[trigger] descends(h, i as int, j) && 0 <= j < h.objects.len() ==> h2.objects[j] == (false, h.objects[j].1),
{
    let m = mark_spec(h, i);
    lemma_mark(h, i);
    assert(m.objects[i as int].0);
    assert forall|j: int| #[trigger] descends(h, i as int, j) && 0 <= j < h.objects.len() implies h2.objects[j] == (false, h.objects[j].1) by {
        lemma_descends_same(h, m, i as int, j);
        lemma_collect_keeps_reachable(m, h2);
        assert(descends(m, i as int, j));
        assert(reachable(m, j));
    }
}

/// Walks depend only on the objects, not on the marks.
proof fn lemma_descends_same(h: HeapView, m: HeapView, j: int, i: int)
    requires
        h.objects.len() == m.objects.len(),
        forall|k: int| 0 <= k < h.objects.len() ==> #[trigger] m.objects[k].1 == h.objects[k].1,
        descends(h, j, i),
    ensures
        descends(m, j, i),
    decreases j,
{
    if j != i {
        lemma_descends_same(h, m, children(h.objects[j].1)[0] as int, i);
    }
}

} // verus!
