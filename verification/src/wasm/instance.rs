//! A module instantiated: its functions resolved and its exports named.
use vstd::prelude::*;
use std::collections::HashMap;

use super::exports::ExportDesc;
use super::func::Local;
use super::leb128::views;
use super::module::{first_section, Module};
use super::ops::Instruction;
use super::section::{names_view, SectionView};
use super::types::{FuncType, ValueType};
use super::exports::Export;

verus! {

broadcast use vstd::std_specs::hash::group_hash_axioms;

/// What a function instance holds.
pub ghost struct FunctionView {
    pub name: Seq<char>,
    pub params: Seq<ValueType>,
    pub result: Option<ValueType>,
    pub body: Seq<Instruction>,
    pub locals: Seq<(u32, ValueType)>,
}

/// The parameters of a function type and its first result, if any.
pub struct Signature {
    params: Vec<ValueType>,
    result: Option<ValueType>,
}

impl View for Signature {
    type V = (Seq<ValueType>, Option<ValueType>);

    closed spec fn view(&self) -> (Seq<ValueType>, Option<ValueType>) {
        (self.params@, self.result)
    }
}

/// The first of some value types, if any.
pub open spec fn first_type(s: Seq<ValueType>) -> Option<ValueType> {
    if s.len() > 0 {
        Some(s[0])
    } else {
        None
    }
}

impl Signature {
    /// The signature of a function type.
    pub fn from_func_type(ft: &FuncType) -> (r: Signature)
        ensures
            r@ == (ft@.0, first_type(ft@.1)),
    {
        let ps = ft.params();
        let mut params: Vec<ValueType> = Vec::new();
        let mut i: usize = 0;
        while i < ps.len()
            invariant
                i <= ps@.len(),
                params@ == ps@.take(i as int),
            decreases ps@.len() - i,
        {
            params.push(ps[i]);
            i = i + 1;
            assert(params@ =~= ps@.take(i as int));
        }
        assert(params@ =~= ps@);
        let rs = ft.results();
        let result = if rs.len() > 0 {
            Some(rs[0])
        } else {
            None
        };
        Signature { params, result }
    }
}

/// A resolved function.
pub struct FunctionInstance {
    name: String,
    signature: Signature,
    body: Vec<Instruction>,
    locals: Vec<Local>,
}

/// A handle on a function instance.
pub struct FunctionInstanceRef(FunctionInstance);

impl View for FunctionInstanceRef {
    type V = FunctionView;

    closed spec fn view(&self) -> FunctionView {
        FunctionView {
            name: self.0.name@,
            params: self.0.signature@.0,
            result: self.0.signature@.1,
            body: self.0.body@,
            locals: views(self.0.locals@),
        }
    }
}

impl FunctionInstanceRef {
    fn build(instance: FunctionInstance) -> (r: Self)
        ensures
            r.0 == instance,
    {
        FunctionInstanceRef(instance)
    }

    /// The name of the function.
    pub fn name(&self) -> (r: &str)
        ensures
            r@ == self@.name,
    {
        self.0.name.as_str()
    }

    /// The locals, in runs of one type.
    pub fn locals(&self) -> (r: &[Local])
        ensures
            views(r@) == self@.locals,
    {
        self.0.locals.as_slice()
    }

    /// The instructions.
    pub fn body(&self) -> (r: &[Instruction])
        ensures
            r@ == self@.body,
    {
        self.0.body.as_slice()
    }

    /// Another handle on the same function.
    pub fn duplicate(&self) -> (r: Self)
        ensures
            r@ == self@,
    {
        let name = self.0.name.clone();
        let mut params: Vec<ValueType> = Vec::new();
        let mut i: usize = 0;
        while i < self.0.signature.params.len()
            invariant
                i <= self.0.signature.params@.len(),
                params@ == self.0.signature.params@.take(i as int),
            decreases self.0.signature.params@.len() - i,
        {
            params.push(self.0.signature.params[i]);
            i = i + 1;
            assert(params@ =~= self.0.signature.params@.take(i as int));
        }
        assert(params@ =~= self.0.signature.params@);
        let body = copy_instructions(self.0.body.as_slice());
        let locals = copy_locals(self.0.locals.as_slice());
        FunctionInstanceRef(
            FunctionInstance {
                name,
                signature: Signature { params, result: self.0.signature.result },
                body,
                locals,
            },
        )
    }
}

fn copy_instructions(s: &[Instruction]) -> (r: Vec<Instruction>)
    ensures
        r@ == s@,
{
    let mut v: Vec<Instruction> = Vec::new();
    let mut i: usize = 0;
    while i < s.len()
        invariant
            i <= s@.len(),
            v@ == s@.take(i as int),
        decreases s@.len() - i,
    {
        v.push(s[i]);
        i = i + 1;
        assert(v@ =~= s@.take(i as int));
    }
    assert(v@ =~= s@);
    v
}

fn copy_locals(s: &[Local]) -> (r: Vec<Local>)
    ensures
        r@ == s@,
{
    let mut v: Vec<Local> = Vec::new();
    let mut i: usize = 0;
    while i < s.len()
        invariant
            i <= s@.len(),
            v@ == s@.take(i as int),
        decreases s@.len() - i,
    {
        v.push(s[i]);
        i = i + 1;
        assert(v@ =~= s@.take(i as int));
    }
    assert(v@ =~= s@);
    v
}

/// What an export of an instance stands for.
pub ghost enum ExternalView {
    Func(FunctionView),
    Table,
    Memory,
    Global,
}

/// What an export of an instance stands for.
pub enum External {
    Func(FunctionInstanceRef),
    Table,
    Memory,
    Global,
}

impl View for External {
    type V = ExternalView;

    open spec fn view(&self) -> ExternalView {
        match self {
            External::Func(f) => ExternalView::Func(f@),
            External::Table => ExternalView::Table,
            External::Memory => ExternalView::Memory,
            External::Global => ExternalView::Global,
        }
    }
}

/// The export under `name` where several were inserted one after another: the
/// last one inserted under it.
pub open spec fn lookup_export(s: Seq<(Seq<char>, ExternalView)>, name: Seq<char>) -> Option<ExternalView>
    decreases s.len(),
{
    if s.len() == 0 {
        None
    } else if s.last().0 == name {
        Some(s.last().1)
    } else {
        lookup_export(s.drop_last(), name)
    }
}

/// The functions and exports of an instantiated module.
pub struct ModuleInstance {
    funcs: Vec<FunctionInstanceRef>,
    exports: Vec<(String, External)>,
}

/// The view of the exports, in the order they were inserted.
pub open spec fn exports_view(s: Seq<(String, External)>) -> Seq<(Seq<char>, ExternalView)> {
    s.map_values(|e: (String, External)| (e.0@, e.1@))
}

impl Default for ModuleInstance {
    /// An instance with no functions and no exports.
    fn default() -> (r: Self)
        ensures
            r.spec_funcs() == Seq::<FunctionView>::empty(),
            r.spec_exports() == Seq::<(Seq<char>, ExternalView)>::empty(),
    {
        ModuleInstance::new()
    }
}

impl ModuleInstance {
    /// The functions of the instance.
    pub closed spec fn spec_funcs(&self) -> Seq<FunctionView> {
        views(self.funcs@)
    }

    /// The exports of the instance, in the order they were added.
    pub closed spec fn spec_exports(&self) -> Seq<(Seq<char>, ExternalView)> {
        exports_view(self.exports@)
    }

    /// An instance with no functions and no exports.
    pub fn new() -> (r: Self)
        ensures
            r.spec_funcs() == Seq::<FunctionView>::empty(),
            r.spec_exports() == Seq::<(Seq<char>, ExternalView)>::empty(),
    {
        let r = ModuleInstance { funcs: Vec::new(), exports: Vec::new() };
        assert(views(r.funcs@) =~= Seq::<FunctionView>::empty());
        assert(exports_view(r.exports@) =~= Seq::<(Seq<char>, ExternalView)>::empty());
        r
    }

    /// The function exported under `name`.
    pub fn func_by_name(&self, name: &str) -> (r: Option<FunctionInstanceRef>)
        ensures
            match lookup_export(self.spec_exports(), name@) {
                Some(ExternalView::Func(f)) => r matches Some(x) && x@ == f,
                _ => r is None,
            },
    {
        let key = name.to_owned();
        let mut i: usize = self.exports.len();
        assert(self.spec_exports().take(i as int) =~= self.spec_exports());
        while i > 0
            invariant
                i <= self.exports@.len(),
                key@ == name@,
                lookup_export(self.spec_exports(), name@) == lookup_export(self.spec_exports().take(i as int), name@),
            decreases i,
        {
            proof {
                assert(self.spec_exports().take(i as int).drop_last() =~= self.spec_exports().take(i - 1));
            }
            if self.exports[i - 1].0 == key {
                return match &self.exports[i - 1].1 {
                    External::Func(f) => Some(f.duplicate()),
                    _ => None,
                };
            }
            i = i - 1;
        }
        None
    }

    /// The function at `idx`.
    pub fn func_by_index(&self, idx: u32) -> (r: Option<FunctionInstanceRef>)
        ensures
            idx < self.spec_funcs().len() ==> (r matches Some(x) && x@ == self.spec_funcs()[idx as int]),
            idx >= self.spec_funcs().len() ==> r is None,
    {
        if (idx as usize) < self.funcs.len() {
            Some(self.funcs[idx as usize].duplicate())
        } else {
            None
        }
    }

    /// Adds a function at the end.
    pub fn push_func(&mut self, func: FunctionInstanceRef)
        ensures
            final(self).spec_funcs() == old(self).spec_funcs().push(func@),
            final(self).spec_exports() == old(self).spec_exports(),
    {
        let ghost f = func@;
        self.funcs.push(func);
        assert(views(self.funcs@) =~= views(old(self).funcs@).push(f));
    }

    /// Adds an export; a later export of the same name hides an earlier one.
    pub fn insert_export(&mut self, name: String, external: External)
        ensures
            final(self).spec_funcs() == old(self).spec_funcs(),
            final(self).spec_exports() == old(self).spec_exports().push((name@, external@)),
    {
        let ghost e = (name@, external@);
        self.exports.push((name, external));
        assert(exports_view(self.exports@) =~= exports_view(old(self).exports@).push(e));
    }
}

/// Looking a name up after an export was added finds that export when the
/// names agree, and what it found before otherwise.
pub proof fn lemma_lookup_after_insert(s: Seq<(Seq<char>, ExternalView)>, e: (Seq<char>, ExternalView), name: Seq<char>)
    ensures
        lookup_export(s.push(e), name) == if e.0 == name {
            Some(e.1)
        } else {
            lookup_export(s, name)
        },
{
    assert(s.push(e).drop_last() =~= s);
}


/// The type indices of the first function section, or none.
pub open spec fn module_funcs(m: Seq<SectionView>) -> Seq<u32> {
    match first_section(m, |v: SectionView| v is Function) {
        Some(i) => match m[i] {
            SectionView::Function(f) => f,
            _ => Seq::empty(),
        },
        None => Seq::empty(),
    }
}

/// The bodies of the first code section, or none.
pub open spec fn module_codes(m: Seq<SectionView>) -> Seq<(Seq<(u32, ValueType)>, Seq<Instruction>)> {
    match first_section(m, |v: SectionView| v is Code) {
        Some(i) => match m[i] {
            SectionView::Code(c) => c,
            _ => Seq::empty(),
        },
        None => Seq::empty(),
    }
}

/// The function types of the first type section, if there is one.
pub open spec fn module_types(m: Seq<SectionView>) -> Option<Seq<(Seq<ValueType>, Seq<ValueType>)>> {
    match first_section(m, |v: SectionView| v is Type) {
        Some(i) => match m[i] {
            SectionView::Type(t) => Some(t),
            _ => None,
        },
        None => None,
    }
}

/// The exports of the first export section, or none.
pub open spec fn module_exports(m: Seq<SectionView>) -> Seq<(Seq<char>, ExportDesc)> {
    match first_section(m, |v: SectionView| v is Export) {
        Some(i) => match m[i] {
            SectionView::Export(e) => e,
            _ => Seq::empty(),
        },
        None => Seq::empty(),
    }
}

/// The name given to functions that the name section does not name.
pub open spec fn unknown_name() -> Seq<char> {
    seq!['u', 'n', 'k', 'n', 'o', 'w', 'n']
}

/// The name of function `i`: from the name section where it names it.
pub open spec fn function_name(module: Module, i: int) -> Seq<char> {
    match module.spec_custom_names() {
        Some(Some(Ok(names))) => if names.contains_key(i as u32) {
            names[i as u32]
        } else {
            unknown_name()
        },
        _ => unknown_name(),
    }
}

/// Function `i` of a module as an instance resolves it.
pub open spec fn resolved_function(module: Module, i: int) -> FunctionView {
    let m = module@;
    let ty = module_types(m).unwrap()[module_funcs(m)[i] as int];
    FunctionView {
        name: function_name(module, i),
        params: ty.0,
        result: first_type(ty.1),
        body: module_codes(m)[i].1,
        locals: module_codes(m)[i].0,
    }
}

/// What an export of a module stands for once its functions are resolved.
pub open spec fn resolved_export(module: Module, e: (Seq<char>, ExportDesc)) -> (Seq<char>, ExternalView) {
    (
        e.0,
        match e.1 {
            ExportDesc::Func(idx) => ExternalView::Func(resolved_function(module, idx as int)),
            ExportDesc::Table(_) => ExternalView::Table,
            ExportDesc::Memory(_) => ExternalView::Memory,
            ExportDesc::Global(_) => ExternalView::Global,
        },
    )
}

/// The conditions under which a module can be instantiated: its function and
/// code sections agree in length, each function's type index is in the type
/// section, each exported function index names a function, and its name
/// section, if any, holds valid names.
pub open spec fn instantiable(module: Module) -> bool {
    let m = module@;
    &&& module.spec_custom_names() is Some
    &&& module_funcs(m).len() == module_codes(m).len()
    &&& module_funcs(m).len() > 0 ==> module_types(m) is Some
    &&& forall|i: int| 0 <= i < module_funcs(m).len() ==> #[trigger] module_funcs(m)[i] < module_types(m).unwrap().len()
    &&& forall|i: int| 0 <= i < module_exports(m).len() ==> ((#[trigger] module_exports(m)[i]).1 matches ExportDesc::Func(idx) ==> idx < module_funcs(m).len())
}

/// An instantiated module.
pub struct ModuleInstanceRef(ModuleInstance);

impl core::ops::Deref for ModuleInstanceRef {
    type Target = ModuleInstance;

    fn deref(&self) -> (r: &ModuleInstance)
        ensures
            *r == self.instance(),
    {
        &self.0
    }
}

impl ModuleInstanceRef {
    /// The instance behind the reference.
    pub closed spec fn instance(self) -> ModuleInstance {
        self.0
    }

    /// The instance of a module: a function for each body, named from the name
    /// section, and the exports of the export section.
    pub fn instantiate(module: Module) -> (r: Self)
        requires
            instantiable(module),
        ensures
            r.instance().spec_funcs() == Seq::new(module_funcs(module@).len(), |i: int| resolved_function(module, i)),
            r.instance().spec_exports() == module_exports(module@).map_values(|e: (Seq<char>, ExportDesc)| resolved_export(module, e)),
    {
        let mut instance = ModuleInstance::new();
        resolve_functions(&mut instance, &module);
        resolve_exports(&mut instance, &module);
        ModuleInstanceRef(instance)
    }
}

/// Function `i` given the parts of a module it is resolved from.
pub open spec fn resolve_with(
    names: Option<Map<u32, Seq<char>>>,
    types: Seq<(Seq<ValueType>, Seq<ValueType>)>,
    funcs: Seq<u32>,
    codes: Seq<(Seq<(u32, ValueType)>, Seq<Instruction>)>,
    i: int,
) -> FunctionView {
    let ty = types[funcs[i] as int];
    FunctionView {
        name: match names {
            Some(m) => if m.contains_key(i as u32) {
                m[i as u32]
            } else {
                unknown_name()
            },
            None => unknown_name(),
        },
        params: ty.0,
        result: first_type(ty.1),
        body: codes[i].1,
        locals: codes[i].0,
    }
}

/// The name map of a module, where its name section holds one.
pub open spec fn module_names(module: Module) -> Option<Map<u32, Seq<char>>> {
    match module.spec_custom_names() {
        Some(Some(Ok(m))) => Some(m),
        _ => None,
    }
}

proof fn lemma_resolve_with(module: Module, i: int)
    requires
        module_types(module@) is Some,
    ensures
        resolved_function(module, i) == resolve_with(
            module_names(module),
            module_types(module@).unwrap(),
            module_funcs(module@),
            module_codes(module@),
            i,
        ),
{
}

fn resolve_functions(instance: &mut ModuleInstance, module: &Module)
    requires
        instantiable(*module),
        old(instance).spec_funcs() == Seq::<FunctionView>::empty(),
        old(instance).spec_exports() == Seq::<(Seq<char>, ExternalView)>::empty(),
    ensures
        final(instance).spec_funcs() == Seq::new(module_funcs(module@).len(), |i: int| resolved_function(*module, i)),
        final(instance).spec_exports() == Seq::<(Seq<char>, ExternalView)>::empty(),
{
    let imported_function_num: u32 = 0;
    let ghost fs = module_funcs(module@);
    let ghost cs = module_codes(module@);
    let ghost names = module_names(*module);
    let empty_funcs: Vec<u32> = Vec::new();
    let funcs: &[u32] = match module.function_section() {
        Some(fs) => fs.entries(),
        None => empty_funcs.as_slice(),
    };
    let empty_codes: Vec<super::func::Func> = Vec::new();
    let codes: &[super::func::Func] = match module.code_section() {
        Some(cs) => cs.entries(),
        None => empty_codes.as_slice(),
    };
    proof {
        assert(views(empty_codes@) =~= Seq::<(Seq<(u32, ValueType)>, Seq<Instruction>)>::empty());
    }
    let func_names: HashMap<u32, String> = match module.function_names() {
        Some(func_names) => func_names,
        None => HashMap::new(),
    };
    assert(funcs@ == fs);
    assert(views(codes@) == cs);
    if funcs.len() == 0 {
        assert(instance.spec_funcs() =~= Seq::new(fs.len(), |i: int| resolved_function(*module, i)));
        return;
    }
    let ts = match module.type_section() {
        Some(ts) => ts,
        None => {
            return;
        },
    };
    let ghost types = ts@;
    assert(module_types(module@) == Some(types));
    assert(forall|i: int| 0 <= i < fs.len() ==> #[trigger] fs[i] < types.len());
    let ghost target = Seq::new(fs.len(), |i: int| resolve_with(names, types, fs, cs, i));
    let mut code_idx: usize = 0;
    while code_idx < funcs.len()
        invariant
            funcs@ == fs,
            views(codes@) == cs,
            cs.len() == fs.len(),
            ts@ == types,
            forall|i: int| 0 <= i < fs.len() ==> #[trigger] fs[i] < types.len(),
            code_idx <= fs.len(),
            imported_function_num == 0,
            target == Seq::new(fs.len(), |i: int| resolve_with(names, types, fs, cs, i)),
            instance.spec_funcs() == target.take(code_idx as int),
            instance.spec_exports() == Seq::<(Seq<char>, ExternalView)>::empty(),
            match names {
                Some(m) => names_view(func_names@) == m,
                None => func_names@ == Map::<u32, String>::empty(),
            },
        decreases fs.len() - code_idx,
    {
        let type_idx = funcs[code_idx];
        let code = &codes[code_idx];
        let key: u32 = (code_idx as u32) + imported_function_num;
        let name: String = match func_names.get(&key) {
            Some(name) => name.clone(),
            None => "unknown".to_owned(),
        };
        proof {
            reveal_strlit("unknown");
            assert(("unknown")@ =~= unknown_name());
            assert(names_view(func_names@).contains_key(key) == func_names@.contains_key(key));
        }
        assert(fs[code_idx as int] < types.len());
        let signature = Signature::from_func_type(ts.get_func_type(type_idx));
        assert(cs[code_idx as int] == code@);
        let f = FunctionInstance {
            name,
            signature,
            body: copy_instructions(code.body().entries()),
            locals: copy_locals(code.locals()),
        };
        instance.push_func(FunctionInstanceRef::build(f));
        code_idx = code_idx + 1;
        assert(instance.spec_funcs() =~= target.take(code_idx as int));
    }
    proof {
        assert forall|i: int| 0 <= i < fs.len() implies resolved_function(*module, i) == target[i] by {
            lemma_resolve_with(*module, i);
        }
        assert(target.take(code_idx as int) =~= Seq::new(fs.len(), |i: int| resolved_function(*module, i)));
    }
}

fn resolve_exports(instance: &mut ModuleInstance, module: &Module)
    requires
        instantiable(*module),
        old(instance).spec_funcs() == Seq::new(module_funcs(module@).len(), |i: int| resolved_function(*module, i)),
        old(instance).spec_exports() == Seq::<(Seq<char>, ExternalView)>::empty(),
    ensures
        final(instance).spec_funcs() == old(instance).spec_funcs(),
        final(instance).spec_exports() == module_exports(module@).map_values(|e: (Seq<char>, ExportDesc)| resolved_export(*module, e)),
{
    let ghost es = module_exports(module@);
    let ghost nf = module_funcs(module@).len();
    let ghost funcs = old(instance).spec_funcs();
    assert(forall|k: int| 0 <= k < nf ==> #[trigger] funcs[k] == resolved_function(*module, k));
    let empty: Vec<Export> = Vec::new();
    let exports: &[Export] = match module.export_section() {
        Some(es) => es.entries(),
        None => empty.as_slice(),
    };
    proof {
        assert(views(empty@) =~= Seq::<(Seq<char>, ExportDesc)>::empty());
    }
    assert(views(exports@) == es);
    assert(forall|i: int| 0 <= i < es.len() ==> ((#[trigger] es[i]).1 matches ExportDesc::Func(idx) ==> idx < nf));
    let ghost target = es.map_values(|e: (Seq<char>, ExportDesc)| resolved_export(*module, e));
    let mut i: usize = 0;
    while i < exports.len()
        invariant
            views(exports@) == es,
            forall|i: int| 0 <= i < es.len() ==> ((#[trigger] es[i]).1 matches ExportDesc::Func(idx) ==> idx < nf),
            funcs.len() == nf,
            forall|k: int| 0 <= k < nf ==> #[trigger] funcs[k] == resolved_function(*module, k),
            i <= exports@.len(),
            target == es.map_values(|e: (Seq<char>, ExportDesc)| resolved_export(*module, e)),
            instance.spec_funcs() == funcs,
            instance.spec_exports() == target.take(i as int),
        decreases exports@.len() - i,
    {
        let export = &exports[i];
        assert(es[i as int] == export@);
        let external = match export.desc() {
            ExportDesc::Func(idx) => {
                let f = match instance.func_by_index(*idx) {
                    Some(f) => f,
                    None => {
                        return;
                    },
                };
                External::Func(f)
            },
            ExportDesc::Table(_) => External::Table,
            ExportDesc::Memory(_) => External::Memory,
            ExportDesc::Global(_) => External::Global,
        };
        instance.insert_export(export.name().to_owned(), external);
        i = i + 1;
        assert(instance.spec_exports() =~= target.take(i as int));
    }
    assert(target.take(i as int) =~= target);
}

} // verus!
