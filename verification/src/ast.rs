//! WebAssembly AST structures.
//!
//! The editable structures that represent a WebAssembly module.

use vstd::prelude::*;
use crate::instruction::{Instruction, InstrView, instrs_view};
use crate::types::{ExternalKind, FuncType, FuncTypeView, GlobalType, MemType, TableType, ValueType};

verus! {

/// A WebAssembly module.
#[derive(Debug, Default)]
pub struct Module {
    pub custom_sections: Vec<CustomSection>,
    pub types: Vec<FuncType>,
    pub imports: Vec<Import>,
    pub funcs: Vec<u32>,
    pub tables: Vec<TableType>,
    pub memories: Vec<MemType>,
    pub globals: Vec<Global>,
    pub exports: Vec<Export>,
    pub start: Option<u32>,
    pub elements: Vec<ElementSegment>,
    pub code: Vec<FunctionBody>,
    pub data: Vec<DataSegment>,
    pub data_count: Option<u32>,
}

/// The models of a sequence of values.
pub open spec fn views<T: View>(s: Seq<T>) -> Seq<T::V> {
    s.map_values(|x: T| x@)
}

/// Mathematical model of a [`Module`].
pub struct ModuleView {
    pub custom_sections: Seq<CustomSectionView>,
    pub types: Seq<FuncTypeView>,
    pub imports: Seq<ImportView>,
    pub funcs: Seq<u32>,
    pub tables: Seq<TableType>,
    pub memories: Seq<MemType>,
    pub globals: Seq<GlobalView>,
    pub exports: Seq<ExportView>,
    pub start: Option<u32>,
    pub elements: Seq<ElementSegmentView>,
    pub code: Seq<FunctionBodyView>,
    pub data: Seq<DataSegmentView>,
    pub data_count: Option<u32>,
}

impl View for Module {
    type V = ModuleView;

    open spec fn view(&self) -> ModuleView {
        ModuleView {
            custom_sections: views(self.custom_sections@),
            types: views(self.types@),
            imports: views(self.imports@),
            funcs: self.funcs@,
            tables: self.tables@,
            memories: self.memories@,
            globals: views(self.globals@),
            exports: views(self.exports@),
            start: self.start,
            elements: views(self.elements@),
            code: views(self.code@),
            data: views(self.data@),
            data_count: self.data_count,
        }
    }
}

/// The model of a module with nothing in it.
pub open spec fn empty_module_view() -> ModuleView {
    ModuleView {
        custom_sections: Seq::empty(),
        types: Seq::empty(),
        imports: Seq::empty(),
        funcs: Seq::empty(),
        tables: Seq::empty(),
        memories: Seq::empty(),
        globals: Seq::empty(),
        exports: Seq::empty(),
        start: None,
        elements: Seq::empty(),
        code: Seq::empty(),
        data: Seq::empty(),
        data_count: None,
    }
}

/// The number of imports of functions.
pub open spec fn func_import_count(imports: Seq<Import>) -> nat
    decreases imports.len(),
{
    if imports.len() == 0 {
        0
    } else {
        func_import_count(imports.drop_last()) + (if imports.last().kind == ExternalKind::Func {
            1nat
        } else {
            0nat
        })
    }
}

/// The place in the code section of the body of function `func_idx`: the
/// functions are numbered after the imported ones.
pub open spec fn code_index(m: &Module, func_idx: u32) -> Option<int> {
    let imported = func_import_count(m.imports@) as u32;
    if func_idx >= imported && func_idx - imported < m.code@.len() {
        Some(func_idx - imported)
    } else {
        None
    }
}

/// The imports of a module that are functions: those of kind `Func`, in
/// their order. Imports of tables, memories and globals are not among them.
pub open spec fn function_imports(imports: Seq<Import>) -> Seq<Import> {
    imports.filter(|i: Import| i.kind == ExternalKind::Func)
}

/// The number of imported functions is the number of imports of kind
/// `Func`, whatever the other imports are.
pub proof fn lemma_func_import_count_counts_functions(imports: Seq<Import>)
    ensures
        func_import_count(imports) == function_imports(imports).len(),
        func_import_count(imports) <= imports.len(),
    decreases imports.len(),
{
    reveal(Seq::filter);
    if imports.len() > 0 {
        lemma_func_import_count_counts_functions(imports.drop_last());
    }
}

/// Adding an import raises the number of imported functions by one where
/// it is a function, and leaves it unchanged where it is a table, a memory
/// or a global.
pub proof fn lemma_func_import_count_push(imports: Seq<Import>, i: Import)
    ensures
        function_imports(imports.push(i)).len() == function_imports(imports).len() + (if i.kind
            == ExternalKind::Func {
            1int
        } else {
            0int
        }),
        func_import_count(imports.push(i)) == function_imports(imports.push(i)).len(),
{
    reveal(Seq::filter);
    assert(imports.push(i).drop_last() =~= imports);
    lemma_func_import_count_counts_functions(imports.push(i));
}

/// Function `func_idx` has the body at `func_idx` less the number of
/// imports of kind `Func`, where there is one: the functions are numbered
/// after the imported functions, and other imports take no number.
pub proof fn lemma_code_index_skips_function_imports(m: &Module, func_idx: u32)
    requires
        function_imports(m.imports@).len() <= u32::MAX,
    ensures
        ({
            let n = function_imports(m.imports@).len();
            code_index(m, func_idx) == if func_idx >= n && func_idx - n < m.code@.len() {
                Some(func_idx - n)
            } else {
                None::<int>
            }
        }),
{
    lemma_func_import_count_counts_functions(m.imports@);
}

impl Module {
    /// Create a new empty module.
    pub fn new() -> (r: Module)
        ensures
            r@ == empty_module_view(),
    {
        let r = Module {
            custom_sections: Vec::new(),
            types: Vec::new(),
            imports: Vec::new(),
            funcs: Vec::new(),
            tables: Vec::new(),
            memories: Vec::new(),
            globals: Vec::new(),
            exports: Vec::new(),
            start: None,
            elements: Vec::new(),
            code: Vec::new(),
            data: Vec::new(),
            data_count: None,
        };
        proof {
            assert(views(r.custom_sections@) =~= Seq::empty());
            assert(views(r.types@) =~= Seq::empty());
            assert(views(r.imports@) =~= Seq::empty());
            assert(views(r.globals@) =~= Seq::empty());
            assert(views(r.exports@) =~= Seq::empty());
            assert(views(r.elements@) =~= Seq::empty());
            assert(views(r.code@) =~= Seq::empty());
            assert(views(r.data@) =~= Seq::empty());
        }
        r
    }

    /// Add a type to the module and return its index.
    pub fn add_type(&mut self, func_type: FuncType) -> (r: u32)
        ensures
            r == old(self).types@.len() as u32,
            final(self).types@ == old(self).types@.push(func_type),
            final(self)@ == (ModuleView { types: old(self)@.types.push(func_type@), ..old(self)@ }),
    {
        let idx = self.types.len() as u32;
        self.types.push(func_type);
        proof {
            assert(views(self.types@) =~= views(old(self).types@).push(func_type@));
        }
        idx
    }

    /// Add a function to the module and return its index.
    pub fn add_function(&mut self, type_idx: u32) -> (r: u32)
        ensures
            r == old(self).funcs@.len() as u32,
            final(self)@ == (ModuleView { funcs: old(self)@.funcs.push(type_idx), ..old(self)@ }),
    {
        let idx = self.funcs.len() as u32;
        self.funcs.push(type_idx);
        idx
    }

    /// The number of imports of functions, kept to 32 bits.
    fn func_import_count(&self) -> (r: u32)
        ensures
            r == func_import_count(self.imports@) as u32,
    {
        let mut count: usize = 0;
        let mut i: usize = 0;
        while i < self.imports.len()
            invariant
                i <= self.imports@.len(),
                count == func_import_count(self.imports@.subrange(0, i as int)),
                count <= i,
            decreases self.imports@.len() - i,
        {
            proof {
                let s = self.imports@.subrange(0, i as int + 1);
                assert(s.drop_last() =~= self.imports@.subrange(0, i as int));
            }
            if self.imports[i].kind == ExternalKind::Func {
                count += 1;
            }
            i += 1;
        }
        proof {
            assert(self.imports@.subrange(0, i as int) =~= self.imports@);
        }
        count as u32
    }

    /// Get a reference to a function's body by function index.
    pub fn get_function_body(&self, func_idx: u32) -> (r: Option<&FunctionBody>)
        ensures
            r == (match code_index(self, func_idx) {
                Some(i) => Some(&self.code@[i]),
                None => None,
            }),
    {
        let import_count = self.func_import_count();
        let code_idx = func_idx.checked_sub(import_count)?;
        if (code_idx as usize) < self.code.len() {
            Some(&self.code[code_idx as usize])
        } else {
            None
        }
    }

    /// Get a mutable reference to a function's body by function index; what
    /// is done through it is what the module's code then holds.
    pub fn get_function_body_mut(&mut self, func_idx: u32) -> (r: Option<&mut FunctionBody>)
        ensures
            code_index(old(self), func_idx) is None ==> r is None && *final(self) == *old(self),
            code_index(old(self), func_idx) matches Some(i) ==> {
                &&& r is Some
                &&& *r.unwrap() == old(self).code@[i]
                &&& final(self).code@ == old(self).code@.update(i, *final(r.unwrap()))
                &&& final(self)@ == (ModuleView { code: views(final(self).code@), ..old(self)@ })
                &&& final(self).imports == old(self).imports
                &&& final(self).funcs == old(self).funcs
            },
    {
        let import_count = self.func_import_count();
        let code_idx = match func_idx.checked_sub(import_count) {
            Some(c) => c,
            None => return None,
        };
        if (code_idx as usize) < self.code.len() {
            Some(&mut self.code[code_idx as usize])
        } else {
            None
        }
    }

    /// Add an import to the module.
    pub fn add_import(&mut self, import: Import)
        ensures
            final(self).imports@ == old(self).imports@.push(import),
            final(self)@ == (ModuleView { imports: old(self)@.imports.push(import@), ..old(self)@ }),
    {
        self.imports.push(import);
        proof {
            assert(views(self.imports@) =~= views(old(self).imports@).push(import@));
        }
    }

    /// Add an export to the module.
    pub fn add_export(&mut self, name: String, kind: ExternalKind, idx: u32)
        ensures
            final(self)@ == (ModuleView {
                exports: old(self)@.exports.push(ExportView { name: name@, kind, idx }),
                ..old(self)@
            }),
    {
        let ghost name_view = name@;
        self.exports.push(Export { name, kind, idx });
        proof {
            assert(views(self.exports@) =~= views(old(self).exports@).push(
                ExportView { name: name_view, kind, idx },
            ));
        }
    }

    /// Set the start function index.
    pub fn set_start(&mut self, func_idx: u32)
        ensures
            final(self)@ == (ModuleView { start: Some(func_idx), ..old(self)@ }),
    {
        self.start = Some(func_idx);
    }

    /// Add a memory to the module.
    pub fn add_memory(&mut self, mem_type: MemType)
        ensures
            final(self)@ == (ModuleView { memories: old(self)@.memories.push(mem_type), ..old(self)@ }),
    {
        self.memories.push(mem_type);
    }

    /// Add a table to the module.
    pub fn add_table(&mut self, table_type: TableType)
        ensures
            final(self)@ == (ModuleView { tables: old(self)@.tables.push(table_type), ..old(self)@ }),
    {
        self.tables.push(table_type);
    }

    /// Add a global to the module.
    pub fn add_global(&mut self, global: Global)
        ensures
            final(self)@ == (ModuleView { globals: old(self)@.globals.push(global@), ..old(self)@ }),
    {
        let ghost gv = global@;
        self.globals.push(global);
        proof {
            assert(views(self.globals@) =~= views(old(self).globals@).push(gv));
        }
    }

    /// Add a data segment to the module.
    pub fn add_data(&mut self, data: DataSegment)
        ensures
            final(self)@ == (ModuleView { data: old(self)@.data.push(data@), ..old(self)@ }),
    {
        let ghost dv = data@;
        self.data.push(data);
        proof {
            assert(views(self.data@) =~= views(old(self).data@).push(dv));
        }
    }
}

/// A custom section in the WASM module.
#[derive(Debug, PartialEq)]
pub struct CustomSection {
    /// Name of the custom section
    pub name: String,
    /// Raw bytes of the custom section
    pub data: Vec<u8>,
}

/// Mathematical model of a [`CustomSection`].
pub struct CustomSectionView {
    pub name: Seq<char>,
    pub data: Seq<u8>,
}

impl View for CustomSection {
    type V = CustomSectionView;

    open spec fn view(&self) -> CustomSectionView {
        CustomSectionView { name: self.name@, data: self.data@ }
    }
}

/// An import entry.
#[derive(Debug, PartialEq)]
pub struct Import {
    /// Module name
    pub module: String,
    /// Field name within the module
    pub name: String,
    /// Kind of import (function, table, memory, or global)
    pub kind: ExternalKind,
    /// Type index or other index
    pub idx: u32,
}

/// Mathematical model of an [`Import`].
pub struct ImportView {
    pub module: Seq<char>,
    pub name: Seq<char>,
    pub kind: ExternalKind,
    pub idx: u32,
}

impl View for Import {
    type V = ImportView;

    open spec fn view(&self) -> ImportView {
        ImportView { module: self.module@, name: self.name@, kind: self.kind, idx: self.idx }
    }
}

/// An export entry.
#[derive(Debug, PartialEq)]
pub struct Export {
    /// Name of the export
    pub name: String,
    /// Kind of export
    pub kind: ExternalKind,
    /// Index of the exported item
    pub idx: u32,
}

/// Mathematical model of an [`Export`].
pub struct ExportView {
    pub name: Seq<char>,
    pub kind: ExternalKind,
    pub idx: u32,
}

impl View for Export {
    type V = ExportView;

    open spec fn view(&self) -> ExportView {
        ExportView { name: self.name@, kind: self.kind, idx: self.idx }
    }
}

/// A global variable.
#[derive(Debug, PartialEq)]
pub struct Global {
    /// Type of the global (including mutability)
    pub ty: GlobalType,
    /// Initialization expression
    pub init: Vec<Instruction>,
}

/// Mathematical model of a [`Global`].
pub struct GlobalView {
    pub ty: GlobalType,
    pub init: Seq<InstrView>,
}

impl View for Global {
    type V = GlobalView;

    open spec fn view(&self) -> GlobalView {
        GlobalView { ty: self.ty, init: instrs_view(self.init@) }
    }
}

/// An element segment (function table initialization).
#[derive(Debug, PartialEq)]
pub struct ElementSegment {
    /// Mode (passive, active, or declared)
    pub mode: ElementMode,
    /// Element type (usually funcref)
    pub elem_type: ValueType,
    /// Function indices in the segment
    pub init: Vec<u32>,
}

/// Mathematical model of an [`ElementSegment`].
pub struct ElementSegmentView {
    pub mode: ElementModeView,
    pub elem_type: ValueType,
    pub init: Seq<u32>,
}

impl View for ElementSegment {
    type V = ElementSegmentView;

    open spec fn view(&self) -> ElementSegmentView {
        ElementSegmentView { mode: self.mode@, elem_type: self.elem_type, init: self.init@ }
    }
}

/// Element segment mode.
#[derive(Debug, PartialEq)]
pub enum ElementMode {
    /// Passive element segment
    Passive,
    /// Active element segment with table index and offset expression
    Active { table_idx: u32, offset: Vec<Instruction> },
    /// Declared element segment
    Declared,
}

/// Mathematical model of an [`ElementMode`].
pub enum ElementModeView {
    Passive,
    Active { table_idx: u32, offset: Seq<InstrView> },
    Declared,
}

impl View for ElementMode {
    type V = ElementModeView;

    open spec fn view(&self) -> ElementModeView {
        match self {
            ElementMode::Passive => ElementModeView::Passive,
            ElementMode::Active { table_idx, offset } => ElementModeView::Active {
                table_idx: *table_idx,
                offset: instrs_view(offset@),
            },
            ElementMode::Declared => ElementModeView::Declared,
        }
    }
}

/// A data segment.
#[derive(Debug, PartialEq)]
pub struct DataSegment {
    /// Mode (passive or active)
    pub mode: DataMode,
    /// Raw bytes of the data
    pub data: Vec<u8>,
}

/// Mathematical model of a [`DataSegment`].
pub struct DataSegmentView {
    pub mode: DataModeView,
    pub data: Seq<u8>,
}

impl View for DataSegment {
    type V = DataSegmentView;

    open spec fn view(&self) -> DataSegmentView {
        DataSegmentView { mode: self.mode@, data: self.data@ }
    }
}

/// Data segment mode.
#[derive(Debug, PartialEq)]
pub enum DataMode {
    /// Passive data segment
    Passive,
    /// Active data segment with memory index and offset expression
    Active { mem_idx: u32, offset: Vec<Instruction> },
}

/// Mathematical model of a [`DataMode`].
pub enum DataModeView {
    Passive,
    Active { mem_idx: u32, offset: Seq<InstrView> },
}

impl View for DataMode {
    type V = DataModeView;

    open spec fn view(&self) -> DataModeView {
        match self {
            DataMode::Passive => DataModeView::Passive,
            DataMode::Active { mem_idx, offset } => DataModeView::Active {
                mem_idx: *mem_idx,
                offset: instrs_view(offset@),
            },
        }
    }
}

/// A function body (code section entry).
#[derive(Debug, Default, PartialEq)]
pub struct FunctionBody {
    /// Local variable declarations
    pub locals: Vec<Local>,
    /// Instructions in the function body
    pub instructions: Vec<Instruction>,
}

/// Mathematical model of a [`FunctionBody`].
pub struct FunctionBodyView {
    pub locals: Seq<Local>,
    pub instructions: Seq<InstrView>,
}

impl View for FunctionBody {
    type V = FunctionBodyView;

    open spec fn view(&self) -> FunctionBodyView {
        FunctionBodyView { locals: self.locals@, instructions: instrs_view(self.instructions@) }
    }
}

/// Where an instruction inserted at `pos` lands: at `pos`, or at the end
/// where `pos` lies beyond it.
pub open spec fn inserted_at(s: Seq<Instruction>, pos: int, instr: Instruction) -> Seq<Instruction> {
    if pos > s.len() {
        s.push(instr)
    } else {
        s.insert(pos, instr)
    }
}

impl FunctionBody {
    /// Create a new empty function body.
    pub fn new() -> (r: FunctionBody)
        ensures
            r.locals@.len() == 0,
            r.instructions@.len() == 0,
    {
        FunctionBody { locals: Vec::new(), instructions: Vec::new() }
    }

    /// Add local variables to the function.
    pub fn add_local(&mut self, count: u32, ty: ValueType)
        ensures
            final(self).locals@ == old(self).locals@.push(Local { count, ty }),
            final(self).instructions@ == old(self).instructions@,
    {
        self.locals.push(Local { count, ty });
    }

    /// Add an instruction to the end of the function.
    pub fn add_instruction(&mut self, instr: Instruction)
        ensures
            final(self).instructions@ == old(self).instructions@.push(instr),
            final(self).locals@ == old(self).locals@,
    {
        self.instructions.push(instr);
    }

    /// Insert an instruction at a specific position; a position beyond the
    /// end appends it.
    pub fn insert_instruction(&mut self, pos: usize, instr: Instruction)
        ensures
            final(self).instructions@ == inserted_at(old(self).instructions@, pos as int, instr),
            final(self).locals@ == old(self).locals@,
    {
        if pos > self.instructions.len() {
            self.instructions.push(instr);
        } else {
            self.instructions.insert(pos, instr);
        }
    }

    /// Remove an instruction at a specific position.
    pub fn remove_instruction(&mut self, pos: usize) -> (r: Option<Instruction>)
        ensures
            pos < old(self).instructions@.len() ==> r == Some(old(self).instructions@[pos as int])
                && final(self).instructions@ == old(self).instructions@.remove(pos as int),
            pos >= old(self).instructions@.len() ==> r is None && final(self).instructions@ == old(
                self,
            ).instructions@,
            final(self).locals@ == old(self).locals@,
    {
        if pos < self.instructions.len() {
            Some(self.instructions.remove(pos))
        } else {
            None
        }
    }

    /// Replace an instruction at a specific position; a position beyond the
    /// end changes nothing.
    pub fn replace_instruction(&mut self, pos: usize, instr: Instruction)
        ensures
            final(self).instructions@ == (if pos < old(self).instructions@.len() {
                old(self).instructions@.update(pos as int, instr)
            } else {
                old(self).instructions@
            }),
            final(self).locals@ == old(self).locals@,
    {
        if pos < self.instructions.len() {
            self.instructions.set(pos, instr);
        }
    }

    /// Get a mutable reference to the instructions.
    pub fn instructions_mut(&mut self) -> (r: &mut Vec<Instruction>)
        ensures
            *r == old(self).instructions,
            final(self).instructions == *final(r),
            final(self).locals == old(self).locals,
    {
        &mut self.instructions
    }
}

/// A local variable declaration.
#[derive(Debug, Clone, Copy, PartialEq, Eq, Structural)]
pub struct Local {
    /// Number of locals of this type
    pub count: u32,
    /// Type of the local(s)
    pub ty: ValueType,
}

} // verus!
