//! High-level WASM parser API.

use vstd::prelude::*;
use crate::ast::{FunctionBody, Module, ModuleView, code_index, inserted_at, views};
use crate::decode::{parse_bytes, sp_parse, view_outcome};
use crate::encode::{enc_module, unimplemented_message};
use crate::error::{WasmError, WasmErrorView};
use crate::instruction::Instruction;

verus! {

/// Parse WASM binary from bytes.
pub fn parse(bytes: &[u8]) -> (r: Result<Module, WasmError>)
    ensures
        view_outcome(r) == sp_parse(bytes@),
{
    parse_bytes(bytes)
}

/// Encode a WASM module to bytes.
pub fn encode_module(module: &Module) -> (r: Result<Vec<u8>, WasmError>)
    ensures
        match r {
            Ok(bytes) => enc_module(module@).1 is None && bytes@ == enc_module(module@).0,
            Err(e) => enc_module(module@).1 is Some && e@ == WasmErrorView::Custom(
                unimplemented_message(enc_module(module@).1->0),
            ),
        },
{
    crate::encode::encode_module(module)
}

/// Parse and modify WASM binary.
pub struct WasmParser;

impl WasmParser {
    /// Create a new empty module.
    pub fn new_module() -> (r: Module)
        ensures
            r@ == crate::ast::empty_module_view(),
    {
        Module::new()
    }

    /// Parse WASM from bytes.
    pub fn parse(bytes: &[u8]) -> (r: Result<Module, WasmError>)
        ensures
            view_outcome(r) == sp_parse(bytes@),
    {
        parse(bytes)
    }

    /// Encode module to bytes.
    pub fn encode_wasm(module: &Module) -> (r: Result<Vec<u8>, WasmError>)
        ensures
            match r {
                Ok(bytes) => enc_module(module@).1 is None && bytes@ == enc_module(module@).0,
                Err(e) => enc_module(module@).1 is Some && e@ == WasmErrorView::Custom(
                    unimplemented_message(enc_module(module@).1->0),
                ),
            },
    {
        crate::encode::encode_module(module)
    }
}

/// Helper trait for working with WASM modules.
pub trait ModuleExt {
    /// Get the number of functions.
    fn function_count(&self) -> usize;

    /// Check if a function exists.
    fn has_function(&self, idx: u32) -> bool;

    /// Modify a function's instructions.
    fn modify_function<F>(&mut self, idx: u32, f: F) -> Result<(), WasmError> where
        F: FnOnce(&mut FunctionBody),
        requires
            forall|b: &mut FunctionBody| #[trigger] f.requires((b,)),
    ;

    /// Insert an instruction in a function.
    fn insert_instruction(&mut self, func_idx: u32, pos: usize, instr: Instruction) -> Result<(), WasmError>;

    /// Remove an instruction from a function.
    fn remove_instruction(&mut self, func_idx: u32, pos: usize) -> Result<Option<Instruction>, WasmError>;

    /// Replace an instruction in a function.
    fn replace_instruction(&mut self, func_idx: u32, pos: usize, instr: Instruction) -> Result<(), WasmError>;
}

/// The module's code after the body at `i` had its instructions changed
/// to `instrs`, nothing else changing.
pub open spec fn changed_instructions(before: Module, after: Module, i: int, instrs: Seq<Instruction>) -> bool {
    &&& after.code@.len() == before.code@.len()
    &&& forall|j: int| 0 <= j < before.code@.len() && j != i ==> after.code@[j] == before.code@[j]
    &&& after.code@[i].instructions@ == instrs
    &&& after.code@[i].locals@ == before.code@[i].locals@
    &&& after@ == (ModuleView { code: views(after.code@), ..before@ })
    &&& after.imports == before.imports
    &&& after.funcs == before.funcs
}

/// Removing an instruction where one was just inserted gives that
/// instruction back and leaves the module as it was before the insertion.
pub proof fn lemma_insert_then_remove(
    m0: Module,
    m1: Module,
    m2: Module,
    func_idx: u32,
    pos: usize,
    instr: Instruction,
)
    requires
        code_index(&m0, func_idx) is Some,
        pos <= m0.code@[code_index(&m0, func_idx)->0].instructions@.len(),
        changed_instructions(
            m0,
            m1,
            code_index(&m0, func_idx)->0,
            inserted_at(m0.code@[code_index(&m0, func_idx)->0].instructions@, pos as int, instr),
        ),
        code_index(&m1, func_idx) matches Some(i) && changed_instructions(
            m1,
            m2,
            i,
            m1.code@[i].instructions@.remove(pos as int),
        ),
    ensures
        code_index(&m1, func_idx) == code_index(&m0, func_idx),
        ({
            let i = code_index(&m0, func_idx)->0;
            &&& pos < m1.code@[i].instructions@.len()
            &&& m1.code@[i].instructions@[pos as int] == instr
            &&& m2.code@[i].instructions@ == m0.code@[i].instructions@
            &&& m2@ == m0@
        }),
{
    let i = code_index(&m0, func_idx)->0;
    let s = m0.code@[i].instructions@;
    assert(s.insert(pos as int, instr).remove(pos as int) =~= s);
    assert(views(m2.code@) =~= views(m0.code@)) by {
        assert forall|j: int| 0 <= j < m0.code@.len() implies #[trigger] views(m2.code@)[j] == views(m0.code@)[j] by {
            if j == i {
                assert(m2.code@[j]@ == m0.code@[j]@);
            }
        }
    }
}

impl ModuleExt for Module {
    fn function_count(&self) -> (r: usize)
        ensures
            r == self.funcs@.len(),
    {
        self.funcs.len()
    }

    fn has_function(&self, idx: u32) -> (r: bool)
        ensures
            r == (idx < self.funcs@.len()),
    {
        (idx as usize) < self.function_count()
    }

    fn modify_function<F>(&mut self, idx: u32, f: F) -> (r: Result<(), WasmError>) where
        F: FnOnce(&mut FunctionBody),
        ensures
            code_index(old(self), idx) is None ==> r == Err::<(), WasmError>(WasmError::InvalidFunctionIndex(idx))
                && *final(self) == *old(self),
            code_index(old(self), idx) matches Some(i) ==> {
                &&& r is Ok
                &&& final(self).code@.len() == old(self).code@.len()
                &&& forall|j: int|
                    0 <= j < old(self).code@.len() && j != i ==> final(self).code@[j] == old(self).code@[j]
                &&& exists|b: &mut FunctionBody|
                    *b == old(self).code@[i] && #[trigger] f.ensures((b,), ()) && *final(b) == final(self).code@[i]
                &&& final(self)@ == (ModuleView { code: views(final(self).code@), ..old(self)@ })
                &&& final(self).imports == old(self).imports
                &&& final(self).funcs == old(self).funcs
            },
    {
        let body = match self.get_function_body_mut(idx) {
            Some(b) => b,
            None => return Err(WasmError::InvalidFunctionIndex(idx)),
        };
        f(body);
        Ok(())
    }

    fn insert_instruction(&mut self, func_idx: u32, pos: usize, instr: Instruction) -> (r: Result<(), WasmError>)
        ensures
            code_index(old(self), func_idx) is None ==> r == Err::<(), WasmError>(
                WasmError::InvalidFunctionIndex(func_idx),
            ) && *final(self) == *old(self),
            code_index(old(self), func_idx) matches Some(i) ==> r is Ok && changed_instructions(
                *old(self),
                *final(self),
                i,
                inserted_at(old(self).code@[i].instructions@, pos as int, instr),
            ),
    {
        self.modify_function(
            func_idx,
            (move |body: &mut FunctionBody|
                ensures
                    final(body).instructions@ == inserted_at(old(body).instructions@, pos as int, instr),
                    final(body).locals@ == old(body).locals@,
                {
                    body.insert_instruction(pos, instr);
                }),
        )
    }

    fn remove_instruction(&mut self, func_idx: u32, pos: usize) -> (r: Result<Option<Instruction>, WasmError>)
        ensures
            code_index(old(self), func_idx) is None ==> r == Err::<Option<Instruction>, WasmError>(
                WasmError::InvalidFunctionIndex(func_idx),
            ) && *final(self) == *old(self),
            code_index(old(self), func_idx) matches Some(i) ==> {
                let instrs = old(self).code@[i].instructions@;
                &&& pos < instrs.len() ==> r == Ok::<Option<Instruction>, WasmError>(Some(instrs[pos as int]))
                    && changed_instructions(*old(self), *final(self), i, instrs.remove(pos as int))
                &&& pos >= instrs.len() ==> r == Ok::<Option<Instruction>, WasmError>(None) && changed_instructions(
                    *old(self),
                    *final(self),
                    i,
                    instrs,
                )
            },
    {
        let body = match self.get_function_body_mut(func_idx) {
            Some(b) => b,
            None => return Err(WasmError::InvalidFunctionIndex(func_idx)),
        };
        Ok(body.remove_instruction(pos))
    }

    fn replace_instruction(&mut self, func_idx: u32, pos: usize, instr: Instruction) -> (r: Result<(), WasmError>)
        ensures
            code_index(old(self), func_idx) is None ==> r == Err::<(), WasmError>(
                WasmError::InvalidFunctionIndex(func_idx),
            ) && *final(self) == *old(self),
            code_index(old(self), func_idx) matches Some(i) ==> r is Ok && changed_instructions(
                *old(self),
                *final(self),
                i,
                if pos < old(self).code@[i].instructions@.len() {
                    old(self).code@[i].instructions@.update(pos as int, instr)
                } else {
                    old(self).code@[i].instructions@
                },
            ),
    {
        let body = match self.get_function_body_mut(func_idx) {
            Some(b) => b,
            None => return Err(WasmError::InvalidFunctionIndex(func_idx)),
        };
        body.replace_instruction(pos, instr);
        Ok(())
    }
}

} // verus!
