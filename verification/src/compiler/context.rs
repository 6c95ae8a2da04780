//! The state that checking a rule's condition works on.

use crate::compiler::errors::Warning;
use crate::symbols::{StackedSymbolTable, Var};
use crate::types::Type;
use crate::wasm::layout::MAX_VARS;
use vstd::prelude::*;

verus! {

/// The symbols in scope, the warnings raised so far, and the stack of loop
/// variables.
pub struct Context {
    /// The symbols that identifiers resolve to.
    pub symbol_table: StackedSymbolTable,
    /// Warnings raised during the compilation.
    pub warnings: Vec<Warning>,
    /// Top of the stack of loop variables: the number of slots in use.
    pub vars_stack_top: i32,
}

impl Context {
    /// The symbol table is well formed and the stack of loop variables is
    /// within its budget.
    pub open spec fn wf(&self) -> bool {
        self.symbol_table.wf() && 0 <= self.vars_stack_top <= MAX_VARS
    }

    /// A context without symbols, warnings or variables.
    pub fn new() -> (ctx: Context)
        ensures
            ctx.wf(),
            ctx.symbol_table@.len() == 0,
            ctx.warnings@.len() == 0,
            ctx.vars_stack_top == 0,
    {
        Context { symbol_table: StackedSymbolTable::new(), warnings: Vec::new(), vars_stack_top: 0 }
    }

    /// Allocates the next slot on the stack of loop variables. Returns
    /// `None`, and changes nothing, where all `MAX_VARS` slots are in use:
    /// the loops are nested too deep.
    pub fn new_var(&mut self, ty: Type) -> (var: Option<Var>)
        requires
            old(self).wf(),
        ensures
            final(self).wf(),
            final(self).symbol_table == old(self).symbol_table,
            final(self).warnings == old(self).warnings,
            old(self).vars_stack_top < MAX_VARS ==> var == Some(
                Var { ty, index: old(self).vars_stack_top },
            ) && final(self).vars_stack_top == old(self).vars_stack_top + 1,
            old(self).vars_stack_top >= MAX_VARS ==> var is None && final(self).vars_stack_top
                == old(self).vars_stack_top,
    {
        let top = self.vars_stack_top;
        if top >= MAX_VARS {
            return None;
        }
        self.vars_stack_top = top + 1;
        Some(Var { ty, index: top })
    }

    /// Frees `top` and every slot allocated after it: the top of the stack
    /// comes back to where it was when `top` was allocated.
    pub fn free_vars(&mut self, top: Var)
        requires
            old(self).wf(),
            0 <= top.index <= old(self).vars_stack_top,
        ensures
            final(self).wf(),
            final(self).vars_stack_top == top.index,
            final(self).symbol_table == old(self).symbol_table,
            final(self).warnings == old(self).warnings,
    {
        self.vars_stack_top = top.index;
    }
}

} // verus!
