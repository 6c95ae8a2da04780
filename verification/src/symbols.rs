//! Symbol tables: what an identifier stands for at a place in a condition.

use crate::compiler::ids::RuleId;
use crate::name_index::NameIndex;
use crate::types::Type;
use vstd::prelude::*;

verus! {

/// A slot on the stack of loop variables.
#[derive(Clone, Copy, Debug, PartialEq, Eq, Structural)]
pub struct Var {
    pub ty: Type,
    pub index: i32,
}

/// What kind of thing an identifier names.
#[derive(Clone, Copy, Debug, PartialEq, Eq, Structural)]
pub enum SymbolKind {
    /// A rule, by its number.
    Rule(RuleId),
    /// A field of the structure that is current, by its index.
    FieldIndex(i32),
    /// A loop variable.
    LoopVar(Var),
    /// A function, by its number in the table of functions.
    Func(usize),
}

/// What an identifier stands for: a kind and a static type.
#[derive(Clone, Copy, Debug, PartialEq, Eq, Structural)]
pub struct Symbol {
    pub ty: Type,
    pub kind: SymbolKind,
}

/// The symbols of one scope.
pub struct SymbolTable {
    names: NameIndex,
    symbols: Vec<Symbol>,
}

impl SymbolTable {
    /// The table as a map from names to symbols.
    pub closed spec fn view(&self) -> Map<Seq<char>, Symbol> {
        Map::new(
            |name: Seq<char>| self.names@.contains(name),
            |name: Seq<char>| self.symbols@[self.names@.index_of(name)],
        )
    }

    pub closed spec fn wf(&self) -> bool {
        self.names.wf() && self.names@.len() == self.symbols@.len()
    }

    /// A table without symbols.
    pub fn new() -> (table: SymbolTable)
        ensures
            table.wf(),
            table@ == Map::<Seq<char>, Symbol>::empty(),
    {
        let table = SymbolTable { names: NameIndex::new(), symbols: Vec::new() };
        assert(table@ =~= Map::<Seq<char>, Symbol>::empty());
        table
    }

    /// Binds `name` to `symbol`, in place of what it was bound to before.
    pub fn insert(&mut self, name: &str, symbol: Symbol)
        requires
            old(self).wf(),
        ensures
            final(self).wf(),
            final(self)@ == old(self)@.insert(name@, symbol),
    {
        let ghost before = *self;
        let i = self.names.insert(name);
        if i < self.symbols.len() {
            self.symbols.set(i, symbol);
        } else {
            self.symbols.push(symbol);
        }
        proof {
            assert forall|k: Seq<char>| #[trigger]
                self@.dom().contains(k) <==> before@.insert(name@, symbol).dom().contains(k) by {
                if before.names@.contains(k) {
                    let j = before.names@.index_of(k);
                    assert(self.names@[j] == k);
                }
                if self.names@.contains(k) && k != name@ {
                    let j = self.names@.index_of(k);
                    if j == i {
                        assert(self.names@[i as int] == name@);
                    }
                    assert(before.names@[j] == k);
                }
                if k == name@ {
                    assert(self.names@[i as int] == k);
                }
            }
            assert forall|k: Seq<char>| #[trigger] self@.dom().contains(k) implies self@[k]
                == before@.insert(name@, symbol)[k] by {
                let j = self.names@.index_of(k);
                self.names.lemma_distinct(j, j);
                if k == name@ {
                    assert(self.names@[i as int] == k);
                    self.names.lemma_distinct(j, i as int);
                } else {
                    if j == i {
                        assert(self.names@[i as int] == name@);
                    }
                    assert(before.names@[j] == k);
                    let j0 = before.names@.index_of(k);
                    before.names.lemma_distinct(j, j0);
                }
            }
            assert(self@ =~= before@.insert(name@, symbol));
        }
    }

    /// What `name` is bound to in this table.
    pub fn lookup(&self, name: &str) -> (symbol: Option<Symbol>)
        requires
            self.wf(),
        ensures
            symbol == if self@.dom().contains(name@) {
                Some(self@[name@])
            } else {
                None
            },
    {
        match self.names.get(name) {
            Some(i) => {
                proof {
                    let j = self.names@.index_of(name@);
                    self.names.lemma_distinct(i as int, j);
                }
                Some(self.symbols[i])
            },
            None => None,
        }
    }
}

/// What `name` is bound to in the innermost of `frames` that binds it. The
/// last frame is the innermost.
pub open spec fn innermost(frames: Seq<Map<Seq<char>, Symbol>>, name: Seq<char>) -> Option<Symbol>
    decreases frames.len(),
{
    if frames.len() == 0 {
        None
    } else if frames.last().dom().contains(name) {
        Some(frames.last()[name])
    } else {
        innermost(frames.drop_last(), name)
    }
}

/// A stack of symbol tables, one per open scope.
pub struct StackedSymbolTable {
    frames: Vec<SymbolTable>,
}

impl StackedSymbolTable {
    /// The tables of the open scopes, the outermost first.
    pub closed spec fn view(&self) -> Seq<Map<Seq<char>, Symbol>> {
        Seq::new(self.frames@.len(), |i: int| self.frames@[i]@)
    }

    pub closed spec fn wf(&self) -> bool {
        forall|i: int| 0 <= i < self.frames@.len() ==> (#[trigger] self.frames@[i]).wf()
    }

    /// A stack without scopes.
    pub fn new() -> (stack: StackedSymbolTable)
        ensures
            stack.wf(),
            stack@.len() == 0,
    {
        StackedSymbolTable { frames: Vec::new() }
    }

    /// How many scopes are open.
    pub fn depth(&self) -> (n: usize)
        ensures
            n == self@.len(),
    {
        self.frames.len()
    }

    /// Opens a scope without symbols.
    pub fn push_new(&mut self)
        requires
            old(self).wf(),
        ensures
            final(self).wf(),
            final(self)@ == old(self)@.push(Map::<Seq<char>, Symbol>::empty()),
    {
        self.frames.push(SymbolTable::new());
        assert(self@ =~= old(self)@.push(Map::<Seq<char>, Symbol>::empty()));
    }

    /// Closes the innermost scope, if one is open.
    pub fn pop(&mut self)
        requires
            old(self).wf(),
        ensures
            final(self).wf(),
            old(self)@.len() > 0 ==> final(self)@ == old(self)@.drop_last(),
            old(self)@.len() == 0 ==> final(self)@ == old(self)@,
    {
        let last = self.frames.pop();
        proof {
            if old(self)@.len() > 0 {
                assert(self@ =~= old(self)@.drop_last());
            } else {
                assert(self@ =~= old(self)@);
            }
        }
    }

    /// Binds `name` to `symbol` in the innermost scope.
    pub fn insert(&mut self, name: &str, symbol: Symbol)
        requires
            old(self).wf(),
            old(self)@.len() > 0,
        ensures
            final(self).wf(),
            final(self)@ == old(self)@.update(
                old(self)@.len() - 1,
                old(self)@.last().insert(name@, symbol),
            ),
    {
        let mut top = self.frames.pop().unwrap();
        top.insert(name, symbol);
        self.frames.push(top);
        assert(self@ =~= old(self)@.update(
            old(self)@.len() - 1,
            old(self)@.last().insert(name@, symbol),
        ));
    }

    /// What `name` is bound to in the innermost scope that binds it.
    pub fn lookup(&self, name: &str) -> (symbol: Option<Symbol>)
        requires
            self.wf(),
        ensures
            symbol == innermost(self@, name@),
    {
        let mut i = self.frames.len();
        proof {
            assert(self@.take(i as int) =~= self@);
        }
        while i > 0
            invariant
                i <= self.frames.len(),
                self.wf(),
                innermost(self@, name@) == innermost(self@.take(i as int), name@),
            decreases i,
        {
            i -= 1;
            proof {
                assert(self@.take(i + 1).drop_last() =~= self@.take(i as int));
                assert(self@.take(i + 1).last() == self.frames@[i as int]@);
            }
            match self.frames[i].lookup(name) {
                Some(symbol) => {
                    return Some(symbol);
                },
                None => {},
            }
        }
        None
    }
}

} // verus!
