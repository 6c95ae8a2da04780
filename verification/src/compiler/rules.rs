//! Rule sets in compiled form.

use crate::compiler::ids::{IdentId, LiteralId, PatternId};
use crate::compiler::model::RuleModel;
use crate::parser::ast::{Namespace, SourceFile};
use crate::string_pool::{BStringPool, StringPool};
use crate::types::Type;
use vstd::prelude::*;

verus! {

/// Each of the individual rules of a compiled rule set.
#[derive(Debug)]
pub struct Rule {
    /// The number of the rule's identifier in the pool of identifiers.
    pub ident: IdentId,
    /// For each pattern that the rule declares, the number of its
    /// identifier and the number of the pattern.
    pub patterns: Vec<(IdentId, PatternId)>,
    /// The type from which the result of the condition is cast to a truth
    /// value, where the condition is not boolean.
    pub cast: Option<Type>,
}

impl View for Rule {
    type V = RuleModel;

    open spec fn view(&self) -> RuleModel {
        RuleModel { ident: self.ident, patterns: self.patterns@, cast: self.cast }
    }
}

/// The rules of a list, as plain values.
pub open spec fn rule_models(rules: Seq<Rule>) -> Seq<RuleModel> {
    Seq::new(rules.len(), |i: int| rules[i]@)
}

/// A pattern (also called a string) of a compiled rule set.
#[derive(Debug)]
pub struct Pattern {}

/// A set of YARA rules in compiled form. It owns its pools and is not
/// changed once it is made.
pub struct Rules {
    ident_pool: StringPool,
    lit_pool: BStringPool,
    imported_modules: Vec<IdentId>,
    rules: Vec<Rule>,
    patterns: Vec<Pattern>,
    program: SourceFile,
}

/// Walks over the names of the modules that a rule set imports.
pub struct Imports<'a> {
    ids: &'a Vec<IdentId>,
    ident_pool: &'a StringPool,
    at: usize,
}

impl Rules {
    /// The compiled rules; a rule's number is its position.
    pub closed spec fn rules_spec(&self) -> Seq<Rule> {
        self.rules@
    }

    /// The patterns of all rules; a pattern's number is its position.
    pub closed spec fn patterns_spec(&self) -> Seq<Pattern> {
        self.patterns@
    }

    /// The identifiers of the imported modules, one for each import.
    pub closed spec fn imports_spec(&self) -> Seq<IdentId> {
        self.imported_modules@
    }

    /// The program that a scan runs: the namespaces that were compiled,
    /// with the conditions of their rules, in their order.
    pub closed spec fn program_spec(&self) -> Seq<Namespace> {
        self.program.namespaces@
    }

    /// The program holds the condition of every rule: it declares as many
    /// rules as the rule set has.
    pub closed spec fn runs_all(&self) -> bool {
        crate::compiler::model::count_rules(self.program.namespaces@, 0) == self.rules@.len()
    }

    /// Where the program holds the condition of every rule, it declares as
    /// many rules as the rule set has.
    pub proof fn lemma_runs_all(&self)
        requires
            self.runs_all(),
        ensures
            crate::compiler::model::count_rules(self.program_spec(), 0)
                == self.rules_spec().len(),
    {
    }

    /// The pool of identifiers.
    pub closed spec fn idents(&self) -> Seq<Seq<char>> {
        self.ident_pool@
    }

    /// The pool of literals.
    pub closed spec fn literals(&self) -> Seq<Seq<u8>> {
        self.lit_pool@
    }

    /// The pools are well formed, and every identifier that the rules and
    /// imports name is in the pool of identifiers.
    pub closed spec fn wf(&self) -> bool {
        &&& self.ident_pool.wf()
        &&& self.lit_pool.wf()
        &&& forall|i: int|
            0 <= i < self.imported_modules@.len() ==> (#[trigger] self.imported_modules@[i]).0
                < self.ident_pool@.len()
    }

    /// Puts a rule set together from its parts.
    pub fn new(
        ident_pool: StringPool,
        lit_pool: BStringPool,
        imported_modules: Vec<IdentId>,
        rules: Vec<Rule>,
        patterns: Vec<Pattern>,
        program: Vec<Namespace>,
    ) -> (compiled: Rules)
        requires
            ident_pool.wf(),
            lit_pool.wf(),
            forall|i: int|
                0 <= i < imported_modules@.len() ==> (#[trigger] imported_modules@[i]).0
                    < ident_pool@.len(),
        ensures
            compiled.wf(),
            compiled.rules_spec() == rules@,
            compiled.patterns_spec() == patterns@,
            compiled.imports_spec() == imported_modules@,
            compiled.idents() == ident_pool@,
            compiled.literals() == lit_pool@,
            compiled.program_spec() == program@,
            crate::compiler::model::count_rules(program@, 0) == rules@.len()
                ==> compiled.runs_all(),
    {
        Rules {
            ident_pool,
            lit_pool,
            imported_modules,
            rules,
            patterns,
            program: SourceFile { namespaces: program },
        }
    }

    /// The program that a scan runs.
    pub fn program(&self) -> (src: &SourceFile)
        ensures
            src.namespaces@ == self.program_spec(),
    {
        &self.program
    }

    /// Returns a slice with the individual rules that were compiled.
    pub fn rules(&self) -> (rules: &[Rule])
        ensures
            rules@ == self.rules_spec(),
    {
        self.rules.as_slice()
    }

    /// Returns a slice with the individual patterns that were compiled.
    pub fn patterns(&self) -> (patterns: &[Pattern])
        ensures
            patterns@ == self.patterns_spec(),
    {
        self.patterns.as_slice()
    }

    /// Starts a walk over the names of the modules that the rules import.
    pub fn imports(&self) -> (imports: Imports<'_>)
        requires
            self.wf(),
        ensures
            imports.wf(),
            imports.remaining() == Seq::new(
                self.imports_spec().len(),
                |i: int| self.idents()[self.imports_spec()[i].0 as int],
            ),
    {
        let imports = Imports { ids: &self.imported_modules, ident_pool: &self.ident_pool, at: 0 };
        assert(imports.remaining() =~= Seq::new(
            self.imports_spec().len(),
            |i: int| self.idents()[self.imports_spec()[i].0 as int],
        ));
        imports
    }

    /// The pool of literals.
    pub fn lit_pool(&self) -> (pool: &BStringPool)
        ensures
            pool@ == self.literals(),
            self.wf() ==> pool.wf(),
    {
        &self.lit_pool
    }

    /// The pool of identifiers.
    pub fn ident_pool(&self) -> (pool: &StringPool)
        ensures
            pool@ == self.idents(),
            self.wf() ==> pool.wf(),
    {
        &self.ident_pool
    }

    /// The literal with the given number.
    pub fn literal(&self, id: LiteralId) -> (s: Option<&[u8]>)
        ensures
            match s {
                Some(s) => id.0 < self.literals().len() && s@ == self.literals()[id.0 as int],
                None => id.0 >= self.literals().len(),
            },
    {
        self.lit_pool.get(id)
    }
}

impl<'a> Imports<'a> {
    /// The names that the walk has not passed yet.
    pub closed spec fn remaining(&self) -> Seq<Seq<char>> {
        Seq::new(
            (self.ids@.len() - self.at) as nat,
            |i: int| self.ident_pool@[self.ids@[self.at + i].0 as int],
        )
    }

    pub closed spec fn wf(&self) -> bool {
        &&& self.at <= self.ids@.len()
        &&& forall|i: int| 0 <= i < self.ids@.len() ==> (#[trigger] self.ids@[i]).0
            < self.ident_pool@.len()
    }

    /// The next name, or `None` at the end.
    pub fn next(&mut self) -> (name: Option<&'a str>)
        requires
            old(self).wf(),
        ensures
            final(self).wf(),
            match name {
                Some(name) => old(self).remaining().len() > 0 && name@ == old(self).remaining()[0]
                    && final(self).remaining() == old(self).remaining().drop_first(),
                None => old(self).remaining().len() == 0 && final(self).remaining() == old(
                    self,
                ).remaining(),
            },
    {
        if self.at < self.ids.len() {
            let id = self.ids[self.at];
            self.at = self.at + 1;
            let name = self.ident_pool.get(id);
            proof {
                assert(final(self).remaining() =~= old(self).remaining().drop_first());
            }
            name
        } else {
            None
        }
    }
}

} // verus!
