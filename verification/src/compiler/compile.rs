//! The compiler: takes parsed sources and produces compiled rules.

use crate::compiler::context::Context;
use crate::compiler::errors::{
    notices, CompileError, Error, Expected, Notice, Rejection, Warning,
};
use crate::compiler::ids::{IdentId, PatternId, RuleId};
use crate::compiler::model::{
    bind, id_of, import_step, imports_from, intern, intern_all, module_names_of,
    module_symbol, names_of, namespace_step, namespaces_from, namespaces_size, pattern_pairs,
    root_names, root_values, rule_names, rule_step, rule_symbol, rules_from, rules_size, unused,
    Model,
};
use crate::compiler::rules::{rule_models, Pattern, Rule, Rules};
use crate::compiler::search::{
    duplicate_rule, duplicate_string, duplicate_tag, find_duplicate, find_import, find_rule,
};
use crate::compiler::semcheck::{
    check_type, semcheck, warn_if_not_bool, Env,
};
use crate::modules::{Builtin, ModuleRegistry};
use crate::compiler::laws::{lemma_error_within_source, lemma_every_rule_compiled};
use crate::compiler::model::count_rules;
use crate::parser::ast::{namespace_within, Expr, Ident, Import, Namespace, SourceFile};
use crate::parser::failure::Flaw;
use crate::parser::source::{parse, parsed};
use crate::string_pool::{BStringPool, StringPool};
use crate::symbols::{Symbol, SymbolKind};
use crate::types::{Struct, Type, TypeValue};
use vstd::prelude::*;

verus! {

/// Two stacks of scopes differ in the innermost scope at most.
pub open spec fn same_outer(
    a: Seq<Map<Seq<char>, Symbol>>,
    b: Seq<Map<Seq<char>, Symbol>>,
) -> bool {
    a.len() == b.len() && a.drop_last() =~= b.drop_last()
}

/// Takes YARA sources and produces compiled [`Rules`].
pub struct Compiler<'a> {
    /// The modules that rules can import.
    pub registry: &'a ModuleRegistry,
    /// Whether error reports are to be drawn in colour.
    pub colorize: bool,
    /// The symbols in scope, the warnings raised, the loop variables in use.
    pub ctx: Context,
    /// Pool with the identifiers used in the rules, each once.
    pub ident_pool: StringPool,
    /// Pool with the literal strings found in the sources, each once.
    pub lit_pool: BStringPool,
    /// The rules that have been compiled. A rule's number is its index.
    pub rules: Vec<Rule>,
    /// The patterns of all the rules. A pattern's number is its index.
    pub patterns: Vec<Pattern>,
    /// The identifiers of the imported modules, one for each import.
    pub imported_modules: Vec<IdentId>,
    /// Structure with one field for each imported module, whose value is
    /// the structure that describes the module.
    pub modules_struct: Struct,
    /// The namespaces that were compiled, in their order: the program that
    /// a scan runs.
    pub program: Vec<Namespace>,
}

/// The scope of the built-in functions: each of the first `n` is bound
/// under its name to its function. Of two with one name the later one is
/// bound.
pub open spec fn builtin_scope(builtins: Seq<Builtin>, n: int) -> Map<Seq<char>, Symbol>
    decreases n,
{
    if n <= 0 || n > builtins.len() {
        Map::empty()
    } else {
        builtin_scope(builtins, n - 1).insert(
            builtins[n - 1].name@,
            Symbol { ty: Type::Func, kind: SymbolKind::Func(builtins[n - 1].func) },
        )
    }
}

/// The number of the first pattern, at or after position `i`, whose
/// identifier is `ident`.
pub open spec fn names_pattern(
    pool: Seq<Seq<char>>,
    patterns: Seq<(IdentId, PatternId)>,
    ident: Seq<char>,
    i: int,
) -> Option<PatternId>
    decreases patterns.len() - i,
{
    if i < 0 || i >= patterns.len() {
        None
    } else if patterns[i].0.0 < pool.len() && pool[patterns[i].0.0 as int] == ident {
        Some(patterns[i].1)
    } else {
        names_pattern(pool, patterns, ident, i + 1)
    }
}

impl<'a> Compiler<'a> {
    /// The compiler's state as plain values.
    pub open spec fn model(&self) -> Model {
        Model {
            idents: self.ident_pool@,
            rules: rule_models(self.rules@),
            num_patterns: self.patterns@.len(),
            imports: self.imported_modules@,
            root: Seq::new(
                self.modules_struct.fields().len(),
                |i: int|
                    (self.modules_struct.fields()[i].name@, self.modules_struct.fields()[i].type_value),
            ),
            frames: self.ctx.symbol_table@,
            warnings: notices(self.ctx.warnings@),
        }
    }

    /// The parts of the compiler are well formed, and no loop variable is
    /// in use.
    pub open spec fn wf(&self) -> bool {
        &&& self.registry.wf()
        &&& self.ctx.wf()
        &&& self.ctx.vars_stack_top == 0
        &&& self.ident_pool.wf()
        &&& self.lit_pool.wf()
        &&& self.modules_struct.wf()
        &&& forall|i: int|
            0 <= i < self.imported_modules@.len() ==> (#[trigger] self.imported_modules@[i]).0
                < self.ident_pool@.len()
    }

    /// `n` more identifiers, rules, patterns and modules can be numbered
    /// with 32 bits.
    pub open spec fn fits(&self, n: int) -> bool {
        &&& self.ident_pool@.len() + n < i32::MAX
        &&& self.rules@.len() + n < i32::MAX
        &&& self.patterns@.len() + n < i32::MAX
        &&& self.modules_struct.fields().len() + n < i32::MAX
    }

    /// The program holds the condition of every compiled rule: it declares
    /// as many rules as were compiled.
    pub open spec fn runs_all(&self) -> bool {
        count_rules(self.program@, 0) == self.rules@.len()
    }

    /// `self` is `before` with at most `n` more identifiers, rules,
    /// patterns and modules, and the same registry and program.
    pub open spec fn grown_by(&self, before: &Compiler<'a>, n: int) -> bool {
        &&& self.extended_by(before, n)
        &&& self.program == before.program
    }

    /// `self` is `before` with at most `n` more identifiers, rules,
    /// patterns and modules, and the same registry.
    pub open spec fn extended_by(&self, before: &Compiler<'a>, n: int) -> bool {
        &&& self.registry == before.registry
        &&& self.colorize == before.colorize
        &&& self.lit_pool == before.lit_pool
        &&& self.ident_pool@.len() <= before.ident_pool@.len() + n
        &&& self.rules@.len() <= before.rules@.len() + n
        &&& self.patterns@.len() <= before.patterns@.len() + n
        &&& self.modules_struct.fields().len() <= before.modules_struct.fields().len() + n
    }

    /// Resolves the import with number `k` of a namespace.
    pub fn import_module(&mut self, imports: &Vec<Import>, k: usize) -> (r: Result<(), Error>)
        requires
            old(self).wf(),
            old(self).fits(1),
            old(self).ctx.symbol_table@.len() > 0,
            k < imports@.len(),
        ensures
            final(self).ctx.symbol_table.wf(),
            same_outer(final(self).ctx.symbol_table@, old(self).ctx.symbol_table@),
            match r {
                Ok(_) => final(self).wf() && final(self).grown_by(old(self), 1) && import_step(
                    old(self).model(),
                    old(self).registry.modules(),
                    imports@,
                    k as int,
                ) == Ok::<Model, Rejection>(final(self).model()),
                Err(e) => import_step(
                    old(self).model(),
                    old(self).registry.modules(),
                    imports@,
                    k as int,
                ) == Err::<Model, Rejection>(e@),
            },
    {
        let import = &imports[k];
        let name = import.module_name.as_str();
        let ghost before = *self;
        let ghost m = self.model();
        let ghost modules = self.registry.modules();
        proof {
            assert(module_names_of(modules) =~= self.registry.names());
        }
        let position = match self.registry.position(name) {
            Some(position) => position,
            None => {
                return Err(
                    Error::CompileError(
                        CompileError::UnknownModule {
                            name: import.module_name.clone(),
                            span: import.span,
                        },
                    ),
                );
            },
        };
        proof {
            let p = module_names_of(modules).index_of(name@);
            assert(module_names_of(modules)[position as int] == name@);
            self.registry.lemma_wf(p, position as int);
        }
        match find_import(imports, name, k) {
            Some(j) => {
                self.ctx.warnings.push(
                    Warning::DuplicateImport {
                        module: import.module_name.clone(),
                        new_span: import.span,
                        existing_span: imports[j].span,
                    },
                );
                proof {
                    assert(self.model().warnings =~= m.warnings.push(
                        Notice::DuplicateImport {
                            module: name@,
                            new_span: import.span,
                            existing_span: imports@[j as int].span,
                        },
                    ));
                    assert(self.model().root =~= m.root);
                }
                return Ok(());
            },
            None => {},
        }
        let root_struct = self.registry.module_at(position).root_struct;
        let id = self.ident_pool.get_or_intern(name);
        self.imported_modules.push(id);
        let at = self.modules_struct.add_field(name, TypeValue::Struct(root_struct));
        self.ctx.symbol_table.insert(
            name,
            Symbol { ty: Type::Struct, kind: SymbolKind::FieldIndex(at as i32) },
        );
        proof {
            let pool = intern(m.idents, name@);
            assert(self.ident_pool@ == pool);
            self.ident_pool.lemma_interning(id, id_of(pool, name@));
            assert(id == id_of(pool, name@));
            let known = root_names(m.root).contains(name@);
            assert(root_names(m.root) =~= before.modules_struct.field_names());
            if known {
                let j = root_names(m.root).index_of(name@);
                if j != at {
                    assert(self.modules_struct.fields()[j] == before.modules_struct.fields()[j]);
                    self.modules_struct.lemma_names_distinct(j, at as int);
                }
                assert(self.model().root =~= m.root.update(
                    at as int,
                    (name@, TypeValue::Struct(root_struct)),
                ));
            } else {
                assert(self.model().root =~= m.root.push((name@, TypeValue::Struct(root_struct))));
            }
            assert(self.model().frames == bind(m.frames, name@, module_symbol(at as int)));
            assert(self.model().imports == m.imports.push(id_of(pool, name@)));
            assert(self.model().warnings == m.warnings);
            assert(self.model().rules == m.rules);
        }
        Ok(())
    }

    /// Resolves the imports of a namespace: checks that the modules exist,
    /// warns of modules imported twice, and brings each module into scope.
    pub fn process_imports(&mut self, imports: &Vec<Import>) -> (r: Result<(), Error>)
        requires
            old(self).wf(),
            old(self).fits(imports@.len() as int),
            old(self).ctx.symbol_table@.len() > 0,
        ensures
            final(self).ctx.symbol_table.wf(),
            same_outer(final(self).ctx.symbol_table@, old(self).ctx.symbol_table@),
            match r {
                Ok(_) => final(self).wf() && final(self).grown_by(old(self), imports@.len() as int)
                    && imports_from(old(self).model(), old(self).registry.modules(), imports@, 0)
                    == Ok::<Model, Rejection>(final(self).model()),
                Err(e) => imports_from(
                    old(self).model(),
                    old(self).registry.modules(),
                    imports@,
                    0,
                ) == Err::<Model, Rejection>(e@),
            },
    {
        let ghost before = *self;
        let mut k: usize = 0;
        while k < imports.len()
            invariant
                k <= imports@.len(),
                self.wf(),
                before == *old(self),
                before.fits(imports@.len() as int),
                self.grown_by(&before, k as int),
                self.ctx.symbol_table.wf(),
                same_outer(self.ctx.symbol_table@, before.ctx.symbol_table@),
                before.ctx.symbol_table@.len() > 0,
                imports_from(before.model(), before.registry.modules(), imports@, 0)
                    == imports_from(self.model(), before.registry.modules(), imports@, k as int),
            decreases imports@.len() - k,
        {
            let ghost now = self.model();
            match self.import_module(imports, k) {
                Ok(_) => {},
                Err(e) => {
                    assert(imports_from(now, before.registry.modules(), imports@, k as int)
                        == Err::<Model, Rejection>(e@));
                    return Err(e);
                },
            }
            assert(imports_from(now, before.registry.modules(), imports@, k as int)
                == imports_from(self.model(), before.registry.modules(), imports@, k + 1));
            k += 1;
        }
        Ok(())
    }

    /// Gives each pattern of a rule the next pattern number and interns
    /// its identifier. Returns, for each pattern, the number of the
    /// identifier and the number of the pattern.
    pub fn intern_patterns(&mut self, patterns: &Vec<Ident>) -> (pairs: Vec<(IdentId, PatternId)>)
        requires
            old(self).wf(),
            old(self).fits(patterns@.len() as int),
        ensures
            final(self).wf(),
            final(self).grown_by(old(self), patterns@.len() as int),
            final(self).ctx == old(self).ctx,
            final(self).rules == old(self).rules,
            final(self).imported_modules == old(self).imported_modules,
            final(self).modules_struct == old(self).modules_struct,
            final(self).ident_pool@ == intern_all(
                old(self).ident_pool@,
                names_of(patterns@),
                patterns@.len() as int,
            ),
            final(self).patterns@.len() == old(self).patterns@.len() + patterns@.len(),
            pairs@.len() == patterns@.len(),
            forall|i: int|
                0 <= i < pairs@.len() ==> (#[trigger] pairs@[i]).1 == old(self).patterns@.len() + i
                    && pairs@[i].0.0 < final(self).ident_pool@.len()
                    && final(self).ident_pool@[pairs@[i].0.0 as int] == patterns@[i].name@,
    {
        let ghost before = *self;
        let ghost names = names_of(patterns@);
        let mut pairs: Vec<(IdentId, PatternId)> = Vec::new();
        let mut i: usize = 0;
        while i < patterns.len()
            invariant
                i <= patterns@.len(),
                before == *old(self),
                names == names_of(patterns@),
                self.wf(),
                before.fits(patterns@.len() as int),
                self.grown_by(&before, i as int),
                self.ctx == before.ctx,
                self.rules == before.rules,
                self.imported_modules == before.imported_modules,
                self.modules_struct == before.modules_struct,
                self.ident_pool@ == intern_all(before.ident_pool@, names, i as int),
                self.patterns@.len() == before.patterns@.len() + i,
                pairs@.len() == i,
                forall|j: int|
                    0 <= j < i ==> (#[trigger] pairs@[j]).1 == before.patterns@.len() + j
                        && pairs@[j].0.0 < self.ident_pool@.len()
                        && self.ident_pool@[pairs@[j].0.0 as int] == patterns@[j].name@,
            decreases patterns@.len() - i,
        {
            let ghost pool = self.ident_pool@;
            let ident_id = self.ident_pool.get_or_intern(patterns[i].name.as_str());
            // The pattern's number is its index among all patterns.
            let pattern_id = self.patterns.len() as PatternId;
            self.patterns.push(Pattern {  });
            pairs.push((ident_id, pattern_id));
            proof {
                assert(names[i as int] == patterns@[i as int].name@);
                assert(self.ident_pool@ == intern(pool, names[i as int]));
                assert forall|j: int| 0 <= j < i + 1 implies (#[trigger] pairs@[j]).1
                    == before.patterns@.len() + j && pairs@[j].0.0 < self.ident_pool@.len()
                    && self.ident_pool@[pairs@[j].0.0 as int] == patterns@[j].name@ by {
                    if j < i {
                        assert(pool[pairs@[j].0.0 as int] == patterns@[j].name@);
                    }
                }
            }
            i += 1;
        }
        pairs
    }

    /// Warns of each pattern of a rule that the condition does not refer
    /// to.
    pub fn warn_unused(&mut self, patterns: &Vec<Ident>, condition: &Expr)
        ensures
            final(self).registry == old(self).registry,
            final(self).colorize == old(self).colorize,
            final(self).ident_pool == old(self).ident_pool,
            final(self).lit_pool == old(self).lit_pool,
            final(self).rules == old(self).rules,
            final(self).patterns == old(self).patterns,
            final(self).imported_modules == old(self).imported_modules,
            final(self).modules_struct == old(self).modules_struct,
            final(self).program == old(self).program,
            final(self).ctx.symbol_table == old(self).ctx.symbol_table,
            final(self).ctx.vars_stack_top == old(self).ctx.vars_stack_top,
            notices(final(self).ctx.warnings@) == notices(old(self).ctx.warnings@) + unused(
                patterns@,
                *condition,
                0,
            ),
    {
        let ghost w0 = notices(self.ctx.warnings@);
        let ghost done: Seq<Notice> = Seq::empty();
        let mut i: usize = 0;
        proof {
            assert(w0 + done =~= w0);
        }
        while i < patterns.len()
            invariant
                i <= patterns@.len(),
                w0 == notices(old(self).ctx.warnings@),
                self.registry == old(self).registry,
                self.colorize == old(self).colorize,
                self.ident_pool == old(self).ident_pool,
                self.lit_pool == old(self).lit_pool,
                self.rules == old(self).rules,
                self.patterns == old(self).patterns,
                self.imported_modules == old(self).imported_modules,
                self.modules_struct == old(self).modules_struct,
                self.program == old(self).program,
                self.ctx.symbol_table == old(self).ctx.symbol_table,
                self.ctx.vars_stack_top == old(self).ctx.vars_stack_top,
                notices(self.ctx.warnings@) == w0 + done,
                done + unused(patterns@, *condition, i as int) == unused(patterns@, *condition, 0),
            decreases patterns@.len() - i,
        {
            let ghost rest = unused(patterns@, *condition, i + 1);
            let ghost shown = self.ctx.warnings@;
            if !condition.refers_to(patterns[i].name.as_str()) {
                self.ctx.warnings.push(
                    Warning::UnusedString {
                        ident: patterns[i].name.clone(),
                        span: patterns[i].span,
                    },
                );
                proof {
                    let notice = Notice::UnusedString {
                        ident: patterns@[i as int].name@,
                        span: patterns@[i as int].span,
                    };
                    assert(self.ctx.warnings@.last()@ == notice);
                    assert(notices(self.ctx.warnings@) =~= notices(shown).push(notice));
                    assert(notices(self.ctx.warnings@) =~= w0 + done.push(notice));
                    assert(done.push(notice) + rest =~= done + (seq![notice] + rest));
                    done = done.push(notice);
                }
            }
            i += 1;
        }
        proof {
            assert(done + Seq::<Notice>::empty() =~= done);
        }
    }

    /// Finds what a rule declares twice: its own name, if an earlier rule
    /// of the namespace has it, or else a tag, or else a pattern.
    pub fn check_declarations(rules: &Vec<crate::parser::ast::Rule>, k: usize) -> (r: Result<
        (),
        Error,
    >)
        requires
            k < rules@.len(),
        ensures
            match r {
                Ok(_) => {
                    &&& crate::compiler::model::first_at(
                        rule_names(rules@),
                        rules@[k as int].identifier.name@,
                        0,
                        k as int,
                    ) is None
                    &&& crate::compiler::model::first_duplicate(
                        names_of(rules@[k as int].tags@),
                        0,
                    ) is None
                    &&& crate::compiler::model::first_duplicate(
                        names_of(rules@[k as int].patterns@),
                        0,
                    ) is None
                },
                Err(e) => forall|m: Model, heap: crate::types::Heap| #[trigger]
                    rule_step(m, heap, rules@, k as int) == Err::<Model, Rejection>(e@),
            },
    {
        let rule = &rules[k];
        match find_rule(rules, rule.identifier.name.as_str(), k) {
            Some(j) => {
                return Err(
                    Error::ParseError(
                        duplicate_rule(
                            rule.identifier.name.as_str(),
                            rule.identifier.span,
                            rules[j].identifier.span,
                        ),
                    ),
                );
            },
            None => {},
        }
        match find_duplicate(&rule.tags) {
            Some((i, j)) => {
                return Err(
                    Error::ParseError(
                        duplicate_tag(rule.tags[j].name.as_str(), rule.tags[j].span, rule.tags[i].span),
                    ),
                );
            },
            None => {},
        }
        match find_duplicate(&rule.patterns) {
            Some((i, j)) => {
                return Err(
                    Error::ParseError(
                        duplicate_string(
                            rule.patterns[j].name.as_str(),
                            rule.patterns[j].span,
                            rule.patterns[i].span,
                        ),
                    ),
                );
            },
            None => {},
        }
        Ok(())
    }

    /// Compiles the rule with number `k` of a namespace: gives the rule and
    /// its patterns their numbers, brings the rule's name into scope, checks
    /// the condition, and raises the warnings.
    pub fn process_rule(&mut self, rules: &Vec<crate::parser::ast::Rule>, k: usize) -> (r: Result<
        (),
        Error,
    >)
        requires
            old(self).wf(),
            k < rules@.len(),
            old(self).fits(1 + rules@[k as int].patterns@.len() as int),
            old(self).ctx.symbol_table@.len() > 0,
        ensures
            final(self).ctx.symbol_table.wf(),
            same_outer(final(self).ctx.symbol_table@, old(self).ctx.symbol_table@),
            match r {
                Ok(_) => final(self).wf() && final(self).grown_by(
                    old(self),
                    1 + rules@[k as int].patterns@.len() as int,
                ) && rule_step(old(self).model(), old(self).registry.heap(), rules@, k as int)
                    == Ok::<Model, Rejection>(final(self).model()),
                Err(e) => rule_step(old(self).model(), old(self).registry.heap(), rules@, k as int)
                    == Err::<Model, Rejection>(e@),
            },
    {
        let ghost before = *self;
        let ghost m = self.model();
        let ghost heap = self.registry.heap();
        match Self::check_declarations(rules, k) {
            Ok(_) => {},
            Err(e) => {
                assert(rule_step(m, heap, rules@, k as int) == Err::<Model, Rejection>(e@));
                return Err(e);
            },
        }
        let rule = &rules[k];
        let ghost names = names_of(rule.patterns@);
        let ghost base = self.patterns@.len() as int;
        let pairs = self.intern_patterns(&rule.patterns);
        let ghost pool1 = self.ident_pool@;
        let ident = self.ident_pool.get_or_intern(rule.identifier.name.as_str());
        let ghost pool = self.ident_pool@;
        let rule_id = self.rules.len() as RuleId;
        proof {
            assert(pool == intern(pool1, rule.identifier.name@));
            self.ident_pool.lemma_interning(ident, id_of(pool, rule.identifier.name@));
            assert forall|i: int| 0 <= i < pairs@.len() implies pairs@[i] == #[trigger] pattern_pairs(
                pool,
                names,
                base,
            )[i] by {
                assert(pool1[pairs@[i].0.0 as int] == names[i]);
                assert(pool[pairs@[i].0.0 as int] == names[i]);
                self.ident_pool.lemma_interning(pairs@[i].0, id_of(pool, names[i]));
            }
            assert(pairs@ =~= pattern_pairs(pool, names, base));
        }
        // The rule's name is in scope while its own condition is checked.
        self.ctx.symbol_table.insert(
            rule.identifier.name.as_str(),
            Symbol { ty: Type::Bool, kind: SymbolKind::Rule(rule_id) },
        );
        let ghost frames = self.ctx.symbol_table@;
        let ghost root = root_values(m.root);
        proof {
            assert(frames == bind(m.frames, rule.identifier.name@, rule_symbol(m.rules.len() as int)));
            assert(self.modules_struct.values() =~= root);
        }
        let env = Env {
            patterns: &rule.patterns,
            modules_struct: &self.modules_struct,
            heap: self.registry.structures(),
        };
        proof {
            self.registry.lemma_heap();
        }
        let ty = match semcheck(&env, &mut self.ctx, &rule.condition) {
            Ok(ty) => ty,
            Err(e) => {
                return Err(Error::CompileError(e));
            },
        };
        match check_type(Expected::Scalar, ty, rule.condition.span) {
            Ok(_) => {},
            Err(e) => {
                return Err(Error::CompileError(e));
            },
        }
        warn_if_not_bool(&mut self.ctx, ty, rule.condition.span);
        let cast = match ty {
            Type::Bool => None,
            _ => Some(ty),
        };
        self.rules.push(Rule { ident, patterns: pairs, cast });
        self.warn_unused(&rule.patterns, &rule.condition);
        proof {
            let expected = rule_step(m, heap, rules@, k as int)->Ok_0;
            assert(self.model().rules =~= expected.rules);
            assert(self.model().root =~= m.root);
            assert(self.model().warnings =~= expected.warnings);
        }
        Ok(())
    }

    /// Compiles a namespace: opens a scope, resolves the imports, compiles
    /// the rules in their order, and closes the scope, also where an import
    /// or a rule fails.
    pub fn add_namespace(&mut self, ns: &Namespace) -> (r: Result<(), Error>)
        requires
            old(self).wf(),
            old(self).fits((ns.imports@.len() + rules_size(ns.rules@, 0)) as int),
        ensures
            final(self).ctx.symbol_table.wf(),
            final(self).ctx.symbol_table@ == old(self).ctx.symbol_table@,
            match r {
                Ok(_) => final(self).wf() && final(self).grown_by(
                    old(self),
                    (ns.imports@.len() + rules_size(ns.rules@, 0)) as int,
                ) && namespace_step(
                    old(self).model(),
                    old(self).registry.modules(),
                    old(self).registry.heap(),
                    *ns,
                ) == Ok::<Model, Rejection>(final(self).model()),
                Err(e) => namespace_step(
                    old(self).model(),
                    old(self).registry.modules(),
                    old(self).registry.heap(),
                    *ns,
                ) == Err::<Model, Rejection>(e@),
            },
    {
        let ghost before = *self;
        let ghost m = self.model();
        let ghost modules = self.registry.modules();
        let ghost heap = self.registry.heap();
        let ghost total = (ns.imports@.len() + rules_size(ns.rules@, 0)) as int;
        self.ctx.symbol_table.push_new();
        let ghost opened = self.model();
        proof {
            assert(opened == Model { frames: m.frames.push(Map::<Seq<char>, Symbol>::empty()), ..m });
            assert(opened.frames.drop_last() =~= m.frames);
        }
        match self.process_imports(&ns.imports) {
            Ok(_) => {},
            Err(e) => {
                self.ctx.symbol_table.pop();
                return Err(e);
            },
        }
        let ghost imported = self.model();
        let mut k: usize = 0;
        while k < ns.rules.len()
            invariant
                k <= ns.rules@.len(),
                before == *old(self),
                m == before.model(),
                modules == before.registry.modules(),
                heap == before.registry.heap(),
                total == ns.imports@.len() + rules_size(ns.rules@, 0),
                before.fits(total),
                self.wf(),
                self.grown_by(&before, total - rules_size(ns.rules@, k as int)),
                self.ctx.symbol_table@.len() > 0,
                same_outer(self.ctx.symbol_table@, opened.frames),
                opened.frames.drop_last() == m.frames,
                rules_from(imported, heap, ns.rules@, 0) == rules_from(
                    self.model(),
                    heap,
                    ns.rules@,
                    k as int,
                ),
                namespace_step(m, modules, heap, *ns) == match rules_from(
                    imported,
                    heap,
                    ns.rules@,
                    0,
                ) {
                    Err(r) => Err::<Model, Rejection>(r),
                    Ok(done) => Ok::<Model, Rejection>(Model { frames: m.frames, ..done }),
                },
            decreases ns.rules@.len() - k,
        {
            let ghost now = self.model();
            match self.process_rule(&ns.rules, k) {
                Ok(_) => {},
                Err(e) => {
                    assert(rules_from(now, heap, ns.rules@, k as int) == Err::<Model, Rejection>(
                        e@,
                    ));
                    self.ctx.symbol_table.pop();
                    return Err(e);
                },
            }
            assert(rules_from(now, heap, ns.rules@, k as int) == rules_from(
                self.model(),
                heap,
                ns.rules@,
                k + 1,
            ));
            k += 1;
        }
        let ghost done = self.model();
        self.ctx.symbol_table.pop();
        proof {
            assert(self.model().root =~= done.root);
            assert(self.model() == Model { frames: m.frames, ..done });
        }
        Ok(())
    }

    /// `r` is what compiling the namespaces gives: the compiler with them
    /// added, also to its program, or the first error.
    pub open spec fn compiles_to(
        &self,
        namespaces: Seq<Namespace>,
        r: Result<Compiler<'a>, Error>,
    ) -> bool {
        match r {
            Ok(c) => c.wf() && c.extended_by(self, namespaces_size(namespaces, 0) as int)
                && c.program@ == self.program@ + namespaces && (self.runs_all()
                ==> c.runs_all()) && namespaces_from(
                self.model(),
                self.registry.modules(),
                self.registry.heap(),
                namespaces,
                0,
            ) == Ok::<Model, Rejection>(c.model()),
            Err(e) => namespaces_from(
                self.model(),
                self.registry.modules(),
                self.registry.heap(),
                namespaces,
                0,
            ) == Err::<Model, Rejection>(e@),
        }
    }

    /// Tells whether `n` more identifiers, rules, patterns and modules can
    /// be numbered with 32 bits.
    pub fn has_room(&self, n: usize) -> (b: bool)
        requires
            self.wf(),
        ensures
            b == self.fits(n as int),
    {
        let limit: usize = 0x7fff_ffff;
        n < limit && self.ident_pool.len() < limit - n && self.rules.len() < limit - n
            && self.patterns.len() < limit - n && self.modules_struct.len() < limit - n
    }

    /// Adds a source to be compiled: parses it, and compiles its imports
    /// and rules as one namespace. This function can be called more than
    /// once.
    ///
    /// A source that does not parse gives the error of its first flaw. One
    /// that parses compiles as its tree does. Where it compiles, the
    /// compiler holds one more rule for each rule of the source; where it
    /// does not, the error points into the source.
    pub fn add_source(self, src: &[u8]) -> (r: Result<Self, Error>)
        requires
            self.wf(),
            self.fits(src@.len() as int + 1),
        ensures
            match parsed(src@) {
                Err(f) => r matches Err(Error::ParseError(e)) && e.span() == f.span && match f.flaw {
                    Flaw::InvalidEscapeSequence => e matches crate::parser::errors::Error::InvalidEscapeSequence {
                        error_msg,
                        ..
                    } && error_msg@ == f.flaw.message(),
                    Flaw::InvalidInteger => e matches crate::parser::errors::Error::InvalidInteger {
                        error_msg,
                        ..
                    } && error_msg@ == f.flaw.message(),
                    Flaw::DuplicateModifier(first) => e is DuplicateModifier && e.existing_span()
                        == first,
                    Flaw::InvalidHexString(ident) => e matches crate::parser::errors::Error::InvalidHexString {
                        string_ident,
                        error_msg,
                        ..
                    } && string_ident@ == crate::parser::failure::named_at(src@, ident)
                        && error_msg@ == f.flaw.message(),
                    _ => e matches crate::parser::errors::Error::SyntaxError { error_msg, .. }
                        && error_msg@ == f.flaw.message(),
                },
                Ok(tree) => exists|file: SourceFile|
                    {
                        &&& (#[trigger] file.namespaces@).len() == 1
                        &&& file.namespaces@[0].model() == tree
                        &&& namespace_within(file.namespaces@[0], src@.len())
                        &&& self.compiles_to(file.namespaces@, r)
                    },
            },
            r matches Ok(c) ==> parsed(src@) matches Ok(tree) && c.rules@.len() == self.rules@.len()
                + tree.rules.len() && (self.runs_all() ==> c.runs_all()),
            r matches Err(e) ==> e@.span() matches Some(span) && span.within(src@.len()),
    {
        let ghost m = self.model();
        let ghost modules = self.registry.modules();
        let ghost heap = self.registry.heap();
        let ghost before = self.rules@.len();
        match parse(src) {
            Err(f) => Err(Error::ParseError(f.error(src))),
            Ok(file) => {
                proof {
                    lemma_every_rule_compiled(m, modules, heap, file.namespaces@, 0);
                    lemma_error_within_source(m, modules, heap, file.namespaces@, 0, src@.len());
                    assert(count_rules(file.namespaces@, 1) == 0);
                    assert(count_rules(file.namespaces@, 0) == file.namespaces@[0].rules@.len());
                }
                let ghost parsed_file = file;
                let r = self.add_ast(file);
                proof {
                    assert(parsed_file.namespaces@.len() == 1);
                }
                r
            },
        }
    }

    /// Adds a parsed source to be compiled: its namespaces in their order.
    /// Where they compile, they become part of the program. This function
    /// can be called more than once.
    pub fn add_ast(self, src: SourceFile) -> (r: Result<Self, Error>)
        requires
            self.wf(),
            self.fits(namespaces_size(src.namespaces@, 0) as int),
        ensures
            self.compiles_to(src.namespaces@, r),
    {
        let ghost before = self;
        let ghost added = src.namespaces@;
        let ghost modules = self.registry.modules();
        let ghost heap = self.registry.heap();
        let mut c = self;
        let ghost total = namespaces_size(src.namespaces@, 0) as int;
        let mut k: usize = 0;
        while k < src.namespaces.len()
            invariant
                k <= src.namespaces@.len(),
                modules == before.registry.modules(),
                heap == before.registry.heap(),
                total == namespaces_size(src.namespaces@, 0),
                before.fits(total),
                before == self,
                c.wf(),
                c.grown_by(&before, total - namespaces_size(src.namespaces@, k as int)),
                namespaces_from(before.model(), modules, heap, src.namespaces@, 0)
                    == namespaces_from(c.model(), modules, heap, src.namespaces@, k as int),
            decreases src.namespaces@.len() - k,
        {
            let ghost now = c.model();
            match c.add_namespace(&src.namespaces[k]) {
                Ok(_) => {},
                Err(e) => {
                    assert(namespaces_from(now, modules, heap, src.namespaces@, k as int) == Err::<
                        Model,
                        Rejection,
                    >(e@));
                    return Err(e);
                },
            }
            assert(namespaces_from(now, modules, heap, src.namespaces@, k as int)
                == namespaces_from(c.model(), modules, heap, src.namespaces@, k + 1));
            k += 1;
        }
        proof {
            lemma_every_rule_compiled(before.model(), modules, heap, added, 0);
            crate::compiler::model::lemma_count_rules_joined(before.program@, added, 0);
        }
        let mut src = src;
        c.program.append(&mut src.namespaces);
        Ok(c)
    }

    /// Specifies whether error reports are to be drawn in colour. The
    /// default is `false`.
    pub fn colorize_errors(self, b: bool) -> (c: Self)
        ensures
            c.colorize == b,
            c.registry == self.registry,
            c.ctx == self.ctx,
            c.ident_pool == self.ident_pool,
            c.lit_pool == self.lit_pool,
            c.rules == self.rules,
            c.patterns == self.patterns,
            c.imported_modules == self.imported_modules,
            c.modules_struct == self.modules_struct,
            c.program == self.program,
    {
        let mut c = self;
        c.colorize = b;
        c
    }

    /// The warnings raised so far, in their order.
    pub fn warnings(&self) -> (warnings: &Vec<Warning>)
        ensures
            *warnings == self.ctx.warnings,
    {
        &self.ctx.warnings
    }

    /// Builds the sources previously added to the compiler: consumes the
    /// compiler and returns the compiled rules with its pools and tables,
    /// and with the program that a scan runs.
    pub fn build(self) -> (r: Result<Rules, Error>)
        requires
            self.wf(),
        ensures
            r matches Ok(compiled) && compiled.wf() && compiled.rules_spec() == self.rules@
                && compiled.patterns_spec() == self.patterns@ && compiled.imports_spec()
                == self.imported_modules@ && compiled.idents() == self.ident_pool@
                && compiled.literals() == self.lit_pool@ && compiled.program_spec()
                == self.program@ && (self.runs_all() ==> compiled.runs_all()),
    {
        Ok(
            Rules::new(
                self.ident_pool,
                self.lit_pool,
                self.imported_modules,
                self.rules,
                self.patterns,
                self.program,
            ),
        )
    }

    /// Creates a compiler for rules that import from `registry`. The
    /// built-in functions of the registry, such as `uint8`, are in scope
    /// from the start.
    pub fn new(registry: &'a ModuleRegistry) -> (c: Self)
        requires
            registry.wf(),
        ensures
            c.wf(),
            c.registry == registry,
            !c.colorize,
            c.model() == (Model {
                idents: Seq::empty(),
                rules: Seq::empty(),
                num_patterns: 0,
                imports: Seq::empty(),
                root: Seq::empty(),
                frames: seq![builtin_scope(registry.builtins(), registry.builtins().len() as int)],
                warnings: Seq::empty(),
            }),
            c.lit_pool@.len() == 0,
            c.program@.len() == 0,
            c.runs_all(),
    {
        let mut ctx = Context::new();
        // Symbols for the built-in functions, like `uint8` and `uint16`.
        ctx.symbol_table.push_new();
        let builtins = registry.builtin_functions();
        let mut k: usize = 0;
        proof {
            assert(ctx.symbol_table@ =~= seq![builtin_scope(builtins@, 0)]);
        }
        while k < builtins.len()
            invariant
                k <= builtins@.len(),
                ctx.wf(),
                ctx.vars_stack_top == 0,
                ctx.warnings@.len() == 0,
                ctx.symbol_table@ == seq![builtin_scope(builtins@, k as int)],
            decreases builtins@.len() - k,
        {
            ctx.symbol_table.insert(
                builtins[k].name.as_str(),
                Symbol { ty: Type::Func, kind: SymbolKind::Func(builtins[k].func) },
            );
            proof {
                assert(ctx.symbol_table@ =~= seq![builtin_scope(builtins@, k + 1)]);
            }
            k += 1;
        }
        let c = Compiler {
            registry,
            colorize: false,
            ctx,
            ident_pool: StringPool::new(),
            lit_pool: BStringPool::new(),
            rules: Vec::new(),
            patterns: Vec::new(),
            imported_modules: Vec::new(),
            modules_struct: Struct::new(),
            program: Vec::new(),
        };
        proof {
            assert(c.model().idents =~= Seq::<Seq<char>>::empty());
            assert(c.model().rules =~= Seq::empty());
            assert(c.model().imports =~= Seq::empty());
            assert(c.model().root =~= Seq::empty());
            assert(c.model().warnings =~= Seq::empty());
        }
        c
    }

    /// Given the number of an identifier returns the identifier.
    pub fn resolve_ident(&self, ident_id: IdentId) -> (ident: &str)
        requires
            ident_id.0 < self.ident_pool@.len(),
        ensures
            ident@ == self.ident_pool@[ident_id.0 as int],
    {
        match self.ident_pool.get(ident_id) {
            Some(ident) => ident,
            None => vstd::pervasive::unreached(),
        }
    }

    /// Given a pattern identifier, such as `$a`, searches for it among the
    /// patterns of `rule` and returns the number of the first pattern that
    /// has it.
    pub fn get_pattern_from_current_rule(&self, rule: &Rule, ident: &str) -> (pattern_id: PatternId)
        requires
            names_pattern(self.ident_pool@, rule.patterns@, ident@, 0) is Some,
        ensures
            Some(pattern_id) == names_pattern(self.ident_pool@, rule.patterns@, ident@, 0),
    {
        let mut i: usize = 0;
        while i < rule.patterns.len()
            invariant
                i <= rule.patterns@.len(),
                names_pattern(self.ident_pool@, rule.patterns@, ident@, 0) is Some,
                names_pattern(self.ident_pool@, rule.patterns@, ident@, 0) == names_pattern(
                    self.ident_pool@,
                    rule.patterns@,
                    ident@,
                    i as int,
                ),
            decreases rule.patterns@.len() - i,
        {
            let (ident_id, pattern_id) = rule.patterns[i];
            match self.ident_pool.get(ident_id) {
                Some(name) => {
                    if crate::modules::string_equal(name, ident) {
                        return pattern_id;
                    }
                },
                None => {},
            }
            i += 1;
        }
        vstd::pervasive::unreached()
    }
}

} // verus!
