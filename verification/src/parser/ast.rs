//! The syntax tree of a rule set. Every node knows its span in the source.

use crate::parser::span::Span;
use vstd::prelude::*;

verus! {

/// An identifier with the place where it stands.
#[derive(Debug)]
pub struct Ident {
    pub name: String,
    pub span: Span,
}

/// An `import` statement.
#[derive(Debug)]
pub struct Import {
    pub module_name: String,
    pub span: Span,
}

/// How many of a set of patterns must match.
#[derive(Clone, Copy, Debug, PartialEq, Eq, Structural)]
pub enum Quantifier {
    Any,
    All,
    /// A fixed number of them.
    Count(i64),
    /// A share of them, in percent.
    Percent(i64),
}

/// The patterns that an `of` expression speaks of.
#[derive(Debug)]
pub enum PatternSet {
    /// All patterns of the rule.
    Them,
    /// The patterns named.
    Named(Vec<Ident>),
}

/// The operators that compare two values: numbers or strings by their
/// order, strings by what they hold.
#[derive(Clone, Copy, Debug, PartialEq, Eq, Structural)]
pub enum Comparison {
    Eq,
    Ne,
    Lt,
    Le,
    Gt,
    Ge,
    Contains,
    StartsWith,
    EndsWith,
    /// As `==`, `contains`, `startswith` and `endswith`, but without regard
    /// to the case of ASCII letters.
    IEquals,
    IContains,
    IStartsWith,
    IEndsWith,
}

impl Comparison {
    /// The operator takes strings only.
    pub open spec fn on_strings(self) -> bool {
        !(self is Eq || self is Ne || self is Lt || self is Le || self is Gt || self is Ge)
    }

    /// Tells whether the operator takes strings only.
    pub fn takes_strings(&self) -> (b: bool)
        ensures
            b == self.on_strings(),
    {
        match self {
            Comparison::Eq
            | Comparison::Ne
            | Comparison::Lt
            | Comparison::Le
            | Comparison::Gt
            | Comparison::Ge => false,
            _ => true,
        }
    }
}

/// The operators of arithmetic, on numbers and on the bits of integers.
#[derive(Clone, Copy, Debug, PartialEq, Eq, Structural)]
pub enum Arithmetic {
    Add,
    Sub,
    Mul,
    Div,
    Mod,
    BitAnd,
    BitOr,
    BitXor,
    Shl,
    Shr,
}

impl Arithmetic {
    /// The operator takes integers only.
    pub open spec fn on_bits(self) -> bool {
        self is BitAnd || self is BitOr || self is BitXor || self is Shl || self is Shr
    }

    /// Tells whether the operator takes integers only.
    pub fn takes_bits(&self) -> (b: bool)
        ensures
            b == self.on_bits(),
    {
        match self {
            Arithmetic::BitAnd
            | Arithmetic::BitOr
            | Arithmetic::BitXor
            | Arithmetic::Shl
            | Arithmetic::Shr => true,
            _ => false,
        }
    }
}

/// An expression of a rule's condition.
#[derive(Debug)]
pub struct Expr {
    pub kind: ExprKind,
    pub span: Span,
}

/// The forms of an expression.
#[derive(Debug)]
pub enum ExprKind {
    True,
    False,
    Filesize,
    /// An integer literal.
    LiteralInt(i64),
    /// A float literal, as the bits of its IEEE-754 double.
    LiteralFloat(u64),
    /// A string literal, as its bytes.
    LiteralStr(Vec<u8>),
    /// A pattern identifier, such as `$a`: true where the pattern matches.
    PatternMatch(String),
    /// `$a at <offset>`: true where the pattern matches at the offset.
    PatternAt(String, Box<Expr>),
    /// `$a in (<lower>..<upper>)`: true where the pattern matches at an
    /// offset between the bounds.
    PatternIn(String, Box<Expr>, Box<Expr>),
    /// `<quantifier> of <patterns>`.
    Of(Quantifier, PatternSet),
    /// An identifier, or a chain of field accesses `a.b.c`, as the
    /// identifiers from left to right.
    FieldAccess(Vec<Ident>),
    Not(Box<Expr>),
    And(Box<Expr>, Box<Expr>),
    Or(Box<Expr>, Box<Expr>),
    Compare(Comparison, Box<Expr>, Box<Expr>),
    Arith(Arithmetic, Box<Expr>, Box<Expr>),
    /// `for any <var> in (<lower>..<upper>) : (<condition>)`.
    ForIn { var: Ident, lower: Box<Expr>, upper: Box<Expr>, condition: Box<Expr> },
    /// A call of a function: `<callee>(<args>)`.
    Call { callee: Ident, args: Vec<Expr> },
}

/// The modifiers of a rule.
#[derive(Clone, Copy, Debug, PartialEq, Eq, Structural)]
pub struct RuleModifiers {
    pub private: bool,
    pub global: bool,
}

/// The value of a definition of metadata.
#[derive(Debug)]
pub enum MetaValue {
    /// A string, as its bytes.
    Str(Vec<u8>),
    Int(i64),
    Bool(bool),
}

/// A definition of metadata: an identifier and its value.
#[derive(Debug)]
pub struct Meta {
    pub identifier: Ident,
    pub value: MetaValue,
}

/// The modifiers of a pattern.
#[derive(Clone, Copy, Debug, PartialEq, Eq, Structural)]
pub struct PatternModifiers {
    pub ascii: bool,
    pub wide: bool,
    pub nocase: bool,
    pub fullword: bool,
    pub private: bool,
    pub xor: bool,
    pub base64: bool,
    pub base64wide: bool,
}

/// What a pattern looks for.
#[derive(Debug)]
pub enum PatternBody {
    /// The bytes of a string.
    Text(Vec<u8>),
    /// A hex pattern, as it is written between its braces.
    Hex(Vec<u8>),
    /// A regular expression, as it is written between its slashes, and its
    /// flags.
    Regexp { source: Vec<u8>, case_insensitive: bool, dot_matches_new_line: bool },
}

/// What a pattern looks for, and how.
#[derive(Debug)]
pub struct PatternDef {
    pub body: PatternBody,
    pub modifiers: PatternModifiers,
}

/// A rule as written.
#[derive(Debug)]
pub struct Rule {
    pub modifiers: RuleModifiers,
    pub identifier: Ident,
    pub tags: Vec<Ident>,
    /// The definitions of metadata, in the order of declaration.
    pub meta: Vec<Meta>,
    /// The identifiers of the rule's patterns, in the order of declaration.
    pub patterns: Vec<Ident>,
    /// What each pattern looks for: one definition for each identifier of
    /// `patterns`, in the same order.
    pub definitions: Vec<PatternDef>,
    pub condition: Expr,
}

/// The imports and rules that share one scope of rule names.
#[derive(Debug)]
pub struct Namespace {
    pub imports: Vec<Import>,
    pub rules: Vec<Rule>,
}

/// A parsed source.
#[derive(Debug)]
pub struct SourceFile {
    pub namespaces: Vec<Namespace>,
}

/// What an identifier is: its name, and where it stands.
pub struct Name {
    pub name: Seq<char>,
    pub span: Span,
}

/// What an `of` expression speaks of.
pub enum Patterns {
    Them,
    Named(Seq<Name>),
}

/// What an expression is: its form, with what its parts are.
pub enum Tree {
    True,
    False,
    Filesize,
    LiteralInt(i64),
    LiteralFloat(u64),
    LiteralStr(Seq<u8>),
    PatternMatch(Seq<char>),
    PatternAt(Seq<char>, Box<Node>),
    PatternIn(Seq<char>, Box<Node>, Box<Node>),
    Of(Quantifier, Patterns),
    FieldAccess(Seq<Name>),
    Not(Box<Node>),
    And(Box<Node>, Box<Node>),
    Or(Box<Node>, Box<Node>),
    Compare(Comparison, Box<Node>, Box<Node>),
    Arith(Arithmetic, Box<Node>, Box<Node>),
    ForIn { var: Name, lower: Box<Node>, upper: Box<Node>, condition: Box<Node> },
    Call { callee: Name, args: Seq<Node> },
}

/// What an expression is, and where it stands.
pub struct Node {
    pub kind: Tree,
    pub span: Span,
}

/// What the value of a definition of metadata is.
pub enum MetaValueTree {
    Str(Seq<u8>),
    Int(i64),
    Bool(bool),
}

/// What a definition of metadata is.
pub struct MetaTree {
    pub identifier: Name,
    pub value: MetaValueTree,
}

/// What a pattern looks for.
pub enum BodyTree {
    Text(Seq<u8>),
    Hex(Seq<u8>),
    Regexp { source: Seq<u8>, case_insensitive: bool, dot_matches_new_line: bool },
}

/// What a pattern looks for, and how.
pub struct DefTree {
    pub body: BodyTree,
    pub modifiers: PatternModifiers,
}

/// What a rule is.
pub struct RuleTree {
    pub modifiers: RuleModifiers,
    pub identifier: Name,
    pub tags: Seq<Name>,
    pub meta: Seq<MetaTree>,
    pub patterns: Seq<Name>,
    pub definitions: Seq<DefTree>,
    pub condition: Node,
}

/// What an import is.
pub struct ImportTree {
    pub module_name: Seq<char>,
    pub span: Span,
}

/// What a source is: its imports and its rules, each in their order.
pub struct FileTree {
    pub imports: Seq<ImportTree>,
    pub rules: Seq<RuleTree>,
}

impl Ident {
    pub open spec fn model(self) -> Name {
        Name { name: self.name@, span: self.span }
    }
}

/// What identifiers are, one for one.
pub open spec fn names(idents: Seq<Ident>) -> Seq<Name> {
    Seq::new(idents.len(), |i: int| idents[i].model())
}

impl PatternSet {
    pub open spec fn model(self) -> Patterns {
        match self {
            PatternSet::Them => Patterns::Them,
            PatternSet::Named(idents) => Patterns::Named(names(idents@)),
        }
    }
}

impl Import {
    pub open spec fn model(self) -> ImportTree {
        ImportTree { module_name: self.module_name@, span: self.span }
    }
}

impl MetaValue {
    pub open spec fn model(self) -> MetaValueTree {
        match self {
            MetaValue::Str(bytes) => MetaValueTree::Str(bytes@),
            MetaValue::Int(v) => MetaValueTree::Int(v),
            MetaValue::Bool(b) => MetaValueTree::Bool(b),
        }
    }
}

impl Meta {
    pub open spec fn model(self) -> MetaTree {
        MetaTree { identifier: self.identifier.model(), value: self.value.model() }
    }
}

/// What definitions of metadata are, one for one.
pub open spec fn metas(meta: Seq<Meta>) -> Seq<MetaTree> {
    Seq::new(meta.len(), |i: int| meta[i].model())
}

impl PatternBody {
    pub open spec fn model(self) -> BodyTree {
        match self {
            PatternBody::Text(bytes) => BodyTree::Text(bytes@),
            PatternBody::Hex(bytes) => BodyTree::Hex(bytes@),
            PatternBody::Regexp { source, case_insensitive, dot_matches_new_line } => BodyTree::Regexp {
                source: source@,
                case_insensitive,
                dot_matches_new_line,
            },
        }
    }
}

impl PatternDef {
    pub open spec fn model(self) -> DefTree {
        DefTree { body: self.body.model(), modifiers: self.modifiers }
    }
}

/// What definitions of patterns are, one for one.
pub open spec fn defs(definitions: Seq<PatternDef>) -> Seq<DefTree> {
    Seq::new(definitions.len(), |i: int| definitions[i].model())
}

impl Rule {
    pub open spec fn model(self) -> RuleTree {
        RuleTree {
            modifiers: self.modifiers,
            identifier: self.identifier.model(),
            tags: names(self.tags@),
            meta: metas(self.meta@),
            patterns: names(self.patterns@),
            definitions: defs(self.definitions@),
            condition: self.condition.model(),
        }
    }
}

impl Namespace {
    pub open spec fn model(self) -> FileTree {
        FileTree {
            imports: Seq::new(self.imports@.len(), |i: int| self.imports@[i].model()),
            rules: Seq::new(self.rules@.len(), |i: int| self.rules@[i].model()),
        }
    }
}

impl Expr {
    /// What the expression is.
    pub open spec fn model(self) -> Node
        decreases self, 1int,
    {
        Node {
            kind: match self.kind {
                ExprKind::True => Tree::True,
                ExprKind::False => Tree::False,
                ExprKind::Filesize => Tree::Filesize,
                ExprKind::LiteralInt(v) => Tree::LiteralInt(v),
                ExprKind::LiteralFloat(bits) => Tree::LiteralFloat(bits),
                ExprKind::LiteralStr(bytes) => Tree::LiteralStr(bytes@),
                ExprKind::PatternMatch(name) => Tree::PatternMatch(name@),
                ExprKind::PatternAt(name, a) => Tree::PatternAt(name@, Box::new(a.model())),
                ExprKind::PatternIn(name, a, b) => Tree::PatternIn(
                    name@,
                    Box::new(a.model()),
                    Box::new(b.model()),
                ),
                ExprKind::Of(quantifier, patterns) => Tree::Of(quantifier, patterns.model()),
                ExprKind::FieldAccess(idents) => Tree::FieldAccess(names(idents@)),
                ExprKind::Not(e) => Tree::Not(Box::new(e.model())),
                ExprKind::And(a, b) => Tree::And(Box::new(a.model()), Box::new(b.model())),
                ExprKind::Or(a, b) => Tree::Or(Box::new(a.model()), Box::new(b.model())),
                ExprKind::Compare(op, a, b) => Tree::Compare(
                    op,
                    Box::new(a.model()),
                    Box::new(b.model()),
                ),
                ExprKind::Arith(op, a, b) => Tree::Arith(
                    op,
                    Box::new(a.model()),
                    Box::new(b.model()),
                ),
                ExprKind::ForIn { var, lower, upper, condition } => Tree::ForIn {
                    var: var.model(),
                    lower: Box::new(lower.model()),
                    upper: Box::new(upper.model()),
                    condition: Box::new(condition.model()),
                },
                ExprKind::Call { callee, args } => Tree::Call {
                    callee: callee.model(),
                    args: self.arg_models(args@.len() as int),
                },
            },
            span: self.span,
        }
    }

    /// What the first `n` arguments of a call are.
    pub open spec fn arg_models(self, n: int) -> Seq<Node>
        decreases self, 0int, n,
    {
        match self.kind {
            ExprKind::Call { args, .. } => if 0 < n <= args@.len() {
                self.arg_models(n - 1).push(args@[n - 1].model())
            } else {
                Seq::empty()
            },
            _ => Seq::empty(),
        }
    }

    /// The arguments of a call are what each of them is, in their order.
    pub proof fn lemma_arg_models(self, n: int)
        requires
            self.kind is Call,
            0 <= n <= self.kind->Call_args@.len(),
        ensures
            self.arg_models(n) == Seq::new(n as nat, |k: int| self.kind->Call_args@[k].model()),
        decreases n,
    {
        let args = self.kind->Call_args@;
        if n > 0 {
            self.lemma_arg_models(n - 1);
            assert(self.arg_models(n) =~= Seq::new(n as nat, |k: int| args[k].model()));
        } else {
            assert(self.arg_models(n) =~= Seq::new(n as nat, |k: int| args[k].model()));
        }
    }

    /// How deep `for` loops are nested in the expression.
    pub open spec fn loop_depth(self) -> nat
        decreases self, 1int,
    {
        match self.kind {
            ExprKind::Call { args, .. } => self.args_loop_depth(args@.len() as int),
            ExprKind::Not(e) | ExprKind::PatternAt(_, e) => e.loop_depth(),
            ExprKind::And(a, b)
            | ExprKind::Or(a, b)
            | ExprKind::Compare(_, a, b)
            | ExprKind::Arith(_, a, b)
            | ExprKind::PatternIn(_, a, b) => max_nat(a.loop_depth(), b.loop_depth()),
            ExprKind::ForIn { lower, upper, condition, .. } => max_nat(
                max_nat(lower.loop_depth(), upper.loop_depth()),
                condition.loop_depth() + 1,
            ),
            _ => 0,
        }
    }

    /// How deep `for` loops are nested in the first `n` arguments of a
    /// call.
    pub open spec fn args_loop_depth(self, n: int) -> nat
        decreases self, 0int, n,
    {
        match self.kind {
            ExprKind::Call { args, .. } => if n <= 0 || n > args@.len() {
                0
            } else {
                max_nat(self.args_loop_depth(n - 1), args@[n - 1].loop_depth())
            },
            _ => 0,
        }
    }

    /// One of the first `n` arguments of a call refers to the pattern
    /// `name`.
    pub open spec fn args_use_pattern(self, name: Seq<char>, n: int) -> bool
        decreases self, 0int, n,
    {
        match self.kind {
            ExprKind::Call { args, .. } => if n <= 0 || n > args@.len() {
                false
            } else {
                self.args_use_pattern(name, n - 1) || args@[n - 1].uses_pattern(name)
            },
            _ => false,
        }
    }

    /// The expression refers to the pattern `name`: by its identifier, or
    /// through `them` or a set that names it.
    pub open spec fn uses_pattern(self, name: Seq<char>) -> bool
        decreases self, 1int,
    {
        match self.kind {
            ExprKind::Call { args, .. } => self.args_use_pattern(name, args@.len() as int),
            ExprKind::PatternMatch(ident) => ident@ == name,
            ExprKind::PatternAt(ident, a) => ident@ == name || a.uses_pattern(name),
            ExprKind::PatternIn(ident, a, b) => ident@ == name || a.uses_pattern(name)
                || b.uses_pattern(name),
            ExprKind::Of(_, PatternSet::Them) => true,
            ExprKind::Of(_, PatternSet::Named(idents)) => exists|i: int|
                0 <= i < idents@.len() && (#[trigger] idents@[i]).name@ == name,
            ExprKind::Not(e) => e.uses_pattern(name),
            ExprKind::And(a, b) | ExprKind::Or(a, b) | ExprKind::Compare(_, a, b) | ExprKind::Arith(
                _,
                a,
                b,
            ) => a.uses_pattern(name) || b.uses_pattern(name),
            ExprKind::ForIn { lower, upper, condition, .. } => lower.uses_pattern(name)
                || upper.uses_pattern(name) || condition.uses_pattern(name),
            _ => false,
        }
    }

    /// Tells whether the expression refers to the pattern `name`.
    #[verifier::loop_isolation(false)]
    pub fn refers_to(&self, name: &str) -> (b: bool)
        ensures
            b == self.uses_pattern(name@),
        decreases self,
    {
        match &self.kind {
            ExprKind::PatternMatch(ident) => crate::modules::string_equal(ident.as_str(), name),
            ExprKind::PatternAt(ident, a) => crate::modules::string_equal(ident.as_str(), name)
                || a.refers_to(name),
            ExprKind::PatternIn(ident, a, b) => crate::modules::string_equal(ident.as_str(), name)
                || a.refers_to(name) || b.refers_to(name),
            ExprKind::Of(_, PatternSet::Them) => true,
            ExprKind::Of(_, PatternSet::Named(idents)) => {
                let mut i: usize = 0;
                while i < idents.len()
                    invariant
                        i <= idents.len(),
                        forall|j: int| 0 <= j < i ==> (#[trigger] idents@[j]).name@ != name@,
                    decreases idents.len() - i,
                {
                    if crate::modules::string_equal(idents[i].name.as_str(), name) {
                        assert(idents@[i as int].name@ == name@);
                        return true;
                    }
                    i += 1;
                }
                false
            },
            ExprKind::Not(e) => e.refers_to(name),
            ExprKind::And(a, b) | ExprKind::Or(a, b) | ExprKind::Compare(_, a, b) | ExprKind::Arith(
                _,
                a,
                b,
            ) => a.refers_to(name) || b.refers_to(name),
            ExprKind::ForIn { lower, upper, condition, .. } => lower.refers_to(name)
                || upper.refers_to(name) || condition.refers_to(name),
            ExprKind::Call { args, .. } => {
                let mut i: usize = 0;
                while i < args.len()
                    invariant
                        i <= args@.len(),
                        !self.args_use_pattern(name@, i as int),
                    decreases args@.len() - i,
                {
                    if args[i].refers_to(name) {
                        assert(self.args_use_pattern(name@, i + 1));
                        proof {
                            self.lemma_args_use_pattern(name@, i + 1, args@.len() as int);
                        }
                        return true;
                    }
                    i += 1;
                }
                false
            },
            _ => false,
        }
    }

    /// An argument that refers to a pattern makes every longer run of
    /// arguments refer to it.
    pub proof fn lemma_args_use_pattern(self, name: Seq<char>, k: int, n: int)
        requires
            self.kind is Call,
            0 <= k <= n <= self.kind->Call_args@.len(),
            self.args_use_pattern(name, k),
        ensures
            self.args_use_pattern(name, n),
        decreases n - k,
    {
        if k < n {
            self.lemma_args_use_pattern(name, k, n - 1);
        }
    }
}

/// The greater of two numbers.
pub open spec fn max_nat(a: nat, b: nat) -> nat {
    if a >= b {
        a
    } else {
        b
    }
}

/// The spans of all of `idents` lie inside a source of `len` bytes.
pub open spec fn idents_within(idents: Seq<Ident>, len: nat) -> bool {
    forall|i: int| 0 <= i < idents.len() ==> (#[trigger] idents[i]).span.within(len)
}

/// The spans of an expression and of everything in it lie inside a source
/// of `len` bytes.
pub open spec fn expr_within(e: Expr, len: nat) -> bool
    decreases e, 1int,
{
    &&& e.span.within(len)
    &&& match e.kind {
        ExprKind::Call { callee, args } => callee.span.within(len) && args_within(
            e,
            args@.len() as int,
            len,
        ),
        ExprKind::Of(_, PatternSet::Named(idents)) => idents_within(idents@, len),
        ExprKind::FieldAccess(idents) => idents_within(idents@, len),
        ExprKind::Not(a) | ExprKind::PatternAt(_, a) => expr_within(*a, len),
        ExprKind::PatternIn(_, a, b) => expr_within(*a, len) && expr_within(*b, len),
        ExprKind::And(a, b) | ExprKind::Or(a, b) | ExprKind::Compare(_, a, b) | ExprKind::Arith(
            _,
            a,
            b,
        ) => expr_within(*a, len) && expr_within(*b, len),
        ExprKind::ForIn { var, lower, upper, condition } => var.span.within(len) && expr_within(
            *lower,
            len,
        ) && expr_within(*upper, len) && expr_within(*condition, len),
        _ => true,
    }
}

/// The spans of the first `n` arguments of a call lie inside a source of
/// `len` bytes.
pub open spec fn args_within(e: Expr, n: int, len: nat) -> bool
    decreases e, 0int, n,
{
    match e.kind {
        ExprKind::Call { args, .. } => if n <= 0 || n > args@.len() {
            true
        } else {
            args_within(e, n - 1, len) && expr_within(args@[n - 1], len)
        },
        _ => true,
    }
}

/// The spans of a rule lie inside a source of `len` bytes.
pub open spec fn rule_within(rule: Rule, len: nat) -> bool {
    &&& rule.identifier.span.within(len)
    &&& idents_within(rule.tags@, len)
    &&& idents_within(rule.patterns@, len)
    &&& expr_within(rule.condition, len)
}

/// The spans of a namespace lie inside a source of `len` bytes.
pub open spec fn namespace_within(ns: Namespace, len: nat) -> bool {
    &&& forall|i: int| 0 <= i < ns.imports@.len() ==> (#[trigger] ns.imports@[i]).span.within(len)
    &&& forall|i: int| 0 <= i < ns.rules@.len() ==> rule_within(#[trigger] ns.rules@[i], len)
}

/// Where each argument of a call lies inside a source, the arguments do.
pub proof fn lemma_args_within(e: Expr, n: int, len: nat)
    requires
        e.kind is Call,
        forall|k: int|
            0 <= k < e.kind->Call_args@.len() ==> expr_within(#[trigger] e.kind->Call_args@[k], len),
    ensures
        args_within(e, n, len),
    decreases n,
{
    if 0 < n <= e.kind->Call_args@.len() {
        lemma_args_within(e, n - 1, len);
    }
}

} // verus!
