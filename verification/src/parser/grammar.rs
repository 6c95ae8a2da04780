use vstd::prelude::*;

verus! {

/// The rules of the YARA grammar that a parse failure can name.
///
/// Keywords carry the prefix `k_`; rules in capitals are single tokens. The
/// last group are rules that structure the tree and never reach a message.
#[allow(non_camel_case_types)]
#[derive(Clone, Copy, Debug, PartialEq, Eq, Structural)]
pub enum GrammarRule {
    k_ALL,
    k_ANY,
    k_ASCII,
    k_AT,
    k_BASE64,
    k_BASE64WIDE,
    k_CONDITION,
    k_FALSE,
    k_FILESIZE,
    k_FOR,
    k_FULLWORD,
    k_GLOBAL,
    k_IMPORT,
    k_IN,
    k_META,
    k_NOCASE,
    k_NOT,
    k_OF,
    k_PRIVATE,
    k_RULE,
    k_STRINGS,
    k_THEM,
    k_TRUE,
    k_WIDE,
    k_XOR,
    k_AND,
    k_OR,
    k_STARTSWITH,
    k_ISTARTSWITH,
    k_ENDSWITH,
    k_IENDSWITH,
    k_IEQUALS,
    k_CONTAINS,
    k_ICONTAINS,
    k_MATCHES,
    boolean_expr,
    boolean_term,
    expr,
    primary_expr,
    term,
    hex_byte,
    hex_pattern,
    ident,
    integer_lit,
    float_lit,
    rule_decl,
    source_file,
    string_ident,
    string_lit,
    regexp,
    string_mods,
    PERCENT,
    MINUS,
    COLON,
    ADD,
    SUB,
    DIV,
    MUL,
    MOD,
    SHL,
    SHR,
    BITWISE_AND,
    BITWISE_OR,
    BITWISE_XOR,
    EQ,
    NEQ,
    GE,
    GT,
    LE,
    LT,
    PIPE,
    COMMA,
    DOT,
    EQUAL,
    LPAREN,
    RPAREN,
    LBRACE,
    RBRACE,
    LBRACKET,
    RBRACKET,
    EOI,
    COMMENT,
    WHITESPACE,
    import_stmt,
    rule_mods,
    rule_tags,
    meta_defs,
    string_defs,
    hex_tokens,
}

impl GrammarRule {
    /// Comments and white space: kept in the parse tree, never named in a
    /// message.
    pub open spec fn is_trivia(self) -> bool {
        self == GrammarRule::COMMENT || self == GrammarRule::WHITESPACE
    }

    /// Tells whether the rule is a comment or white space.
    pub fn trivia(&self) -> (b: bool)
        ensures
            b == self.is_trivia(),
    {
        match self {
            GrammarRule::COMMENT | GrammarRule::WHITESPACE => true,
            _ => false,
        }
    }
}

} // verus!
