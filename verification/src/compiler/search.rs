//! Finding a name among those declared before it.

use crate::compiler::model::{first_at, first_duplicate, import_names, names_of, rule_names};
use crate::modules::string_equal;
use crate::parser::ast::{Ident, Import, Rule};
use crate::parser::errors::Error;
use crate::parser::span::Span;
use vstd::prelude::*;

verus! {

/// The first of `idents[..limit]` with the name `name`.
pub fn find_ident(idents: &Vec<Ident>, name: &str, limit: usize) -> (at: Option<usize>)
    ensures
        match at {
            Some(j) => first_at(names_of(idents@), name@, 0, limit as int) == Some(j as int)
                && j < limit && j < idents@.len() && idents@[j as int].name@ == name@,
            None => first_at(names_of(idents@), name@, 0, limit as int) is None,
        },
{
    let mut i: usize = 0;
    while i < limit && i < idents.len()
        invariant
            first_at(names_of(idents@), name@, 0, limit as int) == first_at(
                names_of(idents@),
                name@,
                i as int,
                limit as int,
            ),
        decreases idents.len() - i,
    {
        if string_equal(idents[i].name.as_str(), name) {
            return Some(i);
        }
        i += 1;
    }
    None
}

/// The first of `rules[..limit]` with the name `name`.
pub fn find_rule(rules: &Vec<Rule>, name: &str, limit: usize) -> (at: Option<usize>)
    ensures
        match at {
            Some(j) => first_at(rule_names(rules@), name@, 0, limit as int) == Some(j as int)
                && j < limit && j < rules@.len() && rules@[j as int].identifier.name@ == name@,
            None => first_at(rule_names(rules@), name@, 0, limit as int) is None,
        },
{
    let mut i: usize = 0;
    while i < limit && i < rules.len()
        invariant
            first_at(rule_names(rules@), name@, 0, limit as int) == first_at(
                rule_names(rules@),
                name@,
                i as int,
                limit as int,
            ),
        decreases rules.len() - i,
    {
        if string_equal(rules[i].identifier.name.as_str(), name) {
            return Some(i);
        }
        i += 1;
    }
    None
}

/// The first of `imports[..limit]` that imports the module `name`.
pub fn find_import(imports: &Vec<Import>, name: &str, limit: usize) -> (at: Option<usize>)
    ensures
        match at {
            Some(j) => first_at(import_names(imports@), name@, 0, limit as int) == Some(j as int)
                && j < limit && j < imports@.len() && imports@[j as int].module_name@ == name@,
            None => first_at(import_names(imports@), name@, 0, limit as int) is None,
        },
{
    let mut i: usize = 0;
    while i < limit && i < imports.len()
        invariant
            first_at(import_names(imports@), name@, 0, limit as int) == first_at(
                import_names(imports@),
                name@,
                i as int,
                limit as int,
            ),
        decreases imports.len() - i,
    {
        if string_equal(imports[i].module_name.as_str(), name) {
            return Some(i);
        }
        i += 1;
    }
    None
}

/// The first identifier that has the name of an earlier one, with the
/// position of the earlier one: `(first, second)`.
pub fn find_duplicate(idents: &Vec<Ident>) -> (found: Option<(usize, usize)>)
    ensures
        match found {
            Some((i, j)) => first_duplicate(names_of(idents@), 0) == Some((i as int, j as int))
                && i < j < idents@.len(),
            None => first_duplicate(names_of(idents@), 0) is None,
        },
{
    let mut k: usize = 0;
    while k < idents.len()
        invariant
            k <= idents.len(),
            first_duplicate(names_of(idents@), 0) == first_duplicate(names_of(idents@), k as int),
        decreases idents.len() - k,
    {
        match find_ident(idents, idents[k].name.as_str(), k) {
            Some(j) => {
                return Some((j, k));
            },
            None => {},
        }
        k += 1;
    }
    None
}

/// The error for a rule declared a second time.
pub fn duplicate_rule(name: &str, new_span: Span, existing_span: Span) -> (e: Error)
    ensures
        e matches Error::DuplicateRule {
            rule_ident,
            new_rule_name_span,
            existing_rule_name_span,
            detailed_report,
        } && rule_ident@ == name@ && new_rule_name_span == new_span && existing_rule_name_span
            == existing_span && detailed_report@ == e.title_text(),
{
    let mut report = String::from_str("duplicate rule `");
    report.append(name);
    report.append("`");
    Error::DuplicateRule {
        detailed_report: report,
        rule_ident: String::from_str(name),
        new_rule_name_span: new_span,
        existing_rule_name_span: existing_span,
    }
}

/// The error for a tag given a second time.
pub fn duplicate_tag(name: &str, new_span: Span, existing_span: Span) -> (e: Error)
    ensures
        e matches Error::DuplicateTag { tag, tag_span, existing_tag_span, detailed_report } && tag@
            == name@ && tag_span == new_span && existing_tag_span == existing_span
            && detailed_report@ == e.title_text(),
{
    let mut report = String::from_str("duplicate tag `");
    report.append(name);
    report.append("`");
    Error::DuplicateTag {
        detailed_report: report,
        tag: String::from_str(name),
        tag_span: new_span,
        existing_tag_span: existing_span,
    }
}

/// The error for a pattern declared a second time.
pub fn duplicate_string(name: &str, new_span: Span, existing_span: Span) -> (e: Error)
    ensures
        e matches Error::DuplicateString {
            string_ident,
            new_string_span,
            existing_string_span,
            detailed_report,
        } && string_ident@ == name@ && new_string_span == new_span && existing_string_span
            == existing_span && detailed_report@ == e.title_text(),
{
    let mut report = String::from_str("duplicate string `");
    report.append(name);
    report.append("`");
    Error::DuplicateString {
        detailed_report: report,
        string_ident: String::from_str(name),
        new_string_span: new_span,
        existing_string_span: existing_span,
    }
}

} // verus!
