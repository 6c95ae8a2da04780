//! What the attribute that exports a function of a module decides: the
//! name under which the function is exported, and the name of the function
//! that stands between the machine and it.

use vstd::prelude::*;

verus! {

/// Arguments of the attribute that exports a function of a module.
#[derive(Debug)]
pub struct ModuleExportsArgs {
    /// The name under which rules call the function, where it is not the
    /// function's own.
    pub name: Option<String>,
}

impl ModuleExportsArgs {
    /// The name under which rules call the function `fn_name`: the one
    /// given to the attribute, or else the function's own.
    pub fn export_name(&self, fn_name: &str) -> (name: String)
        ensures
            name@ == match self.name {
                Some(given) => given@,
                None => fn_name@,
            },
    {
        match &self.name {
            Some(given) => given.clone(),
            None => String::from_str(fn_name),
        }
    }
}

/// The name of the function that the attribute generates for `fn_name`. It
/// takes the caller in place of the scan context and hands the call on.
pub fn thunk_name(fn_name: &str) -> (name: String)
    ensures
        name@ == "__thunk__"@ + fn_name@,
{
    let mut name = String::from_str("__thunk__");
    name.append(fn_name);
    name
}

/// The arguments that the generated function hands on: those that the
/// function declares, in their order, without the first, which is the scan
/// context.
pub fn forwarded_args(declared: &Vec<String>) -> (forwarded: Vec<String>)
    ensures
        forwarded@.len() == if declared@.len() == 0 {
            0
        } else {
            declared@.len() - 1
        },
        forall|i: int|
            0 <= i < forwarded@.len() ==> (#[trigger] forwarded@[i])@ == declared@[i + 1]@,
{
    let mut forwarded: Vec<String> = Vec::new();
    let mut i: usize = 1;
    while i < declared.len()
        invariant
            1 <= i,
            i <= declared@.len() || declared@.len() == 0,
            forwarded@.len() == if declared@.len() == 0 {
                0
            } else {
                i - 1
            },
            forall|j: int| 0 <= j < forwarded@.len() ==> (#[trigger] forwarded@[j])@ == declared@[j
                + 1]@,
        decreases declared@.len() - i,
    {
        forwarded.push(declared[i].clone());
        i += 1;
    }
    forwarded
}

} // verus!
