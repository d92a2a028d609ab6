//! Standalone validation of a definition's variable list.  Unlike
//! `TemplateDefinition::validate` it touches nothing outside the variables,
//! and shows values the way the manifest file writes them (strings quoted).

use vstd::prelude::*;

use crate::definition::{spec_var_issues, var_issues_exec, TemplateDefinition};

verus! {

/// Validate that the definition doesn't have bad data in its variables:
/// defaults outside their choices, gates on unknown or differently-typed
/// variables, and misplaced, malformed or failed validation regexes.
pub fn validate_definition(def: &TemplateDefinition) -> (r: Vec<String>)
    ensures
        r.deep_view() == spec_var_issues(def@.variables, true),
{
    var_issues_exec(&def.variables, true)
}

} // verus!
