//! Turning a validated tool declaration into a check definition. A tool's
//! executable renders its command template with the actual parameter values
//! and runs the result through a shell; the engine carries that out for
//! definitions of kind `ToolTemplate`.
use vstd::prelude::*;

use crate::data::{formal_params_to_map, ChkDef, ChkFnKind};
use crate::params::duplicate_actual_params;
use crate::tools::ToolDef;

verus! {

/// Builds the check definition of a user-declared tool: its instance
/// parameters become the formal parameters, the template parameters ride
/// along in the definition, and the executable kind is the shell-template
/// runner.
pub fn metadef_tool(td: &ToolDef) -> (r: ChkDef)
    ensures
        r.name == td.tool_name,
        r.check_fn == ChkFnKind::ToolTemplate,
        !r.is_group,
        !r.accepts_children,
        !r.is_query,
        r.template_params matches Some(tp) && tp@ == td.template_params@,
        r.formal_params.wf(),
        forall|i: int|
            0 <= i < td.instance_params@.len() ==> r.formal_params.contains_key_spec(
                #[trigger] td.instance_params@[i].name@,
            ),
        forall|i: int|
            0 <= i < td.instance_params@.len() && (forall|j: int|
                i < j < td.instance_params@.len() ==> td.instance_params@[j].name@
                    != #[trigger] td.instance_params@[i].name@)
                ==> r.formal_params.as_map()[td.instance_params@[i].name@]
                == td.instance_params@[i],
        forall|k: Seq<char>|
            r.formal_params.contains_key_spec(k) ==> exists|i: int|
                0 <= i < td.instance_params@.len() && (#[trigger] td.instance_params@[i]).name@
                    == k,
{
    ChkDef {
        name: td.tool_name.clone(),
        check_fn: ChkFnKind::ToolTemplate,
        formal_params: formal_params_to_map(&td.instance_params),
        accepts_children: false,
        is_group: false,
        template_params: Some(duplicate_actual_params(&td.template_params)),
        is_query: false,
    }
}

} // verus!
