//! A validated tool declaration, ready to be turned into a check definition.
use vstd::prelude::*;

use crate::data::ChkFormalParam;
use crate::params::ChkActualParams;

verus! {

/// A user-declared tool: a name, the template parameters (the command
/// template and fixed metadata, which become actual parameters at run time),
/// and the user-exposed instance parameters.
#[derive(Clone, Debug)]
pub struct ToolDef {
    pub tool_name: String,
    pub template_params: ChkActualParams,
    pub instance_params: Vec<ChkFormalParam>,
    /// The shell to run the rendered template with; the engine defaults to
    /// `sh -c`.
    pub shell: Option<String>,
    pub accepts_retry: bool,
}

} // verus!
