//! The raw, pre-typechecked input of the compiler: trees of check, group
//! and tool declarations as the parser front end hands them over. Names may
//! be unresolved and parameter types unchecked; every node carries the
//! source span it came from.
use vstd::prelude::*;

use crate::params::{ChkActualParam, ContentAddress};
use crate::strmap::StrMap;

verus! {

/// Actual parameters as written at a call site, keyed by name.
pub type AstActualParams = StrMap<ChkActualParam>;

/// The small parameter maps of a tool declaration, one per user-exposed
/// parameter (each is expected to bind `type` and `required`).
pub type AstToolInstanceParams = StrMap<AstActualParams>;

/// One raw check or group node.
#[derive(Debug)]
pub struct AstCheckDef {
    pub fn_name: String,
    pub is_negated: bool,
    pub is_retrying: bool,
    pub actual_params: AstActualParams,
    pub children: Vec<AstCheckDef>,
    pub content_address: ContentAddress,
    pub is_group: bool,
}

impl Clone for AstCheckDef {
    /// A deep copy: same name and flags, the parameter entries copied, the
    /// children cloned recursively.
    fn clone(&self) -> (res: Self)
        ensures
            res.fn_name == self.fn_name,
            res.is_negated == self.is_negated,
            res.is_retrying == self.is_retrying,
            res.actual_params@ == self.actual_params@,
            res.children@.len() == self.children@.len(),
            res.content_address == self.content_address,
            res.is_group == self.is_group,
        decreases *self,
    {
        let mut children: Vec<AstCheckDef> = Vec::new();
        let n = self.children.len();
        let mut j: usize = 0;
        while j < n
            invariant
                j <= n,
                n == self.children@.len(),
                children@.len() == j,
            decreases n - j,
        {
            children.push(self.children[j].clone());
            j = j + 1;
        }
        AstCheckDef {
            fn_name: self.fn_name.clone(),
            is_negated: self.is_negated,
            is_retrying: self.is_retrying,
            actual_params: crate::params::duplicate_actual_params(&self.actual_params),
            children,
            content_address: self.content_address,
            is_group: self.is_group,
        }
    }
}

/// The check trees of one input file.
#[derive(Clone, Debug)]
pub struct AstFileChecks {
    pub filename: Option<String>,
    pub check_defs: Vec<AstCheckDef>,
}

impl AstFileChecks {
    pub fn new(filename: Option<String>, check_defs: Vec<AstCheckDef>) -> (r: Self)
        ensures
            r.filename == filename,
            r.check_defs == check_defs,
    {
        AstFileChecks { filename, check_defs }
    }
}

/// The parameter sets of one tool declaration: the template parameters (the
/// command template and fixed metadata) and the user-exposed instance
/// parameters.
#[derive(Clone, Debug)]
pub struct AstToolDefParams {
    pub template_params: AstActualParams,
    pub instance_params: AstToolInstanceParams,
}

impl AstToolDefParams {
    pub fn new(def_params: AstActualParams, instance_params: AstToolInstanceParams) -> (r: Self)
        ensures
            r.template_params == def_params,
            r.instance_params == instance_params,
    {
        AstToolDefParams { template_params: def_params, instance_params }
    }
}

/// One raw tool declaration.
#[derive(Clone, Debug)]
pub struct AstToolDef {
    pub name: String,
    pub content_address: ContentAddress,
    pub params: AstToolDefParams,
}

impl AstToolDef {
    pub fn new(name: String, content_address: ContentAddress, params: AstToolDefParams) -> (r:
        Self)
        ensures
            r.name == name,
            r.content_address == content_address,
            r.params == params,
    {
        AstToolDef { name, content_address, params }
    }
}

/// The tool declarations of one input file.
#[derive(Clone, Debug)]
pub struct AstFileTools {
    pub filename: Option<String>,
    pub tool_defs: Vec<AstToolDef>,
}

impl AstFileTools {
    pub fn new(filename: Option<String>, tool_defs: Vec<AstToolDef>) -> (r: Self)
        ensures
            r.filename == filename,
            r.tool_defs == tool_defs,
    {
        AstFileTools { filename, tool_defs }
    }
}

/// A whole parsed input file.
#[derive(Clone, Debug)]
pub struct AstFile {
    pub filename: Option<String>,
    pub tools: AstFileTools,
    pub checks: AstFileChecks,
}

/// One item at the top level of a file.
#[derive(Clone, Debug)]
pub enum TopLevelItem {
    Check(AstCheckDef),
    Group(AstCheckDef),
    Tool(AstToolDef),
}

} // verus!
