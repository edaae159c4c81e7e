//! Core data model: parameter types, formal parameters and their builders,
//! function definitions and the definition registry.
use vstd::prelude::*;

use crate::builtin;
use crate::params::{ChkActualParams, ChkParamInternalValue, NamedType};
use crate::strmap::StrMap;

verus! {

/// The closed set of parameter types a formal parameter can declare.
#[derive(Clone, Copy, PartialEq, Eq, Structural, Debug)]
pub enum ChkParamType {
    PkString,
    PkInt,
    PkBool,
    PkTypeName,
    PkDuration,
    PkPath,
}

/// The display name of a parameter type.
pub open spec fn param_type_name(t: ChkParamType) -> Seq<char> {
    match t {
        ChkParamType::PkString => "String"@,
        ChkParamType::PkInt => "Int"@,
        ChkParamType::PkBool => "Bool"@,
        ChkParamType::PkTypeName => "Typename"@,
        ChkParamType::PkDuration => "Duration"@,
        ChkParamType::PkPath => "Path"@,
    }
}

impl ChkParamType {
    pub fn type_label(&self) -> (r: &'static str)
        ensures
            r@ == param_type_name(*self),
    {
        match self {
            ChkParamType::PkString => "String",
            ChkParamType::PkInt => "Int",
            ChkParamType::PkBool => "Bool",
            ChkParamType::PkTypeName => "Typename",
            ChkParamType::PkDuration => "Duration",
            ChkParamType::PkPath => "Path",
        }
    }
}

/// The parameter type named by a type-name value.
pub open spec fn param_type_of_named(ty: NamedType) -> ChkParamType {
    match ty {
        NamedType::PtnString => ChkParamType::PkString,
        NamedType::PtnInt => ChkParamType::PkInt,
        NamedType::PtnBool => ChkParamType::PkBool,
        NamedType::PtnDuration => ChkParamType::PkDuration,
        NamedType::PtnPath => ChkParamType::PkPath,
    }
}

impl From<&NamedType> for ChkParamType {
    fn from(ty: &NamedType) -> (r: ChkParamType) {
        match *ty {
            NamedType::PtnString => ChkParamType::PkString,
            NamedType::PtnInt => ChkParamType::PkInt,
            NamedType::PtnBool => ChkParamType::PkBool,
            NamedType::PtnDuration => ChkParamType::PkDuration,
            NamedType::PtnPath => ChkParamType::PkPath,
        }
    }
}

impl vstd::std_specs::convert::FromSpecImpl<&NamedType> for ChkParamType {
    open spec fn obeys_from_spec() -> bool {
        true
    }

    open spec fn from_spec(ty: &NamedType) -> ChkParamType {
        param_type_of_named(*ty)
    }
}

/// A duration together with the source text it was parsed from. The parsed
/// value is kept in nanoseconds.
#[derive(Debug, PartialEq)]
pub struct ParsedDuration {
    pub duration: u64,
    pub duration_str: String,
}

impl Clone for ParsedDuration {
    fn clone(&self) -> (res: Self)
        ensures
            res == *self,
    {
        ParsedDuration { duration: self.duration, duration_str: self.duration_str.clone() }
    }
}

impl ParsedDuration {
    pub fn new(duration: u64, duration_str: String) -> (r: Self)
        ensures
            r.duration == duration,
            r.duration_str == duration_str,
    {
        ParsedDuration { duration, duration_str }
    }
}

/// A declared parameter of a check function: its name, whether a caller must
/// bind it, its type, and an (inert) default value.
#[derive(Debug)]
pub struct ChkFormalParam {
    pub name: String,
    pub required: bool,
    pub param_type: ChkParamType,
    pub param_default: Option<ChkParamInternalValue>,
}

impl Clone for ChkFormalParam {
    fn clone(&self) -> (res: Self)
        ensures
            res == *self,
    {
        ChkFormalParam {
            name: self.name.clone(),
            required: self.required,
            param_type: self.param_type,
            param_default: match &self.param_default {
                Some(v) => Some(v.clone()),
                None => None,
            },
        }
    }
}

impl Default for ChkFormalParam {
    fn default() -> (r: Self)
        ensures
            r.name@ == Seq::<char>::empty(),
            r.required == false,
            r.param_type == ChkParamType::PkString,
            r.param_default is None,
    {
        ChkFormalParam {
            name: String::new(),
            required: false,
            param_type: ChkParamType::PkString,
            param_default: None,
        }
    }
}

/// The formal parameters of a function, keyed by name.
pub type ChkFormalParams = StrMap<ChkFormalParam>;

/// A clone of a formal parameter is the same value: its `Clone` promises it.
pub proof fn lemma_cloned_formal_param(a: ChkFormalParam, b: ChkFormalParam)
    requires
        vstd::pervasive::cloned::<ChkFormalParam>(a, b),
    ensures
        b == a,
{
}

/// Copies a formal-parameter map, entry for entry.
pub fn duplicate_formal_params(m: &ChkFormalParams) -> (r: ChkFormalParams)
    ensures
        r@ == m@,
{
    let r = m.clone();
    proof {
        assert forall|i: int| 0 <= i < m@.len() implies r@[i] == m@[i] by {
            lemma_cloned_formal_param(m@[i].1, r@[i].1);
        }
        assert(r@ =~= m@);
    }
    r
}

/// Collects formal parameters into a map keyed by their names; on duplicate
/// names the last one wins.
pub fn formal_params_to_map(params: &Vec<ChkFormalParam>) -> (r: ChkFormalParams)
    ensures
        r.wf(),
        forall|i: int|
            0 <= i < params@.len() ==> r.contains_key_spec(#[trigger] params@[i].name@),
        forall|k: Seq<char>|
            r.contains_key_spec(k) ==> exists|i: int|
                0 <= i < params@.len() && #[trigger] params@[i].name@ == k,
        forall|i: int|
            0 <= i < params@.len() && (forall|j: int|
                i < j < params@.len() ==> params@[j].name@ != #[trigger] params@[i].name@)
                ==> r.as_map()[params@[i].name@] == params@[i],
{
    let n = params.len();
    let mut r: ChkFormalParams = StrMap::new();
    let mut i: usize = 0;
    while i < n
        invariant
            i <= n,
            n == params@.len(),
            r.wf(),
            forall|j: int| 0 <= j < i ==> r.contains_key_spec(#[trigger] params@[j].name@),
            forall|k: Seq<char>|
                r.contains_key_spec(k) ==> exists|j: int|
                    0 <= j < i && #[trigger] params@[j].name@ == k,
            forall|j: int|
                0 <= j < i && (forall|m: int| j < m < i ==> params@[m].name@ != #[trigger] params@[j].name@)
                    ==> r.as_map()[params@[j].name@] == params@[j],
        decreases n - i,
    {
        let fp = params[i].clone();
        let name = fp.name.clone();
        r.insert(name, fp);
        i = i + 1;
    }
    r
}

/// Builds one formal parameter.
pub struct FParamBuilder {
    pub name: String,
    pub required: bool,
    pub param_type: ChkParamType,
    pub param_default: Option<ChkParamInternalValue>,
}

impl FParamBuilder {
    /// Starts a builder: required string parameter with no default.
    pub fn new(name: &str) -> (r: Self)
        ensures
            r.name@ == name@,
            r.required == true,
            r.param_type == ChkParamType::PkString,
            r.param_default is None,
    {
        FParamBuilder {
            name: String::from_str(name),
            required: true,
            param_type: ChkParamType::PkString,
            param_default: None,
        }
    }

    pub fn required(self) -> (r: Self)
        ensures
            r == (FParamBuilder { required: true, ..self }),
    {
        FParamBuilder { required: true, ..self }
    }

    pub fn not_required(self) -> (r: Self)
        ensures
            r == (FParamBuilder { required: false, ..self }),
    {
        FParamBuilder { required: false, ..self }
    }

    pub fn pk_int(self) -> (r: Self)
        ensures
            r == (FParamBuilder { param_type: ChkParamType::PkInt, ..self }),
    {
        FParamBuilder { param_type: ChkParamType::PkInt, ..self }
    }

    pub fn pk_bool(self) -> (r: Self)
        ensures
            r == (FParamBuilder { param_type: ChkParamType::PkBool, ..self }),
    {
        FParamBuilder { param_type: ChkParamType::PkBool, ..self }
    }

    pub fn pk_string(self) -> (r: Self)
        ensures
            r == (FParamBuilder { param_type: ChkParamType::PkString, ..self }),
    {
        FParamBuilder { param_type: ChkParamType::PkString, ..self }
    }

    pub fn pk_duration(self) -> (r: Self)
        ensures
            r == (FParamBuilder { param_type: ChkParamType::PkDuration, ..self }),
    {
        FParamBuilder { param_type: ChkParamType::PkDuration, ..self }
    }

    pub fn param_type(self, param_type: ChkParamType) -> (r: Self)
        ensures
            r == (FParamBuilder { param_type, ..self }),
    {
        FParamBuilder { param_type, ..self }
    }

    pub fn default_value(self, default: ChkParamInternalValue) -> (r: Self)
        ensures
            r == (FParamBuilder { param_default: Some(default), ..self }),
    {
        FParamBuilder { param_default: Some(default), ..self }
    }

    pub fn build(self) -> (r: ChkFormalParam)
        ensures
            r.name == self.name,
            r.required == self.required,
            r.param_type == self.param_type,
            r.param_default == self.param_default,
    {
        ChkFormalParam {
            name: self.name,
            required: self.required,
            param_type: self.param_type,
            param_default: self.param_default,
        }
    }
}

/// Marker state: a parameter is being described.
pub struct FParamsBuilderStateInParam;

/// Marker state: between parameters.
pub struct FParamsBuilderStateInBuilder;

/// Builds a whole formal-parameter map, one parameter at a time. The type
/// parameter tracks whether a parameter is currently being described, so
/// that `finish_param` can only follow `add_param`.
pub struct FParamsBuilder<T> {
    pub map: ChkFormalParams,
    pub current_param: Option<FParamBuilder>,
    pub state: T,
}

impl FParamsBuilder<FParamsBuilderStateInBuilder> {
    /// An empty formal-parameter map.
    pub fn empty() -> (r: ChkFormalParams)
        ensures
            r@ == Seq::<(Seq<char>, ChkFormalParam)>::empty(),
            r.wf(),
    {
        StrMap::new()
    }

    pub fn new() -> (r: FParamsBuilder<FParamsBuilderStateInBuilder>)
        ensures
            r.map@ == Seq::<(Seq<char>, ChkFormalParam)>::empty(),
            r.map.wf(),
            r.current_param is None,
    {
        FParamsBuilder {
            map: StrMap::new(),
            current_param: None,
            state: FParamsBuilderStateInBuilder,
        }
    }

    pub fn get_state(&self) -> &FParamsBuilderStateInBuilder {
        &self.state
    }

    /// Starts describing a parameter with the given name and type; it is
    /// required unless `not_required` is called before `finish_param`.
    pub fn add_param(self, name: &str, param_type: ChkParamType) -> (r: FParamsBuilder<
        FParamsBuilderStateInParam,
    >)
        ensures
            r.map == self.map,
            r.current_param matches Some(p) && p.name@ == name@ && p.required == true
                && p.param_type == param_type && p.param_default is None,
    {
        FParamsBuilder {
            map: self.map,
            current_param: Some(FParamBuilder::new(name).param_type(param_type)),
            state: FParamsBuilderStateInParam,
        }
    }

    pub fn build(self) -> (r: ChkFormalParams)
        ensures
            r == self.map,
    {
        self.map
    }
}

impl Default for FParamsBuilder<FParamsBuilderStateInBuilder> {
    fn default() -> (r: Self)
        ensures
            r.map@ == Seq::<(Seq<char>, ChkFormalParam)>::empty(),
            r.map.wf(),
            r.current_param is None,
    {
        Self::new()
    }
}

impl FParamsBuilder<FParamsBuilderStateInParam> {
    /// Adds the parameter just described to the map and returns to the
    /// between-parameters state.
    pub fn finish_param(self) -> (r: FParamsBuilder<FParamsBuilderStateInBuilder>)
        requires
            self.current_param is Some,
            self.map.wf(),
        ensures
            r.map.wf(),
            r.map.as_map() == self.map.as_map().insert(
                self.current_param->0.name@,
                (ChkFormalParam {
                    name: self.current_param->0.name,
                    required: self.current_param->0.required,
                    param_type: self.current_param->0.param_type,
                    param_default: self.current_param->0.param_default,
                }),
            ),
            r.current_param is None,
    {
        let mut map = self.map;
        match self.current_param {
            Some(cp) => {
                let name = cp.name.clone();
                let param = cp.build();
                map.insert(name, param);
            },
            None => vstd::pervasive::unreached(),
        }
        FParamsBuilder { map, current_param: None, state: FParamsBuilderStateInBuilder }
    }

    pub fn required(self) -> (r: Self)
        requires
            self.current_param is Some,
        ensures
            r.map == self.map,
            r.current_param matches Some(p) && p == (FParamBuilder {
                required: true,
                ..self.current_param->0
            }),
    {
        match self.current_param {
            Some(cp) => FParamsBuilder {
                map: self.map,
                current_param: Some(cp.required()),
                state: FParamsBuilderStateInParam,
            },
            None => vstd::pervasive::unreached(),
        }
    }

    pub fn not_required(self) -> (r: Self)
        requires
            self.current_param is Some,
        ensures
            r.map == self.map,
            r.current_param matches Some(p) && p == (FParamBuilder {
                required: false,
                ..self.current_param->0
            }),
    {
        match self.current_param {
            Some(cp) => FParamsBuilder {
                map: self.map,
                current_param: Some(cp.not_required()),
                state: FParamsBuilderStateInParam,
            },
            None => vstd::pervasive::unreached(),
        }
    }

    pub fn pk_int(self) -> (r: Self)
        requires
            self.current_param is Some,
        ensures
            r.map == self.map,
            r.current_param matches Some(p) && p == (FParamBuilder {
                param_type: ChkParamType::PkInt,
                ..self.current_param->0
            }),
    {
        match self.current_param {
            Some(cp) => FParamsBuilder {
                map: self.map,
                current_param: Some(cp.pk_int()),
                state: FParamsBuilderStateInParam,
            },
            None => vstd::pervasive::unreached(),
        }
    }

    pub fn pk_bool(self) -> (r: Self)
        requires
            self.current_param is Some,
        ensures
            r.map == self.map,
            r.current_param matches Some(p) && p == (FParamBuilder {
                param_type: ChkParamType::PkBool,
                ..self.current_param->0
            }),
    {
        match self.current_param {
            Some(cp) => FParamsBuilder {
                map: self.map,
                current_param: Some(cp.pk_bool()),
                state: FParamsBuilderStateInParam,
            },
            None => vstd::pervasive::unreached(),
        }
    }

    pub fn pk_string(self) -> (r: Self)
        requires
            self.current_param is Some,
        ensures
            r.map == self.map,
            r.current_param matches Some(p) && p == (FParamBuilder {
                param_type: ChkParamType::PkString,
                ..self.current_param->0
            }),
    {
        match self.current_param {
            Some(cp) => FParamsBuilder {
                map: self.map,
                current_param: Some(cp.pk_string()),
                state: FParamsBuilderStateInParam,
            },
            None => vstd::pervasive::unreached(),
        }
    }

    pub fn default_value(self, default: ChkParamInternalValue) -> (r: Self)
        requires
            self.current_param is Some,
        ensures
            r.map == self.map,
            r.current_param matches Some(p) && p == (FParamBuilder {
                param_default: Some(default),
                ..self.current_param->0
            }),
    {
        match self.current_param {
            Some(cp) => FParamsBuilder {
                map: self.map,
                current_param: Some(cp.default_value(default)),
                state: FParamsBuilderStateInParam,
            },
            None => vstd::pervasive::unreached(),
        }
    }
}

/// Which aggregation a group definition computes over its children.
#[derive(Clone, Copy, PartialEq, Eq, Structural, Debug)]
pub enum AggType {
    All,
    Any,
    NoneOf,
}

/// What a definition's executable does. Group definitions aggregate their
/// children inside the engine; leaf kinds name the outside work a runner
/// performs; a tool renders its command template and runs it through a
/// shell; `Custom` marks definitions registered by library users, which only
/// a runner knows how to execute.
#[derive(Clone, Copy, PartialEq, Eq, Structural, Debug)]
pub enum ChkFnKind {
    Agg(AggType),
    FileExists,
    FileExecutable,
    FileOnPath,
    ShellCmd,
    PortOpen,
    PortAddrOpen,
    ToolTemplate,
    Custom,
}

/// A function definition: a name, what its executable does, its declared
/// formal parameters, and whether it is a group. Tool definitions carry
/// their template parameters. The registry owns every definition for the
/// life of a session; instances borrow them.
#[derive(Clone, Debug)]
pub struct ChkDef {
    pub name: String,
    pub check_fn: ChkFnKind,
    pub formal_params: ChkFormalParams,
    pub accepts_children: bool,
    pub is_group: bool,
    pub template_params: Option<ChkActualParams>,
    pub is_query: bool,
}

/// The names of the three built-in group functions are pairwise distinct.
proof fn lemma_agg_names_distinct()
    ensures
        "all"@ != "any"@,
        "all"@ != "none"@,
        "any"@ != "none"@,
{
    reveal_strlit("all");
    reveal_strlit("any");
    reveal_strlit("none");
    assert("all"@.len() == 3);
    assert("any"@.len() == 3);
    assert("none"@.len() == 4);
    assert("all"@[1] == 'l');
    assert("any"@[1] == 'n');
}

/// Two independent name-to-definition maps: one for leaf checks, one for
/// group functions. Registration is insert-or-replace; the last
/// registration under a name wins.
#[derive(Debug)]
pub struct ChkDefRegistry {
    pub check_fns: StrMap<ChkDef>,
    pub group_fns: StrMap<ChkDef>,
}

impl Default for ChkDefRegistry {
    fn default() -> (r: Self)
        ensures
            r.wf(),
            r.check_fns@.len() == 0,
            r.group_fns@.len() == 0,
    {
        ChkDefRegistry::new()
    }
}

impl ChkDefRegistry {
    pub open spec fn wf(&self) -> bool {
        self.check_fns.wf() && self.group_fns.wf()
    }

    pub fn new() -> (r: Self)
        ensures
            r.wf(),
            r.check_fns@.len() == 0,
            r.group_fns@.len() == 0,
    {
        ChkDefRegistry { check_fns: StrMap::new(), group_fns: StrMap::new() }
    }

    /// Seeds the registry with the built-in leaf checks and the three
    /// built-in group functions — and nothing else: the leaf map holds
    /// exactly `exists?`, the group map exactly `all`, `any` and `none`,
    /// each group definition flagged as a group that accepts children.
    pub fn new_with_builtins() -> (r: ChkDefRegistry)
        ensures
            r.wf(),
            r.check_fns@.len() == 1,
            r.check_fns.contains_key_spec("exists?"@),
            ({
                let d = r.check_fns.as_map()["exists?"@];
                &&& d.check_fn == ChkFnKind::FileExists
                &&& d.name@ == "exists?"@
                &&& !d.is_group
                &&& d.formal_params.wf()
                &&& d.formal_params.as_map().dom() == set!["path"@]
                &&& d.formal_params.as_map()["path"@].required
                &&& d.formal_params.as_map()["path"@].param_type == ChkParamType::PkPath
            }),
            r.group_fns@.len() == 3,
            r.group_fns.contains_key_spec("all"@),
            r.group_fns.contains_key_spec("any"@),
            r.group_fns.contains_key_spec("none"@),
            r.group_fns.as_map()["all"@].check_fn == ChkFnKind::Agg(AggType::All),
            r.group_fns.as_map()["any"@].check_fn == ChkFnKind::Agg(AggType::Any),
            r.group_fns.as_map()["none"@].check_fn == ChkFnKind::Agg(AggType::NoneOf),
            forall|k: Seq<char>|
                #![auto]
                r.group_fns.contains_key_spec(k) ==> (k == "all"@ || k == "any"@ || k == "none"@),
            forall|k: Seq<char>|
                #![auto]
                r.group_fns.contains_key_spec(k) ==> {
                    let d = r.group_fns.as_map()[k];
                    d.is_group && d.accepts_children && d.formal_params@.len() == 0
                },
    {
        let mut reg = ChkDefRegistry::new();
        // The built-in leaf set currently holds a single definition.
        let mut builtins = builtin::define_builtins();
        let def = builtins.remove(0);
        let name = def.name.clone();
        reg.register_fn(name, def);
        // The three group functions, registered in the order they are defined.
        let mut aggs = builtin::define_aggs();
        let agg_all = aggs.remove(0);
        let name_all = agg_all.name.clone();
        reg.register_group_fn(name_all, agg_all);
        let agg_any = aggs.remove(0);
        let name_any = agg_any.name.clone();
        reg.register_group_fn(name_any, agg_any);
        let agg_none = aggs.remove(0);
        let name_none = agg_none.name.clone();
        reg.register_group_fn(name_none, agg_none);
        proof {
            lemma_agg_names_distinct();
            assert(reg.check_fns@.len() == 1);
            assert(reg.group_fns@.len() == 3);
            assert forall|k: Seq<char>|
                #![auto]
                reg.group_fns.contains_key_spec(k) implies (k == "all"@ || k == "any"@ || k
                == "none"@) by {}
            assert forall|k: Seq<char>|
                #![auto]
                reg.group_fns.contains_key_spec(k) implies {
                let d = reg.group_fns.as_map()[k];
                d.is_group && d.accepts_children && d.formal_params@.len() == 0
            } by {
                if k == "all"@ {
                    assert(reg.group_fns.as_map()[k].is_group);
                } else if k == "any"@ {
                    assert(reg.group_fns.as_map()[k].is_group);
                } else {
                    assert(k == "none"@);
                    assert(reg.group_fns.as_map()[k].is_group);
                }
            }
        }
        reg
    }

    pub fn register_fn(&mut self, name: String, check_def: ChkDef)
        requires
            old(self).wf(),
        ensures
            final(self).wf(),
            final(self).check_fns.as_map() == old(self).check_fns.as_map().insert(
                name@,
                check_def,
            ),
            final(self).check_fns.contains_key_spec(name@),
            forall|q: Seq<char>|
                #![auto]
                final(self).check_fns.contains_key_spec(q) <==> (old(
                    self,
                ).check_fns.contains_key_spec(q) || q == name@),
            !old(self).check_fns.contains_key_spec(name@) ==> final(self).check_fns@.len() == old(
                self,
            ).check_fns@.len() + 1,
            old(self).check_fns.contains_key_spec(name@) ==> final(self).check_fns@.len() == old(
                self,
            ).check_fns@.len(),
            final(self).group_fns == old(self).group_fns,
    {
        self.check_fns.insert(name, check_def);
    }

    pub fn get_fn<'a>(&'a self, name: &str) -> (r: Option<&'a ChkDef>)
        requires
            self.wf(),
        ensures
            match r {
                Some(def) => self.check_fns.contains_key_spec(name@) && *def
                    == self.check_fns.as_map()[name@],
                None => !self.check_fns.contains_key_spec(name@),
            },
    {
        self.check_fns.get(name)
    }

    pub fn register_group_fn(&mut self, name: String, check_def: ChkDef)
        requires
            old(self).wf(),
        ensures
            final(self).wf(),
            final(self).group_fns.as_map() == old(self).group_fns.as_map().insert(
                name@,
                check_def,
            ),
            final(self).group_fns.contains_key_spec(name@),
            forall|q: Seq<char>|
                #![auto]
                final(self).group_fns.contains_key_spec(q) <==> (old(
                    self,
                ).group_fns.contains_key_spec(q) || q == name@),
            !old(self).group_fns.contains_key_spec(name@) ==> final(self).group_fns@.len() == old(
                self,
            ).group_fns@.len() + 1,
            old(self).group_fns.contains_key_spec(name@) ==> final(self).group_fns@.len() == old(
                self,
            ).group_fns@.len(),
            final(self).check_fns == old(self).check_fns,
    {
        self.group_fns.insert(name, check_def);
    }

    pub fn get_group_fn<'a>(&'a self, name: &str) -> (r: Option<&'a ChkDef>)
        requires
            self.wf(),
        ensures
            match r {
                Some(def) => self.group_fns.contains_key_spec(name@) && *def
                    == self.group_fns.as_map()[name@],
                None => !self.group_fns.contains_key_spec(name@),
            },
    {
        self.group_fns.get(name)
    }
}

} // verus!
