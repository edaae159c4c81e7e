//! The parameter value model: tagged runtime values bound to parameter
//! names, each carrying the source span it came from.
use vstd::prelude::*;

use crate::data::{ChkParamType, ParsedDuration};
use crate::strmap::StrMap;
use crate::strutil::{i64_to_string, int_dec_rep};

verus! {

/// A half-open byte-offset span into the source text of a file, used to
/// point diagnostics at the place a value was written.
#[derive(Clone, Copy, PartialEq, Eq, Structural, Debug)]
pub struct ContentAddress {
    pub start: usize,
    pub end: usize,
}

impl ContentAddress {
    pub fn new(start: usize, end: usize) -> (r: Self)
        ensures
            r.start == start,
            r.end == end,
    {
        ContentAddress { start, end }
    }
}

impl Default for ContentAddress {
    fn default() -> (r: Self)
        ensures
            r.start == 0 && r.end == 0,
    {
        ContentAddress { start: 0, end: 0 }
    }
}

/// The name of one of the closed set of parameter types, as it appears in
/// source text (`String`, `Int`, ...).
#[derive(Clone, Copy, PartialEq, Eq, Structural, Debug)]
pub enum NamedType {
    PtnString,
    PtnInt,
    PtnBool,
    PtnDuration,
    PtnPath,
}

/// The runtime value of an actual parameter: a closed sum of the primitive
/// parameter types. A duration keeps its original unparsed text beside the
/// parsed value; a path may still hold unexpanded environment references.
#[derive(Debug)]
pub enum ChkParamInternalValue {
    PkString(String),
    PkInt(i64),
    PkBool(bool),
    PkTypeName(NamedType),
    PkDuration(ParsedDuration),
    PkPath(String),
}

impl Clone for ChkParamInternalValue {
    fn clone(&self) -> (res: Self)
        ensures
            res == *self,
    {
        match self {
            ChkParamInternalValue::PkString(s) => ChkParamInternalValue::PkString(s.clone()),
            ChkParamInternalValue::PkInt(i) => ChkParamInternalValue::PkInt(*i),
            ChkParamInternalValue::PkBool(b) => ChkParamInternalValue::PkBool(*b),
            ChkParamInternalValue::PkTypeName(t) => ChkParamInternalValue::PkTypeName(*t),
            ChkParamInternalValue::PkDuration(d) => ChkParamInternalValue::PkDuration(d.clone()),
            ChkParamInternalValue::PkPath(p) => ChkParamInternalValue::PkPath(p.clone()),
        }
    }
}

/// Whether a value's tag is the given parameter type.
pub open spec fn value_has_type(v: ChkParamInternalValue, t: ChkParamType) -> bool {
    match v {
        ChkParamInternalValue::PkString(_) => t == ChkParamType::PkString,
        ChkParamInternalValue::PkInt(_) => t == ChkParamType::PkInt,
        ChkParamInternalValue::PkBool(_) => t == ChkParamType::PkBool,
        ChkParamInternalValue::PkTypeName(_) => t == ChkParamType::PkTypeName,
        ChkParamInternalValue::PkDuration(_) => t == ChkParamType::PkDuration,
        ChkParamInternalValue::PkPath(_) => t == ChkParamType::PkPath,
    }
}

/// The display name of a value's tag.
pub open spec fn value_type_name(v: ChkParamInternalValue) -> Seq<char> {
    match v {
        ChkParamInternalValue::PkString(_) => "String"@,
        ChkParamInternalValue::PkInt(_) => "Int"@,
        ChkParamInternalValue::PkBool(_) => "Bool"@,
        ChkParamInternalValue::PkTypeName(t) => match t {
            NamedType::PtnString => "Typename(PtnString)"@,
            NamedType::PtnInt => "Typename(PtnInt)"@,
            NamedType::PtnBool => "Typename(PtnBool)"@,
            NamedType::PtnDuration => "Typename(PtnDuration)"@,
            NamedType::PtnPath => "Typename(PtnPath)"@,
        },
        ChkParamInternalValue::PkDuration(_) => "Duration"@,
        ChkParamInternalValue::PkPath(_) => "Path"@,
    }
}

/// The rendering of a value for diagnostics and command templates: strings
/// and paths render their text, integers and booleans their usual form, a
/// duration its original unparsed text, a type name its symbolic name.
pub open spec fn value_rendered(v: ChkParamInternalValue) -> Seq<char> {
    match v {
        ChkParamInternalValue::PkString(s) => s@,
        ChkParamInternalValue::PkInt(i) => int_dec_rep(i as int),
        ChkParamInternalValue::PkBool(b) => if b {
            "true"@
        } else {
            "false"@
        },
        ChkParamInternalValue::PkTypeName(t) => match t {
            NamedType::PtnString => "PtnString"@,
            NamedType::PtnInt => "PtnInt"@,
            NamedType::PtnBool => "PtnBool"@,
            NamedType::PtnDuration => "PtnDuration"@,
            NamedType::PtnPath => "PtnPath"@,
        },
        ChkParamInternalValue::PkDuration(d) => d.duration_str@,
        ChkParamInternalValue::PkPath(p) => p@,
    }
}

impl ChkParamInternalValue {
    pub fn is_type(&self, t: ChkParamType) -> (r: bool)
        ensures
            r == value_has_type(*self, t),
    {
        match self {
            ChkParamInternalValue::PkString(_) => t == ChkParamType::PkString,
            ChkParamInternalValue::PkInt(_) => t == ChkParamType::PkInt,
            ChkParamInternalValue::PkBool(_) => t == ChkParamType::PkBool,
            ChkParamInternalValue::PkTypeName(_) => t == ChkParamType::PkTypeName,
            ChkParamInternalValue::PkDuration(_) => t == ChkParamType::PkDuration,
            ChkParamInternalValue::PkPath(_) => t == ChkParamType::PkPath,
        }
    }

    pub fn get_string(&self) -> (r: String)
        requires
            self is PkString,
        ensures
            *self == ChkParamInternalValue::PkString(r),
    {
        match self {
            ChkParamInternalValue::PkString(s) => s.clone(),
            _ => vstd::pervasive::unreached(),
        }
    }

    pub fn get_int(&self) -> (r: i64)
        requires
            self is PkInt,
        ensures
            *self == ChkParamInternalValue::PkInt(r),
    {
        match self {
            ChkParamInternalValue::PkInt(i) => *i,
            _ => vstd::pervasive::unreached(),
        }
    }

    pub fn get_bool(&self) -> (r: bool)
        requires
            self is PkBool,
        ensures
            *self == ChkParamInternalValue::PkBool(r),
    {
        match self {
            ChkParamInternalValue::PkBool(b) => *b,
            _ => vstd::pervasive::unreached(),
        }
    }

    pub fn get_duration(&self) -> (r: ParsedDuration)
        requires
            self is PkDuration,
        ensures
            *self == ChkParamInternalValue::PkDuration(r),
    {
        match self {
            ChkParamInternalValue::PkDuration(d) => d.clone(),
            _ => vstd::pervasive::unreached(),
        }
    }

    pub fn get_path(&self) -> (r: String)
        requires
            self is PkPath,
        ensures
            *self == ChkParamInternalValue::PkPath(r),
    {
        match self {
            ChkParamInternalValue::PkPath(p) => p.clone(),
            _ => vstd::pervasive::unreached(),
        }
    }
}

/// An actual parameter: a name bound to a value at some place in the source.
/// Immutable after construction.
#[derive(Debug)]
pub struct ChkActualParam {
    pub name: String,
    pub value: ChkParamInternalValue,
    pub content_address: ContentAddress,
}

impl Clone for ChkActualParam {
    fn clone(&self) -> (res: Self)
        ensures
            res == *self,
    {
        ChkActualParam {
            name: self.name.clone(),
            value: self.value.clone(),
            content_address: self.content_address,
        }
    }
}

/// Actual parameters of one instance, keyed by parameter name.
pub type ChkActualParams = StrMap<ChkActualParam>;

/// A clone of an actual parameter is the same value: its `Clone` promises it.
pub proof fn lemma_cloned_actual_param(a: ChkActualParam, b: ChkActualParam)
    requires
        vstd::pervasive::cloned::<ChkActualParam>(a, b),
    ensures
        b == a,
{
}

/// Copies an actual-parameter map, entry for entry.
pub fn duplicate_actual_params(m: &ChkActualParams) -> (r: ChkActualParams)
    ensures
        r@ == m@,
{
    let r = m.clone();
    proof {
        assert forall|i: int| 0 <= i < m@.len() implies r@[i] == m@[i] by {
            lemma_cloned_actual_param(m@[i].1, r@[i].1);
        }
        assert(r@ =~= m@);
    }
    r
}

impl ChkActualParam {
    pub fn new_string(name: String, s: String, content_address: ContentAddress) -> (r: Self)
        ensures
            r.name == name,
            r.value == ChkParamInternalValue::PkString(s),
            r.content_address == content_address,
    {
        ChkActualParam { name, value: ChkParamInternalValue::PkString(s), content_address }
    }

    pub fn new_int(name: String, i: i64, content_address: ContentAddress) -> (r: Self)
        ensures
            r.name == name,
            r.value == ChkParamInternalValue::PkInt(i),
            r.content_address == content_address,
    {
        ChkActualParam { name, value: ChkParamInternalValue::PkInt(i), content_address }
    }

    pub fn new_bool(name: String, b: bool, content_address: ContentAddress) -> (r: Self)
        ensures
            r.name == name,
            r.value == ChkParamInternalValue::PkBool(b),
            r.content_address == content_address,
    {
        ChkActualParam { name, value: ChkParamInternalValue::PkBool(b), content_address }
    }

    pub fn new_duration(name: String, d: ParsedDuration, content_address: ContentAddress) -> (r:
        Self)
        ensures
            r.name == name,
            r.value == ChkParamInternalValue::PkDuration(d),
            r.content_address == content_address,
    {
        ChkActualParam { name, value: ChkParamInternalValue::PkDuration(d), content_address }
    }

    pub fn new_path(name: String, s: String, content_address: ContentAddress) -> (r: Self)
        ensures
            r.name == name,
            r.value == ChkParamInternalValue::PkPath(s),
            r.content_address == content_address,
    {
        ChkActualParam { name, value: ChkParamInternalValue::PkPath(s), content_address }
    }

    pub fn new_named_type(name: String, named: NamedType, content_address: ContentAddress)
        -> (r: Self)
        ensures
            r.name == name,
            r.value == ChkParamInternalValue::PkTypeName(named),
            r.content_address == content_address,
    {
        ChkActualParam { name, value: ChkParamInternalValue::PkTypeName(named), content_address }
    }

    /// The display name of this value's tag. Not to be confused with
    /// `NamedType`, which is a *value* naming a type.
    pub fn type_label(&self) -> (r: String)
        ensures
            r@ == value_type_name(self.value),
    {
        match &self.value {
            ChkParamInternalValue::PkString(_) => String::from_str("String"),
            ChkParamInternalValue::PkInt(_) => String::from_str("Int"),
            ChkParamInternalValue::PkBool(_) => String::from_str("Bool"),
            ChkParamInternalValue::PkTypeName(t) => match t {
                NamedType::PtnString => String::from_str("Typename(PtnString)"),
                NamedType::PtnInt => String::from_str("Typename(PtnInt)"),
                NamedType::PtnBool => String::from_str("Typename(PtnBool)"),
                NamedType::PtnDuration => String::from_str("Typename(PtnDuration)"),
                NamedType::PtnPath => String::from_str("Typename(PtnPath)"),
            },
            ChkParamInternalValue::PkDuration(_) => String::from_str("Duration"),
            ChkParamInternalValue::PkPath(_) => String::from_str("Path"),
        }
    }

    pub fn is_type(&self, t: &ChkParamType) -> (r: bool)
        ensures
            r == value_has_type(self.value, *t),
    {
        self.value.is_type(*t)
    }

    /// True exactly for `String` and `Path` values: the two tags accepted
    /// where a formal parameter asks for a path.
    pub fn is_coercible_to_path(&self) -> (r: bool)
        ensures
            r == (self.value is PkString || self.value is PkPath),
    {
        match &self.value {
            ChkParamInternalValue::PkString(_) => true,
            ChkParamInternalValue::PkPath(_) => true,
            _ => false,
        }
    }

    /// Whether this type-name value names the given type. Asking this of a
    /// value that is not a type name is a programmer error.
    pub fn is_named_type(&self, nt: &NamedType) -> (r: bool)
        requires
            self.value is PkTypeName,
        ensures
            r == (self.value == ChkParamInternalValue::PkTypeName(*nt)),
    {
        match &self.value {
            ChkParamInternalValue::PkTypeName(t) => *t == *nt,
            _ => vstd::pervasive::unreached(),
        }
    }

    pub fn get_string<'a>(&'a self) -> (r: &'a str)
        requires
            self.value is PkString,
        ensures
            r@ == self.value->PkString_0@,
    {
        match &self.value {
            ChkParamInternalValue::PkString(s) => s.as_str(),
            _ => vstd::pervasive::unreached(),
        }
    }

    pub fn get_raw_path<'a>(&'a self) -> (r: &'a str)
        requires
            self.value is PkPath,
        ensures
            r@ == self.value->PkPath_0@,
    {
        match &self.value {
            ChkParamInternalValue::PkPath(p) => p.as_str(),
            _ => vstd::pervasive::unreached(),
        }
    }

    pub fn get_int(&self) -> (r: i64)
        requires
            self.value is PkInt,
        ensures
            self.value == ChkParamInternalValue::PkInt(r),
    {
        match &self.value {
            ChkParamInternalValue::PkInt(i) => *i,
            _ => vstd::pervasive::unreached(),
        }
    }

    pub fn get_bool(&self) -> (r: bool)
        requires
            self.value is PkBool,
        ensures
            self.value == ChkParamInternalValue::PkBool(r),
    {
        match &self.value {
            ChkParamInternalValue::PkBool(b) => *b,
            _ => vstd::pervasive::unreached(),
        }
    }

    pub fn get_duration(&self) -> (r: ParsedDuration)
        requires
            self.value is PkDuration,
        ensures
            self.value == ChkParamInternalValue::PkDuration(r),
    {
        match &self.value {
            ChkParamInternalValue::PkDuration(d) => d.clone(),
            _ => vstd::pervasive::unreached(),
        }
    }

    pub fn get_named_type<'a>(&'a self) -> (r: &'a NamedType)
        requires
            self.value is PkTypeName,
        ensures
            self.value == ChkParamInternalValue::PkTypeName(*r),
    {
        match &self.value {
            ChkParamInternalValue::PkTypeName(t) => t,
            _ => vstd::pervasive::unreached(),
        }
    }

    /// The path value with environment references expanded: a `String`
    /// value is returned as it is; a `Path` value has `$NAME` and `${NAME}`
    /// references replaced by the environment's values at run time, unset
    /// variables expanding to nothing. A variable whose value is not valid
    /// text reads as unset.
    pub fn get_path(&self) -> (r: Result<String, String>)
        requires
            self.value is PkString || self.value is PkPath,
        ensures
            r is Ok,
            self.value matches ChkParamInternalValue::PkString(s) ==> r == Ok::<String, String>(s),
            (self.value is PkPath && (forall|i: int|
                0 <= i < self.value->PkPath_0@.len() ==> self.value->PkPath_0@[i] != '$')) ==> (
            r matches Ok(o) && o@ == self.value->PkPath_0@),
    {
        match &self.value {
            ChkParamInternalValue::PkPath(p) => Ok(expand_env_refs(p.as_str())),
            ChkParamInternalValue::PkString(s) => Ok(s.clone()),
            _ => vstd::pervasive::unreached(),
        }
    }

    /// Renders the value for diagnostics and command templates.
    pub fn value_as_string(&self) -> (r: String)
        ensures
            r@ == value_rendered(self.value),
    {
        match &self.value {
            ChkParamInternalValue::PkString(s) => s.clone(),
            ChkParamInternalValue::PkInt(i) => i64_to_string(*i),
            ChkParamInternalValue::PkBool(b) => {
                if *b {
                    String::from_str("true")
                } else {
                    String::from_str("false")
                }
            },
            ChkParamInternalValue::PkTypeName(t) => match t {
                NamedType::PtnString => String::from_str("PtnString"),
                NamedType::PtnInt => String::from_str("PtnInt"),
                NamedType::PtnBool => String::from_str("PtnBool"),
                NamedType::PtnDuration => String::from_str("PtnDuration"),
                NamedType::PtnPath => String::from_str("PtnPath"),
            },
            ChkParamInternalValue::PkDuration(d) => d.duration_str.clone(),
            ChkParamInternalValue::PkPath(p) => p.clone(),
        }
    }
}

/// Whether a character can stand in an environment-variable name.
pub open spec fn name_char(c: char) -> bool {
    crate::foreign::alphanumeric_char(c) || c == '_'
}

/// Whether a piece of text can name an environment variable: nonempty and
/// free of the two characters the environment itself cannot carry in a
/// name.
fn env_name_ok(name: &str) -> (r: bool)
    ensures
        r == (name@.len() > 0 && (forall|k: int|
            0 <= k < name@.len() ==> name@[k] != '=' && name@[k] != '\0')),
{
    let n = name.unicode_len();
    if n == 0 {
        return false;
    }
    let mut k: usize = 0;
    while k < n
        invariant
            k <= n,
            n == name@.len(),
            forall|q: int| 0 <= q < k ==> name@[q] != '=' && name@[q] != '\0',
        decreases n - k,
    {
        let c = name.get_char(k);
        if c == '=' || c == '\0' {
            return false;
        }
        k = k + 1;
    }
    true
}

fn is_name_char(c: char) -> (r: bool)
    ensures
        r == name_char(c),
{
    c.is_alphanumeric() || c == '_'
}

/// Replaces `$NAME` and `${NAME}` references with the values of the named
/// environment variables; an unset variable expands to nothing. `$$`
/// escapes a single dollar; a lone `$` or an unclosed `${` is kept as
/// written; `${NAME:-default}` keeps only the variable's value, since every
/// variable resolves (to nothing at worst). Text without a dollar comes
/// back unchanged.
pub fn expand_env_refs(s: &str) -> (r: String)
    ensures
        (forall|l: int| 0 <= l < s@.len() ==> s@[l] != '$') ==> r@ == s@,
{
    let ghost no_dollar = forall|l: int| 0 <= l < s@.len() ==> s@[l] != '$';
    let n = s.unicode_len();
    let mut out = String::new();
    let mut seg_start: usize = 0;
    let mut i: usize = 0;
    while i < n
        invariant
            seg_start <= i <= n,
            n == s@.len(),
            no_dollar == (forall|l: int| 0 <= l < s@.len() ==> s@[l] != '$'),
            no_dollar ==> (out@ == Seq::<char>::empty() && seg_start == 0),
        decreases n - i,
    {
        let c = s.get_char(i);
        if c == '$' {
            // Flush the verbatim text before this reference.
            out = out.concat(s.substring_char(seg_start, i));
            if i + 1 < n {
                let c2 = s.get_char(i + 1);
                if c2 == '{' {
                    // ${NAME} or ${NAME:-default}
                    let mut j = i + 2;
                    while j < n && s.get_char(j) != '}'
                        invariant
                            i + 2 <= j <= n,
                            n == s@.len(),
                        decreases n - j,
                    {
                        j = j + 1;
                    }
                    if j < n {
                        // A ":-" past the first position ends the name.
                        let mut name_end = j;
                        let mut k = i + 2;
                        while j - k > 1
                            invariant
                                i + 2 <= k,
                                k <= j <= n,
                                n == s@.len(),
                                i + 2 <= name_end <= n,
                            decreases j - k,
                        {
                            if s.get_char(k) == ':' && s.get_char(k + 1) == '-' {
                                if k != i + 2 {
                                    name_end = k;
                                }
                                break ;
                            }
                            k = k + 1;
                        }
                        let name_to = if name_end < j {
                            name_end
                        } else {
                            j
                        };
                        let name = s.substring_char(i + 2, name_to);
                        let looked: Option<String> = if env_name_ok(name) {
                            crate::foreign::env_var_lookup(name)
                        } else {
                            // A name the environment cannot hold: unset.
                            None
                        };
                        match looked {
                            Some(v) => {
                                out = out.concat(v.as_str());
                            },
                            None => {},
                        }
                        i = j + 1;
                    } else {
                        // Unclosed brace: keep the "${" as written.
                        out = out.concat(s.substring_char(i, i + 2));
                        i = i + 2;
                    }
                } else if is_name_char(c2) {
                    let mut j = i + 1;
                    while j < n && is_name_char(s.get_char(j))
                        invariant
                            i + 1 <= j <= n,
                            n == s@.len(),
                        decreases n - j,
                    {
                        j = j + 1;
                    }
                    let name = s.substring_char(i + 1, j);
                    let looked: Option<String> = if env_name_ok(name) {
                        crate::foreign::env_var_lookup(name)
                    } else {
                        // A name the environment cannot hold: unset.
                        None
                    };
                    match looked {
                        Some(v) => {
                            out = out.concat(v.as_str());
                        },
                        None => {},
                    }
                    i = j;
                } else if c2 == '$' {
                    proof {
                        reveal_strlit("$");
                    }
                    out = out.concat("$");
                    i = i + 2;
                } else {
                    proof {
                        reveal_strlit("$");
                    }
                    out = out.concat("$");
                    i = i + 1;
                }
            } else {
                proof {
                    reveal_strlit("$");
                }
                out = out.concat("$");
                i = i + 1;
            }
            seg_start = i;
        } else {
            i = i + 1;
        }
    }
    let r = out.concat(s.substring_char(seg_start, n));
    proof {
        if no_dollar {
            assert(s@.subrange(0, n as int) =~= s@);
            assert(r@ =~= s@);
        }
    }
    r
}

} // verus!
