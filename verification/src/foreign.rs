//! The library's view of the outside crates it computes with: each function
//! here wraps exactly one outside call behind a contract. What an outside
//! function computes from its arguments alone is given a name; what depends
//! on the environment is stated only as far as it holds of every outcome.
use vstd::prelude::*;

verus! {

/// What `duration_str::parse` makes of a piece of text: `None` when the
/// text does not parse as a duration, otherwise the duration in
/// nanoseconds, saturated to `u64::MAX`.
pub uninterp spec fn parsed_duration_nanos(s: Seq<char>) -> Option<u64>;

/// Relies on duration_str::parse: the result depends on the text alone.
#[verifier::external_body]
pub(crate) fn duration_parse_nanos(s: &str) -> (r: Option<u64>)
    ensures
        r == parsed_duration_nanos(s@),
{
    match duration_str::parse(s) {
        Ok(d) => {
            let nanos = d.as_nanos();
            if nanos > u64::MAX as u128 {
                Some(u64::MAX)
            } else {
                Some(nanos as u64)
            }
        },
        Err(_) => None,
    }
}

/// Relies on shellexpand::env: `${NAME}` expands to the variable's value.
/// The result depends on the process environment, so nothing more is
/// promised: an unset (or non-unicode) variable yields `None`. The
/// environment cannot carry a name that is empty or holds `=` or NUL, and
/// a lookup of such a name may abort, so those names are kept out.
#[verifier::external_body]
pub(crate) fn env_var_lookup(name: &str) -> (r: Option<String>)
    requires
        name@.len() > 0,
        forall|k: int| 0 <= k < name@.len() ==> name@[k] != '=' && name@[k] != '\0',
{
    match shellexpand::env(&format!("${{{}}}", name)) {
        Ok(v) => Some(v.to_string()),
        Err(_) => None,
    }
}

/// Whether `url::Url::parse` accepts a piece of text: a function of the
/// text alone.
pub uninterp spec fn url_text_valid(s: Seq<char>) -> bool;

/// Relies on url::Url::parse, used only to decide validity.
#[verifier::external_body]
pub(crate) fn url_parse_ok(s: &str) -> (r: bool)
    ensures
        r == url_text_valid(s@),
{
    url::Url::parse(s).is_ok()
}

/// Whether `url::Host::parse` reads bracketed text as an IPv6 address: a
/// function of the text alone.
pub uninterp spec fn ipv6_text_valid(s: Seq<char>) -> bool;

/// Relies on url::Host::parse: `[text]` parses exactly when `text` is an
/// IPv6 address.
#[verifier::external_body]
pub(crate) fn ipv6_parse_ok(s: &str) -> (r: bool)
    ensures
        r == ipv6_text_valid(s@),
{
    match url::Host::<String>::parse(&format!("[{}]", s)) {
        Ok(url::Host::Ipv6(_)) => true,
        _ => false,
    }
}

/// Whether `url::Host::parse` reads a piece of text as an IPv4 address: a
/// function of the text alone.
pub uninterp spec fn ipv4_text_valid(s: Seq<char>) -> bool;

/// Relies on url::Host::parse: text whose last dotted component is numeric
/// parses exactly when the whole is an IPv4 address.
#[verifier::external_body]
pub(crate) fn ipv4_parse_ok(s: &str) -> (r: bool)
    ensures
        r == ipv4_text_valid(s@),
{
    match url::Host::<String>::parse(s) {
        Ok(url::Host::Ipv4(_)) => true,
        _ => false,
    }
}

/// What `handlebars::Handlebars::render_template` makes of a template and a
/// set of name/value pairs: `None` when rendering fails, otherwise the
/// rendered text. A function of the arguments alone.
pub uninterp spec fn rendered_template(tpl: Seq<char>, data: Seq<(Seq<char>, Seq<char>)>) -> Option<
    Seq<char>,
>;

/// Relies on handlebars::Handlebars::render_template, with the pairs as the
/// template's data. The error's text is handlebars's own.
#[verifier::external_body]
pub(crate) fn render_template(tpl: &str, data: &Vec<(String, String)>) -> (r: Result<String, String>)
    ensures
        r matches Ok(o) ==> rendered_template(
            tpl@,
            Seq::new(data@.len(), |i: int| (data@[i].0@, data@[i].1@)),
        ) == Some(o@),
        r is Ok <==> rendered_template(
            tpl@,
            Seq::new(data@.len(), |i: int| (data@[i].0@, data@[i].1@)),
        ) is Some,
{
    let hb = handlebars::Handlebars::new();
    let map: std::collections::HashMap<&str, &str> = data.iter().map(
        |kv| (kv.0.as_str(), kv.1.as_str()),
    ).collect();
    match hb.render_template(tpl, &map) {
        Ok(s) => Ok(s),
        Err(e) => Err(e.to_string()),
    }
}

/// Relies on char::is_alphanumeric: a fixed classification of each
/// character.
pub uninterp spec fn alphanumeric_char(c: char) -> bool;

pub assume_specification[ char::is_alphanumeric ](c: char) -> (r: bool)
    ensures
        r == alphanumeric_char(c),
;

} // verus!
