//! Alert-rule checks. The threshold is a float and stays with the caller; the
//! rest of a rule is settled here.
use super::{api_error, fails_with, ApiError, BAD_REQUEST};
use crate::ids::{id_of, new_id, ulid_text};
use crate::text::{blank, is_blank, str_equal, trim, trimmed};
use vstd::prelude::*;

verus! {

/// A request to turn a rule on or off.
#[derive(Debug)]
pub struct ToggleBody {
    pub enabled: bool,
}

/// The parts of a new rule apart from its threshold.
#[derive(Debug)]
pub struct RuleFields {
    pub id: String,
    pub name: String,
    pub metric: String,
    pub op: String,
    pub severity: String,
}

/// The comparison a rule has when it names none.
pub fn default_op() -> (r: String)
    ensures
        r@ == "gt"@,
{
    String::from_str("gt")
}

/// The severity a rule has when it names none.
pub fn default_sev() -> (r: String)
    ensures
        r@ == "warning"@,
{
    String::from_str("warning")
}

/// `lt` stays `lt`; anything else compares with `gt`.
pub open spec fn op_of(op: Seq<char>) -> Seq<char> {
    if op == "lt"@ {
        "lt"@
    } else {
        "gt"@
    }
}

/// `critical` stays `critical`; anything else is a `warning`.
pub open spec fn severity_of(sev: Seq<char>) -> Seq<char> {
    if sev == "critical"@ {
        "critical"@
    } else {
        "warning"@
    }
}

/// Checks a new rule: name and metric are required; it gets a fresh `rule_`
/// id, trimmed name and metric, and a known comparison and severity.
pub fn plan_rule(name: &str, metric: &str, op: &str, severity: &str) -> (r: Result<
    RuleFields,
    ApiError,
>)
    ensures
        (blank(name@) || blank(metric@)) ==> fails_with(
            r,
            BAD_REQUEST,
            "name and metric are required"@,
        ),
        !(blank(name@) || blank(metric@)) ==> (r matches Ok(f) && {
            &&& f.name@ == trimmed(name@)
            &&& f.metric@ == trimmed(metric@)
            &&& f.op@ == op_of(op@)
            &&& f.severity@ == severity_of(severity@)
            &&& exists|u: Seq<char>| ulid_text(u) && f.id@ == id_of("rule"@, u)
        }),
{
    if is_blank(name) || is_blank(metric) {
        return Err(api_error(BAD_REQUEST, "name and metric are required"));
    }
    let op = if str_equal(op, "lt") {
        "lt"
    } else {
        "gt"
    };
    let sev = if str_equal(severity, "critical") {
        "critical"
    } else {
        "warning"
    };
    Ok(
        RuleFields {
            id: new_id("rule"),
            name: trim(name),
            metric: trim(metric),
            op: String::from_str(op),
            severity: String::from_str(sev),
        },
    )
}

/// A rule compares with `lt` exactly when it asks for `lt`, and with `gt`
/// otherwise (a request for `gt` keeps `gt`). Its severity is `critical`
/// exactly when it asks for `critical`, and `warning` otherwise.
pub proof fn rule_choices_kept(op: Seq<char>, severity: Seq<char>)
    ensures
        (op_of(op) == "lt"@) <==> (op == "lt"@),
        op != "lt"@ ==> op_of(op) == "gt"@,
        op == "gt"@ ==> op_of(op) == "gt"@,
        (severity_of(severity) == "critical"@) <==> (severity == "critical"@),
        severity != "critical"@ ==> severity_of(severity) == "warning"@,
        severity == "warning"@ ==> severity_of(severity) == "warning"@,
{
    reveal_strlit("lt");
    reveal_strlit("gt");
    reveal_strlit("critical");
    reveal_strlit("warning");
    assert("gt"@[0] != "lt"@[0]);
    assert("warning"@.len() != "critical"@.len());
}

} // verus!
