//! The version report printed at startup: one line for the application
//! build, one for the deployment chart.
use vstd::prelude::*;
use vstd::string::*;

verus! {

/// Formats the startup version report from the two version strings; the
/// caller logs the lines.
pub fn print_version(app_version: &str, helm_chart_version: &str) -> (r: Vec<String>)
    ensures
        r@.len() == 2,
        r@[0]@ == "App: "@ + app_version@,
        r@[1]@ == "Helm Chart: "@ + helm_chart_version@,
{
    let mut first = String::new();
    first.append("App: ");
    first.append(app_version);
    let mut second = String::new();
    second.append("Helm Chart: ");
    second.append(helm_chart_version);
    let mut r: Vec<String> = Vec::new();
    r.push(first);
    r.push(second);
    r
}

} // verus!
