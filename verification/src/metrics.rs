//! The metrics the service reports: their names, namespaces and
//! descriptions. Recording them is a side channel owned by the surrounding
//! process; the library only defines what they are called and says what the
//! namespaced name of a metric is.

use vstd::prelude::*;
use vstd::string::*;

verus! {

/// A metric the service records.
pub struct Metric {
    pub name: &'static str,
    pub namespace: &'static str,
    pub description: &'static str,
}

impl Metric {
    /// Returns the name of the metric, prefixed with the metric's namespace.
    pub fn namespaced_name(&self) -> (r: String)
        ensures
            r@ == self.namespace@ + "_"@ + self.name@,
    {
        self.namespace.to_owned().concat("_").concat(self.name)
    }
}

/// The counter for the total number of HTTP requests made to the service.
pub fn requests_total() -> (m: Metric)
    ensures
        m.name@ == "requests_total"@,
        m.namespace@ == "servy"@,
        m.description@ == "The total number of HTTP requests made to servy"@,
{
    Metric {
        name: "requests_total",
        namespace: "servy",
        description: "The total number of HTTP requests made to servy",
    }
}

/// The counter for the number of requests made to each redirect.
pub fn redirects_served() -> (m: Metric)
    ensures
        m.name@ == "redirects_served"@,
        m.namespace@ == "servy"@,
        m.description@ == "The number of requests per redirect"@,
{
    Metric {
        name: "redirects_served",
        namespace: "servy",
        description: "The number of requests per redirect",
    }
}

/// The gauge for the number of redirects defined at a given time.
pub fn redirects_defined() -> (m: Metric)
    ensures
        m.name@ == "redirects_defined"@,
        m.namespace@ == "servy"@,
        m.description@ == "The number of redirects defined"@,
{
    Metric {
        name: "redirects_defined",
        namespace: "servy",
        description: "The number of redirects defined",
    }
}

/// The counter for the number of HTTP responses by status code.
pub fn response_status() -> (m: Metric)
    ensures
        m.name@ == "response_status"@,
        m.namespace@ == "servy"@,
        m.description@ == "The status codes of HTTP responses"@,
{
    Metric {
        name: "response_status",
        namespace: "servy",
        description: "The status codes of HTTP responses",
    }
}

} // verus!
