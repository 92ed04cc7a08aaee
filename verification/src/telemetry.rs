//! Telemetry collector descriptions.  The collectors themselves speak
//! SNMP, gNMI and HTTP and live outside; the library holds what they are
//! configured with and parses the collector command's header arguments.

use vstd::prelude::*;
use vstd::string::StringExecFns;

use crate::text::{chars_vec, first_at, first_at_exec, string_from_chars, suffix_from};

verus! {

/// The default collector timeout, in seconds.
pub const DEFAULT_COLLECTOR_TIMEOUT_SECS: u64 = 2;

/// The collector timeout a configuration asks for, or the default.
pub fn default_timeout_secs() -> (r: u64)
    ensures
        r == DEFAULT_COLLECTOR_TIMEOUT_SECS,
{
    DEFAULT_COLLECTOR_TIMEOUT_SECS
}

/// An SNMP collector: polls numeric object values from one device.
#[derive(Debug)]
pub struct SnmpCollector {
    pub device_id: String,
    pub target: String,
    pub community: String,
    pub oids: Vec<String>,
    pub timeout_secs: u64,
}

/// A gNMI collector: fetches one path from a gRPC endpoint.
#[derive(Debug)]
pub struct GnmiCollector {
    pub address: String,
    pub path: Vec<String>,
    pub data_type: i32,
    pub encoding: i32,
    pub username: Option<String>,
    pub password: Option<String>,
}

/// One HTTP header given on the command line as `key=value`.
#[derive(Debug)]
pub struct HeaderArg {
    pub key: String,
    pub value: String,
}

impl Clone for HeaderArg {
    /// An exact copy.
    fn clone(&self) -> (r: Self)
        ensures
            r.key@ == self.key@,
            r.value@ == self.value@,
    {
        HeaderArg { key: self.key.clone(), value: self.value.clone() }
    }
}

/// Splits a `key=value` argument at its first equals sign; the key must
/// be non-empty.
pub fn parse_header(input: &str) -> (r: Result<HeaderArg, String>)
    ensures
        ({
            let k = first_at(input@, '=');
            &&& (k == input@.len() ==> (r matches Err(m) && m@
                == "headers must be formatted as key=value"@))
            &&& (k == 0 && k < input@.len() ==> (r matches Err(m) && m@
                == "header key cannot be empty"@))
            &&& (0 < k < input@.len() ==> (r matches Ok(h) && h.key@ == input@.subrange(0, k)
                && h.value@ == input@.subrange(k + 1, input@.len() as int)))
        }),
{
    let v = chars_vec(input);
    let k = first_at_exec(&v, '=');
    if k == v.len() {
        return Err(String::from_str("headers must be formatted as key=value"));
    }
    if k == 0 {
        return Err(String::from_str("header key cannot be empty"));
    }
    let mut key: Vec<char> = Vec::new();
    let mut i: usize = 0;
    while i < k
        invariant
            k <= v@.len(),
            i <= k,
            key@ =~= v@.subrange(0, i as int),
        decreases k - i,
    {
        key.push(v[i]);
        proof {
            assert(key@ =~= v@.subrange(0, i + 1 as int));
        }
        i = i + 1;
    }
    let value = suffix_from(&v, k + 1);
    Ok(HeaderArg { key: string_from_chars(&key), value: string_from_chars(&value) })
}

} // verus!
