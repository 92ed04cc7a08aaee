//! Inventory-source integrations: mapping an imported device model name
//! to a device family.  Reading and writing the exchange files is the
//! binary's work.

use vstd::prelude::*;

use crate::model::DeviceType;
use crate::text::{chars_vec, contains_chars, contains_seq, lower_chars, lower_seq};

verus! {

/// The integrations command's arguments.
#[derive(Debug)]
pub struct IntegrationsCmd {
    pub action: IntegrationsAction,
}

/// The supported integrations.
#[derive(Debug)]
pub enum IntegrationsAction {
    NetboxImport { file: String, output: String, credential: String },
    ServicenowChange { ticket: String, description: String, dry_run: bool },
}

/// The device family guessed from an imported model name, by ASCII
/// case-insensitive substring.
pub open spec fn detect_device_type_spec(model: Seq<char>) -> DeviceType {
    let t = lower_seq(model);
    if contains_seq(t, "junos"@) {
        DeviceType::JuniperJunos
    } else if contains_seq(t, "nx"@) {
        DeviceType::CiscoNxosApi
    } else {
        DeviceType::GenericSsh
    }
}

/// Guesses the device family of an imported model name.
pub fn detect_device_type(model: &str) -> (r: DeviceType)
    ensures
        r == detect_device_type_spec(model@),
{
    let v = chars_vec(model);
    let t = lower_chars(&v);
    if contains_chars(&t, &chars_vec("junos")) {
        DeviceType::JuniperJunos
    } else if contains_chars(&t, &chars_vec("nx")) {
        DeviceType::CiscoNxosApi
    } else {
        DeviceType::GenericSsh
    }
}

} // verus!
