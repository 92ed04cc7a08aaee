//! The synthetic benchmark's device factory.

use vstd::prelude::*;
use vstd::string::StringExecFns;

use crate::model::{CapabilitySet, CredentialRef, Device, DeviceType};
use crate::text::{concat2, dec_seq, usize_to_dec};

verus! {

/// The benchmark command's arguments.
#[derive(Debug)]
pub struct BenchCmd {
    pub devices: usize,
    pub parallel: usize,
}

/// Builds a synthetic fleet: `bench-<i>` devices behind the generic SSH
/// driver, numbered from zero.
pub fn build_devices(count: usize) -> (r: Vec<Device>)
    ensures
        r@.len() == count,
        forall|i: int|
            0 <= i < count ==> {
                let d = #[trigger] r.deep_view()[i];
                &&& d.id == "bench-"@ + dec_seq(i)
                &&& d.name == "bench-"@ + dec_seq(i)
                &&& d.device_type == DeviceType::GenericSsh
                &&& d.mgmt_address == "10.0.0."@ + dec_seq(i)
                &&& d.credential == "bench"@
                &&& d.tags == seq!["bench"@]
                &&& d.capabilities == crate::drivers::caps_none()
            },
{
    let mut r: Vec<Device> = Vec::new();
    let mut i: usize = 0;
    while i < count
        invariant
            i <= count,
            r@.len() == i,
            forall|k: int|
                0 <= k < i ==> {
                    let d = #[trigger] r.deep_view()[k];
                    &&& d.id == "bench-"@ + dec_seq(k)
                    &&& d.name == "bench-"@ + dec_seq(k)
                    &&& d.device_type == DeviceType::GenericSsh
                    &&& d.mgmt_address == "10.0.0."@ + dec_seq(k)
                    &&& d.credential == "bench"@
                    &&& d.tags == seq!["bench"@]
                    &&& d.capabilities == crate::drivers::caps_none()
                },
        decreases count - i,
    {
        let n = usize_to_dec(i);
        let id = concat2("bench-", n.as_str());
        let name = concat2("bench-", n.as_str());
        let addr = concat2("10.0.0.", n.as_str());
        let mut tags: Vec<String> = Vec::new();
        tags.push(String::from_str("bench"));
        let device = Device {
            id,
            name,
            device_type: DeviceType::GenericSsh,
            mgmt_address: addr,
            credential: CredentialRef { name: String::from_str("bench") },
            tags,
            capabilities: CapabilitySet {
                supports_commit: false,
                supports_rollback: false,
                supports_diff: false,
                supports_dry_run: false,
            },
        };
        proof {
            assert(device@.tags =~= seq!["bench"@]);
        }
        let ghost old_dv = r.deep_view();
        r.push(device);
        proof {
            assert(r.deep_view() =~= old_dv.push(device@));
        }
        i = i + 1;
    }
    r
}

} // verus!
