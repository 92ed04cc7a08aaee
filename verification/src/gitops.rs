//! The configuration stub the GitOps sync renders per device; committing
//! to the repository is the binary's work.

use vstd::prelude::*;

use crate::model::Device;
use crate::rest::join_sep;
use crate::text::{concat2, concat3, views_of};

verus! {

/// The GitOps command's arguments.
#[derive(Debug)]
pub struct GitOpsCmd {
    pub inventory: String,
    pub repo: String,
    pub message: String,
}

/// The rendered configuration stub of one device.
pub open spec fn render_config_spec(name: Seq<char>, mgmt: Seq<char>, tags: Seq<Seq<char>>) -> Seq<
    char,
> {
    "hostname "@ + name + "\n! managed by netrust\n! mgmt: "@ + mgmt + "\n! tags: "@ + join_sep(
        tags,
        ", "@,
    ) + "\n"@
}

/// Renders the configuration stub the sync writes for one device.
pub fn render_config(device: &Device) -> (r: String)
    ensures
        r@ == render_config_spec(device.name@, device.mgmt_address@, device.tags.deep_view()),
{
    let ghost tags = device.tags.deep_view();
    let mut joined = String::new();
    let mut i: usize = 0;
    while i < device.tags.len()
        invariant
            tags == device.tags.deep_view(),
            tags.len() == device.tags@.len(),
            i <= device.tags@.len(),
            joined@ == join_sep(tags.subrange(0, i as int), ", "@),
        decreases device.tags@.len() - i,
    {
        if i > 0 {
            joined.append(", ");
        }
        joined.append(device.tags[i].as_str());
        proof {
            let pre = tags.subrange(0, i + 1 as int);
            assert(pre.drop_last() =~= tags.subrange(0, i as int));
            assert(pre.last() == tags[i as int]);
            if i == 0 {
                assert(joined@ =~= join_sep(pre, ", "@));
            } else {
                assert(joined@ =~= join_sep(pre, ", "@));
            }
        }
        i = i + 1;
    }
    proof {
        assert(tags.subrange(0, tags.len() as int) =~= tags);
    }
    let a = concat3("hostname ", device.name.as_str(), "\n! managed by netrust\n! mgmt: ");
    let b = concat3(a.as_str(), device.mgmt_address.as_str(), "\n! tags: ");
    let c = concat2(b.as_str(), joined.as_str());
    let r = concat2(c.as_str(), "\n");
    proof {
        assert(r@ =~= render_config_spec(device.name@, device.mgmt_address@, tags));
    }
    r
}

} // verus!
