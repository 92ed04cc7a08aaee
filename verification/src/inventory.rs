//! Inventory: resolving a target selector to a concrete device list.

use vstd::prelude::*;

use crate::model::{Device, DeviceV, TargetSelector, TargetSelectorV};
use crate::text::{chars_eq, chars_vec};

verus! {

/// Membership of a sequence of characters in a list of such sequences.
pub open spec fn seq_has(hay: Seq<Seq<char>>, needle: Seq<char>) -> bool {
    exists|i: int| 0 <= i < hay.len() && hay[i] == needle
}

/// The tag list carries every required tag.
pub open spec fn has_all_tags(tags: Seq<Seq<char>>, all_of: Seq<Seq<char>>) -> bool {
    forall|i: int| 0 <= i < all_of.len() ==> #[trigger] seq_has(tags, all_of[i])
}

/// Whether a device is selected by a target selector: every device for
/// `all`, id membership for `by_ids`, tag-superset for `by_tags`.
pub open spec fn device_matches(d: DeviceV, sel: TargetSelectorV) -> bool {
    match sel {
        TargetSelectorV::All => true,
        TargetSelectorV::ByIds { ids } => seq_has(ids, d.id),
        TargetSelectorV::ByTags { all_of } => has_all_tags(d.tags, all_of),
    }
}

/// The selected devices, in inventory order.
pub open spec fn resolve_spec(devices: Seq<DeviceV>, sel: TargetSelectorV) -> Seq<DeviceV>
    decreases devices.len(),
{
    if devices.len() == 0 {
        Seq::empty()
    } else {
        resolve_spec(devices.drop_last(), sel) + if device_matches(devices.last(), sel) {
            seq![devices.last()]
        } else {
            Seq::empty()
        }
    }
}

/// Resolution is a function of the snapshot and the selector alone, so
/// two resolutions of the same selector against the same snapshot return
/// identical lists.
pub proof fn lemma_resolve_idempotent(
    devices: Seq<DeviceV>,
    sel: TargetSelectorV,
    r1: Seq<DeviceV>,
    r2: Seq<DeviceV>,
)
    requires
        r1 == resolve_spec(devices, sel),
        r2 == resolve_spec(devices, sel),
    ensures
        r1 == r2,
{
}

/// Everything resolution returns satisfies the selector, and it returns
/// no more entries than the snapshot has.
pub proof fn lemma_resolve_sound(devices: Seq<DeviceV>, sel: TargetSelectorV)
    ensures
        resolve_spec(devices, sel).len() <= devices.len(),
        forall|i: int|
            0 <= i < resolve_spec(devices, sel).len() ==> device_matches(
                #[trigger] resolve_spec(devices, sel)[i],
                sel,
            ),
    decreases devices.len(),
{
    if devices.len() > 0 {
        lemma_resolve_sound(devices.drop_last(), sel);
    }
}

proof fn lemma_bytags_witness(d: DeviceV, all_of: Seq<Seq<char>>, i: int)
    requires
        0 <= i < all_of.len(),
        !seq_has(d.tags, all_of[i]),
    ensures
        !device_matches(d, TargetSelectorV::ByTags { all_of }),
{
    assert(!has_all_tags(d.tags, all_of));
}

/// Membership test of a character sequence in a list of strings.
pub fn seq_has_exec(hay: &Vec<String>, needle: &Vec<char>) -> (r: bool)
    ensures
        r == seq_has(hay.deep_view(), needle@),
{
    let mut i: usize = 0;
    while i < hay.len()
        invariant
            i <= hay@.len(),
            forall|k: int| 0 <= k < i ==> hay@[k]@ != needle@,
        decreases hay@.len() - i,
    {
        let hv = chars_vec(hay[i].as_str());
        if chars_eq(&hv, needle) {
            assert(hay.deep_view()[i as int] == needle@);
            return true;
        }
        i = i + 1;
    }
    proof {
        if seq_has(hay.deep_view(), needle@) {
            let k = choose|k: int| 0 <= k < hay.deep_view().len() && hay.deep_view()[k] == needle@;
            assert(hay@[k]@ == needle@);
        }
    }
    false
}

/// Decides whether one device is selected.
pub fn device_matches_exec(d: &Device, sel: &TargetSelector) -> (r: bool)
    ensures
        r == device_matches(d@, sel@),
{
    match sel {
        TargetSelector::All => true,
        TargetSelector::ByIds { ids } => {
            let idv = chars_vec(d.id.as_str());
            seq_has_exec(ids, &idv)
        },
        TargetSelector::ByTags { all_of } => {
            let mut i: usize = 0;
            while i < all_of.len()
                invariant
                    i <= all_of@.len(),
                    sel@ == (TargetSelectorV::ByTags { all_of: all_of.deep_view() }),
                    forall|k: int| 0 <= k < i ==> seq_has(d@.tags, all_of.deep_view()[k]),
                decreases all_of@.len() - i,
            {
                let tv = chars_vec(all_of[i].as_str());
                if !seq_has_exec(&d.tags, &tv) {
                    proof {
                        let av = all_of.deep_view();
                        assert(sel@ == (TargetSelectorV::ByTags { all_of: av }));
                        assert(av.len() == all_of@.len());
                        assert(!seq_has(d@.tags, av[i as int]));
                        lemma_bytags_witness(d@, av, i as int);
                    }
                    return false;
                }
                i = i + 1;
            }
            true
        },
    }
}

/// Resolves selectors against a fixed snapshot of devices.
pub trait DeviceInventory {
    /// The snapshot this inventory answers from.
    spec fn snapshot(&self) -> Seq<DeviceV>;

    /// The devices the selector picks, in snapshot order; an empty list,
    /// never an error, when nothing matches.
    fn resolve_targets(&self, selector: &TargetSelector) -> (r: Vec<Device>)
        ensures
            r.deep_view() == resolve_spec(self.snapshot(), selector@),
    ;
}

/// An inventory held in memory, the engine's usual source of devices.
pub struct InMemoryInventory {
    pub devices: Vec<Device>,
}

impl InMemoryInventory {
    /// Wraps a device list as an inventory.
    pub fn new(devices: Vec<Device>) -> (r: InMemoryInventory)
        ensures
            r.snapshot() == devices.deep_view(),
    {
        InMemoryInventory { devices }
    }
}

impl DeviceInventory for InMemoryInventory {
    open spec fn snapshot(&self) -> Seq<DeviceV> {
        self.devices.deep_view()
    }

    fn resolve_targets(&self, selector: &TargetSelector) -> (r: Vec<Device>) {
        resolve_in_list(&self.devices, selector)
    }
}

/// Resolves a selector against a device list, keeping list order.
pub fn resolve_in_list(devices: &Vec<Device>, selector: &TargetSelector) -> (r: Vec<Device>)
    ensures
        r.deep_view() == resolve_spec(devices.deep_view(), selector@),
{
    let ghost dvs = devices.deep_view();
    let mut r: Vec<Device> = Vec::new();
    let mut i: usize = 0;
    proof {
        assert(r.deep_view() =~= resolve_spec(dvs.subrange(0, 0), selector@));
    }
    while i < devices.len()
        invariant
            dvs == devices.deep_view(),
            dvs.len() == devices@.len(),
            i <= devices@.len(),
            r.deep_view() == resolve_spec(dvs.subrange(0, i as int), selector@),
        decreases devices@.len() - i,
    {
        let ghost old_r = r.deep_view();
        if device_matches_exec(&devices[i], selector) {
            r.push(devices[i].clone());
            proof {
                assert(r.deep_view() =~= old_r + seq![dvs[i as int]]);
            }
        }
        proof {
            let pre = dvs.subrange(0, i + 1 as int);
            assert(pre.drop_last() =~= dvs.subrange(0, i as int));
            assert(pre.last() == dvs[i as int]);
            if !device_matches(dvs[i as int], selector@) {
                assert(r.deep_view() =~= resolve_spec(pre, selector@));
            }
        }
        i = i + 1;
    }
    proof {
        assert(dvs.subrange(0, dvs.len() as int) =~= dvs);
    }
    r
}

/// A device list as read from an inventory document.
#[derive(Debug)]
pub struct InventoryFile {
    pub devices: Vec<Device>,
}

/// Keeps only the devices whose id is in the given list, in inventory
/// order.
pub fn filter_inventory(base: &InventoryFile, device_ids: &Vec<String>) -> (r: InventoryFile)
    ensures
        r.devices.deep_view() == resolve_spec(
            base.devices.deep_view(),
            TargetSelectorV::ByIds { ids: device_ids.deep_view() },
        ),
{
    let selector = TargetSelector::ByIds { ids: crate::model::clone_string_vec(device_ids) };
    let devices = resolve_in_list(&base.devices, &selector);
    InventoryFile { devices }
}

} // verus!
