//! The room: a named, capacity-bounded container of uniquely named
//! smart devices.

use vstd::prelude::*;
use vstd::string::StringExecFns;

use crate::containers::{ContainerIOHistory, ContainerName, ErrorReason};
use crate::devices::smart_device::SmartDevice;
use crate::text::str_eq;

verus! {

/// The names of `devices`, in storage order.
pub open spec fn device_names(devices: Seq<SmartDevice>) -> Seq<Seq<char>> {
    devices.map_values(|d: SmartDevice| d.spec_name())
}

/// No two devices share a name.
pub open spec fn devices_distinct(devices: Seq<SmartDevice>) -> bool {
    forall|i: int, j: int|
        0 <= i < j < devices.len() ==> devices[i].spec_name() != devices[j].spec_name()
}

/// Some device is named `name`.
pub open spec fn contains_device(devices: Seq<SmartDevice>, name: Seq<char>) -> bool {
    exists|i: int| 0 <= i < devices.len() && devices[i].spec_name() == name
}

/// An index of a device named `name`.
pub open spec fn device_index(devices: Seq<SmartDevice>, name: Seq<char>) -> int {
    choose|i: int| 0 <= i < devices.len() && devices[i].spec_name() == name
}

/// Why adding a device named `name` fails, if it does: the capacity
/// check comes first, the duplicate check second.
pub open spec fn add_device_check(
    devices: Seq<SmartDevice>,
    limit: nat,
    name: Seq<char>,
) -> Option<ErrorReason> {
    if devices.len() >= limit {
        Some(ErrorReason::ItemLimitExceeded)
    } else if contains_device(devices, name) {
        Some(ErrorReason::ItemAlreadyPresented)
    } else {
        None
    }
}

/// The device list after an attempt to add `device`.
pub open spec fn add_device_next(
    devices: Seq<SmartDevice>,
    limit: nat,
    device: SmartDevice,
) -> Seq<SmartDevice> {
    if add_device_check(devices, limit, device.spec_name()) is None {
        devices.push(device)
    } else {
        devices
    }
}

/// Why removing the device named `name` fails, if it does.
pub open spec fn remove_device_check(
    devices: Seq<SmartDevice>,
    name: Seq<char>,
) -> Option<ErrorReason> {
    if contains_device(devices, name) {
        None
    } else {
        Some(ErrorReason::ItemDoesntExist)
    }
}

/// The device list after an attempt to remove the device named `name`.
pub open spec fn remove_device_next(
    devices: Seq<SmartDevice>,
    name: Seq<char>,
) -> Seq<SmartDevice> {
    if contains_device(devices, name) {
        devices.remove(device_index(devices, name))
    } else {
        devices
    }
}

/// The confirmation text of a successful add.
pub open spec fn device_added_text(device: Seq<char>, room: Seq<char>) -> Seq<char> {
    "Device "@ + device + " has been registered in room "@ + room
}

/// The confirmation text of a successful removal.
pub open spec fn device_removed_text(device: Seq<char>, room: Seq<char>) -> Seq<char> {
    "Device "@ + device + " has been removed from room "@ + room
}

/// In a duplicate-free device list, the position of a stored device is
/// the index its name looks up to.
pub proof fn lemma_device_index_of(devices: Seq<SmartDevice>, j: int)
    requires
        devices_distinct(devices),
        0 <= j < devices.len(),
    ensures
        contains_device(devices, devices[j].spec_name()),
        device_index(devices, devices[j].spec_name()) == j,
{
    assert(contains_device(devices, devices[j].spec_name()));
    let k = device_index(devices, devices[j].spec_name());
    assert(0 <= k < devices.len() && devices[k].spec_name() == devices[j].spec_name());
}

/// Pushing a device with a fresh name keeps the names distinct.
pub proof fn lemma_distinct_after_push(devices: Seq<SmartDevice>, device: SmartDevice)
    requires
        devices_distinct(devices),
        !contains_device(devices, device.spec_name()),
    ensures
        devices_distinct(devices.push(device)),
{
    let after = devices.push(device);
    assert forall|i: int, j: int| 0 <= i < j < after.len() implies after[i].spec_name()
        != after[j].spec_name() by {
        if j == devices.len() as int {
            assert(after[j] == device);
            assert(after[i] == devices[i]);
            assert(devices[i].spec_name() != device.spec_name());
        }
    }
}

/// What the names of a device list contain after a push.
pub proof fn lemma_contains_after_push(devices: Seq<SmartDevice>, device: SmartDevice, name: Seq<char>)
    ensures
        contains_device(devices.push(device), name) <==> (contains_device(devices, name)
            || device.spec_name() == name),
{
    let after = devices.push(device);
    if contains_device(after, name) {
        let i = choose|i: int| 0 <= i < after.len() && after[i].spec_name() == name;
        if i < devices.len() {
            assert(devices[i].spec_name() == name);
        }
    }
    if contains_device(devices, name) {
        let i = choose|i: int| 0 <= i < devices.len() && devices[i].spec_name() == name;
        assert(after[i].spec_name() == name);
    }
    if device.spec_name() == name {
        assert(after[devices.len() as int].spec_name() == name);
    }
}

/// Removing one device keeps the names distinct, and with distinct
/// names the removed name is gone.
pub proof fn lemma_distinct_after_remove(devices: Seq<SmartDevice>, j: int)
    requires
        devices_distinct(devices),
        0 <= j < devices.len(),
    ensures
        devices_distinct(devices.remove(j)),
        !contains_device(devices.remove(j), devices[j].spec_name()),
{
    let after = devices.remove(j);
    assert forall|i: int, k: int| 0 <= i < k < after.len() implies after[i].spec_name()
        != after[k].spec_name() by {
        assert(after[i] == (if i < j { devices[i] } else { devices[i + 1] }));
        assert(after[k] == (if k < j { devices[k] } else { devices[k + 1] }));
    }
    assert forall|i: int| 0 <= i < after.len() implies after[i].spec_name()
        != devices[j].spec_name() by {
        assert(after[i] == (if i < j { devices[i] } else { devices[i + 1] }));
    }
}

/// A room: uniquely named devices behind one room name, at most
/// `device_limit` of them.
pub struct Room {
    /// The name of the room.
    pub name: ContainerName,
    /// The smart devices registered in the room.
    devices: Vec<SmartDevice>,
    /// The maximum number of devices the room accepts.
    device_limit: usize,
}

impl Room {
    /// The name of the room.
    pub closed spec fn spec_name(&self) -> Seq<char> {
        self.name@
    }

    /// The devices of the room, in insertion order.
    pub closed spec fn spec_devices(&self) -> Seq<SmartDevice> {
        self.devices@
    }

    /// The maximum number of devices the room accepts.
    pub closed spec fn spec_device_limit(&self) -> usize {
        self.device_limit
    }

    /// Validity: device names are unique and the capacity bound holds.
    pub open spec fn wf(&self) -> bool {
        devices_distinct(self.spec_devices()) && self.spec_devices().len()
            <= self.spec_device_limit()
    }

    /// Creates an empty room named `name` accepting at most `limit`
    /// devices.
    pub fn new(name: &str, limit: usize) -> (r: Self)
        ensures
            r.spec_name() == name@,
            r.spec_devices() == Seq::<SmartDevice>::empty(),
            r.spec_device_limit() == limit,
            r.wf(),
    {
        let r = Room { name: name.to_owned(), devices: Vec::new(), device_limit: limit };
        proof {
            assert(r.devices@ =~= Seq::<SmartDevice>::empty());
        }
        r
    }

    /// The room's name.
    pub fn get_name(&self) -> (r: &str)
        ensures
            r@ == self.spec_name(),
    {
        self.name.as_str()
    }

    fn find_device(&self, name: &str) -> (r: Option<usize>)
        requires
            self.wf(),
        ensures
            match r {
                Some(i) => i < self.spec_devices().len() && self.spec_devices()[i as int].spec_name()
                    == name@,
                None => !contains_device(self.spec_devices(), name@),
            },
    {
        let mut i: usize = 0;
        while i < self.devices.len()
            invariant
                i <= self.devices.len(),
                forall|j: int| 0 <= j < i ==> self.spec_devices()[j].spec_name() != name@,
            decreases self.devices.len() - i,
        {
            if str_eq(self.devices[i].get_name(), name) {
                return Some(i);
            }
            i = i + 1;
        }
        None
    }

    /// Adds `device` to the room. Fails with `ItemLimitExceeded` when
    /// the room is full, with `ItemAlreadyPresented` when a device of
    /// the same name is registered; otherwise appends the device and
    /// returns a confirmation text.
    pub fn add_device(&mut self, device: SmartDevice) -> (r: Result<
        ContainerIOHistory,
        ErrorReason,
    >)
        requires
            old(self).wf(),
        ensures
            final(self).spec_name() == old(self).spec_name(),
            final(self).spec_device_limit() == old(self).spec_device_limit(),
            final(self).wf(),
            final(self).spec_devices() == add_device_next(
                old(self).spec_devices(),
                old(self).spec_device_limit() as nat,
                device,
            ),
            r is Ok <==> add_device_check(
                old(self).spec_devices(),
                old(self).spec_device_limit() as nat,
                device.spec_name(),
            ) is None,
            r matches Err(e) ==> add_device_check(
                old(self).spec_devices(),
                old(self).spec_device_limit() as nat,
                device.spec_name(),
            ) == Some(e),
            r matches Ok(s) ==> s@ == device_added_text(device.spec_name(), old(self).spec_name()),
    {
        if self.devices.len() >= self.device_limit {
            return Err(ErrorReason::ItemLimitExceeded);
        }
        if self.find_device(device.get_name()).is_some() {
            return Err(ErrorReason::ItemAlreadyPresented);
        }
        let mut status = "Device ".to_owned();
        status.append(device.get_name());
        status.append(" has been registered in room ");
        status.append(self.name.as_str());
        proof {
            lemma_distinct_after_push(self.devices@, device);
        }
        self.devices.push(device);
        Ok(status)
    }

    /// Removes the device named `device_name`. Fails with
    /// `ItemDoesntExist` when no such device is registered; otherwise
    /// removes it and returns a confirmation text.
    pub fn remove_device(&mut self, device_name: &str) -> (r: Result<
        ContainerIOHistory,
        ErrorReason,
    >)
        requires
            old(self).wf(),
        ensures
            final(self).spec_name() == old(self).spec_name(),
            final(self).spec_device_limit() == old(self).spec_device_limit(),
            final(self).wf(),
            final(self).spec_devices() == remove_device_next(old(self).spec_devices(), device_name@),
            r is Ok <==> contains_device(old(self).spec_devices(), device_name@),
            r matches Err(e) ==> e == ErrorReason::ItemDoesntExist,
            r matches Ok(s) ==> s@ == device_removed_text(device_name@, old(self).spec_name()),
    {
        match self.find_device(device_name) {
            None => Err(ErrorReason::ItemDoesntExist),
            Some(i) => {
                let mut status = "Device ".to_owned();
                status.append(device_name);
                status.append(" has been removed from room ");
                status.append(self.name.as_str());
                proof {
                    lemma_device_index_of(self.devices@, i as int);
                    lemma_distinct_after_remove(self.devices@, i as int);
                }
                self.devices.remove(i);
                Ok(status)
            },
        }
    }

    /// Looks up the device named `device_name`.
    pub fn get_device(&self, device_name: &str) -> (r: Option<&SmartDevice>)
        requires
            self.wf(),
        ensures
            match r {
                Some(d) => contains_device(self.spec_devices(), device_name@) && *d
                    == self.spec_devices()[device_index(self.spec_devices(), device_name@)]
                    && d.spec_name() == device_name@,
                None => !contains_device(self.spec_devices(), device_name@),
            },
    {
        match self.find_device(device_name) {
            None => None,
            Some(i) => {
                proof {
                    lemma_device_index_of(self.devices@, i as int);
                }
                Some(&self.devices[i])
            },
        }
    }

    /// The names of the registered devices, in insertion order; an
    /// empty room yields an empty (never absent) list.
    pub fn get_device_list(&self) -> (r: Vec<ContainerName>)
        ensures
            r.deep_view() == device_names(self.spec_devices()),
    {
        let mut r: Vec<ContainerName> = Vec::new();
        let mut i: usize = 0;
        while i < self.devices.len()
            invariant
                i <= self.devices.len(),
                r@.len() == i,
                forall|k: int| 0 <= k < i ==> r@[k]@ == self.spec_devices()[k].spec_name(),
            decreases self.devices.len() - i,
        {
            r.push(self.devices[i].get_name().to_owned());
            i = i + 1;
        }
        proof {
            assert forall|k: int| 0 <= k < r@.len() implies r.deep_view()[k] == device_names(
                self.spec_devices(),
            )[k] by {
                assert(r@[k]@ == self.spec_devices()[k].spec_name());
            }
            assert(r.deep_view() =~= device_names(self.spec_devices()));
        }
        r
    }
}

/// The device list after adding each element of `incoming`, in order.
pub open spec fn add_devices_all(
    devices: Seq<SmartDevice>,
    limit: nat,
    incoming: Seq<SmartDevice>,
) -> Seq<SmartDevice>
    decreases incoming.len(),
{
    if incoming.len() == 0 {
        devices
    } else {
        add_devices_all(add_device_next(devices, limit, incoming[0]), limit, incoming.drop_first())
    }
}

/// Every add of `incoming`, made in order, succeeds.
pub open spec fn adds_all_succeed(
    devices: Seq<SmartDevice>,
    limit: nat,
    incoming: Seq<SmartDevice>,
) -> bool
    decreases incoming.len(),
{
    if incoming.len() == 0 {
        true
    } else {
        add_device_check(devices, limit, incoming[0].spec_name()) is None && adds_all_succeed(
            add_device_next(devices, limit, incoming[0]),
            limit,
            incoming.drop_first(),
        )
    }
}

/// Law: devices with distinct names, none of them registered yet, all
/// fit as long as the device limit is respected, and they land in
/// insertion order.
pub proof fn lemma_fill_devices_to_limit(
    devices: Seq<SmartDevice>,
    limit: nat,
    incoming: Seq<SmartDevice>,
)
    requires
        devices_distinct(devices),
        devices_distinct(incoming),
        forall|i: int|
            0 <= i < incoming.len() ==> !contains_device(
                devices,
                #[trigger] incoming[i].spec_name(),
            ),
        devices.len() + incoming.len() <= limit,
    ensures
        adds_all_succeed(devices, limit, incoming),
        add_devices_all(devices, limit, incoming) == devices + incoming,
        devices_distinct(devices + incoming),
    decreases incoming.len(),
{
    if incoming.len() == 0 {
        assert(devices + incoming =~= devices);
    } else {
        let d0 = incoming[0];
        assert(!contains_device(devices, incoming[0].spec_name()));
        let next = devices.push(d0);
        assert(add_device_next(devices, limit, d0) == next);
        lemma_distinct_after_push(devices, d0);
        let rest = incoming.drop_first();
        assert forall|i: int| 0 <= i < rest.len() implies !contains_device(
            next,
            #[trigger] rest[i].spec_name(),
        ) by {
            assert(rest[i] == incoming[i + 1]);
            assert(!contains_device(devices, incoming[i + 1].spec_name()));
            assert(incoming[0].spec_name() != incoming[i + 1].spec_name());
            lemma_contains_after_push(devices, d0, rest[i].spec_name());
        }
        lemma_fill_devices_to_limit(next, limit, rest);
        assert(next + rest =~= devices + incoming);
    }
}

/// Law: a room already holding `limit` devices refuses any further
/// add with `ItemLimitExceeded`, whatever the name.
pub proof fn lemma_full_room_refuses(devices: Seq<SmartDevice>, limit: nat, name: Seq<char>)
    requires
        devices.len() >= limit,
    ensures
        add_device_check(devices, limit, name) == Some(ErrorReason::ItemLimitExceeded),
{
}

/// Law: removing any one device from a full room makes space, so that
/// one more device with a name absent from the rest fits again.
pub proof fn lemma_remove_then_add(
    devices: Seq<SmartDevice>,
    limit: nat,
    j: int,
    name: Seq<char>,
)
    requires
        devices_distinct(devices),
        devices.len() == limit,
        0 <= j < devices.len(),
        !contains_device(devices.remove(j), name),
    ensures
        remove_device_check(devices, devices[j].spec_name()) is None,
        remove_device_next(devices, devices[j].spec_name()) == devices.remove(j),
        add_device_check(devices.remove(j), limit, name) is None,
{
    lemma_device_index_of(devices, j);
}

/// Law: after an add of `device` succeeds, looking its name up in the
/// new device list returns exactly `device`, name included.
pub proof fn lemma_add_then_get(devices: Seq<SmartDevice>, limit: nat, device: SmartDevice)
    requires
        devices_distinct(devices),
        add_device_check(devices, limit, device.spec_name()) is None,
    ensures
        ({
            let after = add_device_next(devices, limit, device);
            contains_device(after, device.spec_name()) && after[device_index(
                after,
                device.spec_name(),
            )] == device
        }),
{
    let after = devices.push(device);
    lemma_distinct_after_push(devices, device);
    lemma_device_index_of(after, devices.len() as int);
}

} // verus!
