//! The smart house registry: rooms registered by name, each holding a
//! bounded list of uniquely named device names, with a report protocol
//! driven by a caller-supplied info provider.

use vstd::prelude::*;
use vstd::string::StringExecFns;

use crate::info_providers::{SmartDeviceInfoProvider, SmartDeviceRegistrationState};
use crate::text::{concat_all, concat_strings, join_strings, join_with, str_eq};

verus! {

/// The mathematical model of a registry: one entry per room, the room
/// name paired with the names of the devices linked to it, in
/// insertion order.
pub type HouseModel = Seq<(Seq<char>, Seq<Seq<char>>)>;

/// The result of an operation on the contents of a smart house.
#[derive(Clone, Copy, PartialEq, Eq, Structural, Debug)]
pub enum SmartHouseManagementStatus {
    /// The operation took effect.
    OperationSucceded,
    /// The operation was refused for the contained reason.
    OperationFailed(ErrorReason),
}

/// Why an operation on the contents of a smart house was refused.
#[derive(Clone, Copy, PartialEq, Eq, Structural, Debug)]
pub enum ErrorReason {
    /// The house already holds its maximum number of rooms.
    RoomLimitExceeded,
    /// The room already holds its maximum number of devices.
    DeviceLimitExceeded,
    /// The house already holds a room with this name.
    RoomAlreadyPresented,
    /// The room already holds a device with this name.
    DeviceAlreadyPresented,
    /// The house holds no room with this name.
    RoomDoesntExist,
    /// The room holds no device with this name.
    DeviceDoesntExist,
}

/// The room names of `m`, in storage order.
pub open spec fn model_room_names(m: HouseModel) -> Seq<Seq<char>> {
    m.map_values(|entry: (Seq<char>, Seq<Seq<char>>)| entry.0)
}

/// No two entries of `m` share a room name.
pub open spec fn model_rooms_distinct(m: HouseModel) -> bool {
    forall|i: int, j: int| 0 <= i < j < m.len() ==> m[i].0 != m[j].0
}

/// No two names of `names` are equal.
pub open spec fn names_distinct(names: Seq<Seq<char>>) -> bool {
    forall|i: int, j: int| 0 <= i < j < names.len() ==> names[i] != names[j]
}

/// Some entry of `m` is the room named `room`.
pub open spec fn model_contains_room(m: HouseModel, room: Seq<char>) -> bool {
    exists|i: int| 0 <= i < m.len() && m[i].0 == room
}

/// An index of the entry of the room named `room`.
pub open spec fn model_room_index(m: HouseModel, room: Seq<char>) -> int {
    choose|i: int| 0 <= i < m.len() && m[i].0 == room
}

/// The device names linked to the room named `room`; an absent room
/// has none.
pub open spec fn model_devices(m: HouseModel, room: Seq<char>) -> Seq<Seq<char>> {
    if model_contains_room(m, room) {
        m[model_room_index(m, room)].1
    } else {
        Seq::empty()
    }
}

/// The device named `device` is linked to the room named `room`.
pub open spec fn model_device_in_room(m: HouseModel, room: Seq<char>, device: Seq<char>) -> bool {
    model_contains_room(m, room) && model_devices(m, room).contains(device)
}

/// Validity of a registry: room names unique, device names unique
/// within each room, and both capacity bounds respected.
pub open spec fn model_wf(m: HouseModel, room_limit: nat, device_limit: nat) -> bool {
    &&& model_rooms_distinct(m)
    &&& m.len() <= room_limit
    &&& forall|i: int|
        0 <= i < m.len() ==> names_distinct(#[trigger] m[i].1) && m[i].1.len() <= device_limit
}

/// The result of registering a room named `room`: the capacity check
/// comes first, the duplicate check second.
pub open spec fn add_room_result(
    m: HouseModel,
    room_limit: nat,
    room: Seq<char>,
) -> SmartHouseManagementStatus {
    if m.len() == room_limit {
        SmartHouseManagementStatus::OperationFailed(ErrorReason::RoomLimitExceeded)
    } else if model_contains_room(m, room) {
        SmartHouseManagementStatus::OperationFailed(ErrorReason::RoomAlreadyPresented)
    } else {
        SmartHouseManagementStatus::OperationSucceded
    }
}

/// The registry after an attempt to register a room named `room`.
pub open spec fn add_room_next(m: HouseModel, room_limit: nat, room: Seq<char>) -> HouseModel {
    if add_room_result(m, room_limit, room) is OperationSucceded {
        m.push((room, Seq::empty()))
    } else {
        m
    }
}

/// The result of deleting the room named `room`.
pub open spec fn delete_room_result(m: HouseModel, room: Seq<char>) -> SmartHouseManagementStatus {
    if model_contains_room(m, room) {
        SmartHouseManagementStatus::OperationSucceded
    } else {
        SmartHouseManagementStatus::OperationFailed(ErrorReason::RoomDoesntExist)
    }
}

/// The registry after an attempt to delete the room named `room`.
pub open spec fn delete_room_next(m: HouseModel, room: Seq<char>) -> HouseModel {
    if model_contains_room(m, room) {
        m.remove(model_room_index(m, room))
    } else {
        m
    }
}

/// The result of linking the device named `device` to the room named
/// `room`: a missing room first, a duplicate device second, a full
/// room third.
pub open spec fn link_device_result(
    m: HouseModel,
    device_limit: nat,
    room: Seq<char>,
    device: Seq<char>,
) -> SmartHouseManagementStatus {
    if !model_contains_room(m, room) {
        SmartHouseManagementStatus::OperationFailed(ErrorReason::RoomDoesntExist)
    } else if model_device_in_room(m, room, device) {
        SmartHouseManagementStatus::OperationFailed(ErrorReason::DeviceAlreadyPresented)
    } else if model_devices(m, room).len() == device_limit {
        SmartHouseManagementStatus::OperationFailed(ErrorReason::DeviceLimitExceeded)
    } else {
        SmartHouseManagementStatus::OperationSucceded
    }
}

/// The registry after an attempt to link the device named `device` to
/// the room named `room`.
pub open spec fn link_device_next(
    m: HouseModel,
    device_limit: nat,
    room: Seq<char>,
    device: Seq<char>,
) -> HouseModel {
    if link_device_result(m, device_limit, room, device) is OperationSucceded {
        let i = model_room_index(m, room);
        m.update(i, (m[i].0, m[i].1.push(device)))
    } else {
        m
    }
}

/// The result of unlinking the device named `device` from the room
/// named `room`: a missing room first, a missing device second.
pub open spec fn unlink_device_result(
    m: HouseModel,
    room: Seq<char>,
    device: Seq<char>,
) -> SmartHouseManagementStatus {
    if !model_contains_room(m, room) {
        SmartHouseManagementStatus::OperationFailed(ErrorReason::RoomDoesntExist)
    } else if !model_device_in_room(m, room, device) {
        SmartHouseManagementStatus::OperationFailed(ErrorReason::DeviceDoesntExist)
    } else {
        SmartHouseManagementStatus::OperationSucceded
    }
}

/// An index of `device` in the device list `devices`.
pub open spec fn device_name_index(devices: Seq<Seq<char>>, device: Seq<char>) -> int {
    choose|k: int| 0 <= k < devices.len() && devices[k] == device
}

/// The registry after an attempt to unlink the device named `device`
/// from the room named `room`.
pub open spec fn unlink_device_next(
    m: HouseModel,
    room: Seq<char>,
    device: Seq<char>,
) -> HouseModel {
    if unlink_device_result(m, room, device) is OperationSucceded {
        let i = model_room_index(m, room);
        m.update(i, (m[i].0, m[i].1.remove(device_name_index(m[i].1, device))))
    } else {
        m
    }
}

/// In a registry with distinct room names, the position of an entry is
/// the index its room name looks up to.
pub proof fn lemma_model_index_of(m: HouseModel, j: int)
    requires
        model_rooms_distinct(m),
        0 <= j < m.len(),
    ensures
        model_contains_room(m, m[j].0),
        model_room_index(m, m[j].0) == j,
        model_devices(m, m[j].0) == m[j].1,
{
    assert(model_contains_room(m, m[j].0));
    let k = model_room_index(m, m[j].0);
    assert(0 <= k < m.len() && m[k].0 == m[j].0);
}

/// What the room names of a registry contain after a push.
pub proof fn lemma_model_contains_after_push(
    m: HouseModel,
    entry: (Seq<char>, Seq<Seq<char>>),
    room: Seq<char>,
)
    ensures
        model_contains_room(m.push(entry), room) <==> (model_contains_room(m, room) || entry.0
            == room),
{
    let after = m.push(entry);
    if model_contains_room(after, room) {
        let i = choose|i: int| 0 <= i < after.len() && after[i].0 == room;
        if i < m.len() {
            assert(m[i].0 == room);
        }
    }
    if model_contains_room(m, room) {
        let i = choose|i: int| 0 <= i < m.len() && m[i].0 == room;
        assert(after[i].0 == room);
    }
    if entry.0 == room {
        assert(after[m.len() as int].0 == room);
    }
}

/// Pushing an entry with a fresh room name keeps the room names
/// distinct.
pub proof fn lemma_model_distinct_after_push(m: HouseModel, entry: (Seq<char>, Seq<Seq<char>>))
    requires
        model_rooms_distinct(m),
        !model_contains_room(m, entry.0),
    ensures
        model_rooms_distinct(m.push(entry)),
{
    let after = m.push(entry);
    assert forall|i: int, j: int| 0 <= i < j < after.len() implies after[i].0 != after[j].0 by {
        if j == m.len() as int {
            assert(after[i] == m[i]);
            assert(m[i].0 != entry.0);
        }
    }
}

/// Removing one entry keeps the room names distinct, and with distinct
/// names the removed room name is gone.
pub proof fn lemma_model_distinct_after_remove(m: HouseModel, j: int)
    requires
        model_rooms_distinct(m),
        0 <= j < m.len(),
    ensures
        model_rooms_distinct(m.remove(j)),
        !model_contains_room(m.remove(j), m[j].0),
{
    let after = m.remove(j);
    assert forall|i: int, k: int| 0 <= i < k < after.len() implies after[i].0 != after[k].0 by {
        assert(after[i] == (if i < j { m[i] } else { m[i + 1] }));
        assert(after[k] == (if k < j { m[k] } else { m[k + 1] }));
    }
    assert forall|i: int| 0 <= i < after.len() implies after[i].0 != m[j].0 by {
        assert(after[i] == (if i < j { m[i] } else { m[i + 1] }));
    }
}

/// Pushing a fresh name keeps a name list distinct.
pub proof fn lemma_names_distinct_after_push(names: Seq<Seq<char>>, name: Seq<char>)
    requires
        names_distinct(names),
        !names.contains(name),
    ensures
        names_distinct(names.push(name)),
{
    let after = names.push(name);
    assert forall|i: int, j: int| 0 <= i < j < after.len() implies after[i] != after[j] by {
        if j == names.len() as int {
            assert(after[i] == names[i]);
            assert(names[i] != name);
        }
    }
}

/// Removing one name keeps a name list distinct, and with distinct
/// names the removed name is gone.
pub proof fn lemma_names_distinct_after_remove(names: Seq<Seq<char>>, j: int)
    requires
        names_distinct(names),
        0 <= j < names.len(),
    ensures
        names_distinct(names.remove(j)),
        !names.remove(j).contains(names[j]),
{
    let after = names.remove(j);
    assert forall|i: int, k: int| 0 <= i < k < after.len() implies after[i] != after[k] by {
        assert(after[i] == (if i < j { names[i] } else { names[i + 1] }));
        assert(after[k] == (if k < j { names[k] } else { names[k + 1] }));
    }
    assert forall|i: int| 0 <= i < after.len() implies after[i] != names[j] by {
        assert(after[i] == (if i < j { names[i] } else { names[i + 1] }));
    }
}

/// The status line of one registry entry: its linked device names, or
/// an explicit no-devices text.
pub open spec fn room_status_line(entry: (Seq<char>, Seq<Seq<char>>)) -> Seq<char> {
    if entry.1.len() > 0 {
        "К комнате "@ + entry.0 + " привязаны устройства: "@ + join_with(entry.1, ", "@) + "\n"@
    } else {
        "С комнатой "@ + entry.0 + " не связано ни одно устройство!\n"@
    }
}

/// The status lines of all registry entries, in storage order.
pub open spec fn house_status_parts(m: HouseModel) -> Seq<Seq<char>>
    decreases m.len(),
{
    if m.len() == 0 {
        Seq::empty()
    } else {
        house_status_parts(m.drop_last()) + seq![room_status_line(m.last())]
    }
}

/// The status text of a registry: one line per room, or an explicit
/// no-rooms text for an empty house.
pub open spec fn house_status_text(m: HouseModel, house_name: Seq<char>) -> Seq<char> {
    if m.len() == 0 {
        "В доме "@ + house_name + " не зарегистрировано ни одной комнаты!\n"@
    } else {
        concat_all(house_status_parts(m))
    }
}

/// The room, among the names `rooms` scanned in order, in which
/// `provider` first locates the device named `device` in `house`.
pub open spec fn first_located_room<P: SmartDeviceInfoProvider>(
    house: SmartHouse,
    provider: P,
    device: Seq<char>,
    rooms: Seq<Seq<char>>,
) -> Option<Seq<char>>
    decreases rooms.len(),
{
    if rooms.len() == 0 {
        None
    } else if provider.locates(house, rooms[0], device) {
        Some(rooms[0])
    } else {
        first_located_room(house, provider, device, rooms.drop_first())
    }
}

/// The report line for the device named `device`: the provider's text
/// for the first room that locates it, or the not-registered line.
pub open spec fn device_report_line<P: SmartDeviceInfoProvider>(
    house: SmartHouse,
    provider: P,
    device: Seq<char>,
) -> Seq<char> {
    match first_located_room(house, provider, device, model_room_names(house.model())) {
        Some(room) => provider.located_text(room, device),
        None => "It seems "@ + device + " isn't registered in "@ + house.spec_name() + "\n"@,
    }
}

/// The report lines for the device names `wanted`, concatenated in
/// order.
pub open spec fn report_lines<P: SmartDeviceInfoProvider>(
    house: SmartHouse,
    provider: P,
    wanted: Seq<Seq<char>>,
) -> Seq<char>
    decreases wanted.len(),
{
    if wanted.len() == 0 {
        Seq::empty()
    } else {
        report_lines(house, provider, wanted.drop_last()) + device_report_line(
            house,
            provider,
            wanted.last(),
        )
    }
}

/// The whole report: one line per wanted device, or a single
/// initialization reminder for a house without rooms, whatever the
/// provider wants reported on.
pub open spec fn report_text<P: SmartDeviceInfoProvider>(house: SmartHouse, provider: P) -> Seq<
    char,
> {
    if house.model().len() == 0 {
        "You should initialize the "@ + house.spec_name() + " properly!\n"@
    } else {
        report_lines(house, provider, provider.wanted_names())
    }
}

/// Scanning may start after any prefix of rooms in which the provider
/// locates nothing: the first located room is unchanged.
proof fn lemma_first_located_skip<P: SmartDeviceInfoProvider>(
    house: SmartHouse,
    provider: P,
    device: Seq<char>,
    rooms: Seq<Seq<char>>,
    i: int,
)
    requires
        0 <= i <= rooms.len(),
        forall|j: int| 0 <= j < i ==> !provider.locates(house, #[trigger] rooms[j], device),
    ensures
        first_located_room(house, provider, device, rooms) == first_located_room(
            house,
            provider,
            device,
            rooms.skip(i),
        ),
    decreases i,
{
    if i > 0 {
        lemma_first_located_skip(house, provider, device, rooms, i - 1);
        assert(rooms.skip(i - 1)[0] == rooms[i - 1]);
        assert(rooms.skip(i - 1).drop_first() =~= rooms.skip(i));
    } else {
        assert(rooms.skip(0) =~= rooms);
    }
}

/// In a duplicate-free name list, the position of a stored name is the
/// index it looks up to.
pub proof fn lemma_name_index_of(names: Seq<Seq<char>>, j: int)
    requires
        names_distinct(names),
        0 <= j < names.len(),
    ensures
        names.contains(names[j]),
        device_name_index(names, names[j]) == j,
{
    assert(names.contains(names[j]));
    let k = device_name_index(names, names[j]);
    assert(0 <= k < names.len() && names[k] == names[j]);
}

/// Replacing the device list of one entry keeps a registry well
/// formed, as long as the new list is itself distinct and bounded.
pub proof fn lemma_model_wf_after_update_devices(
    m: HouseModel,
    room_limit: nat,
    device_limit: nat,
    i: int,
    devices: Seq<Seq<char>>,
)
    requires
        model_wf(m, room_limit, device_limit),
        0 <= i < m.len(),
        names_distinct(devices),
        devices.len() <= device_limit,
    ensures
        model_wf(m.update(i, (m[i].0, devices)), room_limit, device_limit),
{
    let after = m.update(i, (m[i].0, devices));
    assert forall|a: int, b: int| 0 <= a < b < after.len() implies after[a].0 != after[b].0 by {
        assert(after[a].0 == m[a].0);
        assert(after[b].0 == m[b].0);
    }
    assert forall|k: int| 0 <= k < after.len() implies names_distinct(#[trigger] after[k].1)
        && after[k].1.len() <= device_limit by {
        if k != i {
            assert(after[k] == m[k]);
        }
    }
}

/// Law: a device can never be found in a room that is not registered,
/// whatever the device name.
pub proof fn lemma_missing_room_never_locates(m: HouseModel, room: Seq<char>, device: Seq<char>)
    requires
        !model_contains_room(m, room),
    ensures
        !model_device_in_room(m, room, device),
{
}

/// Law: a house without rooms reports exactly the single
/// initialization reminder, whatever the provider wants reported on.
pub proof fn lemma_empty_house_single_line<P: SmartDeviceInfoProvider>(
    house: SmartHouse,
    provider: P,
)
    requires
        house.model().len() == 0,
    ensures
        report_text(house, provider) == "You should initialize the "@ + house.spec_name()
            + " properly!\n"@,
{
}

/// The registry after registering each room name of `incoming`, in
/// order.
pub open spec fn add_rooms_all(
    m: HouseModel,
    room_limit: nat,
    incoming: Seq<Seq<char>>,
) -> HouseModel
    decreases incoming.len(),
{
    if incoming.len() == 0 {
        m
    } else {
        add_rooms_all(add_room_next(m, room_limit, incoming[0]), room_limit, incoming.drop_first())
    }
}

/// Every room registration of `incoming`, made in order, succeeds.
pub open spec fn room_adds_all_succeed(
    m: HouseModel,
    room_limit: nat,
    incoming: Seq<Seq<char>>,
) -> bool
    decreases incoming.len(),
{
    if incoming.len() == 0 {
        true
    } else {
        add_room_result(m, room_limit, incoming[0]) is OperationSucceded && room_adds_all_succeed(
            add_room_next(m, room_limit, incoming[0]),
            room_limit,
            incoming.drop_first(),
        )
    }
}

/// Law: distinct fresh room names fill a house up to its room limit,
/// and once the house is full the next registration fails with
/// `RoomLimitExceeded`, whatever the name.
pub proof fn lemma_fill_house_to_limit(m: HouseModel, room_limit: nat, incoming: Seq<Seq<char>>)
    requires
        model_rooms_distinct(m),
        names_distinct(incoming),
        forall|i: int| 0 <= i < incoming.len() ==> !model_contains_room(m, #[trigger] incoming[i]),
        m.len() + incoming.len() <= room_limit,
    ensures
        room_adds_all_succeed(m, room_limit, incoming),
        add_rooms_all(m, room_limit, incoming).len() == m.len() + incoming.len(),
        m.len() + incoming.len() == room_limit ==> forall|name: Seq<char>|
            add_room_result(add_rooms_all(m, room_limit, incoming), room_limit, name)
                == SmartHouseManagementStatus::OperationFailed(ErrorReason::RoomLimitExceeded),
    decreases incoming.len(),
{
    if incoming.len() > 0 {
        let entry = (incoming[0], Seq::<Seq<char>>::empty());
        let next = m.push(entry);
        lemma_model_distinct_after_push(m, entry);
        let rest = incoming.drop_first();
        assert forall|i: int| 0 <= i < rest.len() implies !model_contains_room(
            next,
            #[trigger] rest[i],
        ) by {
            assert(rest[i] == incoming[i + 1]);
            assert(!model_contains_room(m, incoming[i + 1]));
            assert(incoming[0] != incoming[i + 1]);
            lemma_model_contains_after_push(m, entry, rest[i]);
        }
        lemma_fill_house_to_limit(next, room_limit, rest);
    }
}

/// Law: registering a room name already present in a house that still
/// has space fails with `RoomAlreadyPresented` and leaves the whole
/// registry, every room's devices included, unchanged.
pub proof fn lemma_duplicate_room_add_rejected(m: HouseModel, room_limit: nat, room: Seq<char>)
    requires
        m.len() < room_limit,
        model_contains_room(m, room),
    ensures
        add_room_result(m, room_limit, room) == SmartHouseManagementStatus::OperationFailed(
            ErrorReason::RoomAlreadyPresented,
        ),
        add_room_next(m, room_limit, room) == m,
{
}

/// Law: unlinking any device from a full room succeeds and makes
/// space, so that linking one more device, with a name absent from
/// the remaining list, succeeds again.
pub proof fn lemma_unlink_then_link(
    m: HouseModel,
    device_limit: nat,
    room: Seq<char>,
    removed: Seq<char>,
    fresh: Seq<char>,
)
    requires
        model_rooms_distinct(m),
        names_distinct(model_devices(m, room)),
        model_device_in_room(m, room, removed),
        model_devices(m, room).len() == device_limit,
        fresh == removed || !model_devices(m, room).contains(fresh),
    ensures
        unlink_device_result(m, room, removed) is OperationSucceded,
        link_device_result(
            unlink_device_next(m, room, removed),
            device_limit,
            room,
            fresh,
        ) is OperationSucceded,
{
    let i = model_room_index(m, room);
    assert(0 <= i < m.len() && m[i].0 == room);
    let devices = m[i].1;
    let k = device_name_index(devices, removed);
    assert(0 <= k < devices.len() && devices[k] == removed);
    let after_devices = devices.remove(k);
    let next = m.update(i, (m[i].0, after_devices));
    assert(unlink_device_next(m, room, removed) == next);
    lemma_names_distinct_after_remove(devices, k);
    assert forall|a: int, b: int| 0 <= a < b < next.len() implies next[a].0 != next[b].0 by {
        assert(next[a].0 == m[a].0);
        assert(next[b].0 == m[b].0);
    }
    assert(next[i].0 == room);
    assert(model_contains_room(next, room));
    lemma_model_index_of(next, i);
    assert(model_devices(next, room) == after_devices);
    assert(after_devices.len() < device_limit);
    if fresh == removed {
        assert(!after_devices.contains(fresh));
    } else {
        if after_devices.contains(fresh) {
            let j = choose|j: int| 0 <= j < after_devices.len() && after_devices[j] == fresh;
            assert(after_devices[j] == (if j < k {
                devices[j]
            } else {
                devices[j + 1]
            }));
            assert(devices.contains(fresh));
        }
    }
}

/// One registered room: its name and the names of the devices linked
/// to it.
struct SmartRoom {
    /// The name of the room.
    name: String,
    /// The names of the devices linked to the room.
    devices: Vec<String>,
}

/// A smart house: a capacity-bounded registry of rooms, each with a
/// capacity-bounded list of linked device names.
pub struct SmartHouse {
    /// The user-chosen alias of the house.
    pub name: String,
    /// The registered rooms.
    smart_rooms: Vec<SmartRoom>,
    /// The maximum number of rooms the house accepts.
    room_limit: usize,
    /// The maximum number of devices each room accepts.
    device_limit: usize,
}

impl SmartHouse {
    /// The registry's model: room names with their device names, in
    /// insertion order.
    pub closed spec fn model(&self) -> HouseModel {
        self.smart_rooms@.map_values(|r: SmartRoom| (r.name@, r.devices.deep_view()))
    }

    /// The name of the house.
    pub closed spec fn spec_name(&self) -> Seq<char> {
        self.name@
    }

    /// The maximum number of rooms the house accepts.
    pub closed spec fn spec_room_limit(&self) -> usize {
        self.room_limit
    }

    /// The maximum number of devices each room accepts.
    pub closed spec fn spec_device_limit(&self) -> usize {
        self.device_limit
    }

    /// Validity: the model is well formed for the two limits.
    pub open spec fn wf(&self) -> bool {
        model_wf(self.model(), self.spec_room_limit() as nat, self.spec_device_limit() as nat)
    }

    /// Creates an empty house named `smart_house_name`, accepting at
    /// most 5 rooms with at most 10 devices each.
    pub fn new(smart_house_name: &str) -> (r: Self)
        ensures
            r.spec_name() == smart_house_name@,
            r.model() == Seq::<(Seq<char>, Seq<Seq<char>>)>::empty(),
            r.spec_room_limit() == 5,
            r.spec_device_limit() == 10,
            r.wf(),
    {
        let r = SmartHouse {
            name: String::from_str(smart_house_name),
            smart_rooms: Vec::new(),
            room_limit: 5,
            device_limit: 10,
        };
        proof {
            assert(r.model() =~= Seq::<(Seq<char>, Seq<Seq<char>>)>::empty());
        }
        r
    }

    fn find_room(&self, name: &str) -> (r: Option<usize>)
        ensures
            match r {
                Some(i) => i < self.model().len() && self.model()[i as int].0 == name@,
                None => !model_contains_room(self.model(), name@),
            },
    {
        let mut i: usize = 0;
        while i < self.smart_rooms.len()
            invariant
                i <= self.smart_rooms.len(),
                forall|j: int| 0 <= j < i ==> self.model()[j].0 != name@,
            decreases self.smart_rooms.len() - i,
        {
            if str_eq(self.smart_rooms[i].name.as_str(), name) {
                proof {
                    assert(self.model()[i as int].0 == name@);
                }
                return Some(i);
            }
            i = i + 1;
        }
        None
    }

    /// Whether a room named `name` is registered.
    pub fn is_room_already_exist(&self, name: &str) -> (r: bool)
        ensures
            r == model_contains_room(self.model(), name@),
    {
        self.find_room(name).is_some()
    }

    /// Registers a room named `name`. Fails with `RoomLimitExceeded`
    /// when the house is full, with `RoomAlreadyPresented` when the
    /// name is taken; otherwise appends an empty room.
    pub fn add_room(&mut self, name: &str) -> (r: SmartHouseManagementStatus)
        requires
            old(self).wf(),
        ensures
            final(self).spec_name() == old(self).spec_name(),
            final(self).spec_room_limit() == old(self).spec_room_limit(),
            final(self).spec_device_limit() == old(self).spec_device_limit(),
            final(self).wf(),
            r == add_room_result(old(self).model(), old(self).spec_room_limit() as nat, name@),
            final(self).model() == add_room_next(
                old(self).model(),
                old(self).spec_room_limit() as nat,
                name@,
            ),
    {
        if self.smart_rooms.len() == self.room_limit {
            return SmartHouseManagementStatus::OperationFailed(ErrorReason::RoomLimitExceeded);
        }
        if self.is_room_already_exist(name) {
            SmartHouseManagementStatus::OperationFailed(ErrorReason::RoomAlreadyPresented)
        } else {
            let ghost m = self.model();
            let new_room = SmartRoom { name: name.to_owned(), devices: Vec::new() };
            proof {
                assert(new_room.devices.deep_view() =~= Seq::<Seq<char>>::empty());
                lemma_model_distinct_after_push(m, (name@, Seq::empty()));
            }
            self.smart_rooms.push(new_room);
            proof {
                assert(self.model() =~= m.push((name@, Seq::empty())));
            }
            SmartHouseManagementStatus::OperationSucceded
        }
    }

    /// Deletes the room named `name` together with the device names
    /// linked to it. Fails with `RoomDoesntExist` when no such room is
    /// registered.
    pub fn delete_room(&mut self, name: &str) -> (r: SmartHouseManagementStatus)
        requires
            old(self).wf(),
        ensures
            final(self).spec_name() == old(self).spec_name(),
            final(self).spec_room_limit() == old(self).spec_room_limit(),
            final(self).spec_device_limit() == old(self).spec_device_limit(),
            final(self).wf(),
            r == delete_room_result(old(self).model(), name@),
            final(self).model() == delete_room_next(old(self).model(), name@),
    {
        match self.find_room(name) {
            None => SmartHouseManagementStatus::OperationFailed(ErrorReason::RoomDoesntExist),
            Some(i) => {
                let ghost m = self.model();
                proof {
                    lemma_model_index_of(m, i as int);
                    lemma_model_distinct_after_remove(m, i as int);
                }
                self.smart_rooms.remove(i);
                proof {
                    assert(self.model() =~= m.remove(i as int));
                }
                SmartHouseManagementStatus::OperationSucceded
            },
        }
    }

    /// Whether the device named `device_name` is linked to the room
    /// named `room_name`; a missing room folds into `false`.
    pub fn is_device_presented_in_room(&self, room_name: &str, device_name: &str) -> (r: bool)
        requires
            self.wf(),
        ensures
            r == model_device_in_room(self.model(), room_name@, device_name@),
    {
        match self.find_room(room_name) {
            None => false,
            Some(i) => {
                proof {
                    lemma_model_index_of(self.model(), i as int);
                }
                match find_device_pos(&self.smart_rooms[i].devices, device_name) {
                    Some(k) => {
                        proof {
                            let devs = self.model()[i as int].1;
                            assert(devs[k as int] == device_name@);
                            assert(devs.contains(device_name@));
                        }
                        true
                    },
                    None => false,
                }
            },
        }
    }

    /// Links the device named `device_name` to the room named
    /// `room_name`. Fails with `RoomDoesntExist` for a missing room,
    /// `DeviceAlreadyPresented` for a duplicate device name, and
    /// `DeviceLimitExceeded` for a full room.
    pub fn link_device_with_room(&mut self, room_name: &str, device_name: &str) -> (r:
        SmartHouseManagementStatus)
        requires
            old(self).wf(),
        ensures
            final(self).spec_name() == old(self).spec_name(),
            final(self).spec_room_limit() == old(self).spec_room_limit(),
            final(self).spec_device_limit() == old(self).spec_device_limit(),
            final(self).wf(),
            r == link_device_result(
                old(self).model(),
                old(self).spec_device_limit() as nat,
                room_name@,
                device_name@,
            ),
            final(self).model() == link_device_next(
                old(self).model(),
                old(self).spec_device_limit() as nat,
                room_name@,
                device_name@,
            ),
    {
        let i = match self.find_room(room_name) {
            None => {
                return SmartHouseManagementStatus::OperationFailed(ErrorReason::RoomDoesntExist);
            },
            Some(i) => i,
        };
        proof {
            lemma_model_index_of(self.model(), i as int);
        }
        if self.is_device_presented_in_room(room_name, device_name) {
            return SmartHouseManagementStatus::OperationFailed(ErrorReason::DeviceAlreadyPresented);
        }
        if self.smart_rooms[i].devices.len() == self.device_limit {
            proof {
                assert(self.model()[i as int].1.len() == self.smart_rooms@[i as int].devices@.len());
            }
            return SmartHouseManagementStatus::OperationFailed(ErrorReason::DeviceLimitExceeded);
        }
        let ghost m = self.model();
        let ghost old_devs = m[i as int].1;
        proof {
            assert(old_devs.len() == self.smart_rooms@[i as int].devices@.len());
            assert(!old_devs.contains(device_name@));
            lemma_names_distinct_after_push(old_devs, device_name@);
            lemma_model_wf_after_update_devices(
                m,
                self.spec_room_limit() as nat,
                self.spec_device_limit() as nat,
                i as int,
                old_devs.push(device_name@),
            );
        }
        self.smart_rooms[i].devices.push(device_name.to_owned());
        proof {
            assert(self.smart_rooms@[i as int].devices.deep_view() =~= old_devs.push(
                device_name@,
            ));
            assert(self.model() =~= m.update(i as int, (m[i as int].0, old_devs.push(
                device_name@,
            ))));
        }
        SmartHouseManagementStatus::OperationSucceded
    }

    /// Unlinks the device named `device_name` from the room named
    /// `room_name`. Fails with `RoomDoesntExist` for a missing room
    /// and `DeviceDoesntExist` for a device not linked there.
    pub fn unlink_device_from_room(&mut self, room_name: &str, device_name: &str) -> (r:
        SmartHouseManagementStatus)
        requires
            old(self).wf(),
        ensures
            final(self).spec_name() == old(self).spec_name(),
            final(self).spec_room_limit() == old(self).spec_room_limit(),
            final(self).spec_device_limit() == old(self).spec_device_limit(),
            final(self).wf(),
            r == unlink_device_result(old(self).model(), room_name@, device_name@),
            final(self).model() == unlink_device_next(old(self).model(), room_name@, device_name@),
    {
        let i = match self.find_room(room_name) {
            None => {
                return SmartHouseManagementStatus::OperationFailed(ErrorReason::RoomDoesntExist);
            },
            Some(i) => i,
        };
        proof {
            lemma_model_index_of(self.model(), i as int);
        }
        match find_device_pos(&self.smart_rooms[i].devices, device_name) {
            None => SmartHouseManagementStatus::OperationFailed(ErrorReason::DeviceDoesntExist),
            Some(k) => {
                let ghost m = self.model();
                let ghost old_devs = m[i as int].1;
                proof {
                    assert(old_devs[k as int] == device_name@);
                    assert(old_devs.contains(device_name@));
                    lemma_name_index_of(old_devs, k as int);
                    lemma_names_distinct_after_remove(old_devs, k as int);
                    lemma_model_wf_after_update_devices(
                        m,
                        self.spec_room_limit() as nat,
                        self.spec_device_limit() as nat,
                        i as int,
                        old_devs.remove(k as int),
                    );
                }
                self.smart_rooms[i].devices.remove(k);
                proof {
                    assert(self.smart_rooms@[i as int].devices.deep_view() =~= old_devs.remove(
                        k as int,
                    ));
                    assert(self.model() =~= m.update(i as int, (m[i as int].0, old_devs.remove(
                        k as int,
                    ))));
                }
                SmartHouseManagementStatus::OperationSucceded
            },
        }
    }

    /// The names of the registered rooms, or `None` for an empty
    /// house.
    fn get_rooms(&self) -> (r: Option<Vec<String>>)
        ensures
            r is Some <==> self.model().len() > 0,
            r matches Some(v) ==> v.deep_view() == model_room_names(self.model()) && v@.len()
                == self.model().len(),
    {
        if self.smart_rooms.len() == 0 {
            return None;
        }
        let mut names: Vec<String> = Vec::new();
        let mut i: usize = 0;
        while i < self.smart_rooms.len()
            invariant
                i <= self.smart_rooms.len(),
                names@.len() == i,
                forall|k: int| 0 <= k < i ==> names@[k]@ == self.model()[k].0,
            decreases self.smart_rooms.len() - i,
        {
            names.push(self.smart_rooms[i].name.clone());
            i = i + 1;
        }
        proof {
            assert forall|k: int| 0 <= k < names@.len() implies names.deep_view()[k]
                == model_room_names(self.model())[k] by {
                assert(names@[k]@ == self.model()[k].0);
            }
            assert(names.deep_view() =~= model_room_names(self.model()));
        }
        Some(names)
    }

    /// The names of the devices linked to the room named `room_name`,
    /// or `None` for a missing room or one without devices.
    fn get_devices(&self, room_name: &str) -> (r: Option<Vec<String>>)
        requires
            self.wf(),
        ensures
            match r {
                Some(v) => model_contains_room(self.model(), room_name@) && v.deep_view()
                    == model_devices(self.model(), room_name@) && v@.len() > 0,
                None => !model_contains_room(self.model(), room_name@) || model_devices(
                    self.model(),
                    room_name@,
                ).len() == 0,
            },
    {
        match self.find_room(room_name) {
            None => None,
            Some(i) => {
                proof {
                    lemma_model_index_of(self.model(), i as int);
                }
                let room_devices = &self.smart_rooms[i].devices;
                if room_devices.len() == 0 {
                    proof {
                        assert(self.model()[i as int].1.len() == 0);
                    }
                    return None;
                }
                let mut names: Vec<String> = Vec::new();
                let mut k: usize = 0;
                while k < room_devices.len()
                    invariant
                        k <= room_devices.len(),
                        names@.len() == k,
                        forall|j: int| 0 <= j < k ==> names@[j]@ == room_devices@[j]@,
                    decreases room_devices.len() - k,
                {
                    names.push(room_devices[k].clone());
                    k = k + 1;
                }
                proof {
                    let devs = self.model()[i as int].1;
                    assert forall|j: int| 0 <= j < names@.len() implies names.deep_view()[j]
                        == devs[j] by {
                        assert(names@[j]@ == room_devices@[j]@);
                    }
                    assert(names.deep_view() =~= devs);
                }
                Some(names)
            },
        }
    }

    /// The status of the house as text: the devices linked to each
    /// room, room by room, or an explicit line for a house without
    /// rooms.
    pub fn get_smart_house_status(&self) -> (r: String)
        requires
            self.wf(),
        ensures
            r@ == house_status_text(self.model(), self.spec_name()),
    {
        match self.get_rooms() {
            None => {
                let mut line = "В доме ".to_owned();
                line.append(self.name.as_str());
                line.append(" не зарегистрировано ни одной комнаты!\n");
                line
            },
            Some(room_list) => {
                let ghost m = self.model();
                let mut report: Vec<String> = Vec::new();
                let ghost mut parts: Seq<Seq<char>> = Seq::empty();
                proof {
                    assert(parts =~= house_status_parts(m.take(0int)));
                }
                let mut i: usize = 0;
                while i < room_list.len()
                    invariant
                        self.wf(),
                        m == self.model(),
                        room_list.deep_view() == model_room_names(m),
                        room_list@.len() == m.len(),
                        i <= room_list.len(),
                        report@.len() == parts.len(),
                        forall|k: int| 0 <= k < parts.len() ==> report@[k]@ == parts[k],
                        parts == house_status_parts(m.take(i as int)),
                    decreases room_list.len() - i,
                {
                    let room = &room_list[i];
                    proof {
                        assert(room@ == model_room_names(m)[i as int]);
                        lemma_model_index_of(m, i as int);
                    }
                    match self.get_devices(room.as_str()) {
                        Some(devices_list) => {
                            let mut line = "К комнате ".to_owned();
                            line.append(room.as_str());
                            line.append(" привязаны устройства: ");
                            line.append(join_strings(&devices_list, ", ").as_str());
                            line.append("\n");
                            let ghost line_text: Seq<char> = line@;
                            report.push(line);
                            proof {
                                parts = parts.push(line_text);
                            }
                        },
                        None => {
                            let mut line = "С комнатой ".to_owned();
                            line.append(room.as_str());
                            line.append(" не связано ни одно устройство!\n");
                            let ghost line_text: Seq<char> = line@;
                            report.push(line);
                            proof {
                                parts = parts.push(line_text);
                            }
                        },
                    }
                    proof {
                        assert(m.take(i as int + 1).drop_last() =~= m.take(i as int));
                        assert(m.take(i as int + 1).last() == m[i as int]);
                        assert(parts =~= house_status_parts(m.take(i as int + 1)));
                    }
                    i = i + 1;
                }
                proof {
                    assert(m.take(room_list@.len() as int) =~= m);
                }
                let out = concat_strings(&report);
                proof {
                    assert forall|k: int| 0 <= k < report@.len() implies report.deep_view()[k]
                        == parts[k] by {
                        assert(report@[k]@ == parts[k]);
                    }
                    assert(report.deep_view() =~= parts);
                }
                out
            },
        }
    }

    /// Builds the report the provider `requested_order` asks for: for
    /// each wanted device name, in order, the provider's line for the
    /// first room that locates it, or the not-registered line; a house
    /// without rooms yields a single initialization reminder.
    pub fn create_report<P: SmartDeviceInfoProvider>(&self, requested_order: &P) -> (r: String)
        requires
            self.wf(),
        ensures
            r@ == report_text(*self, *requested_order),
    {
        let registered_rooms = match self.get_rooms() {
            None => {
                let mut out = "You should initialize the ".to_owned();
                out.append(self.name.as_str());
                out.append(" properly!\n");
                return out;
            },
            Some(rooms) => rooms,
        };
        let ghost rooms_seq: Seq<Seq<char>> = model_room_names(self.model());
        let ghost wanted: Seq<Seq<char>> = requested_order.wanted_names();
        let desired_devices = requested_order.get_device_names();
        proof {
            assert(desired_devices@.len() == wanted.len());
            assert(registered_rooms@.len() == rooms_seq.len());
        }
        let mut report = String::new();
        let mut k: usize = 0;
        while k < desired_devices.len()
            invariant
                self.wf(),
                k <= desired_devices.len(),
                desired_devices.deep_view() == wanted,
                desired_devices@.len() == wanted.len(),
                registered_rooms.deep_view() == rooms_seq,
                registered_rooms@.len() == rooms_seq.len(),
                rooms_seq == model_room_names(self.model()),
                wanted == requested_order.wanted_names(),
                report@ == report_lines(*self, *requested_order, wanted.take(k as int)),
            decreases desired_devices.len() - k,
        {
            let device = &desired_devices[k];
            let ghost device_name: Seq<char> = wanted[k as int];
            proof {
                assert(device@ == device_name);
            }
            let mut located: Option<String> = None;
            let ghost mut located_room: Seq<char> = Seq::empty();
            let mut ri: usize = 0;
            while ri < registered_rooms.len() && located.is_none()
                invariant
                    self.wf(),
                    ri <= registered_rooms.len(),
                    registered_rooms.deep_view() == rooms_seq,
                    registered_rooms@.len() == rooms_seq.len(),
                    rooms_seq == model_room_names(self.model()),
                    device@ == device_name,
                    located is None ==> forall|j: int|
                        0 <= j < ri ==> !requested_order.locates(
                            *self,
                            #[trigger] rooms_seq[j],
                            device_name,
                        ),
                    located matches Some(x) ==> first_located_room(
                        *self,
                        *requested_order,
                        device_name,
                        rooms_seq,
                    ) == Some(located_room) && x@ == requested_order.located_text(
                        located_room,
                        device_name,
                    ),
                decreases registered_rooms.len() - ri,
            {
                let room = &registered_rooms[ri];
                proof {
                    assert(room@ == rooms_seq[ri as int]);
                }
                match requested_order.get_device_status_info(self, room.as_str(), device.as_str())
                {
                    SmartDeviceRegistrationState::Registered(x) => {
                        proof {
                            lemma_first_located_skip(
                                *self,
                                *requested_order,
                                device_name,
                                rooms_seq,
                                ri as int,
                            );
                            assert(rooms_seq.skip(ri as int)[0] == rooms_seq[ri as int]);
                            located_room = rooms_seq[ri as int];
                        }
                        located = Some(x);
                    },
                    SmartDeviceRegistrationState::NotFound(_) => {},
                }
                ri = ri + 1;
            }
            match located {
                Some(x) => {
                    report.append(x.as_str());
                },
                None => {
                    proof {
                        lemma_first_located_skip(
                            *self,
                            *requested_order,
                            device_name,
                            rooms_seq,
                            rooms_seq.len() as int,
                        );
                        assert(rooms_seq.skip(rooms_seq.len() as int).len() == 0);
                    }
                    report.append("It seems ");
                    report.append(device.as_str());
                    report.append(" isn't registered in ");
                    report.append(self.name.as_str());
                    report.append("\n");
                },
            }
            proof {
                assert(wanted.take(k as int + 1).drop_last() =~= wanted.take(k as int));
                assert(wanted.take(k as int + 1).last() == wanted[k as int]);
            }
            k = k + 1;
        }
        proof {
            assert(wanted.take(desired_devices@.len() as int) =~= wanted);
        }
        report
    }
}

fn find_device_pos(devices: &Vec<String>, name: &str) -> (r: Option<usize>)
    ensures
        match r {
            Some(k) => k < devices.deep_view().len() && devices.deep_view()[k as int] == name@,
            None => !devices.deep_view().contains(name@),
        },
{
    let mut k: usize = 0;
    while k < devices.len()
        invariant
            k <= devices.len(),
            forall|j: int| 0 <= j < k ==> devices.deep_view()[j] != name@,
        decreases devices.len() - k,
    {
        if str_eq(devices[k].as_str(), name) {
            proof {
                assert(devices.deep_view()[k as int] == name@);
            }
            return Some(k);
        }
        k = k + 1;
    }
    proof {
        if devices.deep_view().contains(name@) {
            let j = choose|j: int|
                0 <= j < devices.deep_view().len() && devices.deep_view()[j] == name@;
            assert(false);
        }
    }
    None
}

} // verus!
