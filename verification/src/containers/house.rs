//! The house: a named, capacity-bounded container of uniquely named
//! rooms, with a house-wide self-report.

use vstd::prelude::*;
use vstd::string::StringExecFns;

use crate::containers::room::{device_names, lemma_device_index_of, Room};
use crate::containers::{ContainerIOHistory, ContainerName, ErrorReason};
use crate::devices::smart_device::SmartDevice;
use crate::text::{join_strings, join_with, str_eq};

verus! {

/// The names of `rooms`, in storage order.
pub open spec fn room_names(rooms: Seq<Room>) -> Seq<Seq<char>> {
    rooms.map_values(|r: Room| r.spec_name())
}

/// No two rooms share a name.
pub open spec fn rooms_distinct(rooms: Seq<Room>) -> bool {
    forall|i: int, j: int| 0 <= i < j < rooms.len() ==> rooms[i].spec_name() != rooms[j].spec_name()
}

/// Some room is named `name`.
pub open spec fn contains_room(rooms: Seq<Room>, name: Seq<char>) -> bool {
    exists|i: int| 0 <= i < rooms.len() && rooms[i].spec_name() == name
}

/// An index of a room named `name`.
pub open spec fn room_index(rooms: Seq<Room>, name: Seq<char>) -> int {
    choose|i: int| 0 <= i < rooms.len() && rooms[i].spec_name() == name
}

/// Why adding a room named `name` fails, if it does: the capacity
/// check comes first, the duplicate check second.
pub open spec fn add_room_check(rooms: Seq<Room>, limit: nat, name: Seq<char>) -> Option<
    ErrorReason,
> {
    if rooms.len() >= limit {
        Some(ErrorReason::ItemLimitExceeded)
    } else if contains_room(rooms, name) {
        Some(ErrorReason::ItemAlreadyPresented)
    } else {
        None
    }
}

/// The room list after an attempt to add `room`.
pub open spec fn add_room_next(rooms: Seq<Room>, limit: nat, room: Room) -> Seq<Room> {
    if add_room_check(rooms, limit, room.spec_name()) is None {
        rooms.push(room)
    } else {
        rooms
    }
}

/// The room list after an attempt to remove the room named `name`.
pub open spec fn remove_room_next(rooms: Seq<Room>, name: Seq<char>) -> Seq<Room> {
    if contains_room(rooms, name) {
        rooms.remove(room_index(rooms, name))
    } else {
        rooms
    }
}

/// The confirmation text of a successful add.
pub open spec fn room_added_text(room: Seq<char>, house: Seq<char>) -> Seq<char> {
    "Room "@ + room + " has been registered in house "@ + house
}

/// The confirmation text of a successful removal.
pub open spec fn room_removed_text(room: Seq<char>, house: Seq<char>) -> Seq<char> {
    "Room "@ + room + " has been removed from house "@ + house
}

/// In a duplicate-free room list, the position of a stored room is the
/// index its name looks up to.
pub proof fn lemma_room_index_of(rooms: Seq<Room>, j: int)
    requires
        rooms_distinct(rooms),
        0 <= j < rooms.len(),
    ensures
        contains_room(rooms, rooms[j].spec_name()),
        room_index(rooms, rooms[j].spec_name()) == j,
{
    assert(contains_room(rooms, rooms[j].spec_name()));
    let k = room_index(rooms, rooms[j].spec_name());
    assert(0 <= k < rooms.len() && rooms[k].spec_name() == rooms[j].spec_name());
}

/// Pushing a room with a fresh name keeps the names distinct.
pub proof fn lemma_rooms_distinct_after_push(rooms: Seq<Room>, room: Room)
    requires
        rooms_distinct(rooms),
        !contains_room(rooms, room.spec_name()),
    ensures
        rooms_distinct(rooms.push(room)),
{
    let after = rooms.push(room);
    assert forall|i: int, j: int| 0 <= i < j < after.len() implies after[i].spec_name()
        != after[j].spec_name() by {
        if j == rooms.len() as int {
            assert(after[i] == rooms[i]);
            assert(rooms[i].spec_name() != room.spec_name());
        }
    }
}

/// What the names of a room list contain after a push.
pub proof fn lemma_contains_room_after_push(rooms: Seq<Room>, room: Room, name: Seq<char>)
    ensures
        contains_room(rooms.push(room), name) <==> (contains_room(rooms, name)
            || room.spec_name() == name),
{
    let after = rooms.push(room);
    if contains_room(after, name) {
        let i = choose|i: int| 0 <= i < after.len() && after[i].spec_name() == name;
        if i < rooms.len() {
            assert(rooms[i].spec_name() == name);
        }
    }
    if contains_room(rooms, name) {
        let i = choose|i: int| 0 <= i < rooms.len() && rooms[i].spec_name() == name;
        assert(after[i].spec_name() == name);
    }
    if room.spec_name() == name {
        assert(after[rooms.len() as int].spec_name() == name);
    }
}

/// Removing one room keeps the names distinct, and with distinct names
/// the removed name is gone.
pub proof fn lemma_rooms_distinct_after_remove(rooms: Seq<Room>, j: int)
    requires
        rooms_distinct(rooms),
        0 <= j < rooms.len(),
    ensures
        rooms_distinct(rooms.remove(j)),
        !contains_room(rooms.remove(j), rooms[j].spec_name()),
{
    let after = rooms.remove(j);
    assert forall|i: int, k: int| 0 <= i < k < after.len() implies after[i].spec_name()
        != after[k].spec_name() by {
        assert(after[i] == (if i < j { rooms[i] } else { rooms[i + 1] }));
        assert(after[k] == (if k < j { rooms[k] } else { rooms[k + 1] }));
    }
    assert forall|i: int| 0 <= i < after.len() implies after[i].spec_name()
        != rooms[j].spec_name() by {
        assert(after[i] == (if i < j { rooms[i] } else { rooms[i + 1] }));
    }
}

/// A house: uniquely named rooms behind one house name, at most
/// `room_limit` of them.
pub struct House {
    /// The name of the house.
    pub name: ContainerName,
    /// The rooms registered in the house.
    rooms: Vec<Room>,
    /// The maximum number of rooms the house accepts.
    room_limit: usize,
}

impl House {
    /// The rooms of the house, in insertion order.
    pub closed spec fn spec_rooms(&self) -> Seq<Room> {
        self.rooms@
    }

    /// The maximum number of rooms the house accepts.
    pub closed spec fn spec_room_limit(&self) -> usize {
        self.room_limit
    }

    /// The name of the house.
    pub closed spec fn spec_name(&self) -> Seq<char> {
        self.name@
    }

    /// Validity: room names are unique, the capacity bound holds, and
    /// every room is itself valid.
    pub open spec fn wf(&self) -> bool {
        &&& rooms_distinct(self.spec_rooms())
        &&& self.spec_rooms().len() <= self.spec_room_limit()
        &&& forall|i: int| 0 <= i < self.spec_rooms().len() ==> (#[trigger] self.spec_rooms()[i]).wf()
    }

    /// Creates an empty house named `name` accepting at most `limit`
    /// rooms.
    pub fn new(name: &str, limit: usize) -> (r: Self)
        ensures
            r.spec_name() == name@,
            r.spec_rooms() == Seq::<Room>::empty(),
            r.spec_room_limit() == limit,
            r.wf(),
    {
        let r = House { name: name.to_owned(), rooms: Vec::new(), room_limit: limit };
        proof {
            assert(r.rooms@ =~= Seq::<Room>::empty());
        }
        r
    }

    fn find_room(&self, name: &str) -> (r: Option<usize>)
        requires
            self.wf(),
        ensures
            match r {
                Some(i) => i < self.spec_rooms().len() && self.spec_rooms()[i as int].spec_name()
                    == name@,
                None => !contains_room(self.spec_rooms(), name@),
            },
    {
        let mut i: usize = 0;
        while i < self.rooms.len()
            invariant
                i <= self.rooms.len(),
                forall|j: int| 0 <= j < i ==> self.spec_rooms()[j].spec_name() != name@,
            decreases self.rooms.len() - i,
        {
            if str_eq(self.rooms[i].get_name(), name) {
                return Some(i);
            }
            i = i + 1;
        }
        None
    }

    /// Creates an empty room named `room_name` accepting at most
    /// `device_limit` devices and registers it, with `add_room`'s
    /// checks and confirmation text.
    pub fn create_new_empty_room(&mut self, room_name: &str, device_limit: usize) -> (r: Result<
        ContainerName,
        ErrorReason,
    >)
        requires
            old(self).wf(),
        ensures
            final(self).spec_name() == old(self).spec_name(),
            final(self).spec_room_limit() == old(self).spec_room_limit(),
            final(self).wf(),
            r is Ok <==> add_room_check(
                old(self).spec_rooms(),
                old(self).spec_room_limit() as nat,
                room_name@,
            ) is None,
            r matches Err(e) ==> add_room_check(
                old(self).spec_rooms(),
                old(self).spec_room_limit() as nat,
                room_name@,
            ) == Some(e),
            r matches Ok(s) ==> s@ == room_added_text(room_name@, old(self).spec_name()),
            r is Ok ==> ({
                let rs = final(self).spec_rooms();
                &&& rs.len() == old(self).spec_rooms().len() + 1
                &&& rs.drop_last() == old(self).spec_rooms()
                &&& rs.last().spec_name() == room_name@
                &&& rs.last().spec_devices() == Seq::<
                    crate::devices::smart_device::SmartDevice,
                >::empty()
                &&& rs.last().spec_device_limit() == device_limit
                &&& rs.last().wf()
            }),
            r is Err ==> final(self).spec_rooms() == old(self).spec_rooms(),
    {
        if self.rooms.len() >= self.room_limit {
            return Err(ErrorReason::ItemLimitExceeded);
        }
        if self.find_room(room_name).is_some() {
            return Err(ErrorReason::ItemAlreadyPresented);
        }
        let new_room = Room::new(room_name, device_limit);
        let r = self.add_room(new_room);
        proof {
            if r is Ok {
                assert(final(self).spec_rooms().drop_last() =~= old(self).spec_rooms());
            }
        }
        r
    }

    /// Adds `room` to the house. Fails with `ItemLimitExceeded` when
    /// the house is full, with `ItemAlreadyPresented` when a room of
    /// the same name is registered; otherwise appends the room and
    /// returns a confirmation text.
    pub fn add_room(&mut self, room: Room) -> (r: Result<ContainerIOHistory, ErrorReason>)
        requires
            old(self).wf(),
            room.wf(),
        ensures
            final(self).spec_name() == old(self).spec_name(),
            final(self).spec_room_limit() == old(self).spec_room_limit(),
            final(self).wf(),
            final(self).spec_rooms() == add_room_next(
                old(self).spec_rooms(),
                old(self).spec_room_limit() as nat,
                room,
            ),
            r is Ok <==> add_room_check(
                old(self).spec_rooms(),
                old(self).spec_room_limit() as nat,
                room.spec_name(),
            ) is None,
            r matches Err(e) ==> add_room_check(
                old(self).spec_rooms(),
                old(self).spec_room_limit() as nat,
                room.spec_name(),
            ) == Some(e),
            r matches Ok(s) ==> s@ == room_added_text(room.spec_name(), old(self).spec_name()),
    {
        if self.rooms.len() >= self.room_limit {
            return Err(ErrorReason::ItemLimitExceeded);
        }
        if self.find_room(room.get_name()).is_some() {
            return Err(ErrorReason::ItemAlreadyPresented);
        }
        let mut status = "Room ".to_owned();
        status.append(room.get_name());
        status.append(" has been registered in house ");
        status.append(self.name.as_str());
        proof {
            lemma_rooms_distinct_after_push(self.rooms@, room);
        }
        self.rooms.push(room);
        Ok(status)
    }

    /// Removes the room named `room_name`, dropping the devices it
    /// owns with it. Fails with `ItemDoesntExist` when no such room is
    /// registered; otherwise removes it and returns a confirmation
    /// text.
    pub fn remove_room_by_name(&mut self, room_name: &str) -> (r: Result<
        ContainerIOHistory,
        ErrorReason,
    >)
        requires
            old(self).wf(),
        ensures
            final(self).spec_name() == old(self).spec_name(),
            final(self).spec_room_limit() == old(self).spec_room_limit(),
            final(self).wf(),
            final(self).spec_rooms() == remove_room_next(old(self).spec_rooms(), room_name@),
            r is Ok <==> contains_room(old(self).spec_rooms(), room_name@),
            r matches Err(e) ==> e == ErrorReason::ItemDoesntExist,
            r matches Ok(s) ==> s@ == room_removed_text(room_name@, old(self).spec_name()),
    {
        match self.find_room(room_name) {
            None => Err(ErrorReason::ItemDoesntExist),
            Some(i) => {
                proof {
                    lemma_room_index_of(self.rooms@, i as int);
                    lemma_rooms_distinct_after_remove(self.rooms@, i as int);
                }
                self.rooms.remove(i);
                let mut status = "Room ".to_owned();
                status.append(room_name);
                status.append(" has been removed from house ");
                status.append(self.name.as_str());
                Ok(status)
            },
        }
    }

    /// Looks up the room named `room_name`.
    pub fn get_room(&self, room_name: &str) -> (r: Option<&Room>)
        requires
            self.wf(),
        ensures
            match r {
                Some(room) => contains_room(self.spec_rooms(), room_name@) && *room
                    == self.spec_rooms()[room_index(self.spec_rooms(), room_name@)]
                    && room.spec_name() == room_name@ && room.wf(),
                None => !contains_room(self.spec_rooms(), room_name@),
            },
    {
        match self.find_room(room_name) {
            None => None,
            Some(i) => {
                proof {
                    lemma_room_index_of(self.rooms@, i as int);
                }
                Some(&self.rooms[i])
            },
        }
    }

    /// Adds `device` to the room named `room_name`, with the room's
    /// own checks and confirmation text. Fails with `ItemDoesntExist`
    /// when no such room is registered. This is the mutating
    /// counterpart of `get_room`: a borrowed room cannot be changed in
    /// place, so the house performs the change itself.
    pub fn add_device_to_room(&mut self, room_name: &str, device: SmartDevice) -> (r: Result<
        ContainerIOHistory,
        ErrorReason,
    >)
        requires
            old(self).wf(),
        ensures
            final(self).spec_name() == old(self).spec_name(),
            final(self).spec_room_limit() == old(self).spec_room_limit(),
            final(self).wf(),
            !contains_room(old(self).spec_rooms(), room_name@) ==> r == Err::<
                ContainerIOHistory,
                ErrorReason,
            >(ErrorReason::ItemDoesntExist) && final(self).spec_rooms() == old(self).spec_rooms(),
            contains_room(old(self).spec_rooms(), room_name@) ==> ({
                let i = room_index(old(self).spec_rooms(), room_name@);
                let room = old(self).spec_rooms()[i];
                let check = crate::containers::room::add_device_check(
                    room.spec_devices(),
                    room.spec_device_limit() as nat,
                    device.spec_name(),
                );
                &&& final(self).spec_rooms().len() == old(self).spec_rooms().len()
                &&& forall|j: int|
                    0 <= j < old(self).spec_rooms().len() && j != i ==> final(self).spec_rooms()[j]
                        == old(self).spec_rooms()[j]
                &&& final(self).spec_rooms()[i].spec_name() == room.spec_name()
                &&& final(self).spec_rooms()[i].spec_device_limit() == room.spec_device_limit()
                &&& final(self).spec_rooms()[i].spec_devices()
                    == crate::containers::room::add_device_next(
                    room.spec_devices(),
                    room.spec_device_limit() as nat,
                    device,
                )
                &&& (r is Ok <==> check is None)
                &&& (r matches Err(e) ==> check == Some(e))
                &&& (r matches Ok(s) ==> s@ == crate::containers::room::device_added_text(
                    device.spec_name(),
                    room.spec_name(),
                ))
            }),
    {
        match self.find_room(room_name) {
            None => Err(ErrorReason::ItemDoesntExist),
            Some(i) => {
                let ghost rooms_before = self.rooms@;
                proof {
                    lemma_room_index_of(rooms_before, i as int);
                }
                let r = self.rooms[i].add_device(device);
                proof {
                    assert forall|a: int, b: int|
                        0 <= a < b < self.rooms@.len() implies self.rooms@[a].spec_name()
                        != self.rooms@[b].spec_name() by {
                        assert(self.rooms@[a].spec_name() == rooms_before[a].spec_name());
                        assert(self.rooms@[b].spec_name() == rooms_before[b].spec_name());
                    }
                    assert forall|j: int| 0 <= j < self.rooms@.len() implies (
                    #[trigger] self.rooms@[j]).wf() by {
                        if j != i as int {
                            assert(self.rooms@[j] == rooms_before[j]);
                        }
                    }
                }
                r
            },
        }
    }

    /// The names of the registered rooms, in insertion order; an empty
    /// house yields an empty (never absent) list.
    pub fn get_room_list(&self) -> (r: Vec<ContainerName>)
        ensures
            r.deep_view() == room_names(self.spec_rooms()),
    {
        let mut r: Vec<ContainerName> = Vec::new();
        let mut i: usize = 0;
        while i < self.rooms.len()
            invariant
                i <= self.rooms.len(),
                r@.len() == i,
                forall|k: int| 0 <= k < i ==> r@[k]@ == self.spec_rooms()[k].spec_name(),
            decreases self.rooms.len() - i,
        {
            r.push(self.rooms[i].get_name().to_owned());
            i = i + 1;
        }
        proof {
            assert forall|k: int| 0 <= k < r@.len() implies r.deep_view()[k] == room_names(
                self.spec_rooms(),
            )[k] by {
                assert(r@[k]@ == self.spec_rooms()[k].spec_name());
            }
            assert(r.deep_view() =~= room_names(self.spec_rooms()));
        }
        r
    }

    /// The house self-report: one header line, then, for every room,
    /// its name and the text report of each of its devices; a room
    /// without devices contributes an explicit no-devices line, and a
    /// house without rooms reports only that nothing is registered.
    pub fn create_report(&self) -> (r: String)
        requires
            self.wf(),
        ensures
            r@ == house_report_text(self.spec_name(), self.spec_rooms()),
    {
        let mut header = "Smart house instance: ".to_owned();
        header.append(self.name.as_str());
        header.append(".\n");
        let ghost header_text: Seq<char> = header@;

        if self.rooms.len() == 0 {
            let mut out = header;
            out.append("\n");
            out.append("There are no registered rooms and devices.\n");
            return out;
        }
        let mut report: Vec<String> = Vec::new();
        report.push(header);
        let ghost mut parts: Seq<Seq<char>> = seq![header_text];
        proof {
            assert(parts =~= seq![header_text] + house_report_parts(
                self.spec_rooms().take(0int),
            ));
        }

        let mut i: usize = 0;
        while i < self.rooms.len()
            invariant
                self.wf(),
                i <= self.rooms.len(),
                report@.len() == parts.len(),
                forall|k: int| 0 <= k < parts.len() ==> report@[k]@ == parts[k],
                parts == seq![header_text] + house_report_parts(self.spec_rooms().take(i as int)),
            decreases self.rooms.len() - i,
        {
            let ghost parts_at_room: Seq<Seq<char>> = parts;
            let room = &self.rooms[i];
            let mut room_line = "Room: ".to_owned();
            room_line.append(room.get_name());
            room_line.append("\n");
            let ghost room_line_text: Seq<char> = room_line@;
            report.push(room_line);
            proof {
                parts = parts.push(room_line_text);
            }

            let device_list = room.get_device_list();
            if device_list.len() == 0 {
                report.push("There are no devices in this room".to_owned());
                proof {
                    parts = parts.push("There are no devices in this room"@);
                    assert(room.spec_devices().len() == 0) by {
                        assert(device_names(room.spec_devices()).len() == 0);
                    }
                }
            } else {
                proof {
                    assert(device_list.deep_view().len() == device_list@.len());
                }
                let mut j: usize = 0;
                while j < device_list.len()
                    invariant
                        room.wf(),
                        device_list.deep_view() == device_names(room.spec_devices()),
                        device_list@.len() == room.spec_devices().len(),
                        j <= device_list.len(),
                        report@.len() == parts.len(),
                        forall|k: int| 0 <= k < parts.len() ==> report@[k]@ == parts[k],
                        parts == parts_at_room + seq![room_line_text] + device_report_parts(
                            room.spec_devices().take(j as int),
                        ),
                    decreases device_list.len() - j,
                {
                    let device_name = &device_list[j];
                    proof {
                        assert(device_name@ == device_names(room.spec_devices())[j as int]);
                        lemma_device_index_of(room.spec_devices(), j as int);
                    }
                    let mut device_line = "Device: ".to_owned();
                    device_line.append(device_name.as_str());
                    device_line.append(": ");
                    let ghost device_line_text: Seq<char> = device_line@;
                    report.push(device_line);
                    proof {
                        parts = parts.push(device_line_text);
                    }
                    match room.get_device(device_name.as_str()) {
                        Some(device) => {
                            let device_report = device.get_text_report();
                            proof {
                                parts = parts.push(device_report@);
                            }
                            report.push(device_report);
                        },
                        // A name taken from the room's own list always
                        // looks up, so this arm is provably dead.
                        None => {
                            proof {
                                parts = parts.push("Connection was refused!"@);
                            }
                            report.push("Connection was refused!".to_owned());
                        },
                    }
                    proof {
                        let devices = room.spec_devices();
                        assert(devices.take(j as int + 1).drop_last() =~= devices.take(j as int));
                        assert(devices.take(j as int + 1).last() == devices[j as int]);
                        assert(parts =~= parts_at_room + seq![room_line_text]
                            + device_report_parts(devices.take(j as int + 1)));
                    }
                    j = j + 1;
                }
                report.push("\n".to_owned());
                proof {
                    parts = parts.push("\n"@);
                    assert(room.spec_devices().take(device_list@.len() as int) =~= room
                        .spec_devices());
                }
            }
            proof {
                let rooms = self.spec_rooms();
                assert(rooms.take(i as int + 1).drop_last() =~= rooms.take(i as int));
                assert(rooms.take(i as int + 1).last() == rooms[i as int]);
                assert(parts =~= seq![header_text] + house_report_parts(
                    rooms.take(i as int + 1),
                ));
            }
            i = i + 1;
        }
        proof {
            assert(self.spec_rooms().take(self.rooms.len() as int) =~= self.spec_rooms());
        }
        let out = join_strings(&report, " ");
        proof {
            assert forall|k: int| 0 <= k < report@.len() implies report.deep_view()[k]
                == parts[k] by {
                assert(report@[k]@ == parts[k]);
            }
            assert(report.deep_view() =~= parts);
        }
        out
    }
}

/// The report parts contributed by the devices of one room: a label
/// and the device's own text report, per device, in storage order.
pub open spec fn device_report_parts(devices: Seq<SmartDevice>) -> Seq<Seq<char>>
    decreases devices.len(),
{
    if devices.len() == 0 {
        Seq::empty()
    } else {
        device_report_parts(devices.drop_last()) + seq![
            "Device: "@ + devices.last().spec_name() + ": "@,
            devices.last().spec_text_report(),
        ]
    }
}

/// The report parts contributed by one room: its header line, then its
/// device parts, or an explicit no-devices line for an empty room.
pub open spec fn room_report_parts(room: Room) -> Seq<Seq<char>> {
    seq!["Room: "@ + room.spec_name() + "\n"@] + if room.spec_devices().len() == 0 {
        seq!["There are no devices in this room"@]
    } else {
        device_report_parts(room.spec_devices()) + seq!["\n"@]
    }
}

/// The report parts of all rooms, in storage order.
pub open spec fn house_report_parts(rooms: Seq<Room>) -> Seq<Seq<char>>
    decreases rooms.len(),
{
    if rooms.len() == 0 {
        Seq::empty()
    } else {
        house_report_parts(rooms.drop_last()) + room_report_parts(rooms.last())
    }
}

/// The house self-report: a header naming the house, then either an
/// explicit empty-house text or the parts of every room joined with a
/// single space.
pub open spec fn house_report_text(name: Seq<char>, rooms: Seq<Room>) -> Seq<char> {
    let header = "Smart house instance: "@ + name + ".\n"@;
    if rooms.len() == 0 {
        header + "\n"@ + "There are no registered rooms and devices.\n"@
    } else {
        join_with(seq![header] + house_report_parts(rooms), " "@)
    }
}

/// Law: adding a room whose name is already present to a house that
/// still has space fails with `ItemAlreadyPresented` and leaves every
/// registered room, devices included, unchanged.
pub proof fn lemma_duplicate_room_rejected(rooms: Seq<Room>, limit: nat, room: Room)
    requires
        rooms.len() < limit,
        contains_room(rooms, room.spec_name()),
    ensures
        add_room_check(rooms, limit, room.spec_name()) == Some(ErrorReason::ItemAlreadyPresented),
        add_room_next(rooms, limit, room) == rooms,
{
}

/// The room list after adding each element of `incoming`, in order.
pub open spec fn add_rooms_all(rooms: Seq<Room>, limit: nat, incoming: Seq<Room>) -> Seq<Room>
    decreases incoming.len(),
{
    if incoming.len() == 0 {
        rooms
    } else {
        add_rooms_all(add_room_next(rooms, limit, incoming[0]), limit, incoming.drop_first())
    }
}

/// Every add of `incoming`, made in order, succeeds.
pub open spec fn room_adds_all_succeed(rooms: Seq<Room>, limit: nat, incoming: Seq<Room>) -> bool
    decreases incoming.len(),
{
    if incoming.len() == 0 {
        true
    } else {
        add_room_check(rooms, limit, incoming[0].spec_name()) is None && room_adds_all_succeed(
            add_room_next(rooms, limit, incoming[0]),
            limit,
            incoming.drop_first(),
        )
    }
}

/// Law: rooms with distinct names, none of them registered yet, all
/// fit as long as the room limit is respected, and once the house is
/// full the next add fails with `ItemLimitExceeded`.
pub proof fn lemma_fill_rooms_to_limit(rooms: Seq<Room>, limit: nat, incoming: Seq<Room>)
    requires
        rooms_distinct(rooms),
        rooms_distinct(incoming),
        forall|i: int|
            0 <= i < incoming.len() ==> !contains_room(rooms, #[trigger] incoming[i].spec_name()),
        rooms.len() + incoming.len() <= limit,
    ensures
        room_adds_all_succeed(rooms, limit, incoming),
        add_rooms_all(rooms, limit, incoming) == rooms + incoming,
        rooms_distinct(rooms + incoming),
        rooms.len() + incoming.len() == limit ==> forall|name: Seq<char>|
            add_room_check(rooms + incoming, limit, name) == Some(ErrorReason::ItemLimitExceeded),
    decreases incoming.len(),
{
    if incoming.len() == 0 {
        assert(rooms + incoming =~= rooms);
    } else {
        let r0 = incoming[0];
        assert(!contains_room(rooms, incoming[0].spec_name()));
        let next = rooms.push(r0);
        assert(add_room_next(rooms, limit, r0) == next);
        lemma_rooms_distinct_after_push(rooms, r0);
        let rest = incoming.drop_first();
        assert forall|i: int| 0 <= i < rest.len() implies !contains_room(
            next,
            #[trigger] rest[i].spec_name(),
        ) by {
            assert(rest[i] == incoming[i + 1]);
            assert(!contains_room(rooms, incoming[i + 1].spec_name()));
            assert(incoming[0].spec_name() != incoming[i + 1].spec_name());
            lemma_contains_room_after_push(rooms, r0, rest[i].spec_name());
        }
        lemma_fill_rooms_to_limit(next, limit, rest);
        assert(next + rest =~= rooms + incoming);
    }
}

} // verus!
