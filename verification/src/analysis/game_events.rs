use vstd::prelude::*;

use crate::strmap::{StrMap, sorted_insert, lookup, lemma_sorted_insert_len, lemma_sorted_insert_values, lemma_sorted_insert_lookup};
use crate::pe::{scan_code, ScanError, scan_result, scan_safe_image};
use crate::analysis::schemas::{keep_present, present, lemma_present_len};

verus! {

/// A game event and the fields it carries.
#[derive(Clone, Debug)]
pub struct GameEvent {
    pub name: String,
    pub fields: Vec<GameEventField>,
}

/// A field of a game event.
#[derive(Clone, Debug)]
pub struct GameEventField {
    pub name: String,
    pub type_id: i32,
}

/// The model of a game event field.
pub struct GameEventFieldView {
    pub name: Seq<char>,
    pub type_id: i32,
}

/// The model of a game event.
pub struct GameEventView {
    pub name: Seq<char>,
    pub fields: Seq<GameEventFieldView>,
}

impl View for GameEventField {
    type V = GameEventFieldView;

    open spec fn view(&self) -> GameEventFieldView {
        GameEventFieldView { name: self.name@, type_id: self.type_id }
    }
}

impl View for GameEvent {
    type V = GameEventView;

    open spec fn view(&self) -> GameEventView {
        GameEventView { name: self.name@, fields: self.fields@.map_values(|f: GameEventField| f@) }
    }
}

/// Game events by name.
pub type GameEventMap = StrMap<GameEvent>;

/// Offset of the descriptor list pointer inside the event manager.
pub const EVENT_LIST_OFFSET: u64 = 0x28;

/// Offset of the descriptor count inside the event manager.
pub const EVENT_COUNT_OFFSET: u64 = 0x30;

/// Size of one slot of the descriptor pointer list.
pub const EVENT_SLOT_SIZE: u64 = 8;

/// Size of one field descriptor.
pub const FIELD_SLOT_SIZE: u64 = 16;

/// Descriptor lists of this many entries or more are not walked.
pub const MAX_EVENTS: i32 = 2048;

/// Field lists of this many entries or more are not walked.
pub const MAX_EVENT_FIELDS: i32 = 64;

/// Whether a descriptor list of `count` entries is walked.
pub fn event_count_ok(count: i32) -> (r: bool)
    ensures
        r == (0 < count < MAX_EVENTS),
{
    count > 0 && count < MAX_EVENTS
}

/// Whether a field list of `count` entries is walked.
pub fn field_count_ok(count: i32) -> (r: bool)
    ensures
        r == (0 < count < MAX_EVENT_FIELDS),
{
    count > 0 && count < MAX_EVENT_FIELDS
}

/// The address of the descriptor list pointer of the event manager.
pub fn event_list_address(manager: u64) -> (a: u64)
    requires
        manager + EVENT_LIST_OFFSET <= u64::MAX,
    ensures
        a == manager + EVENT_LIST_OFFSET,
{
    manager + EVENT_LIST_OFFSET
}

/// The address of the descriptor count of the event manager.
pub fn event_count_address(manager: u64) -> (a: u64)
    requires
        manager + EVENT_COUNT_OFFSET <= u64::MAX,
    ensures
        a == manager + EVENT_COUNT_OFFSET,
{
    manager + EVENT_COUNT_OFFSET
}

/// The address of the `i`-th slot of the descriptor pointer list.
pub fn event_slot_address(list: u64, i: i32) -> (a: u64)
    requires
        0 <= i,
        list + i * EVENT_SLOT_SIZE <= u64::MAX,
    ensures
        a == list + i * EVENT_SLOT_SIZE,
{
    list + (i as u64) * EVENT_SLOT_SIZE
}

/// The address of the `j`-th field descriptor.
pub fn field_slot_address(fields: u64, j: i32) -> (a: u64)
    requires
        0 <= j,
        fields + j * FIELD_SLOT_SIZE <= u64::MAX,
    ensures
        a == fields + j * FIELD_SLOT_SIZE,
{
    fields + (j as u64) * FIELD_SLOT_SIZE
}

/// Records a game event under its name, replacing an earlier one of the same
/// name.
pub fn record_event(events: &mut GameEventMap, name: String, fields: Vec<GameEventField>)
    requires
        old(events).wf(),
    ensures
        final(events).wf(),
        final(events)@ == sorted_insert(
            old(events)@,
            name@,
            GameEventView { name: name@, fields: fields@.map_values(|f: GameEventField| f@) },
        ),
{
    let key = name.clone();
    events.insert(key, GameEvent { name, fields });
}

/// The walk over the game event manager's descriptor list. It is made with
/// the list pointer and count that the manager holds, and decides how many
/// slots are read; the caller reads each slot, the descriptor behind it and
/// its fields, asking the walk how far to read, and reports each descriptor
/// with `visit`; the walk keeps the records.
pub struct GameEventWalk {
    results: GameEventMap,
    slots: i32,
    visited: i32,
}

/// The record kept for a descriptor: its name and the fields that could be
/// read, in order.
pub open spec fn event_record(name: Seq<char>, fields: Seq<Option<GameEventField>>) -> GameEventView {
    GameEventView { name, fields: present(fields).map_values(|f: GameEventField| f@) }
}

/// The number of descriptor slots read for a list pointer and count: all of
/// them when the pointer is not null and the count is in range, none
/// otherwise.
pub open spec fn event_slots(elements: u64, count: i32) -> int {
    if elements != 0 && 0 < count < MAX_EVENTS {
        count as int
    } else {
        0
    }
}

/// What holds of every record the game event walk keeps: it is filed under
/// its own name and has fewer than `MAX_EVENT_FIELDS` fields.
pub open spec fn event_entry_ok(e: (Seq<char>, GameEventView)) -> bool {
    e.1.name == e.0 && e.1.fields.len() < MAX_EVENT_FIELDS
}

/// Every record of the list is as `event_entry_ok` says.
pub open spec fn event_entries_ok(s: Seq<(Seq<char>, GameEventView)>) -> bool {
    forall|i: int| 0 <= i < s.len() ==> event_entry_ok(#[trigger] s[i])
}

impl GameEventWalk {
    /// The records collected so far, by name.
    pub closed spec fn records(&self) -> Seq<(Seq<char>, GameEventView)> {
        self.results@
    }

    /// The number of descriptor slots the walk reads.
    pub closed spec fn slot_count(&self) -> int {
        self.slots as int
    }

    /// The number of descriptors reported so far.
    pub closed spec fn visited(&self) -> int {
        self.visited as int
    }

    /// The walk's invariant.
    pub closed spec fn wf(&self) -> bool {
        &&& self.results.wf()
        &&& 0 <= self.visited <= self.slots < MAX_EVENTS
        &&& self.results@.len() <= self.visited
        &&& event_entries_ok(self.results@)
    }

    /// A walk over the list at `elements` of `count` entries, which has
    /// recorded nothing.
    pub fn new(elements: u64, count: i32) -> (w: Self)
        ensures
            w.wf(),
            w.records() == Seq::<(Seq<char>, GameEventView)>::empty(),
            w.slot_count() == event_slots(elements, count),
            w.visited() == 0,
    {
        let slots = if elements != 0 && event_count_ok(count) {
            count
        } else {
            0
        };
        let w = GameEventWalk { results: StrMap::new(), slots, visited: 0 };
        proof {
            assert(w.results@.len() == 0);
        }
        w
    }

    /// How many descriptor slots are read.
    pub fn slots(&self) -> (n: i32)
        ensures
            n == self.slot_count(),
    {
        self.slots
    }

    /// Whether another descriptor may be reported: fewer have been than there
    /// are slots.
    pub fn can_visit(&self) -> (r: bool)
        ensures
            r == (self.visited() < self.slot_count()),
    {
        self.visited < self.slots
    }

    /// Whether the descriptor behind a slot is read: the slot could be read
    /// and does not hold a null pointer.
    pub fn descriptor_present(slot: Option<u64>) -> (r: bool)
        ensures
            r == (slot matches Some(p) && p != 0),
    {
        match slot {
            Some(p) => p != 0,
            None => false,
        }
    }

    /// How many field descriptors of a descriptor are read: all `count` of
    /// them when the field pointer is not null and the count is in range,
    /// none otherwise.
    pub fn fields_to_read(fields: u64, count: i32) -> (n: i32)
        ensures
            n == if fields != 0 && 0 < count < MAX_EVENT_FIELDS {
                count
            } else {
                0
            },
    {
        if fields != 0 && field_count_ok(count) {
            count
        } else {
            0
        }
    }

    /// Records a descriptor that could be read, with the outcome of reading
    /// each of its fields (`None` for one that could not be read, which is
    /// left out). The record replaces any earlier one of the same name, so
    /// the last descriptor of a name is the one kept.
    pub fn visit(&mut self, name: String, fields: Vec<Option<GameEventField>>)
        requires
            old(self).wf(),
            old(self).visited() < old(self).slot_count(),
            fields@.len() < MAX_EVENT_FIELDS,
        ensures
            final(self).wf(),
            final(self).slot_count() == old(self).slot_count(),
            final(self).visited() == old(self).visited() + 1,
            final(self).records() == sorted_insert(old(self).records(), name@, event_record(name@, fields@)),
            lookup(final(self).records(), name@) == Some(event_record(name@, fields@)),
    {
        let ghost read = fields@;
        let ghost rec = event_record(name@, read);
        let kept = keep_present(fields);
        proof {
            lemma_present_len(read);
            assert(kept@.map_values(|f: GameEventField| f@) == present(read).map_values(
                |f: GameEventField| f@,
            ));
            lemma_sorted_insert_len(self.results@, name@, rec);
            lemma_sorted_insert_values(self.results@, name@, rec);
            lemma_sorted_insert_lookup(self.results@, name@, rec, name@);
        }
        let ghost key = name@;
        record_event(&mut self.results, name, kept);
        self.visited = self.visited + 1;
        proof {
            assert forall|i: int| 0 <= i < self.results@.len() implies event_entry_ok(
                #[trigger] self.results@[i],
            ) by {
                if self.results@[i] != (key, rec) {
                    let j = choose|j: int|
                        0 <= j < old(self).results@.len() && old(self).results@[j] == self.results@[i];
                    assert(event_entry_ok(old(self).results@[j]));
                }
            }
        }
    }

    /// Whatever the walk has been told, it keeps at most one record per
    /// reported descriptor, so fewer than `MAX_EVENTS`, each filed under its
    /// own name with fewer than `MAX_EVENT_FIELDS` fields.
    pub proof fn law_walk_records(&self)
        requires
            self.wf(),
        ensures
            self.records().len() <= self.visited() <= self.slot_count() < MAX_EVENTS,
            event_entries_ok(self.records()),
    {
    }

    /// The collected game events.
    pub fn finish(self) -> (m: GameEventMap)
        requires
            self.wf(),
        ensures
            m.wf(),
            m@ == self.records(),
            m@.len() < MAX_EVENTS,
            event_entries_ok(m@),
    {
        self.results
    }
}

/// The code pattern that loads the game event manager.
pub const EVENT_MANAGER_PATTERN: &'static str = "48 8b 0d ${'} 48 8b 01 ff 50 20 48 85 c0";

/// Finds where the game event manager pointer lives in the image of
/// `client.dll`, as an offset from the module base. `Ok(None)` means the
/// pattern does not match, and the walk then yields no events.
pub fn locate_event_manager(image: &[u8]) -> (r: Result<Option<u32>, ScanError>)
    requires
        scan_safe_image(image@),
    ensures
        scan_result(image@, EVENT_MANAGER_PATTERN@, r),
{
    scan_code(image, EVENT_MANAGER_PATTERN)
}

} // verus!
