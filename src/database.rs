//! The attribute database: registered services laid out as attributes over
//! contiguous handle ranges.
use vstd::prelude::*;
use crate::att::append_bytes;

verus! {

/// Characteristic property bits, as in a characteristic declaration.
pub const PROP_READ: u8 = 0x02;
pub const PROP_WRITE_NO_RESPONSE: u8 = 0x04;
pub const PROP_WRITE: u8 = 0x08;
pub const PROP_NOTIFY: u8 = 0x10;
pub const PROP_INDICATE: u8 = 0x20;

/// The first handle the database hands out; handle 0 is never valid.
pub const FIRST_HANDLE: u16 = 1;

/// One past the largest attribute handle.
pub open spec fn handle_space_end() -> int {
    0x10000
}

#[derive(Debug, Clone)]
pub struct Descriptor {
    pub uuid: u128,
    pub properties: u8,
    pub value: Vec<u8>,
}

#[derive(Debug, Clone)]
pub struct Characteristic {
    pub uuid: u128,
    pub properties: u8,
    pub value: Vec<u8>,
    pub descriptors: Vec<Descriptor>,
}

/// A service as a caller describes it for registration.
#[derive(Debug, Clone)]
pub struct Service {
    pub uuid: u128,
    pub characteristics: Vec<Characteristic>,
}

#[derive(Debug, Clone, Copy, PartialEq, Eq, Structural)]
pub enum AttributeKind {
    ServiceDeclaration,
    CharacteristicDeclaration,
    CharacteristicValue,
    Descriptor,
}

/// One attribute of the database, at one handle.
#[derive(Debug)]
pub struct Attribute {
    pub kind: AttributeKind,
    pub uuid: u128,
    pub properties: u8,
    pub value: Vec<u8>,
}

pub ghost struct AttributeView {
    pub kind: AttributeKind,
    pub uuid: u128,
    pub properties: u8,
    pub value: Seq<u8>,
}

impl View for Attribute {
    type V = AttributeView;

    open spec fn view(&self) -> AttributeView {
        AttributeView {
            kind: self.kind,
            uuid: self.uuid,
            properties: self.properties,
            value: self.value@,
        }
    }
}

pub open spec fn attrs_view(s: Seq<Attribute>) -> Seq<AttributeView> {
    s.map_values(|a: Attribute| a@)
}

/// The attribute of a descriptor.
pub open spec fn descriptor_attr(d: Descriptor) -> AttributeView {
    AttributeView { kind: AttributeKind::Descriptor, uuid: d.uuid, properties: d.properties, value: d.value@ }
}

/// The attributes of one characteristic: its declaration, its value, then its descriptors.
pub open spec fn characteristic_layout(c: Characteristic) -> Seq<AttributeView> {
    seq![
        AttributeView {
            kind: AttributeKind::CharacteristicDeclaration,
            uuid: c.uuid,
            properties: c.properties,
            value: Seq::empty(),
        },
        AttributeView {
            kind: AttributeKind::CharacteristicValue,
            uuid: c.uuid,
            properties: c.properties,
            value: c.value@,
        },
    ] + c.descriptors@.map_values(|d: Descriptor| descriptor_attr(d))
}

pub open spec fn characteristics_layout(cs: Seq<Characteristic>) -> Seq<AttributeView>
    decreases cs.len(),
{
    if cs.len() == 0 {
        Seq::empty()
    } else {
        characteristics_layout(cs.drop_last()) + characteristic_layout(cs.last())
    }
}

/// The attributes a service occupies, in handle order from its first handle.
pub open spec fn service_layout(s: Service) -> Seq<AttributeView> {
    seq![
        AttributeView {
            kind: AttributeKind::ServiceDeclaration,
            uuid: s.uuid,
            properties: 0,
            value: Seq::empty(),
        },
    ] + characteristics_layout(s.characteristics@)
}

/// Identifies a registered service; it is the service's first handle.
#[derive(Debug, Clone, Copy, PartialEq, Eq, Structural)]
pub struct RegistrationHandle {
    pub start: u16,
}

#[derive(Debug, Clone, Copy, PartialEq, Eq, Structural)]
pub enum DatabaseError {
    /// The handle space cannot hold the service.
    HandleSpaceExhausted,
    /// A service of the same shape is already registered.
    DuplicateService,
    /// The server is not registered.
    UnknownServer,
    /// No more server identifiers can be handed out.
    ServerIdsExhausted,
}

struct ServiceEntry {
    server: u32,
    start: u16,
    attributes: Vec<Attribute>,
}

pub ghost struct EntryView {
    pub server: u32,
    pub start: u16,
    pub attributes: Seq<AttributeView>,
}

impl EntryView {
    /// The last handle of the entry's range.
    pub open spec fn end(self) -> int {
        self.start + self.attributes.len() - 1
    }

    pub open spec fn contains(self, h: int) -> bool {
        self.start <= h <= self.end()
    }
}

impl View for ServiceEntry {
    type V = EntryView;

    closed spec fn view(&self) -> EntryView {
        EntryView { server: self.server, start: self.start, attributes: attrs_view(self.attributes@) }
    }
}

/// A connected link and the handle range it is owed a Service Changed indication for.
#[derive(Clone, Copy)]
struct LinkDebt {
    link: u64,
    owed: Option<(u16, u16)>,
}

/// The registered services, the servers that own them, and the connected
/// links that must hear of changes to them.
pub struct GattDatabase {
    entries: Vec<ServiceEntry>,
    first_handle: u32,
    next_handle: u32,
    servers: Vec<u32>,
    next_server: u32,
    links: Vec<LinkDebt>,
}

pub ghost struct DatabaseView {
    pub entries: Seq<EntryView>,
    /// Handles below this one belong to the native side.
    pub first_handle: int,
    pub next_handle: int,
    pub servers: Seq<u32>,
    pub next_server: int,
    /// Each connected link, with the range it is owed a Service Changed indication for.
    pub links: Seq<(u64, Option<(u16, u16)>)>,
}

/// The smallest range that covers `owed` (if any) and `start..=end`.
pub open spec fn widen(owed: Option<(u16, u16)>, start: u16, end: u16) -> (u16, u16) {
    match owed {
        Some((a, b)) => (if a < start { a } else { start }, if b > end { b } else { end }),
        None => (start, end),
    }
}

/// Every link now owes a Service Changed indication that covers `start..=end`.
pub open spec fn owe_all(links: Seq<(u64, Option<(u16, u16)>)>, start: u16, end: u16) -> Seq<(u64, Option<(u16, u16)>)> {
    links.map_values(|l: (u64, Option<(u16, u16)>)| (l.0, Some(widen(l.1, start, end))))
}

impl View for GattDatabase {
    type V = DatabaseView;

    closed spec fn view(&self) -> DatabaseView {
        DatabaseView {
            entries: self.entries@.map_values(|e: ServiceEntry| e@),
            first_handle: self.first_handle as int,
            next_handle: self.next_handle as int,
            servers: self.servers@,
            next_server: self.next_server as int,
            links: self.links@.map_values(|d: LinkDebt| (d.link, d.owed)),
        }
    }
}

impl DatabaseView {
    /// Every range is non-empty, lies above the native side's handles and
    /// below the next free handle; ranges are in increasing order and do not
    /// overlap; server ids are unique and below the next one handed out; each
    /// link appears once.
    pub open spec fn wf(self) -> bool {
        &&& FIRST_HANDLE <= self.first_handle <= self.next_handle <= handle_space_end()
        &&& forall|i: int, j: int|
            0 <= i < j < self.links.len() ==> self.links[i].0 != self.links[j].0
        &&& forall|i: int|
            0 <= i < self.entries.len() ==> {
                &&& self.entries[i].attributes.len() >= 1
                &&& self.first_handle <= self.entries[i].start
                &&& self.entries[i].end() < self.next_handle
            }
        &&& forall|i: int, j: int|
            0 <= i < j < self.entries.len() ==> self.entries[i].end() < self.entries[j].start
        &&& forall|i: int, j: int|
            0 <= i < j < self.servers.len() ==> self.servers[i] != self.servers[j]
        &&& forall|i: int| 0 <= i < self.servers.len() ==> self.servers[i] < self.next_server
        &&& self.next_server <= u32::MAX
    }

    /// Two ranges of registered services never share a handle.
    pub open spec fn ranges_disjoint(self) -> bool {
        forall|i: int, j: int, h: int|
            0 <= i < self.entries.len() && 0 <= j < self.entries.len() && i != j
                && #[trigger] self.entries[i].contains(h) ==> !#[trigger] self.entries[j].contains(h)
    }

    /// Whether `h` is one of the handles kept for the native side.
    pub open spec fn is_native_handle(self, h: int) -> bool {
        FIRST_HANDLE <= h < self.first_handle
    }

    /// The index of `link` among the connected links, if it is connected.
    pub open spec fn link_index(self, link: u64) -> Option<int> {
        if exists|i: int| 0 <= i < self.links.len() && #[trigger] self.links[i].0 == link {
            Some(choose|i: int| 0 <= i < self.links.len() && #[trigger] self.links[i].0 == link)
        } else {
            None
        }
    }

    /// Whether a registered service holds some handle from `start` to `end`.
    pub open spec fn overlaps(self, start: int, end: int) -> bool {
        exists|i: int| 0 <= i < self.entries.len() && #[trigger] self.entries[i].start <= end && start <= self.entries[i].end()
    }

    /// The range `link` is owed a Service Changed indication for, if any.
    pub open spec fn owed_to(self, link: u64) -> Option<(u16, u16)> {
        match self.link_index(link) {
            Some(i) => self.links[i].1,
            None => None,
        }
    }

    /// Whether `server` owns a registered service.
    pub open spec fn serves(self, server: u32) -> bool {
        exists|i: int| 0 <= i < self.entries.len() && #[trigger] self.entries[i].server == server
    }

    pub open spec fn has_server(self, server: u32) -> bool {
        self.servers.contains(server)
    }

    pub open spec fn is_registered(self, start: u16) -> bool {
        exists|i: int| 0 <= i < self.entries.len() && self.entries[i].start == start
    }

    /// The index of the service whose range holds handle `h`, if one does.
    pub open spec fn owner_of(self, h: int) -> Option<int> {
        if exists|i: int| 0 <= i < self.entries.len() && #[trigger] self.entries[i].contains(h) {
            Some(choose|i: int| 0 <= i < self.entries.len() && #[trigger] self.entries[i].contains(h))
        } else {
            None
        }
    }

    /// The attribute at handle `h`, if a registered service holds it.
    pub open spec fn attribute_at(self, h: int) -> Option<AttributeView> {
        match self.owner_of(h) {
            Some(i) => Some(self.entries[i].attributes[h - self.entries[i].start]),
            None => None,
        }
    }

    /// A registered service has the same shape (kinds, uuids and properties
    /// of all its attributes) as the given layout.
    pub open spec fn has_same_shape(self, layout: Seq<AttributeView>) -> bool {
        exists|i: int| 0 <= i < self.entries.len() && same_shape(#[trigger] self.entries[i].attributes, layout)
    }

    /// The layout fits between the next free handle and the end of the handle space.
    pub open spec fn fits(self, layout: Seq<AttributeView>) -> bool {
        self.next_handle + layout.len() <= handle_space_end()
    }

    /// The index of the service that starts at `start`, if one is registered.
    pub open spec fn index_of(self, start: u16) -> Option<int> {
        if exists|i: int| 0 <= i < self.entries.len() && #[trigger] self.entries[i].start == start {
            Some(choose|i: int| 0 <= i < self.entries.len() && #[trigger] self.entries[i].start == start)
        } else {
            None
        }
    }

    /// The database once the service starting at `start` is gone; every
    /// connected link is owed a Service Changed indication for its range.
    pub open spec fn without(self, start: u16) -> DatabaseView {
        match self.index_of(start) {
            Some(i) => DatabaseView {
                entries: self.entries.remove(i),
                links: owe_all(self.links, start, self.entries[i].end() as u16),
                ..self
            },
            None => self,
        }
    }

    /// The database with the service registered for `server` at the next free
    /// handle; every connected link is owed a Service Changed indication for
    /// its range.
    pub open spec fn with_service(self, server: u32, layout: Seq<AttributeView>) -> DatabaseView {
        DatabaseView {
            entries: self.entries.push(
                EntryView { server, start: self.next_handle as u16, attributes: layout },
            ),
            next_handle: self.next_handle + layout.len(),
            links: owe_all(self.links, self.next_handle as u16, (self.next_handle + layout.len() - 1) as u16),
            ..self
        }
    }

    /// The database once every service of `server` is gone; if there was one,
    /// every connected link is owed a Service Changed indication for the
    /// platform's whole part of the handle space.
    pub open spec fn without_server(self, server: u32) -> DatabaseView {
        DatabaseView {
            entries: self.entries.filter(not_of(server)),
            links: if self.serves(server) {
                owe_all(self.links, self.first_handle as u16, 0xFFFF)
            } else {
                self.links
            },
            ..self
        }
    }

    /// The database with the value at handle `h` replaced by `v`.
    pub open spec fn with_value(self, h: int, v: Seq<u8>) -> DatabaseView {
        match self.owner_of(h) {
            Some(i) => {
                let e = self.entries[i];
                let k = h - e.start;
                DatabaseView {
                    entries: self.entries.update(
                        i,
                        EntryView {
                            attributes: e.attributes.update(k, AttributeView { value: v, ..e.attributes[k] }),
                            ..e
                        },
                    ),
                    ..self
                }
            },
            None => self,
        }
    }
}

/// Holds of the entries that `server` does not own.
pub open spec fn not_of(server: u32) -> spec_fn(EntryView) -> bool {
    |e: EntryView| e.server != server
}

pub open spec fn same_shape(a: Seq<AttributeView>, b: Seq<AttributeView>) -> bool {
    &&& a.len() == b.len()
    &&& forall|k: int|
        0 <= k < a.len() ==> {
            &&& (#[trigger] a[k]).kind == b[k].kind
            &&& a[k].uuid == b[k].uuid
            &&& a[k].properties == b[k].properties
        }
}

/// Ranges of two registered services never overlap.
pub proof fn lemma_ranges_disjoint(db: DatabaseView)
    requires
        db.wf(),
    ensures
        db.ranges_disjoint(),
{
    assert forall|i: int, j: int, h: int|
        0 <= i < db.entries.len() && 0 <= j < db.entries.len() && i != j
            && #[trigger] db.entries[i].contains(h) implies !#[trigger] db.entries[j].contains(h) by {
        if i < j {
            assert(db.entries[i].end() < db.entries[j].start);
        } else {
            assert(db.entries[j].end() < db.entries[i].start);
        }
    }
}

proof fn lemma_remove_at_wf(db: DatabaseView, i: int)
    requires
        db.wf(),
        0 <= i < db.entries.len(),
    ensures
        (DatabaseView { entries: db.entries.remove(i), ..db }).wf(),
{
    let r = DatabaseView { entries: db.entries.remove(i), ..db };
    assert forall|a: int, b: int| 0 <= a < b < r.entries.len() implies r.entries[a].end()
        < r.entries[b].start by {
        let a0 = if a < i { a } else { a + 1 };
        let b0 = if b < i { b } else { b + 1 };
        assert(r.entries[a] == db.entries[a0]);
        assert(r.entries[b] == db.entries[b0]);
    }
}

proof fn lemma_owner_unique(db: DatabaseView, i: int, h: int)
    requires
        db.wf(),
        0 <= i < db.entries.len(),
        db.entries[i].contains(h),
    ensures
        db.owner_of(h) == Some(i),
{
    lemma_ranges_disjoint(db);
}

proof fn lemma_index_unique(db: DatabaseView, i: int)
    requires
        db.wf(),
        0 <= i < db.entries.len(),
    ensures
        db.index_of(db.entries[i].start) == Some(i),
{
    let j = choose|j: int| 0 <= j < db.entries.len() && #[trigger] db.entries[j].start == db.entries[i].start;
    if j < i {
        assert(db.entries[j].end() < db.entries[i].start);
    } else if i < j {
        assert(db.entries[i].end() < db.entries[j].start);
    }
}

/// A handle that a registered service holds is never one of the native side's.
pub proof fn lemma_platform_handles_not_native(db: DatabaseView, h: int)
    requires
        db.wf(),
        db.owner_of(h) is Some,
    ensures
        !db.is_native_handle(h),
        h >= db.first_handle,
{
    let i = db.owner_of(h)->Some_0;
    assert(db.entries[i].contains(h));
}

proof fn lemma_link_index_unique(db: DatabaseView, i: int)
    requires
        db.wf(),
        0 <= i < db.links.len(),
    ensures
        db.link_index(db.links[i].0) == Some(i),
{
    let j = choose|j: int| 0 <= j < db.links.len() && #[trigger] db.links[j].0 == db.links[i].0;
    if j != i {
        if j < i {
            assert(db.links[j].0 != db.links[i].0);
        } else {
            assert(db.links[i].0 != db.links[j].0);
        }
    }
}

/// Removing a service keeps the database well formed, and leaves no service
/// starting at the removed handle.
pub proof fn lemma_without_wf(db: DatabaseView, start: u16)
    requires
        db.wf(),
    ensures
        db.without(start).wf(),
        db.without(start).index_of(start) is None,
{
    let r = db.without(start);
    match db.index_of(start) {
        Some(i) => {
            lemma_remove_at_wf(db, i);
            if exists|k: int| 0 <= k < r.entries.len() && #[trigger] r.entries[k].start == start {
                let k = choose|k: int| 0 <= k < r.entries.len() && #[trigger] r.entries[k].start == start;
                let k0 = if k < i { k } else { k + 1 };
                assert(r.entries[k] == db.entries[k0]);
                lemma_index_unique(db, k0);
            }
        },
        None => {},
    }
}

/// Removing the same service twice leaves the database as removing it once.
pub proof fn lemma_remove_idempotent(db: DatabaseView, start: u16)
    requires
        db.wf(),
    ensures
        db.without(start).without(start) == db.without(start),
{
    lemma_without_wf(db, start);
}

fn push_attr(out: &mut Vec<Attribute>, a: Attribute)
    ensures
        attrs_view(final(out)@) == attrs_view(old(out)@).push(a@),
{
    let ghost av = a@;
    out.push(a);
    assert(attrs_view(final(out)@) =~= attrs_view(old(out)@).push(av));
}

pub(crate) fn copy_bytes(v: &Vec<u8>) -> (r: Vec<u8>)
    ensures
        r@ == v@,
{
    let mut r: Vec<u8> = Vec::new();
    append_bytes(&mut r, v);
    assert(r@ =~= v@);
    r
}

/// The attributes a service occupies, built from its description.
pub fn layout_of(service: &Service) -> (r: Vec<Attribute>)
    ensures
        attrs_view(r@) == service_layout(*service),
{
    let mut out: Vec<Attribute> = Vec::new();
    push_attr(
        &mut out,
        Attribute { kind: AttributeKind::ServiceDeclaration, uuid: service.uuid, properties: 0, value: Vec::new() },
    );
    let ghost head = attrs_view(out@);
    assert(service.characteristics@.take(0) =~= Seq::<Characteristic>::empty());
    assert(attrs_view(out@) =~= head + characteristics_layout(service.characteristics@.take(0)));
    let mut i: usize = 0;
    while i < service.characteristics.len()
        invariant
            i <= service.characteristics@.len(),
            head == seq![
                AttributeView {
                    kind: AttributeKind::ServiceDeclaration,
                    uuid: service.uuid,
                    properties: 0,
                    value: Seq::empty(),
                },
            ],
            attrs_view(out@) == head + characteristics_layout(service.characteristics@.take(i as int)),
        decreases service.characteristics@.len() - i,
    {
        let c = &service.characteristics[i];
        let ghost before = attrs_view(out@);
        push_attr(
            &mut out,
            Attribute {
                kind: AttributeKind::CharacteristicDeclaration,
                uuid: c.uuid,
                properties: c.properties,
                value: Vec::new(),
            },
        );
        push_attr(
            &mut out,
            Attribute {
                kind: AttributeKind::CharacteristicValue,
                uuid: c.uuid,
                properties: c.properties,
                value: copy_bytes(&c.value),
            },
        );
        let ghost mid = attrs_view(out@);
        let mut j: usize = 0;
        assert(c.descriptors@.take(0).map_values(|d: Descriptor| descriptor_attr(d)) =~= Seq::<AttributeView>::empty());
        assert(attrs_view(out@) =~= mid + c.descriptors@.take(0).map_values(|d: Descriptor| descriptor_attr(d)));
        while j < c.descriptors.len()
            invariant
                j <= c.descriptors@.len(),
                attrs_view(out@) == mid + c.descriptors@.take(j as int).map_values(|d: Descriptor| descriptor_attr(d)),
            decreases c.descriptors@.len() - j,
        {
            let d = &c.descriptors[j];
            push_attr(
                &mut out,
                Attribute {
                    kind: AttributeKind::Descriptor,
                    uuid: d.uuid,
                    properties: d.properties,
                    value: copy_bytes(&d.value),
                },
            );
            assert(c.descriptors@.take(j + 1).map_values(|d: Descriptor| descriptor_attr(d))
                =~= c.descriptors@.take(j as int).map_values(|d: Descriptor| descriptor_attr(d)).push(descriptor_attr(*d)));
            j = j + 1;
            assert(attrs_view(out@) =~= mid + c.descriptors@.take(j as int).map_values(|d: Descriptor| descriptor_attr(d)));
        }
        assert(c.descriptors@.take(j as int) =~= c.descriptors@);
        let ghost cs = service.characteristics@.take(i + 1);
        assert(cs.drop_last() =~= service.characteristics@.take(i as int));
        assert(cs.last() == *c);
        assert(attrs_view(out@) =~= before + characteristic_layout(*c));
        i = i + 1;
        assert(attrs_view(out@) =~= head + characteristics_layout(service.characteristics@.take(i as int)));
    }
    assert(service.characteristics@.take(i as int) =~= service.characteristics@);
    out
}

fn same_shape_exec(a: &Vec<Attribute>, b: &Vec<Attribute>) -> (r: bool)
    ensures
        r == same_shape(attrs_view(a@), attrs_view(b@)),
{
    if a.len() != b.len() {
        return false;
    }
    let mut k: usize = 0;
    while k < a.len()
        invariant
            a@.len() == b@.len(),
            k <= a@.len(),
            forall|m: int|
                0 <= m < k ==> {
                    &&& (#[trigger] attrs_view(a@)[m]).kind == attrs_view(b@)[m].kind
                    &&& attrs_view(a@)[m].uuid == attrs_view(b@)[m].uuid
                    &&& attrs_view(a@)[m].properties == attrs_view(b@)[m].properties
                },
        decreases a@.len() - k,
    {
        if a[k].kind != b[k].kind || a[k].uuid != b[k].uuid || a[k].properties != b[k].properties {
            assert(attrs_view(a@)[k as int].kind != attrs_view(b@)[k as int].kind
                || attrs_view(a@)[k as int].uuid != attrs_view(b@)[k as int].uuid
                || attrs_view(a@)[k as int].properties != attrs_view(b@)[k as int].properties);
            return false;
        }
        k = k + 1;
    }
    true
}

impl GattDatabase {
    /// An empty database with no servers and no links, which keeps no
    /// handles for the native side.
    pub fn new() -> (r: Self)
        ensures
            r@.wf(),
            r@.entries.len() == 0,
            r@.servers.len() == 0,
            r@.links.len() == 0,
            r@.first_handle == FIRST_HANDLE,
            r@.next_handle == FIRST_HANDLE,
            r@.next_server == 0,
    {
        Self::with_native_handles(0)
    }

    /// An empty database that keeps handles `1..=native_end` for the native
    /// side: services are placed above them.
    pub fn with_native_handles(native_end: u16) -> (r: Self)
        ensures
            r@.wf(),
            r@.entries.len() == 0,
            r@.servers.len() == 0,
            r@.links.len() == 0,
            r@.first_handle == native_end + 1,
            r@.next_handle == native_end + 1,
            r@.next_server == 0,
    {
        let first = native_end as u32 + 1;
        let r = GattDatabase {
            entries: Vec::new(),
            first_handle: first,
            next_handle: first,
            servers: Vec::new(),
            next_server: 0,
            links: Vec::new(),
        };
        assert(r@.entries =~= Seq::<EntryView>::empty());
        assert(r@.links =~= Seq::<(u64, Option<(u16, u16)>)>::empty());
        r
    }

    fn owe_links(&mut self, start: u16, end: u16)
        requires
            old(self)@.wf(),
        ensures
            final(self)@.wf(),
            final(self)@ == (DatabaseView { links: owe_all(old(self)@.links, start, end), ..old(self)@ }),
    {
        let ghost o = self@;
        let ghost target = owe_all(o.links, start, end);
        let mut i: usize = 0;
        while i < self.links.len()
            invariant
                o == old(self)@,
                target == owe_all(o.links, start, end),
                i <= self@.links.len(),
                self@.links.len() == o.links.len(),
                self@ == (DatabaseView { links: self@.links, ..o }),
                forall|k: int| 0 <= k < i ==> self@.links[k] == target[k],
                forall|k: int| i <= k < self@.links.len() ==> self@.links[k] == o.links[k],
            decreases self@.links.len() - i,
        {
            let d = self.links[i];
            let widened = match d.owed {
                Some((a, b)) => (if a < start { a } else { start }, if b > end { b } else { end }),
                None => (start, end),
            };
            let ghost before = self@;
            self.links.set(i, LinkDebt { link: d.link, owed: Some(widened) });
            assert(self@.links =~= before.links.update(i as int, (d.link, Some(widened))));
            assert(self@ =~= DatabaseView { links: self@.links, ..o });
            i = i + 1;
        }
        assert(self@.links =~= target);
    }

    /// Starts tracking `link` as connected; false if it already was.
    pub fn connect_link(&mut self, link: u64) -> (r: bool)
        requires
            old(self)@.wf(),
        ensures
            final(self)@.wf(),
            r == (old(self)@.link_index(link) is None),
            r ==> final(self)@ == (DatabaseView { links: old(self)@.links.push((link, None)), ..old(self)@ }),
            !r ==> final(self)@ == old(self)@,
    {
        match self.link_position(link) {
            Some(_) => false,
            None => {
                let ghost o = self@;
                self.links.push(LinkDebt { link, owed: None });
                assert(self@.links =~= o.links.push((link, None)));
                assert(self@ =~= DatabaseView { links: o.links.push((link, None)), ..o });
                true
            },
        }
    }

    /// Stops tracking `link`, and with it what it was owed; false if it was not connected.
    pub fn disconnect_link(&mut self, link: u64) -> (r: bool)
        requires
            old(self)@.wf(),
        ensures
            final(self)@.wf(),
            r == (old(self)@.link_index(link) is Some),
            match old(self)@.link_index(link) {
                Some(i) => final(self)@ == (DatabaseView { links: old(self)@.links.remove(i), ..old(self)@ }),
                None => final(self)@ == old(self)@,
            },
    {
        match self.link_position(link) {
            Some(i) => {
                let ghost o = self@;
                proof {
                    lemma_link_index_unique(o, i as int);
                }
                self.links.remove(i);
                assert(self@.links =~= o.links.remove(i as int));
                assert forall|a: int, b: int| 0 <= a < b < self@.links.len() implies self@.links[a].0
                    != self@.links[b].0 by {
                    let a0 = if a < i { a } else { a + 1 };
                    let b0 = if b < i { b } else { b + 1 };
                    assert(self@.links[a] == o.links[a0]);
                    assert(self@.links[b] == o.links[b0]);
                }
                assert(self@ =~= DatabaseView { links: o.links.remove(i as int), ..o });
                true
            },
            None => false,
        }
    }

    /// The range `link` is owed a Service Changed indication for, if any; the
    /// debt is cleared, as the caller now sends that indication.
    pub fn take_service_changed(&mut self, link: u64) -> (r: Option<(u16, u16)>)
        requires
            old(self)@.wf(),
        ensures
            final(self)@.wf(),
            match old(self)@.link_index(link) {
                Some(i) => {
                    &&& r == old(self)@.links[i].1
                    &&& final(self)@ == (DatabaseView {
                        links: old(self)@.links.update(i, (link, None)),
                        ..old(self)@
                    })
                },
                None => r is None && final(self)@ == old(self)@,
            },
    {
        match self.link_position(link) {
            Some(i) => {
                let ghost o = self@;
                proof {
                    lemma_link_index_unique(o, i as int);
                }
                let owed = self.links[i].owed;
                self.links.set(i, LinkDebt { link, owed: None });
                assert(self@.links =~= o.links.update(i as int, (link, None)));
                assert(self@ =~= DatabaseView { links: o.links.update(i as int, (link, None)), ..o });
                owed
            },
            None => None,
        }
    }

    /// The range `link` is owed a Service Changed indication for, if any.
    pub fn service_changed_owed(&self, link: u64) -> (r: Option<(u16, u16)>)
        requires
            self@.wf(),
        ensures
            r == self@.owed_to(link),
    {
        match self.link_position(link) {
            Some(i) => {
                proof {
                    lemma_link_index_unique(self@, i as int);
                }
                self.links[i].owed
            },
            None => None,
        }
    }

    fn link_position(&self, link: u64) -> (r: Option<usize>)
        ensures
            r matches Some(i) ==> i < self@.links.len() && self@.links[i as int].0 == link,
            r is None ==> self@.link_index(link) is None,
    {
        let mut i: usize = 0;
        while i < self.links.len()
            invariant
                i <= self@.links.len(),
                forall|k: int| 0 <= k < i ==> #[trigger] self@.links[k].0 != link,
            decreases self@.links.len() - i,
        {
            if self.links[i].link == link {
                return Some(i);
            }
            i = i + 1;
        }
        None
    }

    fn serves_exec(&self, server: u32) -> (r: bool)
        ensures
            r == self@.serves(server),
    {
        let mut i: usize = 0;
        while i < self.entries.len()
            invariant
                i <= self@.entries.len(),
                forall|k: int| 0 <= k < i ==> #[trigger] self@.entries[k].server != server,
            decreases self@.entries.len() - i,
        {
            if self.entries[i].server == server {
                assert(self@.entries[i as int].server == server);
                return true;
            }
            i = i + 1;
        }
        false
    }

    /// Hands out a new server identifier.
    pub fn register_server(&mut self) -> (r: Result<u32, DatabaseError>)
        requires
            old(self)@.wf(),
        ensures
            final(self)@.wf(),
            old(self)@.next_server < u32::MAX ==> {
                &&& r == Ok::<u32, DatabaseError>(old(self)@.next_server as u32)
                &&& final(self)@ == (DatabaseView {
                    servers: old(self)@.servers.push(old(self)@.next_server as u32),
                    next_server: old(self)@.next_server + 1,
                    ..old(self)@
                })
            },
            old(self)@.next_server == u32::MAX ==> {
                &&& r == Err::<u32, DatabaseError>(DatabaseError::ServerIdsExhausted)
                &&& final(self)@ == old(self)@
            },
    {
        if self.next_server == u32::MAX {
            return Err(DatabaseError::ServerIdsExhausted);
        }
        let id = self.next_server;
        self.servers.push(id);
        self.next_server = id + 1;
        assert(self@.entries =~= old(self)@.entries);
        Ok(id)
    }

    fn server_index(&self, server: u32) -> (r: Option<usize>)
        ensures
            r matches Some(i) ==> i < self.servers@.len() && self.servers@[i as int] == server,
            r is None ==> !self.servers@.contains(server),
    {
        let mut i: usize = 0;
        while i < self.servers.len()
            invariant
                i <= self.servers@.len(),
                forall|k: int| 0 <= k < i ==> self.servers@[k] != server,
            decreases self.servers@.len() - i,
        {
            if self.servers[i] == server {
                return Some(i);
            }
            i = i + 1;
        }
        None
    }

    /// Whether `server` is registered.
    pub fn has_server(&self, server: u32) -> (r: bool)
        ensures
            r == self@.has_server(server),
    {
        self.server_index(server).is_some()
    }

    /// Registers a service for `server`, at the lowest handle never handed out
    /// before, and returns the handle that identifies it.
    pub fn add_service(&mut self, server: u32, service: &Service) -> (r: Result<RegistrationHandle, DatabaseError>)
        requires
            old(self)@.wf(),
        ensures
            final(self)@.wf(),
            !old(self)@.has_server(server) ==> r == Err::<RegistrationHandle, DatabaseError>(
                DatabaseError::UnknownServer,
            ),
            old(self)@.has_server(server) && old(self)@.has_same_shape(service_layout(*service))
                ==> r == Err::<RegistrationHandle, DatabaseError>(DatabaseError::DuplicateService),
            old(self)@.has_server(server) && !old(self)@.has_same_shape(service_layout(*service))
                && !old(self)@.fits(service_layout(*service)) ==> r == Err::<
                RegistrationHandle,
                DatabaseError,
            >(DatabaseError::HandleSpaceExhausted),
            old(self)@.has_server(server) && !old(self)@.has_same_shape(service_layout(*service))
                && old(self)@.fits(service_layout(*service)) ==> {
                &&& r == Ok::<RegistrationHandle, DatabaseError>(
                    RegistrationHandle { start: old(self)@.next_handle as u16 },
                )
                &&& final(self)@ == old(self)@.with_service(server, service_layout(*service))
            },
            r matches Ok(h) ==> h.start >= old(self)@.first_handle,
            r is Err ==> final(self)@ == old(self)@,
    {
        match self.server_index(server) {
            None => {
                return Err(DatabaseError::UnknownServer);
            },
            Some(k) => {
                assert(self@.servers[k as int] == server);
            },
        }
        let attributes = layout_of(service);
        let ghost layout = service_layout(*service);
        let mut i: usize = 0;
        while i < self.entries.len()
            invariant
                i <= self@.entries.len(),
                self@ == old(self)@,
                self@.wf(),
                self@.has_server(server),
                layout == service_layout(*service),
                attrs_view(attributes@) == layout,
                forall|k: int| 0 <= k < i ==> !same_shape(#[trigger] self@.entries[k].attributes, layout),
            decreases self@.entries.len() - i,
        {
            if same_shape_exec(&self.entries[i].attributes, &attributes) {
                assert(self@.entries[i as int].attributes == attrs_view(self.entries@[i as int].attributes@));
                return Err(DatabaseError::DuplicateService);
            }
            i = i + 1;
        }
        if attributes.len() > 0x10000 - self.next_handle as usize {
            return Err(DatabaseError::HandleSpaceExhausted);
        }
        let start = self.next_handle as u16;
        let ghost old_view = self@;
        let n = attributes.len();
        let end = (self.next_handle + n as u32 - 1) as u16;
        self.entries.push(ServiceEntry { server, start, attributes });
        self.next_handle = self.next_handle + n as u32;
        assert(self@.entries =~= old_view.entries.push(
            EntryView { server, start: old_view.next_handle as u16, attributes: layout },
        ));
        assert(self@ =~= DatabaseView {
            entries: old_view.entries.push(EntryView { server, start: old_view.next_handle as u16, attributes: layout }),
            next_handle: old_view.next_handle + layout.len(),
            ..old_view
        });
        assert(self@.wf());
        self.owe_links(start, end);
        assert(self@ =~= old_view.with_service(server, layout));
        Ok(RegistrationHandle { start })
    }

    /// Unregisters the service that `h` identifies; does nothing if none does.
    pub fn remove_service(&mut self, h: RegistrationHandle)
        requires
            old(self)@.wf(),
        ensures
            final(self)@.wf(),
            final(self)@ == old(self)@.without(h.start),
    {
        let ghost old_view = self@;
        let mut i: usize = 0;
        while i < self.entries.len()
            invariant
                i <= self@.entries.len(),
                self@ == old_view,
                old_view == old(self)@,
                old_view.wf(),
                forall|k: int| 0 <= k < i ==> #[trigger] old_view.entries[k].start != h.start,
            decreases self@.entries.len() - i,
        {
            if self.entries[i].start == h.start {
                proof {
                    lemma_index_unique(old_view, i as int);
                    lemma_without_wf(old_view, h.start);
                }
                let end = (self.entries[i].start as usize + self.entries[i].attributes.len() - 1) as u16;
                self.entries.remove(i);
                assert(self@.entries =~= old_view.entries.remove(i as int));
                proof {
                    lemma_remove_at_wf(old_view, i as int);
                }
                assert(self@ =~= DatabaseView { entries: old_view.entries.remove(i as int), ..old_view });
                self.owe_links(h.start, end);
                assert(self@ =~= old_view.without(h.start));
                return;
            }
            i = i + 1;
        }
    }

    /// Unregisters every service of `server`.
    pub fn clear_services(&mut self, server: u32)
        requires
            old(self)@.wf(),
        ensures
            final(self)@.wf(),
            final(self)@ == old(self)@.without_server(server),
    {
        let any = self.serves_exec(server);
        let ghost o = self@;
        let ghost p = not_of(server);
        let mut i: usize = self.entries.len();
        assert(o.entries.skip(i as int) =~= Seq::<EntryView>::empty());
        assert(o.entries.skip(i as int).filter(p) =~= Seq::<EntryView>::empty());
        assert(o.entries.take(i as int) =~= o.entries);
        assert(self@ =~= DatabaseView { entries: o.entries.take(i as int) + o.entries.skip(i as int).filter(p), ..o });
        while i > 0
            invariant
                i <= o.entries.len(),
                o == old(self)@,
                p == not_of(server),
                self@.wf(),
                self@ == (DatabaseView { entries: o.entries.take(i as int) + o.entries.skip(i as int).filter(p), ..o }),
            decreases i,
        {
            i = i - 1;
            let ghost x = o.entries[i as int];
            proof {
                o.entries.skip(i + 1).lemma_filter_prepend(x, p);
                assert(o.entries.skip(i as int) =~= seq![x] + o.entries.skip(i + 1));
                assert(self@.entries[i as int] == x);
            }
            if self.entries[i].server == server {
                let ghost before = self@;
                proof {
                    lemma_remove_at_wf(before, i as int);
                    assert(!p(x));
                    assert(before.entries.remove(i as int) =~= o.entries.take(i as int) + o.entries.skip(i + 1).filter(p));
                }
                self.entries.remove(i);
                assert(self@.entries =~= before.entries.remove(i as int));
                assert(self@ =~= DatabaseView { entries: before.entries.remove(i as int), ..before });
                assert(self@.entries =~= o.entries.take(i as int) + o.entries.skip(i as int).filter(p));
            } else {
                assert(p(x));
                assert(self@.entries =~= o.entries.take(i as int) + o.entries.skip(i as int).filter(p));
            }
            assert(self@ =~= DatabaseView { entries: o.entries.take(i as int) + o.entries.skip(i as int).filter(p), ..o });
        }
        assert(o.entries.skip(0) =~= o.entries);
        if any {
            self.owe_links(self.first_handle as u16, 0xFFFF);
        }
        assert(self@ =~= o.without_server(server));
    }

    /// Unregisters `server` and every service it owns; false if it was not registered.
    pub fn unregister_server(&mut self, server: u32) -> (r: bool)
        requires
            old(self)@.wf(),
        ensures
            final(self)@.wf(),
            r == old(self)@.has_server(server),
            !r ==> final(self)@ == old(self)@,
            r ==> final(self)@ == (DatabaseView { servers: final(self)@.servers, ..old(self)@.without_server(server) }),
            forall|s: u32| s != server ==> final(self)@.has_server(s) == old(self)@.has_server(s),
            !final(self)@.has_server(server),
    {
        match self.server_index(server) {
            None => false,
            Some(k) => {
                let ghost o = self@;
                self.servers.remove(k);
                assert(self@.entries == o.entries);
                assert(self@ =~= DatabaseView { servers: self@.servers, ..o });
                assert forall|a: int, b: int| 0 <= a < b < self@.servers.len() implies self@.servers[a]
                    != self@.servers[b] by {
                    let a0 = if a < k { a } else { a + 1 };
                    let b0 = if b < k { b } else { b + 1 };
                    assert(self@.servers[a] == o.servers[a0]);
                    assert(self@.servers[b] == o.servers[b0]);
                }
                assert forall|a: int| 0 <= a < self@.servers.len() implies self@.servers[a] < self@.next_server by {
                    let a0 = if a < k { a } else { a + 1 };
                    assert(self@.servers[a] == o.servers[a0]);
                }
                assert forall|s: u32| s != server implies self@.has_server(s) == o.has_server(s) by {
                    if o.has_server(s) {
                        let j = choose|j: int| 0 <= j < o.servers.len() && o.servers[j] == s;
                        let j1 = if j < k { j } else { j - 1 };
                        assert(self@.servers[j1] == s);
                    }
                    if self@.has_server(s) {
                        let j = choose|j: int| 0 <= j < self@.servers.len() && self@.servers[j] == s;
                        let j0 = if j < k { j } else { j + 1 };
                        assert(o.servers[j0] == s);
                    }
                }
                proof {
                    if self@.has_server(server) {
                        let j = choose|j: int| 0 <= j < self@.servers.len() && self@.servers[j] == server;
                        let j0 = if j < k { j } else { j + 1 };
                        assert(o.servers[j0] == server);
                    }
                }
                self.clear_services(server);
                assert(self@ =~= DatabaseView { servers: self@.servers, ..o.without_server(server) });
                true
            },
        }
    }

    /// Replaces the value at handle `h`.
    pub fn set_value(&mut self, h: u16, v: Vec<u8>)
        requires
            old(self)@.wf(),
            old(self)@.attribute_at(h as int) is Some,
        ensures
            final(self)@.wf(),
            final(self)@ == old(self)@.with_value(h as int, v@),
    {
        let ghost o = self@;
        let mut i: usize = 0;
        while i < self.entries.len()
            invariant
                i <= self@.entries.len(),
                self@ == o,
                o == old(self)@,
                o.wf(),
                o.attribute_at(h as int) is Some,
                forall|k: int| 0 <= k < i ==> !(#[trigger] self@.entries[k]).contains(h as int),
            decreases self@.entries.len() - i,
        {
            if self.entries[i].start <= h && ((h - self.entries[i].start) as usize) < self.entries[i].attributes.len() {
                proof {
                    lemma_owner_unique(o, i as int, h as int);
                }
                let k = (h - self.entries[i].start) as usize;
                let ghost vv = v@;
                self.entries[i].attributes[k].value = v;
                assert(self@.entries[i as int].attributes =~= o.entries[i as int].attributes.update(
                    k as int,
                    AttributeView { value: vv, ..o.entries[i as int].attributes[k as int] },
                ));
                assert(self@.entries =~= o.with_value(h as int, vv).entries);
                assert(self@ =~= o.with_value(h as int, vv));
                return;
            }
            i = i + 1;
        }
        // Not reached: the precondition says some service holds `h`.
        assert(false);
    }

    /// The first and last handle of the service that `h` identifies, if it is registered.
    pub fn range_of(&self, h: RegistrationHandle) -> (r: Option<(u16, u16)>)
        requires
            self@.wf(),
        ensures
            match self@.index_of(h.start) {
                Some(i) => r == Some((h.start, self@.entries[i].end() as u16)),
                None => r is None,
            },
    {
        let mut i: usize = 0;
        while i < self.entries.len()
            invariant
                i <= self@.entries.len(),
                self@.wf(),
                forall|k: int| 0 <= k < i ==> #[trigger] self@.entries[k].start != h.start,
            decreases self@.entries.len() - i,
        {
            if self.entries[i].start == h.start {
                proof {
                    lemma_index_unique(self@, i as int);
                }
                let end = self.entries[i].start as usize + self.entries[i].attributes.len() - 1;
                return Some((h.start, end as u16));
            }
            i = i + 1;
        }
        None
    }

    /// Whether a registered service holds some handle from `start` to `end`.
    pub fn overlaps(&self, start: u16, end: u16) -> (r: bool)
        requires
            self@.wf(),
        ensures
            r == self@.overlaps(start as int, end as int),
    {
        let mut i: usize = 0;
        while i < self.entries.len()
            invariant
                i <= self@.entries.len(),
                self@.wf(),
                forall|k: int|
                    0 <= k < i ==> !(#[trigger] self@.entries[k].start <= end && start <= self@.entries[k].end()),
            decreases self@.entries.len() - i,
        {
            let e = &self.entries[i];
            assert(self@.entries[i as int].attributes.len() == e.attributes@.len());
            assert(self@.entries[i as int].start == e.start);
            let last = e.start as usize + e.attributes.len() - 1;
            if e.start <= end && start as usize <= last {
                return true;
            }
            i = i + 1;
        }
        false
    }

    /// The attribute at handle `h`, if a registered service holds it.
    pub fn lookup(&self, h: u16) -> (r: Option<&Attribute>)
        requires
            self@.wf(),
        ensures
            r matches Some(a) ==> self@.attribute_at(h as int) == Some(a@),
            r is None ==> self@.attribute_at(h as int) is None,
    {
        let mut i: usize = 0;
        while i < self.entries.len()
            invariant
                i <= self@.entries.len(),
                self@.wf(),
                forall|k: int| 0 <= k < i ==> !(#[trigger] self@.entries[k]).contains(h as int),
            decreases self@.entries.len() - i,
        {
            let e = &self.entries[i];
            if e.start <= h && ((h - e.start) as usize) < e.attributes.len() {
                proof {
                    lemma_owner_unique(self@, i as int, h as int);
                }
                return Some(&e.attributes[(h - e.start) as usize]);
            }
            i = i + 1;
        }
        None
    }
}

} // verus!
