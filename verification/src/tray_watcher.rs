//! The tables of the status notifier watcher: the hosts that registered, and
//! for each connection the items it registered, each as the string
//! `{UNIQUE_NAME}{OBJECT_PATH}` that hosts are given.

use vstd::prelude::*;
use vstd::string::*;

use crate::reactive::lemma_push_no_duplicates;
use crate::text::{at_char_boundary, find_from, first_match_from, lemma_first_match_from};

verus! {

/// The object path of an item that gave only its bus name.
pub open spec fn default_object_path() -> Seq<char> {
    "/StatusNotifierItem"@
}

/// What a service string that an item registered with names.
#[derive(Clone, Copy, PartialEq, Eq, Structural, Debug)]
pub enum ServiceKind {
    /// An object path of the sender's connection.
    ObjectPath,
    /// A unique bus name (`:1.33`).
    UniqueName,
    /// A well-known bus name.
    WellKnownName,
}

/// The string under which the item that `sender` registered as `service`
/// is announced: the sender's name with the object path, the unique name
/// with the default object path, or the sender's name with the default
/// object path.
pub fn item_service_value(sender: &str, service: &str, kind: ServiceKind) -> (v: String)
    ensures
        v@ == (match kind {
            ServiceKind::ObjectPath => sender@ + service@,
            ServiceKind::UniqueName => service@ + default_object_path(),
            ServiceKind::WellKnownName => sender@ + default_object_path(),
        }),
{
    match kind {
        ServiceKind::ObjectPath => String::from_str(sender).concat(service),
        ServiceKind::UniqueName => String::from_str(service).concat("/StatusNotifierItem"),
        ServiceKind::WellKnownName => String::from_str(sender).concat("/StatusNotifierItem"),
    }
}

/// How a host registration went.
#[derive(Clone, Copy, PartialEq, Eq, Structural, Debug)]
pub enum HostRegistration {
    /// The host had registered before; nothing changes.
    AlreadyRegistered,
    /// The host is registered now; `first` when no other host is.
    Registered { first: bool },
}

/// The names of `strings`.
pub open spec fn names(strings: Seq<String>) -> Seq<Seq<char>> {
    strings.map_values(|s: String| s@)
}

/// The registered hosts and, per connection, the items it registered.
pub struct WatcherTables {
    hosts: Vec<String>,
    snis: Vec<(String, Vec<String>)>,
}

impl WatcherTables {
    /// The names of the registered hosts, in the order they registered.
    pub closed spec fn hosts_view(&self) -> Seq<Seq<char>> {
        names(self.hosts@)
    }

    /// The connections that registered items, in order.
    pub closed spec fn owners_view(&self) -> Seq<Seq<char>> {
        self.snis@.map_values(|e: (String, Vec<String>)| e.0@)
    }

    /// The items that the connection at `i` of `owners_view` registered, in
    /// order.
    pub closed spec fn items_of(&self, i: int) -> Seq<Seq<char>> {
        names(self.snis@[i].1@)
    }

    /// No host, no connection and no item of a connection occurs twice.
    pub closed spec fn wf(&self) -> bool {
        &&& self.hosts_view().no_duplicates()
        &&& self.owners_view().no_duplicates()
        &&& forall|i: int| 0 <= i < self.snis@.len() ==> #[trigger] names(self.snis@[i].1@).no_duplicates()
    }

    /// No host and no item.
    pub fn new() -> (t: Self)
        ensures
            t.wf(),
            t.hosts_view().len() == 0,
            t.owners_view().len() == 0,
    {
        let t = WatcherTables { hosts: Vec::new(), snis: Vec::new() };
        assert(t.hosts_view() =~= Seq::<Seq<char>>::empty());
        assert(t.owners_view() =~= Seq::<Seq<char>>::empty());
        t
    }

    /// Whether some host is registered.
    pub fn is_host_registered(&self) -> (b: bool)
        ensures
            b == (self.hosts_view().len() > 0),
    {
        self.hosts.len() > 0
    }

    /// The index of `name` among `strings`.
    fn position(strings: &Vec<String>, name: &String) -> (r: Option<usize>)
        ensures
            r matches Some(i) ==> i < strings@.len() && strings@[i as int]@ == name@,
            r is None ==> !names(strings@).contains(name@),
    {
        let n = strings.len();
        let mut i: usize = 0;
        while i < n
            invariant
                n == strings@.len(),
                i <= n,
                forall|j: int| 0 <= j < i ==> strings@[j]@ != name@,
            decreases n - i,
        {
            if strings[i] == *name {
                return Some(i);
            }
            i = i + 1;
        }
        proof {
            if names(strings@).contains(name@) {
                let j = choose|j: int| 0 <= j < names(strings@).len() && names(strings@)[j] == name@;
                assert(strings@[j]@ == name@);
            }
        }
        None
    }

    /// The index of the connection `owner` in the item table.
    fn owner_position(&self, owner: &String) -> (r: Option<usize>)
        ensures
            r matches Some(i) ==> i < self.owners_view().len() && self.owners_view()[i as int] == owner@,
            r is None ==> !self.owners_view().contains(owner@),
    {
        let n = self.snis.len();
        let mut i: usize = 0;
        while i < n
            invariant
                n == self.snis@.len(),
                i <= n,
                forall|j: int| 0 <= j < i ==> self.snis@[j].0@ != owner@,
            decreases n - i,
        {
            if self.snis[i].0 == *owner {
                return Some(i);
            }
            i = i + 1;
        }
        proof {
            if self.owners_view().contains(owner@) {
                let j = choose|j: int| 0 <= j < self.owners_view().len() && self.owners_view()[j] == owner@;
                assert(self.snis@[j].0@ == owner@);
            }
        }
        None
    }

    /// Registers the host `name`; the first host to register is announced.
    pub fn register_host(&mut self, name: String) -> (r: HostRegistration)
        requires
            old(self).wf(),
        ensures
            final(self).wf(),
            final(self).owners_view() == old(self).owners_view(),
            old(self).hosts_view().contains(name@) ==> r == HostRegistration::AlreadyRegistered
                && final(self).hosts_view() == old(self).hosts_view(),
            !old(self).hosts_view().contains(name@) ==> r == (HostRegistration::Registered {
                first: old(self).hosts_view().len() == 0,
            }) && final(self).hosts_view() == old(self).hosts_view().push(name@),
    {
        match Self::position(&self.hosts, &name) {
            Some(i) => {
                proof {
                    assert(self.hosts_view()[i as int] == name@);
                }
                HostRegistration::AlreadyRegistered
            },
            None => {
                let first = self.hosts.len() == 0;
                let ghost before = self.hosts@;
                self.hosts.push(name);
                proof {
                    assert(names(self.hosts@) =~= names(before).push(self.hosts@.last()@));
                    assert forall|i: int| 0 <= i < self.snis@.len() implies #[trigger] names(self.snis@[i].1@).no_duplicates() by {
                        assert(self.snis@[i] == old(self).snis@[i]);
                    }
                }
                HostRegistration::Registered { first }
            },
        }
    }

    /// The connection `owner` shut down: its host, if it had one, is
    /// forgotten. Returns whether it had one (to announce its leaving) and
    /// whether no host is left.
    pub fn host_exited(&mut self, owner: &String) -> (r: (bool, bool))
        requires
            old(self).wf(),
        ensures
            final(self).wf(),
            final(self).owners_view() == old(self).owners_view(),
            r.0 == old(self).hosts_view().contains(owner@),
            !r.0 ==> final(self).hosts_view() == old(self).hosts_view(),
            r.0 ==> final(self).hosts_view() == old(self).hosts_view().remove(
                old(self).hosts_view().index_of(owner@),
            ),
            r.1 == (final(self).hosts_view().len() == 0),
    {
        match Self::position(&self.hosts, owner) {
            Some(i) => {
                let ghost before = self.hosts@;
                proof {
                    assert(names(before)[i as int] == owner@);
                    assert(names(before).contains(owner@));
                    let k = names(before).index_of(owner@);
                    assert(names(before)[k] == owner@);
                    if k != i {
                        assert(names(before)[k] == names(before)[i as int]);
                    }
                }
                self.hosts.remove(i);
                proof {
                    assert(names(self.hosts@) =~= names(before).remove(i as int));
                    assert forall|j: int| 0 <= j < self.snis@.len() implies #[trigger] names(self.snis@[j].1@).no_duplicates() by {
                        assert(self.snis@[j] == old(self).snis@[j]);
                    }
                }
                (true, self.hosts.len() == 0)
            },
            None => (false, self.hosts.len() == 0),
        }
    }

    /// Registers the item `value` of the connection `sender`. Returns whether
    /// it is new (and so is to be announced).
    pub fn register_item(&mut self, sender: String, value: String) -> (added: bool)
        requires
            old(self).wf(),
        ensures
            final(self).wf(),
            final(self).hosts_view() == old(self).hosts_view(),
            old(self).owners_view().contains(sender@) ==> {
                let i = old(self).owners_view().index_of(sender@);
                &&& final(self).owners_view() == old(self).owners_view()
                &&& added == !old(self).items_of(i).contains(value@)
                &&& added ==> final(self).items_of(i) == old(self).items_of(i).push(value@)
                &&& !added ==> final(self).items_of(i) == old(self).items_of(i)
                &&& forall|j: int| 0 <= j < old(self).owners_view().len() && j != i
                    ==> #[trigger] final(self).items_of(j) == old(self).items_of(j)
            },
            !old(self).owners_view().contains(sender@) ==> {
                &&& added
                &&& final(self).owners_view() == old(self).owners_view().push(sender@)
                &&& final(self).items_of(old(self).owners_view().len() as int) == seq![value@]
                &&& forall|j: int| 0 <= j < old(self).owners_view().len()
                    ==> #[trigger] final(self).items_of(j) == old(self).items_of(j)
            },
    {
        match self.owner_position(&sender) {
            Some(i) => {
                proof {
                    let k = self.owners_view().index_of(sender@);
                    assert(self.owners_view()[k] == sender@);
                    if k != i {
                        assert(self.owners_view()[k] == self.owners_view()[i as int]);
                    }
                }
                match Self::position(&self.snis[i].1, &value) {
                    Some(j) => {
                        proof {
                            assert(names(self.snis@[i as int].1@)[j as int] == value@);
                            assert(self.items_of(i as int).contains(value@));
                        }
                        return false;
                    },
                    None => {},
                }
                let ghost before = self.snis@;
                let (owner, mut items) = self.snis.remove(i);
                let ghost old_items = items@;
                items.push(value);
                self.snis.insert(i, (owner, items));
                proof {
                    assert(names(items@) =~= names(old_items).push(items@.last()@));
                    assert(names(old_items) == names(before[i as int].1@));
                    lemma_push_no_duplicates(names(old_items), items@.last()@);
                    assert(self.snis@ =~= before.update(i as int, (owner, items)));
                    assert(self.owners_view() =~= old(self).owners_view());
                    assert forall|j: int| 0 <= j < self.snis@.len() implies #[trigger] names(self.snis@[j].1@).no_duplicates() by {
                        if j != i {
                            assert(self.snis@[j] == before[j]);
                        }
                    }
                }
                true
            },
            None => {
                let ghost before = self.snis@;
                let mut items: Vec<String> = Vec::new();
                items.push(value);
                self.snis.push((sender, items));
                proof {
                    assert(self.owners_view() =~= old(self).owners_view().push(sender@));
                    assert(names(items@) =~= seq![value@]);
                    assert forall|j: int| 0 <= j < self.snis@.len() implies #[trigger] names(self.snis@[j].1@).no_duplicates() by {
                        if j < before.len() {
                            assert(self.snis@[j] == before[j]);
                        }
                    }
                    assert forall|j: int| 0 <= j < before.len() implies #[trigger] self.items_of(j) == old(self).items_of(j) by {
                        assert(self.snis@[j] == before[j]);
                    }
                }
                true
            },
        }
    }

    /// The connection `owner` shut down: its items are forgotten and
    /// returned, if it had registered any.
    pub fn item_owner_exited(&mut self, owner: &String) -> (r: Option<Vec<String>>)
        requires
            old(self).wf(),
        ensures
            final(self).wf(),
            final(self).hosts_view() == old(self).hosts_view(),
            r is Some == old(self).owners_view().contains(owner@),
            r matches Some(items) ==> {
                let i = old(self).owners_view().index_of(owner@);
                &&& names(items@) == old(self).items_of(i)
                &&& final(self).owners_view() == old(self).owners_view().remove(i)
            },
            r is None ==> final(self).owners_view() == old(self).owners_view(),
    {
        match self.owner_position(owner) {
            Some(i) => {
                let ghost before = self.snis@;
                proof {
                    let k = self.owners_view().index_of(owner@);
                    assert(self.owners_view()[k] == owner@);
                    if k != i {
                        assert(self.owners_view()[k] == self.owners_view()[i as int]);
                    }
                }
                let (_, items) = self.snis.remove(i);
                proof {
                    assert(self.owners_view() =~= old(self).owners_view().remove(i as int));
                    assert forall|j: int| 0 <= j < self.snis@.len() implies #[trigger] names(self.snis@[j].1@).no_duplicates() by {
                        if j < i {
                            assert(self.snis@[j] == before[j]);
                        } else {
                            assert(self.snis@[j] == before[j + 1]);
                        }
                    }
                }
                Some(items)
            },
            None => None,
        }
    }

    /// Every registered item, connection by connection, in the order they
    /// registered.
    pub fn registered_items(&self) -> (r: Vec<String>)
        ensures
            names(r@) == self.all_items(self.owners_view().len() as int),
    {
        let n = self.snis.len();
        let mut result: Vec<String> = Vec::new();
        let mut i: usize = 0;
        while i < n
            invariant
                n == self.snis@.len(),
                i <= n,
                names(result@) == self.all_items(i as int),
            decreases n - i,
        {
            let items = &self.snis[i].1;
            let m = items.len();
            let mut k: usize = 0;
            let ghost start = result@;
            while k < m
                invariant
                    m == items@.len(),
                    k <= m,
                    *items == self.snis@[i as int].1,
                    result@.len() == start.len() + k,
                    result@.subrange(0, start.len() as int) == start,
                    forall|q: int| 0 <= q < k ==> #[trigger] result@[start.len() + q]@ == items@[q]@,
                decreases m - k,
            {
                let s = items[k].clone();
                result.push(s);
                k = k + 1;
            }
            proof {
                let target = names(start) + self.items_of(i as int);
                assert(names(result@).len() == target.len());
                assert forall|q: int| 0 <= q < target.len() implies names(result@)[q] == target[q] by {
                    if q < start.len() {
                        assert(result@.subrange(0, start.len() as int)[q] == start[q]);
                    } else {
                        let r = q - start.len();
                        assert(result@[start.len() + r]@ == items@[r]@);
                    }
                }
                assert(names(result@) =~= target);
            }
            i = i + 1;
        }
        result
    }

    /// The items of the first `k` connections, in order.
    pub closed spec fn all_items(&self, k: int) -> Seq<Seq<char>>
        decreases k,
    {
        if k <= 0 {
            Seq::empty()
        } else {
            self.all_items(k - 1) + self.items_of(k - 1)
        }
    }
}

/// How the service string of an item splits into a bus name and an object
/// path, before both are checked.
#[derive(Clone, Copy, PartialEq, Eq, Structural, Debug)]
pub enum ServiceSplit {
    /// The bus name is the bytes before `name_end` (the first `/`), the
    /// object path the rest.
    NameAndPath { name_end: usize },
    /// No `/`: the unique name starts at `name_start` (the first `:`), and
    /// the object path is the default one.
    UniqueName { name_start: usize },
}

/// Why a service string does not split.
#[derive(Clone, Copy, PartialEq, Eq, Structural, Debug)]
pub enum ServiceSplitError {
    NotAscii,
    NoNameOrPath,
    /// The bus name or the object path of the split is not a valid one.
    InvalidPart,
}

/// How the service string `service` of an item splits: at its first `/`, or
/// else from its first `:` on; it must be ASCII.
pub fn split_service(service: &str) -> (r: core::result::Result<ServiceSplit, ServiceSplitError>)
    ensures
        !is_ascii(service) ==> r == Err::<ServiceSplit, ServiceSplitError>(ServiceSplitError::NotAscii),
        is_ascii(service) ==> r == (match first_match_from(service.spec_bytes(), "/".spec_bytes(), 0) {
            Some(i) => Ok(ServiceSplit::NameAndPath { name_end: i as usize }),
            None => match first_match_from(service.spec_bytes(), ":".spec_bytes(), 0) {
                Some(i) => Ok(ServiceSplit::UniqueName { name_start: i as usize }),
                None => Err(ServiceSplitError::NoNameOrPath),
            },
        }),
{
    if !service.is_ascii() {
        return Err(ServiceSplitError::NotAscii);
    }
    let bytes = service.as_bytes();
    match find_from(bytes, "/".as_bytes(), 0) {
        Some(i) => Ok(ServiceSplit::NameAndPath { name_end: i }),
        None => match find_from(bytes, ":".as_bytes(), 0) {
            Some(i) => Ok(ServiceSplit::UniqueName { name_start: i }),
            None => Err(ServiceSplitError::NoNameOrPath),
        },
    }
}

/// Whether `zbus::names::UniqueName::try_from` accepts the name `s`.
pub uninterp spec fn valid_unique_name(s: Seq<u8>) -> bool;

/// Whether `zbus::names::WellKnownName::try_from` accepts the name `s`.
pub uninterp spec fn valid_well_known_name(s: Seq<u8>) -> bool;

/// Whether `zbus::zvariant::ObjectPath::try_from` accepts the path `s`.
pub uninterp spec fn valid_object_path(s: Seq<u8>) -> bool;

/// Whether `zbus::names::BusName::try_from` accepts the name `s`: it tries
/// a unique name, then a well-known name.
pub open spec fn valid_bus_name(s: Seq<u8>) -> bool {
    valid_unique_name(s) || valid_well_known_name(s)
}

/// `zbus::names::UniqueName::try_from(&s[start..end]).is_ok()`.
///
/// The contract names the answer; the validation is a function of the name
/// alone. The error's message is not kept.
#[verifier::external_body]
fn zbus_unique_name_ok(s: &str, start: usize, end: usize) -> (b: bool)
    requires
        start <= end <= s.spec_bytes().len(),
        at_char_boundary(s.spec_bytes(), start as int),
        at_char_boundary(s.spec_bytes(), end as int),
    ensures
        b == valid_unique_name(s.spec_bytes().subrange(start as int, end as int)),
{
    zbus::names::UniqueName::try_from(&s[start..end]).is_ok()
}

/// `zbus::names::WellKnownName::try_from(&s[start..end]).is_ok()`.
///
/// The contract names the answer; the validation is a function of the name
/// alone. The error's message is not kept.
#[verifier::external_body]
fn zbus_well_known_name_ok(s: &str, start: usize, end: usize) -> (b: bool)
    requires
        start <= end <= s.spec_bytes().len(),
        at_char_boundary(s.spec_bytes(), start as int),
        at_char_boundary(s.spec_bytes(), end as int),
    ensures
        b == valid_well_known_name(s.spec_bytes().subrange(start as int, end as int)),
{
    zbus::names::WellKnownName::try_from(&s[start..end]).is_ok()
}

/// `zbus::zvariant::ObjectPath::try_from(&s[start..end]).is_ok()`.
///
/// The contract names the answer; the validation is a function of the path
/// alone. The error's message is not kept.
#[verifier::external_body]
fn zbus_object_path_ok(s: &str, start: usize, end: usize) -> (b: bool)
    requires
        start <= end <= s.spec_bytes().len(),
        at_char_boundary(s.spec_bytes(), start as int),
        at_char_boundary(s.spec_bytes(), end as int),
    ensures
        b == valid_object_path(s.spec_bytes().subrange(start as int, end as int)),
{
    zbus::zvariant::ObjectPath::try_from(&s[start..end]).is_ok()
}

/// Every byte of an ASCII text is below 0x80, so every index of it is a
/// character boundary.
proof fn lemma_ascii_boundaries(s: &str)
    requires
        is_ascii(s),
    ensures
        forall|k: int| 0 <= k <= s.spec_bytes().len() ==> #[trigger] at_char_boundary(s.spec_bytes(), k),
{
    broadcast use vstd::string::is_ascii_spec_bytes;
    assert forall|k: int| 0 <= k <= s.spec_bytes().len() implies #[trigger] at_char_boundary(s.spec_bytes(), k) by {
        if 0 < k < s.spec_bytes().len() {
            assert(s.spec_bytes()[k] == s@[k] as u8);
            assert('\0' <= s@[k] <= '\u{7f}');
        }
    }
}

/// What the service string `s` of an item names, as it is checked: `None`
/// for a string that is not ASCII; else split at its first `/` into a bus
/// name and an object path, both valid; or else from its first `:` on a
/// valid unique name, with the default object path.
pub open spec fn parsed_service(s: Seq<u8>, ascii: bool) -> core::result::Result<ServiceSplit, ServiceSplitError> {
    if !ascii {
        Err(ServiceSplitError::NotAscii)
    } else {
        match first_match_from(s, "/".spec_bytes(), 0) {
            Some(i) => if valid_bus_name(s.subrange(0, i)) && valid_object_path(s.subrange(i, s.len() as int)) {
                Ok(ServiceSplit::NameAndPath { name_end: i as usize })
            } else {
                Err(ServiceSplitError::InvalidPart)
            },
            None => match first_match_from(s, ":".spec_bytes(), 0) {
                Some(i) => if valid_unique_name(s.subrange(i, s.len() as int)) {
                    Ok(ServiceSplit::UniqueName { name_start: i as usize })
                } else {
                    Err(ServiceSplitError::InvalidPart)
                },
                None => Err(ServiceSplitError::NoNameOrPath),
            },
        }
    }
}

/// Splits the service string `service` of an item into a bus name and an
/// object path, and checks both with zbus.
pub fn parse_service(service: &str) -> (r: core::result::Result<ServiceSplit, ServiceSplitError>)
    ensures
        r == parsed_service(service.spec_bytes(), is_ascii(service)),
{
    let split = split_service(service);
    let len = service.as_bytes().len();
    proof {
        if is_ascii(service) {
            lemma_ascii_boundaries(service);
        }
    }
    match split {
        Ok(ServiceSplit::NameAndPath { name_end }) => {
            proof {
                lemma_first_match_from(service.spec_bytes(), "/".spec_bytes(), 0);
            }
            if zbus_unique_name_ok(service, 0, name_end) || zbus_well_known_name_ok(service, 0, name_end) {
                if zbus_object_path_ok(service, name_end, len) {
                    return Ok(ServiceSplit::NameAndPath { name_end });
                }
            }
            Err(ServiceSplitError::InvalidPart)
        },
        Ok(ServiceSplit::UniqueName { name_start }) => {
            proof {
                lemma_first_match_from(service.spec_bytes(), ":".spec_bytes(), 0);
            }
            if zbus_unique_name_ok(service, name_start, len) {
                Ok(ServiceSplit::UniqueName { name_start })
            } else {
                Err(ServiceSplitError::InvalidPart)
            }
        },
        Err(e) => Err(e),
    }
}

/// Whether the first byte of `s` is `b`.
fn starts_with_byte(s: &str, b: u8) -> (r: bool)
    ensures
        r == (s.spec_bytes().len() > 0 && s.spec_bytes()[0] == b),
{
    let bytes = s.as_bytes();
    bytes.len() > 0 && bytes[0] == b
}

/// What an item registers with `service` names, as it is checked: an object
/// path (it starts with `/`), or else a bus name, unique or well-known; `None`
/// when that is not valid.
pub open spec fn service_kind_of(s: Seq<u8>) -> Option<ServiceKind> {
    if s.len() > 0 && s[0] == 47 {
        if valid_object_path(s) {
            Some(ServiceKind::ObjectPath)
        } else {
            None
        }
    } else if valid_unique_name(s) {
        Some(ServiceKind::UniqueName)
    } else if valid_well_known_name(s) {
        Some(ServiceKind::WellKnownName)
    } else {
        None
    }
}

/// What the service string `service` that an item registers with names;
/// `None` when it is no valid object path or bus name (the registration is
/// then refused).
pub fn service_kind(service: &str) -> (k: Option<ServiceKind>)
    ensures
        k == service_kind_of(service.spec_bytes()),
{
    let len = service.as_bytes().len();
    if starts_with_byte(service, 47) {
        if zbus_object_path_ok(service, 0, len) {
            proof {
                assert(service.spec_bytes().subrange(0, len as int) =~= service.spec_bytes());
            }
            Some(ServiceKind::ObjectPath)
        } else {
            proof {
                assert(service.spec_bytes().subrange(0, len as int) =~= service.spec_bytes());
            }
            None
        }
    } else {
        let unique = zbus_unique_name_ok(service, 0, len);
        let well_known = zbus_well_known_name_ok(service, 0, len);
        proof {
            assert(service.spec_bytes().subrange(0, len as int) =~= service.spec_bytes());
        }
        if unique {
            Some(ServiceKind::UniqueName)
        } else if well_known {
            Some(ServiceKind::WellKnownName)
        } else {
            None
        }
    }
}

/// Whose name a host registers under.
#[derive(Clone, Copy, PartialEq, Eq, Structural, Debug)]
pub enum HostSender {
    /// The service string itself, a valid unique name.
    Service,
    /// The service string starts with `:` but is no valid unique name: the
    /// registration is refused.
    Invalid,
    /// The sender of the message.
    MessageSender,
}

/// Whose name a host that registers with `service` registers under: the
/// service string when it starts with `:` (and is a valid unique name),
/// otherwise the sender of the message.
pub fn host_sender(service: &str) -> (h: HostSender)
    ensures
        h == (if service.spec_bytes().len() > 0 && service.spec_bytes()[0] == 58 {
            if valid_unique_name(service.spec_bytes()) {
                HostSender::Service
            } else {
                HostSender::Invalid
            }
        } else {
            HostSender::MessageSender
        }),
{
    let len = service.as_bytes().len();
    if starts_with_byte(service, 58) {
        let ok = zbus_unique_name_ok(service, 0, len);
        proof {
            assert(service.spec_bytes().subrange(0, len as int) =~= service.spec_bytes());
        }
        if ok {
            HostSender::Service
        } else {
            HostSender::Invalid
        }
    } else {
        HostSender::MessageSender
    }
}

} // verus!
