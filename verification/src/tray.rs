//! The tray: which status items are registered, and the icons the panel shows.

use vstd::prelude::*;

use crate::text::same_text;

verus! {

/// The object path of an item that registers by its bus name.
pub open spec fn default_item_path() -> Seq<char> {
    "/StatusNotifierItem"@
}

/// A registered status item.
#[derive(Debug)]
pub struct TrayItem {
    /// Stable across registrations of the same service.
    pub id: u32,
    pub service: String,
    pub object_path: String,
    pub title: String,
    pub icon_name: String,
}

/// What the watcher reports to the panel.
#[derive(Debug)]
pub enum TrayEvent {
    Added(TrayItem),
    Removed(u32),
}

/// A service and the id it was given.
#[derive(Debug)]
pub struct KnownItem {
    pub service: String,
    pub id: u32,
}

/// The registry behind the watcher.
#[derive(Debug)]
pub struct WatcherState {
    next_id: u32,
    items: Vec<KnownItem>,
    hosts: Vec<String>,
}

/// Why a registration is refused.
#[derive(Clone, Copy, Debug, PartialEq, Eq, Structural)]
pub enum RegisterError {
    /// Registered by path in a message without a sender.
    MissingSender,
}

/// Where a registered item can be reached, and its id.
#[derive(Debug)]
pub struct Registered {
    pub id: u32,
    pub service: String,
    pub object_path: String,
}

/// Where the first `/` of a text is, from index `from` on.
pub open spec fn first_slash(s: Seq<char>, from: int) -> Option<int>
    decreases s.len() - from,
{
    if from < 0 || from >= s.len() {
        None
    } else if s[from] == '/' {
        Some(from)
    } else {
        first_slash(s, from + 1)
    }
}

/// The bus name of a registration: what comes before a path, and the sender when the
/// item registers by path alone.
pub open spec fn bus_name_of(service: Seq<char>, sender: Option<Seq<char>>) -> Seq<char> {
    match first_slash(service, 0) {
        Some(i) => if i == 0 {
            match sender {
                Some(s) => s,
                None => Seq::empty(),
            }
        } else {
            service.take(i)
        },
        None => service,
    }
}

/// The object path of a registration, where it names one.
pub open spec fn object_path_of(service: Seq<char>) -> Seq<char> {
    match first_slash(service, 0) {
        Some(i) => service.skip(i),
        None => default_item_path(),
    }
}

fn find_slash(s: &str) -> (r: usize)
    ensures
        match first_slash(s@, 0) {
            Some(i) => r == i && r < s@.len(),
            None => r == s@.len(),
        },
{
    let n: usize = s.unicode_len();
    let mut i: usize = 0;
    while i < n
        invariant
            0 <= i <= n,
            n == s@.len(),
            first_slash(s@, 0) == first_slash(s@, i as int),
        decreases n - i,
    {
        if s.get_char(i) == '/' {
            return i;
        }
        i += 1;
    }
    n
}

pub open spec fn sender_name(sender: Option<&str>) -> Option<Seq<char>> {
    match sender {
        Some(s) => Some(s@),
        None => None,
    }
}

/// How registering an item changes the watcher, and what is answered.
pub open spec fn registered(
    was: &WatcherState,
    now: &WatcherState,
    service: Seq<char>,
    sender: Option<Seq<char>>,
    r: Result<Registered, RegisterError>,
) -> bool {
    let bus = bus_name_of(service, sender);
    match r {
        Ok(reg) => {
            &&& bus.len() > 0
            &&& reg.service@ == bus
            &&& reg.object_path@ == object_path_of(service)
            &&& now.has_service(bus, reg.id)
            &&& if was.knows(bus) {
                &&& now.services() == was.services()
                &&& now.last_id() == was.last_id()
            } else {
                &&& reg.id == was.last_id() + 1
                &&& now.services() == was.services().push((bus, reg.id))
                &&& now.last_id() == reg.id
            }
        },
        Err(e) => {
            &&& bus.len() == 0
            &&& e == RegisterError::MissingSender
            &&& now.services() == was.services()
            &&& now.last_id() == was.last_id()
        },
    }
}

impl WatcherState {
    /// The registered services with their ids, in the order they came.
    pub closed spec fn services(&self) -> Seq<(Seq<char>, u32)> {
        Seq::new(self.items@.len(), |i: int| (self.items@[i].service@, self.items@[i].id))
    }

    pub closed spec fn host_names(&self) -> Seq<Seq<char>> {
        Seq::new(self.hosts@.len(), |i: int| self.hosts@[i]@)
    }

    pub closed spec fn last_id(&self) -> u32 {
        self.next_id
    }

    /// Every service has one entry and its own id, handed out in order.
    pub open spec fn wf(&self) -> bool {
        &&& forall|i: int| 0 <= i < self.services().len() ==> 1 <= (#[trigger] self.services()[i]).1 <= self.last_id()
        &&& forall|i: int, j: int|
            0 <= i < j < self.services().len() ==> (#[trigger] self.services()[i]).0 != (#[trigger] self.services()[j]).0
                && self.services()[i].1 < self.services()[j].1
        &&& forall|i: int, j: int|
            0 <= i < j < self.host_names().len() ==> self.host_names()[i] != self.host_names()[j]
    }

    /// An empty registry.
    pub fn new() -> (s: Self)
        ensures
            s.wf(),
            s.services() == Seq::<(Seq<char>, u32)>::empty(),
            s.host_names() == Seq::<Seq<char>>::empty(),
            s.last_id() == 0,
    {
        let s = WatcherState { next_id: 0, items: Vec::new(), hosts: Vec::new() };
        assert(s.services() =~= Seq::empty());
        assert(s.host_names() =~= Seq::empty());
        s
    }

    /// The entry of a service, if it is registered.
    pub open spec fn has_service(&self, service: Seq<char>, id: u32) -> bool {
        self.services().contains((service, id))
    }

    /// Whether a service is registered.
    pub open spec fn knows(&self, service: Seq<char>) -> bool {
        exists|id: u32| self.has_service(service, id)
    }

    fn find(&self, service: &str) -> (r: Option<u32>)
        ensures
            match r {
                Some(id) => self.has_service(service@, id),
                None => forall|id: u32| !self.has_service(service@, id),
            },
    {
        let mut i: usize = 0;
        while i < self.items.len()
            invariant
                0 <= i <= self.items@.len(),
                forall|k: int| 0 <= k < i ==> self.items@[k].service@ != service@,
            decreases self.items@.len() - i,
        {
            if same_text(self.items[i].service.as_str(), service) {
                assert(self.services()[i as int] == (service@, self.items@[i as int].id));
                return Some(self.items[i].id);
            }
            i += 1;
        }
        assert forall|id: u32| !self.has_service(service@, id) by {
            if self.services().contains((service@, id)) {
                let k = choose|k: int| 0 <= k < self.services().len() && self.services()[k] == (service@, id);
                assert(self.items@[k].service@ == service@);
            }
        }
        None
    }

    /// Whether every id has been handed out.
    pub fn is_full(&self) -> (r: bool)
        ensures
            r == (self.last_id() == u32::MAX),
    {
        self.next_id == u32::MAX
    }

    /// Registers an item by its bus name, perhaps with an object path behind it. A
    /// service keeps the id it was first given; a new one gets the next. A registration
    /// by path takes its bus name from the message's sender.
    pub fn register_status_notifier_item(&mut self, service: &str, sender: Option<&str>) -> (r: Result<
        Registered,
        RegisterError,
    >)
        requires
            old(self).wf(),
            old(self).last_id() < u32::MAX,
        ensures
            final(self).wf(),
            final(self).host_names() == old(self).host_names(),
            registered(old(self), final(self), service@, sender_name(sender), r),
    {
        let n: usize = service.unicode_len();
        let slash: usize = find_slash(service);
        let bus = if slash == 0 && n > 0 {
            match sender {
                Some(s) => s.to_owned(),
                None => String::new(),
            }
        } else {
            service.substring_char(0, slash).to_owned()
        };
        let object_path = if slash < n {
            service.substring_char(slash, n).to_owned()
        } else {
            "/StatusNotifierItem".to_owned()
        };
        assert(bus@ =~= bus_name_of(service@, sender_name(sender)));
        assert(object_path@ =~= object_path_of(service@));
        if bus.as_str().unicode_len() == 0 {
            return Err(RegisterError::MissingSender);
        }
        if let Some(id) = self.find(bus.as_str()) {
            assert(old(self).has_service(bus@, id));
            return Ok(Registered { id, service: bus, object_path });
        }
        let id: u32 = self.next_id + 1;
        let ghost before = self.services();
        self.next_id = id;
        self.items.push(KnownItem { service: bus.clone(), id });
        proof {
            assert(self.services() =~= before.push((bus@, id)));
            assert(self.host_names() =~= old(self).host_names());
            assert(self.services()[before.len() as int] == (bus@, id));
            assert forall|i: int, j: int| 0 <= i < j < self.services().len() implies (#[trigger] self.services()[i]).0
                != (#[trigger] self.services()[j]).0 && self.services()[i].1 < self.services()[j].1 by {
                assert(before[i] == self.services()[i]);
                if j < before.len() {
                    assert(before[j] == self.services()[j]);
                } else {
                    assert(old(self).services().contains(before[i]));
                    assert(old(self).has_service(before[i].0, before[i].1));
                }
            }
            assert forall|i: int| 0 <= i < self.services().len() implies 1 <= (#[trigger] self.services()[i]).1
                <= self.last_id() by {
                if i < before.len() {
                    assert(before[i] == self.services()[i]);
                }
            }
        }
        Ok(Registered { id, service: bus, object_path })
    }

    /// Registers a host; a host that is known already stays listed once.
    pub fn register_status_notifier_host(&mut self, service: &str)
        requires
            old(self).wf(),
        ensures
            final(self).wf(),
            final(self).services() == old(self).services(),
            final(self).last_id() == old(self).last_id(),
            final(self).host_names() == if old(self).host_names().contains(service@) {
                old(self).host_names()
            } else {
                old(self).host_names().push(service@)
            },
    {
        let mut i: usize = 0;
        while i < self.hosts.len()
            invariant
                0 <= i <= self.hosts@.len(),
                *self == *old(self),
                self.wf(),
                forall|k: int| 0 <= k < i ==> self.hosts@[k]@ != service@,
            decreases self.hosts@.len() - i,
        {
            if same_text(self.hosts[i].as_str(), service) {
                assert(self.host_names()[i as int] == service@);
                return;
            }
            i += 1;
        }
        proof {
            if self.host_names().contains(service@) {
                let k = choose|k: int| 0 <= k < self.host_names().len() && self.host_names()[k] == service@;
                assert(self.hosts@[k]@ == service@);
            }
        }
        let ghost before = self.host_names();
        self.hosts.push(service.to_owned());
        assert(self.host_names() =~= before.push(service@));
        assert(self.services() =~= old(self).services());
    }

    /// The registered services.
    pub fn registered_status_notifier_items(&self) -> (r: Vec<String>)
        ensures
            r@.len() == self.services().len(),
            forall|i: int| 0 <= i < r@.len() ==> (#[trigger] r@[i])@ == self.services()[i].0,
    {
        let mut out: Vec<String> = Vec::new();
        let mut i: usize = 0;
        while i < self.items.len()
            invariant
                0 <= i <= self.items@.len(),
                out@.len() == i,
                forall|k: int| 0 <= k < i ==> (#[trigger] out@[k])@ == self.services()[k].0,
            decreases self.items@.len() - i,
        {
            out.push(self.items[i].service.clone());
            i += 1;
        }
        out
    }

    /// Whether any host is listening.
    pub fn is_status_notifier_host_registered(&self) -> (r: bool)
        ensures
            r == (self.host_names().len() > 0),
    {
        self.hosts.len() > 0
    }

    /// The version of the watcher protocol.
    pub fn protocol_version(&self) -> (r: i32)
        ensures
            r == 0,
    {
        0
    }
}

/// The shown items without those of an id, in order.
pub open spec fn without_id(items: Seq<TrayItem>, id: u32) -> Seq<TrayItem>
    decreases items.len(),
{
    if items.len() == 0 {
        Seq::empty()
    } else {
        let rest = without_id(items.drop_last(), id);
        if items.last().id == id {
            rest
        } else {
            rest.push(items.last())
        }
    }
}

fn remove_id(items: &mut Vec<TrayItem>, id: u32)
    ensures
        final(items)@ == without_id(old(items)@, id),
{
    let ghost all = items@;
    let ghost mut seen: int = 0;
    let mut i: usize = 0;
    while i < items.len()
        invariant
            0 <= i <= items@.len(),
            0 <= seen <= all.len(),
            items@.len() - i == all.len() - seen,
            items@.take(i as int) == without_id(all.take(seen), id),
            items@.skip(i as int) == all.skip(seen),
        decreases items@.len() - i,
    {
        assert(items@[i as int] == items@.skip(i as int)[0]);
        assert(items@[i as int] == all[seen]);
        assert(all.take(seen + 1).drop_last() =~= all.take(seen));
        assert(all.skip(seen + 1) =~= all.skip(seen).skip(1));
        if items[i].id == id {
            let ghost before = items@;
            items.remove(i);
            assert(items@.take(i as int) =~= before.take(i as int));
            assert(items@.skip(i as int) =~= before.skip(i as int).skip(1));
        } else {
            assert(items@.take(i + 1) =~= items@.take(i as int).push(items@[i as int]));
            assert(items@.skip(i + 1) =~= items@.skip(i as int).skip(1));
            i += 1;
        }
        proof {
            seen = seen + 1;
        }
    }
    assert(items@.take(i as int) =~= items@);
    assert(all.take(seen) =~= all);
}

/// Applies a watcher event to the items that the panel shows.
pub fn apply_tray_event(items: &mut Vec<TrayItem>, event: TrayEvent)
    ensures
        final(items)@ == match event {
            TrayEvent::Added(item) => old(items)@.push(item),
            TrayEvent::Removed(id) => without_id(old(items)@, id),
        },
{
    match event {
        TrayEvent::Added(item) => {
            items.push(item);
        },
        TrayEvent::Removed(id) => {
            remove_id(items, id);
        },
    }
}

/// The index of the first shown item with this id.
pub open spec fn tray_index(items: Seq<TrayItem>, id: u32, from: int) -> Option<int>
    decreases items.len() - from,
{
    if from < 0 || from >= items.len() {
        None
    } else if items[from].id == id {
        Some(from)
    } else {
        tray_index(items, id, from + 1)
    }
}

/// The item that a click on icon `id` is meant for.
pub fn clicked_item(items: &Vec<TrayItem>, id: u32) -> (r: Option<usize>)
    ensures
        match r {
            Some(i) => tray_index(items@, id, 0) == Some(i as int) && i < items@.len(),
            None => tray_index(items@, id, 0) is None,
        },
{
    let mut i: usize = 0;
    while i < items.len()
        invariant
            0 <= i <= items@.len(),
            tray_index(items@, id, 0) == tray_index(items@, id, i as int),
        decreases items@.len() - i,
    {
        if items[i].id == id {
            return Some(i);
        }
        i += 1;
    }
    None
}

/// Once an item is removed, no icon with its id is shown.
pub proof fn law_removed_is_gone(items: Seq<TrayItem>, id: u32)
    ensures
        forall|i: int| 0 <= i < without_id(items, id).len() ==> (#[trigger] without_id(items, id)[i]).id != id,
    decreases items.len(),
{
    if items.len() > 0 {
        law_removed_is_gone(items.drop_last(), id);
        let rest = without_id(items.drop_last(), id);
        let kept = without_id(items, id);
        assert forall|i: int| 0 <= i < kept.len() implies (#[trigger] kept[i]).id != id by {
            if i < rest.len() {
                assert(rest[i] == kept[i]);
            }
        }
    }
}

proof fn lemma_first_slash(s: Seq<char>, from: int)
    requires
        0 <= from <= s.len(),
    ensures
        match first_slash(s, from) {
            Some(i) => from <= i < s.len() && s[i] == '/' && forall|k: int| from <= k < i ==> #[trigger] s[k] != '/',
            None => forall|k: int| from <= k < s.len() ==> #[trigger] s[k] != '/',
        },
    decreases s.len() - from,
{
    if from < s.len() {
        lemma_first_slash(s, from + 1);
    }
}

/// A service gives its bus name, its object path, or one after the other. Without a
/// path the usual one is taken; without a name it is the sender's.
pub proof fn law_service_names_item(name: Seq<char>, path: Seq<char>, sender: Seq<char>)
    requires
        forall|k: int| 0 <= k < name.len() ==> #[trigger] name[k] != '/',
        path.len() > 0 ==> path[0] == '/',
    ensures
        bus_name_of(name, Some(sender)) == name,
        object_path_of(name) == "/StatusNotifierItem"@,
        path.len() > 0 ==> object_path_of(name + path) == path,
        path.len() > 0 && name.len() > 0 ==> bus_name_of(name + path, Some(sender)) == name,
        path.len() > 0 ==> bus_name_of(path, Some(sender)) == sender,
        path.len() > 0 ==> bus_name_of(path, None).len() == 0,
        path.len() > 0 ==> object_path_of(path) == path,
{
    lemma_first_slash(name, 0);
    if path.len() > 0 {
        let both = name + path;
        lemma_first_slash(both, 0);
        lemma_first_slash(path, 0);
        assert(both[name.len() as int] == '/');
        let i = first_slash(both, 0)->0;
        if i < name.len() {
            assert(both[i] == name[i]);
        }
        assert(i == name.len());
        assert(both.skip(i) =~= path);
        assert(both.take(i) =~= name);
        assert(first_slash(path, 0) == Some(0int));
        assert(path.skip(0) =~= path);
    }
}

/// A removed item leaves, and the others stay in their order.
pub proof fn law_others_stay(items: Seq<TrayItem>, id: u32)
    ensures
        without_id(items, id) == items.filter(|t: TrayItem| t.id != id),
    decreases items.len(),
{
    reveal(Seq::filter);
    if items.len() > 0 {
        law_others_stay(items.drop_last(), id);
    }
}

/// A click goes to the item with the number clicked, the first of them, if there is
/// one.
pub proof fn law_click_finds_item(items: Seq<TrayItem>, id: u32, from: int, k: int)
    requires
        0 <= from <= items.len(),
    ensures
        from <= k < items.len() && items[k].id == id && (forall|j: int| from <= j < k ==> (#[trigger] items[j]).id != id)
            ==> tray_index(items, id, from) == Some(k),
        (forall|j: int| from <= j < items.len() ==> (#[trigger] items[j]).id != id) ==> tray_index(items, id, from)
            is None,
    decreases items.len() - from,
{
    if from < items.len() {
        law_click_finds_item(items, id, from + 1, k);
    }
}

/// A new item gets a number that none before it had; a known one keeps its own. All
/// items registered before stay. An item without a name to go by is refused.
pub proof fn law_items_are_numbered(
    was: &WatcherState,
    now: &WatcherState,
    service: Seq<char>,
    sender: Option<Seq<char>>,
    r: Result<Registered, RegisterError>,
    name: Seq<char>,
    id: u32,
)
    requires
        was.wf(),
        was.last_id() < u32::MAX,
        registered(was, now, service, sender, r),
    ensures
        r is Err <==> service.len() == 0 || (service[0] == '/' && (sender is None || sender->0.len() == 0)),
        was.services().contains((name, id)) ==> now.services().contains((name, id)),
        r matches Ok(reg) ==> {
            &&& was.services().contains((reg.service@, id)) ==> reg.id == id && now.services() == was.services()
            &&& !was.knows(reg.service@) ==> forall|k: int|
                0 <= k < was.services().len() ==> (#[trigger] was.services()[k]).1 < reg.id
        },
        r is Err ==> now.services() == was.services(),
{
    lemma_first_slash(service, 0);
    if was.services().contains((name, id)) {
        let k = choose|k: int| 0 <= k < was.services().len() && was.services()[k] == (name, id);
        assert(now.services()[k] == (name, id));
    }
    if let Ok(reg) = r {
        let bus = reg.service@;
        if was.services().contains((bus, id)) {
            assert(was.has_service(bus, id));
            assert(was.knows(bus));
            let a = choose|a: int| 0 <= a < was.services().len() && was.services()[a] == (bus, id);
            let b = choose|b: int| 0 <= b < was.services().len() && was.services()[b] == (bus, reg.id);
            if a < b {
                assert(was.services()[a].0 != was.services()[b].0);
            } else if b < a {
                assert(was.services()[b].0 != was.services()[a].0);
            }
        }
    }
}

} // verus!
