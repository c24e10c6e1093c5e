//! The device index: which name a native device value goes by, and
//! which item a name stands for.
use vstd::prelude::*;
use crate::config::{DescriptorView, ValueDescriptor};
use crate::item::{Item, ItemView, ZWaveItemView};
use crate::table::{
    absent, distinct_keys, first_at, lemma_lookup_absent, lemma_lookup_first, lemma_lookup_push,
    lemma_lookup_remove, lemma_lookup_update, lookup,
};

verus! {

/// The identity of a native device value.
#[derive(Clone, Copy, Debug, PartialEq, Eq, Structural)]
pub struct NativeId {
    pub home_id: u32,
    pub id: u64,
}

/// The identity of the value that a descriptor describes.
pub open spec fn native_of(d: DescriptorView) -> NativeId {
    NativeId { home_id: d.home_id, id: d.id }
}

/// The native value that an item is the handle of, if it is one of a
/// device value.
pub open spec fn bound_to(it: ItemView) -> Option<NativeId> {
    match it {
        ItemView::Value(z) => Some(native_of(z.value)),
        ItemView::Controller(_) => None,
    }
}

impl ValueDescriptor {
    /// The identity of the value.
    pub fn native_id(&self) -> (r: NativeId)
        ensures
            r == native_of(self@),
    {
        NativeId { home_id: self.home_id, id: self.id }
    }
}

/// The device index.
pub struct DB {
    values: Vec<(NativeId, String)>,
    catt_values: Vec<(String, Item)>,
}

fn find_native(values: &Vec<(NativeId, String)>, v: &NativeId) -> (r: Option<usize>)
    ensures
        match r {
            Some(i) => first_at(values@.map_values(|p: (NativeId, String)| (p.0, p.1@)), *v, i as int),
            None => absent(values@.map_values(|p: (NativeId, String)| (p.0, p.1@)), *v),
        },
{
    let ghost s = values@.map_values(|p: (NativeId, String)| (p.0, p.1@));
    let mut i: usize = 0;
    while i < values.len()
        invariant
            i <= values.len(),
            s == values@.map_values(|p: (NativeId, String)| (p.0, p.1@)),
            forall|j: int| 0 <= j < i ==> (#[trigger] s[j]).0 != *v,
        decreases values.len() - i,
    {
        assert(s[i as int] == (values@[i as int].0, values@[i as int].1@));
        if values[i].0.home_id == v.home_id && values[i].0.id == v.id {
            return Some(i);
        }
        i += 1;
    }
    None
}

fn find_name(items: &Vec<(String, Item)>, name: &String) -> (r: Option<usize>)
    ensures
        match r {
            Some(i) => first_at(items@.map_values(|p: (String, Item)| (p.0@, p.1@)), name@, i as int),
            None => absent(items@.map_values(|p: (String, Item)| (p.0@, p.1@)), name@),
        },
{
    let ghost s = items@.map_values(|p: (String, Item)| (p.0@, p.1@));
    let mut i: usize = 0;
    while i < items.len()
        invariant
            i <= items.len(),
            s == items@.map_values(|p: (String, Item)| (p.0@, p.1@)),
            forall|j: int| 0 <= j < i ==> (#[trigger] s[j]).0 != name@,
        decreases items.len() - i,
    {
        assert(s[i as int] == (items@[i as int].0@, items@[i as int].1@));
        if items[i].0 == *name {
            return Some(i);
        }
        i += 1;
    }
    None
}

impl DB {
    /// The names of the native values, as a list of pairs.
    pub closed spec fn natives(&self) -> Seq<(NativeId, Seq<char>)> {
        self.values@.map_values(|p: (NativeId, String)| (p.0, p.1@))
    }

    /// The items of the names, as a list of pairs.
    pub closed spec fn items(&self) -> Seq<(Seq<char>, ItemView)> {
        self.catt_values@.map_values(|p: (String, Item)| (p.0@, p.1@))
    }

    /// No native value and no name stands twice in the index.
    pub closed spec fn wf(&self) -> bool {
        distinct_keys(self.natives()) && distinct_keys(self.items())
    }

    /// The name that a native value goes by.
    pub open spec fn name_of(&self, v: NativeId) -> Option<Seq<char>> {
        lookup(self.natives(), v)
    }

    /// The item that a name stands for.
    pub open spec fn item_of(&self, name: Seq<char>) -> Option<ItemView> {
        lookup(self.items(), name)
    }

    /// The index from the side of the native values.
    pub open spec fn by_native(&self) -> Map<NativeId, Seq<char>> {
        Map::new(|v: NativeId| self.name_of(v) is Some, |v: NativeId| self.name_of(v)->Some_0)
    }

    /// The index from the side of the names.
    pub open spec fn by_name(&self) -> Map<Seq<char>, ItemView> {
        Map::new(|n: Seq<char>| self.item_of(n) is Some, |n: Seq<char>| self.item_of(n)->Some_0)
    }

    /// The number of named items.
    pub open spec fn count(&self) -> nat {
        self.items().len()
    }

    /// The two sides of the index agree: a native value goes by a name
    /// exactly where that name stands for the item of that value, and
    /// every item stands under its own name.
    pub open spec fn consistent(&self) -> bool {
        &&& forall|v: NativeId|
            (#[trigger] self.name_of(v)) is Some ==> {
                let n = self.name_of(v)->Some_0;
                self.item_of(n) is Some && bound_to(self.item_of(n)->Some_0) == Some(v)
            }
        &&& forall|n: Seq<char>|
            (#[trigger] self.item_of(n)) is Some ==> {
                let it = self.item_of(n)->Some_0;
                it.name() == n && (bound_to(it) is Some ==> self.name_of(bound_to(it)->Some_0)
                    == Some(n))
            }
    }

    /// An index without entries.
    pub fn new() -> (r: DB)
        ensures
            r.wf(),
            r.consistent(),
            r.count() == 0,
            forall|v: NativeId| r.name_of(v) is None,
            forall|n: Seq<char>| r.item_of(n) is None,
    {
        let r = DB { values: Vec::new(), catt_values: Vec::new() };
        assert(r.natives() =~= Seq::empty());
        assert(r.items() =~= Seq::empty());
        r
    }

    /// The number of named items.
    pub fn len(&self) -> (r: usize)
        ensures
            r == self.count(),
    {
        self.catt_values.len()
    }

    pub fn get_name(&self, val: &NativeId) -> (r: Option<&String>)
        ensures
            match r {
                Some(s) => self.name_of(*val) == Some(s@),
                None => self.name_of(*val) is None,
            },
    {
        match find_native(&self.values, val) {
            Some(i) => {
                proof {
                    lemma_lookup_first(self.natives(), *val, i as int);
                }
                Some(&self.values[i].1)
            },
            None => {
                proof {
                    lemma_lookup_absent(self.natives(), *val);
                }
                None
            },
        }
    }

    pub fn get_item(&self, name: &String) -> (r: Option<&Item>)
        ensures
            match r {
                Some(it) => self.item_of(name@) == Some(it@),
                None => self.item_of(name@) is None,
            },
    {
        match find_name(&self.catt_values, name) {
            Some(i) => {
                proof {
                    lemma_lookup_first(self.items(), name@, i as int);
                }
                Some(&self.catt_values[i].1)
            },
            None => {
                proof {
                    lemma_lookup_absent(self.items(), name@);
                }
                None
            },
        }
    }

    /// Lets `name` stand for `item`, in place of what it stood for.
    pub fn add_item(&mut self, name: String, item: Item)
        requires
            old(self).wf(),
        ensures
            final(self).wf(),
            forall|n: Seq<char>|
                #[trigger] final(self).item_of(n) == if n == name@ {
                    Some(item@)
                } else {
                    old(self).item_of(n)
                },
            forall|v: NativeId| #[trigger] final(self).name_of(v) == old(self).name_of(v),
            final(self).by_name() == old(self).by_name().insert(name@, item@),
            final(self).by_native() == old(self).by_native(),
            final(self).count() == if old(self).item_of(name@) is Some {
                old(self).count()
            } else {
                old(self).count() + 1
            },
            old(self).consistent() && old(self).item_of(name@) is None && item@.name() == name@
                && bound_to(item@) is None ==> final(self).consistent(),
    {
        let ghost before = self.items();
        let ghost key = name@;
        let ghost content = item@;
        match find_name(&self.catt_values, &name) {
            Some(i) => {
                self.catt_values.set(i, (name, item));
                proof {
                    assert(self.items() =~= before.update(i as int, (key, content)));
                    lemma_lookup_first(before, key, i as int);
                    assert forall|n: Seq<char>| #[trigger]
                        self.item_of(n) == if n == key {
                            Some(content)
                        } else {
                            old(self).item_of(n)
                        } by {
                        lemma_lookup_update(before, i as int, content, n);
                    }
                    lemma_lookup_update(before, i as int, content, key);
                }
            },
            None => {
                self.catt_values.push((name, item));
                proof {
                    assert(self.items() =~= before.push((key, content)));
                    lemma_lookup_absent(before, key);
                    assert forall|n: Seq<char>| #[trigger]
                        self.item_of(n) == if n == key {
                            Some(content)
                        } else {
                            old(self).item_of(n)
                        } by {
                        lemma_lookup_push(before, key, content, n);
                    }
                    lemma_lookup_push(before, key, content, key);
                }
            },
        }
        proof {
            assert(self.natives() == old(self).natives());
            assert(self.by_name() =~= old(self).by_name().insert(key, content));
            assert(self.by_native() =~= old(self).by_native());
            if old(self).consistent() && old(self).item_of(key) is None && content.name() == key
                && bound_to(content) is None {
                assert forall|v: NativeId| (#[trigger] self.name_of(v)) is Some implies ({
                    let n = self.name_of(v)->Some_0;
                    self.item_of(n) is Some && bound_to(self.item_of(n)->Some_0) == Some(v)
                }) by {
                    let n = old(self).name_of(v)->Some_0;
                    assert(old(self).item_of(n) is Some);
                    assert(self.item_of(n) == old(self).item_of(n));
                }
                assert forall|n: Seq<char>| (#[trigger] self.item_of(n)) is Some implies ({
                    let it = self.item_of(n)->Some_0;
                    it.name() == n && (bound_to(it) is Some ==> self.name_of(bound_to(it)->Some_0)
                        == Some(n))
                }) by {
                    if n != key {
                        assert(old(self).item_of(n) is Some);
                    }
                }
            }
        }
    }

    /// Lets the native value go by `name`, and `name` stand for the item
    /// of that value, which is returned.
    pub fn add_value(&mut self, name: String, val: ValueDescriptor) -> (r: Item)
        requires
            old(self).wf(),
        ensures
            final(self).wf(),
            r@ == ItemView::Value(ZWaveItemView { name: name@, value: val@ }),
            forall|v: NativeId|
                #[trigger] final(self).name_of(v) == if v == native_of(val@) {
                    Some(name@)
                } else {
                    old(self).name_of(v)
                },
            forall|n: Seq<char>|
                #[trigger] final(self).item_of(n) == if n == name@ {
                    Some(r@)
                } else {
                    old(self).item_of(n)
                },
            final(self).by_native() == old(self).by_native().insert(native_of(val@), name@),
            final(self).by_name() == old(self).by_name().insert(name@, r@),
            final(self).count() == if old(self).item_of(name@) is Some {
                old(self).count()
            } else {
                old(self).count() + 1
            },
            old(self).consistent() && old(self).item_of(name@) is None && old(self).name_of(
                native_of(val@),
            ) is None ==> final(self).consistent(),
    {
        let native = val.native_id();
        let item = Item::item(name.as_str(), val);
        let ghost before = self.natives();
        let ghost key = name@;
        match find_native(&self.values, &native) {
            Some(i) => {
                self.values.set(i, (native, name.clone()));
                proof {
                    assert(self.natives() =~= before.update(i as int, (native, key)));
                    assert forall|v: NativeId| #[trigger]
                        self.name_of(v) == if v == native {
                            Some(key)
                        } else {
                            old(self).name_of(v)
                        } by {
                        lemma_lookup_update(before, i as int, key, v);
                    }
                    lemma_lookup_update(before, i as int, key, native);
                }
            },
            None => {
                self.values.push((native, name.clone()));
                proof {
                    assert(self.natives() =~= before.push((native, key)));
                    assert forall|v: NativeId| #[trigger]
                        self.name_of(v) == if v == native {
                            Some(key)
                        } else {
                            old(self).name_of(v)
                        } by {
                        lemma_lookup_push(before, native, key, v);
                    }
                    lemma_lookup_push(before, native, key, native);
                }
            },
        }
        let copy = item.duplicate();
        let ghost mid = *self;
        assert(mid.items() == old(self).items());
        self.add_item(name, item);
        proof {
            assert forall|v: NativeId| #[trigger]
                self.name_of(v) == if v == native {
                    Some(key)
                } else {
                    old(self).name_of(v)
                } by {
                assert(self.name_of(v) == mid.name_of(v));
            }
            assert(self.by_native() =~= old(self).by_native().insert(native, key));
            assert(self.by_name() =~= old(self).by_name().insert(key, copy@));
            if old(self).consistent() && old(self).item_of(key) is None && old(self).name_of(native)
                is None {
                assert forall|v: NativeId| (#[trigger] self.name_of(v)) is Some implies ({
                    let n = self.name_of(v)->Some_0;
                    self.item_of(n) is Some && bound_to(self.item_of(n)->Some_0) == Some(v)
                }) by {
                    assert(self.name_of(v) == mid.name_of(v));
                    if v != native {
                        let n = old(self).name_of(v)->Some_0;
                        assert(old(self).item_of(n) is Some);
                        assert(self.item_of(n) == mid.item_of(n));
                    } else {
                        assert(self.item_of(key) == Some(copy@));
                    }
                }
                assert forall|n: Seq<char>| (#[trigger] self.item_of(n)) is Some implies ({
                    let it = self.item_of(n)->Some_0;
                    it.name() == n && (bound_to(it) is Some ==> self.name_of(bound_to(it)->Some_0)
                        == Some(n))
                }) by {
                    if n != key {
                        assert(old(self).item_of(n) is Some);
                        let it = old(self).item_of(n)->Some_0;
                        if bound_to(it) is Some {
                            let w = bound_to(it)->Some_0;
                            assert(old(self).name_of(w) == Some(n));
                            assert(self.name_of(w) == mid.name_of(w));
                        }
                    } else {
                        assert(self.name_of(native) == mid.name_of(native));
                    }
                }
            }
        }
        copy
    }

    /// Takes the item of `name` out of the index.
    pub fn remove_item(&mut self, name: &String) -> (r: Option<Item>)
        requires
            old(self).wf(),
        ensures
            final(self).wf(),
            match r {
                Some(it) => old(self).item_of(name@) == Some(it@),
                None => old(self).item_of(name@) is None,
            },
            forall|n: Seq<char>|
                #[trigger] final(self).item_of(n) == if n == name@ {
                    None
                } else {
                    old(self).item_of(n)
                },
            forall|v: NativeId| #[trigger] final(self).name_of(v) == old(self).name_of(v),
            final(self).by_name() == old(self).by_name().remove(name@),
            final(self).by_native() == old(self).by_native(),
            final(self).count() == if old(self).item_of(name@) is Some {
                old(self).count() - 1
            } else {
                old(self).count() as int
            },
    {
        let r = self.take_item(name);
        proof {
            assert(self.by_name() =~= old(self).by_name().remove(name@));
            assert(self.by_native() =~= old(self).by_native());
        }
        r
    }

    fn take_item(&mut self, name: &String) -> (r: Option<Item>)
        requires
            old(self).wf(),
        ensures
            final(self).wf(),
            match r {
                Some(it) => old(self).item_of(name@) == Some(it@),
                None => old(self).item_of(name@) is None,
            },
            forall|n: Seq<char>|
                #[trigger] final(self).item_of(n) == if n == name@ {
                    None
                } else {
                    old(self).item_of(n)
                },
            final(self).natives() == old(self).natives(),
            final(self).count() == if old(self).item_of(name@) is Some {
                old(self).count() - 1
            } else {
                old(self).count() as int
            },
    {
        let ghost before = self.items();
        match find_name(&self.catt_values, name) {
            Some(i) => {
                let entry = self.catt_values.remove(i);
                proof {
                    assert(before[i as int] == (entry.0@, entry.1@));
                    assert(self.items() =~= before.remove(i as int));
                    lemma_lookup_first(before, name@, i as int);
                    assert forall|n: Seq<char>| #[trigger]
                        self.item_of(n) == if n == name@ {
                            None
                        } else {
                            old(self).item_of(n)
                        } by {
                        lemma_lookup_remove(before, i as int, n);
                    }
                    lemma_lookup_remove(before, i as int, name@);
                }
                Some(entry.1)
            },
            None => {
                proof {
                    lemma_lookup_absent(before, name@);
                }
                None
            },
        }
    }

    /// Takes a native value out of the index, and with it the item that
    /// its name stood for.
    pub fn remove_value(&mut self, val: &NativeId) -> (r: Option<Item>)
        requires
            old(self).wf(),
        ensures
            final(self).wf(),
            forall|v: NativeId|
                #[trigger] final(self).name_of(v) == if v == *val {
                    None
                } else {
                    old(self).name_of(v)
                },
            match old(self).name_of(*val) {
                Some(name) => {
                    &&& match r {
                        Some(it) => old(self).item_of(name) == Some(it@),
                        None => old(self).item_of(name) is None,
                    }
                    &&& forall|n: Seq<char>|
                        #[trigger] final(self).item_of(n) == if n == name {
                            None
                        } else {
                            old(self).item_of(n)
                        }
                },
                None => {
                    &&& r is None
                    &&& forall|n: Seq<char>| #[trigger] final(self).item_of(n) == old(self).item_of(n)
                    &&& final(self).count() == old(self).count()
                },
            },
            final(self).by_native() == old(self).by_native().remove(*val),
            final(self).by_name() == match old(self).name_of(*val) {
                Some(name) => old(self).by_name().remove(name),
                None => old(self).by_name(),
            },
            old(self).consistent() ==> final(self).consistent(),
            old(self).consistent() && old(self).name_of(*val) is Some ==> r is Some
                && final(self).count() == old(self).count() - 1,
    {
        let ghost before = self.natives();
        match find_native(&self.values, val) {
            Some(i) => {
                let entry = self.values.remove(i);
                proof {
                    assert(before[i as int] == (entry.0, entry.1@));
                    assert(self.natives() =~= before.remove(i as int));
                    lemma_lookup_first(before, *val, i as int);
                    assert forall|v: NativeId| #[trigger]
                        self.name_of(v) == if v == *val {
                            None
                        } else {
                            old(self).name_of(v)
                        } by {
                        lemma_lookup_remove(before, i as int, v);
                    }
                    lemma_lookup_remove(before, i as int, *val);
                }
                let ghost mid = *self;
                let ghost gone = entry.1@;
                assert(mid.items() == old(self).items());
                let r = self.remove_item(&entry.1);
                proof {
                    assert forall|v: NativeId| #[trigger]
                        self.name_of(v) == if v == *val {
                            None
                        } else {
                            old(self).name_of(v)
                        } by {
                        assert(self.name_of(v) == mid.name_of(v));
                    }
                    assert(self.by_native() =~= old(self).by_native().remove(*val));
                    assert(self.by_name() =~= old(self).by_name().remove(gone));
                    if old(self).consistent() {
                        assert(old(self).name_of(*val) == Some(gone));
                        assert(old(self).item_of(gone) is Some);
                        assert forall|v: NativeId| (#[trigger] self.name_of(v)) is Some implies ({
                            let n = self.name_of(v)->Some_0;
                            self.item_of(n) is Some && bound_to(self.item_of(n)->Some_0) == Some(v)
                        }) by {
                            assert(self.name_of(v) == mid.name_of(v));
                            let n = old(self).name_of(v)->Some_0;
                            assert(old(self).item_of(n) is Some);
                            assert(self.item_of(n) == if n == gone {
                                None
                            } else {
                                mid.item_of(n)
                            });
                        }
                        assert forall|n: Seq<char>| (#[trigger] self.item_of(n)) is Some implies ({
                            let it = self.item_of(n)->Some_0;
                            it.name() == n && (bound_to(it) is Some ==> self.name_of(
                                bound_to(it)->Some_0,
                            ) == Some(n))
                        }) by {
                            assert(old(self).item_of(n) is Some);
                            let it = old(self).item_of(n)->Some_0;
                            if bound_to(it) is Some {
                                let w = bound_to(it)->Some_0;
                                assert(old(self).name_of(w) == Some(n));
                                assert(self.name_of(w) == mid.name_of(w));
                            }
                        }
                    }
                }
                r
            },
            None => {
                proof {
                    lemma_lookup_absent(before, *val);
                    assert forall|v: NativeId| #[trigger]
                        self.name_of(v) == if v == *val {
                            None
                        } else {
                            old(self).name_of(v)
                        } by {}
                    assert(self.by_native() =~= old(self).by_native().remove(*val));
                }
                None
            },
        }
    }
}

impl Default for DB {
    fn default() -> (r: DB)
        ensures
            r.wf(),
            r.consistent(),
            r.count() == 0,
            forall|v: NativeId| r.name_of(v) is None,
            forall|n: Seq<char>| r.item_of(n) is None,
    {
        DB::new()
    }
}

/// The kinds of devices by what they do.
#[derive(Clone, Copy, Debug, PartialEq, Eq, Structural)]
pub enum DeviceType {
    Basic,
    BinarySwitch,
    BinarySensor,
    Multilevel,
}

/// What addresses a device: its node, an endpoint on it, and the name
/// of its command class.
#[derive(Clone, Debug, PartialEq, Eq, Hash)]
pub struct DeviceDesc {
    pub id: u64,
    pub endpoint: Option<u64>,
    pub command: String,
}

/// The state of a device, by its kind.
#[derive(Clone, Copy, Debug, PartialEq, Eq, Structural)]
pub enum DeviceState {
    Basic(i64),
    BinarySwitch(bool),
    BinarySensor(bool),
    Multilevel(i64),
}

impl Default for DeviceState {
    fn default() -> (r: DeviceState)
        ensures
            r == DeviceState::Basic(0),
    {
        DeviceState::Basic(0)
    }
}

impl DeviceState {
    /// The first state of a device of the command class of that name; a
    /// basic one where the name is not known.
    pub open spec fn initial(command: Seq<char>) -> DeviceState {
        if command == "switch_binary"@ {
            DeviceState::BinarySwitch(false)
        } else if command == "sensor_binary"@ {
            DeviceState::BinarySensor(false)
        } else if command == "switch_multilevel"@ {
            DeviceState::Multilevel(0)
        } else {
            DeviceState::Basic(0)
        }
    }

    pub fn from_command(other: &str) -> (r: DeviceState)
        ensures
            r == Self::initial(other@),
    {
        let name = String::from_str(other);
        if name == String::from_str("switch_binary") {
            DeviceState::BinarySwitch(false)
        } else if name == String::from_str("sensor_binary") {
            DeviceState::BinarySensor(false)
        } else if name == String::from_str("switch_multilevel") {
            DeviceState::Multilevel(0)
        } else {
            DeviceState::Basic(0)
        }
    }
}

} // verus!
