//! The store of shared containers.
//!
//! A list, a hash or an integer-keyed hash lives here, and a value holds
//! only its handle: the place of the container in the store. Whoever holds
//! the handle reads and writes the same container, so a change made through
//! one holder is seen by all.

use crate::types::{value_views, Value, ValueView};
use vstd::prelude::*;

verus! {

/// A shared container. The two hashes keep their entries in the order in
/// which the keys came in; of two entries with the same key, the first one
/// counts.
#[derive(Debug)]
pub enum Container {
    List(Vec<Value>),
    Hash(Vec<(String, Value)>),
    IntHash(Vec<(i64, Value)>),
}

/// What a container holds.
pub enum ContainerView {
    List(Seq<ValueView>),
    Hash(Seq<(Seq<char>, ValueView)>),
    IntHash(Seq<(i64, ValueView)>),
}

/// The views of the entries of a hash.
pub open spec fn hash_entries(entries: Seq<(String, Value)>) -> Seq<(Seq<char>, ValueView)> {
    Seq::new(entries.len(), |i: int| (entries[i].0@, entries[i].1@))
}

/// The views of the entries of an integer-keyed hash.
pub open spec fn int_hash_entries(entries: Seq<(i64, Value)>) -> Seq<(i64, ValueView)> {
    Seq::new(entries.len(), |i: int| (entries[i].0, entries[i].1@))
}

impl View for Container {
    type V = ContainerView;

    open spec fn view(&self) -> ContainerView {
        match self {
            Container::List(items) => ContainerView::List(value_views(items@)),
            Container::Hash(entries) => ContainerView::Hash(hash_entries(entries@)),
            Container::IntHash(entries) => ContainerView::IntHash(int_hash_entries(entries@)),
        }
    }
}

/// The place of the first of the first `k` entries that has the key.
pub open spec fn entry_within<K>(entries: Seq<(K, ValueView)>, key: K, k: nat) -> Option<int>
    decreases k,
{
    if k == 0 || k > entries.len() {
        None
    } else {
        match entry_within(entries, key, (k - 1) as nat) {
            Some(i) => Some(i),
            None => if entries[k - 1].0 == key {
                Some(k - 1)
            } else {
                None
            },
        }
    }
}

/// The place of the first entry that has the key.
pub open spec fn entry_place<K>(entries: Seq<(K, ValueView)>, key: K) -> Option<int> {
    entry_within(entries, key, entries.len())
}

/// The entries with `value` under `key`: in the place of the entry that had
/// the key, or else behind all others.
pub open spec fn entries_with<K>(entries: Seq<(K, ValueView)>, key: K, value: ValueView) -> Seq<
    (K, ValueView),
> {
    match entry_place(entries, key) {
        Some(i) => entries.update(i, (key, value)),
        None => entries.push((key, value)),
    }
}

/// The list that a handle stands for, if it stands for one.
pub open spec fn list_at(store: Seq<ContainerView>, handle: int) -> Option<Seq<ValueView>> {
    if 0 <= handle < store.len() && store[handle] is List {
        Some(store[handle]->List_0)
    } else {
        None
    }
}

/// The hash that a handle stands for, if it stands for one.
pub open spec fn hash_at(store: Seq<ContainerView>, handle: int) -> Option<
    Seq<(Seq<char>, ValueView)>,
> {
    if 0 <= handle < store.len() && store[handle] is Hash {
        Some(store[handle]->Hash_0)
    } else {
        None
    }
}

/// The integer-keyed hash that a handle stands for, if it stands for one.
pub open spec fn int_hash_at(store: Seq<ContainerView>, handle: int) -> Option<
    Seq<(i64, ValueView)>,
> {
    if 0 <= handle < store.len() && store[handle] is IntHash {
        Some(store[handle]->IntHash_0)
    } else {
        None
    }
}

/// The containers that were made so far, each at the place that is its
/// handle.
#[derive(Debug)]
pub struct Store {
    items: Vec<Container>,
}

impl View for Store {
    type V = Seq<ContainerView>;

    closed spec fn view(&self) -> Seq<ContainerView> {
        Seq::new(self.items@.len(), |i: int| self.items@[i]@)
    }
}

fn find_text(entries: &Vec<(String, Value)>, key: &String) -> (r: Option<usize>)
    ensures
        match r {
            Some(i) => entry_place(hash_entries(entries@), key@) == Some(i as int) && i
                < entries.len(),
            None => entry_place(hash_entries(entries@), key@) is None,
        },
{
    let mut i: usize = 0;
    while i < entries.len()
        invariant
            i <= entries.len(),
            entry_within(hash_entries(entries@), key@, i as nat) is None,
        decreases entries.len() - i,
    {
        if entries[i].0 == *key {
            proof {
                lemma_entry_found(hash_entries(entries@), key@, (i + 1) as nat, entries.len() as nat);
            }
            return Some(i);
        }
        i = i + 1;
    }
    None
}

fn find_integer(entries: &Vec<(i64, Value)>, key: i64) -> (r: Option<usize>)
    ensures
        match r {
            Some(i) => entry_place(int_hash_entries(entries@), key) == Some(i as int) && i
                < entries.len(),
            None => entry_place(int_hash_entries(entries@), key) is None,
        },
{
    let mut i: usize = 0;
    while i < entries.len()
        invariant
            i <= entries.len(),
            entry_within(int_hash_entries(entries@), key, i as nat) is None,
        decreases entries.len() - i,
    {
        if entries[i].0 == key {
            proof {
                lemma_entry_found(
                    int_hash_entries(entries@),
                    key,
                    (i + 1) as nat,
                    entries.len() as nat,
                );
            }
            return Some(i);
        }
        i = i + 1;
    }
    None
}

/// What was found among the first `k` entries stays found among more.
proof fn lemma_entry_found<K>(entries: Seq<(K, ValueView)>, key: K, k: nat, n: nat)
    requires
        k <= n <= entries.len(),
        entry_within(entries, key, k) is Some,
    ensures
        entry_within(entries, key, n) == entry_within(entries, key, k),
    decreases n - k,
{
    if k < n {
        lemma_entry_found(entries, key, k, (n - 1) as nat);
    }
}

impl Store {
    /// A store without containers.
    pub fn new() -> (s: Store)
        ensures
            s@ == Seq::<ContainerView>::empty(),
    {
        let s = Store { items: Vec::new() };
        assert(s@ =~= Seq::<ContainerView>::empty());
        s
    }

    /// The number of containers.
    pub fn len(&self) -> (n: usize)
        ensures
            n == self@.len(),
    {
        self.items.len()
    }

    /// Puts a container into the store and gives its handle.
    pub fn add(&mut self, container: Container) -> (handle: usize)
        ensures
            handle == old(self)@.len(),
            final(self)@ == old(self)@.push(container@),
    {
        let handle: usize = self.items.len();
        self.items.push(container);
        assert(self@ =~= old(self)@.push(container@));
        handle
    }

    /// Makes a new, empty list and gives its handle.
    pub fn add_list(&mut self) -> (handle: usize)
        ensures
            handle == old(self)@.len(),
            final(self)@ == old(self)@.push(ContainerView::List(Seq::empty())),
    {
        let container = Container::List(Vec::new());
        assert(container@->List_0 =~= Seq::<ValueView>::empty());
        self.add(container)
    }

    /// Makes a new, empty hash and gives its handle.
    pub fn add_hash(&mut self) -> (handle: usize)
        ensures
            handle == old(self)@.len(),
            final(self)@ == old(self)@.push(ContainerView::Hash(Seq::empty())),
    {
        let container = Container::Hash(Vec::new());
        assert(container@->Hash_0 =~= Seq::<(Seq<char>, ValueView)>::empty());
        self.add(container)
    }

    /// Makes a new, empty integer-keyed hash and gives its handle.
    pub fn add_int_hash(&mut self) -> (handle: usize)
        ensures
            handle == old(self)@.len(),
            final(self)@ == old(self)@.push(ContainerView::IntHash(Seq::empty())),
    {
        let container = Container::IntHash(Vec::new());
        assert(container@->IntHash_0 =~= Seq::<(i64, ValueView)>::empty());
        self.add(container)
    }

    /// The container that a handle stands for.
    pub fn container(&self, handle: usize) -> (r: Option<&Container>)
        ensures
            match r {
                Some(c) => handle < self@.len() && c@ == self@[handle as int],
                None => handle >= self@.len(),
            },
    {
        if handle < self.items.len() {
            Some(&self.items[handle])
        } else {
            None
        }
    }

    /// The length of the list `handle`.
    pub fn list_len(&self, handle: usize) -> (r: Option<usize>)
        ensures
            match list_at(self@, handle as int) {
                Some(items) => r == Some(items.len() as usize) && items.len() <= usize::MAX,
                None => r is None,
            },
    {
        if handle >= self.items.len() {
            return None;
        }
        match &self.items[handle] {
            Container::List(items) => Some(items.len()),
            _ => None,
        }
    }

    /// A copy of the item at `index` of the list `handle`.
    pub fn list_get(&self, handle: usize, index: usize) -> (r: Option<Value>)
        ensures
            match list_at(self@, handle as int) {
                Some(items) => if index < items.len() {
                    r is Some && r->0@ == items[index as int]
                } else {
                    r is None
                },
                None => r is None,
            },
    {
        if handle >= self.items.len() {
            return None;
        }
        match &self.items[handle] {
            Container::List(items) => if index < items.len() {
                Some(items[index].clone())
            } else {
                None
            },
            _ => None,
        }
    }

    /// Appends `value` to the list `handle`. Where the handle stands for no
    /// list, nothing changes and the result is `false`.
    pub fn list_push(&mut self, handle: usize, value: Value) -> (r: bool)
        ensures
            match list_at(old(self)@, handle as int) {
                Some(items) => r && final(self)@ == old(self)@.update(
                    handle as int,
                    ContainerView::List(items.push(value@)),
                ),
                None => !r && final(self)@ == old(self)@,
            },
    {
        if handle >= self.items.len() {
            return false;
        }
        let r = match &mut self.items[handle] {
            Container::List(items) => {
                items.push(value);
                true
            },
            _ => false,
        };
        proof {
            if r {
                assert(value_views(self.items@[handle as int]->List_0@) =~= value_views(
                    old(self).items@[handle as int]->List_0@,
                ).push(value@));
                assert(self@ =~= old(self)@.update(
                    handle as int,
                    ContainerView::List(old(self)@[handle as int]->List_0.push(value@)),
                ));
            } else {
                assert(self@ =~= old(self)@);
            }
        }
        r
    }

    /// Takes the last item off the list `handle`. `None` where the handle
    /// stands for no list or the list is empty; nothing changes then.
    pub fn list_pop(&mut self, handle: usize) -> (r: Option<Value>)
        ensures
            match list_at(old(self)@, handle as int) {
                Some(items) => if items.len() > 0 {
                    r is Some && r->0@ == items.last() && final(self)@ == old(self)@.update(
                        handle as int,
                        ContainerView::List(items.drop_last()),
                    )
                } else {
                    r is None && final(self)@ == old(self)@
                },
                None => r is None && final(self)@ == old(self)@,
            },
    {
        if handle >= self.items.len() {
            return None;
        }
        let r = match &mut self.items[handle] {
            Container::List(items) => items.pop(),
            _ => None,
        };
        proof {
            if r is Some {
                assert(value_views(self.items@[handle as int]->List_0@) =~= value_views(
                    old(self).items@[handle as int]->List_0@,
                ).drop_last());
                assert(self@ =~= old(self)@.update(
                    handle as int,
                    ContainerView::List(old(self)@[handle as int]->List_0.drop_last()),
                ));
            } else {
                assert(self@ =~= old(self)@);
            }
        }
        r
    }

    /// Replaces the item at `index` of the list `handle`. Where there is no
    /// such item, nothing changes and the result is `false`.
    pub fn list_set(&mut self, handle: usize, index: usize, value: Value) -> (r: bool)
        ensures
            match list_at(old(self)@, handle as int) {
                Some(items) => if index < items.len() {
                    r && final(self)@ == old(self)@.update(
                        handle as int,
                        ContainerView::List(items.update(index as int, value@)),
                    )
                } else {
                    !r && final(self)@ == old(self)@
                },
                None => !r && final(self)@ == old(self)@,
            },
    {
        if handle >= self.items.len() {
            return false;
        }
        let r = match &mut self.items[handle] {
            Container::List(items) => if index < items.len() {
                items.set(index, value);
                true
            } else {
                false
            },
            _ => false,
        };
        proof {
            if r {
                assert(value_views(self.items@[handle as int]->List_0@) =~= value_views(
                    old(self).items@[handle as int]->List_0@,
                ).update(index as int, value@));
                assert(self@ =~= old(self)@.update(
                    handle as int,
                    ContainerView::List(
                        old(self)@[handle as int]->List_0.update(index as int, value@),
                    ),
                ));
            } else {
                assert(self@ =~= old(self)@);
            }
        }
        r
    }

    /// Whether the hash `handle` has the key; `None` where the handle
    /// stands for no hash.
    pub fn hash_has(&self, handle: usize, key: &String) -> (r: Option<bool>)
        ensures
            match hash_at(self@, handle as int) {
                Some(entries) => r == Some(entry_place(entries, key@) is Some),
                None => r is None,
            },
    {
        if handle >= self.items.len() {
            return None;
        }
        match &self.items[handle] {
            Container::Hash(entries) => Some(find_text(entries, key).is_some()),
            _ => None,
        }
    }

    /// A copy of the value under the key in the hash `handle`.
    pub fn hash_get(&self, handle: usize, key: &String) -> (r: Option<Value>)
        ensures
            match hash_at(self@, handle as int) {
                Some(entries) => match entry_place(entries, key@) {
                    Some(i) => r is Some && r->0@ == entries[i].1,
                    None => r is None,
                },
                None => r is None,
            },
    {
        if handle >= self.items.len() {
            return None;
        }
        match &self.items[handle] {
            Container::Hash(entries) => match find_text(entries, key) {
                Some(i) => Some(entries[i].1.clone()),
                None => None,
            },
            _ => None,
        }
    }

    /// Puts `value` under `key` in the hash `handle`. Where the handle
    /// stands for no hash, nothing changes and the result is `false`.
    pub fn hash_set(&mut self, handle: usize, key: String, value: Value) -> (r: bool)
        ensures
            match hash_at(old(self)@, handle as int) {
                Some(entries) => r && final(self)@ == old(self)@.update(
                    handle as int,
                    ContainerView::Hash(entries_with(entries, key@, value@)),
                ),
                None => !r && final(self)@ == old(self)@,
            },
    {
        if handle >= self.items.len() {
            return false;
        }
        let r = match &mut self.items[handle] {
            Container::Hash(entries) => {
                match find_text(entries, &key) {
                    Some(i) => {
                        entries.set(i, (key, value));
                    },
                    None => {
                        entries.push((key, value));
                    },
                }
                true
            },
            _ => false,
        };
        proof {
            if r {
                assert(hash_entries(self.items@[handle as int]->Hash_0@) =~= entries_with(
                    hash_entries(old(self).items@[handle as int]->Hash_0@),
                    key@,
                    value@,
                ));
                assert(self@ =~= old(self)@.update(
                    handle as int,
                    ContainerView::Hash(
                        entries_with(old(self)@[handle as int]->Hash_0, key@, value@),
                    ),
                ));
            } else {
                assert(self@ =~= old(self)@);
            }
        }
        r
    }

    /// Whether the integer-keyed hash `handle` has the key; `None` where
    /// the handle stands for no such hash.
    pub fn int_hash_has(&self, handle: usize, key: i64) -> (r: Option<bool>)
        ensures
            match int_hash_at(self@, handle as int) {
                Some(entries) => r == Some(entry_place(entries, key) is Some),
                None => r is None,
            },
    {
        if handle >= self.items.len() {
            return None;
        }
        match &self.items[handle] {
            Container::IntHash(entries) => Some(find_integer(entries, key).is_some()),
            _ => None,
        }
    }

    /// A copy of the value under the key in the integer-keyed hash
    /// `handle`.
    pub fn int_hash_get(&self, handle: usize, key: i64) -> (r: Option<Value>)
        ensures
            match int_hash_at(self@, handle as int) {
                Some(entries) => match entry_place(entries, key) {
                    Some(i) => r is Some && r->0@ == entries[i].1,
                    None => r is None,
                },
                None => r is None,
            },
    {
        if handle >= self.items.len() {
            return None;
        }
        match &self.items[handle] {
            Container::IntHash(entries) => match find_integer(entries, key) {
                Some(i) => Some(entries[i].1.clone()),
                None => None,
            },
            _ => None,
        }
    }

    /// Puts `value` under `key` in the integer-keyed hash `handle`. Where
    /// the handle stands for no such hash, nothing changes and the result is
    /// `false`.
    pub fn int_hash_set(&mut self, handle: usize, key: i64, value: Value) -> (r: bool)
        ensures
            match int_hash_at(old(self)@, handle as int) {
                Some(entries) => r && final(self)@ == old(self)@.update(
                    handle as int,
                    ContainerView::IntHash(entries_with(entries, key, value@)),
                ),
                None => !r && final(self)@ == old(self)@,
            },
    {
        if handle >= self.items.len() {
            return false;
        }
        let r = match &mut self.items[handle] {
            Container::IntHash(entries) => {
                match find_integer(entries, key) {
                    Some(i) => {
                        entries.set(i, (key, value));
                    },
                    None => {
                        entries.push((key, value));
                    },
                }
                true
            },
            _ => false,
        };
        proof {
            if r {
                assert(int_hash_entries(self.items@[handle as int]->IntHash_0@) =~= entries_with(
                    int_hash_entries(old(self).items@[handle as int]->IntHash_0@),
                    key,
                    value@,
                ));
                assert(self@ =~= old(self)@.update(
                    handle as int,
                    ContainerView::IntHash(
                        entries_with(old(self)@[handle as int]->IntHash_0, key, value@),
                    ),
                ));
            } else {
                assert(self@ =~= old(self)@);
            }
        }
        r
    }
}

/// Alias visibility: whoever holds the handle of a list sees what any
/// holder appends. `first` and `second` are two values, under whatever
/// names, that hold the same list; after an append through `first`, the list
/// read through `second` is the old list with the new item at its end.
pub proof fn lemma_alias_sees_append(
    store: Seq<ContainerView>,
    first: ValueView,
    second: ValueView,
    item: ValueView,
)
    requires
        first matches ValueView::List(h) && list_at(store, h as int) is Some,
        second == first,
    ensures
        list_at(
            store.update(
                first->List_0 as int,
                ContainerView::List(list_at(store, first->List_0 as int)->0.push(item)),
            ),
            second->List_0 as int,
        ) == Some(list_at(store, first->List_0 as int)->0.push(item)),
{
}

/// A write through one holder of a list changes no other container.
pub proof fn lemma_write_leaves_others(
    store: Seq<ContainerView>,
    handle: int,
    other: int,
    changed: ContainerView,
)
    requires
        0 <= handle < store.len(),
        other != handle,
    ensures
        list_at(store.update(handle, changed), other) == list_at(store, other),
        hash_at(store.update(handle, changed), other) == hash_at(store, other),
        int_hash_at(store.update(handle, changed), other) == int_hash_at(store, other),
{
}

} // verus!
