//! Tables of items that the server stores, each item known by its id.
use vstd::prelude::*;

verus! {

/// The id of an item of a table on the server.
pub type TableId = i32;

/// An item of a server table, known by its id.
pub trait DbTableItem: Sized {
    /// The id of this item.
    spec fn spec_id(&self) -> TableId;

    /// The id of this item.
    fn get_id(&self) -> (id: TableId)
        ensures
            id == self.spec_id(),
    ;
}

/// A change to an existing item of a server table, known by the id of that item.
pub trait DbTableUpdateItem: Sized {
    /// The id of the item that this change applies to.
    spec fn spec_id(&self) -> TableId;

    /// The id of the item that this change applies to.
    fn get_id(&self) -> (id: TableId)
        ensures
            id == self.spec_id(),
    ;
}

/// A new item for a server table, before the server has given it an id.
pub trait DbTableNewItem {

}

/// A container of table items.
pub trait DbTable<T: DbTableItem> {
    /// The items that the container holds, in their order.
    spec fn spec_items(&self) -> Seq<T>;

    /// The items that the container holds.
    fn get(&self) -> (items: &Vec<T>)
        ensures
            items@ == self.spec_items(),
    ;

    /// The items that the container holds, for changing in place.
    fn get_mut(&mut self) -> (items: &mut Vec<T>)
        ensures
            items@ == old(self).spec_items(),
            final(self).spec_items() == final(items)@,
    ;
}

/// Whether some item of `items` has id `id`.
pub open spec fn has_id<T: DbTableItem>(items: Seq<T>, id: TableId) -> bool {
    exists|i: int| 0 <= i < items.len() && #[trigger] items[i].spec_id() == id
}

/// Whether `i` is the position of the first item of `items` whose id is `id`.
pub open spec fn is_first_with_id<T: DbTableItem>(items: Seq<T>, id: TableId, i: int) -> bool {
    &&& 0 <= i < items.len()
    &&& items[i].spec_id() == id
    &&& forall|j: int| 0 <= j < i ==> #[trigger] items[j].spec_id() != id
}

/// The position of the first item of `items` whose id is `id` (meaningful when there is one).
pub open spec fn first_index_of<T: DbTableItem>(items: Seq<T>, id: TableId) -> int {
    choose|i: int| is_first_with_id(items, id, i)
}

/// When some item has id `id`, there is a first one, and it is where `first_index_of` points.
pub proof fn lemma_first_index_of<T: DbTableItem>(items: Seq<T>, id: TableId)
    requires
        has_id(items, id),
    ensures
        is_first_with_id(items, id, first_index_of(items, id)),
{
    let k = choose|k: int| 0 <= k < items.len() && #[trigger] items[k].spec_id() == id;
    lemma_first_exists(items, id, k);
}

/// If the item at `k` has id `id`, some position no later than `k` is the first with that id.
proof fn lemma_first_exists<T: DbTableItem>(items: Seq<T>, id: TableId, k: int)
    requires
        0 <= k < items.len(),
        items[k].spec_id() == id,
    ensures
        exists|i: int| is_first_with_id(items, id, i),
    decreases k,
{
    if forall|j: int| 0 <= j < k ==> #[trigger] items[j].spec_id() != id {
        assert(is_first_with_id(items, id, k));
    } else {
        let j = choose|j: int| 0 <= j < k && #[trigger] items[j].spec_id() == id;
        lemma_first_exists(items, id, j);
    }
}

/// Only one position can be the first with a given id.
pub proof fn lemma_first_unique<T: DbTableItem>(items: Seq<T>, id: TableId, i: int, j: int)
    requires
        is_first_with_id(items, id, i),
        is_first_with_id(items, id, j),
    ensures
        i == j,
{
    if i < j {
        assert(items[i].spec_id() != id);
    } else if j < i {
        assert(items[j].spec_id() != id);
    }
}

/// `items` with `item` put in place of the first item with the same id, or
/// appended when there is none.
pub open spec fn upsert<T: DbTableItem>(items: Seq<T>, item: T) -> Seq<T> {
    if has_id(items, item.spec_id()) {
        items.update(first_index_of(items, item.spec_id()), item)
    } else {
        items.push(item)
    }
}

/// `items` without the first item whose id is `id` (unchanged when there is none).
pub open spec fn remove_id<T: DbTableItem>(items: Seq<T>, id: TableId) -> Seq<T> {
    if has_id(items, id) {
        items.remove(first_index_of(items, id))
    } else {
        items
    }
}

/// Looking an item up in a container by its id.
pub trait DbTableGetById<T: DbTableItem> {
    /// The first item with id `id`, if there is one.
    fn get_by_id(&self, id: TableId) -> Option<&T>;

    /// The first item with id `id`, if there is one, for changing in place.
    fn get_by_id_mut(&mut self, id: TableId) -> Option<&mut T>;
}

/// Position of the first item of `items` whose id is `id`, if there is one.
pub fn position_of_id<T: DbTableItem>(items: &Vec<T>, id: TableId) -> (r: Option<usize>)
    ensures
        r is None <==> !has_id(items@, id),
        r matches Some(i) ==> is_first_with_id(items@, id, i as int) && i == first_index_of(
            items@,
            id,
        ),
{
    let mut i: usize = 0;
    while i < items.len()
        invariant
            i <= items@.len(),
            forall|j: int| 0 <= j < i ==> #[trigger] items@[j].spec_id() != id,
        decreases items@.len() - i,
    {
        if items[i].get_id() == id {
            proof {
                assert(is_first_with_id(items@, id, i as int));
                lemma_first_index_of(items@, id);
                lemma_first_unique(items@, id, i as int, first_index_of(items@, id));
            }
            return Some(i);
        }
        i = i + 1;
    }
    None
}

impl<T: DbTableItem, C: DbTable<T>> DbTableGetById<T> for C {
    fn get_by_id(&self, id: TableId) -> (r: Option<&T>)
        ensures
            r is None <==> !has_id(self.spec_items(), id),
            r matches Some(item) ==> *item == self.spec_items()[first_index_of(
                self.spec_items(),
                id,
            )],
    {
        let items = self.get();
        match position_of_id(items, id) {
            Some(i) => Some(&items[i]),
            None => None,
        }
    }

    fn get_by_id_mut(&mut self, id: TableId) -> (r: Option<&mut T>)
        ensures
            r is None <==> !has_id(old(self).spec_items(), id),
            r is None ==> final(self).spec_items() == old(self).spec_items(),
            r matches Some(item) ==> *item == old(self).spec_items()[first_index_of(
                old(self).spec_items(),
                id,
            )] && final(self).spec_items() == old(self).spec_items().update(
                first_index_of(old(self).spec_items(), id),
                *final(item),
            ),
    {
        let items = self.get_mut();
        match position_of_id(items, id) {
            Some(i) => Some(&mut items[i]),
            None => None,
        }
    }
}

/// A table of items as the server last sent them.
pub struct Table<T: DbTableItem> {
    items: Vec<T>,
}

impl<T: DbTableItem> View for Table<T> {
    type V = Seq<T>;

    closed spec fn view(&self) -> Seq<T> {
        self.items@
    }
}

impl<T: DbTableItem> Table<T> {
    /// An empty table.
    pub fn new() -> (t: Self)
        ensures
            t@ == Seq::<T>::empty(),
    {
        Table { items: Vec::new() }
    }

    /// A table holding `items`, in their order.
    pub fn from_vec(items: Vec<T>) -> (t: Self)
        ensures
            t@ == items@,
    {
        Table { items }
    }

    /// Removes every item.
    pub fn clear(&mut self)
        ensures
            final(self)@ == Seq::<T>::empty(),
    {
        self.items.clear();
    }

    /// The first item with id `id`, if there is one.
    pub fn find_item(&self, id: TableId) -> (r: Option<&T>)
        ensures
            r is None <==> !has_id(self@, id),
            r matches Some(item) ==> *item == self@[first_index_of(self@, id)],
    {
        match position_of_id(&self.items, id) {
            Some(i) => Some(&self.items[i]),
            None => None,
        }
    }

    /// The first item with id `id`, if there is one, for changing in place.
    pub fn find_item_mut(&mut self, id: TableId) -> (r: Option<&mut T>)
        ensures
            r is None <==> !has_id(old(self)@, id),
            r is None ==> final(self)@ == old(self)@,
            r matches Some(item) ==> *item == old(self)@[first_index_of(old(self)@, id)]
                && final(self)@ == old(self)@.update(first_index_of(old(self)@, id), *final(item)),
    {
        match position_of_id(&self.items, id) {
            Some(i) => Some(&mut self.items[i]),
            None => None,
        }
    }

    /// Puts `new_item` in place of the first item with the same id, or appends it
    /// when there is none. True if this is a new item, false if it was updated.
    pub fn push_one(&mut self, new_item: T) -> (is_new: bool)
        ensures
            is_new == !has_id(old(self)@, new_item.spec_id()),
            is_new ==> final(self)@ == old(self)@.push(new_item),
            !is_new ==> final(self)@ == old(self)@.update(
                first_index_of(old(self)@, new_item.spec_id()),
                new_item,
            ),
            final(self)@ == upsert(old(self)@, new_item),
    {
        let id = new_item.get_id();
        match position_of_id(&self.items, id) {
            Some(i) => {
                self.items.set(i, new_item);
                false
            },
            None => {
                self.items.push(new_item);
                true
            },
        }
    }

    /// Removes the first item with id `id` and returns it, if there is one.
    pub fn remove_one(&mut self, id: TableId) -> (r: Option<T>)
        ensures
            r is None <==> !has_id(old(self)@, id),
            r is None ==> final(self)@ == old(self)@,
            r matches Some(item) ==> item == old(self)@[first_index_of(old(self)@, id)]
                && final(self)@ == old(self)@.remove(first_index_of(old(self)@, id)),
            final(self)@ == remove_id(old(self)@, id),
    {
        match position_of_id(&self.items, id) {
            Some(i) => Some(self.items.remove(i)),
            None => None,
        }
    }

    /// Replaces all items with `new_data`.
    pub fn replace_all(&mut self, new_data: Vec<T>)
        ensures
            final(self)@ == new_data@,
    {
        self.items = new_data;
    }
}

impl<T: DbTableItem> DbTable<T> for Table<T> {
    closed spec fn spec_items(&self) -> Seq<T> {
        self.items@
    }

    fn get(&self) -> (items: &Vec<T>) {
        &self.items
    }

    fn get_mut(&mut self) -> (items: &mut Vec<T>) {
        &mut self.items
    }
}

impl<T: DbTableItem> Table<T> {
    /// What the table holds is what it gives out as its items.
    pub proof fn lemma_items_are_view(&self)
        ensures
            self.spec_items() == self@,
    {
    }
}


/// A value that carries the id of a table item (such as the view of an item).
pub trait Keyed {
    /// The id that this value carries.
    spec fn key(self) -> TableId;
}

/// Whether some value of `s` carries id `id`.
pub open spec fn has_key<V: Keyed>(s: Seq<V>, id: TableId) -> bool {
    exists|i: int| 0 <= i < s.len() && #[trigger] s[i].key() == id
}

/// Whether `i` is the position of the first value of `s` that carries id `id`.
pub open spec fn is_first_key<V: Keyed>(s: Seq<V>, id: TableId, i: int) -> bool {
    &&& 0 <= i < s.len()
    &&& s[i].key() == id
    &&& forall|j: int| 0 <= j < i ==> #[trigger] s[j].key() != id
}

/// The position of the first value of `s` that carries id `id` (meaningful when there is one).
pub open spec fn first_key_index<V: Keyed>(s: Seq<V>, id: TableId) -> int {
    choose|i: int| is_first_key(s, id, i)
}

/// `s` with `v` put in place of the first value with the same id, or appended
/// when there is none.
pub open spec fn upsert_key<V: Keyed>(s: Seq<V>, v: V) -> Seq<V> {
    if has_key(s, v.key()) {
        s.update(first_key_index(s, v.key()), v)
    } else {
        s.push(v)
    }
}

/// `s` without the first value that carries id `id` (unchanged when there is none).
pub open spec fn remove_key<V: Keyed>(s: Seq<V>, id: TableId) -> Seq<V> {
    if has_key(s, id) {
        s.remove(first_key_index(s, id))
    } else {
        s
    }
}

/// The views of the items of `s`, in order.
pub open spec fn item_views<T: View>(s: Seq<T>) -> Seq<T::V> {
    s.map_values(|t: T| t@)
}

/// Taking views keeps ids, so it keeps which item is the first with an id,
/// and it commutes with putting in and taking out items by id.
pub proof fn lemma_views_by_id<T: DbTableItem + View>(s: Seq<T>, id: TableId, x: T) where
    T::V: Keyed,

    requires
        forall|t: T| #[trigger] t@.key() == t.spec_id(),
    ensures
        has_id(s, id) == has_key(item_views(s), id),
        has_id(s, id) ==> first_index_of(s, id) == first_key_index(item_views(s), id),
        item_views(upsert(s, x)) == upsert_key(item_views(s), x@),
        item_views(remove_id(s, id)) == remove_key(item_views(s), id),
{
    let vs = item_views(s);
    assert forall|i: int| 0 <= i < s.len() implies #[trigger] vs[i].key() == s[i].spec_id() by {
        assert(vs[i] == s[i]@);
        assert(s[i]@.key() == s[i].spec_id());
    }
    lemma_first_index_by_views(s, id);
    lemma_first_index_by_views(s, x.spec_id());
    if has_id(s, x.spec_id()) {
        assert(item_views(upsert(s, x)) =~= upsert_key(vs, x@));
    } else {
        assert(!has_key(vs, x@.key()));
        assert(item_views(upsert(s, x)) =~= upsert_key(vs, x@));
    }
    if has_id(s, id) {
        assert(item_views(remove_id(s, id)) =~= remove_key(vs, id));
    }
}

/// The first item with an id, and the first view with that id, are at the same position.
proof fn lemma_first_index_by_views<T: DbTableItem + View>(s: Seq<T>, id: TableId) where
    T::V: Keyed,

    requires
        forall|t: T| #[trigger] t@.key() == t.spec_id(),
    ensures
        has_id(s, id) == has_key(item_views(s), id),
        has_id(s, id) ==> first_index_of(s, id) == first_key_index(item_views(s), id),
        has_id(s, id) ==> is_first_key(item_views(s), id, first_key_index(item_views(s), id)),
{
    let vs = item_views(s);
    if has_id(s, id) {
        let k = choose|k: int| 0 <= k < s.len() && #[trigger] s[k].spec_id() == id;
        assert(vs[k] == s[k]@);
        assert(s[k]@.key() == s[k].spec_id());
        assert(vs[k].key() == id);
        assert(has_key(vs, id));
        lemma_first_index_of(s, id);
        let i = first_index_of(s, id);
        assert(vs[i] == s[i]@);
        assert(s[i]@.key() == s[i].spec_id());
        assert forall|j: int| 0 <= j < i implies #[trigger] vs[j].key() != id by {
            assert(vs[j] == s[j]@);
            assert(s[j]@.key() == s[j].spec_id());
            assert(s[j].spec_id() != id);
        }
        assert(is_first_key(vs, id, i));
        let f = first_key_index(vs, id);
        assert(is_first_key(vs, id, f));
        if f < i {
            assert(vs[f] == s[f]@);
            assert(s[f]@.key() == s[f].spec_id());
        } else if i < f {
            assert(vs[i].key() != id);
        }
    } else {
        if has_key(vs, id) {
            let k = choose|k: int| 0 <= k < vs.len() && #[trigger] vs[k].key() == id;
            assert(vs[k] == s[k]@);
            assert(s[k]@.key() == s[k].spec_id());
            assert(s[k].spec_id() == id);
        }
    }
}

/// Whether no two items of `items` have the same id.
pub open spec fn ids_distinct<T: DbTableItem>(items: Seq<T>) -> bool {
    forall|i: int, j: int|
        0 <= i < j < items.len() ==> #[trigger] items[i].spec_id() != #[trigger] items[j].spec_id()
}

/// After an item is put into a table, looking up its id finds that item.
pub proof fn law_find_after_push<T: DbTableItem>(items: Seq<T>, item: T)
    ensures
        has_id(upsert(items, item), item.spec_id()),
        upsert(items, item)[first_index_of(upsert(items, item), item.spec_id())] == item,
{
    let id = item.spec_id();
    let after = upsert(items, item);
    if has_id(items, id) {
        lemma_first_index_of(items, id);
        let i = first_index_of(items, id);
        assert(after[i].spec_id() == id);
        assert(is_first_with_id(after, id, i));
        lemma_first_index_of(after, id);
        lemma_first_unique(after, id, i, first_index_of(after, id));
    } else {
        let n = items.len() as int;
        assert(after[n].spec_id() == id);
        assert forall|j: int| 0 <= j < n implies #[trigger] after[j].spec_id() != id by {
            assert(after[j] == items[j]);
        }
        assert(is_first_with_id(after, id, n));
        lemma_first_index_of(after, id);
        lemma_first_unique(after, id, n, first_index_of(after, id));
    }
}

/// Putting an item into a table leaves what a lookup of any other id finds.
pub proof fn law_push_leaves_other_ids<T: DbTableItem>(items: Seq<T>, item: T, id: TableId)
    requires
        id != item.spec_id(),
    ensures
        has_id(upsert(items, item), id) == has_id(items, id),
        has_id(items, id) ==> upsert(items, item)[first_index_of(upsert(items, item), id)]
            == items[first_index_of(items, id)],
{
    let after = upsert(items, item);
    let n = items.len() as int;
    if has_id(items, item.spec_id()) {
        lemma_first_index_of(items, item.spec_id());
    }
    assert forall|j: int| 0 <= j < n implies (#[trigger] after[j].spec_id() == id) == (items[j].spec_id()
        == id) by {
        if has_id(items, item.spec_id()) && j == first_index_of(items, item.spec_id()) {
        } else {
            assert(after[j] == items[j]);
        }
    }
    if has_id(items, id) {
        lemma_first_index_of(items, id);
        let i = first_index_of(items, id);
        assert(after[i].spec_id() == id);
        assert(is_first_with_id(after, id, i));
        lemma_first_index_of(after, id);
        lemma_first_unique(after, id, i, first_index_of(after, id));
        if has_id(items, item.spec_id()) {
            assert(i != first_index_of(items, item.spec_id()));
        }
        assert(after[i] == items[i]);
    }
    if has_id(after, id) {
        let k = choose|k: int| 0 <= k < after.len() && #[trigger] after[k].spec_id() == id;
        if k < n {
            assert(items[k].spec_id() == id);
        }
    }
}

/// Putting the same item into a table twice is the same as putting it once.
pub proof fn law_push_twice<T: DbTableItem>(items: Seq<T>, item: T)
    ensures
        upsert(upsert(items, item), item) == upsert(items, item),
{
    let once = upsert(items, item);
    law_find_after_push(items, item);
    lemma_first_index_of(once, item.spec_id());
    assert(upsert(once, item) =~= once.update(first_index_of(once, item.spec_id()), item));
    assert(upsert(once, item) =~= once);
}

/// A table whose items have distinct ids keeps them distinct when an item is put in.
pub proof fn law_push_keeps_ids_distinct<T: DbTableItem>(items: Seq<T>, item: T)
    requires
        ids_distinct(items),
    ensures
        ids_distinct(upsert(items, item)),
{
    let id = item.spec_id();
    let after = upsert(items, item);
    if has_id(items, id) {
        lemma_first_index_of(items, id);
        let f = first_index_of(items, id);
        assert forall|i: int, j: int|
            0 <= i < j < after.len() implies #[trigger] after[i].spec_id() != #[trigger] after[j].spec_id() by {
            if i == f {
                assert(items[j].spec_id() != items[f].spec_id());
            } else if j == f {
                assert(items[i].spec_id() != items[f].spec_id());
            } else {
                assert(items[i].spec_id() != items[j].spec_id());
            }
        }
    } else {
        assert forall|i: int, j: int|
            0 <= i < j < after.len() implies #[trigger] after[i].spec_id() != #[trigger] after[j].spec_id() by {
            if j == items.len() {
                assert(after[i] == items[i]);
                if items[i].spec_id() == id {
                    assert(has_id(items, id));
                }
            } else {
                assert(items[i].spec_id() != items[j].spec_id());
            }
        }
    }
}

/// In a table whose items have distinct ids, removing an id leaves no item
/// with it, and the ids stay distinct.
pub proof fn law_remove_leaves_none<T: DbTableItem>(items: Seq<T>, id: TableId)
    requires
        ids_distinct(items),
    ensures
        !has_id(remove_id(items, id), id),
        ids_distinct(remove_id(items, id)),
{
    let after = remove_id(items, id);
    if has_id(items, id) {
        lemma_first_index_of(items, id);
        let f = first_index_of(items, id);
        assert forall|k: int| 0 <= k < after.len() implies #[trigger] after[k].spec_id() != id by {
            if k < f {
                assert(after[k] == items[k]);
            } else {
                assert(after[k] == items[k + 1]);
                assert(items[f].spec_id() != items[k + 1].spec_id());
            }
        }
        assert forall|i: int, j: int|
            0 <= i < j < after.len() implies #[trigger] after[i].spec_id() != #[trigger] after[j].spec_id() by {
            let a = if i < f { i } else { i + 1 };
            let b = if j < f { j } else { j + 1 };
            assert(after[i] == items[a]);
            assert(after[j] == items[b]);
            assert(items[a].spec_id() != items[b].spec_id());
        }
    }
}

/// Putting a new item into a table and then removing its id gives the table back.
pub proof fn law_remove_undoes_push<T: DbTableItem>(items: Seq<T>, item: T)
    requires
        !has_id(items, item.spec_id()),
    ensures
        remove_id(upsert(items, item), item.spec_id()) == items,
{
    law_find_after_push(items, item);
    let after = upsert(items, item);
    assert(after == items.push(item));
    let n = items.len() as int;
    assert forall|j: int| 0 <= j < n implies #[trigger] after[j].spec_id() != item.spec_id() by {
        assert(after[j] == items[j]);
    }
    assert(is_first_with_id(after, item.spec_id(), n));
    lemma_first_index_of(after, item.spec_id());
    lemma_first_unique(after, item.spec_id(), n, first_index_of(after, item.spec_id()));
    assert(after.remove(n) =~= items);
}

} // verus!
