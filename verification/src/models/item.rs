//! Items and the cargo inventory that holds them.
use vstd::prelude::*;
use crate::text::str_eq;

verus! {

/// Kinds of raw material.
#[derive(Debug, Clone, Copy, PartialEq, Eq, Hash, Structural)]
pub enum ResourceType {
    Mineral,
    Gas,
    Ice,
    Lunar,
    Stellar,
    Exotic,
    Refined,
}

/// Kinds of item.
#[derive(Debug, Clone, Copy, PartialEq, Eq, Hash, Structural)]
pub enum ItemType {
    Resource(ResourceType),
    Component,
    Product,
    Blueprint,
    Equipment,
    ShipModule,
    Fuel,
}

/// A tradeable item.
#[derive(Debug, Clone, PartialEq, Eq, Hash)]
pub struct Item {
    pub name: String,
    pub value: u32,
    pub weight: u32,
    pub item_type: ItemType,
}

/// The mathematical value of an item.
pub struct ItemView {
    pub name: Seq<char>,
    pub value: u32,
    pub weight: u32,
    pub item_type: ItemType,
}

impl View for Item {
    type V = ItemView;

    open spec fn view(&self) -> ItemView {
        ItemView { name: self.name@, value: self.value, weight: self.weight, item_type: self.item_type }
    }
}

impl Item {
    pub fn new(name: &str, value: u32, weight: u32, item_type: ItemType) -> (item: Item)
        ensures
            item@ == (ItemView { name: name@, value, weight, item_type }),
    {
        Item { name: String::from_str(name), value, weight, item_type }
    }

    /// A copy of this item with the same value.
    pub fn duplicate(&self) -> (r: Item)
        ensures
            r@ == self@,
    {
        Item { name: self.name.clone(), value: self.value, weight: self.weight, item_type: self.item_type }
    }

    /// Whether two items are the same item (all fields equal).
    pub fn same_as(&self, other: &Item) -> (r: bool)
        ensures
            r == (self@ == other@),
    {
        self.name == other.name && self.value == other.value && self.weight == other.weight
            && self.item_type == other.item_type
    }
}

/// Total cargo weight held by a sequence of (item, quantity) entries.
pub open spec fn total_weight(s: Seq<(ItemView, u32)>) -> int
    decreases s.len(),
{
    if s.len() == 0 {
        0
    } else {
        total_weight(s.drop_last()) + s.last().0.weight * s.last().1
    }
}

/// No item occurs twice as a key.
pub open spec fn keys_distinct(s: Seq<(ItemView, u32)>) -> bool {
    forall|i: int, j: int| 0 <= i < j < s.len() ==> s[i].0 != s[j].0
}

/// Index of the entry holding exactly `item`, if any.
pub open spec fn index_of_item(s: Seq<(ItemView, u32)>, item: ItemView) -> int
    decreases s.len(),
{
    if s.len() == 0 {
        -1
    } else if s.last().0 == item {
        s.len() - 1
    } else {
        index_of_item(s.drop_last(), item)
    }
}

/// Index of the first entry whose item has the given name, or -1.
pub open spec fn first_named(s: Seq<(ItemView, u32)>, name: Seq<char>) -> int
    decreases s.len(),
{
    if s.len() == 0 {
        -1
    } else if s[0].0.name == name {
        0
    } else {
        let r = first_named(s.drop_first(), name);
        if r < 0 { -1 } else { r + 1 }
    }
}

/// The entries after adding `quantity` of `item` (when it fits).
pub open spec fn with_added(s: Seq<(ItemView, u32)>, item: ItemView, quantity: u32) -> Seq<(ItemView, u32)> {
    let i = index_of_item(s, item);
    if i >= 0 {
        s.update(i, (item, (s[i].1 + quantity) as u32))
    } else {
        s.push((item, quantity))
    }
}

/// Whether the held quantity of `item` plus `quantity` still fits in a u32.
pub open spec fn quantity_fits_u32(s: Seq<(ItemView, u32)>, item: ItemView, quantity: u32) -> bool {
    forall|i: int| 0 <= i < s.len() && s[i].0 == item ==> s[i].1 + quantity <= u32::MAX
}

/// Whether adding `quantity` of `item` fits into `capacity`.
pub open spec fn add_fits(s: Seq<(ItemView, u32)>, capacity: u32, item: ItemView, quantity: u32) -> bool {
    total_weight(s) + item.weight * quantity <= capacity
}

/// The entries after removing `quantity` of the first item named `name`,
/// when there is one with at least that quantity.
pub open spec fn with_removed(s: Seq<(ItemView, u32)>, name: Seq<char>, quantity: u32) -> Seq<(ItemView, u32)> {
    let i = first_named(s, name);
    if i >= 0 && s[i].1 >= quantity {
        if s[i].1 == quantity {
            s.remove(i)
        } else {
            s.update(i, (s[i].0, (s[i].1 - quantity) as u32))
        }
    } else {
        s
    }
}

/// Whether removing `quantity` of the item named `name` succeeds.
pub open spec fn remove_succeeds(s: Seq<(ItemView, u32)>, name: Seq<char>, quantity: u32) -> bool {
    let i = first_named(s, name);
    i >= 0 && s[i].1 >= quantity
}

/// Quantity held of the first item named `name` (0 if none).
pub open spec fn quantity_named(s: Seq<(ItemView, u32)>, name: Seq<char>) -> u32 {
    let i = first_named(s, name);
    if i >= 0 { s[i].1 } else { 0 }
}

/// Whether some entry named `name` holds at least `quantity`.
pub open spec fn holds_named(s: Seq<(ItemView, u32)>, name: Seq<char>, quantity: u32) -> bool {
    exists|i: int| 0 <= i < s.len() && #[trigger] s[i].0.name == name && s[i].1 >= quantity
}

/// A cargo hold: each distinct item with its quantity, and a weight capacity.
#[derive(Debug, Clone)]
pub struct Inventory {
    pub items: Vec<(Item, u32)>,
    pub capacity: u32,
}

impl View for Inventory {
    type V = Seq<(ItemView, u32)>;

    open spec fn view(&self) -> Seq<(ItemView, u32)> {
        self.items@.map_values(|e: (Item, u32)| (e.0@, e.1))
    }
}

proof fn lemma_first_named_bounds(s: Seq<(ItemView, u32)>, name: Seq<char>)
    ensures
        -1 <= first_named(s, name) < s.len(),
        first_named(s, name) >= 0 ==> s[first_named(s, name)].0.name == name,
        first_named(s, name) >= 0 ==> forall|j: int| 0 <= j < first_named(s, name) ==> s[j].0.name != name,
        first_named(s, name) < 0 ==> forall|j: int| 0 <= j < s.len() ==> s[j].0.name != name,
    decreases s.len(),
{
    if s.len() > 0 && s[0].0.name != name {
        lemma_first_named_bounds(s.drop_first(), name);
        assert forall|j: int| 1 <= j < s.len() implies s[j] == s.drop_first()[j - 1] by {}
    }
}

proof fn lemma_index_of_item(s: Seq<(ItemView, u32)>, item: ItemView)
    ensures
        -1 <= index_of_item(s, item) < s.len(),
        index_of_item(s, item) >= 0 ==> s[index_of_item(s, item)].0 == item,
        index_of_item(s, item) < 0 ==> forall|j: int| 0 <= j < s.len() ==> s[j].0 != item,
    decreases s.len(),
{
    if s.len() > 0 && s.last().0 != item {
        lemma_index_of_item(s.drop_last(), item);
        assert forall|j: int| 0 <= j < s.len() - 1 implies s[j] == s.drop_last()[j] by {}
    }
}

/// An item whose name the hold does not know is not held.
pub(crate) proof fn lemma_first_named_absent_index(s: Seq<(ItemView, u32)>, item: ItemView)
    requires
        first_named(s, item.name) < 0,
    ensures
        index_of_item(s, item) < 0,
{
    lemma_first_named_bounds(s, item.name);
    lemma_index_of_item(s, item);
}

proof fn lemma_total_weight_push(s: Seq<(ItemView, u32)>, e: (ItemView, u32))
    ensures
        total_weight(s.push(e)) == total_weight(s) + e.0.weight * e.1,
{
    assert(s.push(e).drop_last() == s);
}

proof fn lemma_total_weight_nonneg(s: Seq<(ItemView, u32)>)
    ensures
        total_weight(s) >= 0,
    decreases s.len(),
{
    if s.len() > 0 {
        lemma_total_weight_nonneg(s.drop_last());
        assert(s.last().0.weight * s.last().1 >= 0) by (nonlinear_arith);
    }
}

/// Changing one entry's quantity changes the total by weight times the difference.
proof fn lemma_total_weight_update(s: Seq<(ItemView, u32)>, i: int, q: u32)
    requires
        0 <= i < s.len(),
    ensures
        total_weight(s.update(i, (s[i].0, q))) == total_weight(s) + s[i].0.weight * q - s[i].0.weight * s[i].1,
    decreases s.len(),
{
    let t = s.update(i, (s[i].0, q));
    if i == s.len() - 1 {
        assert(t.drop_last() == s.drop_last());
    } else {
        lemma_total_weight_update(s.drop_last(), i, q);
        assert(t.drop_last() == s.drop_last().update(i, (s[i].0, q)));
    }
}

/// Removing one entry lowers the total by that entry's weight.
proof fn lemma_total_weight_remove(s: Seq<(ItemView, u32)>, i: int)
    requires
        0 <= i < s.len(),
    ensures
        total_weight(s.remove(i)) == total_weight(s) - s[i].0.weight * s[i].1,
    decreases s.len(),
{
    if i == s.len() - 1 {
        assert(s.remove(i) == s.drop_last());
    } else {
        lemma_total_weight_remove(s.drop_last(), i);
        assert(s.remove(i).drop_last() == s.drop_last().remove(i));
        assert(s.remove(i).last() == s.last());
    }
}

impl Inventory {
    /// Well-formedness: no item is held in two entries.
    pub open spec fn wf(&self) -> bool {
        keys_distinct(self@)
    }

    pub fn new(capacity: u32) -> (inv: Inventory)
        ensures
            inv@ == Seq::<(ItemView, u32)>::empty(),
            inv.capacity == capacity,
            inv.wf(),
    {
        let inv = Inventory { items: Vec::new(), capacity };
        assert(inv@ =~= Seq::<(ItemView, u32)>::empty());
        inv
    }

    /// Position of the entry holding exactly `item`.
    fn find_item(&self, item: &Item) -> (r: Option<usize>)
        ensures
            match r {
                Some(i) => i as int == index_of_item(self@, item@) && i < self@.len(),
                None => index_of_item(self@, item@) < 0,
            },
    {
        proof {
            lemma_index_of_item(self@, item@);
        }
        let mut i = self.items.len();
        while i > 0
            invariant
                i <= self.items.len(),
                self@.len() == self.items.len(),
                forall|j: int| i <= j < self@.len() ==> self@[j].0 != item@,
            decreases i,
        {
            if self.items[i - 1].0.same_as(item) {
                proof {
                    assert(self@[i - 1].0 == item@);
                    lemma_index_of_item_suffix(self@, item@, i as int);
                }
                return Some(i - 1);
            }
            i = i - 1;
        }
        None
    }

    /// Position of the first entry whose item is named `name`.
    fn find_named(&self, name: &str) -> (r: Option<usize>)
        ensures
            match r {
                Some(i) => i as int == first_named(self@, name@) && i < self@.len(),
                None => first_named(self@, name@) < 0,
            },
    {
        proof {
            lemma_first_named_bounds(self@, name@);
        }
        let mut i: usize = 0;
        while i < self.items.len()
            invariant
                i <= self.items.len(),
                self@.len() == self.items.len(),
                forall|j: int| 0 <= j < i ==> self@[j].0.name != name@,
            decreases self.items.len() - i,
        {
            if str_eq(self.items[i].0.name.as_str(), name) {
                proof {
                    lemma_first_named_at(self@, name@, i as int);
                }
                return Some(i);
            }
            i = i + 1;
        }
        None
    }

    /// Adds `quantity` of `item` if the total weight stays within capacity.
    pub fn add_item(&mut self, item: Item, quantity: u32) -> (added: bool)
        requires
            old(self).wf(),
            item.weight * quantity <= u32::MAX,
            total_weight(old(self)@) + item.weight * quantity <= u32::MAX,
            quantity_fits_u32(old(self)@, item@, quantity),
        ensures
            added == add_fits(old(self)@, old(self).capacity, item@, quantity),
            added ==> final(self)@ == with_added(old(self)@, item@, quantity),
            !added ==> final(self)@ == old(self)@,
            final(self).capacity == old(self).capacity,
            final(self).wf(),
    {
        let total = item.weight * quantity;
        let used = self.used_capacity();
        if used + total > self.capacity {
            return false;
        }
        proof {
            lemma_index_of_item(self@, item@);
        }
        match self.find_item(&item) {
            Some(i) => {
                let entry = self.items.remove(i);
                let q = entry.1 + quantity;
                self.items.insert(i, (entry.0, q));
                proof {
                    assert(self@ =~= with_added(old(self)@, item@, quantity));
                }
            },
            None => {
                self.items.push((item, quantity));
                proof {
                    assert(self@ =~= with_added(old(self)@, item@, quantity));
                }
            },
        }
        true
    }

    /// Removes `quantity` of the first item named `item_name`, returning that
    /// item, or `None` (and no change) when it is absent or short.
    pub fn remove_item(&mut self, item_name: &str, quantity: u32) -> (r: Option<Item>)
        requires
            old(self).wf(),
        ensures
            r is Some == remove_succeeds(old(self)@, item_name@, quantity),
            r matches Some(it) ==> it@ == old(self)@[first_named(old(self)@, item_name@)].0,
            r is None ==> *final(self) == *old(self),
            final(self)@ == with_removed(old(self)@, item_name@, quantity),
            final(self).capacity == old(self).capacity,
            final(self).wf(),
    {
        match self.find_named(item_name) {
            None => None,
            Some(i) => {
                if self.items[i].1 < quantity {
                    return None;
                }
                let entry = self.items.remove(i);
                let result = entry.0.duplicate();
                let left = entry.1 - quantity;
                if left != 0 {
                    self.items.insert(i, (entry.0, left));
                    proof {
                        assert(self@ =~= with_removed(old(self)@, item_name@, quantity));
                    }
                } else {
                    proof {
                        assert(self@ =~= with_removed(old(self)@, item_name@, quantity));
                    }
                }
                Some(result)
            },
        }
    }

    /// Whether some entry named `item_name` holds at least `quantity`.
    pub fn has_item(&self, item_name: &str, quantity: u32) -> (r: bool)
        ensures
            r == holds_named(self@, item_name@, quantity),
    {
        let mut i: usize = 0;
        while i < self.items.len()
            invariant
                i <= self.items.len(),
                self@.len() == self.items.len(),
                forall|j: int| 0 <= j < i ==> !(self@[j].0.name == item_name@ && self@[j].1 >= quantity),
            decreases self.items.len() - i,
        {
            if str_eq(self.items[i].0.name.as_str(), item_name) && self.items[i].1 >= quantity {
                assert(self@[i as int].0.name == item_name@);
                return true;
            }
            i = i + 1;
        }
        false
    }

    /// Quantity of the first item named `item_name`, or 0.
    pub fn get_item_quantity(&self, item_name: &str) -> (r: u32)
        ensures
            r == quantity_named(self@, item_name@),
    {
        match self.find_named(item_name) {
            Some(i) => self.items[i].1,
            None => 0,
        }
    }

    /// Total weight of everything held.
    pub fn used_capacity(&self) -> (r: u32)
        requires
            total_weight(self@) <= u32::MAX,
        ensures
            r == total_weight(self@),
    {
        let mut sum: u32 = 0;
        let mut i: usize = 0;
        while i < self.items.len()
            invariant
                i <= self.items.len(),
                self@.len() == self.items.len(),
                sum == total_weight(self@.subrange(0, i as int)),
                total_weight(self@) <= u32::MAX,
            decreases self.items.len() - i,
        {
            proof {
                let s = self@.subrange(0, i as int + 1);
                assert(s.drop_last() =~= self@.subrange(0, i as int));
                lemma_total_weight_prefix_le(self@, i as int + 1);
            }
            let w = self.items[i].0.weight * self.items[i].1;
            sum = sum + w;
            i = i + 1;
        }
        assert(self@.subrange(0, i as int) =~= self@);
        sum
    }

    /// Capacity not yet used.
    pub fn remaining_capacity(&self) -> (r: u32)
        requires
            total_weight(self@) <= self.capacity,
        ensures
            r == self.capacity - total_weight(self@),
    {
        self.capacity - self.used_capacity()
    }
}

proof fn lemma_first_named_at(s: Seq<(ItemView, u32)>, name: Seq<char>, i: int)
    requires
        0 <= i < s.len(),
        s[i].0.name == name,
        forall|j: int| 0 <= j < i ==> s[j].0.name != name,
    ensures
        first_named(s, name) == i,
    decreases i,
{
    if i > 0 {
        lemma_first_named_at(s.drop_first(), name, i - 1);
    }
}

proof fn lemma_index_of_item_suffix(s: Seq<(ItemView, u32)>, item: ItemView, i: int)
    requires
        1 <= i <= s.len(),
        s[i - 1].0 == item,
        forall|j: int| i <= j < s.len() ==> s[j].0 != item,
    ensures
        index_of_item(s, item) == i - 1,
    decreases s.len(),
{
    if s.len() > i {
        lemma_index_of_item_suffix(s.drop_last(), item, i);
    }
}

proof fn lemma_total_weight_prefix_le(s: Seq<(ItemView, u32)>, k: int)
    requires
        0 <= k <= s.len(),
    ensures
        total_weight(s.subrange(0, k)) <= total_weight(s),
        total_weight(s.subrange(0, k)) >= 0,
    decreases s.len() - k,
{
    lemma_total_weight_nonneg(s.subrange(0, k));
    if k < s.len() {
        lemma_total_weight_prefix_le(s, k + 1);
        let t = s.subrange(0, k + 1);
        assert(t.drop_last() =~= s.subrange(0, k));
        assert(t.last().0.weight * t.last().1 >= 0) by (nonlinear_arith);
    } else {
        assert(s.subrange(0, k) =~= s);
    }
}

} // verus!

verus! {

/// Adding an item that fits keeps the hold within capacity: the total weight
/// grows by exactly the added weight and stays at most the capacity.
pub proof fn law_add_respects_capacity(s: Seq<(ItemView, u32)>, capacity: u32, item: ItemView, quantity: u32)
    requires
        keys_distinct(s),
        quantity_fits_u32(s, item, quantity),
        add_fits(s, capacity, item, quantity),
    ensures
        total_weight(with_added(s, item, quantity)) == total_weight(s) + item.weight * quantity,
        total_weight(with_added(s, item, quantity)) <= capacity,
{
    lemma_index_of_item(s, item);
    let i = index_of_item(s, item);
    if i >= 0 {
        let q = s[i].1;
        let nq = (q + quantity) as u32;
        assert(nq == q + quantity);
        lemma_total_weight_update(s, i, nq);
        let w = item.weight;
        assert(w * nq == w * q + w * quantity) by (nonlinear_arith)
            requires
                nq == q + quantity,
        ;
    } else {
        lemma_total_weight_push(s, (item, quantity));
    }
}

/// Removing lowers the total weight by exactly what was removed; a failed
/// removal changes nothing.
pub proof fn law_remove_releases_weight(s: Seq<(ItemView, u32)>, name: Seq<char>, quantity: u32)
    ensures
        remove_succeeds(s, name, quantity) ==> total_weight(with_removed(s, name, quantity)) == total_weight(s)
            - s[first_named(s, name)].0.weight * quantity,
        !remove_succeeds(s, name, quantity) ==> with_removed(s, name, quantity) == s,
{
    lemma_first_named_bounds(s, name);
    let i = first_named(s, name);
    if remove_succeeds(s, name, quantity) {
        let q = s[i].1;
        let w = s[i].0.weight;
        if q == quantity {
            lemma_total_weight_remove(s, i);
        } else {
            let nq = (q - quantity) as u32;
            lemma_total_weight_update(s, i, nq);
            assert(w * nq == w * q - w * quantity) by (nonlinear_arith)
                requires
                    nq == q - quantity,
            ;
        }
    }
}

/// Adding an item whose name the hold does not yet know, then removing the
/// same quantity by that name, gives the item back and restores the hold.
pub proof fn law_add_then_remove_restores(s: Seq<(ItemView, u32)>, item: ItemView, quantity: u32)
    requires
        keys_distinct(s),
        first_named(s, item.name) < 0,
    ensures
        remove_succeeds(with_added(s, item, quantity), item.name, quantity),
        with_added(s, item, quantity)[first_named(with_added(s, item, quantity), item.name)].0 == item,
        with_removed(with_added(s, item, quantity), item.name, quantity) == s,
        quantity_named(with_added(s, item, quantity), item.name) == quantity,
{
    lemma_first_named_bounds(s, item.name);
    lemma_index_of_item(s, item);
    let t = with_added(s, item, quantity);
    assert(t == s.push((item, quantity)));
    lemma_first_named_at(t, item.name, s.len() as int);
    assert(t.remove(s.len() as int) =~= s);
}

} // verus!
