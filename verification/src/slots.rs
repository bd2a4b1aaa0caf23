//! The maps that own the buffers and windows of an editor.

use slotmap::{DefaultKey, Key, KeyData, SlotMap};
use vstd::prelude::*;

use crate::buffer::Buffer;
use crate::ids::{BufferId, WindowId};
use crate::window::Window;

verus! {

/// The index of the slot that a handle names.
pub open spec fn slot_index(bits: u64) -> u64 {
    bits % 0x1_0000_0000
}

/// Whether handles come in the order of their slots.
pub open spec fn in_slot_order(bits: Seq<u64>) -> bool {
    forall|i: int, j: int|
        0 <= i < j < bits.len() ==> slot_index(#[trigger] bits[i]) < slot_index(
            #[trigger] bits[j],
        )
}

/// The windows of an editor, by handle.
#[verifier::external_body]
pub struct WindowSlots {
    slots: SlotMap<DefaultKey, Window>,
}

/// What a map of windows holds.
pub uninterp spec fn window_slots(m: WindowSlots) -> Map<WindowId, Window>;

impl View for WindowSlots {
    type V = Map<WindowId, Window>;

    open spec fn view(&self) -> Map<WindowId, Window> {
        window_slots(*self)
    }
}

/// `SlotMap::new` makes an empty map.
#[verifier::external_body]
fn windows_new() -> (m: WindowSlots)
    ensures
        forall|id: WindowId| !window_slots(m).contains_key(id),
{
    WindowSlots { slots: SlotMap::new() }
}

/// `SlotMap::len` counts the values.
#[verifier::external_body]
fn windows_len(m: &WindowSlots) -> (n: usize)
    ensures
        n == window_slots(*m).len(),
{
    m.slots.len()
}

/// `SlotMap::insert` puts a value in under a handle that no value has. It
/// panics where all of its `u32::MAX - 1` slots are taken. A map holds finitely
/// many values.
#[verifier::external_body]
fn windows_insert(m: &mut WindowSlots, value: Window) -> (id: WindowId)
    requires
        window_slots(*old(m)).len() < u32::MAX - 1,
    ensures
        !window_slots(*old(m)).contains_key(id),
        window_slots(*final(m)) == window_slots(*old(m)).insert(id, value),
        window_slots(*final(m)).dom().finite(),
{
    WindowId::from_slot_bits(m.slots.insert(value).data().as_ffi())
}

/// `SlotMap::get` finds the value with a handle.
#[verifier::external_body]
fn windows_get(m: &WindowSlots, id: WindowId) -> (r: Option<&Window>)
    ensures
        match r {
            Some(value) => window_slots(*m).contains_key(id) && *value == window_slots(*m)[id],
            None => !window_slots(*m).contains_key(id),
        },
{
    m.slots.get(DefaultKey::from(KeyData::from_ffi(id.bits())))
}

/// `SlotMap::get_mut` finds the value with a handle, to be changed in place.
#[verifier::external_body]
fn windows_get_mut(m: &mut WindowSlots, id: WindowId) -> (r: Option<&mut Window>)
    ensures
        match r {
            Some(value) => {
                &&& window_slots(*old(m)).contains_key(id)
                &&& *value == window_slots(*old(m))[id]
                &&& window_slots(*final(m)) == window_slots(*old(m)).insert(id, *final(value))
            },
            None => {
                &&& !window_slots(*old(m)).contains_key(id)
                &&& window_slots(*final(m)) == window_slots(*old(m))
            },
        },
{
    m.slots.get_mut(DefaultKey::from(KeyData::from_ffi(id.bits())))
}

/// `SlotMap::remove` takes the value with a handle out. A map holds finitely
/// many values.
#[verifier::external_body]
fn windows_remove(m: &mut WindowSlots, id: WindowId) -> (r: Option<Window>)
    ensures
        r == (if window_slots(*old(m)).contains_key(id) {
            Some(window_slots(*old(m))[id])
        } else {
            None
        }),
        window_slots(*final(m)) == window_slots(*old(m)).remove(id),
        window_slots(*final(m)).dom().finite(),
{
    m.slots.remove(DefaultKey::from(KeyData::from_ffi(id.bits())))
}

/// `SlotMap::keys` walks through the taken slots by their index, which is the
/// lower half of a handle.
#[verifier::external_body]
fn windows_keys(m: &WindowSlots) -> (r: Vec<WindowId>)
    ensures
        in_slot_order(r@.map_values(|id: WindowId| id@)),
        forall|id: WindowId| #[trigger] r@.contains(id) <==> window_slots(*m).contains_key(id),
{
    m.slots.keys().map(|key| WindowId::from_slot_bits(key.data().as_ffi())).collect()
}

impl WindowSlots {
    /// Whether `s` lists the handles of the map in the order of their slots.
    pub open spec fn listed_by(&self, s: Seq<WindowId>) -> bool {
        &&& in_slot_order(s.map_values(|id: WindowId| id@))
        &&& forall|id: WindowId| #[trigger] s.contains(id) <==> self@.contains_key(id)
    }

    /// The handles in the order of their slots.
    pub open spec fn order(&self) -> Seq<WindowId> {
        choose|s: Seq<WindowId>| self.listed_by(s)
    }

    /// There is one such order, and it holds each handle once.
    pub proof fn order_is(&self, s: Seq<WindowId>)
        requires
            self.listed_by(s),
        ensures
            s == self.order(),
            s.no_duplicates(),
            self@.dom().finite(),
    {
        let t = self.order();
        assert(self.listed_by(t));
        assert forall|id: WindowId| #[trigger] s.contains(id) <==> t.contains(id) by {}
        windows_order_unique(s, t);
        windows_distinct(s);
        assert(self@.dom() =~= s.to_set());
    }

    pub fn new() -> (m: Self)
        ensures
            m@ == Map::<WindowId, Window>::empty(),
    {
        let m = windows_new();
        assert(m@ =~= Map::<WindowId, Window>::empty());
        m
    }

    pub fn len(&self) -> (n: usize)
        ensures
            n == self@.len(),
    {
        windows_len(self)
    }

    /// Puts a window in and gives its handle.
    pub fn insert(&mut self, value: Window) -> (id: WindowId)
        requires
            old(self)@.len() < u32::MAX - 1,
        ensures
            !old(self)@.contains_key(id),
            final(self)@ == old(self)@.insert(id, value),
            final(self)@.dom().finite(),
    {
        windows_insert(self, value)
    }

    pub fn contains_key(&self, id: WindowId) -> (r: bool)
        ensures
            r == self@.contains_key(id),
    {
        windows_get(self, id).is_some()
    }

    pub fn get(&self, id: WindowId) -> (r: Option<&Window>)
        ensures
            match r {
                Some(value) => self@.contains_key(id) && *value == self@[id],
                None => !self@.contains_key(id),
            },
    {
        windows_get(self, id)
    }

    pub fn get_mut(&mut self, id: WindowId) -> (r: Option<&mut Window>)
        ensures
            match r {
                Some(value) => {
                    &&& old(self)@.contains_key(id)
                    &&& *value == old(self)@[id]
                    &&& final(self)@ == old(self)@.insert(id, *final(value))
                },
                None => !old(self)@.contains_key(id) && final(self)@ == old(self)@,
            },
    {
        windows_get_mut(self, id)
    }

    pub fn remove(&mut self, id: WindowId) -> (r: Option<Window>)
        ensures
            r == (if old(self)@.contains_key(id) {
                Some(old(self)@[id])
            } else {
                None
            }),
            final(self)@ == old(self)@.remove(id),
            final(self)@.dom().finite(),
            final(self)@.len() <= old(self)@.len(),
    {
        let ghost before = self@;
        let r = windows_remove(self, id);
        proof {
            if before.contains_key(id) {
                assert(before.dom() =~= self@.dom().insert(id));
            } else {
                assert(self@ =~= before);
            }
        }
        r
    }

    /// The handles in the order of their slots.
    pub fn keys(&self) -> (r: Vec<WindowId>)
        ensures
            r@ == self.order(),
            self.listed_by(r@),
            r@.no_duplicates(),
            self@.dom().finite(),
    {
        let r = windows_keys(self);
        proof {
            self.order_is(r@);
        }
        r
    }
}

proof fn windows_distinct(s: Seq<WindowId>)
    requires
        in_slot_order(s.map_values(|id: WindowId| id@)),
    ensures
        s.no_duplicates(),
{
    let bits = s.map_values(|id: WindowId| id@);
    assert forall|i: int, j: int| 0 <= i < s.len() && 0 <= j < s.len() && i != j implies s[i]
        != s[j] by {
        assert(bits[i] == s[i]@);
        assert(bits[j] == s[j]@);
    }
}

proof fn windows_order_unique(s: Seq<WindowId>, t: Seq<WindowId>)
    requires
        in_slot_order(s.map_values(|id: WindowId| id@)),
        in_slot_order(t.map_values(|id: WindowId| id@)),
        forall|id: WindowId| #[trigger] s.contains(id) <==> t.contains(id),
    ensures
        s == t,
    decreases s.len(),
{
    let a = s.map_values(|id: WindowId| id@);
    let b = t.map_values(|id: WindowId| id@);
    if s.len() == 0 {
        if t.len() > 0 {
            assert(t.contains(t[0]));
            assert(s.contains(t[0]));
        }
        assert(s =~= t);
    } else {
        assert(s.contains(s.last()));
        assert(t.len() > 0);
        assert(t.contains(t.last()));
        assert(s.contains(t.last()));
        let i = choose|i: int| 0 <= i < s.len() && s[i] == t.last();
        let j = choose|j: int| 0 <= j < t.len() && t[j] == s.last();
        assert(a[i] == s[i]@ && a[s.len() - 1] == s.last()@);
        assert(b[j] == t[j]@ && b[t.len() - 1] == t.last()@);
        assert(s.last() == t.last());
        let s1 = s.drop_last();
        let t1 = t.drop_last();
        let a1 = s1.map_values(|id: WindowId| id@);
        let b1 = t1.map_values(|id: WindowId| id@);
        assert(a1 =~= a.drop_last());
        assert(b1 =~= b.drop_last());
        windows_distinct(s);
        windows_distinct(t);
        assert forall|id: WindowId| #[trigger] s1.contains(id) <==> t1.contains(id) by {
            if s1.contains(id) {
                let k = choose|k: int| 0 <= k < s1.len() && s1[k] == id;
                assert(s[k] == id);
                assert(s.contains(id));
                let m = choose|m: int| 0 <= m < t.len() && t[m] == id;
                assert(m != t.len() - 1);
                assert(t1[m] == id);
            }
            if t1.contains(id) {
                let k = choose|k: int| 0 <= k < t1.len() && t1[k] == id;
                assert(t[k] == id);
                assert(t.contains(id));
                assert(s.contains(id));
                let m = choose|m: int| 0 <= m < s.len() && s[m] == id;
                assert(m != s.len() - 1);
                assert(s1[m] == id);
            }
        }
        windows_order_unique(s1, t1);
        assert(s =~= s1.push(s.last()));
        assert(t =~= t1.push(t.last()));
    }
}

/// The buffers of an editor, by handle.
#[verifier::external_body]
pub struct BufferSlots {
    slots: SlotMap<DefaultKey, Buffer>,
}

/// What a map of buffers holds.
pub uninterp spec fn buffer_slots(m: BufferSlots) -> Map<BufferId, Buffer>;

impl View for BufferSlots {
    type V = Map<BufferId, Buffer>;

    open spec fn view(&self) -> Map<BufferId, Buffer> {
        buffer_slots(*self)
    }
}

/// `SlotMap::new` makes an empty map.
#[verifier::external_body]
fn buffers_new() -> (m: BufferSlots)
    ensures
        forall|id: BufferId| !buffer_slots(m).contains_key(id),
{
    BufferSlots { slots: SlotMap::new() }
}

/// `SlotMap::len` counts the values.
#[verifier::external_body]
fn buffers_len(m: &BufferSlots) -> (n: usize)
    ensures
        n == buffer_slots(*m).len(),
{
    m.slots.len()
}

/// `SlotMap::insert` puts a value in under a handle that no value has. It
/// panics where all of its `u32::MAX - 1` slots are taken. A map holds finitely
/// many values.
#[verifier::external_body]
fn buffers_insert(m: &mut BufferSlots, value: Buffer) -> (id: BufferId)
    requires
        buffer_slots(*old(m)).len() < u32::MAX - 1,
    ensures
        !buffer_slots(*old(m)).contains_key(id),
        buffer_slots(*final(m)) == buffer_slots(*old(m)).insert(id, value),
        buffer_slots(*final(m)).dom().finite(),
{
    BufferId::from_slot_bits(m.slots.insert(value).data().as_ffi())
}

/// `SlotMap::get` finds the value with a handle.
#[verifier::external_body]
fn buffers_get(m: &BufferSlots, id: BufferId) -> (r: Option<&Buffer>)
    ensures
        match r {
            Some(value) => buffer_slots(*m).contains_key(id) && *value == buffer_slots(*m)[id],
            None => !buffer_slots(*m).contains_key(id),
        },
{
    m.slots.get(DefaultKey::from(KeyData::from_ffi(id.bits())))
}

/// `SlotMap::get_mut` finds the value with a handle, to be changed in place.
#[verifier::external_body]
fn buffers_get_mut(m: &mut BufferSlots, id: BufferId) -> (r: Option<&mut Buffer>)
    ensures
        match r {
            Some(value) => {
                &&& buffer_slots(*old(m)).contains_key(id)
                &&& *value == buffer_slots(*old(m))[id]
                &&& buffer_slots(*final(m)) == buffer_slots(*old(m)).insert(id, *final(value))
            },
            None => {
                &&& !buffer_slots(*old(m)).contains_key(id)
                &&& buffer_slots(*final(m)) == buffer_slots(*old(m))
            },
        },
{
    m.slots.get_mut(DefaultKey::from(KeyData::from_ffi(id.bits())))
}

/// `SlotMap::remove` takes the value with a handle out. A map holds finitely
/// many values.
#[verifier::external_body]
fn buffers_remove(m: &mut BufferSlots, id: BufferId) -> (r: Option<Buffer>)
    ensures
        r == (if buffer_slots(*old(m)).contains_key(id) {
            Some(buffer_slots(*old(m))[id])
        } else {
            None
        }),
        buffer_slots(*final(m)) == buffer_slots(*old(m)).remove(id),
        buffer_slots(*final(m)).dom().finite(),
{
    m.slots.remove(DefaultKey::from(KeyData::from_ffi(id.bits())))
}

/// `SlotMap::keys` walks through the taken slots by their index, which is the
/// lower half of a handle.
#[verifier::external_body]
fn buffers_keys(m: &BufferSlots) -> (r: Vec<BufferId>)
    ensures
        in_slot_order(r@.map_values(|id: BufferId| id@)),
        forall|id: BufferId| #[trigger] r@.contains(id) <==> buffer_slots(*m).contains_key(id),
{
    m.slots.keys().map(|key| BufferId::from_slot_bits(key.data().as_ffi())).collect()
}

impl BufferSlots {
    /// Whether `s` lists the handles of the map in the order of their slots.
    pub open spec fn listed_by(&self, s: Seq<BufferId>) -> bool {
        &&& in_slot_order(s.map_values(|id: BufferId| id@))
        &&& forall|id: BufferId| #[trigger] s.contains(id) <==> self@.contains_key(id)
    }

    /// The handles in the order of their slots.
    pub open spec fn order(&self) -> Seq<BufferId> {
        choose|s: Seq<BufferId>| self.listed_by(s)
    }

    /// There is one such order, and it holds each handle once.
    pub proof fn order_is(&self, s: Seq<BufferId>)
        requires
            self.listed_by(s),
        ensures
            s == self.order(),
            s.no_duplicates(),
            self@.dom().finite(),
    {
        let t = self.order();
        assert(self.listed_by(t));
        assert forall|id: BufferId| #[trigger] s.contains(id) <==> t.contains(id) by {}
        buffers_order_unique(s, t);
        buffers_distinct(s);
        assert(self@.dom() =~= s.to_set());
    }

    pub fn new() -> (m: Self)
        ensures
            m@ == Map::<BufferId, Buffer>::empty(),
    {
        let m = buffers_new();
        assert(m@ =~= Map::<BufferId, Buffer>::empty());
        m
    }

    pub fn len(&self) -> (n: usize)
        ensures
            n == self@.len(),
    {
        buffers_len(self)
    }

    /// Puts a buffer in and gives its handle.
    pub fn insert(&mut self, value: Buffer) -> (id: BufferId)
        requires
            old(self)@.len() < u32::MAX - 1,
        ensures
            !old(self)@.contains_key(id),
            final(self)@ == old(self)@.insert(id, value),
            final(self)@.dom().finite(),
    {
        buffers_insert(self, value)
    }

    pub fn contains_key(&self, id: BufferId) -> (r: bool)
        ensures
            r == self@.contains_key(id),
    {
        buffers_get(self, id).is_some()
    }

    pub fn get(&self, id: BufferId) -> (r: Option<&Buffer>)
        ensures
            match r {
                Some(value) => self@.contains_key(id) && *value == self@[id],
                None => !self@.contains_key(id),
            },
    {
        buffers_get(self, id)
    }

    pub fn get_mut(&mut self, id: BufferId) -> (r: Option<&mut Buffer>)
        ensures
            match r {
                Some(value) => {
                    &&& old(self)@.contains_key(id)
                    &&& *value == old(self)@[id]
                    &&& final(self)@ == old(self)@.insert(id, *final(value))
                },
                None => !old(self)@.contains_key(id) && final(self)@ == old(self)@,
            },
    {
        buffers_get_mut(self, id)
    }

    pub fn remove(&mut self, id: BufferId) -> (r: Option<Buffer>)
        ensures
            r == (if old(self)@.contains_key(id) {
                Some(old(self)@[id])
            } else {
                None
            }),
            final(self)@ == old(self)@.remove(id),
            final(self)@.dom().finite(),
            final(self)@.len() <= old(self)@.len(),
    {
        let ghost before = self@;
        let r = buffers_remove(self, id);
        proof {
            if before.contains_key(id) {
                assert(before.dom() =~= self@.dom().insert(id));
            } else {
                assert(self@ =~= before);
            }
        }
        r
    }

    /// The handles in the order of their slots.
    pub fn keys(&self) -> (r: Vec<BufferId>)
        ensures
            r@ == self.order(),
            self.listed_by(r@),
            r@.no_duplicates(),
            self@.dom().finite(),
    {
        let r = buffers_keys(self);
        proof {
            self.order_is(r@);
        }
        r
    }
}

proof fn buffers_distinct(s: Seq<BufferId>)
    requires
        in_slot_order(s.map_values(|id: BufferId| id@)),
    ensures
        s.no_duplicates(),
{
    let bits = s.map_values(|id: BufferId| id@);
    assert forall|i: int, j: int| 0 <= i < s.len() && 0 <= j < s.len() && i != j implies s[i]
        != s[j] by {
        assert(bits[i] == s[i]@);
        assert(bits[j] == s[j]@);
    }
}

proof fn buffers_order_unique(s: Seq<BufferId>, t: Seq<BufferId>)
    requires
        in_slot_order(s.map_values(|id: BufferId| id@)),
        in_slot_order(t.map_values(|id: BufferId| id@)),
        forall|id: BufferId| #[trigger] s.contains(id) <==> t.contains(id),
    ensures
        s == t,
    decreases s.len(),
{
    let a = s.map_values(|id: BufferId| id@);
    let b = t.map_values(|id: BufferId| id@);
    if s.len() == 0 {
        if t.len() > 0 {
            assert(t.contains(t[0]));
            assert(s.contains(t[0]));
        }
        assert(s =~= t);
    } else {
        assert(s.contains(s.last()));
        assert(t.len() > 0);
        assert(t.contains(t.last()));
        assert(s.contains(t.last()));
        let i = choose|i: int| 0 <= i < s.len() && s[i] == t.last();
        let j = choose|j: int| 0 <= j < t.len() && t[j] == s.last();
        assert(a[i] == s[i]@ && a[s.len() - 1] == s.last()@);
        assert(b[j] == t[j]@ && b[t.len() - 1] == t.last()@);
        assert(s.last() == t.last());
        let s1 = s.drop_last();
        let t1 = t.drop_last();
        let a1 = s1.map_values(|id: BufferId| id@);
        let b1 = t1.map_values(|id: BufferId| id@);
        assert(a1 =~= a.drop_last());
        assert(b1 =~= b.drop_last());
        buffers_distinct(s);
        buffers_distinct(t);
        assert forall|id: BufferId| #[trigger] s1.contains(id) <==> t1.contains(id) by {
            if s1.contains(id) {
                let k = choose|k: int| 0 <= k < s1.len() && s1[k] == id;
                assert(s[k] == id);
                assert(s.contains(id));
                let m = choose|m: int| 0 <= m < t.len() && t[m] == id;
                assert(m != t.len() - 1);
                assert(t1[m] == id);
            }
            if t1.contains(id) {
                let k = choose|k: int| 0 <= k < t1.len() && t1[k] == id;
                assert(t[k] == id);
                assert(t.contains(id));
                assert(s.contains(id));
                let m = choose|m: int| 0 <= m < s.len() && s[m] == id;
                assert(m != s.len() - 1);
                assert(s1[m] == id);
            }
        }
        buffers_order_unique(s1, t1);
        assert(s =~= s1.push(s.last()));
        assert(t =~= t1.push(t.last()));
    }
}

} // verus!
