use vstd::prelude::*;
use crate::strings::{str_eq, Str};

verus! {

/// Keys of an associative array: compared by their view, copied on insertion.
pub trait MapKey: View + Sized {
    fn same_key(&self, other: &Self) -> (r: bool)
        ensures
            r == (self@ == other@);

    fn dup_key(&self) -> (r: Self)
        ensures
            r@ == self@;
}

/// Values of an associative array, with the default that a missing key reads as.
pub trait MapValue: View + Sized {
    spec fn default_view() -> Self::V;

    fn default_value() -> (r: Self)
        ensures
            r@ == Self::default_view();

    fn dup_value(&self) -> (r: Self)
        ensures
            r@ == self@;
}

impl MapKey for i64 {
    fn same_key(&self, other: &i64) -> (r: bool) {
        *self == *other
    }

    fn dup_key(&self) -> (r: i64) {
        *self
    }
}

impl MapKey for Str {
    fn same_key(&self, other: &Str) -> (r: bool) {
        str_eq(self, other) == 1
    }

    fn dup_key(&self) -> (r: Str) {
        self.dup()
    }
}

impl MapValue for i64 {
    open spec fn default_view() -> i64 {
        0
    }

    fn default_value() -> (r: i64) {
        0
    }

    fn dup_value(&self) -> (r: i64) {
        *self
    }
}

/// A floating-point value held by its IEEE-754 bit pattern; 0 is `0.0`.
impl MapValue for u64 {
    open spec fn default_view() -> u64 {
        0
    }

    fn default_value() -> (r: u64) {
        0
    }

    fn dup_value(&self) -> (r: u64) {
        *self
    }
}

impl MapValue for Str {
    open spec fn default_view() -> Seq<u8> {
        Seq::empty()
    }

    fn default_value() -> (r: Str) {
        Str::empty()
    }

    fn dup_value(&self) -> (r: Str) {
        self.dup()
    }
}

/// What a lookup reads: the stored value, or the default when the key is missing.
pub open spec fn lookup_or<K, V>(m: Map<K, V>, k: K, d: V) -> V {
    if m.contains_key(k) { m[k] } else { d }
}

/// An associative array with unique keys, kept as parallel key and value lists.
pub struct AssocMap<K: View, V: View> {
    keys: Vec<K>,
    vals: Vec<V>,
    contents: Ghost<Map<K::V, V::V>>,
}

impl<K: View, V: View> View for AssocMap<K, V> {
    type V = Map<K::V, V::V>;

    closed spec fn view(&self) -> Map<K::V, V::V> {
        self.contents@
    }
}

impl<K: MapKey, V: MapValue> AssocMap<K, V> {
    pub closed spec fn wf(&self) -> bool {
        &&& self.keys@.len() == self.vals@.len()
        &&& forall|i: int, j: int|
            0 <= i < j < self.keys@.len() ==> (#[trigger] self.keys@[i])@ != (#[trigger] self.keys@[j])@
        &&& forall|i: int|
            0 <= i < self.keys@.len() ==> self.contents@.contains_key(#[trigger] self.keys@[i]@)
                && self.contents@[self.keys@[i]@] == self.vals@[i]@
        &&& forall|k: K::V|
            #[trigger] self.contents@.contains_key(k) ==> exists|i: int|
                0 <= i < self.keys@.len() && (#[trigger] self.keys@[i])@ == k
        &&& self.contents@.dom().finite()
        &&& self.contents@.dom().len() == self.keys@.len()
    }

    pub fn new() -> (r: Self)
        ensures
            r.wf(),
            r@ == Map::<K::V, V::V>::empty(),
    {
        AssocMap { keys: Vec::new(), vals: Vec::new(), contents: Ghost(Map::empty()) }
    }

    pub fn len(&self) -> (r: usize)
        requires
            self.wf(),
        ensures
            r == self@.len(),
    {
        self.keys.len()
    }

    fn find(&self, k: &K) -> (r: Option<usize>)
        requires
            self.wf(),
        ensures
            match r {
                Some(i) => i < self.keys@.len() && self.keys@[i as int]@ == k@,
                None => !self@.contains_key(k@),
            },
    {
        let mut i: usize = 0;
        while i < self.keys.len()
            invariant
                self.wf(),
                i <= self.keys@.len(),
                forall|j: int| 0 <= j < i ==> (#[trigger] self.keys@[j])@ != k@,
            decreases self.keys@.len() - i,
        {
            if self.keys[i].same_key(k) {
                return Some(i);
            }
            i = i + 1;
        }
        None
    }

    pub fn contains(&self, k: &K) -> (r: bool)
        requires
            self.wf(),
        ensures
            r == self@.contains_key(k@),
    {
        match self.find(k) {
            Some(i) => {
                assert(self@.contains_key(self.keys@[i as int]@));
                true
            },
            None => false,
        }
    }

    /// The value under `k`, copied, or the default when `k` is missing.
    pub fn lookup(&self, k: &K) -> (r: V)
        requires
            self.wf(),
        ensures
            r@ == lookup_or(self@, k@, V::default_view()),
    {
        match self.find(k) {
            Some(i) => self.vals[i].dup_value(),
            None => V::default_value(),
        }
    }

    /// Maps `k` to `v`, replacing what `k` held.
    pub fn insert(&mut self, k: K, v: V)
        requires
            old(self).wf(),
        ensures
            final(self).wf(),
            final(self)@ == old(self)@.insert(k@, v@),
    {
        match self.find(&k) {
            Some(i) => {
                let ghost kv = k@;
                let ghost vv = v@;
                self.vals.set(i, v);
                self.contents = Ghost(self.contents@.insert(kv, vv));
                assert(self.contents@.dom() =~= old(self).contents@.dom());
                assert forall|k2: K::V| #[trigger] self.contents@.contains_key(k2) implies exists|j: int|
                    0 <= j < self.keys@.len() && (#[trigger] self.keys@[j])@ == k2 by {
                    if k2 != kv {
                        assert(old(self).contents@.contains_key(k2));
                        let j = choose|j: int|
                            0 <= j < old(self).keys@.len() && (#[trigger] old(self).keys@[j])@ == k2;
                        assert(self.keys@[j] == old(self).keys@[j]);
                    } else {
                        assert(self.keys@[i as int]@ == k2);
                    }
                }
            },
            None => {
                let ghost kv = k@;
                let ghost vv = v@;
                self.keys.push(k);
                self.vals.push(v);
                self.contents = Ghost(self.contents@.insert(kv, vv));
                let ghost n = old(self).keys@.len() as int;
                assert forall|i: int, j: int|
                    0 <= i < j < self.keys@.len() implies (#[trigger] self.keys@[i])@ != (
                    #[trigger] self.keys@[j])@ by {
                    if j == n {
                        assert(old(self).contents@.contains_key(old(self).keys@[i]@));
                    } else {
                        assert(old(self).keys@[i] == self.keys@[i]);
                        assert(old(self).keys@[j] == self.keys@[j]);
                    }
                }
                assert forall|i: int| 0 <= i < self.keys@.len() implies self.contents@.contains_key(
                    #[trigger] self.keys@[i]@,
                ) && self.contents@[self.keys@[i]@] == self.vals@[i]@ by {
                    if i < n {
                        assert(old(self).keys@[i] == self.keys@[i]);
                        assert(old(self).contents@.contains_key(old(self).keys@[i]@));
                    }
                }
                assert forall|k2: K::V| #[trigger] self.contents@.contains_key(k2) implies exists|j: int|
                    0 <= j < self.keys@.len() && (#[trigger] self.keys@[j])@ == k2 by {
                    if k2 != kv {
                        assert(old(self).contents@.contains_key(k2));
                        let j = choose|j: int| 0 <= j < n && (#[trigger] old(self).keys@[j])@ == k2;
                        assert(self.keys@[j] == old(self).keys@[j]);
                    } else {
                        assert(self.keys@[n]@ == k2);
                    }
                }
            },
        }
    }

    /// Removes the entry under `k`, if there is one.
    pub fn remove(&mut self, k: &K)
        requires
            old(self).wf(),
        ensures
            final(self).wf(),
            final(self)@ == old(self)@.remove(k@),
    {
        match self.find(k) {
            Some(i) => {
                let ghost kv = k@;
                self.keys.remove(i);
                self.vals.remove(i);
                self.contents = Ghost(self.contents@.remove(kv));
                let ghost n = old(self).keys@.len() as int;
                let ghost ok = old(self).keys@;
                assert forall|a: int, b: int|
                    0 <= a < b < self.keys@.len() implies (#[trigger] self.keys@[a])@ != (
                    #[trigger] self.keys@[b])@ by {
                    let oa = if a < i { a } else { a + 1 };
                    let ob = if b < i { b } else { b + 1 };
                    assert(self.keys@[a] == ok[oa]);
                    assert(self.keys@[b] == ok[ob]);
                    assert(ok[oa]@ != ok[ob]@);
                }
                assert forall|a: int| 0 <= a < self.keys@.len() implies self.contents@.contains_key(
                    #[trigger] self.keys@[a]@,
                ) && self.contents@[self.keys@[a]@] == self.vals@[a]@ by {
                    let oa = if a < i { a } else { a + 1 };
                    assert(self.keys@[a] == ok[oa]);
                    assert(self.vals@[a] == old(self).vals@[oa]);
                    assert(ok[oa]@ != ok[i as int]@);
                    assert(old(self).contents@.contains_key(ok[oa]@));
                }
                assert forall|k2: K::V| #[trigger] self.contents@.contains_key(k2) implies exists|j: int|
                    0 <= j < self.keys@.len() && (#[trigger] self.keys@[j])@ == k2 by {
                    assert(old(self).contents@.contains_key(k2));
                    let j = choose|j: int| 0 <= j < n && (#[trigger] ok[j])@ == k2;
                    assert(j != i);
                    if j < i {
                        assert(self.keys@[j] == ok[j]);
                    } else {
                        assert(self.keys@[j - 1] == ok[j]);
                    }
                }
            },
            None => {
                assert(self.contents@.remove(k@) =~= self.contents@);
            },
        }
    }
}

/// The six key and value combinations of an associative array.
#[derive(PartialEq, Eq, Structural, Clone, Copy, Debug)]
pub enum MapKind {
    IntInt,
    IntFloat,
    IntStr,
    StrInt,
    StrFloat,
    StrStr,
}

/// The contents behind a handle; `Freed` once the last reference is gone.
/// Float values are held as IEEE-754 bit patterns.
pub enum MapData {
    IntInt(AssocMap<i64, i64>),
    IntFloat(AssocMap<i64, u64>),
    IntStr(AssocMap<i64, Str>),
    StrInt(AssocMap<Str, i64>),
    StrFloat(AssocMap<Str, u64>),
    StrStr(AssocMap<Str, Str>),
    Freed,
}

impl MapData {
    pub open spec fn kind(&self) -> Option<MapKind> {
        match self {
            MapData::IntInt(_) => Some(MapKind::IntInt),
            MapData::IntFloat(_) => Some(MapKind::IntFloat),
            MapData::IntStr(_) => Some(MapKind::IntStr),
            MapData::StrInt(_) => Some(MapKind::StrInt),
            MapData::StrFloat(_) => Some(MapKind::StrFloat),
            MapData::StrStr(_) => Some(MapKind::StrStr),
            MapData::Freed => None,
        }
    }

    pub open spec fn wf(&self) -> bool {
        match self {
            MapData::IntInt(m) => m.wf(),
            MapData::IntFloat(m) => m.wf(),
            MapData::IntStr(m) => m.wf(),
            MapData::StrInt(m) => m.wf(),
            MapData::StrFloat(m) => m.wf(),
            MapData::StrStr(m) => m.wf(),
            MapData::Freed => true,
        }
    }
}

/// A reference count and the contents it guards: the same header for every kind,
/// so that taking and releasing a reference need not know the kind.
pub struct MapSlot {
    pub refs: u64,
    pub data: MapData,
}

/// One reference more to the map behind `h`.
pub open spec fn bump(v: Seq<MapSlot>, h: int) -> Seq<MapSlot> {
    v.update(h, MapSlot { refs: (v[h].refs + 1) as u64, data: v[h].data })
}

/// One reference less to the map behind `h`; the last one frees the contents.
pub open spec fn release(v: Seq<MapSlot>, h: int) -> Seq<MapSlot> {
    if v[h].refs <= 1 {
        v.update(h, MapSlot { refs: 0, data: MapData::Freed })
    } else {
        v.update(h, MapSlot { refs: (v[h].refs - 1) as u64, data: v[h].data })
    }
}

/// `n` releases of the map behind `h`, one after the other.
pub open spec fn release_times(v: Seq<MapSlot>, h: int, n: nat) -> Seq<MapSlot>
    decreases n,
{
    if n == 0 {
        v
    } else {
        release(release_times(v, h, (n - 1) as nat), h)
    }
}

/// The store of all associative arrays; a handle is an index into it.
pub struct MapHeap {
    slots: Vec<MapSlot>,
}

impl View for MapHeap {
    type V = Seq<MapSlot>;

    closed spec fn view(&self) -> Seq<MapSlot> {
        self.slots@
    }
}

impl MapHeap {
    pub open spec fn wf(&self) -> bool {
        forall|g: int|
            0 <= g < self@.len() ==> ((#[trigger] self@[g]).refs == 0) == (self@[g].data is Freed)
                && self@[g].data.wf()
    }

    /// The handle names a map that still has a reference.
    pub open spec fn live(&self, h: int) -> bool {
        0 <= h < self@.len() && self@[h].refs > 0
    }

    pub open spec fn kind(&self, h: int) -> Option<MapKind> {
        if 0 <= h < self@.len() {
            self@[h].data.kind()
        } else {
            None
        }
    }

    /// Every other handle, and the count of `h`, are as in `prev`.
    pub open spec fn others_kept(&self, prev: &MapHeap, h: int) -> bool {
        &&& self@.len() == prev@.len()
        &&& self@[h].refs == prev@[h].refs
        &&& self.kind(h) == prev.kind(h)
        &&& forall|g: int| 0 <= g < self@.len() && g != h ==> #[trigger] self@[g] == prev@[g]
    }

    /// A new handle was added after the existing ones, which are unchanged.
    pub open spec fn grown_from(&self, prev: &MapHeap, h: int) -> bool {
        &&& h == prev@.len()
        &&& self@.len() == prev@.len() + 1
        &&& self@[h].refs == 1
        &&& forall|g: int| 0 <= g < prev@.len() ==> #[trigger] self@[g] == prev@[g]
    }

    pub fn new() -> (r: MapHeap)
        ensures
            r.wf(),
            r@.len() == 0,
    {
        MapHeap { slots: Vec::new() }
    }

    /// The kind of the map behind `h`, or `None` if `h` names no live map.
    pub fn kind_of(&self, h: usize) -> (r: Option<MapKind>)
        requires
            self.wf(),
        ensures
            r == (if self.live(h as int) { self.kind(h as int) } else { None }),
    {
        if h < self.slots.len() && self.slots[h].refs > 0 {
            match &self.slots[h].data {
                MapData::IntInt(_) => Some(MapKind::IntInt),
                MapData::IntFloat(_) => Some(MapKind::IntFloat),
                MapData::IntStr(_) => Some(MapKind::IntStr),
                MapData::StrInt(_) => Some(MapKind::StrInt),
                MapData::StrFloat(_) => Some(MapKind::StrFloat),
                MapData::StrStr(_) => Some(MapKind::StrStr),
                MapData::Freed => None,
            }
        } else {
            None
        }
    }

    /// The reference count of `h`, 0 once it is freed or if it was never handed out.
    pub fn ref_count(&self, h: usize) -> (r: u64)
        ensures
            r == (if h < self@.len() { self@[h as int].refs } else { 0 }),
    {
        if h < self.slots.len() { self.slots[h].refs } else { 0 }
    }

    fn add_slot(&mut self, data: MapData) -> (h: usize)
        requires
            old(self).wf(),
            data.wf(),
            data.kind() is Some,
        ensures
            final(self).wf(),
            final(self).grown_from(old(self), h as int),
            final(self)@[h as int].data == data,
    {
        let h = self.slots.len();
        self.slots.push(MapSlot { refs: 1, data });
        h
    }
}

/// Takes one more reference to the map behind `h`, whatever its kind.
pub fn ref_map(maps: &mut MapHeap, h: usize)
    requires
        old(maps).wf(),
        old(maps).live(h as int),
        old(maps)@[h as int].refs < u64::MAX,
    ensures
        final(maps).wf(),
        final(maps)@ == bump(old(maps)@, h as int),
{
    let n = maps.slots[h].refs;
    maps.slots[h].refs = n + 1;
    assert(maps@ =~= bump(old(maps)@, h as int));
}

/// Releases one reference to the map behind `h`; the last one frees the contents.
pub fn drop_map(maps: &mut MapHeap, h: usize)
    requires
        old(maps).wf(),
        old(maps).live(h as int),
    ensures
        final(maps).wf(),
        final(maps)@ == release(old(maps)@, h as int),
{
    let n = maps.slots[h].refs;
    if n <= 1 {
        maps.slots[h] = MapSlot { refs: 0, data: MapData::Freed };
    } else {
        maps.slots[h].refs = n - 1;
    }
    assert(maps@ =~= release(old(maps)@, h as int));
}

/// A reference taken and then released leaves every map as it was.
pub proof fn lemma_ref_then_drop(v: Seq<MapSlot>, h: int)
    requires
        0 <= h < v.len(),
        1 <= v[h].refs < u64::MAX,
    ensures
        release(bump(v, h), h) == v,
{
    assert(release(bump(v, h), h) =~= v);
}

/// Releasing a map as many times as it has references frees it, and touches
/// no other map.
pub proof fn lemma_last_release_frees(v: Seq<MapSlot>, h: int)
    requires
        0 <= h < v.len(),
        v[h].refs >= 1,
    ensures
        release_times(v, h, v[h].refs as nat)[h].refs == 0,
        release_times(v, h, v[h].refs as nat)[h].data is Freed,
        release_times(v, h, v[h].refs as nat).len() == v.len(),
        forall|g: int|
            0 <= g < v.len() && g != h ==> #[trigger] release_times(v, h, v[h].refs as nat)[g] == v[g],
{
    lemma_release_times(v, h, v[h].refs as nat);
}

proof fn lemma_release_times(v: Seq<MapSlot>, h: int, n: nat)
    requires
        0 <= h < v.len(),
        n <= v[h].refs,
    ensures
        release_times(v, h, n).len() == v.len(),
        release_times(v, h, n)[h].refs == v[h].refs - n,
        n < v[h].refs ==> release_times(v, h, n)[h].data == v[h].data,
        n == v[h].refs && n > 0 ==> release_times(v, h, n)[h].data is Freed,
        forall|g: int| 0 <= g < v.len() && g != h ==> #[trigger] release_times(v, h, n)[g] == v[g],
    decreases n,
{
    if n > 0 {
        lemma_release_times(v, h, (n - 1) as nat);
    }
}


impl MapHeap {
    /// The contents of the integer-keyed integer-valued map behind `h`.
    pub open spec fn intint(&self, h: int) -> Map<i64, i64> {
        match self@[h].data {
            MapData::IntInt(m) => m@,
            _ => Map::empty(),
        }
    }
}

/// A new empty map with a integer key and a integer value, with one reference.
pub fn alloc_intint(maps: &mut MapHeap) -> (h: usize)
    requires
        old(maps).wf(),
    ensures
        final(maps).wf(),
        final(maps).grown_from(old(maps), h as int),
        final(maps).kind(h as int) == Some(MapKind::IntInt),
        final(maps).intint(h as int) == Map::<i64, i64>::empty(),
{
    maps.add_slot(MapData::IntInt(AssocMap::new()))
}

/// The number of keys in the map.
pub fn len_intint(maps: &MapHeap, h: usize) -> (r: i64)
    requires
        maps.wf(),
        maps.live(h as int),
        maps.kind(h as int) == Some(MapKind::IntInt),
        maps.intint(h as int).len() <= i64::MAX,
    ensures
        r as int == maps.intint(h as int).len(),
{
    match &maps.slots[h].data {
        MapData::IntInt(m) => m.len() as i64,
        _ => 0,
    }
}

/// The value under `k`, or the default when `k` is missing; nothing is inserted.
pub fn lookup_intint(maps: &MapHeap, h: usize, k: i64) -> (r: i64)
    requires
        maps.wf(),
        maps.live(h as int),
        maps.kind(h as int) == Some(MapKind::IntInt),
    ensures
        r == lookup_or(maps.intint(h as int), k, 0i64),
{
    match &maps.slots[h].data {
        MapData::IntInt(m) => m.lookup(&k),
        _ => 0,
    }
}

/// 1 when the map holds `k`, else 0.
pub fn contains_intint(maps: &MapHeap, h: usize, k: i64) -> (r: i64)
    requires
        maps.wf(),
        maps.live(h as int),
        maps.kind(h as int) == Some(MapKind::IntInt),
    ensures
        r == (if maps.intint(h as int).contains_key(k) { 1i64 } else { 0i64 }),
{
    match &maps.slots[h].data {
        MapData::IntInt(m) => if m.contains(&k) { 1 } else { 0 },
        _ => 0,
    }
}

/// Maps `k` to `v`, replacing what `k` held; key and value are copied.
pub fn insert_intint(maps: &mut MapHeap, h: usize, k: i64, v: i64)
    requires
        old(maps).wf(),
        old(maps).live(h as int),
        old(maps).kind(h as int) == Some(MapKind::IntInt),
    ensures
        final(maps).wf(),
        final(maps).others_kept(old(maps), h as int),
        final(maps).intint(h as int) == old(maps).intint(h as int).insert(k, v),
{
    match &mut maps.slots[h].data {
        MapData::IntInt(m) => m.insert(k, v),
        _ => {},
    }
}

/// Removes `k` from the map; nothing happens when it is missing.
pub fn delete_intint(maps: &mut MapHeap, h: usize, k: i64)
    requires
        old(maps).wf(),
        old(maps).live(h as int),
        old(maps).kind(h as int) == Some(MapKind::IntInt),
    ensures
        final(maps).wf(),
        final(maps).others_kept(old(maps), h as int),
        final(maps).intint(h as int) == old(maps).intint(h as int).remove(k),
{
    match &mut maps.slots[h].data {
        MapData::IntInt(m) => m.remove(&k),
        _ => {},
    }
}

impl MapHeap {
    /// The contents of the integer-keyed float (as its bit pattern)-valued map behind `h`.
    pub open spec fn intfloat(&self, h: int) -> Map<i64, u64> {
        match self@[h].data {
            MapData::IntFloat(m) => m@,
            _ => Map::empty(),
        }
    }
}

/// A new empty map with a integer key and a float (as its bit pattern) value, with one reference.
pub fn alloc_intfloat(maps: &mut MapHeap) -> (h: usize)
    requires
        old(maps).wf(),
    ensures
        final(maps).wf(),
        final(maps).grown_from(old(maps), h as int),
        final(maps).kind(h as int) == Some(MapKind::IntFloat),
        final(maps).intfloat(h as int) == Map::<i64, u64>::empty(),
{
    maps.add_slot(MapData::IntFloat(AssocMap::new()))
}

/// The number of keys in the map.
pub fn len_intfloat(maps: &MapHeap, h: usize) -> (r: i64)
    requires
        maps.wf(),
        maps.live(h as int),
        maps.kind(h as int) == Some(MapKind::IntFloat),
        maps.intfloat(h as int).len() <= i64::MAX,
    ensures
        r as int == maps.intfloat(h as int).len(),
{
    match &maps.slots[h].data {
        MapData::IntFloat(m) => m.len() as i64,
        _ => 0,
    }
}

/// The value under `k`, or the default when `k` is missing; nothing is inserted.
pub fn lookup_intfloat(maps: &MapHeap, h: usize, k: i64) -> (r: u64)
    requires
        maps.wf(),
        maps.live(h as int),
        maps.kind(h as int) == Some(MapKind::IntFloat),
    ensures
        r == lookup_or(maps.intfloat(h as int), k, 0u64),
{
    match &maps.slots[h].data {
        MapData::IntFloat(m) => m.lookup(&k),
        _ => 0,
    }
}

/// 1 when the map holds `k`, else 0.
pub fn contains_intfloat(maps: &MapHeap, h: usize, k: i64) -> (r: i64)
    requires
        maps.wf(),
        maps.live(h as int),
        maps.kind(h as int) == Some(MapKind::IntFloat),
    ensures
        r == (if maps.intfloat(h as int).contains_key(k) { 1i64 } else { 0i64 }),
{
    match &maps.slots[h].data {
        MapData::IntFloat(m) => if m.contains(&k) { 1 } else { 0 },
        _ => 0,
    }
}

/// Maps `k` to `v`, replacing what `k` held; key and value are copied.
pub fn insert_intfloat(maps: &mut MapHeap, h: usize, k: i64, v: u64)
    requires
        old(maps).wf(),
        old(maps).live(h as int),
        old(maps).kind(h as int) == Some(MapKind::IntFloat),
    ensures
        final(maps).wf(),
        final(maps).others_kept(old(maps), h as int),
        final(maps).intfloat(h as int) == old(maps).intfloat(h as int).insert(k, v),
{
    match &mut maps.slots[h].data {
        MapData::IntFloat(m) => m.insert(k, v),
        _ => {},
    }
}

/// Removes `k` from the map; nothing happens when it is missing.
pub fn delete_intfloat(maps: &mut MapHeap, h: usize, k: i64)
    requires
        old(maps).wf(),
        old(maps).live(h as int),
        old(maps).kind(h as int) == Some(MapKind::IntFloat),
    ensures
        final(maps).wf(),
        final(maps).others_kept(old(maps), h as int),
        final(maps).intfloat(h as int) == old(maps).intfloat(h as int).remove(k),
{
    match &mut maps.slots[h].data {
        MapData::IntFloat(m) => m.remove(&k),
        _ => {},
    }
}

impl MapHeap {
    /// The contents of the integer-keyed string-valued map behind `h`.
    pub open spec fn intstr(&self, h: int) -> Map<i64, Seq<u8>> {
        match self@[h].data {
            MapData::IntStr(m) => m@,
            _ => Map::empty(),
        }
    }
}

/// A new empty map with a integer key and a string value, with one reference.
pub fn alloc_intstr(maps: &mut MapHeap) -> (h: usize)
    requires
        old(maps).wf(),
    ensures
        final(maps).wf(),
        final(maps).grown_from(old(maps), h as int),
        final(maps).kind(h as int) == Some(MapKind::IntStr),
        final(maps).intstr(h as int) == Map::<i64, Seq<u8>>::empty(),
{
    maps.add_slot(MapData::IntStr(AssocMap::new()))
}

/// The number of keys in the map.
pub fn len_intstr(maps: &MapHeap, h: usize) -> (r: i64)
    requires
        maps.wf(),
        maps.live(h as int),
        maps.kind(h as int) == Some(MapKind::IntStr),
        maps.intstr(h as int).len() <= i64::MAX,
    ensures
        r as int == maps.intstr(h as int).len(),
{
    match &maps.slots[h].data {
        MapData::IntStr(m) => m.len() as i64,
        _ => 0,
    }
}

/// The value under `k`, or the default when `k` is missing; nothing is inserted.
pub fn lookup_intstr(maps: &MapHeap, h: usize, k: i64) -> (r: Str)
    requires
        maps.wf(),
        maps.live(h as int),
        maps.kind(h as int) == Some(MapKind::IntStr),
    ensures
        r@ == lookup_or(maps.intstr(h as int), k, Seq::<u8>::empty()),
{
    match &maps.slots[h].data {
        MapData::IntStr(m) => m.lookup(&k),
        _ => Str::empty(),
    }
}

/// 1 when the map holds `k`, else 0.
pub fn contains_intstr(maps: &MapHeap, h: usize, k: i64) -> (r: i64)
    requires
        maps.wf(),
        maps.live(h as int),
        maps.kind(h as int) == Some(MapKind::IntStr),
    ensures
        r == (if maps.intstr(h as int).contains_key(k) { 1i64 } else { 0i64 }),
{
    match &maps.slots[h].data {
        MapData::IntStr(m) => if m.contains(&k) { 1 } else { 0 },
        _ => 0,
    }
}

/// Maps `k` to `v`, replacing what `k` held; key and value are copied.
pub fn insert_intstr(maps: &mut MapHeap, h: usize, k: i64, v: &Str)
    requires
        old(maps).wf(),
        old(maps).live(h as int),
        old(maps).kind(h as int) == Some(MapKind::IntStr),
    ensures
        final(maps).wf(),
        final(maps).others_kept(old(maps), h as int),
        final(maps).intstr(h as int) == old(maps).intstr(h as int).insert(k, v@),
{
    match &mut maps.slots[h].data {
        MapData::IntStr(m) => m.insert(k, v.dup()),
        _ => {},
    }
}

/// Removes `k` from the map; nothing happens when it is missing.
pub fn delete_intstr(maps: &mut MapHeap, h: usize, k: i64)
    requires
        old(maps).wf(),
        old(maps).live(h as int),
        old(maps).kind(h as int) == Some(MapKind::IntStr),
    ensures
        final(maps).wf(),
        final(maps).others_kept(old(maps), h as int),
        final(maps).intstr(h as int) == old(maps).intstr(h as int).remove(k),
{
    match &mut maps.slots[h].data {
        MapData::IntStr(m) => m.remove(&k),
        _ => {},
    }
}

impl MapHeap {
    /// The contents of the string-keyed integer-valued map behind `h`.
    pub open spec fn strint(&self, h: int) -> Map<Seq<u8>, i64> {
        match self@[h].data {
            MapData::StrInt(m) => m@,
            _ => Map::empty(),
        }
    }
}

/// A new empty map with a string key and a integer value, with one reference.
pub fn alloc_strint(maps: &mut MapHeap) -> (h: usize)
    requires
        old(maps).wf(),
    ensures
        final(maps).wf(),
        final(maps).grown_from(old(maps), h as int),
        final(maps).kind(h as int) == Some(MapKind::StrInt),
        final(maps).strint(h as int) == Map::<Seq<u8>, i64>::empty(),
{
    maps.add_slot(MapData::StrInt(AssocMap::new()))
}

/// The number of keys in the map.
pub fn len_strint(maps: &MapHeap, h: usize) -> (r: i64)
    requires
        maps.wf(),
        maps.live(h as int),
        maps.kind(h as int) == Some(MapKind::StrInt),
        maps.strint(h as int).len() <= i64::MAX,
    ensures
        r as int == maps.strint(h as int).len(),
{
    match &maps.slots[h].data {
        MapData::StrInt(m) => m.len() as i64,
        _ => 0,
    }
}

/// The value under `k`, or the default when `k` is missing; nothing is inserted.
pub fn lookup_strint(maps: &MapHeap, h: usize, k: &Str) -> (r: i64)
    requires
        maps.wf(),
        maps.live(h as int),
        maps.kind(h as int) == Some(MapKind::StrInt),
    ensures
        r == lookup_or(maps.strint(h as int), k@, 0i64),
{
    match &maps.slots[h].data {
        MapData::StrInt(m) => m.lookup(k),
        _ => 0,
    }
}

/// 1 when the map holds `k`, else 0.
pub fn contains_strint(maps: &MapHeap, h: usize, k: &Str) -> (r: i64)
    requires
        maps.wf(),
        maps.live(h as int),
        maps.kind(h as int) == Some(MapKind::StrInt),
    ensures
        r == (if maps.strint(h as int).contains_key(k@) { 1i64 } else { 0i64 }),
{
    match &maps.slots[h].data {
        MapData::StrInt(m) => if m.contains(k) { 1 } else { 0 },
        _ => 0,
    }
}

/// Maps `k` to `v`, replacing what `k` held; key and value are copied.
pub fn insert_strint(maps: &mut MapHeap, h: usize, k: &Str, v: i64)
    requires
        old(maps).wf(),
        old(maps).live(h as int),
        old(maps).kind(h as int) == Some(MapKind::StrInt),
    ensures
        final(maps).wf(),
        final(maps).others_kept(old(maps), h as int),
        final(maps).strint(h as int) == old(maps).strint(h as int).insert(k@, v),
{
    match &mut maps.slots[h].data {
        MapData::StrInt(m) => m.insert(k.dup(), v),
        _ => {},
    }
}

/// Removes `k` from the map; nothing happens when it is missing.
pub fn delete_strint(maps: &mut MapHeap, h: usize, k: &Str)
    requires
        old(maps).wf(),
        old(maps).live(h as int),
        old(maps).kind(h as int) == Some(MapKind::StrInt),
    ensures
        final(maps).wf(),
        final(maps).others_kept(old(maps), h as int),
        final(maps).strint(h as int) == old(maps).strint(h as int).remove(k@),
{
    match &mut maps.slots[h].data {
        MapData::StrInt(m) => m.remove(k),
        _ => {},
    }
}

impl MapHeap {
    /// The contents of the string-keyed float (as its bit pattern)-valued map behind `h`.
    pub open spec fn strfloat(&self, h: int) -> Map<Seq<u8>, u64> {
        match self@[h].data {
            MapData::StrFloat(m) => m@,
            _ => Map::empty(),
        }
    }
}

/// A new empty map with a string key and a float (as its bit pattern) value, with one reference.
pub fn alloc_strfloat(maps: &mut MapHeap) -> (h: usize)
    requires
        old(maps).wf(),
    ensures
        final(maps).wf(),
        final(maps).grown_from(old(maps), h as int),
        final(maps).kind(h as int) == Some(MapKind::StrFloat),
        final(maps).strfloat(h as int) == Map::<Seq<u8>, u64>::empty(),
{
    maps.add_slot(MapData::StrFloat(AssocMap::new()))
}

/// The number of keys in the map.
pub fn len_strfloat(maps: &MapHeap, h: usize) -> (r: i64)
    requires
        maps.wf(),
        maps.live(h as int),
        maps.kind(h as int) == Some(MapKind::StrFloat),
        maps.strfloat(h as int).len() <= i64::MAX,
    ensures
        r as int == maps.strfloat(h as int).len(),
{
    match &maps.slots[h].data {
        MapData::StrFloat(m) => m.len() as i64,
        _ => 0,
    }
}

/// The value under `k`, or the default when `k` is missing; nothing is inserted.
pub fn lookup_strfloat(maps: &MapHeap, h: usize, k: &Str) -> (r: u64)
    requires
        maps.wf(),
        maps.live(h as int),
        maps.kind(h as int) == Some(MapKind::StrFloat),
    ensures
        r == lookup_or(maps.strfloat(h as int), k@, 0u64),
{
    match &maps.slots[h].data {
        MapData::StrFloat(m) => m.lookup(k),
        _ => 0,
    }
}

/// 1 when the map holds `k`, else 0.
pub fn contains_strfloat(maps: &MapHeap, h: usize, k: &Str) -> (r: i64)
    requires
        maps.wf(),
        maps.live(h as int),
        maps.kind(h as int) == Some(MapKind::StrFloat),
    ensures
        r == (if maps.strfloat(h as int).contains_key(k@) { 1i64 } else { 0i64 }),
{
    match &maps.slots[h].data {
        MapData::StrFloat(m) => if m.contains(k) { 1 } else { 0 },
        _ => 0,
    }
}

/// Maps `k` to `v`, replacing what `k` held; key and value are copied.
pub fn insert_strfloat(maps: &mut MapHeap, h: usize, k: &Str, v: u64)
    requires
        old(maps).wf(),
        old(maps).live(h as int),
        old(maps).kind(h as int) == Some(MapKind::StrFloat),
    ensures
        final(maps).wf(),
        final(maps).others_kept(old(maps), h as int),
        final(maps).strfloat(h as int) == old(maps).strfloat(h as int).insert(k@, v),
{
    match &mut maps.slots[h].data {
        MapData::StrFloat(m) => m.insert(k.dup(), v),
        _ => {},
    }
}

/// Removes `k` from the map; nothing happens when it is missing.
pub fn delete_strfloat(maps: &mut MapHeap, h: usize, k: &Str)
    requires
        old(maps).wf(),
        old(maps).live(h as int),
        old(maps).kind(h as int) == Some(MapKind::StrFloat),
    ensures
        final(maps).wf(),
        final(maps).others_kept(old(maps), h as int),
        final(maps).strfloat(h as int) == old(maps).strfloat(h as int).remove(k@),
{
    match &mut maps.slots[h].data {
        MapData::StrFloat(m) => m.remove(k),
        _ => {},
    }
}

impl MapHeap {
    /// The contents of the string-keyed string-valued map behind `h`.
    pub open spec fn strstr(&self, h: int) -> Map<Seq<u8>, Seq<u8>> {
        match self@[h].data {
            MapData::StrStr(m) => m@,
            _ => Map::empty(),
        }
    }
}

/// A new empty map with a string key and a string value, with one reference.
pub fn alloc_strstr(maps: &mut MapHeap) -> (h: usize)
    requires
        old(maps).wf(),
    ensures
        final(maps).wf(),
        final(maps).grown_from(old(maps), h as int),
        final(maps).kind(h as int) == Some(MapKind::StrStr),
        final(maps).strstr(h as int) == Map::<Seq<u8>, Seq<u8>>::empty(),
{
    maps.add_slot(MapData::StrStr(AssocMap::new()))
}

/// The number of keys in the map.
pub fn len_strstr(maps: &MapHeap, h: usize) -> (r: i64)
    requires
        maps.wf(),
        maps.live(h as int),
        maps.kind(h as int) == Some(MapKind::StrStr),
        maps.strstr(h as int).len() <= i64::MAX,
    ensures
        r as int == maps.strstr(h as int).len(),
{
    match &maps.slots[h].data {
        MapData::StrStr(m) => m.len() as i64,
        _ => 0,
    }
}

/// The value under `k`, or the default when `k` is missing; nothing is inserted.
pub fn lookup_strstr(maps: &MapHeap, h: usize, k: &Str) -> (r: Str)
    requires
        maps.wf(),
        maps.live(h as int),
        maps.kind(h as int) == Some(MapKind::StrStr),
    ensures
        r@ == lookup_or(maps.strstr(h as int), k@, Seq::<u8>::empty()),
{
    match &maps.slots[h].data {
        MapData::StrStr(m) => m.lookup(k),
        _ => Str::empty(),
    }
}

/// 1 when the map holds `k`, else 0.
pub fn contains_strstr(maps: &MapHeap, h: usize, k: &Str) -> (r: i64)
    requires
        maps.wf(),
        maps.live(h as int),
        maps.kind(h as int) == Some(MapKind::StrStr),
    ensures
        r == (if maps.strstr(h as int).contains_key(k@) { 1i64 } else { 0i64 }),
{
    match &maps.slots[h].data {
        MapData::StrStr(m) => if m.contains(k) { 1 } else { 0 },
        _ => 0,
    }
}

/// Maps `k` to `v`, replacing what `k` held; key and value are copied.
pub fn insert_strstr(maps: &mut MapHeap, h: usize, k: &Str, v: &Str)
    requires
        old(maps).wf(),
        old(maps).live(h as int),
        old(maps).kind(h as int) == Some(MapKind::StrStr),
    ensures
        final(maps).wf(),
        final(maps).others_kept(old(maps), h as int),
        final(maps).strstr(h as int) == old(maps).strstr(h as int).insert(k@, v@),
{
    match &mut maps.slots[h].data {
        MapData::StrStr(m) => m.insert(k.dup(), v.dup()),
        _ => {},
    }
}

/// Removes `k` from the map; nothing happens when it is missing.
pub fn delete_strstr(maps: &mut MapHeap, h: usize, k: &Str)
    requires
        old(maps).wf(),
        old(maps).live(h as int),
        old(maps).kind(h as int) == Some(MapKind::StrStr),
    ensures
        final(maps).wf(),
        final(maps).others_kept(old(maps), h as int),
        final(maps).strstr(h as int) == old(maps).strstr(h as int).remove(k@),
{
    match &mut maps.slots[h].data {
        MapData::StrStr(m) => m.remove(k),
        _ => {},
    }
}

/// One update of an associative array.
pub enum MapOp<K, V> {
    Insert(K, V),
    Delete(K),
}

pub open spec fn apply_op<K, V>(m: Map<K, V>, op: MapOp<K, V>) -> Map<K, V> {
    match op {
        MapOp::Insert(k, v) => m.insert(k, v),
        MapOp::Delete(k) => m.remove(k),
    }
}

/// The updates applied in order.
pub open spec fn apply_ops<K, V>(m: Map<K, V>, ops: Seq<MapOp<K, V>>) -> Map<K, V>
    decreases ops.len(),
{
    if ops.len() == 0 {
        m
    } else {
        apply_op(apply_ops(m, ops.drop_last()), ops.last())
    }
}

pub open spec fn inserts<K, V>(op: MapOp<K, V>, k: K) -> bool {
    match op {
        MapOp::Insert(k2, _) => k2 == k,
        MapOp::Delete(_) => false,
    }
}

pub open spec fn deletes<K, V>(op: MapOp<K, V>, k: K) -> bool {
    match op {
        MapOp::Insert(_, _) => false,
        MapOp::Delete(k2) => k2 == k,
    }
}

/// Some update inserts `k` and none after it deletes `k`.
pub open spec fn inserted_since_delete<K, V>(ops: Seq<MapOp<K, V>>, k: K) -> bool {
    exists|i: int|
        0 <= i < ops.len() && #[trigger] inserts(ops[i], k) && forall|j: int|
            i < j < ops.len() ==> !#[trigger] deletes(ops[j], k)
}

/// Starting from a new map, a key is present after a run of inserts and deletes
/// exactly when it was inserted and not deleted afterwards. Each `insert_*` and
/// `delete_*` applies one such update to the contents of its handle, and
/// `contains_*` reads presence from them.
pub proof fn lemma_contains_iff_inserted<K, V>(ops: Seq<MapOp<K, V>>, k: K)
    ensures
        apply_ops(Map::<K, V>::empty(), ops).contains_key(k) == inserted_since_delete(ops, k),
    decreases ops.len(),
{
    if ops.len() > 0 {
        let pre = ops.drop_last();
        let n = ops.len() - 1;
        lemma_contains_iff_inserted(pre, k);
        if inserts(ops.last(), k) {
            assert(inserts(ops[n], k));
        } else if deletes(ops.last(), k) {
            if inserted_since_delete(ops, k) {
                let i = choose|i: int|
                    0 <= i < ops.len() && #[trigger] inserts(ops[i], k) && forall|j: int|
                        i < j < ops.len() ==> !#[trigger] deletes(ops[j], k);
                assert(i != n);
                assert(deletes(ops[n], k));
            }
        } else {
            let m = apply_ops(Map::<K, V>::empty(), pre);
            assert(apply_ops(Map::<K, V>::empty(), ops).contains_key(k) == m.contains_key(k));
            if inserted_since_delete(pre, k) {
                let i = choose|i: int|
                    0 <= i < pre.len() && #[trigger] inserts(pre[i], k) && forall|j: int|
                        i < j < pre.len() ==> !#[trigger] deletes(pre[j], k);
                assert(inserts(ops[i], k));
                assert forall|j: int| i < j < ops.len() implies !#[trigger] deletes(ops[j], k) by {
                    if j < n {
                        assert(ops[j] == pre[j]);
                    }
                }
            }
            if inserted_since_delete(ops, k) {
                let i = choose|i: int|
                    0 <= i < ops.len() && #[trigger] inserts(ops[i], k) && forall|j: int|
                        i < j < ops.len() ==> !#[trigger] deletes(ops[j], k);
                assert(i != n);
                assert(inserts(pre[i], k));
                assert forall|j: int| i < j < pre.len() implies !#[trigger] deletes(pre[j], k) by {
                    assert(ops[j] == pre[j]);
                    assert(!deletes(ops[j], k));
                }
            }
        }
    }
}

/// Every map in the store holds finitely many keys.
pub proof fn lemma_contents_finite(maps: &MapHeap, h: int)
    requires
        maps.wf(),
        0 <= h < maps@.len(),
    ensures
        maps.intint(h).dom().finite(),
        maps.intfloat(h).dom().finite(),
        maps.intstr(h).dom().finite(),
        maps.strint(h).dom().finite(),
        maps.strfloat(h).dom().finite(),
        maps.strstr(h).dom().finite(),
{
    assert(maps@[h].data.wf());
}

} // verus!
