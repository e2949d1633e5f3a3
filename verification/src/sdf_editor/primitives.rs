use std::collections::HashMap;
use rand::rngs::{OsRng, StdRng};
use rand::{Rng, SeedableRng};
use vstd::prelude::*;
use crate::text::{decimal, push_decimal};

verus! {

broadcast use vstd::std_specs::hash::group_hash_axioms;

/// Drag speeds for the editor's number fields, as `f32` bit patterns
/// (`0.001`, `0.01` and `0.1`).
pub const S1: u32 = 0x3a83126f;
pub const S2: u32 = 0x3c23d70a;
pub const S3: u32 = 0x3dcccccd;

/// `f32` bit patterns used by the scene's default values.
pub const F32_ZERO: u32 = 0x0000_0000;
pub const F32_ONE: u32 = 0x3f80_0000;
pub const F32_TEN: u32 = 0x4120_0000;
pub const F32_ONE_POINT_THREE: u32 = 0x3fa6_6666;
pub const F32_MAX_BITS: u32 = 0x7f7f_ffff;
pub const F32_NEG_MAX_BITS: u32 = 0xff7f_ffff;
/// The placeholder value (`6969.69`) that occupies slot 0 of a freshly reset data array.
pub const DATA_PLACEHOLDER: u32 = 0x45d9_cd85;

/// `rand::rngs::StdRng`, declared so that verified code can hold one.
/// Verus sees nothing inside it.
#[verifier::external_type_specification]
#[verifier::external_body]
pub struct ExStdRng(StdRng);

/// `rand_core::SeedableRng::from_rng` for `StdRng`, reading its seed from
/// `rand::rngs::OsRng`, the operating system's entropy source. `None` when
/// that source reports an error (it does not panic). Nothing is claimed of
/// the seed, nor of when the source fails.
#[verifier::external_body]
fn os_seeded_rng() -> Option<StdRng> {
    StdRng::from_rng(OsRng).ok()
}

/// `rand::Rng::gen::<u128>`: the next random `u128` of the generator.
/// Nothing is claimed of the value.
#[verifier::external_body]
fn random_u128(rng: &mut StdRng) -> u128 {
    rng.gen::<u128>()
}

/// Where the random identities of number fields come from: a generator
/// seeded from the operating system's entropy source.
pub struct HashSource {
    rng: StdRng,
}

impl HashSource {
    /// A source seeded from the operating system; `None` when its entropy
    /// source fails.
    pub fn from_os() -> Option<HashSource> {
        match os_seeded_rng() {
            Some(rng) => Some(HashSource { rng }),
            None => None,
        }
    }
}

/// A fresh random identity for a number field: the exclusive or of two
/// random `u128` values drawn from `hashes`.
pub fn gen_hash(hashes: &mut HashSource) -> u128 {
    let random_value1 = random_u128(&mut hashes.rng);
    let random_value2 = random_u128(&mut hashes.rng);
    combine_draws(random_value1, random_value2)
}

/// The identity made from two random draws: their exclusive or.
fn combine_draws(a: u128, b: u128) -> (r: u128)
    ensures
        r == a ^ b,
{
    a ^ b
}

/// Which recompilation work the editor has queued for the next frame.
#[derive(Debug, Clone, Copy, PartialEq, Eq, Structural)]
pub struct RecUpdate {
    pub queue_compile: bool,
    pub queue_update: bool,
}

impl RecUpdate {
    pub fn set_false() -> (res: Self)
        ensures
            !res.queue_compile,
            !res.queue_update,
    {
        RecUpdate { queue_update: false, queue_compile: false }
    }

    pub fn set_true() -> (res: Self)
        ensures
            res.queue_compile,
            res.queue_update,
    {
        RecUpdate { queue_update: true, queue_compile: true }
    }

    pub fn reset(&mut self)
        ensures
            !final(self).queue_compile,
            !final(self).queue_update,
    {
        self.queue_compile = false;
        self.queue_update = false;
    }

    pub fn update(&mut self)
        ensures
            final(self).queue_update,
            final(self).queue_compile == old(self).queue_compile,
    {
        self.queue_update = true;
    }

    pub fn compile(&mut self)
        ensures
            final(self).queue_compile,
            final(self).queue_update == old(self).queue_update,
    {
        self.queue_compile = true;
    }

    pub fn both(&mut self)
        ensures
            final(self).queue_compile,
            final(self).queue_update,
    {
        self.queue_compile = true;
        self.queue_update = true;
    }
}

/// The kinds of edit the scene editor makes to a union or a shape.
#[derive(Debug, Clone, Copy, PartialEq, Eq, Structural)]
pub enum SceneEdit {
    /// A union's combination type changed.
    UnionType,
    /// A shape's primitive changed.
    ShapeKind,
    /// Values changed: number fields, settings, a transform or a material.
    Values,
    /// A transform's bounding-box switch was flipped.
    BoundsToggle,
}

impl RecUpdate {
    /// Queues the work an edit needs: a new union type or a flipped
    /// bounding-box switch needs a compile and an update, a new primitive a
    /// compile, and new values an update. Requests already queued stay.
    pub fn queue_edit(&mut self, edit: SceneEdit)
        ensures
            final(self).queue_compile == (old(self).queue_compile || edit == SceneEdit::UnionType
                || edit == SceneEdit::ShapeKind || edit == SceneEdit::BoundsToggle),
            final(self).queue_update == (old(self).queue_update || edit == SceneEdit::UnionType
                || edit == SceneEdit::Values || edit == SceneEdit::BoundsToggle),
    {
        match edit {
            SceneEdit::UnionType => self.both(),
            SceneEdit::ShapeKind => self.compile(),
            SceneEdit::Values => self.update(),
            SceneEdit::BoundsToggle => self.both(),
        }
    }
}

/// The text by which generated shader code reads slot `i` of the data array.
pub open spec fn slot_text(i: nat) -> Seq<char> {
    "data["@ + decimal(i) + "]"@
}

/// The slot of `hash` in a data array with values `data` and registrations
/// `seen`, and the array and registrations afterwards: a hash not seen
/// before is given a new slot at the end, holding `val`.
pub open spec fn lookup_or_register(data: Seq<u32>, seen: Map<u128, usize>, val: u32, hash: u128) -> (
    nat,
    Seq<u32>,
    Map<u128, usize>,
) {
    if seen.contains_key(hash) {
        (seen[hash] as nat, data, seen)
    } else {
        (data.len(), data.push(val), seen.insert(hash, data.len() as usize))
    }
}

/// Looking a hash up a second time gives the same slot text and changes
/// nothing, whatever value comes with it.
pub proof fn lemma_get_index_idempotent(m: CompModel, v1: u32, v2: u32, hash: u128)
    requires
        m.data.len() < usize::MAX,
    ensures
        ({
            let (t1, m1) = m.get_index(v1, hash);
            let (t2, m2) = m1.get_index(v2, hash);
            t2 == t1 && m2 == m1
        }),
{
}

/// A new hash gets the slot after the last one, holding its value.
pub proof fn lemma_get_index_fresh(m: CompModel, v: u32, hash: u128)
    requires
        !m.seen.contains_key(hash),
        m.data.len() < usize::MAX,
    ensures
        ({
            let (t, m1) = m.get_index(v, hash);
            &&& t == slot_text(m.data.len())
            &&& m1.data == m.data.push(v)
            &&& m1.seen[hash] == m.data.len()
        }),
{
}

/// A refresh writes the value into the hash's slot and leaves every other
/// slot, and the registrations, as they were.
pub proof fn lemma_refresh_reads_back(m: CompModel, hash: u128, v: u32, j: int)
    requires
        m.seen.contains_key(hash),
        m.seen[hash] < m.data.len(),
        0 <= j < m.data.len(),
    ensures
        m.refresh(hash, v).data.len() == m.data.len(),
        m.refresh(hash, v).seen == m.seen,
        m.refresh(hash, v).data[m.seen[hash] as int] == v,
        j != m.seen[hash] ==> m.refresh(hash, v).data[j] == m.data[j],
{
}

/// Every registered hash names an existing slot.
pub open spec fn slots_wf(data: Seq<u32>, seen: Map<u128, usize>) -> bool {
    forall|h: u128| #[trigger] seen.contains_key(h) ==> seen[h] < data.len()
}

/// The abstract state that shader compilation reads and writes: the data
/// array's values and its hash-to-slot map, the bounding-box counter and
/// trails, and the flags that compilation leaves alone.
pub ghost struct CompModel {
    pub data: Seq<u32>,
    pub seen: Map<u128, usize>,
    pub counter: u32,
    pub checker: bool,
    pub rec_update: RecUpdate,
    pub aabb_index: int,
    pub pos_trail: Seq<char>,
    pub scale_trail: Seq<char>,
}

impl CompModel {
    /// Every registered hash names an existing slot.
    pub open spec fn wf(self) -> bool {
        slots_wf(self.data, self.seen)
    }

    /// The slot text for `hash`, registering `val` in a new slot at the end
    /// of the data array when the hash has not been seen yet.
    pub open spec fn get_index(self, val: u32, hash: u128) -> (Seq<char>, CompModel) {
        let (i, data, seen) = lookup_or_register(self.data, self.seen, val, hash);
        (slot_text(i), CompModel { data, seen, ..self })
    }

    /// Overwrites the slot registered for `hash` with `val`.
    pub open spec fn refresh(self, hash: u128, val: u32) -> CompModel {
        CompModel { data: self.data.update(self.seen[hash] as int, val), ..self }
    }

    /// `other` differs from `self` at most in the values held in the slots.
    pub open spec fn same_but_values(self, other: CompModel) -> bool {
        &&& other.data.len() == self.data.len()
        &&& other.seen == self.seen
        &&& other.counter == self.counter
        &&& other.checker == self.checker
        &&& other.rec_update == self.rec_update
        &&& other.aabb_index == self.aabb_index
        &&& other.pos_trail == self.pos_trail
        &&& other.scale_trail == self.scale_trail
    }

    /// `later` has the flags and counter of `self`.
    pub open spec fn same_flags(self, later: CompModel) -> bool {
        &&& later.checker == self.checker
        &&& later.rec_update == self.rec_update
        &&& later.counter == self.counter
    }

    /// `later` keeps every registration of `self` and its slot count.
    pub open spec fn extended_by(self, later: CompModel) -> bool {
        &&& forall|h: u128| #[trigger]
            self.seen.contains_key(h) ==> later.seen.contains_key(h) && later.seen[h]
                == self.seen[h]
        &&& self.data.len() <= later.data.len()
    }
}

/// The values that compiled shaders read, with the slot assigned to each
/// number field (by its hash).
pub struct DataArray {
    /// `f32` bit patterns, one per slot.
    pub data: Vec<u32>,
    pub counter: u32,
    pub seen: HashMap<u128, usize>,
}

impl DataArray {
    pub open spec fn wf(&self) -> bool {
        slots_wf(self.data@, self.seen@)
    }

    pub fn new() -> (res: Self)
        ensures
            res.data@ == Seq::<u32>::empty(),
            res.seen@ == Map::<u128, usize>::empty(),
            res.counter == 0,
    {
        DataArray { data: Vec::new(), counter: 0, seen: HashMap::new() }
    }

    /// The text `data[i]` for the slot of `hash`; a hash not seen before gets
    /// a new slot at the end, holding `in_data`.
    pub fn get_index(&mut self, in_data: u32, hash: u128) -> (res: String)
        ensures
            ({
                let (i, data, seen) = lookup_or_register(old(self).data@, old(self).seen@, in_data, hash);
                &&& res@ == slot_text(i)
                &&& final(self).data@ == data
                &&& final(self).seen@ == seen
            }),
            final(self).counter == old(self).counter,
            old(self).wf() ==> final(self).wf(),
    {
        let mut out = String::new();
        out.append("data[");
        if self.seen.contains_key(&hash) {
            let i = *self.seen.get(&hash).unwrap();
            push_decimal(&mut out, i as u64);
        } else {
            self.data.push(in_data);
            let i = self.data.len() - 1;
            self.seen.insert(hash, i);
            push_decimal(&mut out, i as u64);
        }
        out.append("]");
        assert(old(self).wf() ==> self.wf()) by {
            if old(self).wf() {
                assert forall|h: u128| #[trigger] self.seen@.contains_key(h) implies self.seen@[h] < self.data@.len() by {
                    if old(self).seen@.contains_key(h) {
                    }
                }
            }
        }
        out
    }

    /// Overwrites the slot of `hash` with `data`.
    pub fn refresh(&mut self, hash: u128, data: u32)
        requires
            old(self).seen@.contains_key(hash),
            old(self).seen@[hash] < old(self).data@.len(),
        ensures
            final(self).data@ == old(self).data@.update(old(self).seen@[hash] as int, data),
            final(self).seen@ == old(self).seen@,
            final(self).counter == old(self).counter,
    {
        let entry = *self.seen.get(&hash).unwrap();
        self.data.set(entry, data);
    }
}

/// Everything the compilation of a scene reads and writes besides the
/// scene itself.
pub struct CompData {
    pub checker: bool,
    pub data_array: DataArray,
    pub rec_update: RecUpdate,
    /// Counter for the bounding-box slots handed out to shapes.
    pub aabb_index: usize,
    /// Position and scale expressions of the unions enclosing the shape
    /// whose bounding box is being generated.
    pub aabb_pos_trail: String,
    pub aabb_scale_trail: String,
}

impl CompData {
    pub open spec fn model(&self) -> CompModel {
        CompModel {
            data: self.data_array.data@,
            seen: self.data_array.seen@,
            counter: self.data_array.counter,
            checker: self.checker,
            rec_update: self.rec_update,
            aabb_index: self.aabb_index as int,
            pos_trail: self.aabb_pos_trail@,
            scale_trail: self.aabb_scale_trail@,
        }
    }

    /// The state `new` builds.
    pub open spec fn new_model() -> CompModel {
        CompModel {
            data: Seq::empty(),
            seen: Map::empty(),
            counter: 0,
            checker: true,
            rec_update: RecUpdate { queue_compile: true, queue_update: true },
            aabb_index: 0,
            pos_trail: Seq::empty(),
            scale_trail: Seq::empty(),
        }
    }

    pub fn new() -> (res: Self)
        ensures
            res.model() == CompData::new_model(),
            res.checker,
            res.data_array.data@ == Seq::<u32>::empty(),
            res.data_array.seen@ == Map::<u128, usize>::empty(),
            res.data_array.counter == 0,
            res.rec_update.queue_compile,
            res.rec_update.queue_update,
            res.aabb_index == 0,
            res.aabb_pos_trail@ == Seq::<char>::empty(),
            res.aabb_scale_trail@ == Seq::<char>::empty(),
    {
        CompData {
            checker: true,
            data_array: DataArray::new(),
            rec_update: RecUpdate::set_true(),
            aabb_index: 0,
            aabb_pos_trail: String::new(),
            aabb_scale_trail: String::new(),
        }
    }

    /// Alternates the highlight of successive editor frames: returns whether
    /// this call gets the bright shade (the checker was set) and flips the
    /// checker.
    pub fn check(&mut self) -> (bright: bool)
        ensures
            bright == old(self).checker,
            final(self).checker == !old(self).checker,
            final(self).model() == (CompModel { checker: !old(self).checker, ..old(self).model() }),
    {
        let bright = self.checker;
        self.checker = !self.checker;
        bright
    }

    /// Empties the registrations and leaves the placeholder alone in slot 0.
    pub fn reset_data_array(&mut self)
        ensures
            final(self).model() == (CompModel {
                data: seq![DATA_PLACEHOLDER],
                seen: Map::<u128, usize>::empty(),
                ..old(self).model()
            }),
    {
        self.data_array.data = vec![DATA_PLACEHOLDER];
        self.data_array.seen.clear();
        assert(self.data_array.data@ =~= seq![DATA_PLACEHOLDER]);
    }
}

/// An editable number of the scene. Its value lives in a data-array slot
/// that generated code reads, identified by `hash`.
#[derive(Debug, Clone, PartialEq)]
pub struct Float {
    /// `f32` bit patterns of the value, of the ends of its range and of the
    /// drag speed.
    pub val: u32,
    pub range_start: u32,
    pub range_end: u32,
    pub speed: u32,
    pub name: String,
    pub hash: u128,
}

impl Float {
    /// The code of the field: the text of its slot.
    pub open spec fn compiled(self, m: CompModel) -> (Seq<char>, CompModel) {
        m.get_index(self.val, self.hash)
    }

    pub open spec fn refreshed(self, m: CompModel) -> CompModel {
        m.refresh(self.hash, self.val)
    }

    /// The field's hash has a slot in `m`.
    pub open spec fn registered(self, m: CompModel) -> bool {
        &&& m.seen.contains_key(self.hash)
        &&& m.seen[self.hash] < m.data.len()
    }

    /// `other` is `self` with perhaps another value.
    pub open spec fn same_layout(self, other: Float) -> bool {
        &&& other.hash == self.hash
        &&& other.range_start == self.range_start
        &&& other.range_end == self.range_end
        &&& other.speed == self.speed
        &&& other.name@ == self.name@
    }

    /// `other` is `self` with perhaps another hash.
    pub open spec fn same_but_hash(self, other: Float) -> bool {
        &&& other.val == self.val
        &&& other.range_start == self.range_start
        &&& other.range_end == self.range_end
        &&& other.speed == self.speed
        &&& other.name@ == self.name@
    }

    /// The field has the given name, speed, value and range.
    pub open spec fn is(self, name: Seq<char>, speed: u32, val: u32, start: u32, end: u32) -> bool {
        &&& self.name@ == name
        &&& self.speed == speed
        &&& self.val == val
        &&& self.range_start == start
        &&& self.range_end == end
    }

    pub fn new(name: &str, speed: u32, def: u32, range_start: u32, range_end: u32, hashes: &mut HashSource) -> (res: Self)
        ensures
            res.is(name@, speed, def, range_start, range_end),
    {
        Float { val: def, range_start, range_end, speed, name: name.to_owned(), hash: gen_hash(hashes) }
    }

    /// A field over the whole finite `f32` range.
    pub fn inv(name: &str, speed: u32, def: u32, hashes: &mut HashSource) -> (res: Self)
        ensures
            res.is(name@, speed, def, F32_NEG_MAX_BITS, F32_MAX_BITS),
    {
        Float {
            val: def,
            name: name.to_owned(),
            range_start: F32_NEG_MAX_BITS,
            range_end: F32_MAX_BITS,
            speed,
            hash: gen_hash(hashes),
        }
    }

    /// A field over `0.0..=1.0`.
    pub fn percent(name: &str, speed: u32, def: u32, hashes: &mut HashSource) -> (res: Self)
        ensures
            res.is(name@, speed, def, F32_ZERO, F32_ONE),
    {
        Float {
            val: def,
            name: name.to_owned(),
            range_start: F32_ZERO,
            range_end: F32_ONE,
            speed,
            hash: gen_hash(hashes),
        }
    }

    pub fn compile(&self, comp_data: &mut CompData) -> (res: String)
        ensures
            (res@, final(comp_data).model()) == self.compiled(old(comp_data).model()),
            old(comp_data).model().extended_by(final(comp_data).model()),
            old(comp_data).model().wf() ==> final(comp_data).model().wf(),
            old(comp_data).model().wf() ==> self.registered(final(comp_data).model()),
    {
        comp_data.data_array.get_index(self.val, self.hash)
    }

    pub fn refresh(&self, comp_data: &mut CompData)
        requires
            self.registered(old(comp_data).model()),
        ensures
            final(comp_data).model() == self.refreshed(old(comp_data).model()),
            final(comp_data).model().seen == old(comp_data).model().seen,
            final(comp_data).model().data.len() == old(comp_data).model().data.len(),
    {
        comp_data.data_array.refresh(self.hash, self.val);
    }

    /// Whether the field has a slot in `comp_data`.
    pub fn is_registered(&self, comp_data: &CompData) -> (res: bool)
        ensures
            res == self.registered(comp_data.model()),
    {
        match comp_data.data_array.seen.get(&self.hash) {
            Some(i) => *i < comp_data.data_array.data.len(),
            None => false,
        }
    }

    /// A copy of the field with a fresh identity.
    pub fn duplicate(&self, hashes: &mut HashSource) -> (res: Float)
        ensures
            self.same_but_hash(res),
    {
        Float {
            val: self.val,
            range_start: self.range_start,
            range_end: self.range_end,
            speed: self.speed,
            name: self.name.clone(),
            hash: gen_hash(hashes),
        }
    }

    /// Gives the field a fresh identity, so that it gets a slot of its own.
    pub fn rehash(&mut self, hashes: &mut HashSource)
        ensures
            old(self).same_but_hash(*final(self)),
    {
        self.hash = gen_hash(hashes);
    }
}

/// Three number fields under one name.
#[derive(Debug, Clone, PartialEq)]
pub struct V3 {
    pub x: Float,
    pub y: Float,
    pub z: Float,
    pub name: String,
}

impl V3 {
    /// `vec3(x, y, z)` over the slots of the three fields, compiled in that order.
    pub open spec fn compiled(self, m: CompModel) -> (Seq<char>, CompModel) {
        let (a, m1) = self.x.compiled(m);
        let (b, m2) = self.y.compiled(m1);
        let (c, m3) = self.z.compiled(m2);
        ("vec3("@ + a + ", "@ + b + ", "@ + c + ")"@, m3)
    }

    pub open spec fn refreshed(self, m: CompModel) -> CompModel {
        self.z.refreshed(self.y.refreshed(self.x.refreshed(m)))
    }

    pub open spec fn registered(self, m: CompModel) -> bool {
        &&& self.x.registered(m)
        &&& self.y.registered(m)
        &&& self.z.registered(m)
    }

    pub open spec fn same_layout(self, other: V3) -> bool {
        &&& self.x.same_layout(other.x)
        &&& self.y.same_layout(other.y)
        &&& self.z.same_layout(other.z)
        &&& other.name@ == self.name@
    }

    pub open spec fn same_but_hash(self, other: V3) -> bool {
        &&& self.x.same_but_hash(other.x)
        &&& self.y.same_but_hash(other.y)
        &&& self.z.same_but_hash(other.z)
        &&& other.name@ == self.name@
    }

    /// A position-like vector as `xyz` builds it.
    pub open spec fn is_xyz(self, name: Seq<char>, speed: u32, def: u32) -> bool {
        &&& self.name@ == name
        &&& self.x.is("X"@, speed, def, F32_NEG_MAX_BITS, F32_MAX_BITS)
        &&& self.y.is("Y"@, speed, def, F32_NEG_MAX_BITS, F32_MAX_BITS)
        &&& self.z.is("Z"@, speed, def, F32_NEG_MAX_BITS, F32_MAX_BITS)
    }

    /// A white colour as `rgb` builds it.
    pub open spec fn is_rgb(self, name: Seq<char>) -> bool {
        &&& self.name@ == name
        &&& self.x.is("R"@, F32_ONE, F32_ONE, F32_NEG_MAX_BITS, F32_MAX_BITS)
        &&& self.y.is("G"@, F32_ONE, F32_ONE, F32_NEG_MAX_BITS, F32_MAX_BITS)
        &&& self.z.is("B"@, F32_ONE, F32_ONE, F32_NEG_MAX_BITS, F32_MAX_BITS)
    }

    pub fn xyz(name: &str, speed: u32, def: u32, hashes: &mut HashSource) -> (res: Self)
        ensures
            res.is_xyz(name@, speed, def),
    {
        V3 {
            x: Float::inv("X", speed, def, hashes),
            y: Float::inv("Y", speed, def, hashes),
            z: Float::inv("Z", speed, def, hashes),
            name: name.to_owned(),
        }
    }

    pub fn rgb(name: &str, hashes: &mut HashSource) -> (res: Self)
        ensures
            res.is_rgb(name@),
    {
        V3 {
            x: Float::inv("R", F32_ONE, F32_ONE, hashes),
            y: Float::inv("G", F32_ONE, F32_ONE, hashes),
            z: Float::inv("B", F32_ONE, F32_ONE, hashes),
            name: name.to_owned(),
        }
    }

    pub fn compile(&self, comp_data: &mut CompData) -> (res: String)
        ensures
            (res@, final(comp_data).model()) == self.compiled(old(comp_data).model()),
            old(comp_data).model().extended_by(final(comp_data).model()),
            old(comp_data).model().wf() ==> final(comp_data).model().wf(),
            old(comp_data).model().wf() ==> self.registered(final(comp_data).model()),
    {
        let a = self.x.compile(comp_data);
        let b = self.y.compile(comp_data);
        let c = self.z.compile(comp_data);
        let mut out = String::new();
        out.append("vec3(");
        out.append(a.as_str());
        out.append(", ");
        out.append(b.as_str());
        out.append(", ");
        out.append(c.as_str());
        out.append(")");
        out
    }

    pub fn refresh(&self, comp_data: &mut CompData)
        requires
            self.registered(old(comp_data).model()),
        ensures
            final(comp_data).model() == self.refreshed(old(comp_data).model()),
            final(comp_data).model().seen == old(comp_data).model().seen,
            final(comp_data).model().data.len() == old(comp_data).model().data.len(),
    {
        self.x.refresh(comp_data);
        self.y.refresh(comp_data);
        self.z.refresh(comp_data);
    }

    /// A copy of the vector with fresh identities.
    pub fn duplicate(&self, hashes: &mut HashSource) -> (res: V3)
        ensures
            self.same_but_hash(res),
    {
        V3 { x: self.x.duplicate(hashes), y: self.y.duplicate(hashes), z: self.z.duplicate(hashes), name: self.name.clone() }
    }

    pub fn is_registered(&self, comp_data: &CompData) -> (res: bool)
        ensures
            res == self.registered(comp_data.model()),
    {
        self.x.is_registered(comp_data) && self.y.is_registered(comp_data) && self.z.is_registered(comp_data)
    }

    pub fn rehash(&mut self, hashes: &mut HashSource)
        ensures
            old(self).same_but_hash(*final(self)),
    {
        self.x.rehash(hashes);
        self.y.rehash(hashes);
        self.z.rehash(hashes);
    }
}

} // verus!
