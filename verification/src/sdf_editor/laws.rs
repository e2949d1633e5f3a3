use vstd::prelude::*;
use crate::text::decimal;
use crate::sdf_editor::primitives::{CompModel, Float, V3};
use crate::sdf_editor::data_structures::{Material, Transform};
use crate::sdf_editor::containers::{
    shapes_aabb_compiled, shapes_compiled, shapes_refreshed, unions_refreshed, Shape, Shapes, Union,
    UnionType,
};

verus! {

// ---------------------------------------------------------------------
// Refreshing writes every field's current value into its slot.
// ---------------------------------------------------------------------

/// The number fields of a vector, in order.
pub open spec fn v3_fields(v: V3) -> Seq<Float> {
    seq![v.x, v.y, v.z]
}

/// The number fields of a transform, in order.
pub open spec fn transform_fields(t: Transform) -> Seq<Float> {
    v3_fields(t.position) + v3_fields(t.rotation) + seq![t.scale, t.aabb_exaggeration]
}

/// The number fields of a material, in order.
pub open spec fn material_fields(m: Material) -> Seq<Float> {
    v3_fields(m.color) + seq![m.brightness] + v3_fields(m.light_col) + seq![m.specular_chance]
        + v3_fields(m.specular_color) + seq![m.roughness, m.ior, m.refract_chance, m.refract_roughness]
        + v3_fields(m.refract_color)
}

/// The number fields that size a primitive.
pub open spec fn primitive_fields(s: Shapes) -> Seq<Float> {
    match s {
        Shapes::Sphere(f) => seq![f],
        Shapes::Cube(v) => v3_fields(v),
        Shapes::Plane => Seq::empty(),
    }
}

/// The number fields of a shape, in order.
pub open spec fn shape_fields(s: Shape) -> Seq<Float> {
    transform_fields(s.transform) + material_fields(s.material) + primitive_fields(s.current_shape)
}

/// The number fields of a list of shapes, in order.
pub open spec fn shapes_fields(ss: Seq<Shape>) -> Seq<Float>
    decreases ss.len(),
{
    if ss.len() == 0 {
        Seq::empty()
    } else {
        shapes_fields(ss.drop_last()) + shape_fields(ss.last())
    }
}

/// The number fields of a union and of everything below it, in order.
pub open spec fn union_fields(u: Union) -> Seq<Float>
    decreases u, 1int,
{
    transform_fields(u.transform) + shapes_fields(u.children_shapes@) + unions_fields(u.children_unions@)
}

/// The number fields of a list of unions, in order.
pub open spec fn unions_fields(us: Seq<Union>) -> Seq<Float>
    decreases us, 0int,
{
    if us.len() == 0 {
        Seq::empty()
    } else {
        unions_fields(us.drop_last()) + union_fields(us.last())
    }
}

/// `m` with the value of each field of `fs`, in order, written into the
/// slot registered for its hash.
pub open spec fn write_all(fs: Seq<Float>, m: CompModel) -> CompModel
    decreases fs.len(),
{
    if fs.len() == 0 {
        m
    } else {
        let m1 = write_all(fs.drop_last(), m);
        CompModel { data: m1.data.update(m1.seen[fs.last().hash] as int, fs.last().val), ..m1 }
    }
}

proof fn lemma_write_all_append(a: Seq<Float>, b: Seq<Float>, m: CompModel)
    ensures
        write_all(a + b, m) == write_all(b, write_all(a, m)),
    decreases b.len(),
{
    if b.len() == 0 {
        assert(a + b =~= a);
    } else {
        assert((a + b).drop_last() =~= a + b.drop_last());
        assert((a + b).last() == b.last());
        lemma_write_all_append(a, b.drop_last(), m);
    }
}

proof fn lemma_write_one(f: Float, m: CompModel)
    ensures
        write_all(seq![f], m) == f.refreshed(m),
{
    assert(seq![f].drop_last() =~= Seq::<Float>::empty());
    assert(write_all(Seq::<Float>::empty(), m) == m);
    assert(seq![f].last() == f);
}

proof fn lemma_write_pair(a: Seq<Float>, f: Float, m: CompModel)
    ensures
        write_all(a + seq![f], m) == f.refreshed(write_all(a, m)),
{
    lemma_write_all_append(a, seq![f], m);
    lemma_write_one(f, write_all(a, m));
}

proof fn lemma_v3_writes(v: V3, m: CompModel)
    ensures
        v.refreshed(m) == write_all(v3_fields(v), m),
{
    assert(v3_fields(v) =~= seq![v.x] + seq![v.y] + seq![v.z]);
    lemma_write_one(v.x, m);
    lemma_write_pair(seq![v.x], v.y, m);
    lemma_write_pair(seq![v.x] + seq![v.y], v.z, m);
}

proof fn lemma_v3_then(a: Seq<Float>, v: V3, m: CompModel)
    ensures
        write_all(a + v3_fields(v), m) == v.refreshed(write_all(a, m)),
{
    lemma_write_all_append(a, v3_fields(v), m);
    lemma_v3_writes(v, write_all(a, m));
}

proof fn lemma_transform_writes(t: Transform, m: CompModel)
    ensures
        t.refreshed(m) == write_all(transform_fields(t), m),
{
    let p = v3_fields(t.position);
    let r = v3_fields(t.rotation);
    assert(transform_fields(t) =~= (p + r + seq![t.scale]) + seq![t.aabb_exaggeration]);
    lemma_v3_writes(t.position, m);
    lemma_v3_then(p, t.rotation, m);
    lemma_write_pair(p + r, t.scale, m);
    lemma_write_pair(p + r + seq![t.scale], t.aabb_exaggeration, m);
}

proof fn lemma_material_writes(mt: Material, m: CompModel)
    ensures
        mt.refreshed(m) == write_all(material_fields(mt), m),
{
    let s0 = v3_fields(mt.color);
    let s1 = s0 + seq![mt.brightness];
    let s2 = s1 + v3_fields(mt.light_col);
    let s3 = s2 + seq![mt.specular_chance];
    let s4 = s3 + v3_fields(mt.specular_color);
    let s5 = s4 + seq![mt.roughness];
    let s6 = s5 + seq![mt.ior];
    let s7 = s6 + seq![mt.refract_chance];
    let s8 = s7 + seq![mt.refract_roughness];
    let s9 = s8 + v3_fields(mt.refract_color);
    assert(material_fields(mt) =~= s9);
    lemma_v3_writes(mt.color, m);
    lemma_write_pair(s0, mt.brightness, m);
    lemma_v3_then(s1, mt.light_col, m);
    lemma_write_pair(s2, mt.specular_chance, m);
    lemma_v3_then(s3, mt.specular_color, m);
    lemma_write_pair(s4, mt.roughness, m);
    lemma_write_pair(s5, mt.ior, m);
    lemma_write_pair(s6, mt.refract_chance, m);
    lemma_write_pair(s7, mt.refract_roughness, m);
    lemma_v3_then(s8, mt.refract_color, m);
}

proof fn lemma_primitive_writes(s: Shapes, m: CompModel)
    ensures
        s.refreshed(m) == write_all(primitive_fields(s), m),
{
    match s {
        Shapes::Sphere(f) => lemma_write_one(f, m),
        Shapes::Cube(v) => lemma_v3_writes(v, m),
        Shapes::Plane => {},
    }
}

proof fn lemma_shape_writes(s: Shape, m: CompModel)
    ensures
        s.refreshed(m) == write_all(shape_fields(s), m),
{
    let t = transform_fields(s.transform);
    let mt = material_fields(s.material);
    let p = primitive_fields(s.current_shape);
    lemma_transform_writes(s.transform, m);
    lemma_write_all_append(t, mt, m);
    lemma_material_writes(s.material, write_all(t, m));
    lemma_write_all_append(t + mt, p, m);
    lemma_primitive_writes(s.current_shape, write_all(t + mt, m));
}

proof fn lemma_shapes_writes(ss: Seq<Shape>, m: CompModel)
    ensures
        shapes_refreshed(ss, m) == write_all(shapes_fields(ss), m),
    decreases ss.len(),
{
    if ss.len() > 0 {
        lemma_shapes_writes(ss.drop_last(), m);
        lemma_write_all_append(shapes_fields(ss.drop_last()), shape_fields(ss.last()), m);
        lemma_shape_writes(ss.last(), write_all(shapes_fields(ss.drop_last()), m));
    }
}

proof fn lemma_union_writes(u: Union, m: CompModel)
    ensures
        u.refreshed(m) == write_all(union_fields(u), m),
    decreases u, 1int,
{
    let t = transform_fields(u.transform);
    let s = shapes_fields(u.children_shapes@);
    let us = unions_fields(u.children_unions@);
    lemma_transform_writes(u.transform, m);
    lemma_write_all_append(t, s, m);
    lemma_shapes_writes(u.children_shapes@, write_all(t, m));
    lemma_write_all_append(t + s, us, m);
    lemma_unions_writes(u.children_unions@, write_all(t + s, m));
}

proof fn lemma_unions_writes(us: Seq<Union>, m: CompModel)
    ensures
        unions_refreshed(us, m) == write_all(unions_fields(us), m),
    decreases us, 0int,
{
    if us.len() > 0 {
        lemma_unions_writes(us.drop_last(), m);
        lemma_write_all_append(unions_fields(us.drop_last()), union_fields(us.last()), m);
        lemma_union_writes(us.last(), write_all(unions_fields(us.drop_last()), m));
    }
}

/// Writing a list of fields keeps the registrations and the slot count; a
/// field's slot ends up holding its value unless a later field of the list
/// shares the slot; a slot that no field of the list owns is left alone.
proof fn lemma_write_all_reads_back(fs: Seq<Float>, m: CompModel)
    requires
        forall|j: int| 0 <= j < fs.len() ==> #[trigger] fs[j].registered(m),
    ensures
        write_all(fs, m).seen == m.seen,
        write_all(fs, m).data.len() == m.data.len(),
        forall|i: int|
            0 <= i < fs.len() && (forall|j: int| i < j < fs.len() ==> m.seen[#[trigger] fs[j].hash] != m.seen[fs[i].hash])
                ==> write_all(fs, m).data[m.seen[#[trigger] fs[i].hash] as int] == fs[i].val,
        forall|slot: int|
            0 <= slot < m.data.len() && (forall|j: int| 0 <= j < fs.len() ==> m.seen[#[trigger] fs[j].hash] != slot)
                ==> #[trigger] write_all(fs, m).data[slot] == m.data[slot],
    decreases fs.len(),
{
    if fs.len() > 0 {
        let init = fs.drop_last();
        assert forall|j: int| 0 <= j < init.len() implies #[trigger] init[j].registered(m) by {
            assert(init[j] == fs[j]);
        }
        lemma_write_all_reads_back(init, m);
        let last = fs.last();
        assert(last == fs[fs.len() - 1]);
        assert(last.registered(m));
        let m1 = write_all(init, m);
        assert forall|i: int|
            0 <= i < fs.len() && (forall|j: int| i < j < fs.len() ==> m.seen[#[trigger] fs[j].hash] != m.seen[fs[i].hash])
            implies write_all(fs, m).data[m.seen[#[trigger] fs[i].hash] as int] == fs[i].val by {
            assert(write_all(fs, m).data == m1.data.update(m.seen[last.hash] as int, last.val));
            assert(fs[i].registered(m));
            if i == fs.len() - 1 {
                assert(fs[i] == last);
                assert(m.seen[last.hash] < m1.data.len());
            } else {
                assert(init[i] == fs[i]);
                assert forall|j: int| i < j < init.len() implies m.seen[#[trigger] init[j].hash] != m.seen[init[i].hash] by {
                    assert(init[j] == fs[j]);
                }
                assert(m.seen[fs[fs.len() - 1].hash] != m.seen[fs[i].hash]);
                assert(m1.data[m.seen[init[i].hash] as int] == init[i].val);
            }
        }
        assert forall|slot: int|
            0 <= slot < m.data.len() && (forall|j: int| 0 <= j < fs.len() ==> m.seen[#[trigger] fs[j].hash] != slot)
            implies #[trigger] write_all(fs, m).data[slot] == m.data[slot] by {
            assert forall|j: int| 0 <= j < init.len() implies m.seen[#[trigger] init[j].hash] != slot by {
                assert(init[j] == fs[j]);
            }
            assert(m.seen[fs[fs.len() - 1].hash] != slot);
            assert(write_all(fs, m).data == m1.data.update(m.seen[last.hash] as int, last.val));
        }
    }
}

/// After the values of a list of unions are refreshed (as the editor's
/// update does), every number field below them reads back its current
/// value from its slot, when the fields have slots of their own; slots that
/// belong to none of them, the registrations and the slot count are left
/// as they were.
pub proof fn lemma_unions_refresh_reads_back(us: Seq<Union>, m: CompModel)
    requires
        forall|j: int| 0 <= j < unions_fields(us).len() ==> #[trigger] unions_fields(us)[j].registered(m),
        forall|i: int, j: int|
            0 <= i < j < unions_fields(us).len() ==> m.seen[#[trigger] unions_fields(us)[i].hash] != m.seen[#[trigger] unions_fields(us)[j].hash],
    ensures
        unions_refreshed(us, m).seen == m.seen,
        unions_refreshed(us, m).data.len() == m.data.len(),
        forall|i: int|
            0 <= i < unions_fields(us).len() ==> unions_refreshed(us, m).data[m.seen[#[trigger] unions_fields(us)[i].hash] as int]
                == unions_fields(us)[i].val,
        forall|slot: int|
            0 <= slot < m.data.len() && (forall|j: int| 0 <= j < unions_fields(us).len() ==> m.seen[#[trigger] unions_fields(us)[j].hash] != slot)
                ==> #[trigger] unions_refreshed(us, m).data[slot] == m.data[slot],
{
    let fs = unions_fields(us);
    lemma_unions_writes(us, m);
    lemma_write_all_reads_back(fs, m);
    assert forall|i: int| 0 <= i < fs.len() implies unions_refreshed(us, m).data[m.seen[#[trigger] fs[i].hash] as int] == fs[i].val by {
        assert forall|j: int| i < j < fs.len() implies m.seen[#[trigger] fs[j].hash] != m.seen[fs[i].hash] by {
            assert(m.seen[fs[i].hash] != m.seen[fs[j].hash]);
        }
    }
}

/// Refreshing a vector writes each of its three values into its slot: the
/// `z` slot always ends up holding `z`, the `y` slot holds `y` unless `z`
/// shares it, the `x` slot holds `x` unless `y` or `z` shares it; every
/// other slot, the registrations and the slot count stay as they were.
pub proof fn lemma_v3_refresh_reads_back(v: V3, m: CompModel)
    requires
        v.registered(m),
    ensures
        v.refreshed(m).seen == m.seen,
        v.refreshed(m).data.len() == m.data.len(),
        v.refreshed(m).data[m.seen[v.z.hash] as int] == v.z.val,
        m.seen[v.y.hash] != m.seen[v.z.hash] ==> v.refreshed(m).data[m.seen[v.y.hash] as int] == v.y.val,
        m.seen[v.x.hash] != m.seen[v.y.hash] && m.seen[v.x.hash] != m.seen[v.z.hash] ==> v.refreshed(m).data[m.seen[v.x.hash] as int]
            == v.x.val,
        forall|slot: int|
            0 <= slot < m.data.len() && slot != m.seen[v.x.hash] && slot != m.seen[v.y.hash] && slot != m.seen[v.z.hash]
                ==> #[trigger] v.refreshed(m).data[slot] == m.data[slot],
{
    let fs = v3_fields(v);
    lemma_v3_writes(v, m);
    assert(fs[0] == v.x && fs[1] == v.y && fs[2] == v.z);
    lemma_write_all_reads_back(fs, m);
    if m.seen[v.y.hash] != m.seen[v.z.hash] {
        assert forall|j: int| 1 < j < fs.len() implies m.seen[#[trigger] fs[j].hash] != m.seen[fs[1].hash] by {}
    }
    if m.seen[v.x.hash] != m.seen[v.y.hash] && m.seen[v.x.hash] != m.seen[v.z.hash] {
        assert forall|j: int| 0 < j < fs.len() implies m.seen[#[trigger] fs[j].hash] != m.seen[fs[0].hash] by {}
    }
    assert forall|slot: int|
        0 <= slot < m.data.len() && slot != m.seen[v.x.hash] && slot != m.seen[v.y.hash] && slot != m.seen[v.z.hash]
        implies #[trigger] v.refreshed(m).data[slot] == m.data[slot] by {
        assert forall|j: int| 0 <= j < fs.len() implies m.seen[#[trigger] fs[j].hash] != slot by {}
    }
}

// ---------------------------------------------------------------------
// What the generated code contains.
// ---------------------------------------------------------------------

/// `t` occurs in `s`.
pub open spec fn has_part(s: Seq<char>, t: Seq<char>) -> bool {
    exists|a: Seq<char>, b: Seq<char>| #[trigger] (a + t + b) == s
}

proof fn lemma_has_part_within(a: Seq<char>, s: Seq<char>, b: Seq<char>, t: Seq<char>)
    requires
        has_part(s, t),
    ensures
        has_part(a + s + b, t),
{
    let (x, y) = choose|x: Seq<char>, y: Seq<char>| #[trigger] (x + t + y) == s;
    assert(a + s + b =~= (a + x) + t + (y + b));
}

proof fn lemma_assoc(a: Seq<char>, b: Seq<char>, c: Seq<char>)
    ensures
        (a + b) + c == a + (b + c),
{
    assert((a + b) + c =~= a + (b + c));
}

proof fn lemma_has_part_whole(a: Seq<char>, t: Seq<char>)
    ensures
        has_part(a + t, t),
{
    assert(a + t + Seq::<char>::empty() =~= a + t);
}

proof fn lemma_has_part_left(a: Seq<char>, s: Seq<char>, t: Seq<char>)
    requires
        has_part(s, t),
    ensures
        has_part(a + s, t),
{
    lemma_has_part_within(a, s, Seq::empty(), t);
    assert(a + s + Seq::<char>::empty() =~= a + s);
}

proof fn lemma_has_part_right(s: Seq<char>, b: Seq<char>, t: Seq<char>)
    requires
        has_part(s, t),
    ensures
        has_part(s + b, t),
{
    lemma_has_part_within(Seq::empty(), s, b, t);
    assert(Seq::<char>::empty() + s + b =~= s + b);
}

/// A shape's block draws the shape with the distance function of its
/// primitive: `sdSphere` for a sphere, `sdCube` for a cube, applied to the
/// shape's local point `u{depth}s{index}p`.
pub proof fn lemma_shape_block_names_its_distance_function(
    s: Shape,
    m: CompModel,
    depth: nat,
    index: nat,
    union_type: UnionType,
)
    ensures
        ({
            let hit = "u"@ + decimal(depth) + "s"@ + decimal(index);
            let name = match s.current_shape {
                Shapes::Sphere(_) => "sdSphere"@,
                Shapes::Cube(_) => "sdCube"@,
                Shapes::Plane => "NotImplemented"@,
            };
            has_part(
                s.compiled(m, depth, index, union_type).0,
                "\n\n      Hit "@ + hit + " = Hit(\n         "@ + name + "("@ + hit + "p"@ + ", "@,
            )
        }),
{
    reveal(Shape::compiled);
    let ui = decimal(depth);
    let si = decimal(index);
    let hit = "u"@ + ui + "s"@ + si;
    let transform_name = hit + "p"@;
    let (tc, m1) = s.transform.compiled(transform_name, "pu"@ + ui, m);
    let (ss, m2) = s.current_shape.settings_compiled(m1);
    let (mat, m3) = s.material.compiled(m2);
    let (chk, m4) = s.transform.aabb_checked(m3);
    let un = union_type.compiled("u"@ + ui, hit, index);
    let (fin, m5) = s.transform.finalised(hit, m4);
    let name = s.current_shape.name_code();
    let l0 = chk + " {\n"@ + "\n      "@ + tc;
    let h = "\n\n      Hit "@;
    let e = " = Hit(\n         "@;
    let n5 = h + hit + e + name + "("@;
    lemma_assoc(l0, h, hit);
    lemma_assoc(l0, h + hit, e);
    lemma_assoc(l0, h + hit + e, name);
    lemma_assoc(l0, h + hit + e + name, "("@);
    lemma_assoc(l0, n5, transform_name);
    lemma_assoc(n5, hit, "p"@);
    let n7 = n5 + hit + "p"@ + ", "@;
    lemma_assoc(l0, n5 + hit + "p"@, ", "@);
    let x7 = l0 + h + hit + e + name + "("@ + transform_name + ", "@;
    assert(x7 == l0 + n7);
    lemma_has_part_whole(l0, n7);
    let x8 = x7 + ss;
    lemma_has_part_right(x7, ss, n7);
    let x9 = x8 + "),\n         "@;
    lemma_has_part_right(x8, "),\n         "@, n7);
    let x10 = x9 + mat;
    lemma_has_part_right(x9, mat, n7);
    let x11 = x10 + "\n      );\n      "@;
    lemma_has_part_right(x10, "\n      );\n      "@, n7);
    let x12 = x11 + fin;
    lemma_has_part_right(x11, fin, n7);
    let x13 = x12 + "\n\n      "@;
    lemma_has_part_right(x12, "\n\n      "@, n7);
    let x14 = x13 + un;
    lemma_has_part_right(x13, un, n7);
    let x15 = x14 + "\n\n\n      "@;
    lemma_has_part_right(x14, "\n\n\n      "@, n7);
    lemma_has_part_right(x15, "}\n"@, n7);
    assert(s.compiled(m, depth, index, union_type).0 == x15 + "}\n"@);
}

/// The text by which a union at depth `depth` (its hit `u{depth}`) takes in
/// its shape number `index` (hit `u{depth}s{index}`): the first shape is
/// assigned, each later one is combined by `union_type`.
spec fn combination(union_type: UnionType, depth: nat, index: nat) -> Seq<char> {
    union_type.compiled("u"@ + decimal(depth), "u"@ + decimal(depth) + "s"@ + decimal(index), index)
}

proof fn lemma_shape_block_combines(s: Shape, m: CompModel, depth: nat, index: nat, union_type: UnionType)
    ensures
        has_part(s.compiled(m, depth, index, union_type).0, combination(union_type, depth, index)),
{
    reveal(Shape::compiled);
    let ui = decimal(depth);
    let si = decimal(index);
    let hit = "u"@ + ui + "s"@ + si;
    let transform_name = hit + "p"@;
    let (tc, m1) = s.transform.compiled(transform_name, "pu"@ + ui, m);
    let (ss, m2) = s.current_shape.settings_compiled(m1);
    let (mat, m3) = s.material.compiled(m2);
    let (chk, m4) = s.transform.aabb_checked(m3);
    let un = union_type.compiled("u"@ + ui, hit, index);
    let (fin, m5) = s.transform.finalised(hit, m4);
    let a = chk + " {\n"@ + "\n      "@ + tc + "\n\n      Hit "@ + hit + " = Hit(\n         "@
        + s.current_shape.name_code() + "("@ + transform_name + ", "@ + ss + "),\n         "@ + mat
        + "\n      );\n      "@ + fin + "\n\n      "@;
    lemma_has_part_whole(a, un);
    lemma_has_part_right(a + un, "\n\n\n      "@, un);
    lemma_has_part_right(a + un + "\n\n\n      "@, "}\n"@, un);
    assert(s.compiled(m, depth, index, union_type).0 == a + un + "\n\n\n      "@ + "}\n"@);
}

proof fn lemma_shapes_combine(shapes: Seq<Shape>, m: CompModel, depth: nat, union_type: UnionType, k: int)
    requires
        0 <= k < shapes.len(),
    ensures
        has_part(shapes_compiled(shapes, m, depth, union_type).0, combination(union_type, depth, k as nat)),
    decreases shapes.len(),
{
    let (a, m1) = shapes_compiled(shapes.drop_last(), m, depth, union_type);
    let (b, m2) = shapes.last().compiled(m1, depth, (shapes.len() - 1) as nat, union_type);
    if k == shapes.len() - 1 {
        lemma_shape_block_combines(shapes.last(), m1, depth, k as nat, union_type);
        lemma_has_part_within(a, b, Seq::empty(), combination(union_type, depth, k as nat));
        assert(a + b + Seq::<char>::empty() =~= a + b);
    } else {
        lemma_shapes_combine(shapes.drop_last(), m, depth, union_type, k);
        lemma_has_part_within(Seq::empty(), a, b, combination(union_type, depth, k as nat));
        assert(Seq::<char>::empty() + a + b =~= a + b);
    }
}

/// Each shape of a union is combined into the union's hit by that union's
/// own combination type, whatever type combines the union itself into its
/// reference: in the block of a union entered at depth `depth`, shape `k`
/// (hit `u{depth+1}s{k}`) is assigned to `u{depth+1}` when it is the first,
/// and otherwise united with it (`opUnion`) or subtracted from it
/// (`opSubtraction`) as the union's type says.
pub proof fn lemma_union_shapes_use_its_own_type(
    u: Union,
    m: CompModel,
    reference: Seq<char>,
    depth: nat,
    union_type: UnionType,
    k: int,
)
    requires
        0 <= k < u.children_shapes@.len(),
    ensures
        ({
            let d = "u"@ + decimal(depth + 1);
            let w = d + "s"@ + decimal(k as nat);
            has_part(
                u.compiled(m, reference, depth, union_type).0,
                if k == 0 {
                    d + " = "@ + w + ";"@
                } else {
                    match u.union_type {
                        UnionType::Union => d + " = opUnion("@ + d + ", "@ + w + ");"@,
                        UnionType::Subtraction => d + " = opSubtraction("@ + d + ", "@ + w + ");"@,
                    }
                },
            )
        }),
{
    let d = depth + 1;
    let hit = "u"@ + decimal(d);
    let (tc, m1) = u.transform.compiled("pu"@ + decimal(d), "pu"@ + decimal(depth), m);
    let (cu, m2) = crate::sdf_editor::containers::unions_compiled(u.children_unions@, m1, hit, d, u.union_type);
    let (cs, m3) = shapes_compiled(u.children_shapes@, m2, d, u.union_type);
    let (fin, m4) = u.transform.finalised(hit, m3);
    let un = union_type.compiled(reference, hit, 1);
    lemma_shapes_combine(u.children_shapes@, m2, d, u.union_type, k);
    let t = combination(u.union_type, d, k as nat);
    let a = "{\n"@ + "Hit "@ + hit + " = MAXHIT; \n"@ + tc + "\n"@ + cu;
    lemma_has_part_left(a, cs, t);
    let x1 = a + cs;
    lemma_has_part_right(x1, fin, t);
    let x2 = x1 + fin;
    lemma_has_part_right(x2, "\n"@, t);
    let x3 = x2 + "\n"@;
    lemma_has_part_right(x3, un, t);
    let x4 = x3 + un;
    lemma_has_part_right(x4, "} //"@, t);
    let x5 = x4 + "} //"@;
    lemma_has_part_right(x5, u.name@, t);
    let x6 = x5 + u.name@;
    lemma_has_part_right(x6, "\n"@, t);
    assert(u.compiled(m, reference, depth, union_type).0 == x6 + "\n"@);
}

proof fn lemma_shape_box_sees_trail(s: Shape, m: CompModel)
    requires
        s.transform.aabb,
    ensures
        has_part(s.aabb_compiled(m).0, " * ( "@ + m.scale_trail + " "@),
        s.aabb_compiled(m).1.scale_trail == m.scale_trail,
{
    let (so, m1) = s.box_size(m);
    assert(m1.scale_trail == m.scale_trail);
    let sov = match so {
        None => "vec3(1.0)"@,
        Some(d) => d,
    };
    let (ex, n1) = s.transform.aabb_exaggeration.compiled(m1);
    let (p, n2) = s.transform.position.compiled(n1);
    let (sc, n3) = s.transform.scale.compiled(n2);
    let test = "(bool_hit(intersectAABB(ray, from_pos_size("@ + m1.pos_trail + " "@ + p + ", ("@ + sov
        + " * ( "@ + m1.scale_trail + " "@ + sc + ")) * "@ + ex + " ))))"@;
    assert(s.transform.aabb_compiled(so, m1).0 == test);
    let (_, m2) = s.transform.aabb_compiled(so, m1);
    let st = m1.scale_trail;
    let n = " * ( "@ + st + " "@;
    let q = "(bool_hit(intersectAABB(ray, from_pos_size("@ + m1.pos_trail + " "@ + p + ", ("@ + sov;
    lemma_assoc(q, " * ( "@, st);
    lemma_assoc(q, " * ( "@ + st, " "@);
    let y0 = q + " * ( "@ + st + " "@;
    assert(y0 == q + n);
    lemma_has_part_whole(q, n);
    lemma_has_part_right(y0, sc, n);
    let y1 = y0 + sc;
    lemma_has_part_right(y1, ")) * "@, n);
    let y2 = y1 + ")) * "@;
    lemma_has_part_right(y2, ex, n);
    let y3 = y2 + ex;
    lemma_has_part_right(y3, " ))))"@, n);
    let y4 = y3 + " ))))"@;
    assert(test == y4);
    lemma_has_part_left("\n      if "@, test, n);
    let z0 = "\n      if "@ + test;
    lemma_has_part_right(z0, " {\n\n      back["@, n);
    let z1 = z0 + " {\n\n      back["@;
    lemma_has_part_right(z1, decimal(m2.aabb_index as nat), n);
    let z2 = z1 + decimal(m2.aabb_index as nat);
    lemma_has_part_right(z2, "] = true;\n      debug += 0.1;\n\n      }\n      "@, n);
    assert(s.aabb_compiled(m).0 == z2 + "] = true;\n      debug += 0.1;\n\n      }\n      "@);
}

proof fn lemma_shapes_boxes_see_trail(shapes: Seq<Shape>, m: CompModel, k: int)
    requires
        0 <= k < shapes.len(),
        shapes[k].transform.aabb,
    ensures
        has_part(shapes_aabb_compiled(shapes, m).0, " * ( "@ + m.scale_trail + " "@),
    decreases shapes.len(),
{
    lemma_shapes_aabb_keep_trail(shapes.drop_last(), m);
    let (a, m1) = shapes_aabb_compiled(shapes.drop_last(), m);
    let (b, m2) = shapes.last().aabb_compiled(m1);
    let t = " * ( "@ + m.scale_trail + " "@;
    if k == shapes.len() - 1 {
        lemma_shape_box_sees_trail(shapes.last(), m1);
        lemma_has_part_within(a, b, Seq::empty(), t);
        assert(a + b + Seq::<char>::empty() =~= a + b);
    } else {
        assert(shapes.drop_last()[k] == shapes[k]);
        lemma_shapes_boxes_see_trail(shapes.drop_last(), m, k);
        lemma_has_part_within(Seq::empty(), a, b, t);
        assert(Seq::<char>::empty() + a + b =~= a + b);
    }
}

proof fn lemma_shapes_aabb_keep_trail(shapes: Seq<Shape>, m: CompModel)
    ensures
        shapes_aabb_compiled(shapes, m).1.scale_trail == m.scale_trail,
    decreases shapes.len(),
{
    if shapes.len() > 0 {
        lemma_shapes_aabb_keep_trail(shapes.drop_last(), m);
        let (_, m1) = shapes_aabb_compiled(shapes.drop_last(), m);
        let s = shapes.last();
        let (so, n1) = s.box_size(m1);
        assert(n1.scale_trail == m1.scale_trail);
        if s.transform.aabb {
            let (ex, k1) = s.transform.aabb_exaggeration.compiled(n1);
            let (p, k2) = s.transform.position.compiled(k1);
            assert(s.transform.scale.compiled(k2).1.scale_trail == m1.scale_trail);
        }
    }
}

/// The bounding box of each shape of a union is sized by the product of the
/// enclosing scales: while the union's shapes' tests are generated, the
/// union's own scale expression is appended to the enclosing scale trail as
/// a factor, so the test of a culled shape multiplies the enclosing trail,
/// the union's scale and the shape's scale (`( {trail} {union scale} * {shape scale})`).
pub proof fn lemma_union_scale_multiplies_into_boxes(u: Union, m: CompModel, k: int)
    requires
        0 <= k < u.children_shapes@.len(),
        u.children_shapes@[k].transform.aabb,
    ensures
        ({
            let (_, m1) = u.transform.position.compiled(m);
            let (scale, _) = u.transform.scale.compiled(m1);
            has_part(u.aabb_compiled(m).0, " * ( "@ + m.scale_trail + scale + " *"@ + " "@)
        }),
{
    let (pos, m1) = u.transform.position.compiled(m);
    let m1b = CompModel { pos_trail: m.pos_trail + pos + " +"@, ..m1 };
    let (sc, m2) = u.transform.scale.compiled(m1b);
    assert(sc == u.transform.scale.compiled(m1).0);
    let m2b = CompModel { scale_trail: m.scale_trail + sc + " *"@, ..m2 };
    lemma_shapes_boxes_see_trail(u.children_shapes@, m2b, k);
    assert(" * ( "@ + m2b.scale_trail + " "@ =~= " * ( "@ + m.scale_trail + sc + " *"@ + " "@);
}

} // verus!
