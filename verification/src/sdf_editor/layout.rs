use vstd::prelude::*;
use crate::sdf_editor::primitives::{CompModel, Float, V3};
use crate::sdf_editor::data_structures::{Material, Transform};
use crate::sdf_editor::containers::{
    shapes_compiled, shapes_same_layout, unions_compiled, unions_same_layout, Shape, Shapes, Union,
    UnionType,
};
use crate::sdf_editor::sdf_editor::map_compiled;

verus! {

// Generated code depends on the scene's structure and identities, never on
// the values of its number fields: those live in the data array. These
// lemmas show it layer by layer, for scenes that differ only in values,
// compiled from states that differ only in slot values.

/// A number field compiles to the same text whatever its value.
pub proof fn lemma_float_layout(a: Float, b: Float, ma: CompModel, mb: CompModel)
    requires
        a.same_layout(b),
        ma.same_but_values(mb),
    ensures
        a.compiled(ma).0 == b.compiled(mb).0,
        a.compiled(ma).1.same_but_values(b.compiled(mb).1),
{
}

/// A vector compiles to the same text whatever its values.
pub proof fn lemma_v3_layout(a: V3, b: V3, ma: CompModel, mb: CompModel)
    requires
        a.same_layout(b),
        ma.same_but_values(mb),
    ensures
        a.compiled(ma).0 == b.compiled(mb).0,
        a.compiled(ma).1.same_but_values(b.compiled(mb).1),
{
    lemma_float_layout(a.x, b.x, ma, mb);
    let (_, ma1) = a.x.compiled(ma);
    let (_, mb1) = b.x.compiled(mb);
    lemma_float_layout(a.y, b.y, ma1, mb1);
    let (_, ma2) = a.y.compiled(ma1);
    let (_, mb2) = b.y.compiled(mb1);
    lemma_float_layout(a.z, b.z, ma2, mb2);
}

/// A transform's code, scale correction and bounding-box test do not
/// depend on its values.
pub proof fn lemma_transform_layout(a: Transform, b: Transform, st: Seq<char>, reference: Seq<char>, ma: CompModel, mb: CompModel)
    requires
        a.same_layout(b),
        ma.same_but_values(mb),
    ensures
        a.compiled(st, reference, ma).0 == b.compiled(st, reference, mb).0,
        a.compiled(st, reference, ma).1.same_but_values(b.compiled(st, reference, mb).1),
        a.finalised(st, ma).0 == b.finalised(st, mb).0,
        a.finalised(st, ma).1.same_but_values(b.finalised(st, mb).1),
        a.aabb_checked(ma).0 == b.aabb_checked(mb).0,
        a.aabb_checked(ma).1.same_but_values(b.aabb_checked(mb).1),
{
    lemma_float_layout(a.scale, b.scale, ma, mb);
    let (_, ma1) = a.scale.compiled(ma);
    let (_, mb1) = b.scale.compiled(mb);
    lemma_v3_layout(a.position, b.position, ma1, mb1);
    let (_, ma2) = a.position.compiled(ma1);
    let (_, mb2) = b.position.compiled(mb1);
    lemma_float_layout(a.scale, b.scale, ma2, mb2);
    let (_, ma3) = a.scale.compiled(ma2);
    let (_, mb3) = b.scale.compiled(mb2);
    lemma_v3_layout(a.rotation, b.rotation, ma3, mb3);
    let (_, ma4) = a.rotation.compiled(ma3);
    let (_, mb4) = b.rotation.compiled(mb3);
    lemma_float_layout(a.aabb_exaggeration, b.aabb_exaggeration, ma4, mb4);
}

/// A material compiles to the same text whatever its values.
pub proof fn lemma_material_layout(a: Material, b: Material, ma: CompModel, mb: CompModel)
    requires
        a.same_layout(b),
        ma.same_but_values(mb),
    ensures
        a.compiled(ma).0 == b.compiled(mb).0,
        a.compiled(ma).1.same_but_values(b.compiled(mb).1),
{
    lemma_v3_layout(a.color, b.color, ma, mb);
    let (ta0, ma0) = a.color.compiled(ma);
    let (tb0, mb0) = b.color.compiled(mb);
    lemma_float_layout(a.brightness, b.brightness, ma0, mb0);
    let (ta1, ma1) = a.brightness.compiled(ma0);
    let (tb1, mb1) = b.brightness.compiled(mb0);
    lemma_v3_layout(a.light_col, b.light_col, ma1, mb1);
    let (ta2, ma2) = a.light_col.compiled(ma1);
    let (tb2, mb2) = b.light_col.compiled(mb1);
    lemma_float_layout(a.specular_chance, b.specular_chance, ma2, mb2);
    let (ta3, ma3) = a.specular_chance.compiled(ma2);
    let (tb3, mb3) = b.specular_chance.compiled(mb2);
    lemma_v3_layout(a.specular_color, b.specular_color, ma3, mb3);
    let (ta4, ma4) = a.specular_color.compiled(ma3);
    let (tb4, mb4) = b.specular_color.compiled(mb3);
    lemma_float_layout(a.roughness, b.roughness, ma4, mb4);
    let (ta5, ma5) = a.roughness.compiled(ma4);
    let (tb5, mb5) = b.roughness.compiled(mb4);
    lemma_float_layout(a.ior, b.ior, ma5, mb5);
    let (ta6, ma6) = a.ior.compiled(ma5);
    let (tb6, mb6) = b.ior.compiled(mb5);
    lemma_float_layout(a.refract_chance, b.refract_chance, ma6, mb6);
    let (ta7, ma7) = a.refract_chance.compiled(ma6);
    let (tb7, mb7) = b.refract_chance.compiled(mb6);
    lemma_float_layout(a.refract_roughness, b.refract_roughness, ma7, mb7);
    let (ta8, ma8) = a.refract_roughness.compiled(ma7);
    let (tb8, mb8) = b.refract_roughness.compiled(mb7);
    lemma_v3_layout(a.refract_color, b.refract_color, ma8, mb8);
    let (ta9, ma9) = a.refract_color.compiled(ma8);
    let (tb9, mb9) = b.refract_color.compiled(mb8);
}

/// A shape's block does not depend on its values.
pub proof fn lemma_shape_layout(a: Shape, b: Shape, ma: CompModel, mb: CompModel, depth: nat, index: nat, union_type: UnionType)
    requires
        a.same_layout(b),
        ma.same_but_values(mb),
    ensures
        a.compiled(ma, depth, index, union_type).0 == b.compiled(mb, depth, index, union_type).0,
        a.compiled(ma, depth, index, union_type).1.same_but_values(b.compiled(mb, depth, index, union_type).1),
{
    reveal(Shape::compiled);
    let ui = crate::text::decimal(depth);
    let si = crate::text::decimal(index);
    let hit = "u"@ + ui + "s"@ + si;
    let transform_name = hit + "p"@;
    lemma_transform_layout(a.transform, b.transform, transform_name, "pu"@ + ui, ma, mb);
    let (_, ma1) = a.transform.compiled(transform_name, "pu"@ + ui, ma);
    let (_, mb1) = b.transform.compiled(transform_name, "pu"@ + ui, mb);
    match (a.current_shape, b.current_shape) {
        (Shapes::Sphere(x), Shapes::Sphere(y)) => lemma_float_layout(x, y, ma1, mb1),
        (Shapes::Cube(x), Shapes::Cube(y)) => lemma_v3_layout(x, y, ma1, mb1),
        _ => {},
    }
    let (_, ma2) = a.current_shape.settings_compiled(ma1);
    let (_, mb2) = b.current_shape.settings_compiled(mb1);
    lemma_material_layout(a.material, b.material, ma2, mb2);
    let (_, ma3) = a.material.compiled(ma2);
    let (_, mb3) = b.material.compiled(mb2);
    lemma_transform_layout(a.transform, b.transform, hit, hit, ma3, mb3);
    let (_, ma4) = a.transform.aabb_checked(ma3);
    let (_, mb4) = b.transform.aabb_checked(mb3);
    lemma_transform_layout(a.transform, b.transform, hit, hit, ma4, mb4);
}

/// The blocks of a list of shapes do not depend on their values.
pub proof fn lemma_shapes_layout(a: Seq<Shape>, b: Seq<Shape>, ma: CompModel, mb: CompModel, depth: nat, union_type: UnionType)
    requires
        shapes_same_layout(a, b),
        ma.same_but_values(mb),
    ensures
        shapes_compiled(a, ma, depth, union_type).0 == shapes_compiled(b, mb, depth, union_type).0,
        shapes_compiled(a, ma, depth, union_type).1.same_but_values(shapes_compiled(b, mb, depth, union_type).1),
    decreases a.len(),
{
    if a.len() > 0 {
        assert(shapes_same_layout(a.drop_last(), b.drop_last()));
        lemma_shapes_layout(a.drop_last(), b.drop_last(), ma, mb, depth, union_type);
        let (_, ma1) = shapes_compiled(a.drop_last(), ma, depth, union_type);
        let (_, mb1) = shapes_compiled(b.drop_last(), mb, depth, union_type);
        assert(a.last().same_layout(b.last()));
        lemma_shape_layout(a.last(), b.last(), ma1, mb1, depth, (a.len() - 1) as nat, union_type);
    }
}

/// A union's block does not depend on the values below it.
pub proof fn lemma_union_layout(a: Union, b: Union, ma: CompModel, mb: CompModel, reference: Seq<char>, in_union_depth: nat, union_type: UnionType)
    requires
        a.same_layout(b),
        ma.same_but_values(mb),
    ensures
        a.compiled(ma, reference, in_union_depth, union_type).0 == b.compiled(mb, reference, in_union_depth, union_type).0,
        a.compiled(ma, reference, in_union_depth, union_type).1.same_but_values(
            b.compiled(mb, reference, in_union_depth, union_type).1,
        ),
    decreases a, 1int,
{
    let d = in_union_depth + 1;
    let hit = "u"@ + crate::text::decimal(d);
    lemma_transform_layout(a.transform, b.transform, "pu"@ + crate::text::decimal(d), "pu"@ + crate::text::decimal(in_union_depth), ma, mb);
    let (_, ma1) = a.transform.compiled("pu"@ + crate::text::decimal(d), "pu"@ + crate::text::decimal(in_union_depth), ma);
    let (_, mb1) = b.transform.compiled("pu"@ + crate::text::decimal(d), "pu"@ + crate::text::decimal(in_union_depth), mb);
    lemma_unions_layout(a.children_unions@, b.children_unions@, ma1, mb1, hit, d, a.union_type);
    let (_, ma2) = unions_compiled(a.children_unions@, ma1, hit, d, a.union_type);
    let (_, mb2) = unions_compiled(b.children_unions@, mb1, hit, d, b.union_type);
    lemma_shapes_layout(a.children_shapes@, b.children_shapes@, ma2, mb2, d, a.union_type);
    let (_, ma3) = shapes_compiled(a.children_shapes@, ma2, d, a.union_type);
    let (_, mb3) = shapes_compiled(b.children_shapes@, mb2, d, b.union_type);
    lemma_transform_layout(a.transform, b.transform, hit, hit, ma3, mb3);
}

/// The blocks of a list of unions do not depend on the values below them.
pub proof fn lemma_unions_layout(a: Seq<Union>, b: Seq<Union>, ma: CompModel, mb: CompModel, reference: Seq<char>, depth: nat, union_type: UnionType)
    requires
        unions_same_layout(a, b),
        ma.same_but_values(mb),
    ensures
        unions_compiled(a, ma, reference, depth, union_type).0 == unions_compiled(b, mb, reference, depth, union_type).0,
        unions_compiled(a, ma, reference, depth, union_type).1.same_but_values(
            unions_compiled(b, mb, reference, depth, union_type).1,
        ),
    decreases a, 0int,
{
    if a.len() > 0 {
        lemma_unions_layout(a.drop_last(), b.drop_last(), ma, mb, reference, depth, union_type);
        let (_, ma1) = unions_compiled(a.drop_last(), ma, reference, depth, union_type);
        let (_, mb1) = unions_compiled(b.drop_last(), mb, reference, depth, union_type);
        lemma_union_layout(a.last(), b.last(), ma1, mb1, reference, depth, union_type);
    }
}

/// The generated `map` function depends only on the scene's structure and
/// identities: scenes that differ only in the values of their number
/// fields, compiled from states that differ only in slot values, give the
/// same code (and states that again differ only in slot values). This is
/// why editing a value only queues a data update, not a recompilation.
pub proof fn lemma_map_independent_of_values(a: Seq<Union>, b: Seq<Union>, ma: CompModel, mb: CompModel)
    requires
        unions_same_layout(a, b),
        ma.same_but_values(mb),
    ensures
        map_compiled(a, ma).0 == map_compiled(b, mb).0,
        map_compiled(a, ma).1.same_but_values(map_compiled(b, mb).1),
{
    lemma_unions_layout(a, b, ma, mb, "start"@, 0, UnionType::Union);
}

} // verus!
