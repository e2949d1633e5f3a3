use compute_path_tracer::sdf_editor::primitives::{
    CompData, DataArray, Float, V3, DATA_PLACEHOLDER, F32_MAX_BITS, F32_NEG_MAX_BITS, F32_ONE,
    F32_ONE_POINT_THREE, F32_ZERO, S1, S2,
};
use compute_path_tracer::sdf_editor::data_structures::{Material, Transform};
use compute_path_tracer::sdf_editor::containers::{Shape, Shapes, Union, UnionType};
use compute_path_tracer::sdf_editor::primitives::HashSource;

fn hs() -> HashSource {
    HashSource::from_os().expect("the entropy source failed")
}

fn s(x: &str) -> String {
    x.to_string()
}

#[test]
fn float_constructors() {
    let f = Float::new("a", S1, 2.5f32.to_bits(), F32_ZERO, F32_MAX_BITS, &mut hs());
    assert_eq!(f.name, "a");
    assert_eq!(f.val, 2.5f32.to_bits());
    assert_eq!((f.range_start, f.range_end, f.speed), (F32_ZERO, F32_MAX_BITS, S1));
    let i = Float::inv("b", S2, F32_ONE, &mut hs());
    assert_eq!((i.range_start, i.range_end), (F32_NEG_MAX_BITS, F32_MAX_BITS));
    assert_eq!(f32::from_bits(i.range_start), -f32::MAX);
    let p = Float::percent("c", S1, F32_ZERO, &mut hs());
    assert_eq!((f32::from_bits(p.range_start), f32::from_bits(p.range_end)), (0.0, 1.0));
}

#[test]
fn float_bit_constants() {
    assert_eq!(f32::from_bits(S1), 0.001);
    assert_eq!(f32::from_bits(S2), 0.01);
    assert_eq!(f32::from_bits(compute_path_tracer::sdf_editor::primitives::S3), 0.1);
    assert_eq!(f32::from_bits(F32_ONE_POINT_THREE), 1.3);
    assert_eq!(f32::from_bits(DATA_PLACEHOLDER), 6969.69);
    assert_eq!(f32::from_bits(F32_MAX_BITS), f32::MAX);
}

#[test]
fn fresh_fields_get_distinct_hashes() {
    let a = Float::inv("X", S1, F32_ONE, &mut hs());
    let b = Float::inv("X", S1, F32_ONE, &mut hs());
    assert_ne!(a.hash, b.hash);
}

#[test]
fn get_index_registers_new_hashes_in_order() {
    let mut d = DataArray::new();
    assert_eq!(d.get_index(11, 100), "data[0]");
    assert_eq!(d.get_index(22, 200), "data[1]");
    assert_eq!(d.get_index(33, 100), "data[0]");
    assert_eq!(d.data, vec![11, 22]);
    assert_eq!(d.seen.len(), 2);
    assert_eq!(d.counter, 0);
}

#[test]
fn get_index_counts_past_nine() {
    let mut d = DataArray::new();
    for h in 0..11u128 {
        d.get_index(h as u32, h);
    }
    assert_eq!(d.get_index(0, 10), "data[10]");
    assert_eq!(d.get_index(0, 11), "data[11]");
}

#[test]
fn refresh_writes_the_slot() {
    let mut d = DataArray::new();
    d.get_index(1, 7);
    d.get_index(2, 8);
    d.refresh(8, 99);
    assert_eq!(d.data, vec![1, 99]);
}

#[test]
fn reset_leaves_placeholder() {
    let mut c = CompData::new();
    c.data_array.get_index(5, 1);
    c.reset_data_array();
    assert_eq!(c.data_array.data, vec![DATA_PLACEHOLDER]);
    assert!(c.data_array.seen.is_empty());
    assert_eq!(c.data_array.get_index(5, 1), "data[1]");
}

#[test]
fn check_alternates() {
    let mut c = CompData::new();
    assert!(c.check());
    assert!(!c.check());
    assert!(c.check());
}

#[test]
fn comp_data_starts_with_everything_queued() {
    let c = CompData::new();
    assert!(c.checker);
    assert!(c.rec_update.queue_compile && c.rec_update.queue_update);
    assert!(c.data_array.data.is_empty());
    assert_eq!(c.aabb_index, 0);
}

#[test]
fn float_and_v3_compile() {
    let mut c = CompData::new();
    let f = Float::inv("Size", S2, F32_ONE, &mut hs());
    assert_eq!(f.compile(&mut c), "data[0]");
    let v = V3::xyz("Position", S2, F32_ZERO, &mut hs());
    assert_eq!(v.compile(&mut c), "vec3(data[1], data[2], data[3])");
    assert_eq!(v.compile(&mut c), "vec3(data[1], data[2], data[3])");
    assert_eq!(c.data_array.data, vec![F32_ONE, 0, 0, 0]);
    assert_eq!(V3::rgb("c", &mut hs()).x.val, F32_ONE);
}

#[test]
fn transform_compile_text() {
    let mut c = CompData::new();
    let t = Transform::new(&mut hs());
    let out = t.compile(&s("p"), &mut c, &s("q"));
    assert_eq!(
        out,
        "vec3 p = q;\n p *= 1.0 / data[0];\n p = move(p, vec3(data[1], data[2], data[3]) * (1.0 / data[0]));\n p = rot3D(p, vec3(data[4], data[5], data[6]));"
    );
    assert_eq!(c.data_array.data, vec![F32_ONE, 0, 0, 0, 0, 0, 0, F32_ONE_POINT_THREE]);
    assert_eq!(t.finalise_scale(&s("u1"), &mut c), "u1.d /= 1.0 / data[0];");
}

#[test]
fn aabb_check_uses_a_slot_either_way() {
    let mut c = CompData::new();
    let mut t = Transform::new(&mut hs());
    assert_eq!(t.aabb_check(&mut c), "if (check[0]) ");
    t.aabb = false;
    assert_eq!(t.aabb_check(&mut c), "if (true)");
    assert_eq!(c.aabb_index, 2);
}

#[test]
fn transform_aabb_compile_text() {
    let mut c = CompData::new();
    c.aabb_pos_trail = s("P +");
    c.aabb_scale_trail = s("S *");
    let mut t = Transform::new(&mut hs());
    let out = t.aabb_compile(&mut c, None);
    assert_eq!(
        out,
        "(bool_hit(intersectAABB(ray, from_pos_size(P + vec3(data[1], data[2], data[3]), (vec3(1.0) * ( S * data[4])) * data[0] ))))"
    );
    t.aabb = false;
    assert_eq!(t.aabb_compile(&mut c, Some(s("x"))), "(false)");
}

#[test]
fn material_compile_text() {
    let mut c = CompData::new();
    let m = Material::new(&mut hs());
    assert_eq!(
        m.compile(&mut c),
        "Mat(vec3(data[0], data[1], data[2]), data[3], vec3(data[4], data[5], data[6]), data[7], vec3(data[8], data[9], data[10]), data[11], data[12], data[13], data[14], vec3(data[15], data[16], data[17]))"
    );
    assert_eq!(c.data_array.data.len(), 18);
    assert_eq!(c.data_array.data[0], F32_ONE);
    assert_eq!(c.data_array.data[3], F32_ZERO);
}

#[test]
fn union_type_compile() {
    assert_eq!(UnionType::Union.compile(&s("a"), &s("b"), 0), "a = b;");
    assert_eq!(UnionType::Subtraction.compile(&s("a"), &s("b"), 0), "a = b;");
    assert_eq!(UnionType::Union.compile(&s("a"), &s("b"), 1), "a = opUnion(a, b);");
    assert_eq!(UnionType::Subtraction.compile(&s("a"), &s("b"), 7), "a = opSubtraction(a, b);");
    assert_eq!(UnionType::Union.text(), "Union");
    assert_eq!(UnionType::Subtraction.text(), "Subtraction");
}

#[test]
fn shapes_names() {
    let sphere = Shapes::default(&mut hs());
    assert_eq!(sphere.text(), "Sphere");
    assert_eq!(sphere.compile_name(), "sdSphere");
    let cube = Shapes::Cube(V3::xyz("Size", S2, F32_ONE, &mut hs()));
    assert_eq!(cube.text(), "Cube");
    assert_eq!(cube.compile_name(), "sdCube");
    assert_eq!(Shapes::Plane.text(), "Plane");
    assert_eq!(Shapes::Plane.compile_name(), "NotImplemented");
    let mut c = CompData::new();
    assert_eq!(Shapes::Plane.compile_settings(&mut c), "NotImplemented");
    assert_eq!(cube.compile_settings(&mut c), "vec3(data[0], data[1], data[2])");
}

#[test]
fn shape_compile_text() {
    let mut c = CompData::new();
    let shape = Shape::new(&mut hs());
    let out = shape.compile(&mut c, 1, 0, &UnionType::Union);
    let transform_code = "vec3 u1s0p = pu1;\n u1s0p *= 1.0 / data[0];\n u1s0p = move(u1s0p, vec3(data[1], data[2], data[3]) * (1.0 / data[0]));\n u1s0p = rot3D(u1s0p, vec3(data[4], data[5], data[6]));";
    let shape_name = "sdSphere";
    let transform_name = "u1s0p";
    let shape_settings = "data[8]";
    let material = "Mat(vec3(data[9], data[10], data[11]), data[12], vec3(data[13], data[14], data[15]), data[16], vec3(data[17], data[18], data[19]), data[20], data[21], data[22], data[23], vec3(data[24], data[25], data[26]))";
    let union = "u1 = u1s0;";
    let ui = 1;
    let si = 0;
    let mut expected = String::new();
    expected.push_str(format!("{} {{\n", "if (check[0]) ").as_str());
    expected.push_str(format!(r#"
      {transform_code}

      Hit u{ui}s{si} = Hit(
         {shape_name}({transform_name}, {shape_settings}),
         {material}
      );
      {}

      {union}


      "#, "u1s0.d /= 1.0 / data[0];").as_str());
    expected.push_str("}\n");
    assert_eq!(out, expected);
    assert_eq!(c.aabb_index, 1);
    assert_eq!(c.data_array.data.len(), 27);
}

#[test]
fn second_shape_combines_with_union() {
    let mut c = CompData::new();
    let shape = Shape::new(&mut hs());
    let out = shape.compile(&mut c, 2, 3, &UnionType::Subtraction);
    assert!(out.contains("u2 = opSubtraction(u2, u2s3);"));
    assert!(out.contains("Hit u2s3 = Hit("));
}

#[test]
fn shape_aabb_compile_text() {
    let mut c = CompData::new();
    let shape = Shape::new(&mut hs());
    let out = shape.aabb_compile(&mut c);
    let test = "(bool_hit(intersectAABB(ray, from_pos_size( vec3(data[2], data[3], data[4]), (vec3(data[0]) * (  data[5])) * data[1] ))))";
    let expected = format!(r#"
      if {} {{

      back[{}] = true;
      debug += 0.1;

      }}
      "#, test, 0);
    assert_eq!(out, expected);
    assert_eq!(c.aabb_index, 1);
}

#[test]
fn union_compile_structure() {
    let mut c = CompData::new();
    let mut u = Union::new(&mut hs());
    u.add_shape(&mut c, &mut hs());
    let mut parts = CompData::new();
    let t = u.transform.compile(&s("pu1"), &mut parts, &s("pu0"));
    let sh = u.children_shapes[0].compile(&mut parts, 1, 0, &UnionType::Union);
    let fin = u.transform.finalise_scale(&s("u1"), &mut parts);
    let out = u.compile(&mut c, &s("start"), 0, &UnionType::Union);
    let expected = format!(
        "{{\nHit u1 = MAXHIT; \n{}\n{}{}\nstart = opUnion(start, u1);}} //Union\n",
        t, sh, fin
    );
    assert_eq!(out, expected);
    assert_eq!(c.data_array.data, parts.data_array.data);
    assert_eq!(c.aabb_index, 1);
}

#[test]
fn nested_union_compiles_deeper() {
    let mut c = CompData::new();
    let mut outer = Union::new(&mut hs());
    outer.add_union(&mut c, &mut hs());
    outer.children_unions[0].add_shape(&mut c, &mut hs());
    let out = outer.compile(&mut c, &s("start"), 0, &UnionType::Union);
    assert!(out.contains("Hit u2 = MAXHIT;"));
    assert!(out.contains("vec3 pu2 = pu1;"));
    assert!(out.contains("u1 = opUnion(u1, u2);"));
    assert!(out.contains("u2 = u2s0;"));
    assert_eq!(c.aabb_index, 1);
}

#[test]
fn union_aabb_compile_restores_trails() {
    let mut c = CompData::new();
    let mut u = Union::new(&mut hs());
    u.add_shape(&mut c, &mut hs());
    u.add_shape(&mut c, &mut hs());
    let out = u.aabb_compile(&mut c);
    assert!(out.contains("from_pos_size(vec3(data[0], data[1], data[2]) +"));
    assert!(out.contains("back[0] = true;"));
    assert!(out.contains("back[1] = true;"));
    assert_eq!(c.aabb_pos_trail, "");
    assert_eq!(c.aabb_scale_trail, "");
    assert_eq!(c.aabb_index, 2);
}

#[test]
fn refresh_writes_current_values() {
    let mut c = CompData::new();
    let mut u = Union::new(&mut hs());
    u.add_shape(&mut c, &mut hs());
    u.compile(&mut c, &s("start"), 0, &UnionType::Union);
    assert!(u.is_registered(&c));
    u.transform.position.x.val = 4.0f32.to_bits();
    u.children_shapes[0].material.brightness.val = 2.0f32.to_bits();
    let len = c.data_array.data.len();
    u.refresh(&mut c);
    assert_eq!(c.data_array.data.len(), len);
    assert_eq!(c.data_array.data[1], 4.0f32.to_bits());
    assert!(c.data_array.data.contains(&2.0f32.to_bits()));
}

#[test]
fn unregistered_union_is_detected() {
    let c = CompData::new();
    let u = Union::new(&mut hs());
    assert!(!u.is_registered(&c));
}

#[test]
fn duplicate_keeps_everything_but_identity() {
    let shape = Shape::new(&mut hs());
    let copy = shape.duplicate(&mut hs());
    assert_eq!(copy.name, shape.name);
    assert_eq!(copy.transform.scale.val, shape.transform.scale.val);
    assert_ne!(copy.transform.scale.hash, shape.transform.scale.hash);
    let mut f = Float::inv("X", S1, F32_ONE, &mut hs());
    let old = f.hash;
    f.rehash(&mut hs());
    assert_ne!(f.hash, old);
    assert_eq!(f.val, F32_ONE);
}

#[test]
fn union_depth_and_budget_checks() {
    let mut c = CompData::new();
    let mut u = Union::new(&mut hs());
    u.add_shape(&mut c, &mut hs());
    u.add_union(&mut c, &mut hs());
    u.children_unions[0].add_shape(&mut c, &mut hs());
    assert_eq!(u.shapes_within(5), Some(3));
    assert_eq!(u.shapes_within(1), None);
    assert!(u.fits_depth(0));
    assert!(!u.fits_depth(u32::MAX));
    assert!(!u.fits_depth(u32::MAX - 1));
}
