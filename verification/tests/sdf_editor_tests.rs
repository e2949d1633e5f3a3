use compute_path_tracer::sdf_editor::primitives::{CompData, DATA_PLACEHOLDER};
use compute_path_tracer::sdf_editor::containers::{unions_are_registered, UnionType};
use compute_path_tracer::sdf_editor::sdf_editor::{SDFEditor, SDFEditorPackage};
use compute_path_tracer::sdf_editor::primitives::HashSource;

fn hs() -> HashSource {
    HashSource::from_os().expect("the entropy source failed")
}

const HEADER: &str = "\n      #define MAXHIT Hit(10000.0, MDEF)\n\n      Hit map(vec3 pu0) {\n         Hit start = MAXHIT;\n\n      ";
const FOOTER: &str = "\n         return start;\n      }\n\n      ";

#[test]
fn new_editor_has_one_union_with_one_shape() {
    let e = SDFEditor::new(&mut hs());
    assert_eq!(e.header_unions.len(), 1);
    assert_eq!(e.header_unions[0].children_shapes.len(), 1);
    assert_eq!(e.header_unions[0].name, "Union");
    assert_eq!(e.header_unions[0].union_type, UnionType::Union);
    assert_eq!(e.save_name, "");
}

#[test]
fn editor_compile_wraps_unions() {
    let mut e = SDFEditor::new(&mut hs());
    let mut c = CompData::new();
    let mut parts = CompData::new();
    let body = e.header_unions[0].compile(&mut parts, &"start".to_string(), 0, &UnionType::Union);
    let map = e.compile(&mut c);
    assert_eq!(map, format!("{}{}{}", HEADER, body, FOOTER));
}

#[test]
fn first_update_compiles_and_uploads() {
    let mut p = SDFEditorPackage::new(hs());
    assert!(p.can_update());
    let (map, upload) = p.update();
    let map = map.expect("a compile was queued");
    assert!(map.starts_with(HEADER));
    assert!(map.ends_with(FOOTER));
    assert!(upload);
    assert_eq!(p.comp_data.data_array.data[0], DATA_PLACEHOLDER);
    assert_eq!(p.comp_data.data_array.data.len(), 1 + 8 + 8 + 1 + 18);
    assert!(!p.comp_data.rec_update.queue_compile && !p.comp_data.rec_update.queue_update);
    assert!(p.comp_data.checker);
}

#[test]
fn idle_update_does_nothing() {
    let mut p = SDFEditorPackage::new(hs());
    p.update();
    let data = p.comp_data.data_array.data.clone();
    let (map, upload) = p.update();
    assert!(map.is_none());
    assert!(!upload);
    assert_eq!(p.comp_data.data_array.data, data);
}

#[test]
fn value_edit_only_refreshes_data() {
    let mut p = SDFEditorPackage::new(hs());
    p.update();
    p.sdfeditor.header_unions[0].transform.position.y.val = 7.0f32.to_bits();
    p.comp_data.rec_update.update();
    assert!(p.can_update());
    let (map, upload) = p.update();
    assert!(map.is_none());
    assert!(upload);
    assert_eq!(p.comp_data.data_array.data[3], 7.0f32.to_bits());
}

#[test]
fn compiled_map_ignores_values() {
    let mut a = SDFEditor::new(&mut hs());
    let mut ca = CompData::new();
    let map_before = a.compile(&mut ca);
    a.header_unions[0].children_shapes[0].transform.scale.val = 3.0f32.to_bits();
    let mut cb = CompData::new();
    let map_after = a.compile(&mut cb);
    assert_eq!(map_before, map_after);
    assert_ne!(ca.data_array.data, cb.data_array.data);
}

#[test]
fn refresh_of_unregistered_scene_is_refused() {
    let mut p = SDFEditorPackage::new(hs());
    p.comp_data.rec_update.reset();
    p.comp_data.rec_update.update();
    assert!(!p.can_update());
}

#[test]
fn editor_add_and_delete_union() {
    let mut e = SDFEditor::new(&mut hs());
    let mut c = CompData::new();
    c.rec_update.reset();
    e.add_union(&mut c, &mut hs());
    assert_eq!(e.header_unions.len(), 2);
    assert!(e.header_unions[1].children_shapes.is_empty());
    assert!(c.rec_update.queue_compile && c.rec_update.queue_update);
    c.rec_update.reset();
    e.delete_union(&mut c, 0);
    assert_eq!(e.header_unions.len(), 1);
    assert!(e.header_unions[0].children_shapes.is_empty());
    assert!(c.rec_update.queue_compile && c.rec_update.queue_update);
}

#[test]
fn union_child_edits() {
    let mut e = SDFEditor::new(&mut hs());
    let mut c = CompData::new();
    let u = &mut e.header_unions[0];
    u.add_shape(&mut c, &mut hs());
    assert_eq!(u.children_shapes.len(), 2);
    u.duplicate_shape(&mut c, 0, &mut hs());
    assert_eq!(u.children_shapes.len(), 3);
    assert_eq!(u.children_shapes[2].name, u.children_shapes[0].name);
    assert_ne!(u.children_shapes[2].material.color.x.hash, u.children_shapes[0].material.color.x.hash);
    u.delete_shape(&mut c, 1);
    assert_eq!(u.children_shapes.len(), 2);
    u.add_union(&mut c, &mut hs());
    assert_eq!(u.children_unions.len(), 1);
    u.delete_union(&mut c, 0);
    assert!(u.children_unions.is_empty());
}

#[test]
fn recompile_after_structure_edit() {
    let mut p = SDFEditorPackage::new(hs());
    p.update();
    p.sdfeditor.header_unions[0].add_shape(&mut p.comp_data, &mut hs());
    assert!(p.can_update());
    let (map, upload) = p.update();
    let map = map.unwrap();
    assert!(map.contains("Hit u1s1 = Hit("));
    assert!(upload);
    assert_eq!(p.comp_data.aabb_index, 3);
}

#[test]
fn compiling_update_registers_every_field() {
    let mut p = SDFEditorPackage::new(hs());
    p.sdfeditor.add_union(&mut p.comp_data, &mut hs());
    p.sdfeditor.header_unions[1].add_shape(&mut p.comp_data, &mut hs());
    p.sdfeditor.header_unions[1].add_union(&mut p.comp_data, &mut hs());
    assert!(!unions_are_registered(&p.sdfeditor.header_unions, &p.comp_data));
    p.update();
    assert!(unions_are_registered(&p.sdfeditor.header_unions, &p.comp_data));
    p.sdfeditor.header_unions[1].children_shapes[0].transform.scale.val = 2.0f32.to_bits();
    p.comp_data.rec_update.update();
    assert!(p.can_update());
}
