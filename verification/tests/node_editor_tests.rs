use compute_path_tracer::packages::node_editor_package::generate_map_from;

#[test]
fn empty_node_scene_map() {
    let map = generate_map_from(&vec![]);
    assert_eq!(map, "\n            Hit map(vec3 pos) {{ return Hit(10000.0, MDEF); }}\n         ");
}

#[test]
fn node_scene_map_unites_all_nodes() {
    let nodes = vec!["A;".to_string(), "B;".to_string()];
    let map = generate_map_from(&nodes);
    let mut expected = String::new();
    expected.push_str("Hit map(vec3 pos) { \n");
    expected.push_str(format!("Hit[{}] shapes;\n", 2).as_str());
    expected.push_str("vec3 tr;\n");
    expected.push_str("A;");
    expected.push_str("B;");
    expected.push_str(format!(r#"
      Hit back = Hit(10000.0, MDEF);
      for (int i = 0; i < {}; i ++) {{
         back = opUnion(back, shapes[i]);
      }}

      return back;
   }}

      "#, 2).as_str());
    assert_eq!(map, expected);
}
