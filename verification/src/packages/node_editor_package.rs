use vstd::prelude::*;
use crate::text::{decimal, push_decimal};

verus! {

/// The `map` function of an empty node scene.
pub open spec fn empty_map() -> Seq<char> {
    "\n            Hit map(vec3 pos) {{ return Hit(10000.0, MDEF); }}\n         "@
}

/// The concatenation of `parts`.
pub open spec fn concat(parts: Seq<Seq<char>>) -> Seq<char>
    decreases parts.len(),
{
    if parts.len() == 0 {
        Seq::empty()
    } else {
        concat(parts.drop_last()) + parts.last()
    }
}

/// The `map` function of a node scene whose nodes' code is `node_maps`, in
/// order: the shapes array, each node's code, and the loop that unites them.
pub open spec fn node_map(node_maps: Seq<Seq<char>>) -> Seq<char> {
    if node_maps.len() == 0 {
        empty_map()
    } else {
        let n = decimal(node_maps.len());
        "Hit map(vec3 pos) { \n"@ + "Hit["@ + n + "] shapes;\n"@ + "vec3 tr;\n"@ + concat(node_maps)
            + "\n      Hit back = Hit(10000.0, MDEF);\n      for (int i = 0; i < "@ + n
            + "; i ++) {\n         back = opUnion(back, shapes[i]);\n      }\n\n      return back;\n   }\n\n      "@
    }
}

/// Assembles the node scene's `map` function from the code of its nodes.
pub fn generate_map_from(node_maps: &Vec<String>) -> (res: String)
    ensures
        res@ == node_map(node_maps@.map_values(|m: String| m@)),
{
    let ghost parts = node_maps@.map_values(|m: String| m@);
    let mut map = String::new();
    if node_maps.len() == 0 {
        map.append("\n            Hit map(vec3 pos) {{ return Hit(10000.0, MDEF); }}\n         ");
        return map;
    }
    map.append("Hit map(vec3 pos) { \n");
    map.append("Hit[");
    push_decimal(&mut map, node_maps.len() as u64);
    map.append("] shapes;\n");
    map.append("vec3 tr;\n");
    let ghost head = map@;
    let mut i: usize = 0;
    while i < node_maps.len()
        invariant
            0 <= i <= node_maps@.len(),
            parts == node_maps@.map_values(|m: String| m@),
            map@ == head + concat(parts.subrange(0, i as int)),
        decreases node_maps@.len() - i,
    {
        proof {
            assert(parts.subrange(0, i + 1).drop_last() =~= parts.subrange(0, i as int));
        }
        map.append(node_maps[i].as_str());
        i = i + 1;
        proof {
            assert(map@ =~= head + concat(parts.subrange(0, i as int)));
        }
    }
    proof {
        assert(parts.subrange(0, i as int) =~= parts);
    }
    map.append("\n      Hit back = Hit(10000.0, MDEF);\n      for (int i = 0; i < ");
    push_decimal(&mut map, node_maps.len() as u64);
    map.append("; i ++) {\n         back = opUnion(back, shapes[i]);\n      }\n\n      return back;\n   }\n\n      ");
    map
}

/// The title of a node added to a list of `len` nodes: its number, counted
/// from one.
pub fn node_title(len: usize) -> (res: String)
    requires
        len < usize::MAX,
    ensures
        res@ == decimal((len + 1) as nat),
{
    let mut title = String::new();
    push_decimal(&mut title, (len + 1) as u64);
    title
}

/// The node list after one frame of the map editor: the node at `kill` is
/// removed, then `add` is appended. Returns whether the list changed.
pub fn apply_node_edits<T>(nodes: &mut Vec<T>, kill: Option<usize>, add: Option<T>) -> (changed: bool)
    requires
        kill matches Some(i) ==> i < old(nodes)@.len(),
    ensures
        ({
            let kept = match kill {
                Some(i) => old(nodes)@.remove(i as int),
                None => old(nodes)@,
            };
            final(nodes)@ == match add {
                Some(n) => kept.push(n),
                None => kept,
            }
        }),
        changed == (kill is Some || add is Some),
{
    let mut changed = false;
    if let Some(index) = kill {
        nodes.remove(index);
        changed = true;
    }
    if let Some(node) = add {
        nodes.push(node);
        changed = true;
    }
    changed
}

} // verus!
