use vstd::prelude::*;
use crate::text::{decimal, push_decimal};
use crate::sdf_editor::primitives::{HashSource, 
    CompData, CompModel, Float, V3, F32_MAX_BITS, F32_ONE, F32_ONE_POINT_THREE, F32_TEN,
    F32_ZERO, F32_NEG_MAX_BITS, S1, S2,
};

verus! {

/// Placement of a scene node: position, rotation and uniform scale, and
/// whether (and how generously) it is culled by a bounding box.
#[derive(Debug, Clone, PartialEq)]
pub struct Transform {
    pub position: V3,
    pub rotation: V3,
    pub scale: Float,
    pub aabb_exaggeration: Float,
    pub aabb: bool,
}

impl Transform {
    /// The statements that move the point `st` (initialised from
    /// `reference`) into the node's local frame.
    pub open spec fn compiled(self, st: Seq<char>, reference: Seq<char>, m: CompModel) -> (
        Seq<char>,
        CompModel,
    ) {
        let (sc1, m1) = self.scale.compiled(m);
        let (p, m2) = self.position.compiled(m1);
        let (sc2, m3) = self.scale.compiled(m2);
        let (r, m4) = self.rotation.compiled(m3);
        let (e, m5) = self.aabb_exaggeration.compiled(m4);
        let start = "vec3 "@ + st + " = "@ + reference + ";"@;
        let scale = st + " *= 1.0 / "@ + sc1 + ";"@;
        let pos = st + " = move("@ + st + ", "@ + p + " * (1.0 / "@ + sc2 + "));"@;
        let rot = st + " = rot3D("@ + st + ", "@ + r + ");"@;
        (start + "\n "@ + scale + "\n "@ + pos + "\n "@ + rot, m5)
    }

    /// The guard that opens a shape's block: a lookup of the next
    /// bounding-box slot, or `if (true)` when the node is not culled. Either
    /// way a slot is used up.
    pub open spec fn aabb_checked(self, m: CompModel) -> (Seq<char>, CompModel) {
        let next = CompModel { aabb_index: m.aabb_index + 1, ..m };
        if self.aabb {
            ("if (check["@ + decimal(m.aabb_index as nat) + "]) "@, next)
        } else {
            ("if (true)"@, next)
        }
    }

    /// The ray-box test of the node's bounding box, placed by the enclosing
    /// trails, sized by `shape_options` (a unit box when absent).
    pub open spec fn aabb_compiled(self, shape_options: Option<Seq<char>>, m: CompModel) -> (
        Seq<char>,
        CompModel,
    ) {
        if self.aabb {
            let so = match shape_options {
                None => "vec3(1.0)"@,
                Some(d) => d,
            };
            let (ex, m1) = self.aabb_exaggeration.compiled(m);
            let (p, m2) = self.position.compiled(m1);
            let (s, m3) = self.scale.compiled(m2);
            (
                "(bool_hit(intersectAABB(ray, from_pos_size("@ + m.pos_trail + " "@ + p + ", ("@
                    + so + " * ( "@ + m.scale_trail + " "@ + s + ")) * "@ + ex + " ))))"@,
                m3,
            )
        } else {
            ("(false)"@, m)
        }
    }

    /// The statement that undoes the scale on the distance of hit `st`.
    pub open spec fn finalised(self, st: Seq<char>, m: CompModel) -> (Seq<char>, CompModel) {
        let (sc, m1) = self.scale.compiled(m);
        (st + ".d /= 1.0 / "@ + sc + ";"@, m1)
    }

    pub open spec fn refreshed(self, m: CompModel) -> CompModel {
        self.aabb_exaggeration.refreshed(
            self.scale.refreshed(self.rotation.refreshed(self.position.refreshed(m))),
        )
    }

    pub open spec fn registered(self, m: CompModel) -> bool {
        &&& self.position.registered(m)
        &&& self.rotation.registered(m)
        &&& self.scale.registered(m)
        &&& self.aabb_exaggeration.registered(m)
    }

    pub open spec fn same_layout(self, other: Transform) -> bool {
        &&& self.position.same_layout(other.position)
        &&& self.rotation.same_layout(other.rotation)
        &&& self.scale.same_layout(other.scale)
        &&& self.aabb_exaggeration.same_layout(other.aabb_exaggeration)
        &&& other.aabb == self.aabb
    }

    pub open spec fn same_but_hash(self, other: Transform) -> bool {
        &&& self.position.same_but_hash(other.position)
        &&& self.rotation.same_but_hash(other.rotation)
        &&& self.scale.same_but_hash(other.scale)
        &&& self.aabb_exaggeration.same_but_hash(other.aabb_exaggeration)
        &&& other.aabb == self.aabb
    }

    /// The transform that `new` builds.
    pub open spec fn is_default(self) -> bool {
        &&& self.position.is_xyz("Position"@, S2, F32_ZERO)
        &&& self.rotation.is_xyz("Rotation"@, S1, F32_ZERO)
        &&& self.scale.is("Scale"@, S1, F32_ONE, F32_ZERO, F32_MAX_BITS)
        &&& self.aabb_exaggeration.is("AABB_exaggeration"@, S2, F32_ONE_POINT_THREE, F32_ZERO, F32_TEN)
        &&& self.aabb
    }

    pub fn new(hashes: &mut HashSource) -> (res: Self)
        ensures
            res.is_default(),
    {
        Transform {
            position: V3::xyz("Position", S2, F32_ZERO, hashes),
            rotation: V3::xyz("Rotation", S1, F32_ZERO, hashes),
            scale: Float::new("Scale", S1, F32_ONE, F32_ZERO, F32_MAX_BITS, hashes),
            aabb_exaggeration: Float::new("AABB_exaggeration", S2, F32_ONE_POINT_THREE, F32_ZERO, F32_TEN, hashes),
            aabb: true,
        }
    }

    pub fn compile(&self, st: &String, comp_data: &mut CompData, reference: &String) -> (res: String)
        ensures
            (res@, final(comp_data).model()) == self.compiled(st@, reference@, old(comp_data).model()),
            old(comp_data).model().extended_by(final(comp_data).model()),
            old(comp_data).model().wf() ==> final(comp_data).model().wf(),
            old(comp_data).model().wf() ==> self.registered(final(comp_data).model()),
    {
        let sc1 = self.scale.compile(comp_data);
        let p = self.position.compile(comp_data);
        let sc2 = self.scale.compile(comp_data);
        let r = self.rotation.compile(comp_data);
        let _ = self.aabb_exaggeration.compile(comp_data);
        let mut start = String::new();
        start.append("vec3 ");
        start.append(st.as_str());
        start.append(" = ");
        start.append(reference.as_str());
        start.append(";");
        let mut scale = String::new();
        scale.append(st.as_str());
        scale.append(" *= 1.0 / ");
        scale.append(sc1.as_str());
        scale.append(";");
        let mut pos = String::new();
        pos.append(st.as_str());
        pos.append(" = move(");
        pos.append(st.as_str());
        pos.append(", ");
        pos.append(p.as_str());
        pos.append(" * (1.0 / ");
        pos.append(sc2.as_str());
        pos.append("));");
        let mut rot = String::new();
        rot.append(st.as_str());
        rot.append(" = rot3D(");
        rot.append(st.as_str());
        rot.append(", ");
        rot.append(r.as_str());
        rot.append(");");
        let mut out = start;
        out.append("\n ");
        out.append(scale.as_str());
        out.append("\n ");
        out.append(pos.as_str());
        out.append("\n ");
        out.append(rot.as_str());
        out
    }

    pub fn aabb_check(&self, comp_data: &mut CompData) -> (res: String)
        requires
            old(comp_data).aabb_index < usize::MAX,
        ensures
            (res@, final(comp_data).model()) == self.aabb_checked(old(comp_data).model()),
            old(comp_data).model().extended_by(final(comp_data).model()),
            old(comp_data).model().wf() ==> final(comp_data).model().wf(),
    {
        let mut out = String::new();
        if self.aabb {
            comp_data.aabb_index = comp_data.aabb_index + 1;
            out.append("if (check[");
            push_decimal(&mut out, (comp_data.aabb_index - 1) as u64);
            out.append("]) ");
        } else {
            comp_data.aabb_index = comp_data.aabb_index + 1;
            out.append("if (true)");
        }
        out
    }

    pub fn aabb_compile(&self, comp_data: &mut CompData, shape_options: Option<String>) -> (res: String)
        ensures
            (res@, final(comp_data).model()) == self.aabb_compiled(
                match shape_options {
                    None => None,
                    Some(d) => Some(d@),
                },
                old(comp_data).model(),
            ),
            old(comp_data).model().extended_by(final(comp_data).model()),
            old(comp_data).model().wf() ==> final(comp_data).model().wf(),
    {
        let mut out = String::new();
        if self.aabb {
            let pt = comp_data.aabb_pos_trail.clone();
            let st = comp_data.aabb_scale_trail.clone();
            let so = match shape_options {
                None => {
                    let mut d = String::new();
                    d.append("vec3(1.0)");
                    d
                },
                Some(data) => data,
            };
            let ex = self.aabb_exaggeration.compile(comp_data);
            out.append("(bool_hit(intersectAABB(ray, from_pos_size(");
            out.append(pt.as_str());
            out.append(" ");
            let p = self.position.compile(comp_data);
            out.append(p.as_str());
            out.append(", (");
            out.append(so.as_str());
            out.append(" * ( ");
            out.append(st.as_str());
            out.append(" ");
            let s = self.scale.compile(comp_data);
            out.append(s.as_str());
            out.append(")) * ");
            out.append(ex.as_str());
            out.append(" ))))");
        } else {
            out.append("(false)");
        }
        out
    }

    pub fn finalise_scale(&self, st: &String, comp_data: &mut CompData) -> (res: String)
        ensures
            (res@, final(comp_data).model()) == self.finalised(st@, old(comp_data).model()),
            old(comp_data).model().extended_by(final(comp_data).model()),
            old(comp_data).model().wf() ==> final(comp_data).model().wf(),
    {
        let sc = self.scale.compile(comp_data);
        let mut out = String::new();
        out.append(st.as_str());
        out.append(".d /= 1.0 / ");
        out.append(sc.as_str());
        out.append(";");
        out
    }

    pub fn refresh(&self, comp_data: &mut CompData)
        requires
            self.registered(old(comp_data).model()),
        ensures
            final(comp_data).model() == self.refreshed(old(comp_data).model()),
            final(comp_data).model().seen == old(comp_data).model().seen,
            final(comp_data).model().data.len() == old(comp_data).model().data.len(),
    {
        self.position.refresh(comp_data);
        self.rotation.refresh(comp_data);
        self.scale.refresh(comp_data);
        self.aabb_exaggeration.refresh(comp_data);
    }

    /// A copy of the transform with fresh identities.
    pub fn duplicate(&self, hashes: &mut HashSource) -> (res: Transform)
        ensures
            self.same_but_hash(res),
    {
        Transform {
            position: self.position.duplicate(hashes),
            rotation: self.rotation.duplicate(hashes),
            scale: self.scale.duplicate(hashes),
            aabb_exaggeration: self.aabb_exaggeration.duplicate(hashes),
            aabb: self.aabb,
        }
    }

    pub fn is_registered(&self, comp_data: &CompData) -> (res: bool)
        ensures
            res == self.registered(comp_data.model()),
    {
        self.position.is_registered(comp_data) && self.rotation.is_registered(comp_data)
            && self.scale.is_registered(comp_data) && self.aabb_exaggeration.is_registered(comp_data)
    }

    pub fn rehash(&mut self, hashes: &mut HashSource)
        ensures
            old(self).same_but_hash(*final(self)),
    {
        self.position.rehash(hashes);
        self.rotation.rehash(hashes);
        self.scale.rehash(hashes);
        self.aabb_exaggeration.rehash(hashes);
    }
}

/// Surface properties of a shape.
#[derive(Debug, Clone, PartialEq)]
pub struct Material {
    pub color: V3,
    pub brightness: Float,
    pub light_col: V3,
    pub specular_chance: Float,
    pub specular_color: V3,
    pub roughness: Float,
    pub ior: Float,
    pub refract_chance: Float,
    pub refract_roughness: Float,
    pub refract_color: V3,
}

impl Material {
    /// `Mat(...)` over the codes of the ten properties, compiled in order.
    pub open spec fn compiled(self, m: CompModel) -> (Seq<char>, CompModel) {
        let (t0, m0) = self.color.compiled(m);
        let (t1, m1) = self.brightness.compiled(m0);
        let (t2, m2) = self.light_col.compiled(m1);
        let (t3, m3) = self.specular_chance.compiled(m2);
        let (t4, m4) = self.specular_color.compiled(m3);
        let (t5, m5) = self.roughness.compiled(m4);
        let (t6, m6) = self.ior.compiled(m5);
        let (t7, m7) = self.refract_chance.compiled(m6);
        let (t8, m8) = self.refract_roughness.compiled(m7);
        let (t9, m9) = self.refract_color.compiled(m8);
        ("Mat("@ + t0 + ", "@ + t1 + ", "@ + t2 + ", "@ + t3 + ", "@ + t4 + ", "@ + t5 + ", "@ + t6 + ", "@ + t7 + ", "@ + t8 + ", "@ + t9 + ")"@, m9)
    }

    pub open spec fn refreshed(self, m: CompModel) -> CompModel {
        self.refract_color.refreshed(self.refract_roughness.refreshed(self.refract_chance.refreshed(self.ior.refreshed(self.roughness.refreshed(self.specular_color.refreshed(self.specular_chance.refreshed(self.light_col.refreshed(self.brightness.refreshed(self.color.refreshed(m))))))))))
    }

    pub open spec fn registered(self, m: CompModel) -> bool {
        &&& self.color.registered(m)
        &&& self.brightness.registered(m)
        &&& self.light_col.registered(m)
        &&& self.specular_chance.registered(m)
        &&& self.specular_color.registered(m)
        &&& self.roughness.registered(m)
        &&& self.ior.registered(m)
        &&& self.refract_chance.registered(m)
        &&& self.refract_roughness.registered(m)
        &&& self.refract_color.registered(m)
    }

    pub open spec fn same_layout(self, other: Material) -> bool {
        &&& self.color.same_layout(other.color)
        &&& self.brightness.same_layout(other.brightness)
        &&& self.light_col.same_layout(other.light_col)
        &&& self.specular_chance.same_layout(other.specular_chance)
        &&& self.specular_color.same_layout(other.specular_color)
        &&& self.roughness.same_layout(other.roughness)
        &&& self.ior.same_layout(other.ior)
        &&& self.refract_chance.same_layout(other.refract_chance)
        &&& self.refract_roughness.same_layout(other.refract_roughness)
        &&& self.refract_color.same_layout(other.refract_color)
    }

    pub open spec fn same_but_hash(self, other: Material) -> bool {
        &&& self.color.same_but_hash(other.color)
        &&& self.brightness.same_but_hash(other.brightness)
        &&& self.light_col.same_but_hash(other.light_col)
        &&& self.specular_chance.same_but_hash(other.specular_chance)
        &&& self.specular_color.same_but_hash(other.specular_color)
        &&& self.roughness.same_but_hash(other.roughness)
        &&& self.ior.same_but_hash(other.ior)
        &&& self.refract_chance.same_but_hash(other.refract_chance)
        &&& self.refract_roughness.same_but_hash(other.refract_roughness)
        &&& self.refract_color.same_but_hash(other.refract_color)
    }

    /// The material that `new` builds.
    pub open spec fn is_default(self) -> bool {
        &&& self.color.is_rgb("Surface Color"@)
        &&& self.brightness.is("Brightness"@, S2, F32_ZERO, F32_ZERO, F32_MAX_BITS)
        &&& self.light_col.is_rgb("Light Color"@)
        &&& self.specular_chance.is("Spec chance"@, S1, F32_ZERO, F32_ZERO, F32_ONE)
        &&& self.specular_color.is_rgb("Spec color"@)
        &&& self.roughness.is("Roughness"@, S1, F32_ZERO, F32_ZERO, F32_MAX_BITS)
        &&& self.ior.is("IOR"@, S1, F32_ZERO, F32_NEG_MAX_BITS, F32_MAX_BITS)
        &&& self.refract_chance.is("Refract chance"@, S1, F32_ZERO, F32_ZERO, F32_ONE)
        &&& self.refract_roughness.is("Refract roughness"@, S1, F32_ZERO, F32_NEG_MAX_BITS, F32_MAX_BITS)
        &&& self.refract_color.is_rgb("Refract color"@)
    }

    pub fn new(hashes: &mut HashSource) -> (res: Self)
        ensures
            res.is_default(),
    {
        Material {
            color: V3::rgb("Surface Color", hashes),
            brightness: Float::new("Brightness", S2, F32_ZERO, F32_ZERO, F32_MAX_BITS, hashes),
            light_col: V3::rgb("Light Color", hashes),
            specular_chance: Float::percent("Spec chance", S1, F32_ZERO, hashes),
            specular_color: V3::rgb("Spec color", hashes),
            roughness: Float::new("Roughness", S1, F32_ZERO, F32_ZERO, F32_MAX_BITS, hashes),
            ior: Float::inv("IOR", S1, F32_ZERO, hashes),
            refract_chance: Float::percent("Refract chance", S1, F32_ZERO, hashes),
            refract_roughness: Float::inv("Refract roughness", S1, F32_ZERO, hashes),
            refract_color: V3::rgb("Refract color", hashes),
        }
    }

    #[verifier::rlimit(40)]
    pub fn compile(&self, comp_data: &mut CompData) -> (res: String)
        ensures
            (res@, final(comp_data).model()) == self.compiled(old(comp_data).model()),
            old(comp_data).model().extended_by(final(comp_data).model()),
            old(comp_data).model().wf() ==> final(comp_data).model().wf(),
            old(comp_data).model().wf() ==> self.registered(final(comp_data).model()),
    {
        let t0 = self.color.compile(comp_data);
        let t1 = self.brightness.compile(comp_data);
        let t2 = self.light_col.compile(comp_data);
        let t3 = self.specular_chance.compile(comp_data);
        let t4 = self.specular_color.compile(comp_data);
        let t5 = self.roughness.compile(comp_data);
        let t6 = self.ior.compile(comp_data);
        let t7 = self.refract_chance.compile(comp_data);
        let t8 = self.refract_roughness.compile(comp_data);
        let t9 = self.refract_color.compile(comp_data);
        let mut out = String::new();
        out.append("Mat(");
        out.append(t0.as_str());
        out.append(", ");
        out.append(t1.as_str());
        out.append(", ");
        out.append(t2.as_str());
        out.append(", ");
        out.append(t3.as_str());
        out.append(", ");
        out.append(t4.as_str());
        out.append(", ");
        out.append(t5.as_str());
        out.append(", ");
        out.append(t6.as_str());
        out.append(", ");
        out.append(t7.as_str());
        out.append(", ");
        out.append(t8.as_str());
        out.append(", ");
        out.append(t9.as_str());
        out.append(")");
        out
    }

    pub fn refresh(&self, comp_data: &mut CompData)
        requires
            self.registered(old(comp_data).model()),
        ensures
            final(comp_data).model() == self.refreshed(old(comp_data).model()),
            final(comp_data).model().seen == old(comp_data).model().seen,
            final(comp_data).model().data.len() == old(comp_data).model().data.len(),
    {
        self.color.refresh(comp_data);
        self.brightness.refresh(comp_data);
        self.light_col.refresh(comp_data);
        self.specular_chance.refresh(comp_data);
        self.specular_color.refresh(comp_data);
        self.roughness.refresh(comp_data);
        self.ior.refresh(comp_data);
        self.refract_chance.refresh(comp_data);
        self.refract_roughness.refresh(comp_data);
        self.refract_color.refresh(comp_data);
    }

    /// A copy of the material with fresh identities.
    pub fn duplicate(&self, hashes: &mut HashSource) -> (res: Material)
        ensures
            self.same_but_hash(res),
    {
        Material {
            color: self.color.duplicate(hashes),
            brightness: self.brightness.duplicate(hashes),
            light_col: self.light_col.duplicate(hashes),
            specular_chance: self.specular_chance.duplicate(hashes),
            specular_color: self.specular_color.duplicate(hashes),
            roughness: self.roughness.duplicate(hashes),
            ior: self.ior.duplicate(hashes),
            refract_chance: self.refract_chance.duplicate(hashes),
            refract_roughness: self.refract_roughness.duplicate(hashes),
            refract_color: self.refract_color.duplicate(hashes),
        }
    }

    pub fn is_registered(&self, comp_data: &CompData) -> (res: bool)
        ensures
            res == self.registered(comp_data.model()),
    {
        self.color.is_registered(comp_data)
            && self.brightness.is_registered(comp_data)
            && self.light_col.is_registered(comp_data)
            && self.specular_chance.is_registered(comp_data)
            && self.specular_color.is_registered(comp_data)
            && self.roughness.is_registered(comp_data)
            && self.ior.is_registered(comp_data)
            && self.refract_chance.is_registered(comp_data)
            && self.refract_roughness.is_registered(comp_data)
            && self.refract_color.is_registered(comp_data)
    }

    pub fn rehash(&mut self, hashes: &mut HashSource)
        ensures
            old(self).same_but_hash(*final(self)),
    {
        self.color.rehash(hashes);
        self.brightness.rehash(hashes);
        self.light_col.rehash(hashes);
        self.specular_chance.rehash(hashes);
        self.specular_color.rehash(hashes);
        self.roughness.rehash(hashes);
        self.ior.rehash(hashes);
        self.refract_chance.rehash(hashes);
        self.refract_roughness.rehash(hashes);
        self.refract_color.rehash(hashes);
    }
}

} // verus!
