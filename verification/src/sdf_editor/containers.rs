use vstd::prelude::*;
use crate::text::{decimal, push_decimal};
use crate::sdf_editor::data_structures::{Material, Transform};
use crate::sdf_editor::primitives::{HashSource, 
    CompData, CompModel, Float, RecUpdate, V3, F32_MAX_BITS, F32_NEG_MAX_BITS, F32_ONE, S2,
};

verus! {

/// How a union's result is combined into the enclosing hit.
#[derive(Debug, Clone, Copy, PartialEq, Eq, Structural)]
pub enum UnionType {
    Union,
    Subtraction,
}

impl UnionType {
    /// The statement that combines `with` into `reference`; the first
    /// combination (`index` 0) is a plain assignment.
    pub open spec fn compiled(self, reference: Seq<char>, with: Seq<char>, index: nat) -> Seq<char> {
        if index == 0 {
            reference + " = "@ + with + ";"@
        } else {
            match self {
                UnionType::Union => reference + " = opUnion("@ + reference + ", "@ + with + ");"@,
                UnionType::Subtraction => reference + " = opSubtraction("@ + reference + ", "@ + with
                    + ");"@,
            }
        }
    }

    /// The label shown for the combination.
    pub fn text(&self) -> (res: &'static str)
        ensures
            res@ == (match self {
                UnionType::Union => "Union"@,
                UnionType::Subtraction => "Subtraction"@,
            }),
    {
        match self {
            UnionType::Union => "Union",
            UnionType::Subtraction => "Subtraction",
        }
    }

    pub fn compile(&self, reference: &String, with: &String, index: u32) -> (res: String)
        ensures
            res@ == self.compiled(reference@, with@, index as nat),
    {
        let mut out = String::new();
        out.append(reference.as_str());
        if index == 0 {
            out.append(" = ");
            out.append(with.as_str());
            out.append(";");
            return out;
        }
        match self {
            UnionType::Union => {
                out.append(" = opUnion(");
            },
            UnionType::Subtraction => {
                out.append(" = opSubtraction(");
            },
        }
        out.append(reference.as_str());
        out.append(", ");
        out.append(with.as_str());
        out.append(");");
        out
    }
}

/// The primitive a shape draws, with its size parameters.
#[derive(Debug, Clone, PartialEq)]
pub enum Shapes {
    Sphere(Float),
    Cube(V3),
    Plane,
}

impl Shapes {
    pub open spec fn name_code(self) -> Seq<char> {
        match self {
            Shapes::Sphere(_) => "sdSphere"@,
            Shapes::Cube(_) => "sdCube"@,
            Shapes::Plane => "NotImplemented"@,
        }
    }

    /// The size argument of the distance function.
    pub open spec fn settings_compiled(self, m: CompModel) -> (Seq<char>, CompModel) {
        match self {
            Shapes::Sphere(size) => size.compiled(m),
            Shapes::Cube(xyz) => xyz.compiled(m),
            Shapes::Plane => ("NotImplemented"@, m),
        }
    }

    pub open spec fn refreshed(self, m: CompModel) -> CompModel {
        match self {
            Shapes::Sphere(data) => data.refreshed(m),
            Shapes::Cube(data) => data.refreshed(m),
            Shapes::Plane => m,
        }
    }

    pub open spec fn registered(self, m: CompModel) -> bool {
        match self {
            Shapes::Sphere(data) => data.registered(m),
            Shapes::Cube(data) => data.registered(m),
            Shapes::Plane => true,
        }
    }

    pub open spec fn same_layout(self, other: Shapes) -> bool {
        match (self, other) {
            (Shapes::Sphere(a), Shapes::Sphere(b)) => a.same_layout(b),
            (Shapes::Cube(a), Shapes::Cube(b)) => a.same_layout(b),
            (Shapes::Plane, Shapes::Plane) => true,
            _ => false,
        }
    }

    pub open spec fn same_but_hash(self, other: Shapes) -> bool {
        match (self, other) {
            (Shapes::Sphere(a), Shapes::Sphere(b)) => a.same_but_hash(b),
            (Shapes::Cube(a), Shapes::Cube(b)) => a.same_but_hash(b),
            (Shapes::Plane, Shapes::Plane) => true,
            _ => false,
        }
    }

    /// A unit sphere, as `default` builds it.
    pub open spec fn is_default(self) -> bool {
        self matches Shapes::Sphere(f) && f.is("Size"@, S2, F32_ONE, F32_NEG_MAX_BITS, F32_MAX_BITS)
    }

    /// The label shown for the primitive.
    pub fn text(&self) -> (res: &'static str)
        ensures
            res@ == (match self {
                Shapes::Sphere(_) => "Sphere"@,
                Shapes::Cube(_) => "Cube"@,
                Shapes::Plane => "Plane"@,
            }),
    {
        match self {
            Shapes::Sphere(_) => "Sphere",
            Shapes::Cube(_) => "Cube",
            Shapes::Plane => "Plane",
        }
    }

    /// The name of the distance function of the primitive.
    pub fn compile_name(&self) -> (res: String)
        ensures
            res@ == self.name_code(),
    {
        let mut out = String::new();
        match self {
            Shapes::Sphere(_) => out.append("sdSphere"),
            Shapes::Cube(_) => out.append("sdCube"),
            Shapes::Plane => out.append("NotImplemented"),
        }
        out
    }

    pub fn compile_settings(&self, comp_data: &mut CompData) -> (res: String)
        ensures
            (res@, final(comp_data).model()) == self.settings_compiled(old(comp_data).model()),
            old(comp_data).model().extended_by(final(comp_data).model()),
            old(comp_data).model().wf() ==> final(comp_data).model().wf(),
            old(comp_data).model().wf() ==> self.registered(final(comp_data).model()),
    {
        match self {
            Shapes::Sphere(size) => size.compile(comp_data),
            Shapes::Cube(xyz) => xyz.compile(comp_data),
            Shapes::Plane => {
                let mut out = String::new();
                out.append("NotImplemented");
                out
            },
        }
    }

    pub fn refresh(&self, comp_data: &mut CompData)
        requires
            self.registered(old(comp_data).model()),
        ensures
            final(comp_data).model() == self.refreshed(old(comp_data).model()),
            final(comp_data).model().seen == old(comp_data).model().seen,
            final(comp_data).model().data.len() == old(comp_data).model().data.len(),
    {
        match self {
            Shapes::Sphere(data) => data.refresh(comp_data),
            Shapes::Cube(data) => data.refresh(comp_data),
            Shapes::Plane => {},
        }
    }

    /// A copy of the primitive with fresh identities.
    pub fn duplicate(&self, hashes: &mut HashSource) -> (res: Shapes)
        ensures
            self.same_but_hash(res),
    {
        match self {
            Shapes::Sphere(data) => Shapes::Sphere(data.duplicate(hashes)),
            Shapes::Cube(data) => Shapes::Cube(data.duplicate(hashes)),
            Shapes::Plane => Shapes::Plane,
        }
    }

    pub fn is_registered(&self, comp_data: &CompData) -> (res: bool)
        ensures
            res == self.registered(comp_data.model()),
    {
        match self {
            Shapes::Sphere(data) => data.is_registered(comp_data),
            Shapes::Cube(data) => data.is_registered(comp_data),
            Shapes::Plane => true,
        }
    }

    pub fn rehash(&mut self, hashes: &mut HashSource)
        ensures
            old(self).same_but_hash(*final(self)),
    {
        match self {
            Shapes::Sphere(data) => data.rehash(hashes),
            Shapes::Cube(data) => data.rehash(hashes),
            Shapes::Plane => {},
        }
    }

    /// A unit sphere with a fresh identity.
    pub fn default(hashes: &mut HashSource) -> (res: Self)
        ensures
            res.is_default(),
    {
        Shapes::Sphere(Float::inv("Size", S2, F32_ONE, hashes))
    }
}

/// A primitive placed in the scene, with its material.
#[derive(Debug, Clone)]
pub struct Shape {
    pub transform: Transform,
    pub material: Material,
    pub current_shape: Shapes,
    pub name: String,
}

impl Shape {
    /// The block that evaluates the shape as shape `current_shape` of the
    /// union at depth `union_depth` and combines it into that union's hit.
    #[verifier::opaque]
    pub open spec fn compiled(self, m: CompModel, union_depth: nat, current_shape: nat, union_type: UnionType) -> (
        Seq<char>,
        CompModel,
    ) {
        let ui = decimal(union_depth);
        let si = decimal(current_shape);
        let hit = "u"@ + ui + "s"@ + si;
        let transform_name = hit + "p"@;
        let (tc, m1) = self.transform.compiled(transform_name, "pu"@ + ui, m);
        let (ss, m2) = self.current_shape.settings_compiled(m1);
        let (mat, m3) = self.material.compiled(m2);
        let (chk, m4) = self.transform.aabb_checked(m3);
        let un = union_type.compiled("u"@ + ui, hit, current_shape);
        let (fin, m5) = self.transform.finalised(hit, m4);
        (
            chk + " {\n"@ + "\n      "@ + tc + "\n\n      Hit "@ + hit + " = Hit(\n         "@
                + self.current_shape.name_code() + "("@ + transform_name + ", "@ + ss
                + "),\n         "@ + mat + "\n      );\n      "@ + fin + "\n\n      "@ + un
                + "\n\n\n      "@ + "}\n"@,
            m5,
        )
    }

    /// The size argument that bounds the shape's box, when it has one.
    pub open spec fn box_size(self, m: CompModel) -> (Option<Seq<char>>, CompModel) {
        match self.current_shape {
            Shapes::Sphere(data) => {
                let (t, m1) = data.compiled(m);
                (Some("vec3("@ + t + ")"@), m1)
            },
            Shapes::Cube(data) => {
                let (t, m1) = data.compiled(m);
                (Some(t), m1)
            },
            Shapes::Plane => (None, m),
        }
    }

    /// The statement that marks the shape's bounding-box slot when the ray
    /// hits the box.
    pub open spec fn aabb_compiled(self, m: CompModel) -> (Seq<char>, CompModel) {
        let (so, m1) = self.box_size(m);
        let (test, m2) = self.transform.aabb_compiled(so, m1);
        (
            "\n      if "@ + test + " {\n\n      back["@ + decimal(m2.aabb_index as nat)
                + "] = true;\n      debug += 0.1;\n\n      }\n      "@,
            CompModel { aabb_index: m2.aabb_index + 1, ..m2 },
        )
    }

    pub open spec fn refreshed(self, m: CompModel) -> CompModel {
        self.current_shape.refreshed(self.material.refreshed(self.transform.refreshed(m)))
    }

    #[verifier::opaque]
    pub open spec fn registered(self, m: CompModel) -> bool {
        &&& self.transform.registered(m)
        &&& self.material.registered(m)
        &&& self.current_shape.registered(m)
    }

    pub open spec fn same_layout(self, other: Shape) -> bool {
        &&& self.transform.same_layout(other.transform)
        &&& self.material.same_layout(other.material)
        &&& self.current_shape.same_layout(other.current_shape)
        &&& other.name@ == self.name@
    }

    pub open spec fn same_but_hash(self, other: Shape) -> bool {
        &&& self.transform.same_but_hash(other.transform)
        &&& self.material.same_but_hash(other.material)
        &&& self.current_shape.same_but_hash(other.current_shape)
        &&& other.name@ == self.name@
    }

    /// The shape that `new` builds.
    pub open spec fn is_default(self) -> bool {
        &&& self.transform.is_default()
        &&& self.material.is_default()
        &&& self.current_shape.is_default()
        &&& self.name@ == "Shape"@
    }

    pub fn new(hashes: &mut HashSource) -> (res: Self)
        ensures
            res.is_default(),
    {
        Shape {
            transform: Transform::new(hashes),
            material: Material::new(hashes),
            current_shape: Shapes::default(hashes),
            name: "Shape".to_owned(),
        }
    }

    #[verifier::rlimit(80)]
    pub fn compile(&self, comp_data: &mut CompData, union_depth: u32, current_shape: u32, union_type: &UnionType) -> (res: String)
        requires
            old(comp_data).aabb_index < usize::MAX,
        ensures
            (res@, final(comp_data).model()) == self.compiled(
                old(comp_data).model(),
                union_depth as nat,
                current_shape as nat,
                *union_type,
            ),
            final(comp_data).aabb_index == old(comp_data).aabb_index + 1,
            old(comp_data).model().extended_by(final(comp_data).model()),
            old(comp_data).model().wf() ==> final(comp_data).model().wf(),
            old(comp_data).model().wf() ==> self.registered(final(comp_data).model()),
            old(comp_data).model().same_flags(final(comp_data).model()),
    {
        reveal(Shape::compiled);
        reveal(Shape::registered);
        let shape_name = self.current_shape.compile_name();
        let mut hit = String::new();
        hit.append("u");
        push_decimal(&mut hit, union_depth as u64);
        hit.append("s");
        push_decimal(&mut hit, current_shape as u64);
        let mut transform_name = hit.clone();
        transform_name.append("p");
        let mut reference = String::new();
        reference.append("pu");
        push_decimal(&mut reference, union_depth as u64);
        let transform_code = self.transform.compile(&transform_name, comp_data, &reference);
        let shape_settings = self.current_shape.compile_settings(comp_data);
        let material = self.material.compile(comp_data);
        let check = self.transform.aabb_check(comp_data);
        let mut target = String::new();
        target.append("u");
        push_decimal(&mut target, union_depth as u64);
        let union = union_type.compile(&target, &hit, current_shape);
        let fin = self.transform.finalise_scale(&hit, comp_data);

        let mut out = check;
        out.append(" {\n");
        out.append("\n      ");
        out.append(transform_code.as_str());
        out.append("\n\n      Hit ");
        out.append(hit.as_str());
        out.append(" = Hit(\n         ");
        out.append(shape_name.as_str());
        out.append("(");
        out.append(transform_name.as_str());
        out.append(", ");
        out.append(shape_settings.as_str());
        out.append("),\n         ");
        out.append(material.as_str());
        out.append("\n      );\n      ");
        out.append(fin.as_str());
        out.append("\n\n      ");
        out.append(union.as_str());
        out.append("\n\n\n      ");
        out.append("}\n");
        out
    }

    pub fn aabb_compile(&self, comp_data: &mut CompData) -> (res: String)
        requires
            old(comp_data).aabb_index < usize::MAX,
        ensures
            (res@, final(comp_data).model()) == self.aabb_compiled(old(comp_data).model()),
            final(comp_data).aabb_index == old(comp_data).aabb_index + 1,
            old(comp_data).model().extended_by(final(comp_data).model()),
            old(comp_data).model().wf() ==> final(comp_data).model().wf(),
    {
        let so = match &self.current_shape {
            Shapes::Sphere(data) => {
                let t = data.compile(comp_data);
                let mut o = String::new();
                o.append("vec3(");
                o.append(t.as_str());
                o.append(")");
                Some(o)
            },
            Shapes::Cube(data) => Some(data.compile(comp_data)),
            Shapes::Plane => None,
        };
        let test = self.transform.aabb_compile(comp_data, so);
        let mut out = String::new();
        out.append("\n      if ");
        out.append(test.as_str());
        out.append(" {\n\n      back[");
        push_decimal(&mut out, comp_data.aabb_index as u64);
        out.append("] = true;\n      debug += 0.1;\n\n      }\n      ");
        comp_data.aabb_index = comp_data.aabb_index + 1;
        out
    }

    pub fn refresh(&self, comp_data: &mut CompData)
        requires
            self.registered(old(comp_data).model()),
        ensures
            final(comp_data).model() == self.refreshed(old(comp_data).model()),
            final(comp_data).model().seen == old(comp_data).model().seen,
            final(comp_data).model().data.len() == old(comp_data).model().data.len(),
    {
        reveal(Shape::registered);
        self.transform.refresh(comp_data);
        self.material.refresh(comp_data);
        self.current_shape.refresh(comp_data);
    }

    /// A copy of the shape with fresh identities: what the editor's
    /// "Duplicate" action adds.
    pub fn duplicate(&self, hashes: &mut HashSource) -> (res: Shape)
        ensures
            self.same_but_hash(res),
    {
        Shape {
            transform: self.transform.duplicate(hashes),
            material: self.material.duplicate(hashes),
            current_shape: self.current_shape.duplicate(hashes),
            name: self.name.clone(),
        }
    }

    pub fn is_registered(&self, comp_data: &CompData) -> (res: bool)
        ensures
            res == self.registered(comp_data.model()),
    {
        reveal(Shape::registered);
        self.transform.is_registered(comp_data) && self.material.is_registered(comp_data)
            && self.current_shape.is_registered(comp_data)
    }

    pub fn rehash(&mut self, hashes: &mut HashSource)
        ensures
            old(self).same_but_hash(*final(self)),
    {
        self.transform.rehash(hashes);
        self.material.rehash(hashes);
        self.current_shape.rehash(hashes);
    }
}

/// A group of shapes and nested unions, combined by its union type into
/// the enclosing hit.
#[derive(Debug)]
pub struct Union {
    pub name: String,
    pub transform: Transform,
    pub union_type: UnionType,
    pub children_unions: Vec<Union>,
    pub children_shapes: Vec<Shape>,
}

/// The blocks of `shapes`, compiled in order as the shapes of the union at
/// depth `depth`, each numbered by its position.
pub open spec fn shapes_compiled(shapes: Seq<Shape>, m: CompModel, depth: nat, union_type: UnionType) -> (
    Seq<char>,
    CompModel,
)
    decreases shapes.len(),
{
    if shapes.len() == 0 {
        (Seq::empty(), m)
    } else {
        let (a, m1) = shapes_compiled(shapes.drop_last(), m, depth, union_type);
        let (b, m2) = shapes.last().compiled(m1, depth, (shapes.len() - 1) as nat, union_type);
        (a + b, m2)
    }
}

/// The blocks of `unions`, compiled in order into `reference` at depth `depth`.
pub open spec fn unions_compiled(unions: Seq<Union>, m: CompModel, reference: Seq<char>, depth: nat, union_type: UnionType) -> (
    Seq<char>,
    CompModel,
)
    decreases unions, 0int,
{
    if unions.len() == 0 {
        (Seq::empty(), m)
    } else {
        let (a, m1) = unions_compiled(unions.drop_last(), m, reference, depth, union_type);
        let (b, m2) = unions.last().compiled(m1, reference, depth, union_type);
        (a + b, m2)
    }
}

/// The number of shapes in `unions` and below them.
pub open spec fn unions_shape_count(unions: Seq<Union>) -> nat
    decreases unions, 0int,
{
    if unions.len() == 0 {
        0
    } else {
        unions_shape_count(unions.drop_last()) + unions.last().shape_count()
    }
}

pub open spec fn unions_depth_fit(unions: Seq<Union>, depth: int) -> bool
    decreases unions, 0int,
{
    unions.len() == 0 || (unions_depth_fit(unions.drop_last(), depth) && unions.last().depth_fits(
        depth,
    ))
}

pub open spec fn shapes_same_layout(a: Seq<Shape>, b: Seq<Shape>) -> bool {
    &&& a.len() == b.len()
    &&& forall|i: int| 0 <= i < a.len() ==> #[trigger] a[i].same_layout(b[i])
}

pub open spec fn unions_same_layout(a: Seq<Union>, b: Seq<Union>) -> bool
    decreases a, 0int,
{
    &&& a.len() == b.len()
    &&& (a.len() == 0 || (unions_same_layout(a.drop_last(), b.drop_last()) && a.last().same_layout(
        b.last(),
    )))
}

pub open spec fn shapes_registered(shapes: Seq<Shape>, m: CompModel) -> bool {
    forall|i: int| 0 <= i < shapes.len() ==> #[trigger] shapes[i].registered(m)
}

pub open spec fn unions_registered(unions: Seq<Union>, m: CompModel) -> bool
    decreases unions, 0int,
{
    unions.len() == 0 || (unions_registered(unions.drop_last(), m) && unions.last().registered(m))
}

/// The bounding-box tests of `shapes`, in order.
pub open spec fn shapes_aabb_compiled(shapes: Seq<Shape>, m: CompModel) -> (Seq<char>, CompModel)
    decreases shapes.len(),
{
    if shapes.len() == 0 {
        (Seq::empty(), m)
    } else {
        let (a, m1) = shapes_aabb_compiled(shapes.drop_last(), m);
        let (b, m2) = shapes.last().aabb_compiled(m1);
        (a + b, m2)
    }
}

pub open spec fn shapes_refreshed(shapes: Seq<Shape>, m: CompModel) -> CompModel
    decreases shapes.len(),
{
    if shapes.len() == 0 {
        m
    } else {
        shapes.last().refreshed(shapes_refreshed(shapes.drop_last(), m))
    }
}

pub open spec fn unions_refreshed(unions: Seq<Union>, m: CompModel) -> CompModel
    decreases unions, 0int,
{
    if unions.len() == 0 {
        m
    } else {
        unions.last().refreshed(unions_refreshed(unions.drop_last(), m))
    }
}

impl Union {
    /// The block of the union: its hit, its transform, its children in
    /// order (unions, then shapes), the scale correction and the
    /// combination into `reference` by `union_type`.
    pub open spec fn compiled(self, m: CompModel, reference: Seq<char>, in_union_depth: nat, union_type: UnionType) -> (
        Seq<char>,
        CompModel,
    )
        decreases self, 1int,
    {
        let d = in_union_depth + 1;
        let hit = "u"@ + decimal(d);
        let (tc, m1) = self.transform.compiled("pu"@ + decimal(d), "pu"@ + decimal(in_union_depth), m);
        let (cu, m2) = unions_compiled(self.children_unions@, m1, hit, d, self.union_type);
        let (cs, m3) = shapes_compiled(self.children_shapes@, m2, d, self.union_type);
        let (fin, m4) = self.transform.finalised(hit, m3);
        let un = union_type.compiled(reference, hit, 1);
        (
            "{\n"@ + "Hit "@ + hit + " = MAXHIT; \n"@ + tc + "\n"@ + cu + cs + fin + "\n"@ + un
                + "} //"@ + self.name@ + "\n"@,
            m4,
        )
    }

    /// The bounding-box tests of the union's own shapes (not of nested
    /// unions), with the union's position and scale appended to the trails
    /// while they are generated.
    pub open spec fn aabb_compiled(self, m: CompModel) -> (Seq<char>, CompModel) {
        let (pos, m1) = self.transform.position.compiled(m);
        let m1b = CompModel { pos_trail: m.pos_trail + pos + " +"@, ..m1 };
        let (sc, m2) = self.transform.scale.compiled(m1b);
        let m2b = CompModel { scale_trail: m.scale_trail + sc + " *"@, ..m2 };
        let (out, m3) = shapes_aabb_compiled(self.children_shapes@, m2b);
        (out, CompModel { pos_trail: m.pos_trail, scale_trail: m.scale_trail, ..m3 })
    }

    /// `other` is `self` with perhaps other values in its number fields.
    pub open spec fn same_layout(self, other: Union) -> bool
        decreases self, 1int,
    {
        &&& other.name@ == self.name@
        &&& self.transform.same_layout(other.transform)
        &&& other.union_type == self.union_type
        &&& shapes_same_layout(self.children_shapes@, other.children_shapes@)
        &&& unions_same_layout(self.children_unions@, other.children_unions@)
    }

    /// The number of shapes in the union and in the unions below it.
    pub open spec fn shape_count(self) -> nat
        decreases self, 1int,
    {
        self.children_shapes@.len() + unions_shape_count(self.children_unions@)
    }

    /// The union, entered at depth `in_union_depth`, keeps its depths and
    /// shape numbers within `u32`.
    pub open spec fn depth_fits(self, in_union_depth: int) -> bool
        decreases self, 1int,
    {
        &&& in_union_depth + 1 <= u32::MAX
        &&& self.children_shapes@.len() <= u32::MAX
        &&& unions_depth_fit(self.children_unions@, in_union_depth + 1)
    }

    /// Every number field of the union and of everything below it has a
    /// slot in `m`.
    pub open spec fn registered(self, m: CompModel) -> bool
        decreases self, 1int,
    {
        &&& self.transform.registered(m)
        &&& shapes_registered(self.children_shapes@, m)
        &&& unions_registered(self.children_unions@, m)
    }

    pub open spec fn refreshed(self, m: CompModel) -> CompModel
        decreases self, 1int,
    {
        unions_refreshed(
            self.children_unions@,
            shapes_refreshed(self.children_shapes@, self.transform.refreshed(m)),
        )
    }
}

/// Extension of compilation states is transitive.
pub proof fn lemma_extended_trans(a: CompModel, b: CompModel, c: CompModel)
    requires
        a.extended_by(b),
        b.extended_by(c),
    ensures
        a.extended_by(c),
{
}

/// A shape registered in a state stays registered in every extension of it.
pub proof fn lemma_shape_registered_mono(s: Shape, a: CompModel, b: CompModel)
    requires
        s.registered(a),
        a.extended_by(b),
    ensures
        s.registered(b),
{
    reveal(Shape::registered);
}

/// A union registered in a state stays registered in every extension of it.
pub proof fn lemma_union_registered_mono(u: Union, a: CompModel, b: CompModel)
    requires
        u.registered(a),
        a.extended_by(b),
    ensures
        u.registered(b),
    decreases u, 1int,
{
    assert forall|i: int| 0 <= i < u.children_shapes@.len() implies #[trigger] u.children_shapes@[i].registered(b) by {
        lemma_shape_registered_mono(u.children_shapes@[i], a, b);
    }
    lemma_unions_registered_mono(u.children_unions@, a, b);
}

/// A list of unions registered in a state stays registered in every
/// extension of it.
pub proof fn lemma_unions_registered_mono(us: Seq<Union>, a: CompModel, b: CompModel)
    requires
        unions_registered(us, a),
        a.extended_by(b),
    ensures
        unions_registered(us, b),
    decreases us, 0int,
{
    if us.len() > 0 {
        lemma_unions_registered_mono(us.drop_last(), a, b);
        lemma_union_registered_mono(us.last(), a, b);
    }
}

/// Each union of a list that fits a depth fits it.
pub proof fn lemma_unions_depth_fit_index(us: Seq<Union>, depth: int, i: int)
    requires
        unions_depth_fit(us, depth),
        0 <= i < us.len(),
    ensures
        us[i].depth_fits(depth),
    decreases us.len(),
{
    if i < us.len() - 1 {
        lemma_unions_depth_fit_index(us.drop_last(), depth, i);
    }
}

/// The shapes below a prefix of a list of unions are no more than those
/// below the whole list.
pub proof fn lemma_unions_shape_count_prefix(us: Seq<Union>, j: int)
    requires
        0 <= j <= us.len(),
    ensures
        unions_shape_count(us.subrange(0, j)) <= unions_shape_count(us),
    decreases us.len(),
{
    if j < us.len() {
        assert(us.drop_last().subrange(0, j) =~= us.subrange(0, j));
        lemma_unions_shape_count_prefix(us.drop_last(), j);
    } else {
        assert(us.subrange(0, j) =~= us);
    }
}

impl Union {
    /// The union that `new` builds: empty, with a default transform.
    pub open spec fn is_default(self) -> bool {
        &&& self.name@ == "Union"@
        &&& self.transform.is_default()
        &&& self.union_type == UnionType::Union
        &&& self.children_unions@.len() == 0
        &&& self.children_shapes@.len() == 0
    }

    pub fn new(hashes: &mut HashSource) -> (res: Self)
        ensures
            res.is_default(),
    {
        Union {
            name: "Union".to_owned(),
            transform: Transform::new(hashes),
            union_type: UnionType::Union,
            children_unions: Vec::new(),
            children_shapes: Vec::new(),
        }
    }

    pub fn compile(&self, comp_data: &mut CompData, reference: &String, in_union_depth: u32, union_type: &UnionType) -> (res: String)
        requires
            old(comp_data).aabb_index + self.shape_count() <= usize::MAX,
            self.depth_fits(in_union_depth as int),
        ensures
            (res@, final(comp_data).model()) == self.compiled(
                old(comp_data).model(),
                reference@,
                in_union_depth as nat,
                *union_type,
            ),
            final(comp_data).aabb_index == old(comp_data).aabb_index + self.shape_count(),
            old(comp_data).model().extended_by(final(comp_data).model()),
            old(comp_data).model().wf() ==> final(comp_data).model().wf(),
            old(comp_data).model().wf() ==> self.registered(final(comp_data).model()),
            old(comp_data).model().same_flags(final(comp_data).model()),
        decreases self,
    {
        let ghost m0 = comp_data.model();
        let union_depth = in_union_depth + 1;
        let mut hit = String::new();
        hit.append("u");
        push_decimal(&mut hit, union_depth as u64);
        let mut st = String::new();
        st.append("pu");
        push_decimal(&mut st, union_depth as u64);
        let mut prev = String::new();
        prev.append("pu");
        push_decimal(&mut prev, in_union_depth as u64);
        let tc = self.transform.compile(&st, comp_data, &prev);
        let ghost m1 = comp_data.model();

        let mut cu = String::new();
        let mut i: usize = 0;
        while i < self.children_unions.len()
            invariant
                0 <= i <= self.children_unions@.len(),
                (cu@, comp_data.model()) == unions_compiled(
                    self.children_unions@.subrange(0, i as int),
                    m1,
                    hit@,
                    union_depth as nat,
                    self.union_type,
                ),
                comp_data.aabb_index == m1.aabb_index + unions_shape_count(
                    self.children_unions@.subrange(0, i as int),
                ),
                m1.aabb_index == m0.aabb_index,
                m0.aabb_index + self.shape_count() <= usize::MAX,
                self.depth_fits(in_union_depth as int),
                union_depth == in_union_depth + 1,
                m0.extended_by(comp_data.model()),
                m0.same_flags(comp_data.model()),
                m0.wf() ==> comp_data.model().wf(),
                m0.wf() ==> self.transform.registered(comp_data.model()),
                m0.wf() ==> unions_registered(self.children_unions@.subrange(0, i as int), comp_data.model()),
            decreases self.children_unions@.len() - i,
        {
            proof {
                lemma_unions_shape_count_prefix(self.children_unions@, i + 1);
                assert(self.children_unions@.subrange(0, i + 1).drop_last() =~= self.children_unions@.subrange(0, i as int));
                lemma_unions_depth_fit_index(self.children_unions@, union_depth as int, i as int);
            }
            let ghost before = comp_data.model();
            let c = self.children_unions[i].compile(comp_data, &hit, union_depth, &self.union_type);
            proof {
                lemma_extended_trans(m0, before, comp_data.model());
                if m0.wf() {
                    lemma_unions_registered_mono(self.children_unions@.subrange(0, i as int), before, comp_data.model());
                }
            }
            cu.append(c.as_str());
            i = i + 1;
        }
        proof {
            assert(self.children_unions@.subrange(0, i as int) =~= self.children_unions@);
        }
        let ghost m2 = comp_data.model();

        let mut cs = String::new();
        let mut k: usize = 0;
        let mut shape_index: u32 = 0;
        while k < self.children_shapes.len()
            invariant
                0 <= k <= self.children_shapes@.len(),
                shape_index == k,
                (cs@, comp_data.model()) == shapes_compiled(
                    self.children_shapes@.subrange(0, k as int),
                    m2,
                    union_depth as nat,
                    self.union_type,
                ),
                comp_data.aabb_index == m2.aabb_index + k,
                m2.aabb_index == m0.aabb_index + unions_shape_count(self.children_unions@),
                m0.aabb_index + self.shape_count() <= usize::MAX,
                self.depth_fits(in_union_depth as int),
                m0.extended_by(comp_data.model()),
                m0.same_flags(comp_data.model()),
                m0.wf() ==> comp_data.model().wf(),
                m0.wf() ==> self.transform.registered(comp_data.model()),
                m0.wf() ==> unions_registered(self.children_unions@, comp_data.model()),
                m0.wf() ==> forall|j: int| 0 <= j < k ==> #[trigger] self.children_shapes@[j].registered(comp_data.model()),
            decreases self.children_shapes@.len() - k,
        {
            proof {
                assert(self.children_shapes@.subrange(0, k + 1).drop_last() =~= self.children_shapes@.subrange(0, k as int));
            }
            let ghost before = comp_data.model();
            let c = self.children_shapes[k].compile(comp_data, union_depth, shape_index, &self.union_type);
            proof {
                lemma_extended_trans(m0, before, comp_data.model());
                if m0.wf() {
                    lemma_unions_registered_mono(self.children_unions@, before, comp_data.model());
                    assert forall|j: int| 0 <= j < k + 1 implies #[trigger] self.children_shapes@[j].registered(comp_data.model()) by {
                        if j < k {
                            lemma_shape_registered_mono(self.children_shapes@[j], before, comp_data.model());
                        }
                    }
                }
            }
            cs.append(c.as_str());
            k = k + 1;
            shape_index = shape_index + 1;
        }
        proof {
            assert(self.children_shapes@.subrange(0, k as int) =~= self.children_shapes@);
        }
        let ghost before_fin = comp_data.model();
        let fin = self.transform.finalise_scale(&hit, comp_data);
        proof {
            lemma_extended_trans(m0, before_fin, comp_data.model());
            if m0.wf() {
                lemma_unions_registered_mono(self.children_unions@, before_fin, comp_data.model());
                assert forall|j: int| 0 <= j < self.children_shapes@.len() implies #[trigger] self.children_shapes@[j].registered(comp_data.model()) by {
                    lemma_shape_registered_mono(self.children_shapes@[j], before_fin, comp_data.model());
                }
            }
        }
        let un = union_type.compile(reference, &hit, 1);

        let mut out = String::new();
        out.append("{\n");
        out.append("Hit ");
        out.append(hit.as_str());
        out.append(" = MAXHIT; \n");
        out.append(tc.as_str());
        out.append("\n");
        out.append(cu.as_str());
        out.append(cs.as_str());
        out.append(fin.as_str());
        out.append("\n");
        out.append(un.as_str());
        out.append("} //");
        out.append(self.name.as_str());
        out.append("\n");
        out
    }
}

/// A registered union of a registered list is registered.
pub proof fn lemma_unions_registered_index(us: Seq<Union>, m: CompModel, i: int)
    requires
        unions_registered(us, m),
        0 <= i < us.len(),
    ensures
        us[i].registered(m),
    decreases us.len(),
{
    if i < us.len() - 1 {
        lemma_unions_registered_index(us.drop_last(), m, i);
    }
}

impl Union {
    pub fn aabb_compile(&self, comp_data: &mut CompData) -> (res: String)
        requires
            old(comp_data).aabb_index + self.children_shapes@.len() <= usize::MAX,
        ensures
            (res@, final(comp_data).model()) == self.aabb_compiled(old(comp_data).model()),
            final(comp_data).aabb_index == old(comp_data).aabb_index + self.children_shapes@.len(),
            old(comp_data).model().extended_by(final(comp_data).model()),
            old(comp_data).model().wf() ==> final(comp_data).model().wf(),
    {
        let ghost m0 = comp_data.model();
        let pos_trail = comp_data.aabb_pos_trail.clone();
        let pos_trans = self.transform.position.compile(comp_data);
        comp_data.aabb_pos_trail.append(pos_trans.as_str());
        comp_data.aabb_pos_trail.append(" +");

        let scale_trail = comp_data.aabb_scale_trail.clone();
        let scale_trans = self.transform.scale.compile(comp_data);
        comp_data.aabb_scale_trail.append(scale_trans.as_str());
        comp_data.aabb_scale_trail.append(" *");
        let ghost m2 = comp_data.model();
        proof {
            lemma_extended_trans(m0, m0, m2);
        }

        let mut out = String::new();
        let mut k: usize = 0;
        while k < self.children_shapes.len()
            invariant
                0 <= k <= self.children_shapes@.len(),
                (out@, comp_data.model()) == shapes_aabb_compiled(self.children_shapes@.subrange(0, k as int), m2),
                comp_data.aabb_index == m2.aabb_index + k,
                m2.aabb_index == m0.aabb_index,
                m0.aabb_index + self.children_shapes@.len() <= usize::MAX,
                m0.extended_by(comp_data.model()),
                m0.same_flags(comp_data.model()),
                m0.wf() ==> comp_data.model().wf(),
            decreases self.children_shapes@.len() - k,
        {
            proof {
                assert(self.children_shapes@.subrange(0, k + 1).drop_last() =~= self.children_shapes@.subrange(0, k as int));
            }
            let ghost before = comp_data.model();
            let c = self.children_shapes[k].aabb_compile(comp_data);
            proof {
                lemma_extended_trans(m0, before, comp_data.model());
            }
            out.append(c.as_str());
            k = k + 1;
        }
        proof {
            assert(self.children_shapes@.subrange(0, k as int) =~= self.children_shapes@);
        }
        comp_data.aabb_pos_trail = pos_trail;
        comp_data.aabb_scale_trail = scale_trail;
        out
    }

    /// Writes the current value of every number field of the union and
    /// below it into its slot: the transform, then the shapes, then the
    /// nested unions, in order.
    pub fn refresh(&self, comp_data: &mut CompData)
        requires
            self.registered(old(comp_data).model()),
        ensures
            final(comp_data).model() == self.refreshed(old(comp_data).model()),
            final(comp_data).model().seen == old(comp_data).model().seen,
            final(comp_data).model().data.len() == old(comp_data).model().data.len(),
            old(comp_data).model().same_flags(final(comp_data).model()),
        decreases self,
    {
        let ghost m0 = comp_data.model();
        self.transform.refresh(comp_data);
        let ghost m1 = comp_data.model();
        let mut k: usize = 0;
        while k < self.children_shapes.len()
            invariant
                0 <= k <= self.children_shapes@.len(),
                comp_data.model() == shapes_refreshed(self.children_shapes@.subrange(0, k as int), m1),
                comp_data.model().seen == m0.seen,
                comp_data.model().data.len() == m0.data.len(),
                m0.same_flags(comp_data.model()),
                self.registered(m0),
            decreases self.children_shapes@.len() - k,
        {
            proof {
                assert(self.children_shapes@.subrange(0, k + 1).drop_last() =~= self.children_shapes@.subrange(0, k as int));
                assert(self.children_shapes@[k as int].registered(m0));
                lemma_shape_registered_mono(self.children_shapes@[k as int], m0, comp_data.model());
            }
            self.children_shapes[k].refresh(comp_data);
            k = k + 1;
        }
        proof {
            assert(self.children_shapes@.subrange(0, k as int) =~= self.children_shapes@);
        }
        let ghost m2 = comp_data.model();
        let mut i: usize = 0;
        while i < self.children_unions.len()
            invariant
                0 <= i <= self.children_unions@.len(),
                comp_data.model() == unions_refreshed(self.children_unions@.subrange(0, i as int), m2),
                comp_data.model().seen == m0.seen,
                comp_data.model().data.len() == m0.data.len(),
                m0.same_flags(comp_data.model()),
                self.registered(m0),
            decreases self.children_unions@.len() - i,
        {
            proof {
                assert(self.children_unions@.subrange(0, i + 1).drop_last() =~= self.children_unions@.subrange(0, i as int));
                lemma_unions_registered_index(self.children_unions@, m0, i as int);
                lemma_union_registered_mono(self.children_unions@[i as int], m0, comp_data.model());
            }
            self.children_unions[i].refresh(comp_data);
            i = i + 1;
        }
        proof {
            assert(self.children_unions@.subrange(0, i as int) =~= self.children_unions@);
        }
    }
}

/// Whether every union of `unions` has all its number fields registered.
pub fn unions_are_registered(unions: &Vec<Union>, comp_data: &CompData) -> (res: bool)
    ensures
        res == unions_registered(unions@, comp_data.model()),
    decreases unions@, 0int,
{
    let mut i: usize = 0;
    while i < unions.len()
        invariant
            0 <= i <= unions@.len(),
            unions_registered(unions@.subrange(0, i as int), comp_data.model()),
        decreases unions@.len() - i,
    {
        assert(unions@.subrange(0, i + 1).drop_last() =~= unions@.subrange(0, i as int));
        if !unions[i].is_registered(comp_data) {
            proof {
                lemma_unions_registered_prefix(unions@, comp_data.model(), i + 1);
            }
            return false;
        }
        i = i + 1;
    }
    assert(unions@.subrange(0, i as int) =~= unions@);
    true
}

/// Whether every union of `unions`, entered at `depth`, fits.
pub fn unions_fit_depth(unions: &Vec<Union>, depth: u32) -> (res: bool)
    ensures
        res == unions_depth_fit(unions@, depth as int),
    decreases unions@, 0int,
{
    let mut i: usize = 0;
    while i < unions.len()
        invariant
            0 <= i <= unions@.len(),
            unions_depth_fit(unions@.subrange(0, i as int), depth as int),
        decreases unions@.len() - i,
    {
        assert(unions@.subrange(0, i + 1).drop_last() =~= unions@.subrange(0, i as int));
        if !unions[i].fits_depth(depth) {
            proof {
                lemma_unions_depth_fit_prefix(unions@, depth as int, i + 1);
            }
            return false;
        }
        i = i + 1;
    }
    assert(unions@.subrange(0, i as int) =~= unions@);
    true
}

/// `budget` less the shapes in and below `unions`, when they are no more
/// than `budget`.
pub fn unions_shapes_within(unions: &Vec<Union>, budget: usize) -> (res: Option<usize>)
    ensures
        match res {
            Some(left) => unions_shape_count(unions@) <= budget && left == budget - unions_shape_count(unions@),
            None => unions_shape_count(unions@) > budget,
        },
    decreases unions@, 0int,
{
    let mut left = budget;
    let mut i: usize = 0;
    while i < unions.len()
        invariant
            0 <= i <= unions@.len(),
            unions_shape_count(unions@.subrange(0, i as int)) <= budget,
            left == budget - unions_shape_count(unions@.subrange(0, i as int)),
        decreases unions@.len() - i,
    {
        assert(unions@.subrange(0, i + 1).drop_last() =~= unions@.subrange(0, i as int));
        match unions[i].shapes_within(left) {
            Some(l) => {
                left = l;
            },
            None => {
                proof {
                    lemma_unions_shape_count_prefix(unions@, i + 1);
                }
                return None;
            },
        }
        i = i + 1;
    }
    assert(unions@.subrange(0, i as int) =~= unions@);
    Some(left)
}

/// A prefix of a registered list is registered.
pub proof fn lemma_unions_registered_prefix(us: Seq<Union>, m: CompModel, j: int)
    requires
        0 <= j <= us.len(),
        !unions_registered(us.subrange(0, j), m),
    ensures
        !unions_registered(us, m),
    decreases us.len(),
{
    if j < us.len() {
        assert(us.drop_last().subrange(0, j) =~= us.subrange(0, j));
        lemma_unions_registered_prefix(us.drop_last(), m, j);
    } else {
        assert(us.subrange(0, j) =~= us);
    }
}

/// A prefix of a list that fits a depth fits it.
pub proof fn lemma_unions_depth_fit_prefix(us: Seq<Union>, depth: int, j: int)
    requires
        0 <= j <= us.len(),
        !unions_depth_fit(us.subrange(0, j), depth),
    ensures
        !unions_depth_fit(us, depth),
    decreases us.len(),
{
    if j < us.len() {
        assert(us.drop_last().subrange(0, j) =~= us.subrange(0, j));
        lemma_unions_depth_fit_prefix(us.drop_last(), depth, j);
    } else {
        assert(us.subrange(0, j) =~= us);
    }
}

impl Union {
    /// Whether all number fields of the union and below it are registered.
    pub fn is_registered(&self, comp_data: &CompData) -> (res: bool)
        ensures
            res == self.registered(comp_data.model()),
        decreases self, 1int,
    {
        if !self.transform.is_registered(comp_data) {
            return false;
        }
        let mut k: usize = 0;
        while k < self.children_shapes.len()
            invariant
                0 <= k <= self.children_shapes@.len(),
                forall|j: int| 0 <= j < k ==> #[trigger] self.children_shapes@[j].registered(comp_data.model()),
            decreases self.children_shapes@.len() - k,
        {
            if !self.children_shapes[k].is_registered(comp_data) {
                return false;
            }
            k = k + 1;
        }
        unions_are_registered(&self.children_unions, comp_data)
    }

    /// Whether the union, entered at `in_union_depth`, keeps its counters
    /// within `u32`.
    pub fn fits_depth(&self, in_union_depth: u32) -> (res: bool)
        ensures
            res == self.depth_fits(in_union_depth as int),
        decreases self, 1int,
    {
        if in_union_depth == u32::MAX {
            return false;
        }
        if self.children_shapes.len() > u32::MAX as usize {
            return false;
        }
        unions_fit_depth(&self.children_unions, in_union_depth + 1)
    }

    /// `budget` less the shapes in and below the union, when they are no
    /// more than `budget`.
    pub fn shapes_within(&self, budget: usize) -> (res: Option<usize>)
        ensures
            match res {
                Some(left) => self.shape_count() <= budget && left == budget - self.shape_count(),
                None => self.shape_count() > budget,
            },
        decreases self, 1int,
    {
        if self.children_shapes.len() > budget {
            return None;
        }
        unions_shapes_within(&self.children_unions, budget - self.children_shapes.len())
    }
}

/// The request state after an edit of the scene's structure.
pub open spec fn after_edit(m: CompModel) -> CompModel {
    CompModel {
        rec_update: RecUpdate { queue_compile: true, queue_update: true },
        ..m
    }
}

impl Union {
    /// The "Add Union" action: appends a default nested union and queues a
    /// compile and an update.
    pub fn add_union(&mut self, comp_data: &mut CompData, hashes: &mut HashSource)
        ensures
            final(self).children_unions@.drop_last() == old(self).children_unions@,
            final(self).children_unions@.len() == old(self).children_unions@.len() + 1,
            final(self).children_unions@.last().is_default(),
            final(self).children_shapes == old(self).children_shapes,
            final(self).transform == old(self).transform,
            final(self).name == old(self).name,
            final(self).union_type == old(self).union_type,
            final(comp_data).model() == after_edit(old(comp_data).model()),
    {
        self.children_unions.push(Union::new(hashes));
        comp_data.rec_update.both();
        assert(self.children_unions@.drop_last() =~= old(self).children_unions@);
    }

    /// The "Add Shape" action: appends a default shape and queues a compile
    /// and an update.
    pub fn add_shape(&mut self, comp_data: &mut CompData, hashes: &mut HashSource)
        ensures
            final(self).children_shapes@.drop_last() == old(self).children_shapes@,
            final(self).children_shapes@.len() == old(self).children_shapes@.len() + 1,
            final(self).children_shapes@.last().is_default(),
            final(self).children_unions == old(self).children_unions,
            final(self).transform == old(self).transform,
            final(self).name == old(self).name,
            final(self).union_type == old(self).union_type,
            final(comp_data).model() == after_edit(old(comp_data).model()),
    {
        self.children_shapes.push(Shape::new(hashes));
        comp_data.rec_update.both();
        assert(self.children_shapes@.drop_last() =~= old(self).children_shapes@);
    }

    /// The "Delete" action on nested union `index`.
    pub fn delete_union(&mut self, comp_data: &mut CompData, index: usize)
        requires
            index < old(self).children_unions@.len(),
        ensures
            final(self).children_unions@ == old(self).children_unions@.remove(index as int),
            final(self).children_shapes == old(self).children_shapes,
            final(self).transform == old(self).transform,
            final(self).name == old(self).name,
            final(self).union_type == old(self).union_type,
            final(comp_data).model() == after_edit(old(comp_data).model()),
    {
        self.children_unions.remove(index);
        comp_data.rec_update.both();
    }

    /// The "Delete" action on shape `index`.
    pub fn delete_shape(&mut self, comp_data: &mut CompData, index: usize)
        requires
            index < old(self).children_shapes@.len(),
        ensures
            final(self).children_shapes@ == old(self).children_shapes@.remove(index as int),
            final(self).children_unions == old(self).children_unions,
            final(self).transform == old(self).transform,
            final(self).name == old(self).name,
            final(self).union_type == old(self).union_type,
            final(comp_data).model() == after_edit(old(comp_data).model()),
    {
        self.children_shapes.remove(index);
        comp_data.rec_update.both();
    }

    /// The "Duplicate" action on shape `index`: appends a copy of it with
    /// fresh identities.
    pub fn duplicate_shape(&mut self, comp_data: &mut CompData, index: usize, hashes: &mut HashSource)
        requires
            index < old(self).children_shapes@.len(),
        ensures
            final(self).children_shapes@.drop_last() == old(self).children_shapes@,
            final(self).children_shapes@.len() == old(self).children_shapes@.len() + 1,
            old(self).children_shapes@[index as int].same_but_hash(final(self).children_shapes@.last()),
            final(self).children_unions == old(self).children_unions,
            final(self).transform == old(self).transform,
            final(self).name == old(self).name,
            final(self).union_type == old(self).union_type,
            final(comp_data).model() == after_edit(old(comp_data).model()),
    {
        let shape = self.children_shapes[index].duplicate(hashes);
        self.children_shapes.push(shape);
        comp_data.rec_update.both();
        assert(self.children_shapes@.drop_last() =~= old(self).children_shapes@);
    }
}

} // verus!
