use vstd::prelude::*;
use crate::sdf_editor::containers::{
    unions_are_registered, unions_fit_depth, unions_shapes_within, lemma_extended_trans, lemma_union_registered_mono, lemma_unions_depth_fit_index,
    lemma_unions_registered_index, lemma_unions_registered_mono, lemma_unions_shape_count_prefix,
    unions_compiled, unions_depth_fit, unions_refreshed, unions_registered, unions_shape_count,
    after_edit, Shape, Union, UnionType,
};
use crate::sdf_editor::primitives::{CompData, CompModel, HashSource, RecUpdate, DATA_PLACEHOLDER};

verus! {

/// The text that opens the generated `map` function.
pub open spec fn map_header() -> Seq<char> {
    "\n      #define MAXHIT Hit(10000.0, MDEF)\n\n      Hit map(vec3 pu0) {\n         Hit start = MAXHIT;\n\n      "@
}

/// The text that closes the generated `map` function.
pub open spec fn map_footer() -> Seq<char> {
    "\n         return start;\n      }\n\n      "@
}

/// The `map` function of a scene whose top-level unions are `unions`: each
/// union is combined into `start` at depth 0.
pub open spec fn map_compiled(unions: Seq<Union>, m: CompModel) -> (Seq<char>, CompModel) {
    let (body, m1) = unions_compiled(unions, m, "start"@, 0, UnionType::Union);
    (map_header() + body + map_footer(), m1)
}

/// The state of a fresh compilation: one placeholder slot, no registrations.
pub open spec fn reset_model(m: CompModel) -> CompModel {
    CompModel { data: seq![DATA_PLACEHOLDER], seen: Map::empty(), ..m }
}

/// The state after one `update` of an editor whose top-level unions are
/// `unions`, and the code of the new `map` when it was recompiled.
pub open spec fn updated(unions: Seq<Union>, m: CompModel) -> (Option<Seq<char>>, CompModel) {
    let (map, m1) = if m.rec_update.queue_compile {
        let (code, m1) = map_compiled(unions, reset_model(m));
        (Some(code), m1)
    } else {
        (None, m)
    };
    let m2 = if m.rec_update.queue_update {
        unions_refreshed(unions, m1)
    } else {
        m1
    };
    (map, CompModel { rec_update: RecUpdate { queue_compile: false, queue_update: false }, ..m2 })
}

/// The scene: a list of top-level unions, and the name to save it under.
#[derive(Debug)]
pub struct SDFEditor {
    pub header_unions: Vec<Union>,
    pub save_name: String,
}

impl SDFEditor {
    /// Compiling the scene from `m` keeps every counter within its type.
    pub open spec fn compile_fits(&self, m: CompModel) -> bool {
        &&& m.aabb_index + unions_shape_count(self.header_unions@) <= usize::MAX
        &&& unions_depth_fit(self.header_unions@, 0)
    }

    /// What `update` needs: a compilation that fits when one is queued, and
    /// every number field registered when only a refresh is queued.
    pub open spec fn update_allowed(&self, m: CompModel) -> bool {
        &&& m.rec_update.queue_compile ==> self.compile_fits(reset_model(m))
        &&& (!m.rec_update.queue_compile && m.rec_update.queue_update) ==> unions_registered(
            self.header_unions@,
            m,
        )
    }

    /// The scene `new` builds: one default union holding one default shape.
    pub open spec fn is_default(&self) -> bool {
        &&& self.header_unions@.len() == 1
        &&& self.header_unions@[0].name@ == "Union"@
        &&& self.header_unions@[0].transform.is_default()
        &&& self.header_unions@[0].union_type == UnionType::Union
        &&& self.header_unions@[0].children_unions@.len() == 0
        &&& self.header_unions@[0].children_shapes@.len() == 1
        &&& self.header_unions@[0].children_shapes@[0].is_default()
        &&& self.save_name@ == Seq::<char>::empty()
    }

    pub fn new(hashes: &mut HashSource) -> (res: Self)
        ensures
            res.is_default(),
    {
        let mut header = Union::new(hashes);
        header.children_shapes.push(Shape::new(hashes));
        let mut header_unions = Vec::new();
        header_unions.push(header);
        SDFEditor { header_unions, save_name: String::new() }
    }

    /// Whether `update` may run on `comp_data` (see `update_allowed`).
    pub fn can_update(&self, comp_data: &CompData) -> (res: bool)
        ensures
            res == self.update_allowed(comp_data.model()),
    {
        if comp_data.rec_update.queue_compile {
            let budget = usize::MAX - comp_data.aabb_index;
            match unions_shapes_within(&self.header_unions, budget) {
                Some(_) => unions_fit_depth(&self.header_unions, 0),
                None => false,
            }
        } else if comp_data.rec_update.queue_update {
            unions_are_registered(&self.header_unions, comp_data)
        } else {
            true
        }
    }

    /// The editor's "Add union" action: appends a default top-level union
    /// and queues a compile and an update.
    pub fn add_union(&mut self, comp_data: &mut CompData, hashes: &mut HashSource)
        ensures
            final(self).header_unions@.len() == old(self).header_unions@.len() + 1,
            final(self).header_unions@.drop_last() == old(self).header_unions@,
            final(self).header_unions@.last().is_default(),
            final(self).save_name == old(self).save_name,
            final(comp_data).model() == after_edit(old(comp_data).model()),
    {
        self.header_unions.push(Union::new(hashes));
        comp_data.rec_update.both();
        assert(self.header_unions@.drop_last() =~= old(self).header_unions@);
    }

    /// The editor's "Delete" action on top-level union `index`: removes it
    /// and queues a compile and an update.
    pub fn delete_union(&mut self, comp_data: &mut CompData, index: usize)
        requires
            index < old(self).header_unions@.len(),
        ensures
            final(self).header_unions@ == old(self).header_unions@.remove(index as int),
            final(self).save_name == old(self).save_name,
            final(comp_data).model() == after_edit(old(comp_data).model()),
    {
        self.header_unions.remove(index);
        comp_data.rec_update.both();
    }

    /// The shader's `map` function for the scene.
    pub fn compile(&mut self, comp_data: &mut CompData) -> (res: String)
        requires
            old(self).compile_fits(old(comp_data).model()),
        ensures
            (res@, final(comp_data).model()) == map_compiled(old(self).header_unions@, old(comp_data).model()),
            *final(self) == *old(self),
            final(comp_data).aabb_index == old(comp_data).aabb_index + unions_shape_count(old(self).header_unions@),
            old(comp_data).model().extended_by(final(comp_data).model()),
            old(comp_data).model().wf() ==> final(comp_data).model().wf(),
            old(comp_data).model().wf() ==> unions_registered(old(self).header_unions@, final(comp_data).model()),
            old(comp_data).model().same_flags(final(comp_data).model()),
    {
        let ghost m0 = comp_data.model();
        let mut start = String::new();
        start.append("start");
        let mut body = String::new();
        let mut i: usize = 0;
        while i < self.header_unions.len()
            invariant
                0 <= i <= self.header_unions@.len(),
                start@ == "start"@,
                (body@, comp_data.model()) == unions_compiled(
                    self.header_unions@.subrange(0, i as int),
                    m0,
                    "start"@,
                    0,
                    UnionType::Union,
                ),
                comp_data.aabb_index == m0.aabb_index + unions_shape_count(
                    self.header_unions@.subrange(0, i as int),
                ),
                self.compile_fits(m0),
                m0.extended_by(comp_data.model()),
                m0.same_flags(comp_data.model()),
                m0.wf() ==> comp_data.model().wf(),
                m0.wf() ==> unions_registered(self.header_unions@.subrange(0, i as int), comp_data.model()),
            decreases self.header_unions@.len() - i,
        {
            proof {
                lemma_unions_shape_count_prefix(self.header_unions@, i + 1);
                assert(self.header_unions@.subrange(0, i + 1).drop_last() =~= self.header_unions@.subrange(0, i as int));
                lemma_unions_depth_fit_index(self.header_unions@, 0, i as int);
            }
            let ghost before = comp_data.model();
            let c = self.header_unions[i].compile(comp_data, &start, 0, &UnionType::Union);
            proof {
                lemma_extended_trans(m0, before, comp_data.model());
                if m0.wf() {
                    lemma_unions_registered_mono(self.header_unions@.subrange(0, i as int), before, comp_data.model());
                }
            }
            body.append(c.as_str());
            i = i + 1;
        }
        proof {
            assert(self.header_unions@.subrange(0, i as int) =~= self.header_unions@);
        }
        let mut out = String::new();
        out.append("\n      #define MAXHIT Hit(10000.0, MDEF)\n\n      Hit map(vec3 pu0) {\n         Hit start = MAXHIT;\n\n      ");
        out.append(body.as_str());
        out.append("\n         return start;\n      }\n\n      ");
        out
    }

    /// Writes the current values of all number fields into their slots.
    /// Returns an empty vector.
    pub fn data_update(&mut self, comp_data: &mut CompData) -> (res: Vec<u32>)
        requires
            unions_registered(old(self).header_unions@, old(comp_data).model()),
        ensures
            final(comp_data).model() == unions_refreshed(old(self).header_unions@, old(comp_data).model()),
            final(comp_data).model().seen == old(comp_data).model().seen,
            final(comp_data).model().data.len() == old(comp_data).model().data.len(),
            old(comp_data).model().same_flags(final(comp_data).model()),
            *final(self) == *old(self),
            res@.len() == 0,
    {
        let ghost m0 = comp_data.model();
        let mut i: usize = 0;
        while i < self.header_unions.len()
            invariant
                0 <= i <= self.header_unions@.len(),
                comp_data.model() == unions_refreshed(self.header_unions@.subrange(0, i as int), m0),
                comp_data.model().seen == m0.seen,
                comp_data.model().data.len() == m0.data.len(),
                m0.same_flags(comp_data.model()),
                unions_registered(self.header_unions@, m0),
            decreases self.header_unions@.len() - i,
        {
            proof {
                assert(self.header_unions@.subrange(0, i + 1).drop_last() =~= self.header_unions@.subrange(0, i as int));
                lemma_unions_registered_index(self.header_unions@, m0, i as int);
                lemma_union_registered_mono(self.header_unions@[i as int], m0, comp_data.model());
            }
            self.header_unions[i].refresh(comp_data);
            i = i + 1;
        }
        proof {
            assert(self.header_unions@.subrange(0, i as int) =~= self.header_unions@);
        }
        Vec::new()
    }

    /// One frame of editor bookkeeping: recompiles the scene from a fresh
    /// data array when a compile is queued (returning the new `map` code,
    /// for which the shader pipeline is to be rebuilt), refreshes the slot
    /// values when an update is queued, and clears both requests. After an
    /// update that recompiled, every number field of the scene has a slot,
    /// so the value-only updates that follow are allowed.
    pub fn update(&mut self, comp_data: &mut CompData) -> (res: Option<String>)
        requires
            old(self).update_allowed(old(comp_data).model()),
        ensures
            ({
                let (map, m) = updated(old(self).header_unions@, old(comp_data).model());
                &&& final(comp_data).model() == m
                &&& match res {
                    Some(s) => map == Some(s@),
                    None => map is None,
                }
            }),
            final(comp_data).checker == old(comp_data).checker,
            final(comp_data).data_array.counter == old(comp_data).data_array.counter,
            old(comp_data).model().rec_update.queue_compile ==> final(comp_data).model().wf(),
            old(comp_data).model().rec_update.queue_compile ==> unions_registered(
                old(self).header_unions@,
                final(comp_data).model(),
            ),
            *final(self) == *old(self),
    {
        let ghost m0 = comp_data.model();
        let mut res = None;
        if comp_data.rec_update.queue_compile {
            comp_data.reset_data_array();
            proof {
                assert(comp_data.model() == reset_model(m0));
                assert(comp_data.model().wf());
            }
            let map = self.compile(comp_data);
            res = Some(map);
        }
        let ghost m1 = comp_data.model();
        assert(m1.rec_update == m0.rec_update);
        if comp_data.rec_update.queue_update {
            self.data_update(comp_data);
        }
        let ghost m2 = comp_data.model();
        comp_data.rec_update.reset();
        assert(comp_data.model() == (CompModel { rec_update: RecUpdate { queue_compile: false, queue_update: false }, ..m2 }));
        proof {
            if m0.rec_update.queue_compile {
                lemma_unions_registered_mono(self.header_unions@, m1, comp_data.model());
            }
        }
        res
    }
}

/// The scene editor together with its compilation state and the source of
/// the identities of new number fields.
pub struct SDFEditorPackage {
    pub sdfeditor: SDFEditor,
    pub comp_data: CompData,
    pub hashes: HashSource,
}

impl SDFEditorPackage {
    pub fn new(hashes: HashSource) -> (res: Self)
        ensures
            res.sdfeditor.is_default(),
            res.comp_data.model() == CompData::new_model(),
    {
        let mut hashes = hashes;
        let sdfeditor = SDFEditor::new(&mut hashes);
        SDFEditorPackage { sdfeditor, comp_data: CompData::new(), hashes }
    }

    /// Whether `update` may run.
    pub fn can_update(&self) -> (res: bool)
        ensures
            res == self.sdfeditor.update_allowed(self.comp_data.model()),
    {
        self.sdfeditor.can_update(&self.comp_data)
    }

    /// One frame: restarts the highlight alternation, then runs the editor's
    /// `update`. Returns the new `map` code when the scene was recompiled
    /// (the shader pipeline is then to be rebuilt from it) and whether any
    /// work was queued (the data array is then to be uploaded again).
    pub fn update(&mut self) -> (res: (Option<String>, bool))
        requires
            old(self).sdfeditor.update_allowed(old(self).comp_data.model()),
        ensures
            ({
                let m0 = CompModel { checker: true, ..old(self).comp_data.model() };
                let (map, m) = updated(old(self).sdfeditor.header_unions@, m0);
                &&& final(self).comp_data.model() == m
                &&& match res.0 {
                    Some(s) => map == Some(s@),
                    None => map is None,
                }
                &&& res.1 == (m0.rec_update.queue_compile || m0.rec_update.queue_update)
            }),
            final(self).comp_data.checker,
            final(self).comp_data.data_array.counter == old(self).comp_data.data_array.counter,
            old(self).comp_data.rec_update.queue_compile ==> final(self).comp_data.model().wf(),
            old(self).comp_data.rec_update.queue_compile ==> unions_registered(
                old(self).sdfeditor.header_unions@,
                final(self).comp_data.model(),
            ),
            final(self).sdfeditor == old(self).sdfeditor,
    {
        let ghost m_before = self.comp_data.model();
        self.comp_data.checker = true;
        proof {
            if unions_registered(self.sdfeditor.header_unions@, m_before) {
                lemma_unions_registered_mono(self.sdfeditor.header_unions@, m_before, self.comp_data.model());
            }
        }
        let queued = self.comp_data.rec_update.queue_compile || self.comp_data.rec_update.queue_update;
        let map = self.sdfeditor.update(&mut self.comp_data);
        (map, queued)
    }
}

} // verus!
