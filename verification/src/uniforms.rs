//! Uniform state of the bound shader program: which texture unit each sampler uses,
//! the last value uploaded to each uniform (so unchanged values are not sent again),
//! and the state reset when another program is bound.

use vstd::prelude::*;
use crate::cull::{CullCommand, CullState, Face, spec_cull_command};
use crate::gpu_images::{GpuImages, Tex, spec_resolve};
use crate::gl;
use crate::shader_source::vec_char_eq;
use std::collections::HashMap;

verus! {

/// The most raw 32-bit words one uniform value holds (a 4x4 matrix).
pub const MAX_RAW_WORDS: usize = 16;

/// A uniform of a uniform set, found in the bound program at `location`.
#[allow(inconsistent_fields)]
pub enum SlotData<L> {
    /// A value uniform and the raw words last uploaded (`init` once any was).
    Uniform { init: bool, previous: Vec<u32>, location: L },
    /// A sampler, its texture unit and target, and the texture last bound to it.
    Texture { target: u32, texture_slot: u32, previous: Option<u32>, location: L },
}

/// A texture to bind: activate unit `unit`, bind `texture` to `target`, and point the
/// sampler uniform at the unit.
#[derive(PartialEq, Eq, Structural, Clone, Copy, Debug)]
pub struct TextureBind {
    pub unit: u32,
    pub target: u32,
    pub texture: u32,
}

/// Decides whether a value uniform must be uploaded: on its first upload, or when its raw
/// words differ from the words uploaded last. When it must, the words are recorded.
pub fn load_if_new<L>(raw: Vec<u32>, slot: &mut SlotData<L>) -> (upload: bool)
    requires
        (*old(slot)) is Uniform,
    ensures
        (*final(slot)) is Uniform,
        (*final(slot))->Uniform_location == (*old(slot))->Uniform_location,
        upload == (!(*old(slot))->Uniform_init || raw@ != (*old(slot))->Uniform_previous@),
        upload ==> (*final(slot))->Uniform_init && (*final(slot))->Uniform_previous@ == raw@,
        !upload ==> (*final(slot))->Uniform_init == (*old(slot))->Uniform_init
            && (*final(slot))->Uniform_previous@ == (*old(slot))->Uniform_previous@,
{
    match slot {
        SlotData::Uniform { init, previous, location: _ } => {
            let mut same = raw.len() == previous.len();
            let mut i: usize = 0;
            while same && i < raw.len()
                invariant
                    i <= raw@.len(),
                    same ==> raw@.len() == previous@.len(),
                    same ==> forall|j: int| 0 <= j < i ==> raw@[j] == previous@[j],
                    !same ==> raw@ != previous@,
                decreases raw@.len() - i,
            {
                if raw[i] != previous[i] {
                    same = false;
                }
                i = i + 1;
            }
            if same {
                assert(raw@ =~= previous@);
            }
            if !*init || !same {
                *init = true;
                *previous = raw;
                true
            } else {
                false
            }
        },
        SlotData::Texture { .. } => vstd::pervasive::unreached(),
    }
}

/// Decides whether a sampler's texture must be bound. The texture is the one `tex`
/// resolves to; an image or reference with a known texture also sets the sampler's
/// target. Nothing is bound when the texture is the one bound last.
pub fn load_tex_if_new<L>(tex: &Tex, gpu_images: &GpuImages, slot: &mut SlotData<L>) -> (bind: Option<TextureBind>)
    requires
        (*old(slot)) is Texture,
        gpu_images.spec_placeholder() is Some,
    ensures
        ({
            let (texture, target) = spec_resolve(
                gpu_images.spec_mapping(),
                gpu_images.spec_refs(),
                gpu_images.spec_placeholder()->0,
                *tex,
            );
            let new_target = match target {
                Some(t) => t,
                None => (*old(slot))->Texture_target,
            };
            &&& (*final(slot)) is Texture
            &&& (*final(slot))->Texture_location == (*old(slot))->Texture_location
            &&& (*final(slot))->Texture_texture_slot == (*old(slot))->Texture_texture_slot
            &&& (*final(slot))->Texture_target == new_target
            &&& (*final(slot))->Texture_previous == Some(texture)
            &&& ((*old(slot))->Texture_previous == Some(texture) ==> bind is None)
            &&& ((*old(slot))->Texture_previous != Some(texture) ==> bind == Some(
                TextureBind {
                    unit: (*old(slot))->Texture_texture_slot,
                    target: new_target,
                    texture,
                },
            ))
        }),
{
    match slot {
        SlotData::Texture { target, texture_slot, previous, location: _ } => {
            let (texture, mapped_target) = gpu_images.resolve(tex);
            match mapped_target {
                Some(t) => {
                    *target = t;
                },
                None => {},
            }
            match previous {
                Some(p) => {
                    if *p == texture {
                        return None;
                    }
                },
                None => {},
            }
            *previous = Some(texture);
            Some(TextureBind { unit: *texture_slot, target: *target, texture })
        },
        SlotData::Uniform { .. } => vstd::pervasive::unreached(),
    }
}

/// The state of the bound program: its index in the shader cache, the texture units
/// handed out so far, the cull state, the slots of each uniform set (keyed by the set's
/// type) and the uniform locations looked up by name, both found in this program.
pub struct ProgramState<K, L> {
    pub current_program: Option<u32>,
    pub current_texture_slot_count: usize,
    pub cull: CullState,
    pub uniform_slots: HashMap<K, Vec<Option<SlotData<L>>>>,
    pub locations: LocationCache<L>,
}

impl<K, L: Clone> ProgramState<K, L> {
    /// Nothing bound yet.
    pub fn new() -> (r: ProgramState<K, L>)
        ensures
            r.current_program is None,
            r.current_texture_slot_count == 0,
            r.cull.last_cull_mode is None,
            r.uniform_slots@ == Map::<K, Vec<Option<SlotData<L>>>>::empty(),
            r.locations.spec_map() == Map::<Seq<char>, Option<L>>::empty(),
    {
        ProgramState {
            current_program: None,
            current_texture_slot_count: 0,
            cull: CullState::new(),
            uniform_slots: HashMap::new(),
            locations: LocationCache::new(),
        }
    }

    /// Binds the program with index `index`: texture units start again at 0, back faces
    /// are culled (as Bevy does by default), and the uniform slots and locations found in
    /// the previous program are forgotten. Returns the cull calls to make.
    pub fn use_cached_program(&mut self, index: u32) -> (r: Option<CullCommand>)
        ensures
            final(self).current_program == Some(index),
            final(self).current_texture_slot_count == 0,
            final(self).cull.last_cull_mode == Some(Face::Back),
            final(self).uniform_slots@ == Map::<K, Vec<Option<SlotData<L>>>>::empty(),
            final(self).locations.spec_map() == Map::<Seq<char>, Option<L>>::empty(),
            old(self).cull.last_cull_mode == Some(Face::Back) ==> r is None,
            old(self).cull.last_cull_mode != Some(Face::Back) ==> r == Some(
                spec_cull_command(Some(Face::Back)),
            ),
    {
        self.uniform_slots.clear();
        self.locations.clear();
        self.current_program = Some(index);
        self.current_texture_slot_count = 0;
        self.cull.set_cull_mode(Some(Face::Back))
    }

    /// Builds the slots of a uniform set from the locations found in the bound program:
    /// a name without location gets no slot; each found sampler takes the next texture
    /// unit; value uniforms start with nothing uploaded.
    pub fn map_uniform_set_locations(&mut self, is_texture: &Vec<bool>, locations: Vec<Option<L>>) -> (slots: Vec<Option<SlotData<L>>>)
        requires
            is_texture@.len() == locations@.len(),
            old(self).current_texture_slot_count + is_texture@.len() <= u32::MAX,
        ensures
            slots@.len() == locations@.len(),
            final(self).current_program == old(self).current_program,
            final(self).cull == old(self).cull,
            final(self).uniform_slots@ == old(self).uniform_slots@,
            final(self).locations.spec_map() == old(self).locations.spec_map(),
            final(self).current_texture_slot_count == old(self).current_texture_slot_count
                + spec_count_found_textures(is_texture@, locations@, locations@.len() as int),
            forall|i: int|
                0 <= i < slots@.len() ==> {
                    &&& (locations@[i] is None <==> (#[trigger] slots@[i]) is None)
                    &&& locations@[i] is Some && is_texture@[i] ==> slots@[i]->0 is Texture
                        && slots@[i]->0->Texture_target == gl::TEXTURE_2D
                        && slots@[i]->0->Texture_previous is None
                        && slots@[i]->0->Texture_texture_slot == old(
                        self,
                    ).current_texture_slot_count + spec_count_found_textures(
                        is_texture@,
                        locations@,
                        i,
                    ) && slots@[i]->0->Texture_location == locations@[i]->0
                    &&& locations@[i] is Some && !is_texture@[i] ==> slots@[i]->0 is Uniform
                        && !slots@[i]->0->Uniform_init && slots@[i]->0->Uniform_previous@.len()
                        == 0 && slots@[i]->0->Uniform_location == locations@[i]->0
                },
    {
        let ghost locs = locations@;
        let ghost start = self.current_texture_slot_count;
        let mut slots: Vec<Option<SlotData<L>>> = Vec::new();
        let mut locations = locations;
        let n = locations.len();
        let mut i: usize = 0;
        while i < n
            invariant
                n == locs.len(),
                n == is_texture@.len(),
                i <= n,
                start + n <= u32::MAX,
                locations@ == locs.skip(i as int),
                self.current_texture_slot_count == start + spec_count_found_textures(is_texture@, locs, i as int),
                self.current_program == old(self).current_program,
                self.cull == old(self).cull,
                self.uniform_slots == old(self).uniform_slots,
                self.locations == old(self).locations,
                slots@.len() == i,
                forall|k: int|
                    0 <= k < i ==> {
                        &&& (locs[k] is None <==> (#[trigger] slots@[k]) is None)
                        &&& locs[k] is Some && is_texture@[k] ==> slots@[k]->0 is Texture
                            && slots@[k]->0->Texture_target == gl::TEXTURE_2D
                            && slots@[k]->0->Texture_previous is None
                            && slots@[k]->0->Texture_texture_slot == start
                            + spec_count_found_textures(is_texture@, locs, k)
                            && slots@[k]->0->Texture_location == locs[k]->0
                        &&& locs[k] is Some && !is_texture@[k] ==> slots@[k]->0 is Uniform
                            && !slots@[k]->0->Uniform_init && slots@[k]->0->Uniform_previous@.len()
                            == 0 && slots@[k]->0->Uniform_location == locs[k]->0
                    },
            decreases n - i,
        {
            proof {
                lemma_count_found_bound(is_texture@, locs, i as int);
            }
            let location = locations.remove(0);
            assert(location == locs[i as int]);
            assert(locations@ =~= locs.skip(i + 1));
            let slot = match location {
                Some(location) => {
                    if is_texture[i] {
                        let s = SlotData::Texture {
                            target: gl::TEXTURE_2D,
                            texture_slot: self.current_texture_slot_count as u32,
                            previous: None,
                            location,
                        };
                        self.current_texture_slot_count = self.current_texture_slot_count + 1;
                        Some(s)
                    } else {
                        Some(SlotData::Uniform { init: false, previous: Vec::new(), location })
                    }
                },
                None => None,
            };
            slots.push(slot);
            i = i + 1;
        }
        slots
    }

    /// Takes the next texture unit for a texture loaded directly by name, and the binding
    /// for `tex` there (target `TEXTURE_2D` unless the texture has its own).
    pub fn load_tex(&mut self, tex: &Tex, gpu_images: &GpuImages) -> (bind: TextureBind)
        requires
            gpu_images.spec_placeholder() is Some,
            old(self).current_texture_slot_count < u32::MAX,
        ensures
            final(self).current_texture_slot_count == old(self).current_texture_slot_count + 1,
            final(self).current_program == old(self).current_program,
            final(self).cull == old(self).cull,
            final(self).uniform_slots@ == old(self).uniform_slots@,
            final(self).locations.spec_map() == old(self).locations.spec_map(),
            bind == spec_texture_bind(
                gpu_images,
                *tex,
                old(self).current_texture_slot_count as u32,
            ),
    {
        let unit = self.current_texture_slot_count as u32;
        self.current_texture_slot_count = self.current_texture_slot_count + 1;
        set_tex(tex, gpu_images, unit)
    }
}

/// The binding of `tex` at texture unit `unit`.
pub open spec fn spec_texture_bind(gpu_images: &GpuImages, tex: Tex, unit: u32) -> TextureBind {
    let (texture, target) = spec_resolve(
        gpu_images.spec_mapping(),
        gpu_images.spec_refs(),
        gpu_images.spec_placeholder()->0,
        tex,
    );
    TextureBind {
        unit,
        target: match target {
            Some(t) => t,
            None => gl::TEXTURE_2D,
        },
        texture,
    }
}

/// The binding that updates the texture at a unit handed out by `load_tex`.
pub fn set_tex(tex: &Tex, gpu_images: &GpuImages, unit: u32) -> (bind: TextureBind)
    requires
        gpu_images.spec_placeholder() is Some,
    ensures
        bind == spec_texture_bind(gpu_images, *tex, unit),
{
    let (texture, target) = gpu_images.resolve(tex);
    let target = match target {
        Some(t) => t,
        None => gl::TEXTURE_2D,
    };
    TextureBind { unit, target, texture }
}

/// How many of the first `n` names are samplers found in the program.
pub open spec fn spec_count_found_textures<L>(is_texture: Seq<bool>, locations: Seq<Option<L>>, n: int) -> nat
    decreases n,
{
    if n <= 0 {
        0
    } else {
        spec_count_found_textures(is_texture, locations, n - 1) + if locations[n - 1] is Some
            && is_texture[n - 1] {
            1nat
        } else {
            0nat
        }
    }
}

proof fn lemma_count_found_bound<L>(is_texture: Seq<bool>, locations: Seq<Option<L>>, n: int)
    requires
        n >= 0,
    ensures
        spec_count_found_textures(is_texture, locations, n) <= n,
    decreases n,
{
    if n > 0 {
        lemma_count_found_bound(is_texture, locations, n - 1);
    }
}

proof fn lemma_count_found_monotone<L>(is_texture: Seq<bool>, locations: Seq<Option<L>>, i: int, j: int)
    requires
        i <= j,
    ensures
        spec_count_found_textures(is_texture, locations, i) <= spec_count_found_textures(
            is_texture,
            locations,
            j,
        ),
    decreases j - i,
{
    if i < j {
        lemma_count_found_monotone(is_texture, locations, i, j - 1);
    }
}

/// The samplers of one uniform set never share a texture unit: a sampler found later
/// in the set is handed a strictly higher unit than any found before it.
pub proof fn lemma_texture_units_distinct<L>(
    is_texture: Seq<bool>,
    locations: Seq<Option<L>>,
    i: int,
    j: int,
)
    requires
        0 <= i < j < locations.len(),
        locations[i] is Some,
        is_texture[i],
    ensures
        spec_count_found_textures(is_texture, locations, i) < spec_count_found_textures(
            is_texture,
            locations,
            j,
        ),
{
    lemma_count_found_monotone(is_texture, locations, i + 1, j);
}

/// Loading a value twice uploads it once: after a value was checked, checking the same
/// raw words again finds nothing to upload.
pub proof fn lemma_load_if_new_idempotent(init: bool, previous: Seq<u32>, raw: Seq<u32>)
    ensures
        ({
            let upload1 = !init || raw != previous;
            let (init2, previous2) = if upload1 {
                (true, raw)
            } else {
                (init, previous)
            };
            !(!init2 || raw != previous2)
        }),
{
}

/// The uniform locations looked up by name in the bound program (a location may be
/// absent: the program has no such uniform). A later entry for a name replaces an
/// earlier one.
pub struct LocationCache<L> {
    entries: Vec<(Vec<char>, Option<L>)>,
}

/// The cached locations by name, a later entry replacing an earlier one.
pub open spec fn spec_location_map<L>(entries: Seq<(Vec<char>, Option<L>)>) -> Map<Seq<char>, Option<L>>
    decreases entries.len(),
{
    if entries.len() == 0 {
        Map::empty()
    } else {
        spec_location_map(entries.drop_last()).insert(entries.last().0@, entries.last().1)
    }
}

proof fn lemma_location_map_suffix<L>(entries: Seq<(Vec<char>, Option<L>)>, k: int, name: Seq<char>)
    requires
        0 <= k <= entries.len(),
        forall|j: int| k <= j < entries.len() ==> (#[trigger] entries[j]).0@ != name,
    ensures
        spec_location_map(entries).contains_key(name) == spec_location_map(entries.take(k)).contains_key(name),
        spec_location_map(entries).contains_key(name) ==> spec_location_map(entries)[name]
            == spec_location_map(entries.take(k))[name],
    decreases entries.len(),
{
    if k == entries.len() {
        assert(entries.take(k) =~= entries);
    } else {
        assert(entries.drop_last().take(k) =~= entries.take(k));
        lemma_location_map_suffix(entries.drop_last(), k, name);
        assert(entries[entries.len() - 1] == entries.last());
    }
}

impl<L: Clone> LocationCache<L> {
    pub closed spec fn spec_map(&self) -> Map<Seq<char>, Option<L>> {
        spec_location_map(self.entries@)
    }

    /// Nothing cached.
    pub fn new() -> (r: Self)
        ensures
            r.spec_map() == Map::<Seq<char>, Option<L>>::empty(),
    {
        LocationCache { entries: Vec::new() }
    }

    /// Forgets every location (another program was bound).
    pub fn clear(&mut self)
        ensures
            final(self).spec_map() == Map::<Seq<char>, Option<L>>::empty(),
    {
        self.entries = Vec::new();
    }

    /// Records the location looked up for `name`.
    pub fn insert(&mut self, name: Vec<char>, location: Option<L>)
        ensures
            final(self).spec_map() == old(self).spec_map().insert(name@, location),
    {
        let ghost before = self.entries@;
        let ghost n = name@;
        self.entries.push((name, location));
        assert(self.entries@.drop_last() =~= before);
        assert(self.entries@.last().0@ == n);
    }

    /// The location cached for `name`, if it was looked up.
    pub fn get(&self, name: &Vec<char>) -> (r: Option<&Option<L>>)
        ensures
            r matches Some(l) ==> self.spec_map().contains_key(name@) && *l == self.spec_map()[name@],
            r is None ==> !self.spec_map().contains_key(name@),
    {
        let ghost ev = self.entries@;
        let mut k: usize = self.entries.len();
        while k > 0
            invariant
                k <= self.entries@.len(),
                ev == self.entries@,
                forall|j: int| k <= j < ev.len() ==> (#[trigger] ev[j]).0@ != name@,
            decreases k,
        {
            let e = &self.entries[k - 1];
            if vec_char_eq(&e.0, name) {
                proof {
                    lemma_location_map_suffix(ev, k as int, name@);
                    assert(ev.take(k as int).drop_last() =~= ev.take(k - 1));
                    assert(ev.take(k as int).last() == ev[k - 1]);
                }
                return Some(&e.1);
            }
            k = k - 1;
        }
        proof {
            lemma_location_map_suffix(ev, 0, name@);
            assert(ev.take(0) =~= Seq::<(Vec<char>, Option<L>)>::empty());
        }
        None
    }
}

} // verus!
