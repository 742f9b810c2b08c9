//! The textures on the GPU: which OpenGL texture holds each image asset and each
//! texture reference, the placeholder used for missing images, and which images a
//! frame's asset events ask to upload or delete.

use vstd::prelude::*;
use std::collections::HashMap;
use vstd::std_specs::hash::group_hash_axioms;

verus! {

broadcast use group_hash_axioms;

/// A texture to sample: an image asset (none for "no image"), a texture reference
/// whose texture is created later, or an OpenGL texture name.
#[derive(PartialEq, Eq, Structural, Clone, Copy, Debug)]
pub enum Tex {
    Image(Option<u64>),
    Ref(u64),
    Gl(u32),
}

/// OpenGL textures by image asset and by texture reference, each with its target.
pub struct GpuImages {
    mapping: HashMap<u64, (u32, u32)>,
    refs: HashMap<u64, (u32, u32)>,
    updated_this_frame: bool,
    placeholder: Option<u32>,
}

/// Which texture and target a sampler binds for `tex`: the mapped texture of an uploaded
/// image or known reference (with its target), the texture itself for an OpenGL texture
/// (no target of its own), and the placeholder otherwise.
pub open spec fn spec_resolve(
    mapping: Map<u64, (u32, u32)>,
    refs: Map<u64, (u32, u32)>,
    placeholder: u32,
    tex: Tex,
) -> (u32, Option<u32>) {
    match tex {
        Tex::Image(Some(id)) => if mapping.contains_key(id) {
            (mapping[id].0, Some(mapping[id].1))
        } else {
            (placeholder, None)
        },
        Tex::Image(None) => (placeholder, None),
        Tex::Ref(r) => if refs.contains_key(r) {
            (refs[r].0, Some(refs[r].1))
        } else {
            (placeholder, None)
        },
        Tex::Gl(t) => (t, None),
    }
}

impl GpuImages {
    /// A 1x1 white texture drawn where an image is missing.
    pub closed spec fn spec_placeholder(&self) -> Option<u32> {
        self.placeholder
    }

    /// Whether any image was uploaded this frame.
    pub closed spec fn spec_updated_this_frame(&self) -> bool {
        self.updated_this_frame
    }

    pub fn placeholder(&self) -> (r: Option<u32>)
        ensures
            r == self.spec_placeholder(),
    {
        self.placeholder
    }

    pub fn set_placeholder(&mut self, texture: u32)
        ensures
            final(self).spec_placeholder() == Some(texture),
            final(self).spec_mapping() == old(self).spec_mapping(),
            final(self).spec_refs() == old(self).spec_refs(),
            final(self).spec_updated_this_frame() == old(self).spec_updated_this_frame(),
    {
        self.placeholder = Some(texture);
    }

    pub fn updated_this_frame(&self) -> (r: bool)
        ensures
            r == self.spec_updated_this_frame(),
    {
        self.updated_this_frame
    }

    pub fn set_updated_this_frame(&mut self, updated: bool)
        ensures
            final(self).spec_updated_this_frame() == updated,
            final(self).spec_placeholder() == old(self).spec_placeholder(),
            final(self).spec_mapping() == old(self).spec_mapping(),
            final(self).spec_refs() == old(self).spec_refs(),
    {
        self.updated_this_frame = updated;
    }

    pub closed spec fn spec_mapping(&self) -> Map<u64, (u32, u32)> {
        self.mapping@
    }

    pub closed spec fn spec_refs(&self) -> Map<u64, (u32, u32)> {
        self.refs@
    }

    /// No texture yet.
    pub fn new() -> (r: GpuImages)
        ensures
            r.spec_mapping() == Map::<u64, (u32, u32)>::empty(),
            r.spec_refs() == Map::<u64, (u32, u32)>::empty(),
            !r.spec_updated_this_frame(),
            r.spec_placeholder() is None,
    {
        GpuImages { mapping: HashMap::new(), refs: HashMap::new(), updated_this_frame: false, placeholder: None }
    }

    /// The texture and target of an uploaded image.
    pub fn image(&self, id: u64) -> (r: Option<(u32, u32)>)
        ensures
            r == (if self.spec_mapping().contains_key(id) {
                Some(self.spec_mapping()[id])
            } else {
                None
            }),
    {
        match self.mapping.get(&id) {
            Some(t) => Some(*t),
            None => None,
        }
    }

    /// Records the texture of an uploaded image; returns the texture it replaces, to delete.
    pub fn insert_image(&mut self, id: u64, texture: u32, target: u32) -> (old_texture: Option<(u32, u32)>)
        ensures
            final(self).spec_mapping() == old(self).spec_mapping().insert(id, (texture, target)),
            final(self).spec_refs() == old(self).spec_refs(),
            final(self).spec_placeholder() == old(self).spec_placeholder(),
            final(self).spec_updated_this_frame() == old(self).spec_updated_this_frame(),
            old_texture == (if old(self).spec_mapping().contains_key(id) {
                Some(old(self).spec_mapping()[id])
            } else {
                None
            }),
    {
        self.mapping.insert(id, (texture, target))
    }

    /// Forgets the texture of an image; returns it, to delete.
    pub fn remove_image(&mut self, id: u64) -> (removed: Option<(u32, u32)>)
        ensures
            final(self).spec_mapping() == old(self).spec_mapping().remove(id),
            final(self).spec_refs() == old(self).spec_refs(),
            final(self).spec_placeholder() == old(self).spec_placeholder(),
            final(self).spec_updated_this_frame() == old(self).spec_updated_this_frame(),
            removed == (if old(self).spec_mapping().contains_key(id) {
                Some(old(self).spec_mapping()[id])
            } else {
                None
            }),
    {
        self.mapping.remove(&id)
    }

    /// Points a texture reference at a created texture.
    pub fn add_texture_set_ref(&mut self, texture: u32, target: u32, texture_ref: u64)
        ensures
            final(self).spec_refs() == old(self).spec_refs().insert(texture_ref, (texture, target)),
            final(self).spec_mapping() == old(self).spec_mapping(),
            final(self).spec_placeholder() == old(self).spec_placeholder(),
            final(self).spec_updated_this_frame() == old(self).spec_updated_this_frame(),
    {
        self.refs.insert(texture_ref, (texture, target));
    }

    /// The texture and target a texture reference points at.
    pub fn texture_from_ref(&self, texture_ref: u64) -> (r: Option<(u32, u32)>)
        ensures
            r == (if self.spec_refs().contains_key(texture_ref) {
                Some(self.spec_refs()[texture_ref])
            } else {
                None
            }),
    {
        match self.refs.get(&texture_ref) {
            Some(t) => Some(*t),
            None => None,
        }
    }

    /// The texture a sampler binds for `tex`, and the target when `tex` knows one.
    pub fn resolve(&self, tex: &Tex) -> (r: (u32, Option<u32>))
        requires
            self.spec_placeholder() is Some,
        ensures
            r == spec_resolve(self.spec_mapping(), self.spec_refs(), self.spec_placeholder()->0, *tex),
    {
        let placeholder = match self.placeholder {
            Some(p) => p,
            None => vstd::pervasive::unreached(),
        };
        match tex {
            Tex::Image(image) => {
                match image {
                    Some(id) => match self.mapping.get(id) {
                        Some(t) => (t.0, Some(t.1)),
                        None => (placeholder, None),
                    },
                    None => (placeholder, None),
                }
            },
            Tex::Ref(r) => match self.refs.get(r) {
                Some(t) => (t.0, Some(t.1)),
                None => (placeholder, None),
            },
            Tex::Gl(t) => (*t, None),
        }
    }
}

/// After an image's texture is recorded, the image resolves to that texture with its
/// target; after the image is forgotten, it resolves to the placeholder.
pub proof fn lemma_insert_then_resolve(
    mapping: Map<u64, (u32, u32)>,
    refs: Map<u64, (u32, u32)>,
    placeholder: u32,
    id: u64,
    texture: u32,
    target: u32,
)
    ensures
        spec_resolve(mapping.insert(id, (texture, target)), refs, placeholder, Tex::Image(Some(id)))
            == (texture, Some(target)),
        spec_resolve(mapping.remove(id), refs, placeholder, Tex::Image(Some(id))) == (
            placeholder,
            None::<u32>,
        ),
{
}

/// What happened to an image asset since the last frame.
#[derive(PartialEq, Eq, Structural, Clone, Copy, Debug)]
pub enum ImageEvent {
    Added(u64),
    Modified(u64),
    Removed(u64),
    /// Events the uploader ignores (loaded with dependencies, unused).
    Other,
}

pub open spec fn spec_removed_images(events: Seq<ImageEvent>) -> Seq<u64>
    decreases events.len(),
{
    if events.len() == 0 {
        Seq::empty()
    } else {
        let rest = spec_removed_images(events.drop_last());
        match events.last() {
            ImageEvent::Removed(id) => rest.push(id),
            _ => rest,
        }
    }
}

/// The images to upload: each added or modified image once, in the order first reported.
pub open spec fn spec_updated_images(events: Seq<ImageEvent>) -> Seq<u64>
    decreases events.len(),
{
    if events.len() == 0 {
        Seq::empty()
    } else {
        let rest = spec_updated_images(events.drop_last());
        match events.last() {
            ImageEvent::Added(id) | ImageEvent::Modified(id) => if rest.contains(id) {
                rest
            } else {
                rest.push(id)
            },
            _ => rest,
        }
    }
}

/// One frame's image events: the images whose textures are deleted, and the images to
/// upload (each once).
pub fn plan_image_events(events: &Vec<ImageEvent>) -> (r: (Vec<u64>, Vec<u64>))
    ensures
        r.0@ == spec_removed_images(events@),
        r.1@ == spec_updated_images(events@),
        r.1@.no_duplicates(),
{
    let mut removed: Vec<u64> = Vec::new();
    let mut updated: Vec<u64> = Vec::new();
    let mut e: usize = 0;
    while e < events.len()
        invariant
            e <= events@.len(),
            removed@ == spec_removed_images(events@.take(e as int)),
            updated@ == spec_updated_images(events@.take(e as int)),
            updated@.no_duplicates(),
        decreases events@.len() - e,
    {
        let ghost cur = events@.take(e + 1);
        assert(cur.drop_last() =~= events@.take(e as int));
        assert(cur.last() == events@[e as int]);
        match events[e] {
            ImageEvent::Added(id) | ImageEvent::Modified(id) => {
                let mut i: usize = 0;
                let mut seen = false;
                while i < updated.len()
                    invariant
                        i <= updated@.len(),
                        seen <==> exists|j: int| 0 <= j < i && updated@[j] == id,
                    decreases updated@.len() - i,
                {
                    if updated[i] == id {
                        seen = true;
                    }
                    i = i + 1;
                }
                if !seen {
                    updated.push(id);
                }
            },
            ImageEvent::Removed(id) => {
                removed.push(id);
            },
            ImageEvent::Other => {},
        }
        e = e + 1;
    }
    assert(events@.take(e as int) =~= events@);
    (removed, updated)
}

} // verus!
