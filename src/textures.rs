use vstd::prelude::*;

verus! {

#[verifier::external_type_specification]
#[verifier::external_body]
pub struct ExBindGroup(wgpu::BindGroup);

#[verifier::external_type_specification]
#[verifier::external_body]
#[verifier::reject_recursive_types(T)]
pub struct ExTextures<T>(imgui::Textures<T>);

/// A GPU texture ready for sampling: the bind group that holds its view and
/// sampler.
pub struct Texture {
    bind_group: wgpu::BindGroup,
}

impl Texture {
    /// The bind group that the texture holds.
    pub closed spec fn group(&self) -> wgpu::BindGroup {
        self.bind_group
    }

    /// Wraps the bind group of a texture that was uploaded to the GPU.
    pub fn new(bind_group: wgpu::BindGroup) -> (r: Texture)
        ensures
            r.group() == bind_group,
    {
        Texture { bind_group }
    }

    /// The bind group to set when drawing with this texture.
    pub fn bind_group(&self) -> (r: &wgpu::BindGroup)
        ensures
            *r == self.group(),
    {
        &self.bind_group
    }
}

/// What an imgui texture table holds: for each handle, the slot of the
/// texture store that it stands for.
pub uninterp spec fn texture_slots(t: imgui::Textures<usize>) -> Map<usize, usize>;

/// The handle that an imgui texture table gives to the next value inserted.
pub uninterp spec fn next_texture_id(t: imgui::Textures<usize>) -> usize;

/// Relies on `imgui::Textures::new`: an empty map, with the handle counter at zero.
#[verifier::external_body]
fn textures_new() -> (r: imgui::Textures<usize>)
    ensures
        texture_slots(r).dom() == Set::<usize>::empty(),
        next_texture_id(r) == 0,
{
    imgui::Textures::new()
}

/// Relies on `imgui::Textures::insert`: stores the value under the counter's
/// value, returns that handle and advances the counter by one (an addition
/// that overflows at the largest `usize`).
#[verifier::external_body]
fn textures_insert(t: &mut imgui::Textures<usize>, slot: usize) -> (r: usize)
    requires
        next_texture_id(*old(t)) < usize::MAX,
    ensures
        r == next_texture_id(*old(t)),
        next_texture_id(*final(t)) == r + 1,
        texture_slots(*final(t)) == texture_slots(*old(t)).insert(r, slot),
{
    t.insert(slot).id()
}

/// Relies on `imgui::Textures::remove`: takes the value under the handle
/// out of the map, if there is one.
#[verifier::external_body]
fn textures_remove(t: &mut imgui::Textures<usize>, id: usize) -> (r: Option<usize>)
    ensures
        r == (if texture_slots(*old(t)).contains_key(id) {
            Some(texture_slots(*old(t))[id])
        } else {
            None
        }),
        texture_slots(*final(t)) == texture_slots(*old(t)).remove(id),
        next_texture_id(*final(t)) == next_texture_id(*old(t)),
{
    t.remove(imgui::TextureId::from(id))
}

/// Relies on `imgui::Textures::get`: the value held under the handle, if any.
#[verifier::external_body]
fn textures_get(t: &imgui::Textures<usize>, id: usize) -> (r: Option<usize>)
    ensures
        r == (if texture_slots(*t).contains_key(id) {
            Some(texture_slots(*t)[id])
        } else {
            None
        }),
{
    t.get(imgui::TextureId::from(id)).copied()
}

/// The registry of live textures, keyed by handles that are never reused.
/// The imgui table maps each live handle to a slot of `store`, which owns
/// the texture; a removed texture leaves its slot empty.
pub struct TextureTable {
    textures: imgui::Textures<usize>,
    store: Vec<Option<Texture>>,
}

impl View for TextureTable {
    type V = Map<usize, Texture>;

    /// Each live handle and the texture registered under it.
    closed spec fn view(&self) -> Map<usize, Texture> {
        Map::new(
            |h: usize| texture_slots(self.textures).contains_key(h),
            |h: usize| self.store@[texture_slots(self.textures)[h] as int]->Some_0,
        )
    }
}

impl TextureTable {
    /// Each live handle maps to its own slot, which holds a texture; the
    /// handle counter is the number of slots.
    pub closed spec fn wf(&self) -> bool {
        &&& next_texture_id(self.textures) == self.store@.len()
        &&& forall|h: usize|
            #[trigger] texture_slots(self.textures).contains_key(h) ==> {
                &&& texture_slots(self.textures)[h] == h
                &&& h < self.store@.len()
                &&& self.store@[h as int] is Some
            }
    }

    /// Number of handles issued so far; the next one issued is this value.
    pub closed spec fn issued(&self) -> nat {
        self.store@.len()
    }

    /// An empty table.
    pub fn new() -> (r: TextureTable)
        ensures
            r.wf(),
            r@.dom() == Set::<usize>::empty(),
            r.issued() == 0,
    {
        let r = TextureTable { textures: textures_new(), store: Vec::new() };
        assert(r@.dom() =~= Set::<usize>::empty());
        r
    }

    /// Registers a texture under a fresh handle, one never issued before by
    /// this table. `None` once every `usize` handle has been issued.
    pub fn insert(&mut self, texture: Texture) -> (r: Option<usize>)
        requires
            old(self).wf(),
        ensures
            final(self).wf(),
            forall|id: usize| final(self)@.contains_key(id) ==> id < final(self).issued(),
            r is None <==> old(self).issued() == usize::MAX,
            r is None ==> final(self)@ == old(self)@,
            r is None ==> final(self).issued() == old(self).issued(),
            r is Some ==> !old(self)@.contains_key(r->0),
            r is Some ==> r->0 == old(self).issued(),
            r is Some ==> final(self)@ == old(self)@.insert(r->0, texture),
            r is Some ==> final(self).issued() == old(self).issued() + 1,
    {
        let slot = self.store.len();
        if slot == usize::MAX {
            return None;
        }
        self.store.push(Some(texture));
        let id = textures_insert(&mut self.textures, slot);
        assert(self@ =~= old(self)@.insert(id, texture));
        Some(id)
    }

    /// Removes the texture under `id` and hands it back; `None` (and no
    /// change) when no texture is registered under it.
    pub fn remove(&mut self, id: usize) -> (r: Option<Texture>)
        requires
            old(self).wf(),
        ensures
            final(self).wf(),
            forall|h: usize| final(self)@.contains_key(h) ==> h < final(self).issued(),
            r == (if old(self)@.contains_key(id) {
                Some(old(self)@[id])
            } else {
                None
            }),
            final(self)@ == old(self)@.remove(id),
            final(self).issued() == old(self).issued(),
    {
        match textures_remove(&mut self.textures, id) {
            Some(slot) => {
                let mut taken: Option<Texture> = None;
                self.store.set_and_swap(slot, &mut taken);
                assert(self@ =~= old(self)@.remove(id));
                taken
            },
            None => {
                assert(self@ =~= old(self)@.remove(id));
                None
            },
        }
    }

    /// The texture registered under `id`, if any.
    pub fn get(&self, id: usize) -> (r: Option<&Texture>)
        requires
            self.wf(),
        ensures
            r is Some <==> self@.contains_key(id),
            r is Some ==> *r->0 == self@[id],
    {
        match textures_get(&self.textures, id) {
            Some(slot) => self.store[slot].as_ref(),
            None => None,
        }
    }

    /// Whether a texture is registered under `id`.
    pub fn contains(&self, id: usize) -> (r: bool)
        ensures
            r == self@.contains_key(id),
    {
        textures_get(&self.textures, id).is_some()
    }
}

/// Whether `len` bytes are exactly an RGBA image of `width` × `height`
/// pixels, four bytes each, rows without padding.
pub fn pixel_data_matches(width: u32, height: u32, len: usize) -> (r: bool)
    ensures
        r == (len as int == 4 * (width as int * height as int)),
{
    proof {
        assert(width as int * height as int <= u32::MAX as int * u32::MAX as int)
            by (nonlinear_arith);
    }
    let area: u64 = width as u64 * height as u64;
    if area > u64::MAX / 4 {
        return false;
    }
    len as u64 == area * 4
}


/// Registering and removing in a well-formed table: the handle that the
/// next registration gets is not live; registering puts the texture under
/// it and keeps every other handle on its texture; removing it again makes
/// it no longer resolve and gives back exactly the earlier table.
pub proof fn lemma_handle_lifecycle(t: TextureTable, texture: Texture, other: usize)
    requires
        t.wf(),
        t.issued() < usize::MAX,
        other != t.issued(),
    ensures
        !t@.contains_key(t.issued() as usize),
        t@.insert(t.issued() as usize, texture)[t.issued() as usize] == texture,
        t@.insert(t.issued() as usize, texture).contains_key(other) == t@.contains_key(other),
        t@.contains_key(other) ==> t@.insert(t.issued() as usize, texture)[other] == t@[other],
        !t@.insert(t.issued() as usize, texture).remove(t.issued() as usize).contains_key(
            t.issued() as usize,
        ),
        t@.insert(t.issued() as usize, texture).remove(t.issued() as usize) == t@,
{
    let h = t.issued() as usize;
    if t@.contains_key(h) {
        assert(texture_slots(t.textures).contains_key(h));
    }
    assert(t@.insert(h, texture).remove(h) =~= t@);
}

} // verus!
