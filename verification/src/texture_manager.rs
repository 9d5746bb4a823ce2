//! Texture bookkeeping: sampler settings, identifiers of loaded textures,
//! and the sizes of textures by identifier and by name.
use vstd::prelude::*;
use vstd::hash_map::{HashMapWithView, StringHashMap};

verus! {

/// How a texture is sampled.
#[derive(Debug, Clone, Copy, PartialEq, Eq, Hash, Structural)]
pub enum SamplerKind {
    Clamp,
    Repeat,
    ClampNearest,
    RepeatNearest,
}

/// What happens to texture coordinates outside the texture.
#[derive(Debug, Clone, Copy, PartialEq, Eq, Hash, Structural)]
pub enum AddressMode {
    ClampToEdge,
    Repeat,
}

/// How texels are filtered.
#[derive(Debug, Clone, Copy, PartialEq, Eq, Hash, Structural)]
pub enum FilterMode {
    Linear,
    Nearest,
}

/// The settings of a sampler: one address mode for all three axes, the
/// magnification, minification and mipmap filters.
#[derive(Debug, Clone, Copy, PartialEq, Eq, Structural)]
pub struct SamplerParams {
    pub address_mode: AddressMode,
    pub mag_filter: FilterMode,
    pub min_filter: FilterMode,
    pub mipmap_filter: FilterMode,
}

/// The sampler settings of each kind: clamping or repeating addresses,
/// linear or nearest filtering, and nearest mipmap filtering throughout.
pub open spec fn spec_sampler_params(kind: SamplerKind) -> SamplerParams {
    let (address_mode, filter) = match kind {
        SamplerKind::Clamp => (AddressMode::ClampToEdge, FilterMode::Linear),
        SamplerKind::Repeat => (AddressMode::Repeat, FilterMode::Linear),
        SamplerKind::ClampNearest => (AddressMode::ClampToEdge, FilterMode::Nearest),
        SamplerKind::RepeatNearest => (AddressMode::Repeat, FilterMode::Nearest),
    };
    SamplerParams { address_mode, mag_filter: filter, min_filter: filter, mipmap_filter: FilterMode::Nearest }
}

impl SamplerKind {
    /// The sampler settings of this kind.
    pub fn sampler_params(&self) -> (p: SamplerParams)
        ensures
            p == spec_sampler_params(*self),
    {
        let (address_mode, filter) = match self {
            SamplerKind::Clamp => (AddressMode::ClampToEdge, FilterMode::Linear),
            SamplerKind::Repeat => (AddressMode::Repeat, FilterMode::Linear),
            SamplerKind::ClampNearest => (AddressMode::ClampToEdge, FilterMode::Nearest),
            SamplerKind::RepeatNearest => (AddressMode::Repeat, FilterMode::Nearest),
        };
        SamplerParams {
            address_mode,
            mag_filter: filter,
            min_filter: filter,
            mipmap_filter: FilterMode::Nearest,
        }
    }

    /// Every sampler kind, each once.
    pub fn all() -> (v: Vec<SamplerKind>)
        ensures
            v@ == seq![
                SamplerKind::Clamp,
                SamplerKind::Repeat,
                SamplerKind::ClampNearest,
                SamplerKind::RepeatNearest,
            ],
    {
        let mut v: Vec<SamplerKind> = Vec::new();
        v.push(SamplerKind::Clamp);
        v.push(SamplerKind::Repeat);
        v.push(SamplerKind::ClampNearest);
        v.push(SamplerKind::RepeatNearest);
        v
    }
}

/// Different sampler kinds have different settings.
pub proof fn lemma_sampler_params_distinct(a: SamplerKind, b: SamplerKind)
    ensures
        a != b ==> spec_sampler_params(a) != spec_sampler_params(b),
{
}

/// Hands out identifiers 1, 2, 3, ... in order; 0 is never handed out.
pub struct IdAllocator {
    next: u64,
}

impl View for IdAllocator {
    type V = u64;

    closed spec fn view(&self) -> u64 {
        self.next
    }
}

impl IdAllocator {
    /// An allocator whose first identifier is 1.
    pub fn new() -> (a: Self)
        ensures
            a@ == 1,
    {
        IdAllocator { next: 1 }
    }

    /// The identifier that the next allocation returns.
    pub fn peek(&self) -> (r: u64)
        ensures
            r == self@,
    {
        self.next
    }

    /// Returns a new identifier, one more than the one before.
    pub fn allocate(&mut self) -> (id: u64)
        requires
            old(self)@ < u64::MAX,
        ensures
            id == old(self)@,
            final(self)@ == old(self)@ + 1,
    {
        let id = self.next;
        self.next = self.next + 1;
        id
    }
}

/// The width and height of a texture in pixels.
pub type TextureDims = (u32, u32);

/// The identifiers and sizes of loaded textures. Identifier 0 stands for the
/// fallback texture and is never given to a loaded texture.
pub struct TextureRegistry {
    ids: IdAllocator,
    sizes: StringHashMap<TextureDims>,
    sizes_by_id: HashMapWithView<u64, TextureDims>,
}

/// The registry as plain values: the next identifier, the sizes by texture
/// name and the sizes by identifier.
pub struct RegistryView {
    pub next_id: u64,
    pub by_name: Map<Seq<char>, TextureDims>,
    pub by_id: Map<u64, TextureDims>,
}

impl View for TextureRegistry {
    type V = RegistryView;

    closed spec fn view(&self) -> RegistryView {
        RegistryView { next_id: self.ids@, by_name: self.sizes@, by_id: self.sizes_by_id@ }
    }
}

/// The registry's invariant: identifiers start at 1, and every loaded
/// texture has an identifier below the next one.
pub open spec fn registry_wf(v: RegistryView) -> bool {
    &&& v.next_id >= 1
    &&& forall|id: u64| #[trigger] v.by_id.contains_key(id) ==> 1 <= id < v.next_id
}

/// The registry with no textures, whose first texture gets identifier 1.
pub open spec fn empty_registry() -> RegistryView {
    RegistryView {
        next_id: 1,
        by_name: Map::<Seq<char>, TextureDims>::empty(),
        by_id: Map::<u64, TextureDims>::empty(),
    }
}

/// The registry after recording a texture of `width` by `height` pixels
/// under `label`: it gets the next identifier.
pub open spec fn register_step(v: RegistryView, label: Seq<char>, width: u32, height: u32) -> RegistryView {
    RegistryView {
        next_id: (v.next_id + 1) as u64,
        by_name: v.by_name.insert(label, (width, height)),
        by_id: v.by_id.insert(v.next_id, (width, height)),
    }
}

/// The registry after recording the textures `loads` (name, width,
/// height) in order, starting from `v`.
pub open spec fn register_all(v: RegistryView, loads: Seq<(Seq<char>, u32, u32)>) -> RegistryView
    decreases loads.len(),
{
    if loads.len() == 0 {
        v
    } else {
        let p = register_all(v, loads.drop_last());
        let (label, width, height) = loads.last();
        register_step(p, label, width, height)
    }
}

impl TextureRegistry {
    /// The registry's invariant holds of every registry.
    #[verifier::type_invariant]
    spec fn registry_inv(self) -> bool {
        registry_wf(self@)
    }

    /// A registry with no textures; the first texture gets identifier 1.
    pub fn new() -> (r: Self)
        ensures
            r@.next_id == 1,
            r@.by_name == Map::<Seq<char>, TextureDims>::empty(),
            r@.by_id == Map::<u64, TextureDims>::empty(),
            r@ == empty_registry(),
            registry_wf(r@),
    {
        broadcast use vstd::std_specs::hash::group_hash_axioms;

        TextureRegistry { ids: IdAllocator::new(), sizes: StringHashMap::new(), sizes_by_id: HashMapWithView::new() }
    }

    /// Records a loaded texture of `width` by `height` pixels under the name
    /// `label`, and returns its new identifier.
    pub fn register(&mut self, label: &str, width: u32, height: u32) -> (id: u64)
        requires
            old(self)@.next_id < u64::MAX,
        ensures
            registry_wf(final(self)@),
            id == old(self)@.next_id,
            id != 0,
            !old(self)@.by_id.contains_key(id),
            final(self)@.next_id == old(self)@.next_id + 1,
            final(self)@.by_name == old(self)@.by_name.insert(label@, (width, height)),
            final(self)@.by_id == old(self)@.by_id.insert(id, (width, height)),
            final(self)@ == register_step(old(self)@, label@, width, height),
    {
        proof {
            use_type_invariant(&*self);
        }
        let mut taken = TextureRegistry::new();
        std::mem::swap(self, &mut taken);
        let TextureRegistry { mut ids, mut sizes, mut sizes_by_id } = taken;
        let id = ids.allocate();
        sizes.insert(label.to_owned(), (width, height));
        sizes_by_id.insert(id, (width, height));
        let ghost after = RegistryView { next_id: ids@, by_name: sizes@, by_id: sizes_by_id@ };
        assert forall|k: u64| #[trigger] after.by_id.contains_key(k) implies 1 <= k < after.next_id by {
            if k != id {
                assert(old(self)@.by_id.contains_key(k));
            }
        }
        *self = TextureRegistry { ids, sizes, sizes_by_id };
        id
    }

    /// The identifier that the next registered texture gets.
    pub fn next_id(&self) -> (r: u64)
        ensures
            r == self@.next_id,
    {
        self.ids.peek()
    }

    /// The size of the texture loaded under the name `name`, if any.
    pub fn get_size(&self, name: &str) -> (r: Option<TextureDims>)
        ensures
            r == (if self@.by_name.contains_key(name@) {
                Some(self@.by_name[name@])
            } else {
                None
            }),
    {
        match self.sizes.get(name) {
            Some(d) => Some(*d),
            None => None,
        }
    }

    /// The size of the texture with identifier `id`, if any.
    pub fn get_size_by_id(&self, id: u64) -> (r: Option<TextureDims>)
        ensures
            r == (if self@.by_id.contains_key(id) {
                Some(self@.by_id[id])
            } else {
                None
            }),
    {
        match self.sizes_by_id.get(&id) {
            Some(d) => Some(*d),
            None => None,
        }
    }

    /// Whether a texture with identifier `id` is loaded.
    pub fn contains(&self, id: u64) -> (b: bool)
        ensures
            b == self@.by_id.contains_key(id),
    {
        self.sizes_by_id.contains_key(&id)
    }

    /// The texture that a draw with texture identifier `id` samples: the
    /// texture itself when it is loaded, `None` for the fallback texture
    /// (for identifier 0 and for unknown identifiers).
    pub fn binding_for(&self, id: u64) -> (r: Option<u64>)
        ensures
            r == (if id != 0 && self@.by_id.contains_key(id) {
                Some(id)
            } else {
                None
            }),
    {
        proof {
            use_type_invariant(self);
        }
        if id != 0 && self.sizes_by_id.contains_key(&id) {
            Some(id)
        } else {
            None
        }
    }
}

/// The fallback identifier 0 never names a loaded texture.
pub proof fn lemma_fallback_never_loaded(v: RegistryView)
    requires
        registry_wf(v),
    ensures
        !v.by_id.contains_key(0),
{
}


/// Registering a texture gives it the next identifier, which is new and not
/// 0; reading its size back by identifier or by name gives what was
/// registered; the sizes of every other identifier stay as they were; and
/// the next registration gets a different identifier.
pub proof fn lemma_register_read_back(v: RegistryView, label: Seq<char>, width: u32, height: u32)
    requires
        registry_wf(v),
        v.next_id < u64::MAX,
    ensures
        ({
            let id = v.next_id;
            let after = RegistryView {
                next_id: (id + 1) as u64,
                by_name: v.by_name.insert(label, (width, height)),
                by_id: v.by_id.insert(id, (width, height)),
            };
            &&& id != 0
            &&& !v.by_id.contains_key(id)
            &&& registry_wf(after)
            &&& after.by_id.contains_key(id) && after.by_id[id] == (width, height)
            &&& after.by_name.contains_key(label) && after.by_name[label] == (width, height)
            &&& forall|k: u64|
                k != id ==> (#[trigger] after.by_id.contains_key(k) == v.by_id.contains_key(k) && (
                v.by_id.contains_key(k) ==> after.by_id[k] == v.by_id[k]))
            &&& after.next_id != id
        }),
{
    let id = v.next_id;
    let after = RegistryView {
        next_id: (id + 1) as u64,
        by_name: v.by_name.insert(label, (width, height)),
        by_id: v.by_id.insert(id, (width, height)),
    };
    assert forall|k: u64| #[trigger] after.by_id.contains_key(k) implies 1 <= k < after.next_id by {
        if k != id {
            assert(v.by_id.contains_key(k));
        }
    }
}


/// Textures loaded one after another into a new registry get identifiers
/// 1, 2, 3, ... in call order, whatever their names: the load at position
/// `j` gets `j + 1`, the identifiers in use are exactly `1..=n`, and each
/// reads back the size it was loaded with.
pub proof fn lemma_ids_in_call_order(loads: Seq<(Seq<char>, u32, u32)>)
    requires
        loads.len() < u64::MAX,
    ensures
        registry_wf(register_all(empty_registry(), loads)),
        register_all(empty_registry(), loads).next_id == loads.len() + 1,
        forall|j: int| 0 <= j < loads.len() ==> #[trigger] register_all(empty_registry(), loads.take(j)).next_id == j + 1,
        forall|k: u64| #[trigger] register_all(empty_registry(), loads).by_id.contains_key(k) <==> 1 <= k <= loads.len(),
        forall|j: int|
            0 <= j < loads.len() ==> #[trigger] register_all(empty_registry(), loads).by_id[(j + 1) as u64] == (
                loads[j].1,
                loads[j].2,
            ),
    decreases loads.len(),
{
    if loads.len() > 0 {
        let p = loads.drop_last();
        lemma_ids_in_call_order(p);
        let pv = register_all(empty_registry(), p);
        let v = register_all(empty_registry(), loads);
        let n = loads.len() as int;
        assert forall|j: int| 0 <= j < n implies #[trigger] register_all(empty_registry(), loads.take(j)).next_id == j + 1 by {
            if j < n - 1 {
                assert(p.take(j) =~= loads.take(j));
                assert(register_all(empty_registry(), p.take(j)).next_id == j + 1);
            } else {
                assert(loads.take(j) =~= p);
            }
        }
        assert forall|k: u64| #[trigger] v.by_id.contains_key(k) implies 1 <= k <= n by {
            if k != pv.next_id {
                assert(pv.by_id.contains_key(k));
            }
        }
        assert forall|k: u64| 1 <= k <= n implies #[trigger] v.by_id.contains_key(k) by {
            if k != pv.next_id {
                assert(pv.by_id.contains_key(k));
            }
        }
        assert forall|j: int| 0 <= j < n implies #[trigger] v.by_id[(j + 1) as u64] == (loads[j].1, loads[j].2) by {
            if j < n - 1 {
                assert(p[j] == loads[j]);
                assert(pv.by_id[(j + 1) as u64] == (p[j].1, p[j].2));
            }
        }
        assert forall|k: u64| #[trigger] v.by_id.contains_key(k) implies 1 <= k < v.next_id by {
            if k != pv.next_id {
                assert(pv.by_id.contains_key(k));
            }
        }
    }
}

} // verus!
