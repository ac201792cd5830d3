use vstd::arithmetic::power2::{lemma_pow2_pos, pow2};
use vstd::bits::{lemma_usize_low_bits_mask_is_mod, low_bits_mask};
use vstd::prelude::*;

verus! {

/// The device limits that texture binding decisions read.
pub struct TextureLimits {
    pub max_sampled_textures_per_shader_stage: u32,
}

impl TextureLimits {
    /// The number of sampled textures to request: the wanted count, capped
    /// by what the device allows per shader stage.
    pub fn request_max_sampled_textures(&self, limit_texture_count: u32) -> (count: u32)
        ensures
            count == if limit_texture_count <= self.max_sampled_textures_per_shader_stage {
                limit_texture_count
            } else {
                self.max_sampled_textures_per_shader_stage
            },
    {
        if limit_texture_count <= self.max_sampled_textures_per_shader_stage {
            limit_texture_count
        } else {
            self.max_sampled_textures_per_shader_stage
        }
    }
}

/// What a binding of the texture bind group holds.
#[derive(Clone, Copy, Debug, PartialEq, Eq)]
pub enum SlotSource {
    /// The loaded texture with this index.
    Texture(usize),
    /// The 1x1 transparent texture that fills an unused texture binding.
    EmptyTexture,
    /// The shared sampler.
    Sampler,
}

/// One entry of the texture bind group.
#[derive(Clone, Copy, Debug, PartialEq, Eq)]
pub struct BindingSlot {
    pub binding: u32,
    pub source: SlotSource,
}

/// The entries of a texture bind group: every loaded texture at the binding
/// of its index, empty textures on the remaining bindings below
/// `texture_count`, and, when asked for, the sampler at binding
/// `texture_count`.
pub open spec fn texture_binding_plan(loaded: nat, texture_count: nat, with_sampler: bool) -> Seq<BindingSlot> {
    Seq::new(loaded, |i: int| BindingSlot { binding: i as u32, source: SlotSource::Texture(i as usize) })
        + Seq::new(
        (if texture_count > loaded { texture_count - loaded } else { 0 }) as nat,
        |j: int| BindingSlot { binding: (loaded + j) as u32, source: SlotSource::EmptyTexture },
    ) + if with_sampler {
        seq![BindingSlot { binding: texture_count as u32, source: SlotSource::Sampler }]
    } else {
        Seq::empty()
    }
}

/// Lays out the texture bind group for `loaded` textures and
/// `texture_count` texture bindings (see `texture_binding_plan`).
pub fn plan_texture_bindings(loaded: usize, texture_count: u32, with_sampler: bool) -> (slots: Vec<BindingSlot>)
    ensures
        slots@ == texture_binding_plan(loaded as nat, texture_count as nat, with_sampler),
{
    let ghost plan = texture_binding_plan(loaded as nat, texture_count as nat, with_sampler);
    let ghost textures = Seq::new(
        loaded as nat,
        |i: int| BindingSlot { binding: i as u32, source: SlotSource::Texture(i as usize) },
    );
    let ghost fillers = Seq::new(
        (if texture_count > loaded { texture_count - loaded } else { 0 }) as nat,
        |j: int| BindingSlot { binding: (loaded + j) as u32, source: SlotSource::EmptyTexture },
    );
    let mut slots: Vec<BindingSlot> = Vec::new();
    let mut i: usize = 0;
    while i < loaded
        invariant
            0 <= i <= loaded,
            slots@ == textures.take(i as int),
            textures == Seq::new(
                loaded as nat,
                |i: int| BindingSlot { binding: i as u32, source: SlotSource::Texture(i as usize) },
            ),
        decreases loaded - i,
    {
        slots.push(BindingSlot { binding: #[verifier::truncate] (i as u32), source: SlotSource::Texture(i) });
        assert(slots@ =~= textures.take(i + 1));
        i += 1;
    }
    assert(textures.take(loaded as int) =~= textures);
    assert(fillers.take(0) =~= Seq::<BindingSlot>::empty());
    while slots.len() < texture_count as usize
        invariant
            loaded <= slots@.len(),
            slots@.len() <= loaded || slots@.len() <= texture_count,
            slots@ == textures + fillers.take(slots@.len() - loaded),
            fillers == Seq::new(
                (if texture_count > loaded { texture_count - loaded } else { 0 }) as nat,
                |j: int| BindingSlot { binding: (loaded + j) as u32, source: SlotSource::EmptyTexture },
            ),
        decreases texture_count - slots@.len(),
    {
        let ghost k = slots@.len() - loaded;
        slots.push(BindingSlot { binding: #[verifier::truncate] (slots.len() as u32), source: SlotSource::EmptyTexture });
        assert(slots@ =~= textures + fillers.take(k + 1));
    }
    assert(fillers.take(slots@.len() - loaded) =~= fillers);
    if with_sampler {
        slots.push(BindingSlot { binding: texture_count, source: SlotSource::Sampler });
    }
    assert(slots@ =~= plan);
    slots
}

/// `alignment` is a power of two that `usize` can hold.
pub open spec fn is_power_of_two(alignment: usize) -> bool {
    exists|k: nat| k < usize::BITS && alignment == pow2(k)
}

/// The size of one uniform slot: `size` rounded up to the next multiple of
/// the device's offset alignment (a power of two).
pub fn aligned_uniform_size(size: usize, alignment: usize) -> (aligned: usize)
    requires
        is_power_of_two(alignment),
        size + alignment - 1 <= usize::MAX,
    ensures
        aligned % alignment == 0,
        size <= aligned < size + alignment,
{
    let ghost k = choose|k: nat| k < usize::BITS && alignment == pow2(k);
    proof {
        lemma_pow2_pos(k);
    }
    let m = alignment - 1;
    let x = size + m;
    let aligned = x & !m;
    assert(aligned & m == 0 && x - m <= aligned <= x) by (bit_vector)
        requires
            aligned == x & !m,
            x >= m,
    ;
    proof {
        lemma_usize_low_bits_mask_is_mod(aligned, k);
        assert(low_bits_mask(k) == m);
    }
    aligned
}

/// The aligned size is the least multiple of the alignment that holds the
/// uniform: any other multiple at least `size` is at least as large.
pub proof fn lemma_aligned_is_least(size: usize, alignment: usize, aligned: usize, other: int)
    requires
        alignment > 0,
        aligned % alignment == 0,
        size <= aligned < size + alignment,
        other % (alignment as int) == 0,
        size <= other,
    ensures
        aligned <= other,
{
    let a = alignment as int;
    vstd::arithmetic::div_mod::lemma_fundamental_div_mod(aligned as int, a);
    vstd::arithmetic::div_mod::lemma_fundamental_div_mod(other, a);
    let p = (aligned as int) / a;
    let q = other / a;
    assert(aligned == a * p);
    assert(other == a * q);
    if other < aligned {
        assert(q + 1 <= p) by (nonlinear_arith)
            requires
                a * q < a * p,
                a > 0,
        ;
        assert(a * q <= a * p - a) by (nonlinear_arith)
            requires
                q + 1 <= p,
                a > 0,
        ;
    }
}

} // verus!
