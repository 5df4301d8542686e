//! Pipeline keys of the sketch material: which shader variants a material needs.

use vstd::prelude::*;

verus! {

/// The part of a sketch material that selects its pipeline.
#[derive(Debug, Clone, Copy, PartialEq, Eq, Structural)]
pub struct SketchMaterialKey {
    pub sketch_enabled: bool,
    pub y_cutoff_enabled: bool,
}

impl SketchMaterialKey {
    /// The key of a material whose sketch effect is `sketch_enabled` and whose fill effect is
    /// `fill_enabled`; the fill effect needs the y-cutoff vertex attribute.
    pub fn from_info(sketch_enabled: bool, fill_enabled: bool) -> (k: SketchMaterialKey)
        ensures
            k == (SketchMaterialKey { sketch_enabled, y_cutoff_enabled: fill_enabled }),
    {
        SketchMaterialKey { sketch_enabled, y_cutoff_enabled: fill_enabled }
    }
}

/// Shader definition of the sketch effect.
pub const SKETCHED_DEF: &'static str = "SKETCHED";
/// Shader definition of the fill effect.
pub const FILL_DEF: &'static str = "FILL";

/// What specializing the pipeline for a key adds to a pipeline that has a fragment stage.
pub struct Specialization {
    /// Definitions added to the vertex shader.
    pub vertex_defs: Vec<&'static str>,
    /// Definitions added to the fragment shader.
    pub fragment_defs: Vec<&'static str>,
    /// Whether the y-cutoff attribute is added to the first vertex buffer.
    pub y_cutoff_attribute: bool,
}

/// Specializes the sketch pipeline: the sketch effect adds its definition to the fragment
/// shader; the fill effect adds the y-cutoff vertex attribute and its definition to both
/// shaders.
pub fn specialize(key: SketchMaterialKey) -> (s: Specialization)
    ensures
        s.vertex_defs@ == (if key.y_cutoff_enabled {
            seq![FILL_DEF]
        } else {
            Seq::<&str>::empty()
        }),
        s.fragment_defs@ == (if key.sketch_enabled {
            seq![SKETCHED_DEF]
        } else {
            Seq::<&str>::empty()
        }) + (if key.y_cutoff_enabled {
            seq![FILL_DEF]
        } else {
            Seq::<&str>::empty()
        }),
        s.y_cutoff_attribute == key.y_cutoff_enabled,
{
    let mut vertex_defs: Vec<&'static str> = Vec::new();
    let mut fragment_defs: Vec<&'static str> = Vec::new();
    if key.sketch_enabled {
        fragment_defs.push(SKETCHED_DEF);
    }
    if key.y_cutoff_enabled {
        vertex_defs.push(FILL_DEF);
        fragment_defs.push(FILL_DEF);
    }
    proof {
        let a = if key.sketch_enabled { seq![SKETCHED_DEF] } else { Seq::<&str>::empty() };
        let b = if key.y_cutoff_enabled { seq![FILL_DEF] } else { Seq::<&str>::empty() };
        assert(fragment_defs@ =~= a + b);
        assert(vertex_defs@ =~= b);
    }
    Specialization { vertex_defs, fragment_defs, y_cutoff_attribute: key.y_cutoff_enabled }
}

/// How a material blends with what is behind it.
#[derive(Debug, Clone, Copy, PartialEq, Eq, Structural)]
pub enum AlphaModeKind {
    Opaque,
    Mask,
    Blend,
    Premultiplied,
    Add,
    Multiply,
}

/// Formats of a loaded normal map texture; the first four are the two-component unorm formats.
#[derive(Debug, Clone, Copy, PartialEq, Eq, Structural)]
pub enum NormalMapFormat {
    Rg8Unorm,
    Rg16Unorm,
    Bc5RgUnorm,
    EacRg11Unorm,
    Other,
}

/// Flags of the standard material uniform.
#[derive(Debug, Clone, Copy, PartialEq, Eq, Structural)]
pub enum StandardFlag {
    BaseColorTexture,
    EmissiveTexture,
    MetallicRoughnessTexture,
    OcclusionTexture,
    DoubleSided,
    Unlit,
    FogEnabled,
    TwoComponentNormalMap,
    FlipNormalMapY,
    AlphaModeOpaque,
    AlphaModeMask,
    AlphaModeBlend,
    AlphaModePremultiplied,
    AlphaModeAdd,
    AlphaModeMultiply,
}

/// What of a sketch material its uniform flags depend on.
#[derive(Debug, Clone, Copy, PartialEq, Eq, Structural)]
pub struct MaterialFlagInputs {
    pub base_color_texture: bool,
    pub emissive_texture: bool,
    pub metallic_roughness_texture: bool,
    pub occlusion_texture: bool,
    pub double_sided: bool,
    pub unlit: bool,
    pub fog_enabled: bool,
    /// `None` without a normal map; with one, the format of its image once loaded.
    pub normal_map: Option<Option<NormalMapFormat>>,
    pub flip_normal_map_y: bool,
    pub alpha_mode: AlphaModeKind,
}

/// `[flag]` when `b`, else nothing.
pub open spec fn flag_if(b: bool, flag: StandardFlag) -> Seq<StandardFlag> {
    if b {
        seq![flag]
    } else {
        Seq::empty()
    }
}

/// Whether a loaded normal map has two components.
pub open spec fn two_component(format: NormalMapFormat) -> bool {
    format != NormalMapFormat::Other
}

/// The flag of an alpha mode.
pub open spec fn alpha_flag(mode: AlphaModeKind) -> StandardFlag {
    match mode {
        AlphaModeKind::Opaque => StandardFlag::AlphaModeOpaque,
        AlphaModeKind::Mask => StandardFlag::AlphaModeMask,
        AlphaModeKind::Blend => StandardFlag::AlphaModeBlend,
        AlphaModeKind::Premultiplied => StandardFlag::AlphaModePremultiplied,
        AlphaModeKind::Add => StandardFlag::AlphaModeAdd,
        AlphaModeKind::Multiply => StandardFlag::AlphaModeMultiply,
    }
}

/// The flags a material's textures and switches set, in order, before its alpha-mode flag.
pub open spec fn switch_flags(m: MaterialFlagInputs) -> Seq<StandardFlag> {
    flag_if(m.base_color_texture, StandardFlag::BaseColorTexture) + flag_if(
        m.emissive_texture,
        StandardFlag::EmissiveTexture,
    ) + flag_if(m.metallic_roughness_texture, StandardFlag::MetallicRoughnessTexture) + flag_if(
        m.occlusion_texture,
        StandardFlag::OcclusionTexture,
    ) + flag_if(m.double_sided, StandardFlag::DoubleSided) + flag_if(m.unlit, StandardFlag::Unlit) + flag_if(
        m.fog_enabled,
        StandardFlag::FogEnabled,
    ) + flag_if(
        m.normal_map matches Some(Some(f)) && two_component(f),
        StandardFlag::TwoComponentNormalMap,
    ) + flag_if(m.normal_map is Some && m.flip_normal_map_y, StandardFlag::FlipNormalMapY)
}

/// The uniform flags of a material, in the order they are set.
pub open spec fn material_flags_spec(m: MaterialFlagInputs) -> Seq<StandardFlag> {
    switch_flags(m) + seq![alpha_flag(m.alpha_mode)]
}

/// Appends `flag` when `b`.
fn push_if(flags: &mut Vec<StandardFlag>, b: bool, flag: StandardFlag)
    ensures
        final(flags)@ == old(flags)@ + flag_if(b, flag),
{
    if b {
        flags.push(flag);
    }
    assert(flags@ =~= old(flags)@ + flag_if(b, flag));
}

/// The uniform flags of a material: one per texture it has and per switch that is on, the
/// two-component normal map flag for a loaded normal map in a two-component format, the flip
/// flag only with a normal map, and the flag of its alpha mode.
pub fn material_flags(m: MaterialFlagInputs) -> (flags: Vec<StandardFlag>)
    ensures
        flags@ == material_flags_spec(m),
{
    let mut flags: Vec<StandardFlag> = Vec::new();
    push_if(&mut flags, m.base_color_texture, StandardFlag::BaseColorTexture);
    assert(flags@ =~= flag_if(m.base_color_texture, StandardFlag::BaseColorTexture));
    push_if(&mut flags, m.emissive_texture, StandardFlag::EmissiveTexture);
    push_if(&mut flags, m.metallic_roughness_texture, StandardFlag::MetallicRoughnessTexture);
    push_if(&mut flags, m.occlusion_texture, StandardFlag::OcclusionTexture);
    push_if(&mut flags, m.double_sided, StandardFlag::DoubleSided);
    push_if(&mut flags, m.unlit, StandardFlag::Unlit);
    push_if(&mut flags, m.fog_enabled, StandardFlag::FogEnabled);
    let two = match m.normal_map {
        Some(Some(NormalMapFormat::Other)) => false,
        Some(Some(_)) => true,
        _ => false,
    };
    let flip = match m.normal_map {
        Some(_) => m.flip_normal_map_y,
        None => false,
    };
    push_if(&mut flags, two, StandardFlag::TwoComponentNormalMap);
    push_if(&mut flags, flip, StandardFlag::FlipNormalMapY);
    let alpha = match m.alpha_mode {
        AlphaModeKind::Opaque => StandardFlag::AlphaModeOpaque,
        AlphaModeKind::Mask => StandardFlag::AlphaModeMask,
        AlphaModeKind::Blend => StandardFlag::AlphaModeBlend,
        AlphaModeKind::Premultiplied => StandardFlag::AlphaModePremultiplied,
        AlphaModeKind::Add => StandardFlag::AlphaModeAdd,
        AlphaModeKind::Multiply => StandardFlag::AlphaModeMultiply,
    };
    let ghost before = flags@;
    flags.push(alpha);
    assert(flags@ =~= before + seq![alpha_flag(m.alpha_mode)]);
    flags
}

/// The texture layer a material's uniform carries: the layer as a signed 32-bit value, which
/// wraps past `i32::MAX`.
pub fn texture_layer(layer: u32) -> (l: i32)
    ensures
        l as int == if layer <= i32::MAX {
            layer as int
        } else {
            layer - 0x1_0000_0000
        },
{
    if layer <= 0x7fff_ffff {
        layer as i32
    } else {
        let below: u32 = 0xffff_ffff - layer;
        let neg: i32 = -1 - (below as i32);
        neg
    }
}

/// Whether a flag is one of the alpha-mode flags.
pub open spec fn is_alpha_mode_flag(f: StandardFlag) -> bool {
    match f {
        StandardFlag::AlphaModeOpaque | StandardFlag::AlphaModeMask | StandardFlag::AlphaModeBlend
        | StandardFlag::AlphaModePremultiplied | StandardFlag::AlphaModeAdd
        | StandardFlag::AlphaModeMultiply => true,
        _ => false,
    }
}

spec fn no_alpha_flag(s: Seq<StandardFlag>) -> bool {
    forall|i: int| 0 <= i < s.len() ==> !is_alpha_mode_flag(#[trigger] s[i])
}

proof fn lemma_no_alpha_concat(a: Seq<StandardFlag>, b: Seq<StandardFlag>)
    requires
        no_alpha_flag(a),
        no_alpha_flag(b),
    ensures
        no_alpha_flag(a + b),
{
    assert forall|i: int| 0 <= i < (a + b).len() implies !is_alpha_mode_flag(#[trigger] (a + b)[i]) by {
        if i < a.len() {
            assert((a + b)[i] == a[i]);
        } else {
            assert((a + b)[i] == b[i - a.len()]);
        }
    }
}

proof fn lemma_no_alpha_flag_if(on: bool, f: StandardFlag)
    requires
        !is_alpha_mode_flag(f),
    ensures
        no_alpha_flag(flag_if(on, f)),
{
}

proof fn lemma_switch_flags_no_alpha(m: MaterialFlagInputs)
    ensures
        no_alpha_flag(switch_flags(m)),
{
    let f1 = flag_if(m.base_color_texture, StandardFlag::BaseColorTexture);
    let f2 = flag_if(m.emissive_texture, StandardFlag::EmissiveTexture);
    let f3 = flag_if(m.metallic_roughness_texture, StandardFlag::MetallicRoughnessTexture);
    let f4 = flag_if(m.occlusion_texture, StandardFlag::OcclusionTexture);
    let f5 = flag_if(m.double_sided, StandardFlag::DoubleSided);
    let f6 = flag_if(m.unlit, StandardFlag::Unlit);
    let f7 = flag_if(m.fog_enabled, StandardFlag::FogEnabled);
    let f8 = flag_if(m.normal_map matches Some(Some(f)) && two_component(f), StandardFlag::TwoComponentNormalMap);
    let f9 = flag_if(m.normal_map is Some && m.flip_normal_map_y, StandardFlag::FlipNormalMapY);
    lemma_no_alpha_flag_if(m.base_color_texture, StandardFlag::BaseColorTexture);
    lemma_no_alpha_flag_if(m.emissive_texture, StandardFlag::EmissiveTexture);
    lemma_no_alpha_flag_if(m.metallic_roughness_texture, StandardFlag::MetallicRoughnessTexture);
    lemma_no_alpha_flag_if(m.occlusion_texture, StandardFlag::OcclusionTexture);
    lemma_no_alpha_flag_if(m.double_sided, StandardFlag::DoubleSided);
    lemma_no_alpha_flag_if(m.unlit, StandardFlag::Unlit);
    lemma_no_alpha_flag_if(m.fog_enabled, StandardFlag::FogEnabled);
    lemma_no_alpha_flag_if(m.normal_map matches Some(Some(f)) && two_component(f), StandardFlag::TwoComponentNormalMap);
    lemma_no_alpha_flag_if(m.normal_map is Some && m.flip_normal_map_y, StandardFlag::FlipNormalMapY);
    lemma_no_alpha_concat(f1, f2);
    lemma_no_alpha_concat(f1 + f2, f3);
    lemma_no_alpha_concat(f1 + f2 + f3, f4);
    lemma_no_alpha_concat(f1 + f2 + f3 + f4, f5);
    lemma_no_alpha_concat(f1 + f2 + f3 + f4 + f5, f6);
    lemma_no_alpha_concat(f1 + f2 + f3 + f4 + f5 + f6, f7);
    lemma_no_alpha_concat(f1 + f2 + f3 + f4 + f5 + f6 + f7, f8);
    lemma_no_alpha_concat(f1 + f2 + f3 + f4 + f5 + f6 + f7 + f8, f9);
}

/// The last uniform flag of a material is the flag named after its own alpha mode, and no
/// other flag is an alpha-mode flag; different alpha modes give different flags.
pub proof fn law_alpha_mode_flag_is_its_namesake(m: MaterialFlagInputs)
    ensures
        material_flags_spec(m).len() >= 1,
        material_flags_spec(m).last() == match m.alpha_mode {
            AlphaModeKind::Opaque => StandardFlag::AlphaModeOpaque,
            AlphaModeKind::Mask => StandardFlag::AlphaModeMask,
            AlphaModeKind::Blend => StandardFlag::AlphaModeBlend,
            AlphaModeKind::Premultiplied => StandardFlag::AlphaModePremultiplied,
            AlphaModeKind::Add => StandardFlag::AlphaModeAdd,
            AlphaModeKind::Multiply => StandardFlag::AlphaModeMultiply,
        },
        forall|i: int|
            0 <= i < material_flags_spec(m).len() - 1 ==> !is_alpha_mode_flag(#[trigger] material_flags_spec(m)[i]),
        forall|a: AlphaModeKind, b: AlphaModeKind| alpha_flag(a) == alpha_flag(b) ==> a == b,
{
    lemma_switch_flags_no_alpha(m);
    let body = switch_flags(m);
    let s = material_flags_spec(m);
    assert forall|i: int| 0 <= i < s.len() - 1 implies !is_alpha_mode_flag(#[trigger] s[i]) by {
        assert(s[i] == body[i]);
    }
}

} // verus!
