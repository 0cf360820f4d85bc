//! The textures of the solver and how each compute pass is wired to them.
//!
//! The fields ping-pong between two texture sets, `A` and `B`: an H pass
//! on side `A` reads `Ez A` and `H A` and writes `H B`; the E pass on the
//! same side reads `Ez A`, `H B` and the material and writes `Ez B`; a
//! render pass on side `A` reads `Ez A` and the material and writes the
//! display. Side `B` swaps the two sets.

use vstd::prelude::*;

verus! {

/// The textures a pass can bind.
#[derive(Clone, Copy, Debug, PartialEq, Eq, Structural)]
pub enum Texture {
    EzA,
    EzB,
    HA,
    HB,
    Material,
    Display,
}

/// The three compute shaders.
#[derive(Clone, Copy, Debug, PartialEq, Eq, Structural)]
pub enum PassKind {
    /// Magnetic-field update.
    UpdateH,
    /// Electric-field update.
    UpdateE,
    /// Colour mapping of `Ez` into the display texture.
    Render,
}

/// One dispatch of a compute shader over the grid, with the bind group of
/// side `A` (`side_a`) or side `B`.
#[derive(Clone, Copy, Debug, PartialEq, Eq, Structural)]
pub struct Pass {
    pub kind: PassKind,
    pub side_a: bool,
}

/// One entry of a bind group: the shader's binding slot, the texture bound
/// there, and whether the shader writes it (as a storage texture).
#[derive(Clone, Copy, Debug, PartialEq, Eq, Structural)]
pub struct Binding {
    pub slot: u32,
    pub texture: Texture,
    pub writes: bool,
}

/// The `Ez` texture of a side.
pub open spec fn ez(side_a: bool) -> Texture {
    if side_a {
        Texture::EzA
    } else {
        Texture::EzB
    }
}

/// The `H` texture of a side.
pub open spec fn hf(side_a: bool) -> Texture {
    if side_a {
        Texture::HA
    } else {
        Texture::HB
    }
}

/// The bind group of a pass, slot by slot.
pub open spec fn spec_pass_bindings(kind: PassKind, side_a: bool) -> Seq<Binding> {
    match kind {
        PassKind::UpdateH => seq![
            Binding { slot: 0, texture: ez(side_a), writes: false },
            Binding { slot: 1, texture: hf(side_a), writes: false },
            Binding { slot: 2, texture: hf(!side_a), writes: true },
        ],
        PassKind::UpdateE => seq![
            Binding { slot: 3, texture: ez(side_a), writes: false },
            Binding { slot: 4, texture: ez(!side_a), writes: true },
            Binding { slot: 5, texture: hf(!side_a), writes: false },
            Binding { slot: 6, texture: Texture::Material, writes: false },
        ],
        PassKind::Render => seq![
            Binding { slot: 7, texture: ez(side_a), writes: false },
            Binding { slot: 8, texture: Texture::Material, writes: false },
            Binding { slot: 9, texture: Texture::Display, writes: true },
        ],
    }
}

/// A pass reads texture `t`.
pub open spec fn pass_reads(p: Pass, t: Texture) -> bool {
    exists|i: int|
        0 <= i < spec_pass_bindings(p.kind, p.side_a).len() && !#[trigger] spec_pass_bindings(
            p.kind,
            p.side_a,
        )[i].writes && spec_pass_bindings(p.kind, p.side_a)[i].texture == t
}

/// The texture a pass writes: every bind group has exactly one written
/// entry.
pub open spec fn pass_writes(p: Pass) -> Texture {
    match p.kind {
        PassKind::UpdateH => hf(!p.side_a),
        PassKind::UpdateE => ez(!p.side_a),
        PassKind::Render => Texture::Display,
    }
}

/// The textures a pass reads, in closed form.
pub proof fn lemma_pass_reads(p: Pass, t: Texture)
    ensures
        pass_reads(p, t) == match p.kind {
            PassKind::UpdateH => t == ez(p.side_a) || t == hf(p.side_a),
            PassKind::UpdateE => t == ez(p.side_a) || t == hf(!p.side_a) || t == Texture::Material,
            PassKind::Render => t == ez(p.side_a) || t == Texture::Material,
        },
        spec_pass_bindings(p.kind, p.side_a).len() > 0,
        forall|i: int|
            0 <= i < spec_pass_bindings(p.kind, p.side_a).len() && #[trigger] spec_pass_bindings(
                p.kind,
                p.side_a,
            )[i].writes ==> spec_pass_bindings(p.kind, p.side_a)[i].texture == pass_writes(p),
{
    let b = spec_pass_bindings(p.kind, p.side_a);
    match p.kind {
        PassKind::UpdateH => {
            assert(!b[0].writes && !b[1].writes && b[2].writes);
        },
        PassKind::UpdateE => {
            assert(!b[0].writes && b[1].writes && !b[2].writes && !b[3].writes);
        },
        PassKind::Render => {
            assert(!b[0].writes && !b[1].writes && b[2].writes);
        },
    }
}

/// The bind group of a pass, slot by slot, for building it on the device.
pub fn pass_bindings(kind: PassKind, side_a: bool) -> (b: Vec<Binding>)
    ensures
        b@ == spec_pass_bindings(kind, side_a),
{
    let (ez_read, ez_other) = if side_a {
        (Texture::EzA, Texture::EzB)
    } else {
        (Texture::EzB, Texture::EzA)
    };
    let (h_read, h_other) = if side_a {
        (Texture::HA, Texture::HB)
    } else {
        (Texture::HB, Texture::HA)
    };
    match kind {
        // Reads Ez and H of this side; writes H of the other side.
        PassKind::UpdateH => vec![
            Binding { slot: 0, texture: ez_read, writes: false },
            Binding { slot: 1, texture: h_read, writes: false },
            Binding { slot: 2, texture: h_other, writes: true },
        ],
        // Reads Ez of this side, H of the other side and the material;
        // writes Ez of the other side.
        PassKind::UpdateE => vec![
            Binding { slot: 3, texture: ez_read, writes: false },
            Binding { slot: 4, texture: ez_other, writes: true },
            Binding { slot: 5, texture: h_other, writes: false },
            Binding { slot: 6, texture: Texture::Material, writes: false },
        ],
        // Reads Ez of this side and the material; writes the display.
        PassKind::Render => vec![
            Binding { slot: 7, texture: ez_read, writes: false },
            Binding { slot: 8, texture: Texture::Material, writes: false },
            Binding { slot: 9, texture: Texture::Display, writes: true },
        ],
    }
}

} // verus!
