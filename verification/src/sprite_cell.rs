//! The drawable content of one grid slot: a solid color or a textured
//! sprite. The host resolves texture references; the core only stores them.

use crate::fixed::ScaledVec2;
use vstd::prelude::*;

verus! {

/// An RGBA color with 8-bit channels.
#[derive(Copy, Clone, Debug, PartialEq, Eq, Structural)]
pub struct CellColor {
    pub red: u8,
    pub green: u8,
    pub blue: u8,
    pub alpha: u8,
}

impl CellColor {
    /// Opaque white, the neutral tint.
    pub fn white() -> (r: Self)
        ensures
            r == (CellColor { red: 255u8, green: 255u8, blue: 255u8, alpha: 255u8 }),
    {
        CellColor { red: 255, green: 255, blue: 255, alpha: 255 }
    }
}

/// A reference to the pixel source of a textured cell: either a standalone
/// image or one rectangle of a texture atlas, identified by handles the host
/// understands.
#[derive(Copy, Clone, Debug, PartialEq, Eq, Structural)]
pub enum TextureSource {
    Image { handle: u64 },
    Atlas { handle: u64, index: usize },
}

impl Default for TextureSource {
    fn default() -> (r: Self)
        ensures
            r == (TextureSource::Image { handle: 0u64 }),
    {
        TextureSource::Image { handle: 0 }
    }
}

/// A textured cell: a pixel source plus a tint, flip flags and an optional
/// override size.
#[derive(Copy, Clone, Debug, PartialEq, Eq, Structural)]
pub struct TexturedCell {
    pub texture: TextureSource,
    pub color: CellColor,
    pub flip_x: bool,
    pub flip_y: bool,
    pub custom_size: Option<ScaledVec2>,
}

impl TexturedCell {
    /// A cell showing `texture` untinted, unflipped, at its natural size.
    pub fn new(texture: TextureSource) -> (r: Self)
        ensures
            r == (TexturedCell {
                texture,
                color: CellColor { red: 255u8, green: 255u8, blue: 255u8, alpha: 255u8 },
                flip_x: false,
                flip_y: false,
                custom_size: None::<ScaledVec2>,
            }),
    {
        TexturedCell {
            texture,
            color: CellColor::white(),
            flip_x: false,
            flip_y: false,
            custom_size: None,
        }
    }
}

/// One grid slot's drawable content.
#[derive(Copy, Clone, Debug, PartialEq, Eq, Structural)]
pub enum SpriteCell {
    Texture(TexturedCell),
    Color(CellColor),
}

impl SpriteCell {
    /// A textured cell with default tint and flags.
    pub fn texture(texture: TextureSource) -> (r: Self)
        ensures
            r == SpriteCell::Texture(
                TexturedCell {
                    texture,
                    color: CellColor { red: 255u8, green: 255u8, blue: 255u8, alpha: 255u8 },
                    flip_x: false,
                    flip_y: false,
                    custom_size: None::<ScaledVec2>,
                },
            ),
    {
        SpriteCell::Texture(TexturedCell::new(texture))
    }

    /// A solid-color cell.
    pub fn color(color: CellColor) -> (r: Self)
        ensures
            r == SpriteCell::Color(color),
    {
        SpriteCell::Color(color)
    }
}

} // verus!
