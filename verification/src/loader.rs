//! What texture and font loaders hand over, and the glyph metrics derived
//! from it.
use vstd::prelude::*;

verus! {

/// A glyph as it stands in a bitmap font description: its character code,
/// its size in the atlas, its drawing offsets and advance, and its place in
/// the atlas.
#[derive(Debug, Clone, Copy, PartialEq, Eq, Structural)]
pub struct RawGlyph {
    pub id: u32,
    pub width: u16,
    pub height: u16,
    pub xoffset: i16,
    pub yoffset: i16,
    pub xadvance: i16,
    pub x: u16,
    pub y: u16,
}

/// Loads textures by name: RGBA bytes, width and height.
pub trait TextureLoader {
    fn load_texture_rgba(&self, name: &str) -> Option<(Vec<u8>, u32, u32)>;
}

/// Loads bitmap fonts by name: the RGBA bytes of the atlas, its width and
/// height, and the glyphs.
pub trait FontLoader {
    fn load_font_data(&self, name: &str) -> Option<(Vec<u8>, u32, u32, Vec<RawGlyph>)>;
}

/// The tallest glyph height among `glyphs`, 0 when there are none.
pub open spec fn spec_max_height(glyphs: Seq<RawGlyph>) -> u16
    decreases glyphs.len(),
{
    if glyphs.len() == 0 {
        0
    } else {
        let rest = spec_max_height(glyphs.drop_last());
        if glyphs.last().height > rest {
            glyphs.last().height
        } else {
            rest
        }
    }
}

/// The line height of a font: the height of its tallest glyph, 0 for a font
/// without glyphs.
pub fn max_glyph_height(glyphs: &Vec<RawGlyph>) -> (h: u16)
    ensures
        h == spec_max_height(glyphs@),
{
    let mut best: u16 = 0;
    let mut i: usize = 0;
    while i < glyphs.len()
        invariant
            i <= glyphs@.len(),
            best == spec_max_height(glyphs@.take(i as int)),
        decreases glyphs@.len() - i,
    {
        assert(glyphs@.take(i + 1).drop_last() =~= glyphs@.take(i as int));
        if glyphs[i].height > best {
            best = glyphs[i].height;
        }
        i = i + 1;
    }
    assert(glyphs@.take(glyphs@.len() as int) =~= glyphs@);
    best
}

/// The line height is at least the height of every glyph, and it is the
/// height of one of them when there is any.
pub proof fn lemma_max_height_bounds(glyphs: Seq<RawGlyph>)
    ensures
        forall|k: int| 0 <= k < glyphs.len() ==> #[trigger] glyphs[k].height <= spec_max_height(glyphs),
        glyphs.len() > 0 ==> exists|k: int| 0 <= k < glyphs.len() && #[trigger] glyphs[k].height == spec_max_height(glyphs),
    decreases glyphs.len(),
{
    if glyphs.len() > 0 {
        let p = glyphs.drop_last();
        lemma_max_height_bounds(p);
        assert forall|k: int| 0 <= k < glyphs.len() implies #[trigger] glyphs[k].height <= spec_max_height(glyphs) by {
            if k < glyphs.len() - 1 {
                assert(glyphs[k] == p[k]);
            }
        }
        if glyphs.last().height > spec_max_height(p) {
            assert(glyphs[glyphs.len() - 1].height == spec_max_height(glyphs));
        } else if p.len() > 0 {
            let k = choose|k: int| 0 <= k < p.len() && #[trigger] p[k].height == spec_max_height(p);
            assert(glyphs[k] == p[k]);
        } else {
            assert(glyphs[0].height == spec_max_height(glyphs));
        }
    }
}

} // verus!
