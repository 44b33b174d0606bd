//! The map from characters to glyph cells: a hash map of the `ahash` crate.

use ahash::AHashMap;
use vstd::prelude::*;

use crate::rect::GlyphRect;

verus! {

/// The hash map of the `ahash` crate.
#[verifier::external_type_specification]
#[verifier::external_body]
#[verifier::reject_recursive_types(K)]
#[verifier::reject_recursive_types(V)]
#[verifier::reject_recursive_types(S)]
pub struct ExAHashMap<K, V, S>(AHashMap<K, V, S>);

/// The hasher state that an `AHashMap` has where none is named.
#[verifier::external_type_specification]
#[verifier::external_body]
pub struct ExRandomState(ahash::RandomState);

/// The cells that the map holds, by character.
pub uninterp spec fn glyphs_of(glyphs: AHashMap<char, GlyphRect>) -> Map<char, GlyphRect>;

/// The map without any cell.
pub open spec fn no_glyphs() -> Map<char, GlyphRect> {
    Map::empty()
}

/// `AHashMap::new` makes a map that holds nothing.
#[verifier::external_body]
pub(crate) fn glyph_map_new() -> (glyphs: AHashMap<char, GlyphRect>)
    ensures
        glyphs_of(glyphs) == no_glyphs(),
{
    AHashMap::new()
}

/// `AHashMap::insert` sets the cell of `c`, in place of the one that the map
/// held for it, and leaves the other characters' cells alone.
#[verifier::external_body]
pub(crate) fn glyph_map_insert(glyphs: &mut AHashMap<char, GlyphRect>, c: char, rect: GlyphRect)
    ensures
        glyphs_of(*final(glyphs)) == glyphs_of(*old(glyphs)).insert(c, rect),
{
    glyphs.insert(c, rect);
}

/// `AHashMap::get` finds the cell of `c`, or `None` where the map holds none
/// for it.
#[verifier::external_body]
pub(crate) fn glyph_map_get(glyphs: &AHashMap<char, GlyphRect>, c: char) -> (r: Option<
    GlyphRect,
>)
    ensures
        r == if glyphs_of(*glyphs).dom().contains(c) {
            Some(glyphs_of(*glyphs)[c])
        } else {
            None
        },
{
    glyphs.get(&c).copied()
}

} // verus!
