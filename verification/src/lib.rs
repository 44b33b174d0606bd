//! Bitmap text for raster images.
//!
//! A font is an atlas image and the cell of each character in it, built from
//! a font definition ([`pxfontdata`], [`atlas`], [`pxfont`]). A text is a row of
//! sections, each in one tint ([`pxtext`]). Measuring a text tells the size
//! of its image ([`measure`]); wrapping breaks its lines between words
//! ([`wrap`]); laying it out tells where each glyph stands ([`layout`]);
//! drawing puts the glyphs down on the image ([`render_text`]); and a picked
//! range of the text is covered by rectangles on the screen ([`pick`]),
//! which tell what a pointer is over ([`input`]).

pub mod atlas;
pub mod bitmap;
pub mod glyph_map;
pub mod input;
pub mod layout;
pub mod measure;
pub mod pick;
pub mod pxfont;
pub mod pxfontdata;
pub mod pxtext;
pub mod rect;
pub mod render_text;
pub mod scalar;
pub mod wrap;
