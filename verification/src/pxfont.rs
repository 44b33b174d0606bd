//! Fonts: an atlas image, the cell of each character in it, and the vertical
//! metrics. A font is built once, from a definition and the decoded image,
//! and read ever after.

use ahash::AHashMap;
use std::path::PathBuf;
use vstd::prelude::*;

use crate::atlas::{cells_fit, detect_width, lemma_first_blank_bounds, AtlasPlan};
use crate::bitmap::{decoded_rgba8, rows_of_bytes, Bitmap, ImageKind};
use crate::glyph_map::{glyph_map_get, glyph_map_insert, glyph_map_new, glyphs_of};
use crate::pxfontdata::{CharLayoutIter, GlyphWidth, PxFontData};
use crate::rect::GlyphRect;

verus! {

/// The plan of the walk that builds a font from `data` and the image `source`.
pub open spec fn plan_of(data: PxFontData, source: Bitmap) -> AtlasPlan {
    AtlasPlan {
        glyph_width: data.glyph_width,
        padding: data.padding,
        line_height: data.ascender + data.descender,
        source: source@,
        width: source.width() as int,
        height: source.height() as int,
    }
}

/// Why a font could not be loaded.
#[derive(Debug)]
pub enum PxFontLoadError {
    /// The image could not be decoded.
    Image(image::ImageError),
    /// The image's extension names no format that can be read.
    UnsupportedExtension(String),
    /// The image's path has no extension, so its format is unknown.
    NoExtensionProvided,
    /// The ascender is zero.
    MissingAscender,
    /// The descender is zero.
    MissingDescender,
}

/// A font: the atlas image, the cell of each character and the metrics.
#[derive(Debug)]
pub struct PxFont {
    name: String,
    source: Bitmap,
    char_map: AHashMap<char, GlyphRect>,
    ascender: u32,
    descender: u32,
    spacing: u32,
}

impl PxFont {
    /// The cells of the font, by character.
    pub closed spec fn glyphs(&self) -> Map<char, GlyphRect> {
        glyphs_of(self.char_map)
    }

    /// The font's name.
    pub closed spec fn spec_name(&self) -> Seq<char> {
        self.name@
    }

    /// The atlas image.
    pub closed spec fn spec_source(&self) -> Bitmap {
        self.source
    }

    /// Pixel rows above the baseline.
    pub closed spec fn spec_ascender(&self) -> u32 {
        self.ascender
    }

    /// Pixel rows below the baseline.
    pub closed spec fn spec_descender(&self) -> u32 {
        self.descender
    }

    /// Pixels between two glyphs of a text.
    pub closed spec fn spec_spacing(&self) -> u32 {
        self.spacing
    }

    /// The height of a line of text: ascender and descender together.
    pub open spec fn line_height(&self) -> int {
        self.spec_ascender() + self.spec_descender()
    }

    /// The font can be drawn with: its image is whole, neither metric is
    /// zero, and every cell is in order and as high as a line. This holds of
    /// every font.
    #[verifier::type_invariant]
    pub open spec fn wf(&self) -> bool {
        &&& self.spec_source().wf()
        &&& self.spec_ascender() >= 1
        &&& self.spec_descender() >= 1
        &&& cells_fit(self.glyphs(), self.line_height())
    }

    /// The font's name.
    pub fn name(&self) -> (r: &String)
        ensures
            r@ == self.spec_name(),
    {
        &self.name
    }

    /// The atlas image.
    pub fn source(&self) -> (r: &Bitmap)
        ensures
            *r == self.spec_source(),
    {
        &self.source
    }

    /// Pixel rows above the baseline.
    #[verifier::when_used_as_spec(spec_ascender)]
    pub fn ascender(&self) -> (r: u32)
        ensures
            r == self.spec_ascender(),
    {
        self.ascender
    }

    /// Pixel rows below the baseline.
    #[verifier::when_used_as_spec(spec_descender)]
    pub fn descender(&self) -> (r: u32)
        ensures
            r == self.spec_descender(),
    {
        self.descender
    }

    /// Pixels between two glyphs of a text.
    #[verifier::when_used_as_spec(spec_spacing)]
    pub fn spacing(&self) -> (r: u32)
        ensures
            r == self.spec_spacing(),
    {
        self.spacing
    }

    /// The cell of `c`, or `None` where the font has no glyph for it.
    pub fn glyph(&self, c: char) -> (r: Option<GlyphRect>)
        ensures
            r == if self.glyphs().dom().contains(c) {
                Some(self.glyphs()[c])
            } else {
                None
            },
    {
        glyph_map_get(&self.char_map, c)
    }

    /// Builds a font from its definition and the decoded atlas image.
    ///
    /// The characters of the definition's layout get their cells in the
    /// layout's order, left to right and row by row, until the image is used
    /// up. Where a character comes twice, its later cell stands.
    pub fn from_atlas(data: PxFontData, source: Bitmap) -> (r: Result<PxFont, PxFontLoadError>)
        ensures
            data.ascender == 0 ==> r matches Err(PxFontLoadError::MissingAscender),
            data.ascender != 0 && data.descender == 0 ==> r matches Err(
                PxFontLoadError::MissingDescender,
            ),
            data.ascender != 0 && data.descender != 0 ==> r is Ok,
            r matches Ok(font) ==> {
                &&& font.wf()
                &&& font.spec_name() == data.name@
                &&& font.spec_source() == source
                &&& font.spec_ascender() == data.ascender
                &&& font.spec_descender() == data.descender
                &&& font.spec_spacing() == data.spacing
                &&& font.glyphs() == plan_of(data, source).glyphs(data.char_layout.chars())
            },
    {
        if data.ascender == 0 {
            return Err(PxFontLoadError::MissingAscender);
        }
        if data.descender == 0 {
            return Err(PxFontLoadError::MissingDescender);
        }
        let image_width: u32 = source.width();
        let image_height: u32 = source.height();
        let ghost plan = plan_of(data, source);
        let ghost chars = data.char_layout.chars();
        let PxFontData {
            name,
            image,
            glyph_width,
            ascender,
            descender,
            char_layout,
            spacing,
            padding,
        } = data;
        let line_height: u64 = ascender as u64 + descender as u64;
        let mut it: CharLayoutIter = char_layout.into_iter();
        let mut char_map: AHashMap<char, GlyphRect> = glyph_map_new();
        let mut x: u32 = 0;
        let mut y: u32 = 0;
        assert(glyphs_of(char_map) =~= plan.start().glyphs);
        loop
            invariant_except_break
                !plan.walk(chars, it.position() as int).done,
                plan.walk(chars, it.position() as int).x == x,
                plan.walk(chars, it.position() as int).y == y,
                plan.walk(chars, it.position() as int).glyphs == glyphs_of(char_map),
            invariant
                source.wf(),
                plan.wf(),
                plan.source == source@,
                plan.width == image_width,
                plan.height == image_height,
                plan.line_height == line_height,
                line_height <= 0x2_0000_0000,
                plan.glyph_width == glyph_width,
                plan.padding == padding,
                image_width == source.width(),
                image_height == source.height(),
                it.layout().chars() == chars,
                it.position() <= chars.len(),
                cells_fit(glyphs_of(char_map), line_height as int),
            ensures
                glyphs_of(char_map) == plan.glyphs(chars),
                cells_fit(glyphs_of(char_map), line_height as int),
            decreases chars.len() - it.position(),
        {
            let ghost before = it.position() as int;
            let ghost at = plan.walk(chars, before);
            proof {
                plan.lemma_cursor_in_image(chars, before);
            }
            let c: char = match it.next() {
                Some(c) => c,
                None => {
                    break ;
                },
            };
            assert(plan.walk(chars, before + 1) == plan.step(at, c));
            let width: u64 = match glyph_width {
                GlyphWidth::Monospace(w) => w as u64,
                GlyphWidth::Varied { max, min } => {
                    if y as u64 + line_height > image_height as u64 {
                        proof {
                            plan.lemma_done_stays(chars, before + 1, chars.len() as int);
                        }
                        break ;
                    }
                    let limit: u64 = if max > min {
                        max as u64
                    } else {
                        min as u64 + 1
                    };
                    let w: u64 = detect_width(&source, x, y, line_height as u32, min as u64, limit);
                    proof {
                        lemma_first_blank_bounds(
                            source@,
                            x as int,
                            y as int,
                            line_height as int,
                            min as int,
                            limit as int,
                        );
                    }
                    w
                },
            };
            if width >= 1 {
                let right: u64 = x as u64 + width - 1;
                let bottom: u64 = y as u64 + line_height - 1;
                if right > u32::MAX as u64 || bottom > u32::MAX as u64 {
                    proof {
                        plan.lemma_done_stays(chars, before + 1, chars.len() as int);
                    }
                    break ;
                }
                let rect = GlyphRect { min_x: x, min_y: y, max_x: right as u32, max_y: bottom as u32 };
                glyph_map_insert(&mut char_map, c, rect);
            }
            let cell: u32 = match glyph_width {
                GlyphWidth::Monospace(w) => w,
                GlyphWidth::Varied { max, min } => max,
            };
            let next_x: u64 = x as u64 + cell as u64 + padding.0 as u64;
            if next_x >= image_width as u64 {
                let next_y: u64 = y as u64 + line_height + padding.1 as u64;
                if next_y >= image_height as u64 {
                    proof {
                        plan.lemma_done_stays(chars, before + 1, chars.len() as int);
                    }
                    break ;
                }
                x = 0;
                y = next_y as u32;
            } else {
                x = next_x as u32;
            }
        }
        Ok(PxFont { name, source, char_map, ascender, descender, spacing })
    }
}

/// The image format that a file extension names: `png`, `jpeg` or `jpg`,
/// `gif`, `tiff` or `tif`, in lower case.
pub open spec fn format_of_extension(extension: Seq<char>) -> Option<ImageKind> {
    if extension == "png"@ {
        Some(ImageKind::Png)
    } else if extension == "jpeg"@ || extension == "jpg"@ {
        Some(ImageKind::Jpeg)
    } else if extension == "gif"@ {
        Some(ImageKind::Gif)
    } else if extension == "tiff"@ || extension == "tif"@ {
        Some(ImageKind::Tiff)
    } else {
        None
    }
}

/// Whether two strings hold the same characters.
fn same_text(a: &str, b: &str) -> (same: bool)
    ensures
        same == (a@ == b@),
{
    let left: String = a.to_owned();
    let right: String = b.to_owned();
    left == right
}

/// What finding the image format for an extension comes to: the format that
/// the extension names; the extension itself as the error where it names
/// none; and an error of its own where there is no extension.
pub open spec fn is_kind_outcome(
    extension: Option<Seq<char>>,
    r: Result<ImageKind, PxFontLoadError>,
) -> bool {
    match extension {
        None => r matches Err(PxFontLoadError::NoExtensionProvided),
        Some(e) => match format_of_extension(e) {
            Some(kind) => r matches Ok(k) && k == kind,
            None => r matches Err(PxFontLoadError::UnsupportedExtension(name)) && name@ == e,
        },
    }
}

/// The image format that the extension of an image file names.
pub fn image_kind(extension: Option<&str>) -> (r: Result<ImageKind, PxFontLoadError>)
    ensures
        is_kind_outcome(
            match extension {
                Some(e) => Some(e@),
                None => None,
            },
            r,
        ),
{
    match extension {
        None => Err(PxFontLoadError::NoExtensionProvided),
        Some(e) => {
            if same_text(e, "png") {
                Ok(ImageKind::Png)
            } else if same_text(e, "jpeg") || same_text(e, "jpg") {
                Ok(ImageKind::Jpeg)
            } else if same_text(e, "gif") {
                Ok(ImageKind::Gif)
            } else if same_text(e, "tiff") || same_text(e, "tif") {
                Ok(ImageKind::Tiff)
            } else {
                Err(PxFontLoadError::UnsupportedExtension(e.to_owned()))
            }
        },
    }
}

/// The extension of a path as `Path::extension` finds it: the part of the
/// file name behind its last dot, if the name has one.
pub uninterp spec fn extension_of(path: PathBuf) -> Option<Seq<char>>;

/// `Path::extension` on the path, as a string. The result is what
/// `extension_of` names.
#[verifier::external_body]
fn path_extension(path: &PathBuf) -> (extension: Option<String>)
    ensures
        extension_of(*path) == match extension {
            Some(e) => Some(e@),
            None => None,
        },
{
    path.extension().map(|e| e.to_string_lossy().into_owned())
}

/// What loading a font from `data`, the extension of its image path and the
/// bytes of the image file comes to.
///
/// The checks are made in this order, and the first that fails gives the
/// error: the ascender, then the descender, must not be zero; there must be
/// an extension; it must name a format; the bytes must decode in that
/// format. Then the font is the one that `PxFont::from_atlas` builds from
/// the decoded image.
pub open spec fn is_load_outcome(
    data: PxFontData,
    extension: Option<Seq<char>>,
    bytes: Seq<u8>,
    r: Result<PxFont, PxFontLoadError>,
) -> bool {
    if data.ascender == 0 {
        r matches Err(PxFontLoadError::MissingAscender)
    } else if data.descender == 0 {
        r matches Err(PxFontLoadError::MissingDescender)
    } else if extension is None {
        r matches Err(PxFontLoadError::NoExtensionProvided)
    } else if format_of_extension(extension->0) is None {
        r matches Err(PxFontLoadError::UnsupportedExtension(name)) && name@ == extension->0
    } else if decoded_rgba8(bytes, format_of_extension(extension->0)->0) is None {
        r matches Err(PxFontLoadError::Image(_))
    } else {
        let (width, height, pixels) = decoded_rgba8(bytes, format_of_extension(extension->0)->0)->0;
        let plan = AtlasPlan {
            glyph_width: data.glyph_width,
            padding: data.padding,
            line_height: data.ascender + data.descender,
            source: rows_of_bytes(width as int, height as int, pixels),
            width: width as int,
            height: height as int,
        };
        &&& r matches Ok(font)
        &&& font.wf()
        &&& font.spec_name() == data.name@
        &&& font.spec_source()@ == plan.source
        &&& font.spec_source().width() == width
        &&& font.spec_source().height() == height
        &&& font.spec_ascender() == data.ascender
        &&& font.spec_descender() == data.descender
        &&& font.spec_spacing() == data.spacing
        &&& font.glyphs() == plan.glyphs(data.char_layout.chars())
    }
}

/// Loads fonts from their definitions.
#[derive(Debug, Default)]
pub struct PxFontLoader;

impl PxFontLoader {
    /// The extension of the files that hold font definitions.
    pub fn extensions(&self) -> (r: &[&str])
        ensures
            r@.len() == 1,
            r@[0]@ == "ron"@,
    {
        &["ron"]
    }

    /// The format in which the image of `data` is to be read: what is checked
    /// of a definition before its image is opened. A metric of zero is
    /// refused first; then the extension of the image path decides.
    pub fn image_format(&self, data: &PxFontData) -> (r: Result<ImageKind, PxFontLoadError>)
        ensures
            data.ascender == 0 ==> r matches Err(PxFontLoadError::MissingAscender),
            data.ascender != 0 && data.descender == 0 ==> r matches Err(
                PxFontLoadError::MissingDescender,
            ),
            data.ascender != 0 && data.descender != 0 ==> is_kind_outcome(
                extension_of(data.image),
                r,
            ),
    {
        if data.ascender == 0 {
            return Err(PxFontLoadError::MissingAscender);
        }
        if data.descender == 0 {
            return Err(PxFontLoadError::MissingDescender);
        }
        let extension: Option<String> = path_extension(&data.image);
        match &extension {
            Some(e) => image_kind(Some(e.as_str())),
            None => image_kind(None),
        }
    }

    /// Loads the font that `data` defines from the bytes of its image file,
    /// whose format the given extension names.
    pub fn load_with_extension(
        &self,
        data: PxFontData,
        extension: Option<&str>,
        image_bytes: &[u8],
    ) -> (r: Result<PxFont, PxFontLoadError>)
        ensures
            is_load_outcome(
                data,
                match extension {
                    Some(e) => Some(e@),
                    None => None,
                },
                image_bytes@,
                r,
            ),
    {
        if data.ascender == 0 {
            return Err(PxFontLoadError::MissingAscender);
        }
        if data.descender == 0 {
            return Err(PxFontLoadError::MissingDescender);
        }
        let kind: ImageKind = match image_kind(extension) {
            Ok(kind) => kind,
            Err(e) => {
                return Err(e);
            },
        };
        let source: Bitmap = match Bitmap::decode(image_bytes, kind) {
            Ok(source) => source,
            Err(e) => {
                return Err(PxFontLoadError::Image(e));
            },
        };
        PxFont::from_atlas(data, source)
    }

    /// Loads the font that `data` defines from the bytes of its image file.
    /// The extension of the definition's image path names the format.
    pub fn load(&self, data: PxFontData, image_bytes: &[u8]) -> (r: Result<
        PxFont,
        PxFontLoadError,
    >)
        ensures
            is_load_outcome(data, extension_of(data.image), image_bytes@, r),
    {
        let extension: Option<String> = path_extension(&data.image);
        match &extension {
            Some(e) => self.load_with_extension(data, Some(e.as_str()), image_bytes),
            None => self.load_with_extension(data, None, image_bytes),
        }
    }
}

/// A definition whose metrics are not zero loads, where the extension of its
/// image names a format and the bytes are an image of that format.
pub proof fn lemma_valid_definition_loads(
    data: PxFontData,
    extension: Option<Seq<char>>,
    bytes: Seq<u8>,
    r: Result<PxFont, PxFontLoadError>,
)
    requires
        is_load_outcome(data, extension, bytes, r),
        data.ascender > 0,
        data.descender > 0,
        extension is Some,
        format_of_extension(extension->0) is Some,
        decoded_rgba8(bytes, format_of_extension(extension->0)->0) is Some,
    ensures
        r is Ok,
{
}

/// A definition with a metric of zero never loads: the ascender is looked at
/// first, then the descender.
pub proof fn lemma_zero_metric_is_refused(
    data: PxFontData,
    extension: Option<Seq<char>>,
    bytes: Seq<u8>,
    r: Result<PxFont, PxFontLoadError>,
)
    requires
        is_load_outcome(data, extension, bytes, r),
        data.ascender == 0 || data.descender == 0,
    ensures
        data.ascender == 0 ==> r matches Err(PxFontLoadError::MissingAscender),
        data.ascender != 0 ==> r matches Err(PxFontLoadError::MissingDescender),
{
}

} // verus!
