//! Bitmap fonts: a texture atlas and, for each character, the region of its
//! glyph on the atlas.
use vstd::prelude::*;

verus! {

/// The glyph of one character: its region on the font atlas.
pub struct BitmapGlyph<R> {
    region: R,
}

impl<R> BitmapGlyph<R> {
    /// The glyph's region.
    pub closed spec fn spec_region(&self) -> R {
        self.region
    }

    /// A glyph drawn from `region`.
    pub fn new(region: R) -> (g: Self)
        ensures
            g.spec_region() == region,
    {
        BitmapGlyph { region }
    }

    /// The glyph's region on the atlas.
    pub fn region(&self) -> (r: &R)
        ensures
            *r == self.spec_region(),
    {
        &self.region
    }
}

/// A bitmap font whose glyph regions are of type `R`.
pub struct BitmapFont<R> {
    /// Identifier of the font texture atlas
    font_atlas: Option<String>,
    /// Identifier of the font tiles texture
    font_atlas_texture: Option<String>,
    /// The region of the bitmap font on the texture tiles
    font_atlas_region: Option<R>,
    /// The height of a line in pixels
    line_height: u32,
    /// The spacing between lines in pixels
    line_spacing: u32,
    /// The space between letters in pixels
    letter_spacing: u32,
    /// Whether case is ignored when looking for a glyph
    ignore_case: bool,
    /// The glyphs, by character; a later entry for a character replaces an earlier one
    glyphs: Vec<(char, BitmapGlyph<R>)>,
}

/// The glyph of each character after reading `entries` in order.
pub open spec fn glyph_map<R>(entries: Seq<(char, BitmapGlyph<R>)>) -> Map<char, R>
    decreases entries.len(),
{
    if entries.len() == 0 {
        Map::empty()
    } else {
        glyph_map(entries.drop_last()).insert(entries.last().0, entries.last().1.spec_region())
    }
}

/// Whether `a` and `b` are the same ASCII letter in the two cases.
pub open spec fn ascii_case_pair(a: char, b: char) -> bool {
    ||| ('A' <= a <= 'Z' && b as u32 == a as u32 + 32)
    ||| ('A' <= b <= 'Z' && a as u32 == b as u32 + 32)
}

/// Whether an entry for character `entry` serves a lookup of `wanted`:
/// the same character, or, when case is ignored, the same letter in the
/// other case.
pub open spec fn serves(entry: char, wanted: char, ignore_case: bool) -> bool {
    entry == wanted || (ignore_case && ascii_case_pair(entry, wanted))
}

/// The glyph region found for `wanted` in `entries`: that of the last entry
/// that serves it.
pub open spec fn glyph_lookup<R>(entries: Seq<(char, BitmapGlyph<R>)>, wanted: char, ignore_case: bool) -> Option<R>
    decreases entries.len(),
{
    if entries.len() == 0 {
        None
    } else if serves(entries.last().0, wanted, ignore_case) {
        Some(entries.last().1.spec_region())
    } else {
        glyph_lookup(entries.drop_last(), wanted, ignore_case)
    }
}

impl<R> BitmapFont<R> {
    /// The glyph region found for each character, as `glyph` looks it up.
    pub closed spec fn lookup(&self, wanted: char) -> Option<R> {
        glyph_lookup(self.glyphs@, wanted, self.ignore_case)
    }

    /// The glyph region of each character.
    pub closed spec fn glyphs_map(&self) -> Map<char, R> {
        glyph_map(self.glyphs@)
    }

    pub closed spec fn spec_font_atlas(&self) -> Option<String> {
        self.font_atlas
    }

    pub closed spec fn spec_font_atlas_texture(&self) -> Option<String> {
        self.font_atlas_texture
    }

    pub closed spec fn spec_font_atlas_region(&self) -> Option<R> {
        self.font_atlas_region
    }

    pub closed spec fn spec_line_height(&self) -> u32 {
        self.line_height
    }

    pub closed spec fn spec_line_spacing(&self) -> u32 {
        self.line_spacing
    }

    pub closed spec fn spec_letter_spacing(&self) -> u32 {
        self.letter_spacing
    }

    pub closed spec fn spec_ignore_case(&self) -> bool {
        self.ignore_case
    }

    /// A font from its parts; a later glyph for a character replaces an
    /// earlier one.
    pub fn new(
        font_atlas: Option<String>,
        font_atlas_texture: Option<String>,
        font_atlas_region: Option<R>,
        line_height: u32,
        line_spacing: u32,
        letter_spacing: u32,
        ignore_case: bool,
        glyphs: Vec<(char, BitmapGlyph<R>)>,
    ) -> (f: Self)
        ensures
            f.spec_font_atlas() == font_atlas,
            f.spec_font_atlas_texture() == font_atlas_texture,
            f.spec_font_atlas_region() == font_atlas_region,
            f.spec_line_height() == line_height,
            f.spec_line_spacing() == line_spacing,
            f.spec_letter_spacing() == letter_spacing,
            f.spec_ignore_case() == ignore_case,
            f.glyphs_map() == glyph_map(glyphs@),
            forall|c: char| #[trigger] f.lookup(c) == glyph_lookup(glyphs@, c, ignore_case),
    {
        BitmapFont {
            font_atlas,
            font_atlas_texture,
            font_atlas_region,
            line_height,
            line_spacing,
            letter_spacing,
            ignore_case,
            glyphs,
        }
    }

    /// Identifier of the font texture atlas.
    pub fn font_atlas(&self) -> (r: Option<&String>)
        ensures
            r == match self.spec_font_atlas() {
                Some(s) => Some(&s),
                None => None::<&String>,
            },
    {
        self.font_atlas.as_ref()
    }

    /// Identifier of the font tiles texture.
    pub fn font_atlas_texture(&self) -> (r: Option<&String>)
        ensures
            r == match self.spec_font_atlas_texture() {
                Some(s) => Some(&s),
                None => None::<&String>,
            },
    {
        self.font_atlas_texture.as_ref()
    }

    /// The region of the font on the texture tiles.
    pub fn font_atlas_region(&self) -> (r: Option<&R>)
        ensures
            r == match self.spec_font_atlas_region() {
                Some(s) => Some(&s),
                None => None::<&R>,
            },
    {
        self.font_atlas_region.as_ref()
    }

    /// The glyph entries, in the order given; a later entry for a character
    /// replaces an earlier one.
    pub fn glyph_entries(&self) -> (r: &[(char, BitmapGlyph<R>)])
        ensures
            glyph_map(r@) == self.glyphs_map(),
            forall|c: char| #[trigger] self.lookup(c) == glyph_lookup(r@, c, self.spec_ignore_case()),
    {
        self.glyphs.as_slice()
    }

    /// The glyph of `character`, if the font has one: the last entry for
    /// it, or, when the font ignores case, the last entry for it in either
    /// case (ASCII letters).
    pub fn glyph(&self, character: char) -> (r: Option<&BitmapGlyph<R>>)
        ensures
            match r {
                Some(g) => self.lookup(character) == Some(g.spec_region()),
                None => self.lookup(character) is None,
            },
    {
        let ghost e = self.glyphs@;
        let wanted = character as u32;
        let mut i: usize = self.glyphs.len();
        assert(e.take(i as int) =~= e);
        while i > 0
            invariant
                i <= e.len(),
                e == self.glyphs@,
                wanted == character as u32,
                glyph_lookup(e, character, self.ignore_case) == glyph_lookup(e.take(i as int), character, self.ignore_case),
            decreases i,
        {
            assert(e.take(i as int).drop_last() =~= e.take(i - 1));
            let entry = self.glyphs[i - 1].0;
            let code = entry as u32;
            let same_letter = self.ignore_case && (('A' <= entry && entry <= 'Z' && wanted == code + 32) || ('A'
                <= character && character <= 'Z' && code == wanted + 32));
            if entry == character || same_letter {
                return Some(&self.glyphs[i - 1].1);
            }
            i = i - 1;
        }
        None
    }

    /// The height of a line in pixels.
    pub fn line_height(&self) -> (r: u32)
        ensures
            r == self.spec_line_height(),
    {
        self.line_height
    }

    /// The spacing between lines in pixels.
    pub fn line_spacing(&self) -> (r: u32)
        ensures
            r == self.spec_line_spacing(),
    {
        self.line_spacing
    }

    /// The space between letters in pixels.
    pub fn letter_spacing(&self) -> (r: u32)
        ensures
            r == self.spec_letter_spacing(),
    {
        self.letter_spacing
    }

    /// Whether case is ignored when looking for a glyph.
    pub fn ignore_case(&self) -> (r: bool)
        ensures
            r == self.spec_ignore_case(),
    {
        self.ignore_case
    }

    /// The number of characters that have a glyph.
    pub fn glyph_count(&self) -> (n: usize)
        ensures
            n == self.glyphs_map().dom().len(),
    {
        let mut n: usize = 0;
        let mut i: usize = 0;
        let ghost e = self.glyphs@;
        proof { lemma_glyph_map_finite(e); }
        assert(glyph_map(e.take(0)) =~= Map::<char, R>::empty());
        while i < self.glyphs.len()
            invariant
                e == self.glyphs@,
                i <= e.len(),
                n == glyph_map(e.take(i as int)).dom().len(),
                n <= i,
                glyph_map(e.take(i as int)).dom().finite(),
            decreases e.len() - i,
        {
            let c = self.glyphs[i].0;
            let mut seen = false;
            let mut j: usize = 0;
            while j < i
                invariant
                    e == self.glyphs@,
                    j <= i < e.len(),
                    seen == exists|k: int| 0 <= k < j && #[trigger] e[k].0 == c,
                decreases i - j,
            {
                if self.glyphs[j].0 == c {
                    seen = true;
                }
                j = j + 1;
            }
            proof {
                assert(e.take(i + 1).drop_last() =~= e.take(i as int));
                assert(e.take(i + 1).last().0 == c);
                lemma_glyph_map_keys(e.take(i as int), c);
                lemma_glyph_map_finite(e.take(i as int));
                if seen {
                    let k = choose|k: int| 0 <= k < i && #[trigger] e[k].0 == c;
                    assert(e.take(i as int)[k].0 == c);
                    assert(glyph_map(e.take(i + 1)).dom() =~= glyph_map(e.take(i as int)).dom());
                } else {
                    assert forall|k: int| 0 <= k < e.take(i as int).len() implies #[trigger] e.take(i as int)[k].0 != c by {
                        assert(e.take(i as int)[k] == e[k]);
                    }
                    assert(glyph_map(e.take(i + 1)).dom() =~= glyph_map(e.take(i as int)).dom().insert(c));
                }
            }
            if !seen {
                n = n + 1;
            }
            i = i + 1;
        }
        assert(e.take(e.len() as int) =~= e);
        n
    }
}

proof fn lemma_glyph_map_keys<R>(entries: Seq<(char, BitmapGlyph<R>)>, c: char)
    ensures
        glyph_map(entries).contains_key(c) <==> exists|k: int| 0 <= k < entries.len() && #[trigger] entries[k].0 == c,
    decreases entries.len(),
{
    if entries.len() > 0 {
        lemma_glyph_map_keys(entries.drop_last(), c);
        if exists|k: int| 0 <= k < entries.drop_last().len() && #[trigger] entries.drop_last()[k].0 == c {
            let k = choose|k: int| 0 <= k < entries.drop_last().len() && #[trigger] entries.drop_last()[k].0 == c;
            assert(entries[k].0 == c);
        }
        if exists|k: int| 0 <= k < entries.len() && #[trigger] entries[k].0 == c {
            let k = choose|k: int| 0 <= k < entries.len() && #[trigger] entries[k].0 == c;
            if k < entries.len() - 1 {
                assert(entries.drop_last()[k].0 == c);
            }
        }
    }
}

proof fn lemma_glyph_map_finite<R>(entries: Seq<(char, BitmapGlyph<R>)>)
    ensures
        glyph_map(entries).dom().finite(),
    decreases entries.len(),
{
    if entries.len() > 0 {
        lemma_glyph_map_finite(entries.drop_last());
    }
}

/// When case is ignored, the two cases of an ASCII letter find the same
/// glyph; when it is not, a lookup finds the glyph of exactly the character.
pub proof fn law_ignore_case_finds_either_case<R>(entries: Seq<(char, BitmapGlyph<R>)>, a: char, b: char)
    ensures
        ascii_case_pair(a, b) ==> glyph_lookup(entries, a, true) == glyph_lookup(entries, b, true),
        glyph_lookup(entries, a, false) == (if glyph_map(entries).contains_key(a) {
            Some(glyph_map(entries)[a])
        } else {
            None
        }),
    decreases entries.len(),
{
    if entries.len() > 0 {
        law_ignore_case_finds_either_case(entries.drop_last(), a, b);
        let x = entries.last().0;
        if ascii_case_pair(a, b) {
            lemma_char_eq(x, a);
            lemma_char_eq(x, b);
            assert(serves(x, a, true) == serves(x, b, true));
        }
    }
}

proof fn lemma_char_eq(x: char, y: char)
    ensures
        (x == y) == (x as u32 == y as u32),
{
    vstd::utf8::char_u32_cast(x, x as u32);
    vstd::utf8::char_u32_cast(y, y as u32);
}

} // verus!
