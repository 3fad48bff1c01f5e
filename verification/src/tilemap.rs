//! Tilemaps: grids of tiles, each carrying a set of tags.
use vstd::prelude::*;

use crate::text::{str_equal, string_from_chars};

verus! {

/// A label attached to tiles.
#[derive(Clone, Debug, Hash)]
pub struct Tag {
    identifier: String,
}

impl PartialEq for Tag {
    fn eq(&self, other: &Self) -> (r: bool) {
        self.identifier == other.identifier
    }
}

impl Eq for Tag {}

impl vstd::std_specs::cmp::PartialEqSpecImpl for Tag {
    open spec fn obeys_eq_spec() -> bool {
        true
    }

    open spec fn eq_spec(&self, other: &Self) -> bool {
        self.spec_identifier() == other.spec_identifier()
    }
}

impl Tag {
    /// The identifier's characters.
    pub closed spec fn spec_identifier(&self) -> Seq<char> {
        self.identifier@
    }

    /// A tag named `identifier`.
    pub fn new(identifier: &str) -> (t: Tag)
        ensures
            t.spec_identifier() == identifier@,
    {
        Tag { identifier: identifier.to_owned() }
    }

    /// The tag's name.
    pub fn identifier(&self) -> (s: &str)
        ensures
            s@ == self.spec_identifier(),
    {
        self.identifier.as_str()
    }
}

/// A value that names a tag.
pub trait IntoTag {
    /// The name of the tag this value stands for.
    spec fn tag_name(&self) -> Seq<char>;

    /// The tag this value stands for.
    fn into_tag(&self) -> (t: Tag)
        ensures
            t.spec_identifier() == self.tag_name(),
    ;
}

impl IntoTag for Tag {
    open spec fn tag_name(&self) -> Seq<char> {
        self.spec_identifier()
    }

    fn into_tag(&self) -> (t: Tag) {
        Tag::new(self.identifier())
    }
}

impl<'a> IntoTag for &'a str {
    open spec fn tag_name(&self) -> Seq<char> {
        (*self)@
    }

    fn into_tag(&self) -> (t: Tag) {
        Tag::new(self)
    }
}

/// The names of the tags that `tags` stand for.
pub open spec fn tag_names<T: IntoTag>(tags: Seq<T>) -> Set<Seq<char>> {
    Set::new(|n: Seq<char>| exists|i: int| 0 <= i < tags.len() && #[trigger] tags[i].tag_name() == n)
}

/// One cell of a tilemap, with its tags (each once, when built by
/// `with_tags`).
pub struct Tile {
    pub tags: Vec<Tag>,
}

impl Tile {
    /// The names of the tile's tags.
    pub closed spec fn tag_set(&self) -> Set<Seq<char>> {
        Set::new(|n: Seq<char>| exists|i: int| 0 <= i < self.tags@.len() && #[trigger] self.tags@[i].spec_identifier() == n)
    }

    /// No tag occurs twice.
    pub closed spec fn wf(&self) -> bool {
        forall|i: int, j: int|
            0 <= i < j < self.tags@.len() ==> #[trigger] self.tags@[i].spec_identifier()
                != #[trigger] self.tags@[j].spec_identifier()
    }

    /// A tile carrying the tags that `tags` stand for, each once.
    pub fn with_tags<T: IntoTag>(tags: &[T]) -> (tile: Self)
        ensures
            tile.wf(),
            tile.tag_set() == tag_names(tags@),
    {
        let mut held: Vec<Tag> = Vec::new();
        let mut i: usize = 0;
        while i < tags.len()
            invariant
                i <= tags@.len(),
                forall|a: int, b: int|
                    0 <= a < b < held@.len() ==> #[trigger] held@[a].spec_identifier()
                        != #[trigger] held@[b].spec_identifier(),
                Set::new(|n: Seq<char>| exists|k: int| 0 <= k < held@.len() && #[trigger] held@[k].spec_identifier() == n)
                    == tag_names(tags@.take(i as int)),
            decreases tags@.len() - i,
        {
            let t = tags[i].into_tag();
            let mut present = false;
            let mut k: usize = 0;
            while k < held.len()
                invariant
                    k <= held@.len(),
                    present == exists|m: int| 0 <= m < k && #[trigger] held@[m].spec_identifier() == t.spec_identifier(),
                decreases held@.len() - k,
            {
                if str_equal(held[k].identifier(), t.identifier()) {
                    present = true;
                }
                k = k + 1;
            }
            let ghost before = held@;
            if !present {
                held.push(t);
            }
            proof {
                assert(tags@.take(i + 1) =~= tags@.take(i as int).push(tags@[i as int]));
                let s_new = Set::new(|n: Seq<char>| exists|k: int| 0 <= k < held@.len() && #[trigger] held@[k].spec_identifier() == n);
                let s_old = Set::new(|n: Seq<char>| exists|k: int| 0 <= k < before.len() && #[trigger] before[k].spec_identifier() == n);
                assert forall|n: Seq<char>| #[trigger] s_new.contains(n) == (s_old.contains(n) || n == t.spec_identifier()) by {
                    if s_old.contains(n) {
                        let k = choose|k: int| 0 <= k < before.len() && #[trigger] before[k].spec_identifier() == n;
                        assert(held@[k] == before[k]);
                    }
                    if s_new.contains(n) {
                        let k = choose|k: int| 0 <= k < held@.len() && #[trigger] held@[k].spec_identifier() == n;
                        if k < before.len() {
                            assert(held@[k] == before[k]);
                        }
                    }
                    if n == t.spec_identifier() && !present {
                        assert(held@[before.len() as int].spec_identifier() == n);
                    }
                }
                let ti = tags@.take(i as int);
                let ti1 = tags@.take(i + 1);
                assert forall|n: Seq<char>| #[trigger] tag_names(ti1).contains(n) == (tag_names(ti).contains(n) || n == t.spec_identifier()) by {
                    if tag_names(ti).contains(n) {
                        let k = choose|k: int| 0 <= k < ti.len() && #[trigger] ti[k].tag_name() == n;
                        assert(ti1[k] == ti[k]);
                    }
                    if n == t.spec_identifier() {
                        assert(ti1[i as int].tag_name() == n);
                    }
                    if tag_names(ti1).contains(n) {
                        let k = choose|k: int| 0 <= k < ti1.len() && #[trigger] ti1[k].tag_name() == n;
                        if k < i {
                            assert(ti[k] == ti1[k]);
                        }
                    }
                }
                assert(s_new =~= tag_names(ti1));
                assert forall|a: int, b: int|
                    0 <= a < b < held@.len() implies #[trigger] held@[a].spec_identifier()
                        != #[trigger] held@[b].spec_identifier() by {
                    if b == before.len() {
                        assert(held@[a] == before[a]);
                    }
                }
            }
            i = i + 1;
        }
        assert(tags@.take(tags@.len() as int) =~= tags@);
        Tile { tags: held }
    }

    /// Whether the tile carries a tag named `identifier`.
    pub fn has_tag(&self, identifier: &str) -> (b: bool)
        ensures
            b == self.tag_set().contains(identifier@),
    {
        let mut k: usize = 0;
        while k < self.tags.len()
            invariant
                k <= self.tags@.len(),
                forall|m: int| 0 <= m < k ==> #[trigger] self.tags@[m].spec_identifier() != identifier@,
            decreases self.tags@.len() - k,
        {
            if str_equal(self.tags[k].identifier(), identifier) {
                return true;
            }
            k = k + 1;
        }
        false
    }
}

/// A grid of `width` by `height` tiles, stored row by row.
pub struct Tilemap {
    pub width: usize,
    pub height: usize,
    pub tile_width: usize,
    pub tile_height: usize,
    pub tiles: Vec<Tile>,
}

impl Tilemap {
    /// A tilemap whose every tile carries the tags of `default_tags`.
    pub fn new<T: IntoTag>(
        width: usize,
        height: usize,
        tile_width: usize,
        tile_height: usize,
        default_tags: &[T],
    ) -> (m: Self)
        requires
            width * height <= usize::MAX,
        ensures
            m.width == width,
            m.height == height,
            m.tile_width == tile_width,
            m.tile_height == tile_height,
            m.tiles@.len() == width * height,
            forall|i: int| 0 <= i < m.tiles@.len() ==> #[trigger] m.tiles@[i].wf()
                && m.tiles@[i].tag_set() == tag_names(default_tags@),
    {
        let count = width * height;
        let mut tiles: Vec<Tile> = Vec::new();
        let mut i: usize = 0;
        while i < count
            invariant
                i <= count,
                tiles@.len() == i,
                forall|j: int| 0 <= j < i ==> #[trigger] tiles@[j].wf()
                    && tiles@[j].tag_set() == tag_names(default_tags@),
            decreases count - i,
        {
            tiles.push(Tile::with_tags(default_tags));
            i = i + 1;
        }
        Tilemap { width, height, tile_width, tile_height, tiles }
    }
}

} // verus!
