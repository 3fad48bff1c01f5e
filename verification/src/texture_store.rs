//! The textures loaded on the GPU, by identifier: each one's bind group, of
//! type `B`, made by the caller.
use crate::text::str_equal;
use vstd::prelude::*;

verus! {

/// The bind group of each identifier after loading `entries` in order: a
/// later load under an identifier replaces an earlier one.
pub open spec fn texture_map<B>(entries: Seq<(String, B)>) -> Map<Seq<char>, B>
    decreases entries.len(),
{
    if entries.len() == 0 {
        Map::empty()
    } else {
        texture_map(entries.drop_last()).insert(entries.last().0@, entries.last().1)
    }
}

/// The textures loaded, by identifier.
pub struct TextureStore<B> {
    texture_bind_groups: Vec<(String, B)>,
}

impl<B> TextureStore<B> {
    /// The bind group of each loaded texture.
    pub closed spec fn textures(&self) -> Map<Seq<char>, B> {
        texture_map(self.texture_bind_groups@)
    }

    /// No textures.
    pub fn new() -> (s: Self)
        ensures
            s.textures() == Map::<Seq<char>, B>::empty(),
    {
        TextureStore { texture_bind_groups: Vec::new() }
    }

    /// Records the texture `texture_identifier`, with its bind group; it
    /// replaces a texture loaded before under that identifier.
    pub fn load_texture(&mut self, texture_identifier: &str, texture_bind_group: B)
        ensures
            final(self).textures() == old(self).textures().insert(texture_identifier@, texture_bind_group),
    {
        self.texture_bind_groups.push((texture_identifier.to_owned(), texture_bind_group));
        proof {
            assert(self.texture_bind_groups@.drop_last() =~= old(self).texture_bind_groups@);
        }
    }

    /// The bind group of the texture `texture_identifier`, if loaded.
    pub fn texture_bind_group(&self, texture_identifier: &str) -> (r: Option<&B>)
        ensures
            match r {
                Some(b) => self.textures().contains_key(texture_identifier@) && *b == self.textures()[texture_identifier@],
                None => !self.textures().contains_key(texture_identifier@),
            },
    {
        let ghost e = self.texture_bind_groups@;
        let mut i: usize = self.texture_bind_groups.len();
        assert(e.take(i as int) =~= e);
        while i > 0
            invariant
                i <= e.len(),
                e == self.texture_bind_groups@,
                texture_map(e).contains_key(texture_identifier@) == texture_map(e.take(i as int)).contains_key(
                    texture_identifier@,
                ),
                texture_map(e).contains_key(texture_identifier@) ==> texture_map(e)[texture_identifier@]
                    == texture_map(e.take(i as int))[texture_identifier@],
            decreases i,
        {
            assert(e.take(i as int).drop_last() =~= e.take(i - 1));
            if str_equal(self.texture_bind_groups[i - 1].0.as_str(), texture_identifier) {
                return Some(&self.texture_bind_groups[i - 1].1);
            }
            i = i - 1;
        }
        None
    }
}

/// A texture loaded is found under its identifier, with the bind group
/// loaded last, and loading it leaves the other textures as they were.
pub proof fn law_loaded_texture_is_found<B>(a: TextureStore<B>, b: TextureStore<B>, id: Seq<char>, group: B, other: Seq<char>)
    requires
        b.textures() == a.textures().insert(id, group),
    ensures
        b.textures().contains_key(id),
        b.textures()[id] == group,
        other != id ==> (b.textures().contains_key(other) == a.textures().contains_key(other)),
        other != id && a.textures().contains_key(other) ==> b.textures()[other] == a.textures()[other],
{
}

} // verus!
