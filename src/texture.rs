//! Textures loaded for an initialisation pass, kept by image name so that an
//! image shared by many entities is loaded once.
use vstd::prelude::*;
use crate::component::Texture;

verus! {

/// The texture of the first entry named `name`, if any.
pub open spec fn lookup_in(entries: Seq<(String, Texture)>, name: Seq<char>) -> Option<Texture>
    decreases entries.len(),
{
    if entries.len() == 0 {
        None
    } else if entries[0].0@ == name {
        Some(entries[0].1)
    } else {
        lookup_in(entries.drop_first(), name)
    }
}

/// Loaded textures by image name.
pub struct TextureCache {
    pub entries: Vec<(String, Texture)>,
}

/// Channel layout of uploaded pixel data.
#[derive(Clone, Copy, Debug, PartialEq, Eq, Structural)]
pub enum PixelFormat {
    Rgb,
    Rgba,
}

/// The upload format for an image with `depth` channels: four channels are
/// uploaded with alpha, anything else as colour only.
pub fn upload_format(depth: usize) -> (r: PixelFormat)
    ensures
        r == (if depth == 4 { PixelFormat::Rgba } else { PixelFormat::Rgb }),
{
    if depth == 4 {
        PixelFormat::Rgba
    } else {
        PixelFormat::Rgb
    }
}

impl TextureCache {
    pub open spec fn get_spec(&self, name: Seq<char>) -> Option<Texture> {
        lookup_in(self.entries@, name)
    }

    pub fn new() -> (r: TextureCache)
        ensures
            r.entries@.len() == 0,
    {
        TextureCache { entries: Vec::new() }
    }

    /// Records `tex` as the texture of `name`, unless `name` already has one.
    pub fn insert(&mut self, name: String, tex: Texture)
        ensures
            forall|n: Seq<char>| #[trigger]
                final(self).get_spec(n) == if old(self).get_spec(n) is None && n == name@ {
                    Some(tex)
                } else {
                    old(self).get_spec(n)
                },
    {
        let ghost e0 = self.entries@;
        self.entries.push((name, tex));
        proof {
            assert forall|n: Seq<char>| #[trigger]
                lookup_in(self.entries@, n) == if lookup_in(e0, n) is None && n == name@ {
                    Some(tex)
                } else {
                    lookup_in(e0, n)
                } by {
                lemma_lookup_push(e0, (name, tex), n);
            }
        }
    }

    /// The texture loaded for `name`.
    pub fn get(&self, name: &String) -> (r: Option<Texture>)
        ensures
            r == self.get_spec(name@),
    {
        let mut j: usize = 0;
        assert(self.entries@.subrange(0, self.entries@.len() as int) =~= self.entries@);
        while j < self.entries.len()
            invariant
                0 <= j <= self.entries@.len(),
                lookup_in(self.entries@, name@) == lookup_in(
                    self.entries@.subrange(j as int, self.entries@.len() as int),
                    name@,
                ),
            decreases self.entries.len() - j,
        {
            let ghost rest = self.entries@.subrange(j as int, self.entries@.len() as int);
            if self.entries[j].0 == *name {
                return Some(self.entries[j].1);
            }
            assert(rest.drop_first() =~= self.entries@.subrange(
                j + 1,
                self.entries@.len() as int,
            ));
            j = j + 1;
        }
        None
    }
}

proof fn lemma_lookup_push(e: Seq<(String, Texture)>, x: (String, Texture), n: Seq<char>)
    ensures
        lookup_in(e.push(x), n) == if lookup_in(e, n) is None && n == x.0@ {
            Some(x.1)
        } else {
            lookup_in(e, n)
        },
    decreases e.len(),
{
    if e.len() == 0 {
        assert(e.push(x).drop_first() =~= e);
    } else {
        assert(e.push(x).drop_first() =~= e.drop_first().push(x));
        lemma_lookup_push(e.drop_first(), x, n);
    }
}

} // verus!
