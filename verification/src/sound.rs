//! The background music list: the sound files found in the music folder,
//! and the random choice of the next piece to play. Playing is done by
//! the caller's audio output.

use vstd::prelude::*;
use crate::data::same_text;
use rand::Rng;

verus! {

/// The extensions of the sound files that can be played.
pub open spec fn playable_extension(ext: Seq<char>) -> bool {
    ||| ext == "aac"@
    ||| ext == "alac"@
    ||| ext == "flac"@
    ||| ext == "mkv"@
    ||| ext == "mp3"@
    ||| ext == "mp4"@
    ||| ext == "ogg"@
    ||| ext == "vorbis"@
    ||| ext == "wav"@
    ||| ext == "webm"@
}

/// Whether a file with extension `ext` can be played.
pub fn is_playable_extension(ext: &str) -> (b: bool)
    ensures
        b == playable_extension(ext@),
{
    same_text(ext, "aac") || same_text(ext, "alac") || same_text(ext, "flac") || same_text(ext, "mkv")
        || same_text(ext, "mp3") || same_text(ext, "mp4") || same_text(ext, "ogg") || same_text(ext, "vorbis")
        || same_text(ext, "wav") || same_text(ext, "webm")
}

/// The paths, in order, of the entries `(path, extension)` whose extension
/// can be played.
pub open spec fn playable_paths(entries: Seq<(String, Option<String>)>) -> Seq<Seq<char>>
    decreases entries.len(),
{
    if entries.len() == 0 {
        Seq::empty()
    } else {
        let rest = playable_paths(entries.drop_last());
        let e = entries.last();
        if e.1 is Some && playable_extension(e.1.unwrap()@) {
            rest.push(e.0@)
        } else {
            rest
        }
    }
}

/// A number drawn at random below `n`: calls `rand::thread_rng()` and
/// `Rng::gen_range(0..n)`. The draw is by chance; the contract states only
/// that it is below `n`, which the crate's documentation promises (and it
/// panics on an empty range, which `requires` leaves out).
#[verifier::external_body]
fn random_below(n: usize) -> (r: usize)
    requires
        0 < n,
    ensures
        r < n,
{
    rand::thread_rng().gen_range(0..n)
}

/// The background music that can be played.
#[derive(Debug)]
pub struct SoundManager {
    pub bgm_list: Vec<String>,
}

impl SoundManager {
    /// The paths of the music, as text.
    pub open spec fn bgm(&self) -> Seq<Seq<char>> {
        self.bgm_list@.map_values(|s: String| s@)
    }

    /// No music.
    pub fn new() -> (r: SoundManager)
        ensures
            r.bgm_list@.len() == 0,
    {
        SoundManager { bgm_list: Vec::new() }
    }

    /// Takes as the music the entries of the music folder, `(path,
    /// extension)`, that can be played, in the order given.
    pub fn load(&mut self, entries: &Vec<(String, Option<String>)>)
        ensures
            final(self).bgm() == playable_paths(entries@),
    {
        let mut list: Vec<String> = Vec::new();
        let mut i: usize = 0;
        while i < entries.len()
            invariant
                i <= entries@.len(),
                list@.map_values(|s: String| s@) == playable_paths(entries@.take(i as int)),
            decreases entries@.len() - i,
        {
            let e = &entries[i];
            proof {
                assert(entries@.take(i + 1).drop_last() =~= entries@.take(i as int));
                assert(entries@.take(i + 1).last() == entries@[i as int]);
            }
            let keep = match &e.1 {
                Some(ext) => is_playable_extension(ext.as_str()),
                None => false,
            };
            if keep {
                let ghost before = list@;
                list.push(e.0.clone());
                proof {
                    assert(list@.map_values(|s: String| s@) =~= before.map_values(|s: String| s@).push(e.0@));
                }
            }
            i = i + 1;
        }
        proof {
            assert(entries@.take(entries@.len() as int) =~= entries@);
        }
        self.bgm_list = list;
    }

    /// The place in the list of a piece chosen at random; there must be
    /// music to choose from.
    pub fn play_bgm_random(&self) -> (r: usize)
        requires
            self.bgm_list@.len() > 0,
        ensures
            r < self.bgm_list@.len(),
    {
        random_below(self.bgm_list.len())
    }
}

} // verus!
