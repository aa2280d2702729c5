//! When the history views are read again: the recorder remembers the
//! characters of the last battle it showed and when that battle was
//! stored, and refreshes when either changed. The queries themselves run
//! on the caller's database.

use vstd::prelude::*;
use crate::capture::{CaptureLabels, CaptureMode, default_modes, mode_view};
use crate::data::{SmashbrosData, same_text, unknown_name};

verus! {

/// The name of player `p`'s character in a record: its guess, "unknown"
/// for a player the record has no slot for.
pub open spec fn chara_name(d: SmashbrosData, p: int) -> Seq<char> {
    if 0 <= p < d.charas().len() {
        d.charas()[p].value()
    } else {
        unknown_name()
    }
}

/// What the caller reads again from the history.
#[derive(Clone, Copy, Debug, PartialEq, Eq, Structural)]
pub struct Refresh {
    /// The latest battles.
    pub latest: bool,
    /// The battles against the characters shown before.
    pub by_chara: bool,
}

/// The recorder's memory of what the history views show.
#[derive(Debug)]
pub struct SmashBrogEngine {
    pub prev_saved_time: Option<i64>,
    pub prev_find_chara_list: Vec<String>,
}

/// The characters of the latest battle, when it was one-on-one with both
/// characters known; none otherwise.
pub open spec fn first_chara_list(latest: Seq<SmashbrosData>) -> Seq<Seq<char>> {
    if latest.len() > 0 && latest[0].player_count() == 2 && latest[0].all_decided_character_spec() {
        seq![chara_name(latest[0], 0), chara_name(latest[0], 1)]
    } else {
        Seq::empty()
    }
}

/// The characters can be searched for: there is a first one, and it is
/// neither empty nor "unknown".
pub open spec fn searchable(list: Seq<Seq<char>>) -> bool {
    list.len() > 0 && list[0].len() > 0 && list[0] != unknown_name()
}

fn texts_same(a: &Vec<String>, b: &Vec<String>) -> (r: bool)
    ensures
        r == (a@.map_values(|s: String| s@) == b@.map_values(|s: String| s@)),
{
    if a.len() != b.len() {
        proof {
            assert(a@.map_values(|s: String| s@).len() != b@.map_values(|s: String| s@).len());
        }
        return false;
    }
    let mut i: usize = 0;
    while i < a.len()
        invariant
            a@.len() == b@.len(),
            i <= a@.len(),
            forall|j: int| 0 <= j < i ==> a@[j]@ == b@[j]@,
        decreases a@.len() - i,
    {
        if !same_text(a[i].as_str(), b[i].as_str()) {
            proof {
                assert(a@.map_values(|s: String| s@)[i as int] != b@.map_values(|s: String| s@)[i as int]);
            }
            return false;
        }
        i = i + 1;
    }
    proof {
        assert(a@.map_values(|s: String| s@) =~= b@.map_values(|s: String| s@));
    }
    true
}

impl SmashBrogEngine {
    /// The characters shown, as text.
    pub open spec fn prev_charas(&self) -> Seq<Seq<char>> {
        self.prev_find_chara_list@.map_values(|s: String| s@)
    }

    /// Starts from the latest stored battles `latest` (newest first): the
    /// characters of the newest one are shown when it was one-on-one with
    /// both characters known.
    pub fn new(latest: &Vec<SmashbrosData>) -> (r: SmashBrogEngine)
        requires
            latest@.len() > 0 && latest@[0].player_count() == 2 ==> latest@[0].all_checkable(),
        ensures
            r.prev_saved_time is None,
            r.prev_charas() == first_chara_list(latest@),
    {
        let mut list: Vec<String> = Vec::new();
        if latest.len() > 0 && latest[0].get_player_count() == 2 {
            let d = &latest[0];
            if d.all_decided_character_name() {
                list.push(d.get_character(0));
                list.push(d.get_character(1));
            }
        }
        proof {
            assert(list@.map_values(|s: String| s@) =~= first_chara_list(latest@));
        }
        SmashBrogEngine { prev_saved_time: None, prev_find_chara_list: list }
    }

    /// Decides whether the history views are read again for the record
    /// `now_data` being shown: when its characters are the ones shown
    /// before and it was not stored again since (or not at all), nothing is
    /// read; otherwise the latest battles are read, and the battles against
    /// the characters shown before when they can be searched for; the
    /// characters and storing time are remembered.
    pub fn update_now_data(&mut self, now_data: &SmashbrosData) -> (r: Refresh)
        ensures
            ({
                let charas = seq![chara_name(*now_data, 0), chara_name(*now_data, 1)];
                let same_charas = charas == old(self).prev_charas();
                if same_charas && (now_data.saved_time() is None || old(self).prev_saved_time
                    == now_data.saved_time()) {
                    &&& r == Refresh { latest: false, by_chara: false }
                    &&& final(self).prev_charas() == old(self).prev_charas()
                    &&& final(self).prev_saved_time == old(self).prev_saved_time
                } else {
                    &&& r == Refresh { latest: true, by_chara: searchable(old(self).prev_charas()) }
                    &&& final(self).prev_charas() == charas
                    &&& final(self).prev_saved_time == if same_charas {
                        now_data.saved_time()
                    } else {
                        old(self).prev_saved_time
                    }
                }
            }),
    {
        let mut charas: Vec<String> = Vec::new();
        charas.push(now_data.get_character(0));
        charas.push(now_data.get_character(1));
        proof {
            assert(charas@.map_values(|s: String| s@) =~= seq![chara_name(*now_data, 0), chara_name(*now_data, 1)]);
        }
        if texts_same(&charas, &self.prev_find_chara_list) {
            let saved = match now_data.get_saved_time() {
                None => {
                    return Refresh { latest: false, by_chara: false };
                },
                Some(t) => t,
            };
            if self.prev_saved_time == Some(saved) {
                return Refresh { latest: false, by_chara: false };
            }
            self.prev_saved_time = Some(saved);
        }
        let by_chara = self.prev_find_chara_list.len() > 0 && self.prev_find_chara_list[0].as_str().unicode_len()
            > 0 && !same_text(self.prev_find_chara_list[0].as_str(), "unknown");
        proof {
            reveal_strlit("unknown");
        }
        self.prev_find_chara_list = charas;
        Refresh { latest: true, by_chara }
    }
}

/// A change of the capture to `mode` is refused while `mode` is one of the
/// modes used when none was chosen (there is nothing to capture from yet):
/// the error says so. The caller then opens the capture source of `mode`.
pub fn check_capture_mode(mode: &CaptureMode, labels: &CaptureLabels) -> (r: Result<(), String>)
    ensures
        default_modes(*labels).contains(mode_view(*mode)) ==> (r matches Err(e) && e@ == "is default capture mode"@),
        !default_modes(*labels).contains(mode_view(*mode)) ==> r is Ok,
{
    if mode.is_default(labels) {
        return Err(String::from_str("is default capture mode"));
    }
    Ok(())
}

} // verus!

