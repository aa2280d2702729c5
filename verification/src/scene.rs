//! The scenes of the game as the recorder follows them: which scene each
//! detector looks for after which, where it leads, and what happens to the
//! battle records when the scene changes.
//!
//! Finding a scene in a frame is template matching done by the caller; the
//! caller reports each scene found, and the state here decides the rest.

use vstd::prelude::*;
use crate::data::{BattleRule, SmashbrosData, copy_of, guessers_same, header_same, lists_same, opt_guessers_same, opt_view};
use crate::frame_store::{CaptureFrameStore, RecordStep, frame_recorded};

verus! {

/// The scenes, and the events that are raised like scene changes.
#[derive(Clone, Copy, Debug, PartialEq, Eq, Structural)]
pub enum SceneList {
    ReadyToFight,
    Matching,
    HamVsSpam,
    GameStart,
    GamePlaying,
    GameEnd,
    Result,
    Dialog,
    Loading,
    Unknown,
    DecidedRules,
    DecidedBgm,
    EndResultReplay,
}

impl SceneList {
    /// The number of a scene: its place in the list, from 0.
    pub open spec fn id_spec(self) -> i32 {
        match self {
            SceneList::ReadyToFight => 0,
            SceneList::Matching => 1,
            SceneList::HamVsSpam => 2,
            SceneList::GameStart => 3,
            SceneList::GamePlaying => 4,
            SceneList::GameEnd => 5,
            SceneList::Result => 6,
            SceneList::Dialog => 7,
            SceneList::Loading => 8,
            SceneList::Unknown => 9,
            SceneList::DecidedRules => 10,
            SceneList::DecidedBgm => 11,
            SceneList::EndResultReplay => 12,
        }
    }

    /// The number of this scene.
    pub fn id(self) -> (r: i32)
        ensures
            r == self.id_spec(),
    {
        match self {
            SceneList::ReadyToFight => 0,
            SceneList::Matching => 1,
            SceneList::HamVsSpam => 2,
            SceneList::GameStart => 3,
            SceneList::GamePlaying => 4,
            SceneList::GameEnd => 5,
            SceneList::Result => 6,
            SceneList::Dialog => 7,
            SceneList::Loading => 8,
            SceneList::Unknown => 9,
            SceneList::DecidedRules => 10,
            SceneList::DecidedBgm => 11,
            SceneList::EndResultReplay => 12,
        }
    }

    /// The scene with number `scene_id`; Unknown for a number no scene has.
    pub fn to_scene_list(scene_id: i32) -> (r: SceneList)
        ensures
            0 <= scene_id <= 12 ==> r.id_spec() == scene_id,
            !(0 <= scene_id <= 12) ==> r == SceneList::Unknown,
    {
        match scene_id {
            0 => SceneList::ReadyToFight,
            1 => SceneList::Matching,
            2 => SceneList::HamVsSpam,
            3 => SceneList::GameStart,
            4 => SceneList::GamePlaying,
            5 => SceneList::GameEnd,
            6 => SceneList::Result,
            7 => SceneList::Dialog,
            8 => SceneList::Loading,
            9 => SceneList::Unknown,
            10 => SceneList::DecidedRules,
            11 => SceneList::DecidedBgm,
            12 => SceneList::EndResultReplay,
            _ => SceneList::Unknown,
        }
    }
}

impl Default for SceneList {
    fn default() -> (r: SceneList)
        ensures
            r == SceneList::Unknown,
    {
        SceneList::Unknown
    }
}

/// Whether the detector of `scene` looks for it while `now` is the scene.
pub open spec fn continue_match_spec(scene: SceneList, now: SceneList) -> bool {
    match scene {
        SceneList::ReadyToFight => now != SceneList::ReadyToFight,
        SceneList::Matching => now == SceneList::Unknown || now == SceneList::ReadyToFight || now
            == SceneList::GameEnd || now == SceneList::Result,
        SceneList::HamVsSpam => now == SceneList::Matching,
        SceneList::GameStart => now == SceneList::HamVsSpam,
        SceneList::GamePlaying => now == SceneList::GamePlaying,
        SceneList::GameEnd => now == SceneList::GamePlaying,
        SceneList::Result => now == SceneList::GameEnd,
        SceneList::Dialog => now == SceneList::Result,
        SceneList::Loading => true,
        _ => false,
    }
}

/// The scene that finding `scene` while `now` is the scene leads to.
pub open spec fn to_scene_spec(scene: SceneList, now: SceneList) -> SceneList {
    match scene {
        SceneList::ReadyToFight => SceneList::ReadyToFight,
        SceneList::Matching => SceneList::Matching,
        SceneList::HamVsSpam => SceneList::HamVsSpam,
        SceneList::GameStart => SceneList::GamePlaying,
        SceneList::GamePlaying => SceneList::GamePlaying,
        SceneList::GameEnd => SceneList::GameEnd,
        SceneList::Result => SceneList::Result,
        SceneList::Dialog => SceneList::Unknown,
        _ => now,
    }
}

/// Whether the detector of `scene` looks for it while `now` is the scene:
/// the ready-to-fight screen at any time but while it is shown, matching
/// from the start, the ready-to-fight screen, the end of a battle or its
/// result, each scene of a battle after the one before it, the dialog
/// after a result, loading screens always; other scenes have no detector.
pub fn continue_match(scene: SceneList, now: SceneList) -> (b: bool)
    ensures
        b == continue_match_spec(scene, now),
{
    match scene {
        SceneList::ReadyToFight => now != SceneList::ReadyToFight,
        SceneList::Matching => now == SceneList::Unknown || now == SceneList::ReadyToFight || now
            == SceneList::GameEnd || now == SceneList::Result,
        SceneList::HamVsSpam => now == SceneList::Matching,
        SceneList::GameStart => now == SceneList::HamVsSpam,
        SceneList::GamePlaying => now == SceneList::GamePlaying,
        SceneList::GameEnd => now == SceneList::GamePlaying,
        SceneList::Result => now == SceneList::GameEnd,
        SceneList::Dialog => now == SceneList::Result,
        SceneList::Loading => true,
        _ => false,
    }
}

/// The scene that finding `scene` while `now` is the scene leads to: the
/// start of a battle leads to play, a dialog back to the beginning, a
/// loading screen (and a scene without a detector) nowhere; every other
/// scene leads to itself.
pub fn to_scene(scene: SceneList, now: SceneList) -> (r: SceneList)
    ensures
        r == to_scene_spec(scene, now),
{
    match scene {
        SceneList::ReadyToFight => SceneList::ReadyToFight,
        SceneList::Matching => SceneList::Matching,
        SceneList::HamVsSpam => SceneList::HamVsSpam,
        SceneList::GameStart => SceneList::GamePlaying,
        SceneList::GamePlaying => SceneList::GamePlaying,
        SceneList::GameEnd => SceneList::GameEnd,
        SceneList::Result => SceneList::Result,
        SceneList::Dialog => SceneList::Unknown,
        _ => now,
    }
}

/// The scene whose state is not known: the first scene, which nothing
/// looks for, which leads nowhere and records nothing.
#[derive(Clone, Copy, Debug, Default, PartialEq, Eq, Structural)]
pub struct UnknownScene {}

impl UnknownScene {
    /// The number of the scene.
    pub fn get_id(&self) -> (r: i32)
        ensures
            r == SceneList::Unknown.id_spec(),
    {
        SceneList::Unknown.id()
    }

    /// The scene is never looked for.
    pub fn continue_match(&self, now_scene: SceneList) -> (b: bool)
        ensures
            !b,
    {
        continue_match(SceneList::Unknown, now_scene)
    }

    /// The scene is never found.
    pub fn is_scene(&self) -> (b: bool)
        ensures
            !b,
    {
        false
    }

    /// The scene leads nowhere.
    pub fn to_scene(&self, now_scene: SceneList) -> (r: SceneList)
        ensures
            r == now_scene,
    {
        to_scene(SceneList::Unknown, now_scene)
    }

    /// Nothing is recorded in the scene.
    pub fn is_recoded(&self) -> (b: bool)
        ensures
            !b,
    {
        false
    }
}

/// What the caller has to do with the finished battle's record after the
/// replay of its result ended.
#[derive(Clone, Copy, Debug, PartialEq, Eq, Structural)]
pub enum RecordAction {
    /// Nothing.
    Nothing,
    /// Store the record, which was not stored yet.
    Store,
    /// Update the stored record.
    Update,
}

/// The scene being followed and the battle records: the record of the
/// battle being matched or played, and, from the end of a battle until the
/// replay of its result ended, the record of that battle.
#[derive(Debug)]
pub struct SceneManager {
    pub now_scene: SceneList,
    pub smashbros_data: SmashbrosData,
    pub sub_smashbros_data: Option<SmashbrosData>,
    pub replay_event_fired: bool,
    pub rules_event_fired: bool,
}

/// The record a detector of `scene` works on: the battle being matched for
/// the matching screen, otherwise the finished battle's record while there
/// is one, else the current record.
pub open spec fn data_for(main: SmashbrosData, sub: Option<SmashbrosData>, scene: SceneList) -> SmashbrosData {
    if scene == SceneList::Matching {
        main
    } else if sub is Some {
        sub.unwrap()
    } else {
        main
    }
}

/// `copy` holds what `orig` holds, but for its id, which is `id`.
pub open spec fn relabelled_copy(copy: SmashbrosData, orig: SmashbrosData, id: Seq<char>) -> bool {
    &&& copy.id() == Some(id)
    &&& copy.saved_time() == orig.saved_time()
    &&& copy.start_time() == orig.start_time()
    &&& copy.end_time() == orig.end_time()
    &&& copy.player_count() == orig.player_count()
    &&& copy.rule() == orig.rule()
    &&& copy.max_time() == orig.max_time()
    &&& opt_guessers_same(copy.max_stocks(), orig.max_stocks())
    &&& opt_guessers_same(copy.max_hps(), orig.max_hps())
    &&& guessers_same(copy.charas(), orig.charas())
    &&& guessers_same(copy.groups(), orig.groups())
    &&& guessers_same(copy.stocks(), orig.stocks())
    &&& guessers_same(copy.orders(), orig.orders())
    &&& guessers_same(copy.powers(), orig.powers())
}

/// What the change from scene `from` to scene `to` does to a record at
/// time `now`: going from the versus screen to play starts the battle,
/// going from play to its end finishes it; other changes do nothing.
pub open spec fn scene_event_effect(before: SmashbrosData, after: SmashbrosData, from: SceneList, to: SceneList, now: i64) -> bool {
    if from == SceneList::HamVsSpam && to == SceneList::GamePlaying {
        &&& after.start_time() == Some(now)
        &&& after.id() == before.id()
        &&& after.saved_time() == before.saved_time()
        &&& after.end_time() == before.end_time()
        &&& after.player_count() == before.player_count()
        &&& after.rule() == before.rule()
        &&& after.max_time() == before.max_time()
        &&& lists_same(before, after)
    } else if from == SceneList::GamePlaying && to == SceneList::GameEnd {
        &&& after.end_time() == Some(now)
        &&& after.id() == before.id()
        &&& after.saved_time() == before.saved_time()
        &&& after.start_time() == before.start_time()
        &&& after.player_count() == before.player_count()
        &&& after.rule() == before.rule()
        &&& after.max_time() == before.max_time()
        &&& lists_same(before, after)
    } else {
        after == before
    }
}

impl SceneManager {
    /// Whether the result-replay event waits for a new result recording.
    pub open spec fn replay_fired(&self) -> bool {
        self.replay_event_fired
    }

    /// The rules event has fired and waits for the matching screen.
    pub open spec fn rules_fired(&self) -> bool {
        self.rules_event_fired
    }

    /// The record the current scene works on.
    pub open spec fn now_data(&self) -> SmashbrosData {
        data_for(self.smashbros_data, self.sub_smashbros_data, self.now_scene)
    }

    /// The start: no scene known, a fresh record (see
    /// `SmashbrosData::new`), no finished battle, the result-replay event
    /// waiting for a result recording, and the rules event waiting for the
    /// matching screen.
    pub fn new() -> (r: SceneManager)
        ensures
            r.now_scene == SceneList::Unknown,
            r.smashbros_data.fresh_record(),
            r.sub_smashbros_data is None,
            r.replay_fired(),
            r.rules_fired(),
    {
        SceneManager {
            now_scene: SceneList::Unknown,
            smashbros_data: SmashbrosData::new(),
            sub_smashbros_data: None,
            replay_event_fired: true,
            rules_event_fired: true,
        }
    }

    /// The rules event, checked once per frame: once fired, it is armed
    /// again when the matching screen is followed; once armed, it fires
    /// when the rules of the record the current scene works on are known,
    /// and then sets every player's stock to the stock limit in a stock or
    /// stamina battle (see `set_initial_stocks`). Returns whether it fired.
    pub fn update_rules_event(&mut self) -> (fired: bool)
        requires
            old(self).now_data().wf(),
            old(self).now_data().player_count() <= old(self).now_data().slots(),
        ensures
            rules_event_step(*old(self), *final(self), fired),
    {
        if self.rules_event_fired {
            if self.now_scene == SceneList::Matching {
                self.rules_event_fired = false;
            }
            return false;
        }
        if !self.ref_now_data().is_decided_rule_all_clause() {
            return false;
        }
        self.rules_event_fired = true;
        if self.now_scene == SceneList::Matching {
            self.smashbros_data.set_initial_stocks();
        } else {
            match &mut self.sub_smashbros_data {
                Some(sub) => sub.set_initial_stocks(),
                None => self.smashbros_data.set_initial_stocks(),
            }
        }
        true
    }

    /// The record the current scene works on.
    pub fn ref_now_data(&self) -> (r: &SmashbrosData)
        ensures
            *r == self.now_data(),
    {
        if self.now_scene == SceneList::Matching {
            &self.smashbros_data
        } else {
            match &self.sub_smashbros_data {
                Some(sub) => sub,
                None => &self.smashbros_data,
            }
        }
    }

    /// The current scene.
    pub fn get_now_scene(&self) -> (r: SceneList)
        ensures
            r == self.now_scene,
    {
        self.now_scene
    }

    /// A copy of the record the current scene works on, given the stand-in
    /// id `dummy_id` so that whoever shows it does not store it again.
    pub fn get_now_data(&self) -> (r: SmashbrosData)
        ensures
            relabelled_copy(r, self.now_data(), "dummy_id"@),
    {
        let mut cloned_data = self.ref_now_data().duplicate();
        cloned_data.set_id(Some(String::from_str("dummy_id")));
        cloned_data
    }

    /// Applies the change from `from` to `to` to the record a detector of
    /// `scene` works on.
    fn fire_scene_event(&mut self, scene: SceneList, from: SceneList, to: SceneList, now: i64)
        ensures
            final(self).now_scene == old(self).now_scene,
            final(self).replay_fired() == old(self).replay_fired(),
            final(self).rules_fired() == old(self).rules_fired(),
            scene_event_effect(
                data_for(old(self).smashbros_data, old(self).sub_smashbros_data, scene),
                data_for(final(self).smashbros_data, final(self).sub_smashbros_data, scene),
                from,
                to,
                now,
            ),
            scene == SceneList::Matching || old(self).sub_smashbros_data is None ==> {
                &&& final(self).sub_smashbros_data == old(self).sub_smashbros_data
            },
            scene != SceneList::Matching && old(self).sub_smashbros_data is Some ==> {
                &&& final(self).smashbros_data == old(self).smashbros_data
                &&& final(self).sub_smashbros_data is Some
            },
    {
        let starts = from == SceneList::HamVsSpam && to == SceneList::GamePlaying;
        let ends = from == SceneList::GamePlaying && to == SceneList::GameEnd;
        if !starts && !ends {
            return;
        }
        if scene != SceneList::Matching {
            if let Some(sub) = &mut self.sub_smashbros_data {
                if starts {
                    sub.start_battle_at(now);
                } else {
                    sub.finish_battle_at(now);
                }
                return;
            }
        }
        if starts {
            self.smashbros_data.start_battle_at(now);
        } else {
            self.smashbros_data.finish_battle_at(now);
        }
    }

    /// The detector of `scene` found its scene at time `now`. Nothing
    /// happens unless it looks for its scene in the current one; otherwise
    /// the change to the scene it leads to is applied to the record it works
    /// on, at the end of a battle the battle's record is kept as the
    /// finished battle's, and the scene changes.
    pub fn scene_found(&mut self, scene: SceneList, now: i64)
        ensures
            !continue_match_spec(scene, old(self).now_scene) ==> *final(self) == *old(self),
            continue_match_spec(scene, old(self).now_scene) ==> {
                let to = to_scene_spec(scene, old(self).now_scene);
                &&& final(self).now_scene == to
                &&& final(self).replay_fired() == old(self).replay_fired()
                &&& final(self).rules_fired() == old(self).rules_fired()
                &&& exists|mid: SceneManager| #[trigger]
                    scene_found_steps(*old(self), mid, *final(self), scene, to, now)
            },
    {
        if !continue_match(scene, self.now_scene) {
            return;
        }
        let to = to_scene(scene, self.now_scene);
        let from = self.now_scene;
        self.fire_scene_event(scene, from, to, now);
        let ghost mid = *self;
        if to == SceneList::GameEnd {
            self.sub_smashbros_data = Some(self.smashbros_data.duplicate());
        }
        self.now_scene = to;
        proof {
            assert(scene_found_steps(*old(self), mid, *self, scene, to, now));
        }
    }

    /// The result-replay event, checked once per frame: while it waits, a
    /// finished result recording (`result_recorded`) arms it; once armed, it
    /// fires when the replay of the result ended (`replay_end`) and there is
    /// a finished battle's record, asking for that record to be stored (or
    /// updated when it was stored before). After storing, the caller hands
    /// the outcome to `finish_replay`.
    pub fn update_replay_event(&mut self, result_recorded: bool, replay_end: bool) -> (r: RecordAction)
        ensures
            replay_event_step(*old(self), *final(self), result_recorded, replay_end, r),
    {
        if self.replay_event_fired {
            if result_recorded {
                self.replay_event_fired = false;
            }
            return RecordAction::Nothing;
        }
        if !replay_end {
            return RecordAction::Nothing;
        }
        match &self.sub_smashbros_data {
            Some(sub) => {
                self.replay_event_fired = true;
                if sub.get_id().is_some() {
                    RecordAction::Update
                } else {
                    RecordAction::Store
                }
            },
            None => RecordAction::Nothing,
        }
    }

    /// Ends the result-replay event at time `now`, after the finished
    /// battle's record was stored under `stored_id` (None when it was not
    /// stored or was updated): an unstored record takes the key and the
    /// time; when the current battle is over, the finished battle's record
    /// becomes the current one again; the finished battle's record is let go.
    pub fn finish_replay(&mut self, now: i64, stored_id: Option<String>)
        ensures
            final(self).now_scene == old(self).now_scene,
            final(self).replay_fired() == old(self).replay_fired(),
            final(self).rules_fired() == old(self).rules_fired(),
            final(self).sub_smashbros_data is None,
            old(self).sub_smashbros_data is None ==> final(self).smashbros_data == old(self).smashbros_data,
            old(self).sub_smashbros_data is Some ==> {
                &&& exists|saved: SmashbrosData| #[trigger]
                    saved.saved_from(old(self).sub_smashbros_data.unwrap(), now, opt_view(stored_id)) && if old(
                        self,
                    ).smashbros_data.finished_at(now) {
                        copy_of(final(self).smashbros_data, saved)
                    } else {
                        final(self).smashbros_data == old(self).smashbros_data
                    }
            },
    {
        match &mut self.sub_smashbros_data {
            Some(sub) => {
                sub.save_battle_at(now, stored_id);
            },
            None => {
                return;
            },
        }
        let ghost saved = self.sub_smashbros_data.unwrap();
        if self.smashbros_data.is_finished_battle_at(now) {
            match &self.sub_smashbros_data {
                Some(sub) => {
                    self.smashbros_data = sub.duplicate();
                },
                None => {},
            }
        }
        self.sub_smashbros_data = None;
        proof {
            assert(saved.saved_from(old(self).sub_smashbros_data.unwrap(), now, opt_view(stored_id)));
        }
    }
}

/// One way through `scene_found(scene, now)` leading to `to`: `mid` after
/// the change is applied to the record the detector works on; then, at the
/// end of a battle, the battle's record is copied as the finished battle's.
pub open spec fn scene_found_steps(
    before: SceneManager,
    mid: SceneManager,
    after: SceneManager,
    scene: SceneList,
    to: SceneList,
    now: i64,
) -> bool {
    &&& scene_event_effect(
        data_for(before.smashbros_data, before.sub_smashbros_data, scene),
        data_for(mid.smashbros_data, mid.sub_smashbros_data, scene),
        before.now_scene,
        to,
        now,
    )
    &&& (scene == SceneList::Matching || before.sub_smashbros_data is None ==> mid.sub_smashbros_data
        == before.sub_smashbros_data)
    &&& (scene != SceneList::Matching && before.sub_smashbros_data is Some ==> mid.smashbros_data
        == before.smashbros_data && mid.sub_smashbros_data is Some)
    &&& after.smashbros_data == mid.smashbros_data
    &&& if to == SceneList::GameEnd {
        after.sub_smashbros_data is Some && copy_of(after.sub_smashbros_data.unwrap(), mid.smashbros_data)
    } else {
        after.sub_smashbros_data == mid.sub_smashbros_data
    }
}

/// A battle goes round the scenes: in every scene from which a new battle
/// can begin (before any battle, at READY to FIGHT, at a battle's end and
/// on its result screen) the matching screen is looked for and leads to
/// the matching scene; from there the versus screen, the count-down, the
/// end of the battle and the result screen are each looked for in turn
/// and lead on, and from the result screen the next matching screen is
/// looked for again.
pub proof fn lemma_battle_round(start: SceneList)
    requires
        start == SceneList::Unknown || start == SceneList::ReadyToFight || start == SceneList::GameEnd || start
            == SceneList::Result,
    ensures
        continue_match_spec(SceneList::Matching, start),
        to_scene_spec(SceneList::Matching, start) == SceneList::Matching,
        continue_match_spec(SceneList::HamVsSpam, SceneList::Matching),
        to_scene_spec(SceneList::HamVsSpam, SceneList::Matching) == SceneList::HamVsSpam,
        continue_match_spec(SceneList::GameStart, SceneList::HamVsSpam),
        to_scene_spec(SceneList::GameStart, SceneList::HamVsSpam) == SceneList::GamePlaying,
        continue_match_spec(SceneList::GameEnd, SceneList::GamePlaying),
        to_scene_spec(SceneList::GameEnd, SceneList::GamePlaying) == SceneList::GameEnd,
        continue_match_spec(SceneList::Result, SceneList::GameEnd),
        to_scene_spec(SceneList::Result, SceneList::GameEnd) == SceneList::Result,
        continue_match_spec(SceneList::Matching, SceneList::Result),
{
}

/// A battle being matched or played is not broken off by the matching
/// screen: from the matching scene until the battle has ended, the
/// matching screen is not looked for.
pub proof fn lemma_no_matching_during_battle(now: SceneList)
    requires
        now == SceneList::Matching || now == SceneList::HamVsSpam || now == SceneList::GameStart || now
            == SceneList::GamePlaying,
    ensures
        !continue_match_spec(SceneList::Matching, now),
{
}

/// Different scenes have different numbers, so a scene's number leads
/// back to it.
pub proof fn lemma_scene_id_round_trip(s: SceneList, r: SceneList)
    requires
        r.id_spec() == s.id_spec(),
    ensures
        r == s,
{
}

/// Every scene's number lies between 0 and 12.
pub proof fn lemma_scene_id_range(s: SceneList)
    ensures
        0 <= s.id_spec() <= 12,
{
}

/// How often the ready-to-fight screen is looked for during a battle: it
/// is skipped for this many frames after each look.
pub const READY_TO_FIGHT_SKIP: i32 = 10;

/// The pacing of the ready-to-fight detector: during a battle it looks
/// only once in every few frames.
#[derive(Clone, Copy, Debug, PartialEq, Eq, Structural)]
pub struct ReadyToFightGate {
    pub scene_judgment_skip_wait: i32,
}

impl ReadyToFightGate {
    /// Looking on every frame.
    pub fn new() -> (r: ReadyToFightGate)
        ensures
            r.scene_judgment_skip_wait == 0,
    {
        ReadyToFightGate { scene_judgment_skip_wait: 0 }
    }

    /// Whether to look for the screen on this frame, `playing` telling that
    /// a battle is going on: during a battle a look is followed by
    /// `READY_TO_FIGHT_SKIP` skipped frames; outside one, every frame is
    /// looked at.
    pub fn should_match(&mut self, playing: bool) -> (r: bool)
        requires
            0 <= old(self).scene_judgment_skip_wait <= READY_TO_FIGHT_SKIP,
        ensures
            0 <= final(self).scene_judgment_skip_wait <= READY_TO_FIGHT_SKIP,
            pacing_step(*old(self), *final(self), playing, r),
    {
        if playing {
            if 0 < self.scene_judgment_skip_wait {
                self.scene_judgment_skip_wait = self.scene_judgment_skip_wait - 1;
                return false;
            }
            self.scene_judgment_skip_wait = READY_TO_FIGHT_SKIP;
        } else if 0 < self.scene_judgment_skip_wait {
            self.scene_judgment_skip_wait = 0;
        }
        true
    }
}

/// One frame of the ready-to-fight pacing: whether it looked (`r`) and the
/// frames left to skip after it.
pub open spec fn pacing_step(before: ReadyToFightGate, after: ReadyToFightGate, playing: bool, r: bool) -> bool {
    if playing {
        if before.scene_judgment_skip_wait > 0 {
            !r && after.scene_judgment_skip_wait == before.scene_judgment_skip_wait - 1
        } else {
            r && after.scene_judgment_skip_wait == READY_TO_FIGHT_SKIP
        }
    } else {
        r && after.scene_judgment_skip_wait == 0
    }
}

/// During a battle, a look at the ready-to-fight screen is followed by
/// exactly `READY_TO_FIGHT_SKIP` frames without one: over frames of play
/// after a look, frames 0 to 9 are skipped and frame 10 is looked at.
pub proof fn lemma_ready_to_fight_pacing(states: Seq<ReadyToFightGate>, looks: Seq<bool>)
    requires
        states.len() == looks.len() + 1,
        states[0].scene_judgment_skip_wait == READY_TO_FIGHT_SKIP,
        forall|i: int| 0 <= i < looks.len() ==> pacing_step(states[i], states[i + 1], true, #[trigger] looks[i]),
    ensures
        forall|i: int| 0 <= i < looks.len() && i < READY_TO_FIGHT_SKIP ==> !#[trigger] looks[i],
        looks.len() > READY_TO_FIGHT_SKIP ==> looks[READY_TO_FIGHT_SKIP as int],
{
    assert forall|i: int| 0 <= i <= looks.len() && i <= READY_TO_FIGHT_SKIP implies #[trigger] states[i].scene_judgment_skip_wait
        == READY_TO_FIGHT_SKIP - i by {
        lemma_pacing_count(states, looks, i);
    }
    assert forall|i: int| 0 <= i < looks.len() && i < READY_TO_FIGHT_SKIP implies !#[trigger] looks[i] by {
        assert(states[i].scene_judgment_skip_wait == READY_TO_FIGHT_SKIP - i);
        assert(pacing_step(states[i], states[i + 1], true, looks[i]));
    }
    if looks.len() > READY_TO_FIGHT_SKIP {
        assert(states[READY_TO_FIGHT_SKIP as int].scene_judgment_skip_wait == 0);
        assert(pacing_step(states[READY_TO_FIGHT_SKIP as int], states[READY_TO_FIGHT_SKIP + 1], true, looks[READY_TO_FIGHT_SKIP as int]));
    }
}

proof fn lemma_pacing_count(states: Seq<ReadyToFightGate>, looks: Seq<bool>, i: int)
    requires
        states.len() == looks.len() + 1,
        states[0].scene_judgment_skip_wait == READY_TO_FIGHT_SKIP,
        forall|j: int| 0 <= j < looks.len() ==> pacing_step(states[j], states[j + 1], true, #[trigger] looks[j]),
        0 <= i <= looks.len(),
        i <= READY_TO_FIGHT_SKIP,
    ensures
        states[i].scene_judgment_skip_wait == READY_TO_FIGHT_SKIP - i,
    decreases i,
{
    if i > 0 {
        lemma_pacing_count(states, looks, i - 1);
        assert(pacing_step(states[i - 1], states[i], true, looks[i - 1]));
    }
}

/// The start of a battle is taken when the count-down mark, once found,
/// is gone again.
#[derive(Clone, Copy, Debug, PartialEq, Eq, Structural)]
pub struct GameStartGate {
    pub is_scene: bool,
}

impl GameStartGate {
    /// The mark not seen yet.
    pub fn new() -> (r: GameStartGate)
        ensures
            !r.is_scene,
    {
        GameStartGate { is_scene: false }
    }

    /// One frame, `near` telling whether the count-down mark is found in
    /// it: the battle has started when the mark was found before and is
    /// gone now.
    pub fn step(&mut self, near: bool) -> (started: bool)
        ensures
            start_step(*old(self), *final(self), near, started),
    {
        if near {
            self.is_scene = true;
            return false;
        }
        if self.is_scene {
            self.is_scene = false;
            return true;
        }
        false
    }
}

/// Whether the stock warning is due when the rules event fires: the first
/// player's stock limit is known and below `under`, the stock count from
/// which on the player wants to be warned.
pub fn stock_alert_due(data: &SmashbrosData, under: i32) -> (b: bool)
    ensures
        b == (data.decided_max_stock(0) && data.max_stock_of(0) < under),
{
    data.is_decided_max_stock(0) && data.get_max_stock(0) < under
}

/// One check of the rules event: a fired event asks for nothing and is
/// armed again on the matching screen; an armed event fires when the rules
/// of the record the current scene works on are known, setting the initial
/// stocks of that record (the other record is left as it is); otherwise
/// nothing changes. The scene and the replay event are untouched.
pub open spec fn rules_event_step(before: SceneManager, after: SceneManager, fired: bool) -> bool {
    &&& after.now_scene == before.now_scene
    &&& after.replay_fired() == before.replay_fired()
    &&& if before.rules_fired() {
        &&& !fired
        &&& after.rules_fired() == (before.now_scene != SceneList::Matching)
        &&& after.smashbros_data == before.smashbros_data
        &&& after.sub_smashbros_data == before.sub_smashbros_data
    } else if before.now_data().rules_decided() {
        &&& fired
        &&& after.rules_fired()
        &&& SmashbrosData::initial_stocks_set(before.now_data(), after.now_data())
        &&& (before.now_scene == SceneList::Matching || before.sub_smashbros_data is None ==> after.sub_smashbros_data
            == before.sub_smashbros_data)
        &&& (before.now_scene != SceneList::Matching && before.sub_smashbros_data is Some ==> {
            &&& after.smashbros_data == before.smashbros_data
            &&& after.sub_smashbros_data is Some
        })
    } else {
        &&& !fired
        &&& after.rules_fired() == before.rules_fired()
        &&& after.smashbros_data == before.smashbros_data
        &&& after.sub_smashbros_data == before.sub_smashbros_data
    }
}

/// The rules event sets the initial stocks at most once per matching
/// screen: over a run of checks (`before[k]` and `after[k]` the manager
/// around check `k`, anything else done between checks keeping the event's
/// state), between two checks that fire there is a check made on the
/// matching screen.
pub proof fn lemma_rules_event_once_per_matching(
    before: Seq<SceneManager>,
    after: Seq<SceneManager>,
    fired: Seq<bool>,
    i: int,
    j: int,
)
    requires
        before.len() == fired.len(),
        after.len() == fired.len(),
        forall|k: int| 0 <= k < fired.len() ==> rules_event_step(before[k], after[k], #[trigger] fired[k]),
        forall|k: int| 0 < k < fired.len() ==> (#[trigger] before[k]).rules_fired() == after[k - 1].rules_fired(),
        0 <= i < j < fired.len(),
        fired[i],
        fired[j],
    ensures
        exists|k: int| i < k < j && (#[trigger] before[k]).now_scene == SceneList::Matching,
{
    assert(rules_event_step(before[i], after[i], fired[i]));
    if !(exists|k: int| i < k < j && (#[trigger] before[k]).now_scene == SceneList::Matching) {
        lemma_rules_stay_fired(before, after, fired, i, j);
        assert(rules_event_step(before[j], after[j], fired[j]));
    }
}

/// Once the rules event fired at check `i`, it is still fired at check `m`
/// while no check in between is made on the matching screen.
proof fn lemma_rules_stay_fired(before: Seq<SceneManager>, after: Seq<SceneManager>, fired: Seq<bool>, i: int, m: int)
    requires
        before.len() == fired.len(),
        after.len() == fired.len(),
        forall|k: int| 0 <= k < fired.len() ==> rules_event_step(before[k], after[k], #[trigger] fired[k]),
        forall|k: int| 0 < k < fired.len() ==> (#[trigger] before[k]).rules_fired() == after[k - 1].rules_fired(),
        0 <= i < m < fired.len(),
        after[i].rules_fired(),
        forall|k: int| i < k < m ==> (#[trigger] before[k]).now_scene != SceneList::Matching,
    ensures
        before[m].rules_fired(),
    decreases m - i,
{
    assert(before[m].rules_fired() == after[m - 1].rules_fired());
    if m > i + 1 {
        lemma_rules_stay_fired(before, after, fired, i, m - 1);
        assert(before[m - 1].now_scene != SceneList::Matching);
        assert(rules_event_step(before[m - 1], after[m - 1], fired[m - 1]));
    }
}

/// One check of the result-replay event, with `recorded` telling that a
/// result recording finished and `ended` that the replay of the result
/// ended: a fired event is armed again by a finished recording and asks
/// for nothing; an armed event fires when the replay ended and there is a
/// finished battle's record, asking to store it (or to update it when it
/// has a key), and otherwise waits. Nothing else changes.
pub open spec fn replay_event_step(before: SceneManager, after: SceneManager, recorded: bool, ended: bool, r: RecordAction) -> bool {
    &&& after.now_scene == before.now_scene
    &&& after.smashbros_data == before.smashbros_data
    &&& after.sub_smashbros_data == before.sub_smashbros_data
    &&& after.rules_fired() == before.rules_fired()
    &&& before.replay_fired() ==> {
        &&& after.replay_fired() == !recorded
        &&& r == RecordAction::Nothing
    }
    &&& !before.replay_fired() ==> if ended && before.sub_smashbros_data is Some {
        &&& after.replay_fired()
        &&& r == if before.sub_smashbros_data.unwrap().id() is Some {
            RecordAction::Update
        } else {
            RecordAction::Store
        }
    } else {
        &&& !after.replay_fired()
        &&& r == RecordAction::Nothing
    }
}

/// The result-replay event asks for a record to be stored at most once per
/// result recording: between two checks that ask for something there is a
/// check in which a result recording finished.
pub proof fn lemma_replay_event_once_per_recording(
    states: Seq<SceneManager>,
    recorded: Seq<bool>,
    ended: Seq<bool>,
    actions: Seq<RecordAction>,
    i: int,
    j: int,
)
    requires
        states.len() == actions.len() + 1,
        recorded.len() == actions.len(),
        ended.len() == actions.len(),
        forall|k: int|
            0 <= k < actions.len() ==> replay_event_step(states[k], states[k + 1], recorded[k], ended[k], #[trigger] actions[k]),
        0 <= i < j < actions.len(),
        actions[i] != RecordAction::Nothing,
        actions[j] != RecordAction::Nothing,
    ensures
        exists|k: int| i < k < j && #[trigger] recorded[k],
{
    assert(replay_event_step(states[i], states[i + 1], recorded[i], ended[i], actions[i]));
    if !(exists|k: int| i < k < j && #[trigger] recorded[k]) {
        lemma_replay_stays_fired(states, recorded, ended, actions, i, j);
        assert(replay_event_step(states[j], states[j + 1], recorded[j], ended[j], actions[j]));
    }
}

/// Once fired at check `i`, the event stays fired up to check `m` while no
/// result recording finishes in between.
proof fn lemma_replay_stays_fired(
    states: Seq<SceneManager>,
    recorded: Seq<bool>,
    ended: Seq<bool>,
    actions: Seq<RecordAction>,
    i: int,
    m: int,
)
    requires
        states.len() == actions.len() + 1,
        recorded.len() == actions.len(),
        ended.len() == actions.len(),
        forall|k: int|
            0 <= k < actions.len() ==> replay_event_step(states[k], states[k + 1], recorded[k], ended[k], #[trigger] actions[k]),
        0 <= i < m < states.len(),
        states[i + 1].replay_fired(),
        forall|k: int| i < k < m ==> !#[trigger] recorded[k],
    ensures
        states[m].replay_fired(),
    decreases m - i,
{
    if m > i + 1 {
        lemma_replay_stays_fired(states, recorded, ended, actions, i, m - 1);
        assert(!recorded[m - 1]);
        assert(replay_event_step(states[m - 1], states[m], recorded[m - 1], ended[m - 1], actions[m - 1]));
    }
}

/// One frame of the count-down watch: the battle started (`started`) when
/// the mark was seen before and is gone now; the mark is remembered as seen
/// exactly when it is in this frame.
pub open spec fn start_step(before: GameStartGate, after: GameStartGate, near: bool, started: bool) -> bool {
    &&& started == (before.is_scene && !near)
    &&& after.is_scene == near
}

/// Over a run of frames from the start, the battle is taken to start
/// exactly on the first frame without the count-down mark after a frame
/// with it: on frame `i` when frame `i - 1` showed the mark and frame `i`
/// does not, and on no other frame.
pub proof fn lemma_start_on_mark_gone(states: Seq<GameStartGate>, nears: Seq<bool>, starts: Seq<bool>)
    requires
        states.len() == nears.len() + 1,
        starts.len() == nears.len(),
        !states[0].is_scene,
        forall|i: int| 0 <= i < nears.len() ==> start_step(states[i], states[i + 1], nears[i], #[trigger] starts[i]),
    ensures
        forall|i: int| 0 <= i < nears.len() ==> #[trigger] starts[i] == (1 <= i && nears[i - 1] && !nears[i]),
{
    assert forall|i: int| 0 <= i < nears.len() implies #[trigger] starts[i] == (1 <= i && nears[i - 1] && !nears[i]) by {
        assert(start_step(states[i], states[i + 1], nears[i], starts[i]));
        if i >= 1 {
            assert(start_step(states[i - 1], states[i], nears[i - 1], starts[i - 1]));
        }
    }
}

/// What the matching screen found: a one-on-one, a battle of four, or a
/// tournament of either size.
pub open spec fn matched_players(one_on_one: bool, with_four: bool, tournament: bool, smash_tournament: bool) -> int {
    if one_on_one {
        2
    } else if with_four {
        4
    } else if tournament {
        2
    } else if smash_tournament {
        4
    } else {
        0
    }
}

/// The marks found on the matching screen give the number of players: a
/// one-on-one mark, plain or of a tournament, without a four-player mark
/// sets up two players; a four-player mark, plain or of a smash
/// tournament, without a one-on-one mark sets up four; no mark sets up
/// none. A record that does not await a battle is then set up for exactly
/// that many players.
pub proof fn lemma_players_from_marks(
    one_on_one: bool,
    with_four: bool,
    tournament: bool,
    smash_tournament: bool,
    before: SmashbrosData,
    mid: SmashbrosData,
    after: SmashbrosData,
    now: i64,
    stored_id: Option<Seq<char>>,
)
    ensures
        (one_on_one || tournament) && !with_four && !smash_tournament ==> matched_players(
            one_on_one,
            with_four,
            tournament,
            smash_tournament,
        ) == 2,
        (with_four || smash_tournament) && !one_on_one && !tournament ==> matched_players(
            one_on_one,
            with_four,
            tournament,
            smash_tournament,
        ) == 4,
        !one_on_one && !with_four && !tournament && !smash_tournament ==> matched_players(
            one_on_one,
            with_four,
            tournament,
            smash_tournament,
        ) == 0,
        SmashbrosData::initialize_steps(
            before,
            mid,
            after,
            matched_players(one_on_one, with_four, tournament, smash_tournament),
            now,
            stored_id,
        ) && !before.awaiting_battle() ==> after.player_count() == matched_players(
            one_on_one,
            with_four,
            tournament,
            smash_tournament,
        ),
{
}

/// The matching screen was looked at, at time `now`: when a one-on-one
/// (or a one-on-one tournament) was found, the record is set up for two
/// players, when a battle of four (or a tournament of four) was found, for
/// four (see `initialize_battle_at`, which stores a finished battle under
/// `stored_id`); returns whether a battle was found.
pub fn matching_found(
    smashbros_data: &mut SmashbrosData,
    one_on_one: bool,
    with_four: bool,
    tournament: bool,
    smash_tournament: bool,
    now: i64,
    stored_id: Option<String>,
) -> (found: bool)
    requires
        old(smashbros_data).slots() > 0,
    ensures
        found == (matched_players(one_on_one, with_four, tournament, smash_tournament) != 0),
        !found ==> *final(smashbros_data) == *old(smashbros_data),
        found ==> exists|mid: SmashbrosData| #[trigger]
            SmashbrosData::initialize_steps(
                *old(smashbros_data),
                mid,
                *final(smashbros_data),
                matched_players(one_on_one, with_four, tournament, smash_tournament),
                now,
                opt_view(stored_id),
            ),
{
    let n: i32 = if one_on_one {
        2
    } else if with_four {
        4
    } else if tournament {
        2
    } else if smash_tournament {
        4
    } else {
        0
    };
    if n == 0 {
        return false;
    }
    smashbros_data.initialize_battle_at(n, now, stored_id);
    true
}

/// Whether the stocks are looked for during play: in a one-on-one stock or
/// stamina battle whose stocks are not all decided.
pub fn game_playing_reads_stock(smashbros_data: &SmashbrosData) -> (b: bool)
    requires
        smashbros_data.wf(),
        smashbros_data.all_checkable(),
    ensures
        b == (smashbros_data.player_count() == 2 && (smashbros_data.rule() == BattleRule::Stock
            || smashbros_data.rule() == BattleRule::Stamina) && !smashbros_data.all_decided_stock_spec()),
{
    if smashbros_data.get_player_count() != 2 {
        return false;
    }
    match smashbros_data.get_rule() {
        BattleRule::Stock | BattleRule::Stamina => !smashbros_data.all_decided_stock(),
        _ => false,
    }
}

/// Whether the versus screen is looked for: not once every character is
/// decided.
pub fn ham_vs_spam_reads(smashbros_data: &SmashbrosData) -> (b: bool)
    requires
        smashbros_data.all_checkable(),
    ensures
        b == !smashbros_data.all_decided_character_spec(),
{
    !smashbros_data.all_decided_character_name()
}

/// Whether the result screen is looked at: not once every placing and
/// power is decided.
pub fn result_reads(smashbros_data: &SmashbrosData) -> (b: bool)
    requires
        smashbros_data.wf(),
        smashbros_data.all_checkable(),
    ensures
        b == !(smashbros_data.all_decided_power_spec() && smashbros_data.all_decided_order_spec()),
{
    !smashbros_data.all_decided_result()
}

/// How long the versus screen is recorded once found (milliseconds).
pub const HAM_VS_SPAM_RECORD_MS: i64 = 2500;

/// How long the result screen is recorded (milliseconds).
pub const RESULT_RECORD_MS: i64 = 3000;

/// What the caller does with the recorder for one frame: open the writer
/// (a recording started), then handle the frame as each step says.
#[derive(Debug)]
pub struct RecorderActions {
    pub open_writer: bool,
    pub steps: Vec<RecordStep>,
}

/// The versus screen was looked for at time `now`, `near` telling whether
/// it was found: once found, it is recorded for `HAM_VS_SPAM_RECORD_MS`
/// (a recording going on goes on) and the frame is recorded.
pub fn ham_vs_spam_found(store: &mut CaptureFrameStore, now: i64, near: bool) -> (r: RecorderActions)
    requires
        now <= i64::MAX - HAM_VS_SPAM_RECORD_MS,
        old(store).recoded_frame < i32::MAX,
    ensures
        !near ==> *final(store) == *old(store) && !r.open_writer && r.steps@.len() == 0,
        near ==> exists|mid: CaptureFrameStore, step: RecordStep| #[trigger]
            record_once(*old(store), mid, *final(store), now, HAM_VS_SPAM_RECORD_MS, r.open_writer, step) && r.steps@
                == seq![step],
{
    if !near {
        return RecorderActions { open_writer: false, steps: Vec::new() };
    }
    let ghost before = *store;
    let open_writer = store.start_recoding_by_time(now, HAM_VS_SPAM_RECORD_MS);
    let ghost mid = *store;
    let step = store.recoding_frame(now);
    let mut steps: Vec<RecordStep> = Vec::new();
    steps.push(step);
    proof {
        assert(steps@ =~= seq![step]);
    }
    let r = RecorderActions { open_writer, steps };
    proof {
        assert(frame_recorded(mid, *store, now, step));
        assert(record_once(before, mid, *store, now, HAM_VS_SPAM_RECORD_MS, r.open_writer, step));
    }
    r
}

/// One start of a recording for `duration` at `now` (which does nothing
/// while one goes on), then one captured frame.
pub open spec fn record_once(
    before: CaptureFrameStore,
    mid: CaptureFrameStore,
    after: CaptureFrameStore,
    now: i64,
    duration: i64,
    opened: bool,
    step: RecordStep,
) -> bool {
    &&& opened == !before.started_at(now)
    &&& (!opened ==> mid == before)
    &&& (opened ==> mid == CaptureFrameStore {
        writer_open: true,
        reader_open: false,
        filled_by_frame: false,
        recoded_frame: 0,
        recoding_start_time: Some(now),
        recoding_end_time: Some((now + duration) as i64),
        recoding_need_frame: None,
    })
    &&& frame_recorded(mid, after, now, step)
}

/// One start of a result recording and one frame, from `before` to
/// `after`, with the writer opened (`opened`) and the frame's step.
pub open spec fn result_record_once(before: CaptureFrameStore, after: CaptureFrameStore, now: i64, opened: bool, step: RecordStep) -> bool {
    exists|mid: CaptureFrameStore| #[trigger] record_once(before, mid, after, now, RESULT_RECORD_MS, opened, step)
}

/// The result screen was found at time `now` with the record `data`;
/// `order_near` tells whether a placing mark is found in the frame. Nothing
/// is recorded once every placing and power is decided, nor while a full
/// recording waits for its replay to end. Otherwise, when no recording
/// goes on, one of `RESULT_RECORD_MS` is started and the frame recorded;
/// and when a placing mark is found, the same again (a recording going on
/// goes on), so that the frame with the placings is in the recording.
pub fn result_found(
    store: &mut CaptureFrameStore,
    data: &SmashbrosData,
    now: i64,
    order_near: bool,
) -> (r: RecorderActions)
    requires
        data.wf(),
        data.all_checkable(),
        now <= i64::MAX - RESULT_RECORD_MS,
        old(store).recoded_frame < i32::MAX - 1,
    ensures
        ({
            let skip = (data.all_decided_power_spec() && data.all_decided_order_spec()) || (
            old(store).filled_by_frame && old(store).recoded_frame != -1);
            let first = !old(store).started_at(now);
            if skip || (!first && !order_near) {
                *final(store) == *old(store) && !r.open_writer && r.steps@.len() == 0
            } else if first && !order_near {
                result_record_once(*old(store), *final(store), now, r.open_writer, r.steps@[0]) && r.steps@.len() == 1
            } else if !first && order_near {
                result_record_once(*old(store), *final(store), now, r.open_writer, r.steps@[0]) && r.steps@.len() == 1
            } else {
                exists|s1: CaptureFrameStore, o1: bool, o2: bool|
                    #![trigger result_record_once(*old(store), s1, now, o1, r.steps@[0]), result_record_once(s1, *final(store), now, o2, r.steps@[1])]
                    result_record_once(*old(store), s1, now, o1, r.steps@[0]) && result_record_once(
                        s1,
                        *final(store),
                        now,
                        o2,
                        r.steps@[1],
                    ) && r.open_writer == (o1 || o2) && r.steps@.len() == 2
            }
        }),
{
    if data.all_decided_result() {
        return RecorderActions { open_writer: false, steps: Vec::new() };
    }
    if store.is_filled() && !store.is_replay_end() {
        return RecorderActions { open_writer: false, steps: Vec::new() };
    }
    let ghost s0 = *store;
    let mut open_writer = false;
    let mut steps: Vec<RecordStep> = Vec::new();
    let first = !store.is_recoding_started(now);
    let ghost mut st1 = RecordStep::Skip;
    if first {
        let opened = store.start_recoding_by_time(now, RESULT_RECORD_MS);
        let ghost m1 = *store;
        let step = store.recoding_frame(now);
        open_writer = opened;
        steps.push(step);
        proof {
            st1 = step;
            assert(frame_recorded(m1, *store, now, step));
            assert(record_once(s0, m1, *store, now, RESULT_RECORD_MS, opened, step));
        }
    }
    let ghost s1 = *store;
    let ghost o1 = open_writer;
    let ghost mut o2 = false;
    let ghost mut st2 = RecordStep::Skip;
    if order_near {
        let opened = store.start_recoding_by_time(now, RESULT_RECORD_MS);
        let ghost m2 = *store;
        let step = store.recoding_frame(now);
        open_writer = open_writer || opened;
        steps.push(step);
        proof {
            o2 = opened;
            st2 = step;
            assert(frame_recorded(m2, *store, now, step));
            assert(record_once(s1, m2, *store, now, RESULT_RECORD_MS, opened, step));
        }
    }
    let r = RecorderActions { open_writer, steps };
    proof {
        if first {
            assert(r.steps@[0] == st1);
            assert(result_record_once(s0, s1, now, o1, st1));
        }
        if order_near {
            if first {
                assert(r.steps@[1] == st2);
            } else {
                assert(r.steps@[0] == st2);
                assert(s1 == s0);
            }
            assert(result_record_once(s1, *store, now, o2, st2));
        }
    }
    r
}

} // verus!
