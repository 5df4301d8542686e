//! Rewind logic: per-entity histories of a component, recorded frame by frame,
//! and the steps that walk those histories backwards.
//!
//! The ECS wiring (queries, commands, schedules) lives outside this module; here every
//! operation takes what the world looked like as plain values and hands back what the
//! world should do as plain values.

use std::collections::VecDeque;
use vstd::prelude::*;

verus! {

/// The maximum number of frames a `History` stores before forgetting the oldest ones.
pub const MAX_STORAGE_FRAMES: usize = 600;

/// Describes the status of a component at a timestamp.
///
/// Timestamps of different values represent different component states.
/// i.e. if one frame has `Timestamp::Existent(1)` and the next `Timestamp::Existent(2)`
/// then the component must have been mutated in between.
#[derive(Debug, Clone, Copy, PartialEq, Eq, Structural)]
pub enum Timestamp {
    /// Entity had this component at this timestamp.
    Existent(usize),
    /// Entity didn't have this component at this timestamp.
    Nonexistent(usize),
}

impl Timestamp {
    /// The frame index carried by either variant.
    pub open spec fn frame(self) -> usize {
        match self {
            Timestamp::Existent(f) => f,
            Timestamp::Nonexistent(f) => f,
        }
    }

    /// The frame index carried by either variant.
    pub fn frame_index(&self) -> (f: usize)
        ensures
            f == self.frame(),
    {
        match self {
            Timestamp::Existent(f) => *f,
            Timestamp::Nonexistent(f) => *f,
        }
    }
}

/// Describes how frames are being stored in a `History`.
#[derive(Debug, Clone, Copy, PartialEq, Eq, Structural)]
pub enum HistoryStorageState {
    /// It has never been full; frames are being appended.
    Growing,
    /// It has been full and leaked a frame. This doesn't mean it's full right now.
    Leaking,
}

/// Decides what to do with the entity if `Rewind` reaches the beginning of its history.
#[derive(Debug, Clone, Copy, PartialEq, Eq, Structural)]
pub enum OutOfHistory {
    /// Terminates rewinding but keeps the `Rewind` component for the remaining frames.
    Pause,
    /// Terminates rewinding and removes the `Rewind` component.
    Resume,
    /// Despawns the entity.
    Despawn,
}

impl OutOfHistory {
    /// `Resume` is the default reaction.
    pub fn default_reaction() -> (o: OutOfHistory)
        ensures
            o == OutOfHistory::Resume,
    {
        OutOfHistory::Resume
    }
}

/// Causes the entity to step back in time a total of `frames` frames, at `fps` frames per tick.
#[derive(Debug, Clone, Copy, PartialEq, Eq, Structural)]
pub struct Rewind {
    pub frames: u32,
    pub fps: u32,
}

impl Rewind {
    /// No frames left, one frame per tick.
    pub fn new_default() -> (r: Rewind)
        ensures
            r.frames == 0,
            r.fps == 1,
    {
        Rewind { frames: 0, fps: 1 }
    }

    /// Sets `fps` to the number of frames to render in this tick, which may shrink if
    /// `fps > frames`, and sets `frames` to the number of frames left after this tick.
    pub fn update(&mut self)
        ensures
            *final(self) == updated(*old(self)),
    {
        if self.frames < self.fps {
            self.fps = self.frames;
        }
        self.frames = self.frames - self.fps;
    }
}

/// The marker after a tick's update: `fps` shrinks to the frames left, which then drop by `fps`.
pub open spec fn updated(r: Rewind) -> Rewind {
    let fps = if r.fps <= r.frames {
        r.fps
    } else {
        r.frames
    };
    Rewind { frames: (r.frames - fps) as u32, fps }
}

/// The marker after `k` tick updates.
pub open spec fn updated_n(r: Rewind, k: nat) -> Rewind
    decreases k,
{
    if k == 0 {
        r
    } else {
        updated(updated_n(r, (k - 1) as nat))
    }
}

/// The frames stepped back over `k` ticks.
pub open spec fn frames_stepped(r: Rewind, k: nat) -> nat
    decreases k,
{
    if k == 0 {
        0
    } else {
        frames_stepped(r, (k - 1) as nat) + updated_n(r, k).fps as nat
    }
}

/// How many frames of the game have ran.
#[derive(Debug, Clone, Copy, PartialEq, Eq, Structural)]
pub struct Frame(pub usize);

impl Frame {
    /// Counts one more frame.
    pub fn advance(&mut self)
        requires
            old(self).0 < usize::MAX,
        ensures
            final(self).0 == old(self).0 + 1,
    {
        self.0 = self.0 + 1;
    }
}

/// Stores the `Timestamp`s for a component over the last `MAX_STORAGE_FRAMES` frames.
pub struct History<T> {
    /// `Timestamp`s, oldest first.
    pub frames: VecDeque<Timestamp>,
    /// Component states. Each value of a `Timestamp::Existent` refers to a state of the
    /// component from this deque, where earlier states are located at the front.
    pub components: VecDeque<T>,
    /// How frames are being stored in `frames`. Changes permanently once a frame is forgotten.
    pub storage_state: HistoryStorageState,
    /// The first frame for which the component had this state.
    pub rendered_frame: usize,
}

/// The mathematical content of a `History`.
pub struct HistoryView<T> {
    pub frames: Seq<Timestamp>,
    pub components: Seq<T>,
    pub storage_state: HistoryStorageState,
    pub rendered_frame: usize,
}

impl<T> View for History<T> {
    type V = HistoryView<T>;

    open spec fn view(&self) -> HistoryView<T> {
        HistoryView {
            frames: self.frames@,
            components: self.components@,
            storage_state: self.storage_state,
            rendered_frame: self.rendered_frame,
        }
    }
}

/// What the world looked like for an entity when a frame is saved.
pub enum Observation<T> {
    /// The entity is being rewound; nothing is recorded.
    Rewinding,
    /// The component exists and was modified (or added) since the last save; holds its state.
    Changed(T),
    /// The component exists and was not modified since the last save.
    Unchanged,
    /// The entity does not have the component.
    Missing,
}

/// What the world should do to an entity after a rewind tick. Applied in order.
pub enum RewindAction<T> {
    /// Insert this state of the component.
    InsertComponent(T),
    /// Remove the component.
    RemoveComponent,
    /// Remove the `Rewind` marker.
    RemoveRewind,
    /// Despawn the entity.
    Despawn,
}

/// The sequence without its first element (unchanged when empty).
pub open spec fn pop_front_seq<A>(s: Seq<A>) -> Seq<A> {
    if s.len() > 0 {
        s.subrange(1, s.len() as int)
    } else {
        s
    }
}

/// The sequence without its last element (unchanged when empty).
pub open spec fn pop_back_seq<A>(s: Seq<A>) -> Seq<A> {
    if s.len() > 0 {
        s.subrange(0, s.len() - 1)
    } else {
        s
    }
}

/// A fresh history: nothing recorded, still growing.
pub open spec fn empty_history<T>() -> HistoryView<T> {
    HistoryView {
        frames: Seq::empty(),
        components: Seq::empty(),
        storage_state: HistoryStorageState::Growing,
        rendered_frame: 0,
    }
}

/// Forgets the oldest frame when the history is full. The oldest component state is forgotten
/// with it when no remaining frame refers to it anymore.
pub open spec fn retired<T>(h: HistoryView<T>) -> HistoryView<T> {
    if h.frames.len() == MAX_STORAGE_FRAMES {
        let old_frame = h.frames[0];
        let new_frame = h.frames[1];
        HistoryView {
            frames: h.frames.subrange(1, h.frames.len() as int),
            components: if old_frame is Existent && old_frame.frame() != new_frame.frame() {
                pop_front_seq(h.components)
            } else {
                h.components
            },
            storage_state: HistoryStorageState::Leaking,
            rendered_frame: h.rendered_frame,
        }
    } else {
        h
    }
}

/// Whether saving this observation is defined: an unchanged component needs a previous frame
/// in which it existed, and a missing one needs a previous frame at all.
pub open spec fn can_save<T>(h: HistoryView<T>, obs: Observation<T>) -> bool {
    match obs {
        Observation::Rewinding => true,
        Observation::Changed(_) => true,
        Observation::Unchanged => h.frames.len() > 0 && h.frames.last() is Existent,
        Observation::Missing => h.frames.len() > 0,
    }
}

/// Appends a timestamp and marks its frame as the rendered one.
pub open spec fn with_timestamp<T>(h: HistoryView<T>, ts: Timestamp) -> HistoryView<T> {
    HistoryView {
        frames: h.frames.push(ts),
        components: h.components,
        storage_state: h.storage_state,
        rendered_frame: ts.frame(),
    }
}

/// The timestamp a save records for this observation.
pub open spec fn saved_timestamp<T>(h: HistoryView<T>, frame_time: usize, obs: Observation<T>) -> Timestamp {
    match obs {
        Observation::Changed(_) => Timestamp::Existent(frame_time),
        Observation::Unchanged => Timestamp::Existent(h.frames.last().frame()),
        _ => match h.frames.last() {
            Timestamp::Existent(_) => Timestamp::Nonexistent(frame_time),
            Timestamp::Nonexistent(f) => Timestamp::Nonexistent(f),
        },
    }
}

/// Takes a snapshot of the component for this frame.
pub open spec fn saved<T>(h: HistoryView<T>, frame_time: usize, obs: Observation<T>) -> HistoryView<T> {
    match obs {
        Observation::Rewinding => h,
        Observation::Changed(t) => with_timestamp(
            HistoryView { components: h.components.push(t), ..h },
            Timestamp::Existent(frame_time),
        ),
        _ => with_timestamp(h, saved_timestamp(h, frame_time, obs)),
    }
}

/// Drops the latest stored state when the latest frame has the component: that state is
/// already on the entity.
pub open spec fn initialized<T>(h: HistoryView<T>) -> HistoryView<T> {
    if h.frames.len() > 0 && h.frames.last() is Existent {
        HistoryView { components: pop_back_seq(h.components), ..h }
    } else {
        h
    }
}

/// Whether one step back is defined: a state that must be restored has to be stored.
pub open spec fn step_ok<T>(h: HistoryView<T>) -> bool {
    (h.frames.len() > 0 && h.frames.last() is Existent && h.frames.last().frame()
        != h.rendered_frame) ==> h.components.len() > 0
}

/// The history after one step back in time.
pub open spec fn stepped<T>(h: HistoryView<T>) -> HistoryView<T> {
    if h.frames.len() == 0 {
        h
    } else {
        let ts = h.frames.last();
        let rest = HistoryView { frames: h.frames.drop_last(), ..h };
        if ts.frame() == h.rendered_frame {
            rest
        } else {
            match ts {
                Timestamp::Existent(f) => HistoryView {
                    components: pop_back_seq(h.components),
                    rendered_frame: f,
                    ..rest
                },
                Timestamp::Nonexistent(f) => HistoryView { rendered_frame: f, ..rest },
            }
        }
    }
}

/// The actions for the world of one step back in time.
pub open spec fn step_actions<T>(h: HistoryView<T>, ooh: OutOfHistory) -> Seq<RewindAction<T>> {
    if h.frames.len() == 0 {
        match ooh {
            OutOfHistory::Pause => Seq::empty(),
            OutOfHistory::Resume => seq![RewindAction::RemoveRewind],
            OutOfHistory::Despawn => seq![RewindAction::Despawn],
        }
    } else {
        let ts = h.frames.last();
        if ts.frame() == h.rendered_frame {
            Seq::empty()
        } else {
            match ts {
                Timestamp::Existent(_) => seq![RewindAction::InsertComponent(h.components.last())],
                Timestamp::Nonexistent(_) => seq![RewindAction::RemoveComponent],
            }
        }
    }
}

/// The history after `n` steps back in time.
pub open spec fn steps_history<T>(h: HistoryView<T>, n: nat) -> HistoryView<T>
    decreases n,
{
    if n == 0 {
        h
    } else {
        stepped(steps_history(h, (n - 1) as nat))
    }
}

/// The actions of `n` steps back in time, in order.
pub open spec fn steps_actions<T>(h: HistoryView<T>, ooh: OutOfHistory, n: nat) -> Seq<RewindAction<T>>
    decreases n,
{
    if n == 0 {
        Seq::empty()
    } else {
        steps_actions(h, ooh, (n - 1) as nat) + step_actions(steps_history(h, (n - 1) as nat), ooh)
    }
}

/// Whether one of `n` steps back despawned the entity.
pub open spec fn steps_despawned<T>(h: HistoryView<T>, ooh: OutOfHistory, n: nat) -> bool
    decreases n,
{
    if n == 0 {
        false
    } else {
        steps_despawned(h, ooh, (n - 1) as nat) || (ooh is Despawn && steps_history(
            h,
            (n - 1) as nat,
        ).frames.len() == 0)
    }
}

/// Whether `n` steps back are all defined.
pub open spec fn steps_ok<T>(h: HistoryView<T>, n: nat) -> bool
    decreases n,
{
    if n == 0 {
        true
    } else {
        steps_ok(h, (n - 1) as nat) && step_ok(steps_history(h, (n - 1) as nat))
    }
}

/// The history after a rewind tick: `rewind.fps` steps back, then, when no frames are left
/// to rewind, the component still on the entity (if any) returns to storage.
pub open spec fn rewound<T>(
    h: HistoryView<T>,
    rewind: Rewind,
    ooh: OutOfHistory,
    current: Option<T>,
    frame_time: usize,
) -> HistoryView<T> {
    let s = steps_history(h, rewind.fps as nat);
    if rewind.frames == 0 && !steps_despawned(h, ooh, rewind.fps as nat) && current is Some {
        let h1 = HistoryView { components: s.components.push(current->0), ..s };
        if h1.frames.len() == 0 {
            HistoryView {
                frames: seq![Timestamp::Existent(frame_time)],
                rendered_frame: frame_time,
                ..h1
            }
        } else {
            h1
        }
    } else {
        s
    }
}

/// The actions of a rewind tick; the `Rewind` marker is removed once no frames are left.
pub open spec fn rewind_actions<T>(h: HistoryView<T>, rewind: Rewind, ooh: OutOfHistory) -> Seq<RewindAction<T>> {
    let a = steps_actions(h, ooh, rewind.fps as nat);
    if rewind.frames == 0 {
        a.push(RewindAction::RemoveRewind)
    } else {
        a
    }
}

impl<T> History<T> {
    /// An empty, growing history.
    pub fn new() -> (h: History<T>)
        ensures
            h@ == empty_history::<T>(),
    {
        History {
            frames: VecDeque::with_capacity(MAX_STORAGE_FRAMES),
            components: VecDeque::new(),
            storage_state: HistoryStorageState::Growing,
            rendered_frame: 0,
        }
    }

    /// Forgets the oldest frame if the history is out of space.
    pub fn retire_frame(&mut self)
        ensures
            final(self)@ == retired(old(self)@),
    {
        if self.frames.len() == MAX_STORAGE_FRAMES {
            let new_frame = self.frames[1];
            let old_frame = self.frames.pop_front();
            // if the component state referred to by the deleted frame is overwritten,
            // remove it from the queue forever
            if let Some(Timestamp::Existent(old_frame_time)) = old_frame {
                if old_frame_time != new_frame.frame_index() {
                    let _ = self.components.pop_front();
                }
            }
            self.storage_state = HistoryStorageState::Leaking;
        }
    }

    /// Takes a snapshot of the component for frame `frame_time`.
    pub fn save_frame(&mut self, frame_time: usize, obs: Observation<T>)
        requires
            can_save(old(self)@, obs),
        ensures
            final(self)@ == saved(old(self)@, frame_time, obs),
    {
        let timestamp = match obs {
            // entities being rewound aren't included in history
            Observation::Rewinding => {
                return ;
            },
            Observation::Changed(t) => {
                self.components.push_back(t);
                Timestamp::Existent(frame_time)
            },
            Observation::Unchanged => {
                // use whatever frame index is recorded in the previous frame
                let last = self.frames[self.frames.len() - 1];
                Timestamp::Existent(last.frame_index())
            },
            Observation::Missing => {
                let last = self.frames[self.frames.len() - 1];
                match last {
                    Timestamp::Existent(_) => Timestamp::Nonexistent(frame_time),
                    Timestamp::Nonexistent(f) => Timestamp::Nonexistent(f),
                }
            },
        };
        self.rendered_frame = timestamp.frame_index();
        self.frames.push_back(timestamp);
    }

    /// Steps back one frame, returning the action for the world, if any.
    fn step_back(&mut self, ooh: OutOfHistory) -> (action: Option<RewindAction<T>>)
        requires
            step_ok(old(self)@),
        ensures
            final(self)@ == stepped(old(self)@),
            step_actions(old(self)@, ooh) == match action {
                Some(a) => seq![a],
                None => Seq::<RewindAction<T>>::empty(),
            },
    {
        match self.frames.pop_back() {
            Some(frame) => {
                if frame.frame_index() == self.rendered_frame {
                    None
                } else {
                    match frame {
                        // component was deleted in the next frame; recreate it
                        Timestamp::Existent(f) => {
                            let c = self.components.pop_back();
                            self.rendered_frame = f;
                            match c {
                                Some(c) => Some(RewindAction::InsertComponent(c)),
                                None => None,
                            }
                        },
                        // component was created in the next frame; delete it
                        Timestamp::Nonexistent(f) => {
                            self.rendered_frame = f;
                            Some(RewindAction::RemoveComponent)
                        },
                    }
                }
            },
            // no `Timestamp`s are stored: either the entity was recently created,
            // or the history ran out from too much rewinding
            None => match ooh {
                OutOfHistory::Pause => None,
                OutOfHistory::Resume => Some(RewindAction::RemoveRewind),
                OutOfHistory::Despawn => Some(RewindAction::Despawn),
            },
        }
    }

    /// Whether `fps` steps back are all defined: each time a stored state must be restored,
    /// one is stored.
    pub fn components_suffice(&self, fps: u32) -> (ok: bool)
        ensures
            ok == steps_ok(self@, fps as nat),
    {
        let n = self.frames.len();
        let clen = self.components.len();
        let mut rendered = self.rendered_frame;
        let mut used: usize = 0;
        let mut popped: usize = 0;
        let mut i: u32 = 0;
        while i < fps
            invariant
                n == self.frames@.len(),
                clen == self.components@.len(),
                i <= fps,
                popped <= n,
                used <= popped,
                used <= clen,
                popped == if i as int <= n { i as int } else { n as int },
                steps_ok(self@, i as nat),
                steps_history(self@, i as nat).frames == self.frames@.subrange(0, n - popped),
                steps_history(self@, i as nat).components == self.components@.subrange(0, clen - used),
                steps_history(self@, i as nat).rendered_frame == rendered,
            decreases fps - i,
        {
            let ghost prev = steps_history(self@, i as nat);
            let ghost old_popped = popped;
            let ghost old_used = used;
            assert(steps_history(self@, (i + 1) as nat) == stepped(prev));
            if popped < n {
                let ts = self.frames[n - 1 - popped];
                assert(ts == prev.frames.last());
                if ts.frame_index() != rendered {
                    if let Timestamp::Existent(_) = ts {
                        if used == clen {
                            proof {
                                assert(!step_ok(prev));
                                if steps_ok(self@, fps as nat) {
                                    lemma_steps_ok_prefix(self@, i as nat, fps as nat);
                                }
                            }
                            return false;
                        }
                        used = used + 1;
                        assert(pop_back_seq(prev.components) =~= self.components@.subrange(0, clen - used));
                    }
                    rendered = ts.frame_index();
                }
                popped = popped + 1;
                assert(prev.frames.drop_last() =~= self.frames@.subrange(0, n - popped));
            }
            assert(steps_ok(self@, (i + 1) as nat));
            i = i + 1;
        }
        true
    }

    /// A rewind tick for this entity. `rewind` is the marker after `Rewind::update`, `current`
    /// is the component on the entity when the tick starts, and `frame_time` the current frame.
    pub fn rewind(
        &mut self,
        rewind: &Rewind,
        ooh: OutOfHistory,
        current: Option<T>,
        frame_time: usize,
    ) -> (actions: Vec<RewindAction<T>>)
        requires
            steps_ok(old(self)@, rewind.fps as nat),
        ensures
            final(self)@ == rewound(old(self)@, *rewind, ooh, current, frame_time),
            actions@ == rewind_actions(old(self)@, *rewind, ooh),
    {
        let ghost h0 = self@;
        let mut actions: Vec<RewindAction<T>> = Vec::new();
        let mut despawned = false;
        let mut i: u32 = 0;
        // process each frame per `fps`
        while i < rewind.fps
            invariant
                i <= rewind.fps,
                steps_ok(h0, rewind.fps as nat),
                self@ == steps_history(h0, i as nat),
                actions@ == steps_actions(h0, ooh, i as nat),
                despawned == steps_despawned(h0, ooh, i as nat),
            decreases rewind.fps - i,
        {
            proof {
                lemma_steps_ok_prefix(h0, i as nat, rewind.fps as nat);
            }
            let empty = self.frames.len() == 0;
            let a = self.step_back(ooh);
            if empty {
                if let OutOfHistory::Despawn = ooh {
                    despawned = true;
                }
            }
            match a {
                Some(a) => {
                    actions.push(a);
                },
                None => {},
            }
            i = i + 1;
        }
        // finished
        if rewind.frames == 0 {
            actions.push(RewindAction::RemoveRewind);
            // return the existing component to storage
            if !despawned {
                if let Some(t) = current {
                    self.components.push_back(t);
                    // make sure at least one frame accompanies this component
                    if self.frames.len() == 0 {
                        self.frames.push_back(Timestamp::Existent(frame_time));
                        self.rendered_frame = frame_time;
                        assert(self.frames@ =~= seq![Timestamp::Existent(frame_time)]);
                    }
                }
            }
        }
        actions
    }

    /// Removes the latest stored state if the latest frame has the component, since that
    /// state is already on the entity and rewinding would copy it again.
    pub fn initialize_rewind(&mut self)
        ensures
            final(self)@ == initialized(old(self)@),
    {
        let n = self.frames.len();
        if n > 0 {
            if let Timestamp::Existent(_) = self.frames[n - 1] {
                let _ = self.components.pop_back();
            }
        }
    }
}

/// Stores a `History` for every entity that has (or recently had) the component.
///
/// Histories are added for entities that have the component, and dropped once the entity is
/// gone or neither the entity nor the history holds any state of the component.
pub struct EntityHistories<T> {
    entities: Vec<u64>,
    histories: Vec<History<T>>,
}

impl<T> EntityHistories<T> {
    #[verifier::type_invariant]
    spec fn well_formed(self) -> bool {
        &&& self.entities@.len() == self.histories@.len()
        &&& self.entities@.no_duplicates()
    }

    /// The histories, keyed by entity.
    pub closed spec fn view(&self) -> Map<u64, HistoryView<T>> {
        parts_view(self.entities@, self.histories@)
    }

    proof fn lemma_index(self, i: int)
        requires
            self.well_formed(),
            0 <= i < self.entities@.len(),
        ensures
            self.entities@.index_of(self.entities@[i]) == i,
            self.view().contains_key(self.entities@[i]),
            self.view()[self.entities@[i]] == self.histories@[i]@,
    {
        let j = self.entities@.index_of(self.entities@[i]);
        assert(self.entities@.contains(self.entities@[i]));
        assert(0 <= j < self.entities@.len() && self.entities@[j] == self.entities@[i]);
    }

    proof fn lemma_update(old: Self, new: Self, i: int)
        requires
            old.well_formed(),
            new.well_formed(),
            0 <= i < old.entities@.len(),
            new.entities@ == old.entities@,
            new.histories@ == old.histories@.update(i, new.histories@[i]),
        ensures
            new.view() == old.view().insert(old.entities@[i], new.histories@[i]@),
    {
        assert forall|e: u64| #[trigger] new.view().contains_key(e) implies new.view()[e] == old.view().insert(
            old.entities@[i],
            new.histories@[i]@,
        )[e] by {
            let j = new.entities@.index_of(e);
            assert(new.entities@.contains(e));
            assert(0 <= j < new.entities@.len() && new.entities@[j] == e);
            old.lemma_index(j);
        }
        assert(new.view() =~= old.view().insert(old.entities@[i], new.histories@[i]@));
    }

    /// No histories.
    pub fn new() -> (s: Self)
        ensures
            s.view() == Map::<u64, HistoryView<T>>::empty(),
    {
        let s = EntityHistories { entities: Vec::new(), histories: Vec::new() };
        assert(s.view() =~= Map::<u64, HistoryView<T>>::empty());
        s
    }

    /// Moves the entries out, leaving no histories behind.
    fn take_parts(&mut self) -> (parts: (Vec<u64>, Vec<History<T>>))
        ensures
            parts.0@ == old(self).entities@,
            parts.1@ == old(self).histories@,
            parts.0@.len() == parts.1@.len(),
            parts.0@.no_duplicates(),
    {
        proof {
            use_type_invariant(&*self);
        }
        let mut tmp = EntityHistories { entities: Vec::new(), histories: Vec::new() };
        core::mem::swap(self, &mut tmp);
        proof {
            use_type_invariant(&tmp);
        }
        let EntityHistories { entities, histories } = tmp;
        (entities, histories)
    }

    fn find(&self, entity: u64) -> (r: Option<usize>)
        ensures
            match r {
                Some(i) => i < self.entities@.len() && self.entities@[i as int] == entity,
                None => !self.entities@.contains(entity),
            },
    {
        let mut i: usize = 0;
        while i < self.entities.len()
            invariant
                i <= self.entities@.len(),
                forall|j: int| 0 <= j < i ==> self.entities@[j] != entity,
            decreases self.entities@.len() - i,
        {
            if self.entities[i] == entity {
                return Some(i);
            }
            i = i + 1;
        }
        None
    }

    /// Whether this entity has a history.
    pub fn contains(&self, entity: u64) -> (b: bool)
        ensures
            b == self.view().contains_key(entity),
    {
        self.find(entity).is_some()
    }

    /// The number of histories.
    pub fn len(&self) -> (n: usize)
        ensures
            n == self.view().len(),
    {
        proof {
            use_type_invariant(self);
            self.entities@.unique_seq_to_set();
            assert(self.view().dom() =~= self.entities@.to_set());
        }
        self.entities.len()
    }

    /// The entities that have a history, each once.
    pub fn entities(&self) -> (es: Vec<u64>)
        ensures
            es@.no_duplicates(),
            es@.to_set() == self.view().dom(),
    {
        proof {
            use_type_invariant(self);
        }
        let es = self.entities.clone();
        assert(es@.to_set() =~= self.view().dom());
        es
    }

    /// The history of this entity, if it has one.
    pub fn get(&self, entity: u64) -> (r: Option<&History<T>>)
        ensures
            match r {
                Some(h) => self.view().contains_key(entity) && h@ == self.view()[entity],
                None => !self.view().contains_key(entity),
            },
    {
        proof {
            use_type_invariant(self);
        }
        match self.find(entity) {
            Some(i) => {
                proof {
                    self.lemma_index(i as int);
                }
                Some(&self.histories[i])
            },
            None => None,
        }
    }

    /// Takes a snapshot of the component of `entity` for frame `frame_time`.
    pub fn save_frame(&mut self, entity: u64, frame_time: usize, obs: Observation<T>)
        requires
            old(self).view().contains_key(entity),
            can_save(old(self).view()[entity], obs),
        ensures
            final(self).view() == old(self).view().insert(
                entity,
                saved(old(self).view()[entity], frame_time, obs),
            ),
    {
        proof {
            use_type_invariant(&*self);
        }
        let i = self.find(entity).unwrap();
        proof {
            self.lemma_index(i as int);
        }
        let ghost old_self = *self;
        self.histories[i].save_frame(frame_time, obs);
        proof {
            use_type_invariant(&*self);
            Self::lemma_update(old_self, *self, i as int);
        }
    }

    /// Prepares the history of `entity` for a rewind that was just added.
    pub fn initialize_rewind(&mut self, entity: u64)
        requires
            old(self).view().contains_key(entity),
        ensures
            final(self).view() == old(self).view().insert(entity, initialized(old(self).view()[entity])),
    {
        proof {
            use_type_invariant(&*self);
        }
        let i = self.find(entity).unwrap();
        proof {
            self.lemma_index(i as int);
        }
        let ghost old_self = *self;
        self.histories[i].initialize_rewind();
        proof {
            use_type_invariant(&*self);
            Self::lemma_update(old_self, *self, i as int);
        }
    }

    /// Whether a rewind tick of `fps` frames for `entity` is defined.
    pub fn components_suffice(&self, entity: u64, fps: u32) -> (ok: bool)
        requires
            self.view().contains_key(entity),
        ensures
            ok == steps_ok(self.view()[entity], fps as nat),
    {
        proof {
            use_type_invariant(self);
        }
        let i = self.find(entity).unwrap();
        proof {
            self.lemma_index(i as int);
        }
        self.histories[i].components_suffice(fps)
    }

    /// A rewind tick for `entity`; see `History::rewind`.
    pub fn rewind(
        &mut self,
        entity: u64,
        rewind: &Rewind,
        ooh: OutOfHistory,
        current: Option<T>,
        frame_time: usize,
    ) -> (actions: Vec<RewindAction<T>>)
        requires
            old(self).view().contains_key(entity),
            steps_ok(old(self).view()[entity], rewind.fps as nat),
        ensures
            final(self).view() == old(self).view().insert(
                entity,
                rewound(old(self).view()[entity], *rewind, ooh, current, frame_time),
            ),
            actions@ == rewind_actions(old(self).view()[entity], *rewind, ooh),
    {
        proof {
            use_type_invariant(&*self);
        }
        let i = self.find(entity).unwrap();
        proof {
            self.lemma_index(i as int);
        }
        let ghost old_self = *self;
        let actions = self.histories[i].rewind(rewind, ooh, current, frame_time);
        proof {
            use_type_invariant(&*self);
            Self::lemma_update(old_self, *self, i as int);
        }
        actions
    }

    /// Forgets the oldest frame of every full history.
    pub fn retire_frames(&mut self)
        ensures
            final(self).view().dom() == old(self).view().dom(),
            forall|e: u64| #[trigger]
                final(self).view().contains_key(e) ==> final(self).view()[e] == retired(
                    old(self).view()[e],
                ),
    {
        proof {
            use_type_invariant(&*self);
        }
        let ghost old_self = *self;
        let mut i: usize = 0;
        while i < self.histories.len()
            invariant
                old_self.well_formed(),
                self.well_formed(),
                i <= self.histories@.len(),
                self.entities@ == old_self.entities@,
                self.histories@.len() == old_self.histories@.len(),
                forall|j: int| 0 <= j < i ==> #[trigger] self.histories@[j]@ == retired(old_self.histories@[j]@),
                forall|j: int| i <= j < self.histories@.len() ==> #[trigger] self.histories@[j] == old_self.histories@[j],
            decreases self.histories@.len() - i,
        {
            self.histories[i].retire_frame();
            i = i + 1;
        }
        proof {
            assert(self.view().dom() =~= old_self.view().dom());
            assert forall|e: u64| #[trigger] self.view().contains_key(e) implies self.view()[e] == retired(
                old_self.view()[e],
            ) by {
                let j = self.entities@.index_of(e);
                assert(self.entities@.contains(e));
                assert(0 <= j < self.entities@.len() && self.entities@[j] == e);
                self.lemma_index(j);
                old_self.lemma_index(j);
            }
        }
    }

    /// Adds an empty history for each listed entity that has none.
    pub fn add_new_histories(&mut self, with_component: &Vec<u64>)
        ensures
            final(self).view().dom() == old(self).view().dom().union(with_component@.to_set()),
            forall|e: u64| #[trigger]
                final(self).view().contains_key(e) ==> final(self).view()[e] == if old(
                    self,
                ).view().contains_key(e) {
                    old(self).view()[e]
                } else {
                    empty_history::<T>()
                },
    {
        let ghost old_view = self.view();
        let (mut entities, mut histories) = self.take_parts();
        let mut k: usize = 0;
        while k < with_component.len()
            invariant
                k <= with_component@.len(),
                entities@.len() == histories@.len(),
                entities@.no_duplicates(),
                parts_view(entities@, histories@).dom() == old_view.dom().union(with_component@.subrange(0, k as int).to_set()),
                forall|e: u64| #[trigger]
                    parts_view(entities@, histories@).contains_key(e) ==> parts_view(entities@, histories@)[e] == if old_view.contains_key(e) {
                        old_view[e]
                    } else {
                        empty_history::<T>()
                    },
            decreases with_component@.len() - k,
        {
            let e = with_component[k];
            let ghost es0 = entities@;
            let ghost hs0 = histories@;
            if !vec_contains(&entities, e) {
                entities.push(e);
                histories.push(History::new());
                proof {
                    assert(!parts_view(es0, hs0).contains_key(e));
                    assert(!old_view.contains_key(e));
                    lemma_parts_push(es0, hs0, e, histories@.last());
                    assert(histories@ == hs0.push(histories@.last()));
                }
            }
            proof {
                let pre = with_component@.subrange(0, k as int);
                let post = with_component@.subrange(0, k + 1);
                assert(post =~= pre.push(e));
                assert forall|x: u64| post.to_set().contains(x) <==> pre.to_set().insert(e).contains(x) by {
                    if post.contains(x) && x != e {
                        let j = choose|j: int| 0 <= j < post.len() && post[j] == x;
                        assert(pre[j] == x);
                    }
                    if pre.contains(x) {
                        let j = choose|j: int| 0 <= j < pre.len() && pre[j] == x;
                        assert(post[j] == x);
                    }
                    if x == e {
                        assert(post[k as int] == e);
                    }
                }
                assert(post.to_set() =~= pre.to_set().insert(e));
                assert(parts_view(entities@, histories@).dom() =~= old_view.dom().union(with_component@.subrange(0, k + 1).to_set()));
            }
            k = k + 1;
        }
        proof {
            assert(with_component@.subrange(0, with_component@.len() as int) =~= with_component@);
        }
        *self = EntityHistories { entities, histories };
    }

    /// Drops the histories of entities that are gone, and of entities that neither have the
    /// component nor any stored state of it: there is no useful data left in those.
    pub fn clear_unused_histories(&mut self, alive: &Vec<u64>, with_component: &Vec<u64>)
        ensures
            final(self).view() == old(self).view().restrict(
                old(self).view().dom().filter(
                    |e: u64|
                        alive@.contains(e) && (old(self).view()[e].components.len() > 0
                            || with_component@.contains(e)),
                ),
            ),
    {
        let ghost old_view = self.view();
        let ghost keep = |e: u64|
            alive@.contains(e) && (old_view[e].components.len() > 0 || with_component@.contains(e));
        let (entities, histories) = self.take_parts();
        let ghost es0 = entities@;
        let ghost hs0 = histories@;
        let mut kept_entities: Vec<u64> = Vec::new();
        let mut kept_histories: Vec<History<T>> = Vec::new();
        let mut entities = entities;
        let mut histories = histories;
        // walk from the back so that popping yields each entry once
        let ghost mut n: int = es0.len() as int;
        while entities.len() > 0
            invariant
                entities@.len() == histories@.len(),
                0 <= n <= es0.len(),
                entities@ == es0.subrange(0, n),
                histories@ == hs0.subrange(0, n),
                es0.len() == hs0.len(),
                es0.no_duplicates(),
                old_view == parts_view(es0, hs0),
                keep == (|e: u64|
                    alive@.contains(e) && (old_view[e].components.len() > 0 || with_component@.contains(e))),
                kept_entities@.len() == kept_histories@.len(),
                kept_entities@.no_duplicates(),
                forall|x: u64| #[trigger] kept_entities@.contains(x) <==> (es0.subrange(n, es0.len() as int).contains(x) && keep(x)),
                forall|j: int| 0 <= j < kept_entities@.len() ==> #[trigger] kept_histories@[j]@ == old_view[kept_entities@[j]],
            decreases entities@.len(),
        {
            let e = entities.pop().unwrap();
            let h = histories.pop().unwrap();
            proof {
                n = n - 1;
                assert(e == es0[n]);
                assert(h == hs0[n]);
                lemma_parts_index(es0, hs0, n);
                assert(old_view[e] == h@);
                assert(es0.subrange(n, es0.len() as int) =~= seq![e] + es0.subrange(n + 1, es0.len() as int));
                assert(entities@ =~= es0.subrange(0, n));
                assert(histories@ =~= hs0.subrange(0, n));
            }
            let keep_it = vec_contains(alive, e) && (h.components.len() > 0 || vec_contains(with_component, e));
            let ghost sub_n = es0.subrange(n, es0.len() as int);
            let ghost sub_n1 = es0.subrange(n + 1, es0.len() as int);
            proof {
                assert(keep_it == keep(e));
                assert forall|x: u64| #[trigger] sub_n.contains(x) <==> (x == e || sub_n1.contains(x)) by {
                    if sub_n.contains(x) && x != e {
                        let j = choose|j: int| 0 <= j < sub_n.len() && sub_n[j] == x;
                        assert(j > 0);
                        assert(sub_n1[j - 1] == x);
                    }
                    if sub_n1.contains(x) {
                        let j = choose|j: int| 0 <= j < sub_n1.len() && sub_n1[j] == x;
                        assert(sub_n[j + 1] == x);
                    }
                    if x == e {
                        assert(sub_n[0] == e);
                    }
                }
                assert(!sub_n1.contains(e)) by {
                    if sub_n1.contains(e) {
                        let j2 = choose|j2: int| 0 <= j2 < sub_n1.len() && #[trigger] sub_n1[j2] == e;
                        assert(es0[n + 1 + j2] == e);
                    }
                }
            }
            if keep_it {
                let ghost ke0 = kept_entities@;
                kept_entities.push(e);
                kept_histories.push(h);
                proof {
                    assert(!ke0.contains(e));
                    assert forall|a: int, b: int|
                        0 <= a < kept_entities@.len() && 0 <= b < kept_entities@.len() && a != b
                        implies kept_entities@[a] != kept_entities@[b] by {
                        if a == ke0.len() {
                            assert(ke0[b] == kept_entities@[b]);
                            assert(ke0.contains(ke0[b]));
                        } else if b == ke0.len() {
                            assert(ke0[a] == kept_entities@[a]);
                            assert(ke0.contains(ke0[a]));
                        } else {
                            assert(ke0[a] == kept_entities@[a]);
                            assert(ke0[b] == kept_entities@[b]);
                        }
                    }
                    assert forall|x: u64| #[trigger] kept_entities@.contains(x) <==> (sub_n.contains(x) && keep(x)) by {
                        if kept_entities@.contains(x) && x != e {
                            let j = choose|j: int| 0 <= j < kept_entities@.len() && kept_entities@[j] == x;
                            assert(ke0[j] == x);
                        }
                        if ke0.contains(x) {
                            let j = choose|j: int| 0 <= j < ke0.len() && ke0[j] == x;
                            assert(kept_entities@[j] == x);
                        }
                        if x == e {
                            assert(kept_entities@[ke0.len() as int] == e);
                        }
                    }
                }
            }
        }
        proof {
            assert(es0.subrange(0, es0.len() as int) =~= es0);
            let target = old_view.restrict(old_view.dom().filter(keep));
            assert forall|x: u64| #[trigger] parts_view(kept_entities@, kept_histories@).contains_key(x) implies target.contains_key(x) && parts_view(kept_entities@, kept_histories@)[x] == target[x] by {
                let j = kept_entities@.index_of(x);
                assert(kept_entities@.contains(x));
                assert(0 <= j < kept_entities@.len() && kept_entities@[j] == x);
                lemma_parts_index(kept_entities@, kept_histories@, j);
            }
            assert forall|x: u64| #[trigger] target.contains_key(x) implies parts_view(kept_entities@, kept_histories@).contains_key(x) by {
                assert(kept_entities@.contains(x));
            }
            assert(parts_view(kept_entities@, kept_histories@) =~= target);
        }
        *self = EntityHistories { entities: kept_entities, histories: kept_histories };
    }
}

/// The map from entity to history held by two parallel sequences.
pub open spec fn parts_view<T>(es: Seq<u64>, hs: Seq<History<T>>) -> Map<u64, HistoryView<T>> {
    Map::new(|e: u64| es.contains(e), |e: u64| hs[es.index_of(e)]@)
}

proof fn lemma_parts_index<T>(es: Seq<u64>, hs: Seq<History<T>>, i: int)
    requires
        es.len() == hs.len(),
        es.no_duplicates(),
        0 <= i < es.len(),
    ensures
        es.index_of(es[i]) == i,
        parts_view(es, hs).contains_key(es[i]),
        parts_view(es, hs)[es[i]] == hs[i]@,
{
    let j = es.index_of(es[i]);
    assert(es.contains(es[i]));
    assert(0 <= j < es.len() && es[j] == es[i]);
}

proof fn lemma_parts_push<T>(es: Seq<u64>, hs: Seq<History<T>>, e: u64, h: History<T>)
    requires
        es.len() == hs.len(),
        es.no_duplicates(),
        !es.contains(e),
    ensures
        es.push(e).no_duplicates(),
        parts_view(es.push(e), hs.push(h)) == parts_view(es, hs).insert(e, h@),
{
    let es1 = es.push(e);
    let hs1 = hs.push(h);
    let n = es.len() as int;
    assert forall|a: int, b: int| 0 <= a < es1.len() && 0 <= b < es1.len() && a != b implies es1[a] != es1[b] by {
        if a == n {
            assert(es[b] == es1[b]);
        } else if b == n {
            assert(es[a] == es1[a]);
        } else {
            assert(es[a] == es1[a] && es[b] == es1[b]);
        }
    }
    assert forall|x: u64| #[trigger] parts_view(es1, hs1).contains_key(x) implies parts_view(es1, hs1)[x]
        == parts_view(es, hs).insert(e, h@)[x] by {
        let j = es1.index_of(x);
        assert(es1.contains(x));
        assert(0 <= j < es1.len() && es1[j] == x);
        lemma_parts_index(es1, hs1, j);
        if j < n {
            assert(es[j] == x);
            lemma_parts_index(es, hs, j);
        }
    }
    assert forall|x: u64| #[trigger] parts_view(es, hs).insert(e, h@).contains_key(x) implies parts_view(
        es1,
        hs1,
    ).contains_key(x) by {
        if x != e {
            let j = es.index_of(x);
            assert(es.contains(x));
            assert(es1[j] == x);
        } else {
            assert(es1[n] == e);
        }
    }
    assert(parts_view(es1, hs1) =~= parts_view(es, hs).insert(e, h@));
}

/// Whether `v` holds `x`.
pub(crate) fn vec_contains(v: &Vec<u64>, x: u64) -> (b: bool)
    ensures
        b == v@.contains(x),
{
    let mut i: usize = 0;
    while i < v.len()
        invariant
            i <= v@.len(),
            forall|j: int| 0 <= j < i ==> v@[j] != x,
        decreases v@.len() - i,
    {
        if v[i] == x {
            return true;
        }
        i = i + 1;
    }
    false
}

/// Over the ticks of a rewind, the frames stepped back plus the frames left always add up to
/// the frames requested; with a positive `fps`, the rewind finishes after at most that many
/// ticks, having stepped back exactly the frames requested.
pub proof fn law_rewind_steps_requested_frames(r: Rewind, k: nat)
    ensures
        frames_stepped(r, k) + updated_n(r, k).frames == r.frames,
        updated_n(r, k).fps <= r.fps,
        r.fps > 0 && k >= r.frames ==> updated_n(r, k).frames == 0 && frames_stepped(r, k) == r.frames,
    decreases k,
{
    if k > 0 {
        law_rewind_steps_requested_frames(r, (k - 1) as nat);
        let prev = updated_n(r, (k - 1) as nat);
        if r.fps > 0 && k >= r.frames {
            // each tick with frames left takes at least one of them
            lemma_rewind_progress(r, (k - 1) as nat);
        }
    }
}

/// With a positive `fps`, every tick with frames left takes at least one, so after `k` ticks
/// at most `frames - k` remain (and `fps` stays positive while frames remain).
proof fn lemma_rewind_progress(r: Rewind, k: nat)
    requires
        r.fps > 0,
    ensures
        updated_n(r, k).frames + k <= r.frames || updated_n(r, k).frames == 0,
        updated_n(r, k).frames > 0 ==> updated_n(r, k).fps > 0,
        updated_n(r, (k + 1) as nat).frames + k + 1 <= r.frames || updated_n(r, (k + 1) as nat).frames == 0,
    decreases k,
{
    if k > 0 {
        lemma_rewind_progress(r, (k - 1) as nat);
    }
}

/// A history never holds more than `MAX_STORAGE_FRAMES` frames: forgetting the oldest frame of a
/// full history and then saving a frame keeps it within the limit. Retiring keeps a save defined.
pub proof fn law_history_capacity<T>(h: HistoryView<T>, frame_time: usize, obs: Observation<T>)
    requires
        h.frames.len() <= MAX_STORAGE_FRAMES,
        can_save(h, obs),
    ensures
        can_save(retired(h), obs),
        retired(h).frames.len() < MAX_STORAGE_FRAMES,
        saved(retired(h), frame_time, obs).frames.len() <= MAX_STORAGE_FRAMES,
{
    if h.frames.len() == MAX_STORAGE_FRAMES {
        assert(retired(h).frames.last() == h.frames.last());
    }
}

/// A history starts leaking exactly when a full history forgets a frame, and once leaking it
/// never grows back: every operation keeps `Leaking`.
pub proof fn law_leaking_is_permanent<T>(
    h: HistoryView<T>,
    frame_time: usize,
    obs: Observation<T>,
    rewind: Rewind,
    ooh: OutOfHistory,
    current: Option<T>,
)
    ensures
        (retired(h).storage_state == HistoryStorageState::Leaking) <==> (h.storage_state
            == HistoryStorageState::Leaking || h.frames.len() == MAX_STORAGE_FRAMES),
        h.storage_state == HistoryStorageState::Leaking ==> {
            &&& saved(h, frame_time, obs).storage_state == HistoryStorageState::Leaking
            &&& initialized(h).storage_state == HistoryStorageState::Leaking
            &&& rewound(h, rewind, ooh, current, frame_time).storage_state == HistoryStorageState::Leaking
        },
{
    lemma_steps_keep_storage(h, rewind.fps as nat);
}

proof fn lemma_steps_keep_storage<T>(h: HistoryView<T>, n: nat)
    ensures
        steps_history(h, n).storage_state == h.storage_state,
        steps_history(h, n).frames.len() <= h.frames.len(),
        steps_history(h, n).frames == h.frames.subrange(
            0,
            if n <= h.frames.len() {
                h.frames.len() - n
            } else {
                0
            },
        ),
    decreases n,
{
    if n > 0 {
        lemma_steps_keep_storage(h, (n - 1) as nat);
        let prev = steps_history(h, (n - 1) as nat);
        if prev.frames.len() > 0 {
            assert(stepped(prev).frames =~= prev.frames.drop_last());
        }
    }
}

/// Rewinding steps back exactly `fps` frames (or all of them, if fewer are stored): the frames
/// left are the oldest ones. A rewind tick never grows the frames beyond one.
pub proof fn law_rewind_pops_newest_frames<T>(
    h: HistoryView<T>,
    rewind: Rewind,
    ooh: OutOfHistory,
    current: Option<T>,
    frame_time: usize,
)
    ensures
        steps_history(h, rewind.fps as nat).frames == h.frames.subrange(
            0,
            if rewind.fps <= h.frames.len() {
                h.frames.len() - rewind.fps
            } else {
                0
            },
        ),
        rewound(h, rewind, ooh, current, frame_time).frames.len() <= if h.frames.len() > 1 {
            h.frames.len()
        } else {
            1
        },
{
    lemma_steps_keep_storage(h, rewind.fps as nat);
}

/// Saving a frame and then stepping back one frame gives back the recorded frames: the step
/// undoes the save's timestamp without touching the world (the frame was the rendered one).
pub proof fn law_step_back_undoes_save<T>(h: HistoryView<T>, frame_time: usize, obs: Observation<T>, ooh: OutOfHistory)
    requires
        can_save(h, obs),
        !(obs is Rewinding),
    ensures
        stepped(saved(h, frame_time, obs)).frames == h.frames,
        step_actions(saved(h, frame_time, obs), ooh) == Seq::<RewindAction<T>>::empty(),
{
    let s = saved(h, frame_time, obs);
    assert(s.frames.drop_last() =~= h.frames);
}

/// A new history is stored with its first state, so clearing unused histories keeps it while
/// its entity lives, whether or not the entity still has the component.
pub proof fn law_new_history_is_kept<T>(frame_time: usize, first: T, alive: Seq<u64>, with_component: Seq<u64>, e: u64)
    requires
        alive.contains(e),
    ensures
        ({
            let h = saved(empty_history::<T>(), frame_time, Observation::Changed(first));
            alive.contains(e) && (h.components.len() > 0 || with_component.contains(e))
        }),
{
}

/// Frame `i` starts a run of `Existent` frames: it has the component, and the frame before it
/// (if any) is another timestamp.
pub open spec fn starts_existent_run(frames: Seq<Timestamp>, i: int) -> bool {
    frames[i] is Existent && (i == 0 || frames[i - 1] != frames[i])
}

/// The number of runs of `Existent` frames among the first `n` frames.
pub open spec fn existent_runs(frames: Seq<Timestamp>, n: int) -> nat
    decreases n,
{
    if n <= 0 {
        0
    } else {
        existent_runs(frames, n - 1) + if starts_existent_run(frames, n - 1) {
            1nat
        } else {
            0nat
        }
    }
}

/// The frame indices `f` such that some frame is `Existent(f)`.
pub open spec fn existent_frames(frames: Seq<Timestamp>) -> Set<usize> {
    Set::new(|f: usize| frames.contains(Timestamp::Existent(f)))
}

/// Frame indices never decrease, and frames with the same index are the same timestamp.
pub open spec fn frames_ordered(frames: Seq<Timestamp>) -> bool {
    &&& forall|i: int, j: int| 0 <= i < j < frames.len() ==> #[trigger] frames[i].frame() <= #[trigger] frames[j].frame()
    &&& forall|i: int, j: int|
        0 <= i < frames.len() && 0 <= j < frames.len() && #[trigger] frames[i].frame() == #[trigger] frames[j].frame()
            ==> frames[i] == frames[j]
}

/// The stored states match the frames: one stored state per run of `Existent` frames.
pub open spec fn stored_states_match<T>(h: HistoryView<T>) -> bool {
    &&& frames_ordered(h.frames)
    &&& h.components.len() == existent_runs(h.frames, h.frames.len() as int)
}

/// A change to a history while it records.
pub enum HistoryOp<T> {
    /// Forget the oldest frame of a full history.
    Retire,
    /// Save a frame at this frame index.
    Save(usize, Observation<T>),
}

/// The history after `ops`, in order.
pub open spec fn after_ops<T>(h: HistoryView<T>, ops: Seq<HistoryOp<T>>) -> HistoryView<T>
    decreases ops.len(),
{
    if ops.len() == 0 {
        h
    } else {
        let h1 = after_ops(h, ops.drop_last());
        match ops.last() {
            HistoryOp::Retire => retired(h1),
            HistoryOp::Save(t, obs) => saved(h1, t, obs),
        }
    }
}

/// Every save of `ops` is defined and happens at a later frame than the frames before it.
pub open spec fn ops_ok<T>(h: HistoryView<T>, ops: Seq<HistoryOp<T>>) -> bool
    decreases ops.len(),
{
    if ops.len() == 0 {
        true
    } else {
        let h1 = after_ops(h, ops.drop_last());
        &&& ops_ok(h, ops.drop_last())
        &&& match ops.last() {
            HistoryOp::Retire => true,
            HistoryOp::Save(t, obs) => can_save(h1, obs) && (h1.frames.len() > 0 ==> h1.frames.last().frame() < t),
        }
    }
}

proof fn lemma_runs_prefix(s: Seq<Timestamp>, u: Seq<Timestamp>, n: int)
    requires
        0 <= n <= s.len(),
        n <= u.len(),
        forall|i: int| 0 <= i < n ==> s[i] == u[i],
    ensures
        existent_runs(s, n) == existent_runs(u, n),
    decreases n,
{
    if n > 0 {
        lemma_runs_prefix(s, u, n - 1);
    }
}

proof fn lemma_runs_shift(s: Seq<Timestamp>, n: int)
    requires
        2 <= n <= s.len(),
    ensures
        existent_runs(s.subrange(1, s.len() as int), n - 1) + (if s[0] is Existent { 1int } else { 0int }) + (
        if starts_existent_run(s, 1) { 1int } else { 0int }) == existent_runs(s, n) + (if s[1] is Existent {
            1int
        } else {
            0int
        }),
    decreases n,
{
    let u = s.subrange(1, s.len() as int);
    if n > 2 {
        lemma_runs_shift(s, n - 1);
        assert(u[n - 2] == s[n - 1]);
        assert(u[n - 3] == s[n - 2]);
        assert(starts_existent_run(u, n - 2) == starts_existent_run(s, n - 1));
        assert(existent_runs(u, n - 1) == existent_runs(u, n - 2) + if starts_existent_run(u, n - 2) {
            1nat
        } else {
            0nat
        });
    } else {
        assert(u[0] == s[1]);
        reveal_with_fuel(existent_runs, 3);
    }
}

/// Saving and retiring keep the stored states matched to the runs of `Existent` frames.
proof fn lemma_ops_keep_match<T>(h: HistoryView<T>, ops: Seq<HistoryOp<T>>)
    requires
        stored_states_match(h),
        ops_ok(h, ops),
    ensures
        stored_states_match(after_ops(h, ops)),
    decreases ops.len(),
{
    if ops.len() > 0 {
        lemma_ops_keep_match(h, ops.drop_last());
        let h1 = after_ops(h, ops.drop_last());
        let s = h1.frames;
        let n = s.len() as int;
        match ops.last() {
            HistoryOp::Retire => {
                if n == MAX_STORAGE_FRAMES {
                    let h2 = retired(h1);
                    let u = s.subrange(1, n);
                    assert(h2.frames == u);
                    lemma_runs_shift(s, n);
                    assert forall|i: int, j: int| 0 <= i < j < u.len() implies #[trigger] u[i].frame() <= #[trigger] u[j].frame() by {
                        assert(u[i] == s[i + 1] && u[j] == s[j + 1]);
                    }
                    assert forall|i: int, j: int|
                        0 <= i < u.len() && 0 <= j < u.len() && #[trigger] u[i].frame() == #[trigger] u[j].frame()
                        implies u[i] == u[j] by {
                        assert(u[i] == s[i + 1] && u[j] == s[j + 1]);
                    }
                    if s[0] is Existent {
                        assert(existent_runs(s, 1) == 1) by {
                            reveal_with_fuel(existent_runs, 2);
                        }
                        lemma_runs_monotone(s, 1, n);
                    }
                    if s[0].frame() == s[1].frame() {
                        assert(s[0] == s[1]);
                    }
                }
            },
            HistoryOp::Save(t, obs) => {
                let h2 = saved(h1, t, obs);
                match obs {
                    Observation::Rewinding => {},
                    _ => {
                        let ts = h2.frames.last();
                        let s2 = h2.frames;
                        assert(s2 == s.push(ts));
                        lemma_runs_prefix(s, s2, n);
                        if n > 0 {
                            assert(s2[n - 1] == s.last());
                            // indices only grow: the new timestamp is later or the same as the last
                            assert forall|i: int| 0 <= i < n implies s[i].frame() <= s.last().frame() by {
                                if i < n - 1 {
                                    assert(s[i].frame() <= s[n - 1].frame());
                                }
                            }
                        }
                        assert forall|i: int, j: int| 0 <= i < j < s2.len() implies #[trigger] s2[i].frame()
                            <= #[trigger] s2[j].frame() by {
                            if j < n {
                                assert(s2[i] == s[i] && s2[j] == s[j]);
                            } else {
                                assert(s2[i] == s[i]);
                            }
                        }
                        assert forall|i: int, j: int|
                            0 <= i < s2.len() && 0 <= j < s2.len() && #[trigger] s2[i].frame() == #[trigger] s2[j].frame()
                            implies s2[i] == s2[j] by {
                            if i < n && j < n {
                                assert(s2[i] == s[i] && s2[j] == s[j]);
                            } else if i < n {
                                assert(s2[i] == s[i]);
                                assert(s[i].frame() == s.last().frame());
                                assert(s[i] == s[n - 1]);
                            } else if j < n {
                                assert(s2[j] == s[j]);
                                assert(s[j].frame() == s.last().frame());
                                assert(s[j] == s[n - 1]);
                            }
                        }
                    },
                }
            },
        }
    }
}

proof fn lemma_runs_monotone(s: Seq<Timestamp>, a: int, b: int)
    requires
        0 <= a <= b,
    ensures
        existent_runs(s, a) <= existent_runs(s, b),
    decreases b,
{
    if a < b {
        lemma_runs_monotone(s, a, b - 1);
    }
}

/// The runs among the first `n` frames are the distinct indices of their `Existent` frames.
proof fn lemma_runs_count(s: Seq<Timestamp>, n: int)
    requires
        frames_ordered(s),
        0 <= n <= s.len(),
    ensures
        existent_frames(s.subrange(0, n)).finite(),
        existent_frames(s.subrange(0, n)).len() == existent_runs(s, n),
    decreases n,
{
    let a = existent_frames(s.subrange(0, n));
    if n == 0 {
        assert(a =~= Set::<usize>::empty());
    } else {
        lemma_runs_count(s, n - 1);
        let b = existent_frames(s.subrange(0, n - 1));
        let p = s.subrange(0, n);
        let q = s.subrange(0, n - 1);
        assert forall|f: usize| #[trigger] a.contains(f) <==> b.contains(f) || s[n - 1] == Timestamp::Existent(f) by {
            if p.contains(Timestamp::Existent(f)) {
                let k = choose|k: int| 0 <= k < p.len() && p[k] == Timestamp::Existent(f);
                if k < n - 1 {
                    assert(q[k] == p[k]);
                }
            }
            if q.contains(Timestamp::Existent(f)) {
                let k = choose|k: int| 0 <= k < q.len() && q[k] == Timestamp::Existent(f);
                assert(p[k] == q[k]);
            }
            if s[n - 1] == Timestamp::Existent(f) {
                assert(p[n - 1] == s[n - 1]);
            }
        }
        match s[n - 1] {
            Timestamp::Existent(f) => {
                assert(a =~= b.insert(f));
                if starts_existent_run(s, n - 1) {
                    if b.contains(f) {
                        let k = choose|k: int| 0 <= k < q.len() && q[k] == Timestamp::Existent(f);
                        assert(q[k] == s[k]);
                        assert(s[k].frame() == s[n - 1].frame());
                        assert(s[k].frame() <= s[n - 2].frame());
                        assert(s[n - 2].frame() <= s[n - 1].frame());
                        assert(s[n - 2] == s[n - 1]);
                    }
                } else {
                    assert(s[n - 2] == s[n - 1]);
                    assert(q[n - 2] == s[n - 2]);
                    assert(b.contains(f));
                }
            },
            Timestamp::Nonexistent(_) => {
                assert(a =~= b);
            },
        }
    }
}

proof fn lemma_runs_positive(s: Seq<Timestamp>, i: int)
    requires
        0 <= i < s.len(),
        s[i] is Existent,
    ensures
        existent_runs(s, i + 1) >= 1,
    decreases i,
{
    if !starts_existent_run(s, i) {
        lemma_runs_positive(s, i - 1);
    }
}

proof fn lemma_runs_order(s: Seq<Timestamp>, i: int, j: int)
    requires
        frames_ordered(s),
        0 <= i < j < s.len(),
        s[i] is Existent,
    ensures
        s[i] == s[j] ==> existent_runs(s, i + 1) == existent_runs(s, j + 1),
        s[i] != s[j] && s[j] is Existent ==> existent_runs(s, i + 1) < existent_runs(s, j + 1),
    decreases j,
{
    lemma_runs_monotone(s, i + 1, j);
    if s[i] == s[j] {
        if j - 1 > i {
            assert(s[i].frame() <= s[j - 1].frame() && s[j - 1].frame() <= s[j].frame());
            assert(s[j - 1] == s[i]);
            lemma_runs_order(s, i, j - 1);
        }
    } else if s[j] is Existent {
        if s[j - 1] == s[j] {
            lemma_runs_order(s, i, j - 1);
        }
    }
}

/// A history built from scratch by saving and retiring frames, with frames saved in order,
/// stores one component state per run of `Existent` frames: as many states as there are
/// distinct `f` with some frame `Existent(f)`. Frame `i`, when `Existent`, refers to stored state
/// `existent_runs(frames, i + 1) - 1`: the same state for every frame of its run, and later runs
/// refer to later states (the earliest at the front).
pub proof fn law_stored_states_match_existent_frames<T>(ops: Seq<HistoryOp<T>>)
    requires
        ops_ok(empty_history::<T>(), ops),
    ensures
        ({
            let h = after_ops(empty_history::<T>(), ops);
            &&& stored_states_match(h)
            &&& h.components.len() == existent_frames(h.frames).len()
            &&& forall|i: int|
                0 <= i < h.frames.len() && h.frames[i] is Existent ==> 1 <= #[trigger] existent_runs(h.frames, i + 1)
                    <= h.components.len()
            &&& forall|i: int, j: int|
                0 <= i < j < h.frames.len() && h.frames[i] is Existent && h.frames[j] is Existent ==> (
                #[trigger] existent_runs(h.frames, i + 1) == #[trigger] existent_runs(h.frames, j + 1) <==> h.frames[i]
                    == h.frames[j]) && (existent_runs(h.frames, i + 1) <= existent_runs(h.frames, j + 1))
        }),
{
    let h0 = empty_history::<T>();
    lemma_ops_keep_match(h0, ops);
    let h = after_ops(h0, ops);
    let s = h.frames;
    lemma_runs_count(s, s.len() as int);
    assert(s.subrange(0, s.len() as int) =~= s);
    assert forall|i: int| 0 <= i < s.len() && s[i] is Existent implies 1 <= #[trigger] existent_runs(s, i + 1)
        <= h.components.len() by {
        lemma_runs_positive(s, i);
        lemma_runs_monotone(s, i + 1, s.len() as int);
    }
    assert forall|i: int, j: int|
        0 <= i < j < s.len() && s[i] is Existent && s[j] is Existent implies (#[trigger] existent_runs(s, i + 1)
        == #[trigger] existent_runs(s, j + 1) <==> s[i] == s[j]) && (existent_runs(s, i + 1) <= existent_runs(s, j + 1)) by {
        lemma_runs_order(s, i, j);
    }
}

/// The tick that finishes a rewind (no frames left) returns the component still on the entity
/// to storage, after the states of the stepped-back history, whether or not frames remain; the
/// frames are those left by the steps, or a single frame with the component when none remain.
pub proof fn law_finishing_tick_returns_component<T>(
    h: HistoryView<T>,
    rewind: Rewind,
    ooh: OutOfHistory,
    t: T,
    frame_time: usize,
)
    requires
        rewind.frames == 0,
        !steps_despawned(h, ooh, rewind.fps as nat),
    ensures
        ({
            let s = steps_history(h, rewind.fps as nat);
            let r = rewound(h, rewind, ooh, Some(t), frame_time);
            &&& r.components == s.components.push(t)
            &&& r.components.len() == s.components.len() + 1
            &&& r.components.last() == t
            &&& r.storage_state == s.storage_state
            &&& s.frames.len() > 0 ==> r.frames == s.frames && r.rendered_frame == s.rendered_frame
            &&& s.frames.len() == 0 ==> r.frames == seq![Timestamp::Existent(frame_time)] && r.rendered_frame
                == frame_time
        }),
{
}

/// A tick that does not finish the rewind, or finishes it without a component on the entity or
/// after despawning it, only steps back: nothing returns to storage.
pub proof fn law_other_ticks_only_step<T>(
    h: HistoryView<T>,
    rewind: Rewind,
    ooh: OutOfHistory,
    current: Option<T>,
    frame_time: usize,
)
    requires
        rewind.frames > 0 || current is None || steps_despawned(h, ooh, rewind.fps as nat),
    ensures
        rewound(h, rewind, ooh, current, frame_time) == steps_history(h, rewind.fps as nat),
{
}

/// `steps_ok` for `m` steps implies it for fewer steps.
pub proof fn lemma_steps_ok_prefix<T>(h: HistoryView<T>, n: nat, m: nat)
    requires
        n < m,
        steps_ok(h, m),
    ensures
        steps_ok(h, n),
        step_ok(steps_history(h, n)),
    decreases m - n,
{
    if n + 1 < m {
        lemma_steps_ok_prefix(h, n + 1, m);
    }
}

} // verus!
