use std::collections::{BTreeMap, BTreeSet};

use grin::rewind::{
    EntityHistories, Frame, History, HistoryStorageState, Observation,
    OutOfHistory, Rewind, RewindAction, Timestamp, MAX_STORAGE_FRAMES,
};
use grin::time_hierarchy::propagate_rewinds;

#[derive(Clone, Debug, PartialEq)]
struct MockComponent(u32);

/// One entity of a small world that runs the rewind systems in their scheduled order.
#[derive(Default)]
struct Entity {
    component: Option<MockComponent>,
    /// Changed since the history saving system last ran.
    changed: bool,
    rewind: Option<Rewind>,
    /// Added since the rewind initialization system last ran.
    rewind_added: bool,
    out_of_history: Option<OutOfHistory>,
}

/// The world: entities, the frame counter and the histories, with the systems of one update
/// run in order. Commands are applied at the end of the update.
struct Sim {
    next_id: u64,
    entities: BTreeMap<u64, Entity>,
    frame: Frame,
    histories: EntityHistories<MockComponent>,
    mutate: bool,
}

impl Sim {
    fn new() -> Self {
        Sim {
            next_id: 1,
            entities: BTreeMap::new(),
            frame: Frame(0),
            histories: EntityHistories::new(),
            mutate: false,
        }
    }

    fn spawn(&mut self, c: MockComponent) -> u64 {
        let id = self.next_id;
        self.next_id += 1;
        self.entities.insert(
            id,
            Entity {
                component: Some(c),
                changed: true,
                ..Default::default()
            },
        );
        id
    }

    fn insert_component(&mut self, e: u64, c: MockComponent) {
        let ent = self.entities.get_mut(&e).unwrap();
        ent.component = Some(c);
        ent.changed = true;
    }

    fn remove_component(&mut self, e: u64) {
        self.entities.get_mut(&e).unwrap().component = None;
    }

    fn insert_rewind(&mut self, e: u64, rewind: Rewind, ooh: Option<OutOfHistory>) {
        let ent = self.entities.get_mut(&e).unwrap();
        ent.rewind = Some(rewind);
        ent.rewind_added = true;
        if ooh.is_some() {
            ent.out_of_history = ooh;
        }
    }

    fn despawn(&mut self, e: u64) {
        self.entities.remove(&e);
    }

    fn component(&self, e: u64) -> Option<&MockComponent> {
        self.entities.get(&e).and_then(|ent| ent.component.as_ref())
    }

    fn has_rewind(&self, e: u64) -> bool {
        self.entities.get(&e).map_or(false, |ent| ent.rewind.is_some())
    }

    fn history(&self, e: u64) -> Option<&History<MockComponent>> {
        self.histories.get(e)
    }

    fn update(&mut self) {
        // mutations of the component, before histories are added
        if self.mutate {
            for ent in self.entities.values_mut() {
                if let Some(c) = ent.component.as_mut() {
                    c.0 += 1;
                    ent.changed = true;
                }
            }
        }

        // rewind markers are updated before rewinding
        for ent in self.entities.values_mut() {
            if let Some(r) = ent.rewind.as_mut() {
                r.update();
            }
        }

        let with_component: Vec<u64> = self
            .entities
            .iter()
            .filter(|(_, ent)| ent.component.is_some())
            .map(|(id, _)| *id)
            .collect();
        self.histories.add_new_histories(&with_component);

        self.histories.retire_frames();

        for e in self.histories.entities() {
            let obs = match self.entities.get(&e) {
                Some(ent) if ent.rewind.is_some() => Observation::Rewinding,
                Some(Entity {
                    component: Some(c),
                    changed: true,
                    ..
                }) => Observation::Changed(c.clone()),
                Some(Entity {
                    component: Some(_),
                    ..
                }) => Observation::Unchanged,
                _ => Observation::Missing,
            };
            self.histories.save_frame(e, self.frame.0, obs);
        }
        for ent in self.entities.values_mut() {
            ent.changed = false;
        }

        for (e, ent) in self.entities.iter_mut() {
            if ent.rewind_added {
                self.histories.initialize_rewind(*e);
            }
            ent.rewind_added = false;
        }

        let mut commands: Vec<(u64, RewindAction<MockComponent>)> = Vec::new();
        for (e, ent) in self.entities.iter() {
            if let Some(r) = ent.rewind {
                assert!(self.histories.components_suffice(*e, r.fps));
                let ooh = ent.out_of_history.unwrap_or(OutOfHistory::Resume);
                let actions =
                    self.histories
                        .rewind(*e, &r, ooh, ent.component.clone(), self.frame.0);
                commands.extend(actions.into_iter().map(|a| (*e, a)));
            }
        }

        let alive: Vec<u64> = self.entities.keys().copied().collect();
        self.histories.clear_unused_histories(&alive, &with_component_now(&self.entities));

        self.frame.advance();

        for (e, action) in commands {
            let Some(ent) = self.entities.get_mut(&e) else {
                continue;
            };
            match action {
                RewindAction::InsertComponent(c) => {
                    ent.component = Some(c);
                    ent.changed = true;
                }
                RewindAction::RemoveComponent => ent.component = None,
                RewindAction::RemoveRewind => ent.rewind = None,
                RewindAction::Despawn => {
                    self.entities.remove(&e);
                }
            }
        }
    }
}

fn with_component_now(entities: &BTreeMap<u64, Entity>) -> Vec<u64> {
    entities
        .iter()
        .filter(|(_, ent)| ent.component.is_some())
        .map(|(id, _)| *id)
        .collect()
}

fn rewind_frames(frames: u32) -> Rewind {
    Rewind {
        frames,
        ..Rewind::new_default()
    }
}

fn check_history(sim: &mut Sim) {
    let e = sim.spawn(MockComponent(0));

    sim.update();

    // should add a history for `e` with one component and timestamp
    let history = sim.history(e).unwrap();
    assert_eq!(*history.frames.back().unwrap(), Timestamp::Existent(0));
    assert_eq!(history.components.len(), 1);

    sim.update();

    // should refer to previous timestamp
    let history = sim.history(e).unwrap();
    assert_eq!(*history.frames.back().unwrap(), Timestamp::Existent(0));

    sim.mutate = true;

    sim.update();

    // should have an additional modified component with new timestamp
    let history = sim.history(e).unwrap();
    assert_eq!(*history.frames.back().unwrap(), Timestamp::Existent(2));
    assert_eq!(history.components.len(), 2);

    sim.remove_component(e);

    sim.update();

    // should show that the component has been removed with new timestamp
    let history = sim.history(e).unwrap();
    assert_eq!(*history.frames.back().unwrap(), Timestamp::Nonexistent(3));

    sim.update();

    // should refer to previous timestamp
    let history = sim.history(e).unwrap();
    assert_eq!(*history.frames.back().unwrap(), Timestamp::Nonexistent(3));
}

fn check_history_forget(sim: &mut Sim) {
    sim.mutate = true;

    let e = sim.spawn(MockComponent(0));

    sim.update();
    sim.update();

    sim.remove_component(e);

    for _ in 0..(MAX_STORAGE_FRAMES - 2) {
        sim.update();
    }

    // history should be at max capacity but functioning with two different components stored
    let history = sim.history(e).unwrap();
    assert_eq!(history.storage_state, HistoryStorageState::Growing);
    assert_eq!(history.frames.len(), MAX_STORAGE_FRAMES);
    assert_eq!(history.components.len(), 2);

    sim.update();

    // should have forgotten one entry
    let history = sim.history(e).unwrap();
    assert_eq!(history.storage_state, HistoryStorageState::Leaking);
    assert_eq!(history.frames.len(), MAX_STORAGE_FRAMES);
    assert_eq!(history.components.len(), 1);
}

fn check_history_cleanup(sim: &mut Sim) {
    let e = sim.spawn(MockComponent(0));

    sim.update();

    sim.remove_component(e);

    for _ in 0..(MAX_STORAGE_FRAMES - 1) {
        sim.update();
    }

    // history should drop when all `Existent` frames are forgotten
    assert!(sim.history(e).is_some());

    sim.update();

    assert!(sim.history(e).is_none());

    let e = sim.spawn(MockComponent(0));

    sim.update();

    // history should drop when entity despawns
    assert!(sim.history(e).is_some());

    sim.despawn(e);

    sim.update();

    assert!(sim.history(e).is_none());
}

fn check_rewind(sim: &mut Sim) {
    let e = sim.spawn(MockComponent(0));
    sim.update();
    sim.remove_component(e);
    sim.update();
    sim.insert_component(e, MockComponent(0));
    sim.update();
    sim.update();
    sim.mutate = true;
    sim.update();
    // expected final state:
    // `components.len() == 3`
    // `frames == [E(0), NE(1), E(2), E(2), E(4)]`

    let history = sim.history(e).unwrap();
    assert_eq!(history.components.len(), 3);
    assert_eq!(sim.component(e).unwrap().0, 1);

    let prev_rendered_frame = history.rendered_frame;
    sim.insert_rewind(e, rewind_frames(5), None);
    sim.update();

    let history = sim.history(e).unwrap();
    assert_eq!(history.components.len(), 2);

    sim.update();

    let history = sim.history(e).unwrap();
    assert_eq!(history.components.len(), 1);
    assert_eq!(sim.component(e).unwrap().0, 0);
    assert_ne!(prev_rendered_frame, history.rendered_frame);

    let prev_rendered_frame = history.rendered_frame;
    sim.update();

    let history = sim.history(e).unwrap();
    assert_eq!(history.components.len(), 1);
    assert_eq!(prev_rendered_frame, history.rendered_frame);

    sim.update();

    assert!(sim.component(e).is_none());

    sim.update();

    assert!(sim.component(e).is_some());
    assert!(!sim.has_rewind(e));
}

fn check_out_of_history(sim: &mut Sim) {
    let e = sim.spawn(MockComponent(0));

    sim.insert_rewind(
        e,
        Rewind { frames: 1, fps: 1 },
        Some(OutOfHistory::Resume),
    );
    sim.update();

    assert!(!sim.has_rewind(e));

    sim.insert_rewind(e, Rewind { frames: 2, fps: 1 }, Some(OutOfHistory::Pause));
    sim.update();

    assert!(sim.has_rewind(e));

    sim.update();

    sim.insert_rewind(
        e,
        Rewind { frames: 5, fps: 1 },
        Some(OutOfHistory::Despawn),
    );

    sim.update();
    sim.update();

    assert!(!sim.entities.contains_key(&e));
}

#[test]
fn mod_history() {
    check_history(&mut Sim::new());
}

#[test]
fn mod_history_forget() {
    check_history_forget(&mut Sim::new());
}

#[test]
fn mod_history_cleanup() {
    check_history_cleanup(&mut Sim::new());
}

#[test]
fn mod_rewind() {
    check_rewind(&mut Sim::new());
}

#[test]
fn mod_out_of_history() {
    check_out_of_history(&mut Sim::new());
}

#[test]
fn time_history() {
    check_history(&mut Sim::new());
}

#[test]
fn time_history_forget() {
    check_history_forget(&mut Sim::new());
}

#[test]
fn time_history_cleanup() {
    check_history_cleanup(&mut Sim::new());
}

#[test]
fn time_rewind() {
    check_rewind(&mut Sim::new());
}

#[test]
fn time_out_of_history() {
    check_out_of_history(&mut Sim::new());
}

#[test]
fn rewind_update_shrinks_fps_to_frames_left() {
    let mut r = Rewind { frames: 5, fps: 2 };
    r.update();
    assert_eq!(r, Rewind { frames: 3, fps: 2 });
    r.update();
    assert_eq!(r, Rewind { frames: 1, fps: 2 });
    r.update();
    assert_eq!(r, Rewind { frames: 0, fps: 1 });
    r.update();
    assert_eq!(r, Rewind { frames: 0, fps: 0 });
    assert_eq!(Rewind::new_default(), Rewind { frames: 0, fps: 1 });
}

#[test]
fn rewind_steps_exactly_the_requested_frames() {
    // law: over the ticks, the frames stepped plus the frames left add up to those requested
    let mut r = Rewind { frames: 7, fps: 3 };
    let mut stepped = 0;
    let mut ticks = 0;
    while r.frames > 0 {
        r.update();
        stepped += r.fps;
        ticks += 1;
    }
    assert_eq!(stepped, 7);
    assert_eq!(ticks, 3);
}

#[test]
fn history_never_exceeds_capacity() {
    // law: retire then save keeps at most `MAX_STORAGE_FRAMES` frames
    let mut h: History<u32> = History::new();
    h.save_frame(0, Observation::Changed(7));
    for f in 1..(3 * MAX_STORAGE_FRAMES) {
        h.retire_frame();
        h.save_frame(f, Observation::Unchanged);
        assert!(h.frames.len() <= MAX_STORAGE_FRAMES);
    }
    assert_eq!(h.frames.len(), MAX_STORAGE_FRAMES);
    assert_eq!(h.storage_state, HistoryStorageState::Leaking);
    // the single state is still referred to by every frame
    assert_eq!(h.components.len(), 1);
}

#[test]
fn leaking_stays_leaking() {
    let mut h: History<u32> = History::new();
    h.save_frame(0, Observation::Changed(1));
    for f in 1..MAX_STORAGE_FRAMES {
        h.save_frame(f, Observation::Changed(f as u32 + 1));
    }
    assert_eq!(h.storage_state, HistoryStorageState::Growing);
    h.retire_frame();
    assert_eq!(h.storage_state, HistoryStorageState::Leaking);
    assert_eq!(h.components.len(), MAX_STORAGE_FRAMES - 1);
    assert!(h.components_suffice(5));
    let _ = h.rewind(&Rewind { frames: 0, fps: 5 }, OutOfHistory::Pause, None, 600);
    assert_eq!(h.storage_state, HistoryStorageState::Leaking);
    h.initialize_rewind();
    h.save_frame(1000, Observation::Missing);
    assert_eq!(h.storage_state, HistoryStorageState::Leaking);
}

#[test]
fn save_then_step_back_gives_back_frames() {
    let mut h: History<u32> = History::new();
    h.save_frame(0, Observation::Changed(1));
    h.save_frame(1, Observation::Missing);
    let before: Vec<Timestamp> = h.frames.iter().copied().collect();
    h.save_frame(2, Observation::Changed(2));
    let actions = h.rewind(&Rewind { frames: 3, fps: 1 }, OutOfHistory::Pause, None, 3);
    assert!(actions.is_empty());
    let after: Vec<Timestamp> = h.frames.iter().copied().collect();
    assert_eq!(before, after);
}

#[test]
fn rewind_restores_and_removes_states() {
    let mut h: History<u32> = History::new();
    h.save_frame(0, Observation::Changed(10));
    h.save_frame(1, Observation::Missing);
    h.save_frame(2, Observation::Changed(20));
    // the state of frame 2 is on the entity
    h.initialize_rewind();
    assert_eq!(h.components.len(), 1);
    let actions = h.rewind(&Rewind { frames: 1, fps: 3 }, OutOfHistory::Resume, None, 3);
    assert_eq!(actions.len(), 2);
    assert!(matches!(actions[0], RewindAction::RemoveComponent));
    assert!(matches!(actions[1], RewindAction::InsertComponent(10)));
    assert!(h.frames.is_empty());
    assert_eq!(h.rendered_frame, 0);
    assert!(h.components.is_empty());
}

#[test]
fn rewind_out_of_history_reactions() {
    let mut h: History<u32> = History::new();
    let actions = h.rewind(&Rewind { frames: 1, fps: 2 }, OutOfHistory::Despawn, Some(4), 9);
    assert_eq!(actions.len(), 2);
    assert!(matches!(actions[0], RewindAction::Despawn));
    assert!(matches!(actions[1], RewindAction::Despawn));
    // a despawned entity does not return its component to storage
    assert!(h.components.is_empty());

    let mut h: History<u32> = History::new();
    let actions = h.rewind(&Rewind { frames: 0, fps: 1 }, OutOfHistory::Resume, Some(4), 9);
    assert_eq!(actions.len(), 2);
    assert!(matches!(actions[0], RewindAction::RemoveRewind));
    assert!(matches!(actions[1], RewindAction::RemoveRewind));
    // the component returns to storage with a frame to accompany it
    assert_eq!(h.components.len(), 1);
    assert_eq!(*h.frames.back().unwrap(), Timestamp::Existent(9));
    assert_eq!(h.rendered_frame, 9);

    let mut h: History<u32> = History::new();
    let actions = h.rewind(&Rewind { frames: 3, fps: 1 }, OutOfHistory::Pause, Some(4), 9);
    assert!(actions.is_empty());
    assert!(h.components.is_empty());
}

#[test]
fn components_suffice_detects_missing_states() {
    let mut h: History<u32> = History::new();
    h.save_frame(0, Observation::Changed(10));
    h.save_frame(1, Observation::Missing);
    h.save_frame(2, Observation::Changed(20));
    h.components.clear();
    // stepping back over frame 2 needs no state (it is the rendered one), frame 1 neither
    assert!(h.components_suffice(2));
    // frame 0 needs one
    assert!(!h.components_suffice(3));
}

#[test]
fn save_records_timestamps() {
    let mut h: History<u32> = History::new();
    h.save_frame(4, Observation::Changed(1));
    assert_eq!(*h.frames.back().unwrap(), Timestamp::Existent(4));
    h.save_frame(5, Observation::Unchanged);
    assert_eq!(*h.frames.back().unwrap(), Timestamp::Existent(4));
    h.save_frame(6, Observation::Missing);
    assert_eq!(*h.frames.back().unwrap(), Timestamp::Nonexistent(6));
    h.save_frame(7, Observation::Missing);
    assert_eq!(*h.frames.back().unwrap(), Timestamp::Nonexistent(6));
    h.save_frame(8, Observation::Rewinding);
    assert_eq!(h.frames.len(), 4);
    assert_eq!(h.rendered_frame, 6);
    assert_eq!(Timestamp::Nonexistent(6).frame_index(), 6);
}

#[test]
fn entity_histories_add_and_clear() {
    let mut hs: EntityHistories<u32> = EntityHistories::new();
    hs.add_new_histories(&vec![3, 1, 3]);
    assert_eq!(hs.len(), 2);
    assert!(hs.contains(1) && hs.contains(3) && !hs.contains(2));
    hs.save_frame(1, 0, Observation::Changed(5));
    hs.save_frame(3, 0, Observation::Changed(6));
    hs.initialize_rewind(3);
    // 1 is alive with stored state; 3 is alive without the component nor state
    hs.clear_unused_histories(&vec![1, 3], &vec![]);
    assert!(hs.contains(1));
    assert!(!hs.contains(3));
    // 1 is gone
    hs.clear_unused_histories(&vec![3], &vec![1]);
    assert_eq!(hs.len(), 0);
}

#[test]
fn propagate_rewinds_reaches_all_time_descendants() {
    // 1 -> 2 -> 4, 1 -> 3, 5 -> 6
    let edges = vec![(1, 2), (1, 3), (2, 4), (5, 6)];
    let mut t = propagate_rewinds(&edges, 1);
    t.sort();
    assert_eq!(t, vec![2, 3, 4]);
    assert!(propagate_rewinds(&edges, 4).is_empty());
    // shared descendants are visited once
    let dag = vec![(1, 2), (1, 3), (2, 4), (3, 4)];
    let mut t = propagate_rewinds(&dag, 1);
    t.sort();
    assert_eq!(t, vec![2, 3, 4]);
    // a cycle back to the root reaches the root too
    let cyc = vec![(1, 2), (2, 1)];
    let mut t = propagate_rewinds(&cyc, 1);
    t.sort();
    assert_eq!(t, vec![1, 2]);
}

#[test]
fn frame_counter_advances() {
    let mut f = Frame(41);
    f.advance();
    assert_eq!(f, Frame(42));
    assert_eq!(OutOfHistory::default_reaction(), OutOfHistory::Resume);
}

#[test]
fn rewind_pops_the_newest_frames() {
    let mut h: History<u32> = History::new();
    h.save_frame(0, Observation::Changed(1));
    h.save_frame(1, Observation::Unchanged);
    h.save_frame(2, Observation::Changed(2));
    h.save_frame(3, Observation::Unchanged);
    let oldest: Vec<Timestamp> = h.frames.iter().copied().take(2).collect();
    h.initialize_rewind();
    let _ = h.rewind(&Rewind { frames: 5, fps: 2 }, OutOfHistory::Pause, None, 4);
    let left: Vec<Timestamp> = h.frames.iter().copied().collect();
    assert_eq!(left, oldest);
}

/// The component an entity shows after applying rewind actions.
fn apply_actions(mut shown: Option<u32>, actions: Vec<RewindAction<u32>>) -> Option<u32> {
    for a in actions {
        match a {
            RewindAction::InsertComponent(t) => shown = Some(t),
            RewindAction::RemoveComponent => shown = None,
            _ => {}
        }
    }
    shown
}

#[test]
fn rewinding_restores_recorded_states() {
    // (state, changed) per frame: added, unchanged, changed, removed, still missing, re-added
    let timeline: Vec<(Option<u32>, bool)> =
        vec![(Some(1), true), (Some(1), false), (Some(2), true), (None, false), (None, false), (Some(3), true)];
    let n = timeline.len();
    for fps in 1..=n {
        let mut h: History<u32> = History::new();
        for (i, (state, changed)) in timeline.iter().enumerate() {
            let obs = match state {
                Some(t) if *changed => Observation::Changed(*t),
                Some(_) => Observation::Unchanged,
                None => Observation::Missing,
            };
            h.save_frame(10 + i, obs);
        }
        h.initialize_rewind();
        assert!(h.components_suffice(fps as u32));
        let actions = h.rewind(&Rewind { frames: 7, fps: fps as u32 }, OutOfHistory::Pause, Some(3), 99);
        assert_eq!(apply_actions(Some(3), actions), timeline[n - fps].0, "fps {}", fps);
    }
}

#[test]
fn rewind_ticks_compose() {
    let record = || {
        let mut h: History<u32> = History::new();
        h.save_frame(0, Observation::Changed(1));
        h.save_frame(1, Observation::Changed(2));
        h.save_frame(2, Observation::Missing);
        h.save_frame(3, Observation::Changed(4));
        h.save_frame(4, Observation::Unchanged);
        h.save_frame(5, Observation::Changed(6));
        h.initialize_rewind();
        h
    };
    let mut split = record();
    let first = split.rewind(&Rewind { frames: 3, fps: 2 }, OutOfHistory::Pause, Some(6), 6);
    let shown = apply_actions(Some(6), first);
    let second = split.rewind(&Rewind { frames: 1, fps: 3 }, OutOfHistory::Pause, shown, 6);
    let mut whole = record();
    let all = whole.rewind(&Rewind { frames: 1, fps: 5 }, OutOfHistory::Pause, Some(6), 6);
    assert_eq!(apply_actions(shown, second), apply_actions(Some(6), all));
    assert_eq!(split.frames, whole.frames);
    assert_eq!(split.components, whole.components);
    assert_eq!(split.rendered_frame, whole.rendered_frame);
}

#[test]
fn rewinding_a_leaking_history_restores_kept_states() {
    // 700 frames; every third frame changes the state, every seventh removes the component
    let n = 700;
    let state = |i: usize| if i % 7 == 6 { None } else { Some((i / 3) as u32) };
    let mut h: History<u32> = History::new();
    for i in 0..n {
        h.retire_frame();
        let obs = match state(i) {
            None => Observation::Missing,
            Some(t) if i == 0 || state(i - 1) != Some(t) || i % 5 == 0 => Observation::Changed(t),
            Some(_) => Observation::Unchanged,
        };
        h.save_frame(i, obs);
    }
    assert_eq!(h.frames.len(), MAX_STORAGE_FRAMES);
    assert_eq!(h.storage_state, HistoryStorageState::Leaking);
    for fps in [1usize, 2, 3, 50, 599, 600] {
        let mut r: History<u32> = History::new();
        for i in 0..n {
            r.retire_frame();
            let obs = match state(i) {
                None => Observation::Missing,
                Some(t) if i == 0 || state(i - 1) != Some(t) || i % 5 == 0 => Observation::Changed(t),
                Some(_) => Observation::Unchanged,
            };
            r.save_frame(i, obs);
        }
        r.initialize_rewind();
        assert!(r.components_suffice(fps as u32));
        let actions = r.rewind(&Rewind { frames: 1, fps: fps as u32 }, OutOfHistory::Pause, state(n - 1), n);
        assert_eq!(apply_actions(state(n - 1), actions), state(n - fps), "fps {}", fps);
    }
}

#[test]
fn stored_states_match_existent_frames() {
    let mut h: History<u32> = History::new();
    for i in 0..900usize {
        h.retire_frame();
        let obs = match i % 9 {
            0 | 4 | 8 => Observation::Changed(i as u32),
            6 | 7 => Observation::Missing,
            _ => Observation::Unchanged,
        };
        h.save_frame(i, obs);
        let distinct: BTreeSet<usize> = h
            .frames
            .iter()
            .filter_map(|t| match t {
                Timestamp::Existent(f) => Some(*f),
                Timestamp::Nonexistent(_) => None,
            })
            .collect();
        assert_eq!(h.components.len(), distinct.len(), "frame {}", i);
    }
}
