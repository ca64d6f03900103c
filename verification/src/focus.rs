//! Keyboard focus among a page's text inputs, and the events it sends the
//! page: which input is focused, what each input holds, and which inputs
//! were edited since their last `change` event.
//!
//! Each operation is planned as a list of steps. A step changes the focus
//! state, then sends one event to the page; sending can fail (a listener
//! throws), and then the steps after it are not taken. So the runner
//! applies each step's change, sends its event, and stops at the first
//! failure, leaving the state the steps taken so far made.
use crate::document::string_map;
use std::collections::{HashMap, HashSet};
use vstd::prelude::*;

verus! {

/// An event sent to the page for one of its elements.
#[derive(Clone, Copy, Debug, PartialEq, Eq, Structural)]
pub enum InputEvent {
    Focus(u64),
    Blur(u64),
    Change(u64),
    Input(u64),
    KeyDown(u64),
    KeyUp(u64),
}

/// How a step changes the focus state before its event is sent.
#[derive(Clone, Copy, Debug, PartialEq, Eq, Structural)]
pub enum FocusChange {
    /// Nothing changes.
    Keep,
    /// The input's edits are committed: it is no longer dirty.
    Commit(u64),
    /// Focus leaves the focused input.
    Unfocus,
    /// The input takes focus, with an empty value if it had none.
    FocusOn(u64),
}

/// One step of an operation: a change of the state, then an event.
#[derive(Clone, Copy, Debug, PartialEq, Eq, Structural)]
pub struct FocusStep {
    pub change: FocusChange,
    pub event: InputEvent,
}

/// The focus state of a page's inputs.
pub struct InputFocus {
    pub focused_input: Option<u64>,
    pub input_values: HashMap<u64, String>,
    pub dirty_inputs: HashSet<u64>,
}

/// The value of a focus state.
pub struct FocusModel {
    pub focused: Option<u64>,
    pub values: Map<u64, Seq<char>>,
    pub dirty: Set<u64>,
}

impl View for InputFocus {
    type V = FocusModel;

    open spec fn view(&self) -> FocusModel {
        FocusModel { focused: self.focused_input, values: string_map(self.input_values@), dirty: self.dirty_inputs@ }
    }
}

/// Whether a focused input holds a value.
pub open spec fn focus_wf(m: FocusModel) -> bool {
    match m.focused {
        Some(id) => m.values.contains_key(id),
        None => true,
    }
}

/// The state after a change.
pub open spec fn apply_spec(m: FocusModel, c: FocusChange) -> FocusModel {
    match c {
        FocusChange::Keep => m,
        FocusChange::Commit(id) => FocusModel { dirty: m.dirty.remove(id), ..m },
        FocusChange::Unfocus => FocusModel { focused: None, ..m },
        FocusChange::FocusOn(id) => FocusModel {
            focused: Some(id),
            values: if m.values.contains_key(id) {
                m.values
            } else {
                m.values.insert(id, Seq::empty())
            },
            ..m
        },
    }
}

/// The state after all the steps, taken in order.
pub open spec fn apply_all(m: FocusModel, steps: Seq<FocusStep>) -> FocusModel
    decreases steps.len(),
{
    if steps.len() == 0 {
        m
    } else {
        apply_all(apply_spec(m, steps[0].change), steps.drop_first())
    }
}

/// The events of the steps, in order.
pub open spec fn events_of(steps: Seq<FocusStep>) -> Seq<InputEvent> {
    steps.map_values(|s: FocusStep| s.event)
}

/// Committing the focused input: when it was edited since its last
/// `change`, it is marked clean and a `change` event is sent.
pub open spec fn commit_plan(m: FocusModel) -> Seq<FocusStep> {
    match m.focused {
        Some(id) => if m.dirty.contains(id) {
            seq![FocusStep { change: FocusChange::Commit(id), event: InputEvent::Change(id) }]
        } else {
            Seq::empty()
        },
        None => Seq::empty(),
    }
}

/// Blurring the focused input: it is committed, loses focus, and a `blur`
/// event is sent.
pub open spec fn blur_plan(m: FocusModel) -> Seq<FocusStep> {
    match m.focused {
        Some(id) => commit_plan(m).push(FocusStep { change: FocusChange::Unfocus, event: InputEvent::Blur(id) }),
        None => Seq::empty(),
    }
}

/// Focusing the input `id`: nothing when it has focus already; else the
/// focused input is blurred, `id` takes focus and a `focus` event is sent.
pub open spec fn focus_plan(m: FocusModel, id: u64) -> Seq<FocusStep> {
    if m.focused == Some(id) {
        Seq::empty()
    } else {
        blur_plan(m).push(FocusStep { change: FocusChange::FocusOn(id), event: InputEvent::Focus(id) })
    }
}

/// The element a key event goes to: the focused input, else the body.
pub open spec fn key_target(m: FocusModel, body: Option<u64>) -> Option<u64> {
    match m.focused {
        Some(id) => Some(id),
        None => body,
    }
}

/// A key press: a `keydown` event to the key target, then, for Enter in a
/// focused input, a commit.
pub open spec fn key_down_plan(m: FocusModel, is_enter: bool, body: Option<u64>) -> Seq<FocusStep> {
    let sent = match key_target(m, body) {
        Some(t) => seq![FocusStep { change: FocusChange::Keep, event: InputEvent::KeyDown(t) }],
        None => Seq::empty(),
    };
    if is_enter && m.focused is Some {
        sent + commit_plan(m)
    } else {
        sent
    }
}

/// A key release: a `keyup` event to the key target.
pub open spec fn key_up_plan(m: FocusModel, body: Option<u64>) -> Seq<FocusStep> {
    match key_target(m, body) {
        Some(t) => seq![FocusStep { change: FocusChange::Keep, event: InputEvent::KeyUp(t) }],
        None => Seq::empty(),
    }
}

/// Taking one more step after some steps.
pub proof fn lemma_apply_all_push(m: FocusModel, steps: Seq<FocusStep>, s: FocusStep)
    ensures
        apply_all(m, steps.push(s)) == apply_spec(apply_all(m, steps), s.change),
    decreases steps.len(),
{
    if steps.len() == 0 {
        assert(steps.push(s).drop_first() =~= Seq::<FocusStep>::empty());
        assert(apply_all(m, steps.push(s)) == apply_spec(m, s.change)) by {
            reveal_with_fuel(apply_all, 2);
        }
    } else {
        assert(steps.push(s)[0] == steps[0]);
        assert(steps.push(s).drop_first() =~= steps.drop_first().push(s));
        lemma_apply_all_push(apply_spec(m, steps[0].change), steps.drop_first(), s);
    }
}

impl InputFocus {
    /// No input focused, no values, nothing edited.
    pub fn new() -> (r: InputFocus)
        ensures
            r@.focused is None,
            r@.values == Map::<u64, Seq<char>>::empty(),
            r@.dirty == Set::<u64>::empty(),
    {
        let r = InputFocus { focused_input: None, input_values: HashMap::new(), dirty_inputs: HashSet::new() };
        proof {
            assert(string_map(r.input_values@) =~= Map::<u64, Seq<char>>::empty());
        }
        r
    }

    /// Makes the change of a step.
    pub fn apply(&mut self, change: FocusChange)
        ensures
            final(self)@ == apply_spec(old(self)@, change),
    {
        broadcast use vstd::std_specs::hash::group_hash_axioms;

        match change {
            FocusChange::Keep => {},
            FocusChange::Commit(id) => {
                self.dirty_inputs.remove(&id);
            },
            FocusChange::Unfocus => {
                self.focused_input = None;
            },
            FocusChange::FocusOn(id) => {
                self.focused_input = Some(id);
                if !self.input_values.contains_key(&id) {
                    let ghost before = self.input_values@;
                    self.input_values.insert(id, String::new());
                    proof {
                        assert(string_map(self.input_values@) =~= string_map(before).insert(id, Seq::empty()));
                    }
                }
            },
        }
    }

    /// The steps that commit the focused input.
    pub fn commit_focused_input(&self) -> (r: Vec<FocusStep>)
        ensures
            r@ == commit_plan(self@),
    {
        broadcast use vstd::std_specs::hash::group_hash_axioms;

        let mut steps = Vec::new();
        if let Some(id) = self.focused_input {
            if self.dirty_inputs.contains(&id) {
                steps.push(FocusStep { change: FocusChange::Commit(id), event: InputEvent::Change(id) });
            }
        }
        proof {
            assert(steps@ =~= commit_plan(self@));
        }
        steps
    }

    /// The steps that blur the focused input.
    pub fn blur_focused_input(&self) -> (r: Vec<FocusStep>)
        ensures
            r@ == blur_plan(self@),
    {
        match self.focused_input {
            Some(id) => {
                let mut steps = self.commit_focused_input();
                steps.push(FocusStep { change: FocusChange::Unfocus, event: InputEvent::Blur(id) });
                steps
            },
            None => Vec::new(),
        }
    }

    /// The steps that focus the input `id`.
    pub fn focus_input(&self, id: u64) -> (r: Vec<FocusStep>)
        ensures
            r@ == focus_plan(self@, id),
    {
        if self.focused_input == Some(id) {
            return Vec::new();
        }
        let mut steps = self.blur_focused_input();
        steps.push(FocusStep { change: FocusChange::FocusOn(id), event: InputEvent::Focus(id) });
        steps
    }

    /// The steps for the window gaining or losing focus: losing it blurs
    /// the focused input.
    pub fn update_focus(&self, focused: bool) -> (r: Vec<FocusStep>)
        ensures
            r@ == if focused {
                Seq::<FocusStep>::empty()
            } else {
                blur_plan(self@)
            },
    {
        if !focused {
            self.blur_focused_input()
        } else {
            Vec::new()
        }
    }

    fn key_target(&self, body: Option<u64>) -> (r: Option<u64>)
        ensures
            r == key_target(self@, body),
    {
        match self.focused_input {
            Some(id) => Some(id),
            None => body,
        }
    }

    /// The steps for a key press of `key`; `body` is the page's body
    /// element, where there is one.
    pub fn dispatch_key_down(&self, key: &str, body: Option<u64>) -> (r: Vec<FocusStep>)
        ensures
            r@ == key_down_plan(self@, key@ == "Enter"@, body),
    {
        let mut steps = Vec::new();
        if let Some(target) = self.key_target(body) {
            steps.push(FocusStep { change: FocusChange::Keep, event: InputEvent::KeyDown(target) });
        }
        let is_enter = crate::text::str_is(key, "Enter");
        if is_enter && self.focused_input.is_some() {
            let mut commit = self.commit_focused_input();
            let ghost sent = steps@;
            steps.append(&mut commit);
            proof {
                assert(steps@ =~= sent + commit_plan(self@));
            }
        }
        proof {
            assert(steps@ =~= key_down_plan(self@, key@ == "Enter"@, body));
        }
        steps
    }

    /// The steps for a key release; `body` is the page's body element,
    /// where there is one.
    pub fn dispatch_key_up(&self, body: Option<u64>) -> (r: Vec<FocusStep>)
        ensures
            r@ == key_up_plan(self@, body),
    {
        let mut steps = Vec::new();
        if let Some(target) = self.key_target(body) {
            steps.push(FocusStep { change: FocusChange::Keep, event: InputEvent::KeyUp(target) });
        }
        proof {
            assert(steps@ =~= key_up_plan(self@, body));
        }
        steps
    }

    /// Typing `text` into the focused input: its value grows by the text and
    /// it is marked edited. Returns the input, whose new value the page is
    /// then given, followed by an `input` event; `None`, changing nothing,
    /// when no input has focus.
    pub fn append_text(&mut self, text: &str) -> (r: Option<u64>)
        ensures
            r == old(self)@.focused,
            final(self)@.focused == old(self)@.focused,
            match old(self)@.focused {
                None => final(self)@ == old(self)@,
                Some(id) => {
                    &&& final(self)@.dirty == old(self)@.dirty.insert(id)
                    &&& final(self)@.values == old(self)@.values.insert(
                        id,
                        (if old(self)@.values.contains_key(id) {
                            old(self)@.values[id]
                        } else {
                            Seq::empty()
                        }) + text@,
                    )
                },
            },
    {
        broadcast use vstd::std_specs::hash::group_hash_axioms;

        let id = match self.focused_input {
            Some(id) => id,
            None => return None,
        };
        let mut value = match self.input_values.get(&id) {
            Some(v) => v.clone(),
            None => String::new(),
        };
        value.append(text);
        let ghost before = self.input_values@;
        let ghost grown = value@;
        self.input_values.insert(id, value);
        self.dirty_inputs.insert(id);
        proof {
            assert(string_map(self.input_values@) =~= string_map(before).insert(id, grown));
        }
        Some(id)
    }

    /// The value of the input `id`, where it has one.
    pub fn value_of(&self, id: u64) -> (r: Option<&String>)
        ensures
            match r {
                Some(v) => self@.values.contains_key(id) && self@.values[id] == v@,
                None => !self@.values.contains_key(id),
            },
    {
        broadcast use vstd::std_specs::hash::group_hash_axioms;

        self.input_values.get(&id)
    }
}

} // verus!
