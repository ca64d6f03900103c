use katana_render_runtime::focus::{FocusChange, FocusStep, InputEvent, InputFocus};

/// Takes the steps in order: applies each change, then sends its event,
/// stopping at the first event that fails.
fn run(focus: &mut InputFocus, steps: Vec<FocusStep>, failing: Option<InputEvent>) -> Result<Vec<InputEvent>, String> {
    let mut sent = Vec::new();
    for step in steps {
        focus.apply(step.change);
        if Some(step.event) == failing {
            return Err(format!("{:?} listener failed", step.event));
        }
        sent.push(step.event);
    }
    Ok(sent)
}

#[test]
fn commit_focused_input_is_noop_when_not_focusing() {
    let mut focus = InputFocus::new();
    assert_eq!(focus.focused_input, None);
    let steps = focus.commit_focused_input();
    assert!(steps.is_empty());
    assert_eq!(run(&mut focus, steps, None), Ok(Vec::new()));
    assert_eq!(focus.focused_input, None);
}

#[test]
fn dispatch_key_down_for_unfocused_input_does_not_try_to_commit() {
    let mut focus = InputFocus::new();
    assert_eq!(focus.focused_input, None);
    let steps = focus.dispatch_key_down("Enter", Some(1));
    assert_eq!(run(&mut focus, steps, None), Ok(vec![InputEvent::KeyDown(1)]));
    assert_eq!(focus.focused_input, None);
}

#[test]
fn dispatch_key_down_propagates_listener_errors() {
    let mut focus = InputFocus::new();
    let steps = focus.dispatch_key_down("ArrowRight", Some(1));
    let result = run(&mut focus, steps, Some(InputEvent::KeyDown(1)));
    assert!(matches!(result, Err(error) if error.contains("failed")));
}

#[test]
fn commit_focused_input_propagates_change_listener_errors() {
    let mut focus = InputFocus::new();
    focus.focused_input = Some(7);
    focus.dirty_inputs.insert(7);
    let steps = focus.commit_focused_input();
    assert_eq!(steps, vec![FocusStep { change: FocusChange::Commit(7), event: InputEvent::Change(7) }]);
    let result = run(&mut focus, steps, Some(InputEvent::Change(7)));
    assert!(matches!(result, Err(error) if error.contains("failed")));
    assert!(!focus.dirty_inputs.contains(&7));
    assert_eq!(focus.focused_input, Some(7));
}

#[test]
fn focusing_blurs_the_edited_input_first() {
    let mut focus = InputFocus::new();
    let steps = focus.focus_input(3);
    assert_eq!(run(&mut focus, steps, None), Ok(vec![InputEvent::Focus(3)]));
    assert_eq!(focus.value_of(3), Some(&String::new()));

    assert_eq!(focus.append_text("ab"), Some(3));
    assert_eq!(focus.append_text("c"), Some(3));
    assert_eq!(focus.value_of(3), Some(&"abc".to_string()));
    assert!(focus.dirty_inputs.contains(&3));

    let steps = focus.focus_input(4);
    assert_eq!(
        run(&mut focus, steps, None),
        Ok(vec![InputEvent::Change(3), InputEvent::Blur(3), InputEvent::Focus(4)])
    );
    assert_eq!(focus.focused_input, Some(4));
    assert!(focus.dirty_inputs.is_empty());
    assert_eq!(focus.value_of(3), Some(&"abc".to_string()));
}

#[test]
fn focusing_the_focused_input_sends_nothing() {
    let mut focus = InputFocus::new();
    let steps = focus.focus_input(3);
    run(&mut focus, steps, None).expect("focus");
    assert!(focus.focus_input(3).is_empty());
}

#[test]
fn a_failed_blur_leaves_the_input_unfocused_but_stops_before_focus() {
    let mut focus = InputFocus::new();
    let steps = focus.focus_input(3);
    run(&mut focus, steps, None).expect("focus");
    let steps = focus.focus_input(4);
    assert!(run(&mut focus, steps, Some(InputEvent::Blur(3))).is_err());
    assert_eq!(focus.focused_input, None);
    assert_eq!(focus.value_of(4), None);
}

#[test]
fn enter_commits_and_other_keys_do_not() {
    let mut focus = InputFocus::new();
    let steps = focus.focus_input(5);
    run(&mut focus, steps, None).expect("focus");
    focus.append_text("x");
    let steps = focus.dispatch_key_down("a", Some(1));
    assert_eq!(run(&mut focus, steps, None), Ok(vec![InputEvent::KeyDown(5)]));
    assert!(focus.dirty_inputs.contains(&5));
    let steps = focus.dispatch_key_down("Enter", Some(1));
    assert_eq!(run(&mut focus, steps, None), Ok(vec![InputEvent::KeyDown(5), InputEvent::Change(5)]));
    assert!(focus.dirty_inputs.is_empty());
    let steps = focus.dispatch_key_up(Some(1));
    assert_eq!(run(&mut focus, steps, None), Ok(vec![InputEvent::KeyUp(5)]));
}

#[test]
fn losing_window_focus_blurs_the_input() {
    let mut focus = InputFocus::new();
    let steps = focus.focus_input(2);
    run(&mut focus, steps, None).expect("focus");
    assert!(focus.update_focus(true).is_empty());
    let steps = focus.update_focus(false);
    assert_eq!(run(&mut focus, steps, None), Ok(vec![InputEvent::Blur(2)]));
    assert_eq!(focus.focused_input, None);
}

#[test]
fn typing_without_focus_changes_nothing() {
    let mut focus = InputFocus::new();
    assert_eq!(focus.append_text("lost"), None);
    assert!(focus.dirty_inputs.is_empty());
    assert!(focus.dispatch_key_up(None).is_empty());
}
