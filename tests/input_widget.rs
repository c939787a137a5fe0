use input_widget::scene::{input_widget_input, input_widget_value, tick, ConnectionEvent, Scene};
use input_widget::value::{InputWidgetValue, TextValue};
use input_widget::widget::{is_printable_char, InputWidget, Size, BACKSPACE};

fn text(s: &str) -> TextValue {
    TextValue { text: s.to_string() }
}

fn area() -> Size {
    Size { width: 120, height: 24 }
}

/// A scene with one widget under entity 0; entity 0 is a graph node when `with_node`.
fn one_widget_scene(with_node: bool) -> Scene<TextValue> {
    let mut scene = Scene::new();
    if with_node {
        scene.nodes.push(Some(text("")));
    }
    scene.spawn_input_widget(text(""), area(), 0);
    scene
}

#[test]
fn typing_ab_backspace_c_gives_ac() {
    let mut w = InputWidget::new(text(""));
    w.focus();
    for c in ['a', 'b', BACKSPACE, 'c'] {
        w.receive(c);
    }
    assert_eq!(w.value.peek(), "ac");
    assert!(w.dirty());
}

#[test]
fn unfocused_widget_ignores_input() {
    let mut w = InputWidget::new(text("q"));
    w.receive('x');
    assert_eq!(w.value.peek(), "q");
    assert!(!w.dirty());
}

#[test]
fn blurred_widget_ignores_input() {
    let mut w = InputWidget::new(text(""));
    w.focus();
    w.receive('a');
    w.blur();
    w.clean();
    w.receive('b');
    w.receive(BACKSPACE);
    assert_eq!(w.value.peek(), "a");
    assert!(!w.dirty());
}

#[test]
fn printable_characters_are_appended_in_order() {
    let mut w = InputWidget::new(text(""));
    w.focus();
    let events: Vec<char> = "Hello,World!~09".chars().collect();
    w.receive_all(&events);
    assert_eq!(w.value.peek(), "Hello,World!~09");
}

#[test]
fn printable_characters_extend_existing_text() {
    let mut w = InputWidget::new(text("ab"));
    w.focus();
    w.receive_all(&vec!['c', 'd']);
    assert_eq!(w.value.peek(), "abcd");
}

#[test]
fn backspace_on_empty_value_is_a_no_op() {
    let mut v = text("");
    v.backspace();
    assert_eq!(v.peek(), "");
    let mut w = InputWidget::new(text(""));
    w.focus();
    w.receive(BACKSPACE);
    assert_eq!(w.value.peek(), "");
}

#[test]
fn backspace_removes_last_character() {
    let mut v = text("xyz");
    v.backspace();
    assert_eq!(v.peek(), "xy");
    v.on_input('Q');
    assert_eq!(v.peek(), "xyQ");
}

#[test]
fn non_graphic_characters_are_ignored() {
    let mut w = InputWidget::new(text("k"));
    w.focus();
    w.receive_all(&vec![' ', '\n', '\t', '\u{7f}', 'é']);
    assert_eq!(w.value.peek(), "k");
    assert!(!w.dirty());
}

#[test]
fn printable_class_is_graphic_ascii() {
    assert!(is_printable_char('!'));
    assert!(is_printable_char('~'));
    assert!(is_printable_char('a'));
    assert!(!is_printable_char(' '));
    assert!(!is_printable_char('\u{7f}'));
    assert!(!is_printable_char(BACKSPACE));
    assert!(!is_printable_char('ß'));
}

#[test]
fn widget_lifecycle_accessors() {
    let mut w = InputWidget::new(text("v"));
    assert!(w.can_click());
    assert_eq!(w.text_entity, None);
    w.build(area(), 5);
    assert_eq!(w.size(), area());
    assert_eq!(w.text_entity, Some(5));
    assert!(!w.active);
    w.focus();
    assert!(w.active);
    w.blur();
    assert!(!w.active);
    assert_eq!(w.get_value().peek(), "v");
}

#[test]
fn set_value_does_not_mark_dirty() {
    let mut w = InputWidget::new(text("old"));
    w.set_value(text("new"));
    assert_eq!(w.value.peek(), "new");
    assert!(!w.dirty());
}

#[test]
fn reducer_leaves_inactive_widgets_alone() {
    let mut scene = one_widget_scene(true);
    scene.spawn_input_widget(text("z"), area(), 0);
    scene.widgets[0].focus();
    input_widget_input(&mut scene, &vec!['m', 'n']);
    assert_eq!(scene.widgets[0].value.peek(), "mn");
    assert!(scene.widgets[0].dirty());
    assert_eq!(scene.widgets[1].value.peek(), "z");
    assert!(!scene.widgets[1].dirty());
}

#[test]
fn every_active_widget_receives_every_character() {
    let mut scene = one_widget_scene(true);
    scene.spawn_input_widget(text("p"), area(), 0);
    scene.widgets[0].focus();
    scene.widgets[1].focus();
    input_widget_input(&mut scene, &vec!['1', '2']);
    assert_eq!(scene.widgets[0].value.peek(), "12");
    assert_eq!(scene.widgets[1].value.peek(), "p12");
}

#[test]
fn tick_publishes_to_text_and_node() {
    let mut scene = one_widget_scene(true);
    scene.widgets[0].focus();
    let mut out = Vec::new();
    tick(&mut scene, &vec!['4', '2'], &mut out);
    assert!(!scene.widgets[0].dirty());
    assert_eq!(scene.texts[0], "42");
    assert_eq!(scene.nodes[0].as_ref().map(|v| v.peek()), Some("42".to_string()));
    assert_eq!(out, vec![ConnectionEvent::Propagate]);
}

#[test]
fn sync_without_parent_node_still_cleans_and_updates_text() {
    let mut scene = one_widget_scene(false);
    scene.widgets[0].focus();
    scene.widgets[0].receive('x');
    let mut out = Vec::new();
    input_widget_value(&mut scene, &mut out);
    assert!(!scene.widgets[0].dirty());
    assert_eq!(scene.texts[0], "x");
    assert!(scene.nodes.is_empty());
    assert!(out.is_empty());
}

#[test]
fn sync_skips_parent_that_is_not_a_node() {
    let mut scene = one_widget_scene(false);
    scene.nodes.push(None);
    scene.widgets[0].focus();
    scene.widgets[0].receive('y');
    let mut out = Vec::new();
    input_widget_value(&mut scene, &mut out);
    assert!(!scene.widgets[0].dirty());
    assert_eq!(scene.texts[0], "y");
    assert!(scene.nodes[0].is_none());
    assert!(out.is_empty());
}

#[test]
fn sync_without_text_element_still_writes_node() {
    let mut scene = one_widget_scene(true);
    scene.widgets[0].text_entity = Some(9);
    scene.widgets[0].focus();
    scene.widgets[0].receive('w');
    let mut out = Vec::new();
    input_widget_value(&mut scene, &mut out);
    assert!(!scene.widgets[0].dirty());
    assert_eq!(scene.texts[0], "");
    assert_eq!(scene.nodes[0].as_ref().map(|v| v.peek()), Some("w".to_string()));
    assert_eq!(out.len(), 1);
}

#[test]
fn second_sync_is_a_no_op() {
    let mut scene = one_widget_scene(true);
    scene.widgets[0].focus();
    scene.widgets[0].receive('r');
    let mut out = Vec::new();
    input_widget_value(&mut scene, &mut out);
    assert_eq!(out.len(), 1);
    input_widget_value(&mut scene, &mut out);
    assert_eq!(out.len(), 1);
    assert_eq!(scene.texts[0], "r");
    assert_eq!(scene.nodes[0].as_ref().map(|v| v.peek()), Some("r".to_string()));
}

#[test]
fn clean_widget_is_not_published() {
    let mut scene = one_widget_scene(true);
    scene.widgets[0].set_value(text("loaded"));
    let mut out = Vec::new();
    input_widget_value(&mut scene, &mut out);
    assert_eq!(scene.texts[0], "");
    assert_eq!(scene.nodes[0].as_ref().map(|v| v.peek()), Some(String::new()));
    assert!(out.is_empty());
}

#[test]
fn one_signal_per_node_written() {
    let mut scene: Scene<TextValue> = Scene::new();
    scene.nodes.push(Some(text("")));
    scene.nodes.push(Some(text("")));
    scene.spawn_input_widget(text(""), area(), 0);
    scene.spawn_input_widget(text(""), area(), 1);
    scene.spawn_input_widget(text(""), area(), 7);
    for w in scene.widgets.iter_mut() {
        w.focus();
    }
    let mut out = Vec::new();
    tick(&mut scene, &vec!['a', BACKSPACE, 'b'], &mut out);
    assert_eq!(out, vec![ConnectionEvent::Propagate, ConnectionEvent::Propagate]);
    assert_eq!(scene.texts, vec!["b".to_string(), "b".to_string(), "b".to_string()]);
    assert!(scene.widgets.iter().all(|w| !w.dirty()));
}

#[test]
fn take_update_hands_out_value_once() {
    let mut w = InputWidget::new(text(""));
    w.focus();
    w.receive('t');
    let first = w.take_update();
    assert_eq!(first.map(|v| v.peek()), Some("t".to_string()));
    assert!(!w.dirty());
    assert!(w.take_update().is_none());
    assert_eq!(w.value.peek(), "t");
}
