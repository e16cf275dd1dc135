use gruff_plot::source::GraphSourceKind;
use gruff_plot::widgets::bag::WidgetKind;
use gruff_plot::window::{WindowAction, WindowEvent, WindowModel, FIXED_WIDGETS, MIN_X_BOX};

fn model(n: usize) -> WindowModel {
    WindowModel::new(&vec![GraphSourceKind::Expression; n])
}

#[test]
fn new_window_focuses_first_source() {
    let m = model(2);
    assert_eq!(m.bag.len(), FIXED_WIDGETS + 4);
    assert_eq!(m.bag.focus, 9);
    assert_eq!(m.bag.kind(8), Some(WidgetKind::Button));
    assert_eq!(m.bag.kind(9), Some(WidgetKind::TextBox));
    assert_eq!(model(0).bag.focus, 0);
}

#[test]
fn adding_a_source_focuses_its_text_box() {
    let mut m = model(1);
    let act = m.step(&WindowEvent::AddSource);
    assert!(matches!(act, WindowAction::AddSource { kind: GraphSourceKind::Expression, kind_widget: 10, text_widget: 11 }));
    assert_eq!(m.bag.focus, 11);
    assert_eq!(m.sources.len(), 2);
    assert_eq!(m.bag.len(), 12);
}

#[test]
fn removing_keeps_the_last_source() {
    let mut m = model(2);
    m.bag.focus = 11;
    let act = m.step(&WindowEvent::RemoveSource);
    assert!(matches!(act, WindowAction::RemoveSource { kind_widget: 10, text_widget: 11 }));
    assert_eq!(m.bag.focus, 9);
    assert_eq!(m.bag.len(), 10);
    assert!(matches!(m.step(&WindowEvent::RemoveSource), WindowAction::Nothing));
    assert_eq!(m.sources.len(), 1);
}

#[test]
fn removing_leaves_other_focus() {
    let mut m = model(3);
    m.bag.focus = MIN_X_BOX;
    m.step(&WindowEvent::RemoveSource);
    assert_eq!(m.bag.focus, MIN_X_BOX);
}

#[test]
fn kind_button_cycles_its_source() {
    let mut m = model(2);
    let act = m.step(&WindowEvent::CycleKind(1));
    assert!(matches!(act, WindowAction::SetKind { source: 1, kind: GraphSourceKind::TxtFile }));
    assert_eq!(m.sources[1], GraphSourceKind::TxtFile);
    assert_eq!(m.sources[0], GraphSourceKind::Expression);
    assert!(matches!(m.step(&WindowEvent::CycleKind(5)), WindowAction::Nothing));
}

#[test]
fn tab_and_click_move_focus_to_text_boxes() {
    let mut m = model(1);
    m.step(&WindowEvent::FocusStep(1));
    assert_eq!(m.bag.focus, 2);
    m.step(&WindowEvent::FocusStep(-1));
    assert_eq!(m.bag.focus, 9);
    let mut hits = vec![false; 10];
    hits[0] = true;
    hits[4] = true;
    m.step(&WindowEvent::Click(hits));
    assert_eq!(m.bag.focus, 4);
    m.step(&WindowEvent::Click(vec![true; 3]));
    assert_eq!(m.bag.focus, 4);
}
