use cursive::event::{Event, EventResult, Key, Modifiers, MouseButton, MouseEvent};
use cursive::geometry::Vec2;
use cursive::menubar::Menubar;
use cursive::widget::Direction;

fn work_of(result: EventResult<&'static str>) -> Option<&'static str> {
    match result {
        EventResult::Consumed(Some(cb)) => Some(*cb.get()),
        _ => None,
    }
}

fn three_entries() -> Menubar<&'static str> {
    let mut bar = Menubar::new();
    bar.add_leaf(String::from("File"), "file");
    bar.add_subtree(String::from("Edit"), "edit");
    bar.add_leaf(String::from("Help"), "help");
    bar
}

#[test]
fn new_menubar_hides_and_is_inactive() {
    let bar: Menubar<&'static str> = Menubar::new();
    assert!(bar.autohide());
    assert!(!bar.visible());
    assert!(!bar.receive_events());
    assert!(!bar.has_submenu());
    assert_eq!(bar.len(), 0);
}

#[test]
fn menubar_without_autohide_is_always_visible() {
    let mut bar: Menubar<&'static str> = Menubar::new();
    bar.set_autohide(false);
    assert!(!bar.autohide());
    assert!(bar.visible());
    assert!(!bar.receive_events());
    bar.set_autohide(true);
    assert!(!bar.visible());
}

#[test]
fn take_focus_always_accepts_and_selects() {
    let mut bar: Menubar<&'static str> = Menubar::new();
    assert!(bar.take_focus(Direction::none()));
    assert!(bar.receive_events());
    assert!(bar.visible());
    assert!(bar.take_focus(Direction::Left));
    assert!(bar.receive_events());
}

#[test]
fn esc_deselects_the_menubar() {
    let mut bar = three_entries();
    bar.take_focus(Direction::none());
    let result = bar.on_event(Event::Key(Key::Esc));
    assert!(result.is_consumed());
    assert_eq!(work_of(result), None);
    assert!(!bar.receive_events());
    assert!(!bar.visible());
}

#[test]
fn enter_on_a_leaf_gives_its_work_and_closes_the_bar() {
    let mut bar = three_entries();
    bar.take_focus(Direction::none());
    assert_eq!(work_of(bar.on_event(Event::Key(Key::Enter))), Some("file"));
    assert!(!bar.receive_events());
    assert!(!bar.has_submenu());
}

#[test]
fn enter_on_a_subtree_opens_a_submenu() {
    let mut bar = three_entries();
    bar.take_focus(Direction::none());
    assert_eq!(work_of(bar.on_event(Event::Key(Key::Right))), None);
    assert_eq!(work_of(bar.on_event(Event::Key(Key::Down))), Some("edit"));
    assert!(bar.has_submenu());
    assert!(!bar.receive_events());
    assert!(bar.visible());
    bar.deselect();
    assert!(!bar.has_submenu());
    assert!(!bar.visible());
}

#[test]
fn left_and_right_go_round_at_the_ends() {
    let mut bar = three_entries();
    bar.take_focus(Direction::none());
    bar.on_event(Event::Key(Key::Left));
    assert_eq!(work_of(bar.on_event(Event::Key(Key::Enter))), Some("help"));
    bar.take_focus(Direction::none());
    bar.on_event(Event::Key(Key::Right));
    assert_eq!(work_of(bar.on_event(Event::Key(Key::Enter))), Some("file"));
    bar.take_focus(Direction::none());
    bar.on_event(Event::Key(Key::Right));
    bar.on_event(Event::Key(Key::Right));
    bar.on_event(Event::Key(Key::Left));
    assert_eq!(work_of(bar.on_event(Event::Key(Key::Enter))), Some("edit"));
}

#[test]
fn empty_menubar_consumes_its_keys_without_work() {
    let mut bar: Menubar<&'static str> = Menubar::new();
    bar.take_focus(Direction::none());
    assert!(bar.on_event(Event::Key(Key::Left)).is_consumed());
    assert!(bar.on_event(Event::Key(Key::Right)).is_consumed());
    let result = bar.on_event(Event::Key(Key::Enter));
    assert!(result.is_consumed());
    assert_eq!(work_of(result), None);
    assert!(bar.receive_events());
}

#[test]
fn menubar_ignores_other_events() {
    let mut bar = three_entries();
    bar.take_focus(Direction::none());
    assert!(!bar.on_event(Event::Char('x')).is_consumed());
    assert!(!bar.on_event(Event::Key(Key::Up)).is_consumed());
    assert!(!bar.on_event(Event::Shift(Key::Esc)).is_consumed());
    assert!(!bar.on_event(Event::Refresh).is_consumed());
    let release = Event::Mouse {
        event: MouseEvent::Release(MouseButton::Left),
        position: Vec2::new(2, 0),
        modifiers: Modifiers::none(),
    };
    assert!(!bar.on_event(release).is_consumed());
    assert!(bar.receive_events());
    assert_eq!(work_of(bar.on_event(Event::Key(Key::Enter))), Some("file"));
}

fn press(x: usize, y: usize) -> Event {
    Event::Mouse {
        event: MouseEvent::Press(MouseButton::Left),
        position: Vec2::new(x, y),
        modifiers: Modifiers::none(),
    }
}

#[test]
fn entries_stand_side_by_side_after_one_blank() {
    let bar = three_entries();
    assert_eq!(bar.entry_at(0), None);
    assert_eq!(bar.entry_at(1), Some(0));
    assert_eq!(bar.entry_at(6), Some(0));
    assert_eq!(bar.entry_at(7), Some(1));
    assert_eq!(bar.entry_at(12), Some(1));
    assert_eq!(bar.entry_at(13), Some(2));
    assert_eq!(bar.entry_at(18), Some(2));
    assert_eq!(bar.entry_at(19), None);
    assert_eq!(bar.entry_at(usize::MAX), None);
    let empty: Menubar<&'static str> = Menubar::new();
    assert_eq!(empty.entry_at(1), None);
}

#[test]
fn press_on_an_entry_chooses_it() {
    let mut bar = three_entries();
    bar.take_focus(Direction::none());
    assert_eq!(work_of(bar.on_event(press(14, 0))), Some("help"));
    assert!(!bar.receive_events());
    assert!(!bar.has_submenu());
    bar.take_focus(Direction::none());
    assert_eq!(work_of(bar.on_event(Event::Key(Key::Enter))), Some("help"));
    bar.take_focus(Direction::none());
    assert_eq!(work_of(bar.on_event(press(7, 0))), Some("edit"));
    assert!(bar.has_submenu());
}

#[test]
fn press_beside_the_entries_deselects_the_bar() {
    let mut bar = three_entries();
    bar.take_focus(Direction::none());
    let result = bar.on_event(press(40, 0));
    assert!(result.is_consumed());
    assert_eq!(work_of(result), None);
    assert!(!bar.receive_events());
    bar.take_focus(Direction::none());
    let result = bar.on_event(press(2, 1));
    assert!(result.is_consumed());
    assert_eq!(work_of(result), None);
    assert!(!bar.receive_events());
}

#[test]
fn choose_focused_gives_the_work_of_the_highlighted_entry() {
    let mut bar = three_entries();
    bar.take_focus(Direction::none());
    assert_eq!(work_of(bar.choose_focused()), Some("file"));
    assert!(!bar.visible());
}
