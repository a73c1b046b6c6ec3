use cursive::backend::Backend;
use cursive::cursive::{CbFunc, Cursive};
use cursive::event::{Event, EventResult, Key, Modifiers, MouseButton, MouseEvent};
use cursive::geometry::Vec2;
use cursive::printer::Printer;
use cursive::stack_view::{LayerPosition, Offset, Position};
use cursive::theme::{load_default, BaseColor, Color, ColorPair, Effect, Error, PaletteColor};
use cursive::widget::{Direction, Selector, Widget};
use std::cell::{Cell, RefCell};
use std::collections::VecDeque;
use std::rc::Rc;

type Log = Rc<RefCell<Vec<String>>>;

fn new_log() -> Log {
    Rc::new(RefCell::new(Vec::new()))
}

fn entries(log: &Log) -> Vec<String> {
    log.borrow().clone()
}

fn count(log: &Log, what: &str) -> usize {
    log.borrow().iter().filter(|line| line.as_str() == what).count()
}

fn position_of(log: &Log, what: &str) -> usize {
    match log.borrow().iter().position(|line| line.as_str() == what) {
        Some(at) => at,
        None => panic!("{} is not in the log", what),
    }
}

struct ScriptedBackend {
    events: VecDeque<Event>,
    size: (usize, usize),
    log: Log,
    fps: u32,
    colors: Cell<ColorPair>,
}

impl ScriptedBackend {
    fn new(events: Vec<Event>, size: (usize, usize), log: &Log) -> Self {
        ScriptedBackend {
            events: events.into_iter().collect(),
            size,
            log: log.clone(),
            fps: 0,
            colors: Cell::new(ColorPair {
                front: Color::TerminalDefault,
                back: Color::TerminalDefault,
            }),
        }
    }
}

impl Backend for ScriptedBackend {
    fn init() -> Box<Self> {
        Box::new(ScriptedBackend::new(Vec::new(), (80, 24), &new_log()))
    }

    fn finish(&mut self) {
        self.log.borrow_mut().push(String::from("finish"));
    }

    fn refresh(&mut self) {
        self.log.borrow_mut().push(String::from("refresh"));
    }

    fn has_colors(&self) -> bool {
        true
    }

    fn screen_size(&self) -> (usize, usize) {
        self.size
    }

    fn poll_event(&mut self) -> Event {
        match self.events.pop_front() {
            Some(event) => event,
            None => Event::Exit,
        }
    }

    fn print_at(&mut self, pos: (usize, usize), text: &str) {
        if text.trim().is_empty() {
            return;
        }
        self.log.borrow_mut().push(format!("print {},{} {}", pos.0, pos.1, text));
    }

    fn clear(&mut self, color: Color) {
        self.log.borrow_mut().push(String::from("clear"));
        self.log.borrow_mut().push(format!("clear with {:?}", color));
    }

    fn set_refresh_rate(&mut self, fps: u32) {
        self.fps = fps;
    }

    fn set_color(&mut self, colors: ColorPair) -> ColorPair {
        self.log.borrow_mut().push(format!("colors {:?} on {:?}", colors.front, colors.back));
        self.colors.replace(colors)
    }

    fn set_effect(&mut self, effect: Effect) {
        self.log.borrow_mut().push(format!("effect on {:?}", effect));
    }

    fn unset_effect(&mut self, effect: Effect) {
        self.log.borrow_mut().push(format!("effect off {:?}", effect));
    }
}

#[derive(Clone)]
enum Work {
    Quit,
    Say(Log, &'static str),
    AddScreen,
    PopLayer,
    Enqueue(Log, &'static str),
    ClearBinding(Event),
}

type Root = Cursive<Probe, ScriptedBackend, Work>;

impl CbFunc<Probe, ScriptedBackend> for Work {
    fn call_box(&self, siv: &mut Root) {
        match self {
            Work::Quit => siv.quit(),
            Work::Say(log, what) => log.borrow_mut().push(String::from(*what)),
            Work::AddScreen => {
                siv.add_screen();
            }
            Work::PopLayer => {
                siv.pop_layer();
            }
            Work::Enqueue(log, what) => siv.cb_sink().push(Work::Say(log.clone(), what)),
            Work::ClearBinding(event) => siv.clear_global_callbacks(*event),
        }
    }
}

enum Answer {
    Ignore,
    Consume,
    Ask(Work),
}

struct Probe {
    id: &'static str,
    log: Log,
    wants: Vec2,
    answer: Answer,
    touched: usize,
}

impl Probe {
    fn new(id: &'static str, log: &Log) -> Self {
        Probe { id, log: log.clone(), wants: Vec2::new(10, 3), answer: Answer::Ignore, touched: 0 }
    }

    fn answering(mut self, answer: Answer) -> Self {
        self.answer = answer;
        self
    }

    fn wanting(mut self, wants: Vec2) -> Self {
        self.wants = wants;
        self
    }
}

impl Widget<Work> for Probe {
    fn draw<B: Backend>(&self, printer: &Printer, backend: &mut B) {
        self.log.borrow_mut().push(format!(
            "draw {} at {},{} size {},{} focused {}",
            self.id, printer.offset.x, printer.offset.y, printer.size.x, printer.size.y,
            printer.focused
        ));
        printer.print(backend, Vec2::zero(), self.id);
    }

    fn layout(&mut self, size: Vec2) {
        self.log.borrow_mut().push(format!("layout {} {},{}", self.id, size.x, size.y));
    }

    fn needs_relayout(&self) -> bool {
        true
    }

    fn required_size(&mut self, constraint: Vec2) -> Vec2 {
        self.log
            .borrow_mut()
            .push(format!("required_size {} {},{}", self.id, constraint.x, constraint.y));
        self.wants
    }

    fn on_event(&mut self, event: Event) -> EventResult<Work> {
        self.log.borrow_mut().push(format!("event {} {:?}", self.id, event));
        match &self.answer {
            Answer::Ignore => EventResult::Ignored,
            Answer::Consume => EventResult::Consumed(None),
            Answer::Ask(work) => EventResult::with_cb(work.clone()),
        }
    }

    fn take_focus(&mut self, _source: Direction) -> bool {
        self.log.borrow_mut().push(format!("take_focus {}", self.id));
        true
    }

    fn focus_view(&mut self, selector: &Selector) -> Result<(), ()> {
        self.log.borrow_mut().push(format!("focus_view {}", self.id));
        if self.contains(selector) {
            Ok(())
        } else {
            Err(())
        }
    }

    fn contains(&self, selector: &Selector) -> bool {
        match selector {
            Selector::Id(id) => *id == self.id,
        }
    }

    fn call_on_any<F, R>(&mut self, selector: &Selector, action: F) -> Option<R>
    where
        F: FnOnce(&mut Self) -> R,
    {
        if self.contains(selector) {
            Some(action(self))
        } else {
            None
        }
    }
}

fn root_with(events: Vec<Event>, size: (usize, usize), log: &Log) -> Root {
    Cursive::with_backend(ScriptedBackend::new(events, size, log))
}

fn press_at(x: usize, y: usize) -> Event {
    Event::Mouse {
        event: MouseEvent::Press(MouseButton::Left),
        position: Vec2::new(x, y),
        modifiers: Modifiers::none(),
    }
}

#[test]
fn new_root_has_one_empty_active_screen() {
    let log = new_log();
    let siv = root_with(vec![], (80, 24), &log);
    assert_eq!(siv.screen_count(), 1);
    assert_eq!(siv.active_screen(), 0);
    assert_eq!(siv.screen().len(), 0);
    assert!(siv.is_running());
    assert_eq!(*siv.current_theme(), load_default());
}

#[test]
fn new_root_starts_its_backend() {
    let siv: Root = Cursive::new();
    assert_eq!(siv.screen_size(), Vec2::new(80, 24));
    assert_eq!(siv.screen_count(), 1);
}

#[test]
fn add_screen_appends_and_keeps_active() {
    let log = new_log();
    let mut siv = root_with(vec![], (80, 24), &log);
    assert_eq!(siv.add_screen(), 1);
    assert_eq!(siv.add_screen(), 2);
    assert_eq!(siv.screen_count(), 3);
    assert_eq!(siv.active_screen(), 0);
}

#[test]
fn add_active_screen_switches_to_the_new_screen() {
    let log = new_log();
    let mut siv = root_with(vec![], (80, 24), &log);
    assert_eq!(siv.add_active_screen(), 1);
    assert_eq!(siv.active_screen(), 1);
    assert_eq!(siv.screen_count(), 2);
}

#[test]
fn set_screen_switches_between_existing_screens() {
    let log = new_log();
    let mut siv = root_with(vec![], (80, 24), &log);
    siv.add_screen();
    siv.add_screen();
    siv.set_screen(2);
    assert_eq!(siv.active_screen(), 2);
    siv.set_screen(0);
    assert_eq!(siv.active_screen(), 0);
}

#[test]
fn try_set_screen_rejects_an_id_that_no_screen_has() {
    let log = new_log();
    let mut siv = root_with(vec![], (80, 24), &log);
    siv.add_screen();
    assert_eq!(siv.try_set_screen(2), Err(2));
    assert_eq!(siv.active_screen(), 0);
    assert_eq!(siv.try_set_screen(usize::MAX), Err(usize::MAX));
    assert_eq!(siv.active_screen(), 0);
    assert_eq!(siv.try_set_screen(1), Ok(()));
    assert_eq!(siv.active_screen(), 1);
    assert_eq!(siv.screen_count(), 2);
}

#[test]
fn layers_go_to_the_active_screen_only() {
    let log = new_log();
    let mut siv = root_with(vec![], (80, 24), &log);
    siv.add_layer(Probe::new("zero", &log));
    siv.add_active_screen();
    siv.add_layer(Probe::new("one-a", &log));
    siv.add_fullscreen_layer(Probe::new("one-b", &log));
    assert_eq!(siv.screen().len(), 2);
    siv.set_screen(0);
    assert_eq!(siv.screen().len(), 1);
    assert_eq!(siv.pop_layer().map(|v| v.id), Some("zero"));
    assert_eq!(siv.pop_layer().map(|v| v.id), None);
    siv.set_screen(1);
    assert_eq!(siv.screen().len(), 2);
    assert_eq!(siv.pop_layer().map(|v| v.id), Some("one-b"));
}

#[test]
fn switching_screens_changes_what_layout_and_draw_target() {
    let log = new_log();
    let mut siv = root_with(vec![], (80, 24), &log);
    siv.add_layer(Probe::new("zero", &log));
    siv.add_active_screen();
    siv.add_layer(Probe::new("one", &log));
    siv.layout();
    siv.draw();
    assert_eq!(count(&log, "layout one 10,3"), 1);
    assert_eq!(count(&log, "layout zero 10,3"), 0);
    assert!(entries(&log).iter().all(|line| !line.starts_with("draw zero")));
    siv.set_screen(0);
    siv.layout();
    siv.draw();
    assert_eq!(count(&log, "layout zero 10,3"), 1);
    assert_eq!(count(&log, "layout one 10,3"), 1);
}

#[test]
fn global_callbacks_fire_in_registration_order() {
    let log = new_log();
    let mut siv = root_with(vec![], (80, 24), &log);
    siv.add_global_callback(Event::Char('x'), Work::Say(log.clone(), "A"));
    siv.add_global_callback(Event::Char('y'), Work::Say(log.clone(), "other"));
    siv.add_global_callback(Event::Char('x'), Work::Say(log.clone(), "B"));
    siv.add_global_callback(Event::Char('x'), Work::Say(log.clone(), "C"));
    siv.handle_event(Event::Char('x'));
    assert_eq!(entries(&log), vec!["A", "B", "C"]);
    siv.handle_event(Event::Char('x'));
    assert_eq!(entries(&log), vec!["A", "B", "C", "A", "B", "C"]);
    siv.handle_event(Event::Char('z'));
    assert_eq!(entries(&log).len(), 6);
}

#[test]
fn ignored_event_reaches_global_callbacks_once_per_tick() {
    let log = new_log();
    let mut siv = root_with(vec![Event::Char('x'), Event::Refresh], (80, 24), &log);
    siv.add_layer(Probe::new("view", &log));
    siv.add_global_callback(Event::Char('x'), Work::Say(log.clone(), "A"));
    siv.add_global_callback(Event::Char('x'), Work::Say(log.clone(), "B"));
    siv.step();
    assert_eq!(count(&log, "A"), 1);
    assert_eq!(count(&log, "B"), 1);
    assert!(position_of(&log, "event view Char('x')") < position_of(&log, "A"));
    assert!(position_of(&log, "A") < position_of(&log, "B"));
    siv.step();
    assert_eq!(count(&log, "A"), 1);
    assert_eq!(count(&log, "B"), 1);
}

#[test]
fn consumed_event_does_not_reach_global_callbacks() {
    let log = new_log();
    let mut siv = root_with(vec![], (80, 24), &log);
    siv.add_layer(Probe::new("view", &log).answering(Answer::Consume));
    siv.add_global_callback(Event::Char('x'), Work::Say(log.clone(), "A"));
    siv.handle_event(Event::Char('x'));
    assert_eq!(count(&log, "A"), 0);
    assert_eq!(count(&log, "event view Char('x')"), 1);
}

#[test]
fn deferred_action_of_a_view_runs_on_the_root() {
    let log = new_log();
    let mut siv = root_with(vec![], (80, 24), &log);
    siv.add_layer(Probe::new("view", &log).answering(Answer::Ask(Work::AddScreen)));
    siv.add_global_callback(Event::Char('x'), Work::Say(log.clone(), "A"));
    siv.handle_event(Event::Char('x'));
    assert_eq!(siv.screen_count(), 2);
    assert_eq!(count(&log, "A"), 0);
}

#[test]
fn a_view_can_close_itself_through_a_deferred_action() {
    let log = new_log();
    let mut siv = root_with(vec![], (80, 24), &log);
    siv.add_layer(Probe::new("below", &log));
    siv.add_layer(Probe::new("dialog", &log).answering(Answer::Ask(Work::PopLayer)));
    siv.handle_event(Event::Key(Key::Enter));
    assert_eq!(siv.screen().len(), 1);
    assert_eq!(siv.pop_layer().map(|v| v.id), Some("below"));
}

#[test]
fn clear_global_callbacks_removes_exactly_that_key() {
    let log = new_log();
    let mut siv = root_with(vec![], (80, 24), &log);
    siv.add_global_callback(Event::Char('x'), Work::Say(log.clone(), "x1"));
    siv.add_global_callback(Event::Char('x'), Work::Say(log.clone(), "x2"));
    siv.add_global_callback(Event::Char('y'), Work::Say(log.clone(), "y1"));
    siv.clear_global_callbacks(Event::Char('x'));
    siv.clear_global_callbacks(Event::Char('q'));
    siv.on_event(Event::Char('x'));
    siv.on_event(Event::Char('y'));
    assert_eq!(entries(&log), vec!["y1"]);
    siv.add_global_callback(Event::Char('x'), Work::Say(log.clone(), "x3"));
    siv.on_event(Event::Char('x'));
    assert_eq!(entries(&log), vec!["y1", "x3"]);
}

#[test]
fn callbacks_run_from_a_snapshot_of_the_binding() {
    let log = new_log();
    let mut siv = root_with(vec![], (80, 24), &log);
    siv.add_global_callback(Event::Char('x'), Work::ClearBinding(Event::Char('x')));
    siv.add_global_callback(Event::Char('x'), Work::Say(log.clone(), "still runs"));
    siv.on_event(Event::Char('x'));
    assert_eq!(entries(&log), vec!["still runs"]);
    siv.on_event(Event::Char('x'));
    assert_eq!(entries(&log), vec!["still runs"]);
}

#[test]
fn mouse_binding_matches_the_position_as_it_came() {
    let log = new_log();
    let mut siv = root_with(vec![], (80, 24), &log);
    siv.set_autohide_menu(false);
    siv.select_menubar();
    siv.menubar().on_event(Event::Key(Key::Esc));
    siv.add_global_callback(press_at(5, 3), Work::Say(log.clone(), "hit"));
    siv.add_global_callback(press_at(5, 2), Work::Say(log.clone(), "relative"));
    siv.handle_event(press_at(5, 3));
    assert_eq!(entries(&log), vec!["hit"]);
    siv.handle_event(press_at(6, 3));
    assert_eq!(entries(&log), vec!["hit"]);
}

#[test]
fn async_callbacks_run_in_order_before_the_draw() {
    let log = new_log();
    let mut siv = root_with(vec![Event::Refresh], (80, 24), &log);
    siv.add_layer(Probe::new("view", &log));
    siv.cb_sink().push(Work::Say(log.clone(), "A"));
    siv.cb_sink().push(Work::Say(log.clone(), "B"));
    siv.cb_sink().push(Work::Say(log.clone(), "C"));
    siv.step();
    let lines = entries(&log);
    assert_eq!(&lines[0..3], &["A", "B", "C"]);
    let first_draw = lines.iter().position(|l| l.starts_with("draw ")).unwrap();
    let first_layout = lines.iter().position(|l| l.starts_with("required_size ")).unwrap();
    assert!(first_layout > 2);
    assert!(first_draw > first_layout);
    assert_eq!(count(&log, "A"), 1);
    assert_eq!(siv.cb_sink().len(), 0);
    siv.step();
    assert_eq!(count(&log, "A"), 1);
}

#[test]
fn async_callback_effect_is_visible_in_the_next_frame() {
    let log = new_log();
    let mut siv = root_with(vec![Event::Refresh], (80, 24), &log);
    siv.add_layer(Probe::new("below", &log));
    siv.add_layer(Probe::new("top", &log));
    siv.cb_sink().push(Work::PopLayer);
    siv.step();
    assert!(entries(&log).iter().all(|l| !l.starts_with("draw top")));
    assert!(entries(&log).iter().any(|l| l.starts_with("draw below")));
}

#[test]
fn callbacks_enqueued_while_draining_run_in_the_same_drain() {
    let log = new_log();
    let mut siv = root_with(vec![Event::Refresh, Event::Refresh], (80, 24), &log);
    siv.cb_sink().push(Work::Enqueue(log.clone(), "later"));
    siv.cb_sink().push(Work::Say(log.clone(), "second"));
    siv.run_pending();
    assert_eq!(entries(&log), vec!["second", "later"]);
    assert_eq!(siv.cb_sink().len(), 0);
    siv.step();
    assert_eq!(count(&log, "later"), 1);
}

#[test]
fn start_and_quit_set_the_running_flag() {
    let log = new_log();
    let mut siv = root_with(vec![], (80, 24), &log);
    siv.quit();
    assert!(!siv.is_running());
    siv.start();
    assert!(siv.is_running());
}

#[test]
fn draw_clears_first_then_draws_background_bar_and_layers() {
    let log = new_log();
    let mut siv = root_with(vec![], (80, 24), &log);
    siv.set_autohide_menu(false);
    siv.menubar().add_leaf(String::from("File"), Work::Quit);
    siv.add_fullscreen_layer(Probe::new("view", &log));
    siv.layout();
    log.borrow_mut().clear();
    assert!(siv.draw());
    let lines = entries(&log);
    assert_eq!(
        lines,
        vec![
            "clear",
            "clear with Dark(Blue)",
            "colors Dark(Black) on Dark(Blue)",
            "colors TerminalDefault on TerminalDefault",
            "print 2,0 File",
            "draw view at 0,1 size 80,23 focused true",
            "print 0,1 view",
        ]
    );
    log.borrow_mut().clear();
    assert!(!siv.draw());
    assert_eq!(count(&log, "clear"), 0);
    assert_eq!(entries(&log).len(), 5);
}

#[test]
fn hidden_menubar_is_not_drawn() {
    let log = new_log();
    let mut siv = root_with(vec![], (80, 24), &log);
    siv.menubar().add_leaf(String::from("File"), Work::Quit);
    siv.add_fullscreen_layer(Probe::new("view", &log));
    siv.layout();
    siv.draw();
    assert_eq!(count(&log, "print 2,0 File"), 0);
    assert_eq!(count(&log, "effect on Reverse"), 0);
}

#[test]
fn failed_theme_load_hands_the_backend_nothing() {
    let log = new_log();
    let mut siv = root_with(vec![], (80, 24), &log);
    assert_eq!(siv.load_theme(Err(Error::Parse)), Err(Error::Parse));
    assert!(entries(&log).is_empty());
    assert_eq!(siv.load_theme(Ok(load_default())), Ok(()));
    assert_eq!(entries(&log), vec!["clear", "clear with Dark(Blue)"]);
}

#[test]
fn empty_queue_ends_the_drain_at_once() {
    let log = new_log();
    let mut siv = root_with(vec![], (80, 24), &log);
    siv.run_pending();
    assert!(entries(&log).is_empty());
    assert!(siv.is_running());
}

#[test]
fn unchanged_layer_sizes_do_not_clear_again() {
    let log = new_log();
    let mut siv = root_with(vec![Event::Refresh; 6], (80, 24), &log);
    siv.step();
    assert_eq!(count(&log, "clear"), 0);
    siv.add_layer(Probe::new("view", &log));
    siv.step();
    assert_eq!(count(&log, "clear"), 1);
    siv.step();
    siv.step();
    assert_eq!(count(&log, "clear"), 1);
    siv.pop_layer();
    siv.step();
    assert_eq!(count(&log, "clear"), 2);
    siv.step();
    assert_eq!(count(&log, "clear"), 2);
}

#[test]
fn draw_says_whether_it_cleared() {
    let log = new_log();
    let mut siv = root_with(vec![], (80, 24), &log);
    siv.add_layer(Probe::new("view", &log));
    siv.layout();
    assert!(siv.draw());
    assert!(!siv.draw());
    siv.add_layer(Probe::new("more", &log).wanting(Vec2::new(4, 4)));
    siv.layout();
    assert!(siv.draw_in(Vec2::new(80, 24)));
    assert!(!siv.draw_in(Vec2::new(80, 24)));
    assert_eq!(count(&log, "clear"), 2);
}

#[test]
fn resize_clears_at_the_next_draw() {
    let log = new_log();
    let mut siv = root_with(vec![Event::WindowResize, Event::Refresh, Event::Refresh], (80, 24), &log);
    siv.add_layer(Probe::new("view", &log));
    siv.step();
    assert_eq!(count(&log, "clear"), 1);
    siv.step();
    assert_eq!(count(&log, "clear"), 2);
    siv.step();
    assert_eq!(count(&log, "clear"), 2);
}

#[test]
fn clear_uses_the_background_of_the_theme() {
    let log = new_log();
    let mut siv = root_with(vec![], (80, 24), &log);
    siv.clear();
    assert_eq!(entries(&log), vec!["clear", "clear with Dark(Blue)"]);
    assert_eq!(
        siv.current_theme().palette.color(PaletteColor::Background),
        Color::Dark(BaseColor::Blue)
    );
}

#[test]
fn quit_event_stops_the_loop_after_four_cycles() {
    let log = new_log();
    let events = vec![Event::Refresh, Event::Refresh, Event::Refresh, Event::Char('q')];
    let mut siv = root_with(events, (80, 24), &log);
    siv.add_layer(Probe::new("view", &log));
    siv.add_global_callback(Event::Char('q'), Work::Quit);
    let ticks = siv.run(1000);
    assert_eq!(ticks, 4);
    assert!(!siv.is_running());
    assert_eq!(count(&log, "refresh"), 4);
    assert_eq!(count(&log, "layout view 10,3"), 4);
    assert_eq!(entries(&log).iter().filter(|l| l.starts_with("draw view")).count(), 4);
}

#[test]
fn exit_event_stops_the_loop() {
    let log = new_log();
    let mut siv = root_with(vec![Event::Refresh, Event::Exit, Event::Refresh], (80, 24), &log);
    assert_eq!(siv.run(10), 2);
    assert!(!siv.is_running());
}

#[test]
fn run_stops_at_its_budget_and_can_start_again() {
    let log = new_log();
    let mut siv = root_with(vec![Event::Refresh; 5], (80, 24), &log);
    assert_eq!(siv.run(2), 2);
    assert!(siv.is_running());
    assert_eq!(siv.run(0), 0);
    siv.quit();
    assert!(!siv.is_running());
    assert_eq!(siv.run(10), 4);
    assert!(!siv.is_running());
    assert_eq!(count(&log, "refresh"), 6);
}

#[test]
fn layout_offers_all_rows_while_the_menubar_hides() {
    let log = new_log();
    let mut siv = root_with(vec![], (80, 24), &log);
    siv.add_layer(Probe::new("view", &log).wanting(Vec2::new(200, 200)));
    siv.layout();
    assert_eq!(count(&log, "required_size view 80,24"), 1);
    assert_eq!(count(&log, "layout view 80,24"), 1);
}

#[test]
fn layout_keeps_the_top_row_for_a_menubar_that_does_not_hide() {
    let log = new_log();
    let mut siv = root_with(vec![], (80, 24), &log);
    siv.set_autohide_menu(false);
    siv.add_layer(Probe::new("view", &log).wanting(Vec2::new(200, 200)));
    siv.layout();
    assert_eq!(count(&log, "required_size view 80,23"), 1);
    assert_eq!(count(&log, "layout view 80,23"), 1);
}

#[test]
fn layout_on_a_terminal_without_rows_offers_none() {
    let log = new_log();
    let mut siv = root_with(vec![], (80, 0), &log);
    siv.set_autohide_menu(false);
    siv.add_fullscreen_layer(Probe::new("view", &log));
    siv.layout_in(Vec2::new(80, 0));
    assert_eq!(count(&log, "layout view 80,0"), 1);
}

#[test]
fn first_layout_offers_the_focus_once() {
    let log = new_log();
    let mut siv = root_with(vec![], (80, 24), &log);
    siv.add_layer(Probe::new("view", &log));
    siv.layout();
    siv.layout();
    assert_eq!(count(&log, "take_focus view"), 1);
    assert_eq!(count(&log, "layout view 10,3"), 2);
}

#[test]
fn press_on_the_top_row_selects_a_visible_menubar() {
    let log = new_log();
    let mut siv = root_with(vec![], (80, 24), &log);
    siv.add_layer(Probe::new("view", &log));
    siv.set_autohide_menu(false);
    siv.pre_dispatch(press_at(3, 0));
    assert!(siv.menubar().receive_events());
    assert!(entries(&log).is_empty());
}

#[test]
fn press_on_a_menu_entry_runs_its_work() {
    let log = new_log();
    let mut siv = root_with(vec![], (80, 24), &log);
    siv.add_layer(Probe::new("view", &log));
    siv.add_global_callback(press_at(3, 0), Work::Say(log.clone(), "global"));
    siv.set_autohide_menu(false);
    siv.menubar().add_leaf(String::from("File"), Work::Say(log.clone(), "file"));
    siv.menubar().add_subtree(String::from("Edit"), Work::Say(log.clone(), "edit"));
    siv.handle_event(press_at(3, 0));
    assert_eq!(entries(&log), vec!["file"]);
    assert!(!siv.menubar().receive_events());
    siv.handle_event(press_at(8, 0));
    assert_eq!(entries(&log), vec!["file", "edit"]);
    assert!(siv.menubar().has_submenu());
    siv.handle_event(press_at(3, 0));
    assert_eq!(entries(&log).len(), 4);
    assert_eq!(entries(&log)[3], "global");
}

#[test]
fn press_on_the_top_row_beside_the_entries_is_not_for_the_screen() {
    let log = new_log();
    let mut siv = root_with(vec![], (80, 24), &log);
    siv.add_layer(Probe::new("view", &log));
    siv.set_autohide_menu(false);
    siv.handle_event(press_at(30, 0));
    assert!(!siv.menubar().receive_events());
    assert!(entries(&log).is_empty());
}

#[test]
fn press_elsewhere_or_with_hidden_menubar_goes_to_the_screen() {
    let log = new_log();
    let mut siv = root_with(vec![], (80, 24), &log);
    siv.add_fullscreen_layer(Probe::new("view", &log));
    siv.layout();
    siv.handle_event(press_at(3, 0));
    assert!(!siv.menubar().receive_events());
    siv.set_autohide_menu(false);
    siv.handle_event(press_at(3, 1));
    assert!(!siv.menubar().receive_events());
    siv.handle_event(Event::Mouse {
        event: MouseEvent::WheelUp,
        position: Vec2::new(3, 0),
        modifiers: Modifiers::none(),
    });
    assert!(!siv.menubar().receive_events());
    assert_eq!(entries(&log).iter().filter(|l| l.starts_with("event view")).count(), 3);
}

#[test]
fn screen_gets_the_event_below_the_menubar_row() {
    let log = new_log();
    let mut siv = root_with(vec![], (80, 24), &log);
    siv.add_fullscreen_layer(Probe::new("view", &log));
    siv.set_autohide_menu(false);
    siv.layout();
    siv.handle_event(press_at(5, 3));
    let expected = format!("event view {:?}", press_at(5, 2));
    assert_eq!(count(&log, &expected), 1);
    siv.set_autohide_menu(true);
    siv.handle_event(press_at(5, 3));
    let expected = format!("event view {:?}", press_at(5, 3));
    assert_eq!(count(&log, &expected), 1);
}

#[test]
fn selected_menubar_takes_events_before_screen_and_callbacks() {
    let log = new_log();
    let mut siv = root_with(vec![], (80, 24), &log);
    siv.add_layer(Probe::new("view", &log));
    siv.add_global_callback(Event::Char('x'), Work::Say(log.clone(), "global"));
    siv.menubar().add_leaf(String::from("File"), Work::Say(log.clone(), "file"));
    siv.select_menubar();
    siv.handle_event(Event::Char('x'));
    assert!(entries(&log).is_empty());
    siv.handle_event(Event::Key(Key::Enter));
    assert_eq!(entries(&log), vec!["file"]);
    assert!(!siv.menubar().receive_events());
    siv.handle_event(Event::Char('x'));
    assert_eq!(count(&log, "global"), 1);
}

#[test]
fn draw_dims_the_screen_while_the_menubar_is_selected() {
    let log = new_log();
    let mut siv = root_with(vec![], (80, 24), &log);
    siv.add_fullscreen_layer(Probe::new("view", &log));
    siv.menubar().add_leaf(String::from("File"), Work::Quit);
    siv.layout();
    siv.draw();
    assert_eq!(count(&log, "draw view at 0,0 size 80,24 focused true"), 1);
    assert_eq!(count(&log, "print 2,0 File"), 0);
    siv.select_menubar();
    siv.draw();
    assert_eq!(count(&log, "draw view at 0,0 size 80,24 focused false"), 1);
    assert_eq!(count(&log, "print 2,0 File"), 1);
}

#[test]
fn draw_puts_the_screen_below_a_menubar_that_does_not_hide() {
    let log = new_log();
    let mut siv = root_with(vec![], (80, 24), &log);
    siv.set_autohide_menu(false);
    siv.menubar().add_leaf(String::from("File"), Work::Quit);
    siv.menubar().add_leaf(String::from("Help"), Work::Quit);
    siv.add_fullscreen_layer(Probe::new("view", &log));
    siv.layout();
    siv.draw();
    assert_eq!(count(&log, "draw view at 0,1 size 80,23 focused true"), 1);
    assert_eq!(count(&log, "print 2,0 File"), 1);
    assert_eq!(count(&log, "print 8,0 Help"), 1);
    assert_eq!(count(&log, "print 0,1 view"), 1);
}

#[test]
fn set_theme_replaces_the_theme_and_clears() {
    let log = new_log();
    let mut siv = root_with(vec![], (80, 24), &log);
    let mut theme = load_default();
    theme.shadow = false;
    theme.palette.background = Color::Rgb(1, 2, 3);
    siv.set_theme(theme);
    assert_eq!(*siv.current_theme(), theme);
    assert_eq!(entries(&log), vec!["clear", "clear with Rgb(1, 2, 3)"]);
}

#[test]
fn failed_theme_load_keeps_the_theme() {
    let log = new_log();
    let mut siv = root_with(vec![], (80, 24), &log);
    assert_eq!(siv.load_theme(Err(Error::Parse)), Err(Error::Parse));
    assert_eq!(siv.load_theme(Err(Error::Io)), Err(Error::Io));
    assert_eq!(*siv.current_theme(), load_default());
    assert!(entries(&log).is_empty());
    let mut theme = load_default();
    theme.palette.view = Color::Light(BaseColor::Green);
    assert_eq!(siv.load_theme(Ok(theme)), Ok(()));
    assert_eq!(*siv.current_theme(), theme);
    assert_eq!(count(&log, "clear"), 1);
}

#[test]
fn set_fps_reaches_the_backend() {
    let log = new_log();
    let mut siv = root_with(vec![], (80, 24), &log);
    siv.set_fps(30);
    assert_eq!(siv.backend().fps, 30);
    siv.set_fps(1000);
    assert_eq!(siv.backend().fps, 1000);
    siv.set_fps(0);
    assert_eq!(siv.backend().fps, 0);
}

#[test]
fn screen_size_is_what_the_backend_reports() {
    let log = new_log();
    let siv = root_with(vec![], (132, 43), &log);
    assert_eq!(siv.screen_size(), Vec2::new(132, 43));
}

#[test]
fn backend_mut_reaches_the_backend() {
    let log = new_log();
    let mut siv = root_with(vec![], (80, 24), &log);
    siv.backend_mut().size = (10, 2);
    assert_eq!(siv.screen_size(), Vec2::new(10, 2));
}

#[test]
fn finish_gives_the_terminal_back() {
    let log = new_log();
    let mut siv = root_with(vec![], (80, 24), &log);
    siv.finish();
    assert_eq!(entries(&log), vec!["finish"]);
}

#[test]
fn focus_id_stops_at_the_first_layer_that_finds_the_view() {
    let log = new_log();
    let mut siv = root_with(vec![], (80, 24), &log);
    siv.add_layer(Probe::new("a", &log));
    siv.add_layer(Probe::new("b", &log));
    siv.add_layer(Probe::new("c", &log));
    assert_eq!(siv.focus_id("b"), Ok(()));
    assert_eq!(entries(&log), vec!["focus_view a", "focus_view b"]);
    assert_eq!(siv.focus(&Selector::Id("missing")), Err(()));
    assert_eq!(entries(&log).len(), 5);
}

#[test]
fn call_on_id_runs_the_action_on_the_first_match() {
    let log = new_log();
    let mut siv = root_with(vec![], (80, 24), &log);
    siv.add_layer(Probe::new("a", &log));
    siv.add_layer(Probe::new("b", &log));
    siv.add_layer(Probe::new("b", &log).wanting(Vec2::new(1, 1)));
    let seen = siv.call_on_id("b", |view: &mut Probe| {
        view.touched += 1;
        view.wants
    });
    assert_eq!(seen, Some(Vec2::new(10, 3)));
    let missing = siv.call_on(&Selector::Id("z"), |view: &mut Probe| view.touched);
    assert_eq!(missing, None);
    assert_eq!(siv.pop_layer().map(|v| v.touched), Some(0));
    assert_eq!(siv.pop_layer().map(|v| v.touched), Some(1));
    assert_eq!(siv.pop_layer().map(|v| v.touched), Some(0));
}

#[test]
fn reposition_layer_moves_a_floating_layer() {
    let log = new_log();
    let mut siv = root_with(vec![], (80, 24), &log);
    siv.add_layer(Probe::new("view", &log));
    siv.layout();
    siv.draw();
    assert_eq!(count(&log, "draw view at 35,10 size 10,3 focused true"), 1);
    siv.reposition_layer(
        LayerPosition::FromFront(0),
        Position { x: Offset::Absolute(2), y: Offset::Absolute(100) },
    );
    siv.draw();
    assert_eq!(count(&log, "draw view at 2,21 size 10,3 focused true"), 1);
    siv.reposition_layer(LayerPosition::FromBack(4), Position::center());
    siv.draw();
    assert_eq!(count(&log, "draw view at 2,21 size 10,3 focused true"), 2);
}

#[test]
fn only_the_top_layer_is_drawn_focused() {
    let log = new_log();
    let mut siv = root_with(vec![], (80, 24), &log);
    siv.add_fullscreen_layer(Probe::new("below", &log));
    siv.add_layer(Probe::new("top", &log).wanting(Vec2::new(20, 4)));
    siv.layout();
    siv.draw();
    let lines = entries(&log);
    let below = lines.iter().position(|l| l == "draw below at 0,0 size 80,24 focused false");
    let top = lines.iter().position(|l| l == "draw top at 30,10 size 20,4 focused true");
    assert!(below.is_some());
    assert!(top.is_some());
    assert!(below < top);
}

#[test]
fn root_always_takes_the_focus() {
    let log = new_log();
    let mut siv = root_with(vec![], (80, 24), &log);
    assert!(siv.take_focus(Direction::none()));
    siv.add_layer(Probe::new("view", &log));
    assert!(siv.take_focus(Direction::Back));
    assert!(entries(&log).is_empty());
    assert_eq!(siv.screen().len(), 1);
}

#[test]
fn send_appends_to_the_queue() {
    let log = new_log();
    let mut siv = root_with(vec![], (80, 24), &log);
    siv.send(Work::Say(log.clone(), "A"));
    siv.cb_sink().push(Work::Say(log.clone(), "B"));
    siv.send(Work::Say(log.clone(), "C"));
    assert_eq!(siv.cb_sink().len(), 3);
    siv.run_pending();
    assert_eq!(entries(&log), vec!["A", "B", "C"]);
}
