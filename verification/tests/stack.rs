use cursive::backend::Backend;
use cursive::event::{Event, EventResult, Modifiers, MouseButton, MouseEvent};
use cursive::geometry::Vec2;
use cursive::printer::Printer;
use cursive::stack_view::{LayerPosition, Offset, Placement, Position, StackView};
use cursive::widget::{Direction, Selector, Widget};

struct Box2 {
    name: &'static str,
    wants: Vec2,
    seen: Vec<String>,
    takes: bool,
}

impl Box2 {
    fn new(name: &'static str, x: usize, y: usize) -> Self {
        Box2 { name, wants: Vec2::new(x, y), seen: Vec::new(), takes: true }
    }
}

impl Widget<u8> for Box2 {
    fn draw<B: Backend>(&self, _printer: &Printer, _backend: &mut B) {}

    fn layout(&mut self, size: Vec2) {
        self.seen.push(format!("layout {},{}", size.x, size.y));
    }

    fn needs_relayout(&self) -> bool {
        false
    }

    fn required_size(&mut self, constraint: Vec2) -> Vec2 {
        self.seen.push(format!("ask {},{}", constraint.x, constraint.y));
        self.wants
    }

    fn on_event(&mut self, event: Event) -> EventResult<u8> {
        self.seen.push(format!("{:?}", event));
        match event {
            Event::Char('!') => EventResult::with_cb(1),
            Event::Char(_) => EventResult::Consumed(None),
            Event::Mouse { .. } => EventResult::Consumed(None),
            _ => EventResult::Ignored,
        }
    }

    fn take_focus(&mut self, source: Direction) -> bool {
        self.seen.push(format!("focus {:?}", source));
        self.takes
    }

    fn focus_view(&mut self, selector: &Selector) -> Result<(), ()> {
        if self.contains(selector) {
            Ok(())
        } else {
            Err(())
        }
    }

    fn contains(&self, selector: &Selector) -> bool {
        match selector {
            Selector::Id(id) => *id == self.name,
        }
    }

    fn call_on_any<F, R>(&mut self, selector: &Selector, action: F) -> Option<R>
    where
        F: FnOnce(&mut Self) -> R,
    {
        if self.contains(selector) {
            Some(action(self))
        } else {
            None
        }
    }
}

#[test]
fn offset_centers_or_pins_along_one_axis() {
    assert_eq!(Offset::Center.compute_offset(10, 80), 35);
    assert_eq!(Offset::Center.compute_offset(3, 24), 10);
    assert_eq!(Offset::Center.compute_offset(5, 5), 0);
    assert_eq!(Offset::Center.compute_offset(6, 5), 0);
    assert_eq!(Offset::Absolute(4).compute_offset(10, 80), 4);
    assert_eq!(Offset::Absolute(75).compute_offset(10, 80), 70);
    assert_eq!(Offset::Absolute(4).compute_offset(90, 80), 0);
}

#[test]
fn placement_gives_the_corner_of_a_layer() {
    let position = Position { x: Offset::Absolute(2), y: Offset::Center };
    assert_eq!(
        position.compute_offset(Vec2::new(10, 4), Vec2::new(80, 24)),
        Vec2::new(2, 10)
    );
    assert_eq!(
        Placement::Floating(Position::center())
            .compute_offset(Vec2::new(10, 4), Vec2::new(80, 24)),
        Vec2::new(35, 10)
    );
    assert_eq!(
        Placement::Fullscreen.compute_offset(Vec2::new(80, 24), Vec2::new(80, 24)),
        Vec2::zero()
    );
}

#[test]
fn layer_position_counts_from_either_end() {
    assert_eq!(LayerPosition::FromBack(0).index(3), Some(0));
    assert_eq!(LayerPosition::FromBack(2).index(3), Some(2));
    assert_eq!(LayerPosition::FromBack(3).index(3), None);
    assert_eq!(LayerPosition::FromFront(0).index(3), Some(2));
    assert_eq!(LayerPosition::FromFront(2).index(3), Some(0));
    assert_eq!(LayerPosition::FromFront(3).index(3), None);
    assert_eq!(LayerPosition::FromFront(0).index(0), None);
}

#[test]
fn stack_pushes_and_pops_at_the_top() {
    let mut stack: StackView<Box2> = StackView::new();
    assert_eq!(stack.len(), 0);
    assert!(stack.pop_layer().is_none());
    stack.add_layer(Box2::new("a", 1, 1));
    stack.add_fullscreen_layer(Box2::new("b", 2, 2));
    stack.add_layer(Box2::new("c", 3, 3));
    assert_eq!(stack.len(), 3);
    assert_eq!(stack.pop_layer().map(|v| v.name), Some("c"));
    assert_eq!(stack.pop_layer().map(|v| v.name), Some("b"));
    assert_eq!(stack.len(), 1);
}

#[test]
fn layout_gives_each_layer_the_smaller_of_wish_and_screen() {
    let mut stack: StackView<Box2> = StackView::new();
    stack.add_layer(Box2::new("small", 10, 3));
    stack.add_layer(Box2::new("wide", 200, 3));
    stack.add_fullscreen_layer(Box2::new("full", 1, 1));
    assert_eq!(stack.layer_sizes(), vec![Vec2::zero(), Vec2::zero(), Vec2::zero()]);
    stack.layout::<u8>(Vec2::new(80, 24));
    assert_eq!(
        stack.layer_sizes(),
        vec![Vec2::new(10, 3), Vec2::new(80, 3), Vec2::new(80, 24)]
    );
    let full = stack.pop_layer().unwrap();
    assert_eq!(full.seen, vec!["layout 80,24", "focus Unset"]);
    let wide = stack.pop_layer().unwrap();
    assert_eq!(wide.seen, vec!["ask 80,24", "layout 80,3", "focus Unset"]);
}

#[test]
fn layout_offers_the_focus_only_the_first_time() {
    let mut stack: StackView<Box2> = StackView::new();
    stack.add_layer(Box2::new("a", 10, 3));
    stack.layout::<u8>(Vec2::new(80, 24));
    stack.layout::<u8>(Vec2::new(40, 2));
    let a = stack.pop_layer().unwrap();
    assert_eq!(
        a.seen,
        vec!["ask 80,24", "layout 10,3", "focus Unset", "ask 40,2", "layout 10,2"]
    );
}

#[test]
fn empty_stack_ignores_events_and_declines_focus() {
    let mut stack: StackView<Box2> = StackView::new();
    assert!(!stack.on_event::<u8>(Event::Char('a')).is_consumed());
    assert!(!stack.take_focus::<u8>(Direction::none()));
    assert_eq!(stack.focus_view::<u8>(&Selector::Id("a")), Err(()));
    assert_eq!(stack.call_on::<u8, _, _>(&Selector::Id("a"), |v: &mut Box2| v.name), None);
}

#[test]
fn only_the_top_layer_gets_events() {
    let mut stack: StackView<Box2> = StackView::new();
    stack.add_layer(Box2::new("below", 10, 3));
    stack.add_layer(Box2::new("top", 10, 3));
    assert!(stack.on_event::<u8>(Event::Char('a')).is_consumed());
    assert!(!stack.on_event::<u8>(Event::Refresh).is_consumed());
    match stack.on_event::<u8>(Event::Char('!')) {
        EventResult::Consumed(Some(cb)) => assert_eq!(*cb.get(), 1),
        _ => panic!("work expected"),
    }
    let top = stack.pop_layer().unwrap();
    assert_eq!(top.seen, vec!["Char('a')", "Refresh", "Char('!')"]);
    let below = stack.pop_layer().unwrap();
    assert!(below.seen.is_empty());
}

#[test]
fn top_layer_gets_mouse_events_in_its_own_coordinates() {
    let mut stack: StackView<Box2> = StackView::new();
    stack.add_layer(Box2::new("top", 10, 4));
    stack.layout::<u8>(Vec2::new(80, 24));
    let press = Event::Mouse {
        event: MouseEvent::Press(MouseButton::Left),
        position: Vec2::new(40, 12),
        modifiers: Modifiers::none(),
    };
    stack.on_event::<u8>(press);
    let expected = Event::Mouse {
        event: MouseEvent::Press(MouseButton::Left),
        position: Vec2::new(5, 2),
        modifiers: Modifiers::none(),
    };
    let top = stack.pop_layer().unwrap();
    assert_eq!(top.seen.last().unwrap(), &format!("{:?}", expected));
}

#[test]
fn take_focus_asks_the_top_layer() {
    let mut stack: StackView<Box2> = StackView::new();
    stack.add_layer(Box2::new("below", 10, 3));
    let mut shy = Box2::new("top", 10, 3);
    shy.takes = false;
    stack.add_layer(shy);
    assert!(!stack.take_focus::<u8>(Direction::Front));
    let top = stack.pop_layer().unwrap();
    assert_eq!(top.seen, vec!["focus Front"]);
    assert!(stack.take_focus::<u8>(Direction::Back));
}

#[test]
fn focus_view_and_call_on_find_the_first_match() {
    let mut stack: StackView<Box2> = StackView::new();
    stack.add_layer(Box2::new("a", 1, 1));
    stack.add_layer(Box2::new("b", 2, 2));
    stack.add_layer(Box2::new("b", 3, 3));
    assert_eq!(stack.focus_view::<u8>(&Selector::Id("b")), Ok(()));
    assert_eq!(stack.focus_view::<u8>(&Selector::Id("c")), Err(()));
    let wants = stack.call_on::<u8, _, _>(&Selector::Id("b"), |v: &mut Box2| {
        v.seen.push(String::from("called"));
        v.wants
    });
    assert_eq!(wants, Some(Vec2::new(2, 2)));
    assert!(stack.pop_layer().unwrap().seen.is_empty());
    assert_eq!(stack.pop_layer().unwrap().seen, vec!["called"]);
}

#[test]
fn reposition_moves_floating_layers_only() {
    let mut stack: StackView<Box2> = StackView::new();
    stack.add_layer(Box2::new("float", 10, 4));
    stack.add_fullscreen_layer(Box2::new("full", 1, 1));
    stack.layout::<u8>(Vec2::new(80, 24));
    let corner = Position { x: Offset::Absolute(0), y: Offset::Absolute(0) };
    stack.reposition_layer(LayerPosition::FromBack(0), corner);
    stack.reposition_layer(LayerPosition::FromFront(0), corner);
    stack.reposition_layer(LayerPosition::FromBack(7), corner);
    let press = Event::Mouse {
        event: MouseEvent::Press(MouseButton::Left),
        position: Vec2::new(3, 2),
        modifiers: Modifiers::none(),
    };
    stack.on_event::<u8>(press);
    assert_eq!(stack.pop_layer().unwrap().seen.last().unwrap(), &format!("{:?}", press));
    stack.on_event::<u8>(press);
    assert_eq!(stack.pop_layer().unwrap().seen.last().unwrap(), &format!("{:?}", press));
}
