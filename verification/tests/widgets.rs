use gristmill::gui::button::{Button, ButtonReaction, ButtonState as PushState};
use gristmill::gui::event::{GuiActionEvent, GuiActionEventRef, GuiInputEvent};
use gristmill::gui::widget::{ButtonBehavior, ButtonState, Image, WidgetNode};
use gristmill::gui::{Gui, GuiNodeId, NodeLayout};
use gristmill::geom2d::{IRect, IVec2, Size};

#[test]
fn button_state_default_and_activity() {
    assert_eq!(ButtonState::default(), ButtonState::Disabled);
    assert!(ButtonState::Hovered.is_active());
    assert!(ButtonState::Pressed.is_active());
    assert!(!ButtonState::Normal.is_active());
    assert!(!ButtonState::Disabled.is_active());
}

#[test]
fn button_behavior_reports_one_click() {
    let node = GuiNodeId(3);
    let mut b = ButtonBehavior::new(node);
    assert_eq!(b.state(), ButtonState::Disabled);
    // Without interaction the button stays disabled.
    assert_eq!(b.update(Some(node), false), None);
    assert!(!b.interact());
    assert_eq!(b.update(Some(node), false), Some(ButtonState::Hovered));
    assert!(!b.interact());
    assert_eq!(b.update(Some(node), true), Some(ButtonState::Pressed));
    assert!(!b.interact());
    assert_eq!(b.update(Some(node), false), Some(ButtonState::Hovered));
    assert!(b.interact());
    assert_eq!(b.update(Some(node), false), None);
    assert!(!b.interact());
    // Pointer elsewhere.
    assert_eq!(b.update(Some(GuiNodeId(4)), false), Some(ButtonState::Normal));
    // No interaction this frame: disabled.
    assert_eq!(b.update(Some(node), false), Some(ButtonState::Disabled));
}

#[test]
fn release_off_the_button_is_not_a_click() {
    let node = GuiNodeId(1);
    let mut b = ButtonBehavior::new(node);
    b.interact();
    b.update(Some(node), true);
    b.interact();
    assert_eq!(b.update(None, false), Some(ButtonState::Normal));
    assert!(!b.interact());
}

#[test]
fn push_button_clicks() {
    let mut b = Button::new(GuiActionEvent::Index(7));
    assert_eq!(b.state, PushState::Normal);
    assert!(b.enabled());
    assert_eq!(b.handle_input(GuiInputEvent::CursorMoved(IVec2::new(1, 1))), ButtonReaction::Hover);
    // Pressing while not hovered does nothing.
    assert_eq!(b.handle_input(GuiInputEvent::PrimaryButton(true)), ButtonReaction::Nothing);
    assert_eq!(b.state, PushState::Normal);
    b.set_hovered(true);
    assert_eq!(b.state, PushState::Hovered);
    assert_eq!(b.handle_input(GuiInputEvent::PrimaryButton(true)), ButtonReaction::Nothing);
    assert_eq!(b.state, PushState::Pressed);
    assert_eq!(b.handle_input(GuiInputEvent::PrimaryButton(false)), ButtonReaction::Press);
    assert_eq!(b.state, PushState::Hovered);
    assert!(matches!(b.press_event.as_ref(), GuiActionEventRef::Index(7)));
}

#[test]
fn push_button_enable_and_hover() {
    let mut b = Button::new(GuiActionEvent::Generic);
    b.set_hovered(true);
    b.set_enabled(false);
    assert_eq!(b.state, PushState::Disabled);
    assert!(!b.enabled());
    b.set_hovered(false);
    assert_eq!(b.state, PushState::Disabled);
    b.set_hovered(true);
    b.set_enabled(true);
    assert_eq!(b.state, PushState::Hovered);
    b.set_hovered(false);
    assert_eq!(b.state, PushState::Normal);
    b.set_focused(true);
    assert_eq!(b.state, PushState::Normal);
}

#[test]
fn action_event_as_ref() {
    let named = GuiActionEvent::NamedIndex("row".to_string(), 2);
    match named.as_ref() {
        GuiActionEventRef::NamedIndex(s, i) => {
            assert_eq!(s, "row");
            assert_eq!(i, 2);
        }
        _ => panic!("wrong variant"),
    }
    assert!(matches!(GuiActionEvent::Named("x".to_string()).as_ref(), GuiActionEventRef::Named("x")));
    assert!(matches!(GuiActionEvent::Generic.as_ref(), GuiActionEventRef::Generic));
}

#[test]
fn image_node_draws_what_it_is_given() {
    let mut gui: Gui<u32> = Gui::new(IRect::new(IVec2::new(0, 0), Size::new(10, 10)), 0);
    let root = gui.root();
    let image = Image::new(&mut gui, root, NodeLayout::default(), 5);
    assert_eq!(gui.get(image.node()).unwrap().draw, 5);
    image.set_draw(&mut gui, 9);
    assert_eq!(gui.get(image.node()).unwrap().draw, 9);
    assert_eq!(root.node(), root);
}
