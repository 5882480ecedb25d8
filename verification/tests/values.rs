use gristmill::gui::font::{fonts_to_load, Font, FontList};
use gristmill::gui::listener::{Compare, Comparison, EnableButton, GuiValue, GuiValueListener};
use gristmill::gui::button::{Button, ButtonState};
use gristmill::gui::event::GuiActionEvent;
use gristmill::gui::{Gui, GuiModel};
use gristmill::geom2d::IRect;
use gristmill::gui::style::{edge_rect_from_int, edge_rect_from_ints, ivec2_from_ints, layout_from_style, u32_from_int};
use gristmill::gui::Anchor;
use gristmill::gui::unpack::{classes_with_type, UnpackedWidgets};
use gristmill::gui::GuiNodeId;
use gristmill::asset::AssetError;
use gristmill::geom2d::{EdgeRect, IVec2};
use std::cmp::Ordering;

#[test]
fn font_lookup_by_name() {
    let fonts = FontList { names: vec!["sans".to_string(), "mono".to_string(), "sans".to_string()] };
    assert_eq!(fonts.find("mono"), Font(1));
    assert_eq!(fonts.find("sans"), Font(0));
    assert!(fonts.find("serif").is_null());
    assert_eq!(Font::null(), Font(usize::MAX));
    assert!(!Font(0).is_null());
}

#[test]
fn comparisons() {
    assert!(Comparison::Equal.matches(Ordering::Equal));
    assert!(!Comparison::NotEqual.matches(Ordering::Equal));
    assert!(Comparison::GreaterEqual.matches(Ordering::Greater));
    assert!(!Comparison::GreaterEqual.matches(Ordering::Less));
    assert!(Comparison::LessEqual.matches(Ordering::Less));
    assert!(!Comparison::Less.matches(Ordering::Greater));
    assert!(Comparison::Greater.matches_partial(3.partial_cmp(&2)));
    assert!(!Comparison::Equal.matches_partial(f32::NAN.partial_cmp(&1.0)));
}

struct Heard(Vec<i32>);

impl GuiValueListener<i32, ()> for Heard {
    fn told(self, gui: GuiModel<()>, new_value: i32) -> (Self, GuiModel<()>) {
        let mut heard = self.0;
        heard.push(new_value);
        (Heard(heard), gui)
    }
    fn value_changed(&mut self, _gui: &mut Gui<()>, new_value: &i32) {
        self.0.push(*new_value);
    }
}

struct HeardBool(Vec<bool>);

impl GuiValueListener<bool, ()> for HeardBool {
    fn told(self, gui: GuiModel<()>, new_value: bool) -> (Self, GuiModel<()>) {
        let mut heard = self.0;
        heard.push(new_value);
        (HeardBool(heard), gui)
    }
    fn value_changed(&mut self, _gui: &mut Gui<()>, new_value: &bool) {
        self.0.push(*new_value);
    }
}

#[test]
fn gui_value_reports_changes() {
    let mut gui: Gui<()> = Gui::new(IRect::zero(), ());
    let mut v: GuiValue<i32, Heard> = GuiValue::new();
    v.add_listener(Heard(Vec::new()));
    v.add_listener(Heard(Vec::new()));
    assert!(v.value.is_none());
    assert!(v.set(&mut gui, 3));
    assert_eq!(*v.get_ref(), 3);
    assert!(!v.set(&mut gui, 3));
    assert!(v.set(&mut gui, 4));
    assert_eq!(v.get(), 4);
    assert_eq!(v.listeners[0].0, vec![3, 4]);
    assert_eq!(v.listeners[1].0, vec![3, 4]);
}

#[test]
fn compare_listener_tells_whether_it_holds() {
    let mut gui: Gui<()> = Gui::new(IRect::zero(), ());
    let mut v: GuiValue<i32, Compare<i32, HeardBool>> = GuiValue::new();
    v.add_listener(Compare(Comparison::GreaterEqual, 10, HeardBool(Vec::new())));
    v.set(&mut gui, 5);
    v.set(&mut gui, 10);
    v.set(&mut gui, 12);
    v.set(&mut gui, -1);
    assert_eq!(v.listeners[0].2 .0, vec![false, true, true, false]);
}

#[test]
fn style_integers() {
    assert_eq!(u32_from_int(5), Some(5));
    assert_eq!(u32_from_int(-1), None);
    assert_eq!(ivec2_from_ints(&[1, 2]), Some(IVec2::new(1, 2)));
    assert_eq!(ivec2_from_ints(&[1, 2, 3]), None);
    assert_eq!(edge_rect_from_ints(&[1, 2, 3, 4]), Some(EdgeRect::new(1, 2, 3, 4)));
    assert_eq!(edge_rect_from_ints(&[1]), None);
    assert_eq!(edge_rect_from_int(6), EdgeRect::splat(6));
}

#[test]
fn unpacked_widgets_are_taken_once() {
    let mut widgets: UnpackedWidgets<i32> = UnpackedWidgets::new();
    assert_eq!(widgets.root(), GuiNodeId(usize::MAX));
    widgets.root = GuiNodeId(2);
    widgets.insert("a".to_string(), 1);
    widgets.insert("b".to_string(), 2);
    assert_eq!(widgets.root(), GuiNodeId(2));
    assert_eq!(widgets.get("a", |n| Some(n)).unwrap(), 1);
    match widgets.get("a", |n| Some(n)) {
        Err(AssetError::Other(m)) => assert_eq!(m, "no widget named a"),
        _ => panic!("expected an error"),
    }
    match widgets.get::<i32>("b", |_| None) {
        Err(AssetError::Other(m)) => assert_eq!(m, "widget b is wrong type"),
        _ => panic!("expected an error"),
    }
    assert!(widgets.widgets.is_empty());
}

#[test]
fn type_becomes_first_class() {
    let classes = vec!["wide".to_string()];
    assert_eq!(classes_with_type(&"button".to_string(), classes.clone()), vec!["button".to_string(), "wide".to_string()]);
    assert_eq!(classes_with_type(&String::new(), classes.clone()), classes);
}

#[test]
fn style_layout_defaults_and_overrides() {
    let empty = layout_from_style(None, None, None, None, None, None, None, None);
    assert_eq!(empty.child_layout, "");
    assert_eq!(empty.child_spacing, 0);
    assert_eq!(empty.size, IVec2::new(0, 0));
    assert_eq!(empty.margin, EdgeRect::zero());
    assert_eq!(empty.anchors, (Anchor::Begin, Anchor::Begin));

    let styled = layout_from_style(
        Some("hbox".to_string()),
        Some(4),
        Some(IVec2::new(30, 40)),
        Some(EdgeRect::splat(2)),
        Some(Anchor::Middle),
        Some(Anchor::End),
        Some(None),
        None,
    );
    assert_eq!(styled.child_layout, "hbox");
    assert_eq!(styled.child_spacing, 4);
    assert_eq!(styled.size, IVec2::new(0, 40));
    assert_eq!(styled.margin, EdgeRect::splat(2));
    assert_eq!(styled.anchors, (Anchor::Middle, Anchor::End));

    let sized = layout_from_style(None, None, Some(IVec2::new(30, 40)), None, None, None, Some(Some(7)), Some(Some(9)));
    assert_eq!(sized.size, IVec2::new(7, 9));
}

#[test]
fn unpacked_widget_name_reused_replaces() {
    let mut widgets: UnpackedWidgets<i32> = UnpackedWidgets::new();
    widgets.insert("a".to_string(), 1);
    widgets.insert("b".to_string(), 2);
    widgets.insert("a".to_string(), 3);
    assert_eq!(widgets.widgets.len(), 2);
    assert_eq!(widgets.get("a", |n| Some(n)).unwrap(), 3);
    assert!(widgets.get("a", |n| Some(n)).is_err());
    assert_eq!(widgets.get("b", |n| Some(n)).unwrap(), 2);
}

#[test]
fn only_font_entries_of_a_font_list_load() {
    let types = vec!["font".to_string(), "image".to_string(), "font".to_string()];
    assert_eq!(fonts_to_load("font", &types), vec![0, 2]);
    assert!(fonts_to_load("image", &types).is_empty());
    assert!(fonts_to_load("font", &Vec::new()).is_empty());
}

#[test]
fn compare_listener_on_other_integers() {
    let mut gui: Gui<()> = Gui::new(IRect::zero(), ());
    let mut v: GuiValue<u8, Compare<u8, HeardBool>> = GuiValue::new();
    v.add_listener(Compare(Comparison::Less, 3, HeardBool(Vec::new())));
    v.set(&mut gui, 2);
    v.set(&mut gui, 3);
    assert_eq!(v.listeners[0].2 .0, vec![true, false]);
    let mut w: GuiValue<i64, Compare<i64, HeardBool>> = GuiValue::new();
    w.add_listener(Compare(Comparison::NotEqual, -5, HeardBool(Vec::new())));
    w.set(&mut gui, -5);
    w.set(&mut gui, 7);
    assert_eq!(w.listeners[0].2 .0, vec![false, true]);
}

#[test]
fn enable_button_listener_follows_value() {
    let mut gui: Gui<()> = Gui::new(IRect::zero(), ());
    let mut v: GuiValue<bool, EnableButton> = GuiValue::new();
    v.add_listener(EnableButton(Button::new(GuiActionEvent::Generic)));
    v.set(&mut gui, false);
    assert_eq!(v.listeners[0].0.state, ButtonState::Disabled);
    v.set(&mut gui, true);
    assert_eq!(v.listeners[0].0.state, ButtonState::Normal);
}
