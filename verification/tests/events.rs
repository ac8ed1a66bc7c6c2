use iced_aksel::event::{
    ClickKind, DragEvent, EnterEvent, ExitEvent, Handler, IntoHandler, Modifiers, MouseButton,
    MoveEvent, PressEvent, ReleaseEvent, ALT, CTRL, LOGO, SHIFT,
};

#[test]
fn modifier_bits() {
    let none = Modifiers::none();
    assert!(!none.shift() && !none.control() && !none.alt() && !none.logo());
    let m = Modifiers::from_bits(SHIFT | ALT);
    assert!(m.shift());
    assert!(!m.control());
    assert!(m.alt());
    assert!(!m.logo());
    let m = Modifiers::from_bits(CTRL | LOGO);
    assert!(m.control() && m.logo() && !m.shift() && !m.alt());
    assert_eq!(SHIFT, 0b100);
    assert_eq!(CTRL, 0b100 << 3);
    assert_eq!(ALT, 0b100 << 6);
    assert_eq!(LOGO, 0b100 << 9);
}

#[test]
fn press_click_kinds() {
    let p = PressEvent::new((0.5f32, 0.5f32), MouseButton::Left, ClickKind::Double, Modifiers::none());
    assert!(!p.is_single_click());
    assert!(p.is_double_click());
    assert!(!p.is_triple_click());
    assert_eq!(p.button, MouseButton::Left);
    assert_eq!(p.position, (0.5, 0.5));
}

#[test]
fn release_click_kinds() {
    let r = ReleaseEvent::new(0.25f32, MouseButton::Right, Some(ClickKind::Triple), Modifiers::none(), true);
    assert!(r.is_triple_click());
    assert!(!r.is_single_click());
    assert!(r.was_dragging);
    let r = ReleaseEvent::new(0.25f32, MouseButton::Right, None, Modifiers::none(), false);
    assert!(!r.is_single_click() && !r.is_double_click() && !r.is_triple_click());
}

#[test]
fn plain_events_keep_fields() {
    let m = Modifiers::from_bits(SHIFT);
    assert_eq!(MoveEvent::new(3u8, m).position, 3);
    assert_eq!(EnterEvent::new(m).modifiers, m);
    assert_eq!(ExitEvent::new(m).modifiers, m);
    let d = DragEvent::new(-1i32, MouseButton::Other(9), ClickKind::Single, m);
    assert_eq!(d.delta, -1);
    assert_eq!(d.button_held, MouseButton::Other(9));
    assert_eq!(d.click_kind, ClickKind::Single);
}

#[derive(Debug, Clone, PartialEq)]
enum Message {
    Pressed,
    At(u32),
    Sum(u32),
}

#[test]
fn direct_handler_yields_its_message() {
    let h: Handler<Message, (u32,)> = IntoHandler::<Message, (u32,), _>::into_handler(Message::Pressed);
    assert_eq!(h.run((1,)), Some(Message::Pressed));
    assert_eq!(h.run((2,)), Some(Message::Pressed));
}

#[test]
fn closure_handlers_yield_what_they_return() {
    let h: Handler<Message, (u32,)> = (|x: u32| if x > 3 { Some(Message::At(x)) } else { None }).into_handler();
    assert_eq!(h.run((5,)), Some(Message::At(5)));
    assert_eq!(h.run((1,)), None);
    let h: Handler<Message, (u32, u32)> = (|a: u32, b: u32| Message::Sum(a + b)).into_handler();
    assert_eq!(h.run((2, 3)), Some(Message::Sum(5)));
    let h: Handler<Message, ()> = (|| Message::Pressed).into_handler();
    assert_eq!(h.run(()), Some(Message::Pressed));
}
