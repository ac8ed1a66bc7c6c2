//! Events emitted to the handlers of a chart, and the handlers themselves.

use vstd::prelude::*;
use vstd::std_specs::convert::IntoSpec;

verus! {

/// How many clicks in quick succession a press belongs to.
#[derive(Debug, Clone, Copy, PartialEq, Eq, Structural)]
pub enum ClickKind {
    /// A single click.
    Single,
    /// A double click.
    Double,
    /// A triple click.
    Triple,
}

/// A mouse button.
#[derive(Debug, Clone, Copy, PartialEq, Eq, Structural)]
pub enum MouseButton {
    /// The left mouse button.
    Left,
    /// The right mouse button.
    Right,
    /// The middle (wheel) button.
    Middle,
    /// The back mouse button.
    Back,
    /// The forward mouse button.
    Forward,
    /// Some other button.
    Other(u16),
}

/// The bit of the shift key in [`Modifiers`].
pub const SHIFT: u32 = 4;

/// The bit of the control key in [`Modifiers`].
pub const CTRL: u32 = 32;

/// The bit of the alt key in [`Modifiers`].
pub const ALT: u32 = 256;

/// The bit of the logo key ("windows", "command" or "super") in [`Modifiers`].
pub const LOGO: u32 = 2048;

/// The keyboard modifiers held down, as a set of key bits.
#[derive(Debug, Clone, Copy, PartialEq, Eq, Structural)]
pub struct Modifiers {
    /// The bits of the keys held down.
    pub bits: u32,
}

impl Modifiers {
    /// No modifier held.
    pub fn none() -> (m: Self)
        ensures
            m.bits == 0,
    {
        Modifiers { bits: 0 }
    }

    /// Modifiers from their key bits.
    pub fn from_bits(bits: u32) -> (m: Self)
        ensures
            m.bits == bits,
    {
        Modifiers { bits }
    }

    /// Whether the shift key is held.
    pub fn shift(self) -> (r: bool)
        ensures
            r == (self.bits & SHIFT == SHIFT),
    {
        self.bits & SHIFT == SHIFT
    }

    /// Whether the control key is held.
    pub fn control(self) -> (r: bool)
        ensures
            r == (self.bits & CTRL == CTRL),
    {
        self.bits & CTRL == CTRL
    }

    /// Whether the alt key is held.
    pub fn alt(self) -> (r: bool)
        ensures
            r == (self.bits & ALT == ALT),
    {
        self.bits & ALT == ALT
    }

    /// Whether the logo key is held.
    pub fn logo(self) -> (r: bool)
        ensures
            r == (self.bits & LOGO == LOGO),
    {
        self.bits & LOGO == LOGO
    }
}

/// An event emitted to `on_move` handlers.
#[derive(Debug, Clone, Copy)]
pub struct MoveEvent<P> {
    /// Normalized position of the cursor.
    pub position: P,
    /// Keyboard modifiers.
    pub modifiers: Modifiers,
}

impl<P> MoveEvent<P> {
    /// A move event at `position`.
    pub fn new(position: P, modifiers: Modifiers) -> (e: Self)
        ensures
            e.position == position,
            e.modifiers == modifiers,
    {
        MoveEvent { position, modifiers }
    }
}

/// An event emitted to `on_enter` handlers.
#[derive(Debug, Clone, Copy)]
pub struct EnterEvent {
    /// Keyboard modifiers.
    pub modifiers: Modifiers,
}

impl EnterEvent {
    /// An enter event.
    pub fn new(modifiers: Modifiers) -> (e: Self)
        ensures
            e.modifiers == modifiers,
    {
        EnterEvent { modifiers }
    }
}

/// An event emitted to `on_exit` handlers.
#[derive(Debug, Clone, Copy)]
pub struct ExitEvent {
    /// Keyboard modifiers.
    pub modifiers: Modifiers,
}

impl ExitEvent {
    /// An exit event.
    pub fn new(modifiers: Modifiers) -> (e: Self)
        ensures
            e.modifiers == modifiers,
    {
        ExitEvent { modifiers }
    }
}

/// An event emitted to `on_drag` handlers.
#[derive(Debug, Clone, Copy)]
pub struct DragEvent<D> {
    /// Normalized delta of the drag.
    pub delta: D,
    /// Button held during the drag.
    pub button_held: MouseButton,
    /// Click kind before starting the drag.
    pub click_kind: ClickKind,
    /// Current keyboard modifiers.
    pub modifiers: Modifiers,
}

impl<D> DragEvent<D> {
    /// A drag event.
    pub fn new(delta: D, button_held: MouseButton, click_kind: ClickKind, modifiers: Modifiers) -> (e:
        Self)
        ensures
            e.delta == delta,
            e.button_held == button_held,
            e.click_kind == click_kind,
            e.modifiers == modifiers,
    {
        DragEvent { delta, button_held, click_kind, modifiers }
    }
}

/// An event emitted to `on_press` handlers.
#[derive(Debug, Clone, Copy)]
pub struct PressEvent<P> {
    /// Normalized position of the cursor.
    pub position: P,
    /// Button pressed.
    pub button: MouseButton,
    /// Click kind.
    pub click_kind: ClickKind,
    /// Keyboard modifiers.
    pub modifiers: Modifiers,
}

impl<P> PressEvent<P> {
    /// A press event.
    pub fn new(position: P, button: MouseButton, click_kind: ClickKind, modifiers: Modifiers) -> (e:
        Self)
        ensures
            e.position == position,
            e.button == button,
            e.click_kind == click_kind,
            e.modifiers == modifiers,
    {
        PressEvent { position, button, click_kind, modifiers }
    }

    /// Returns true if the click kind was a single click.
    pub fn is_single_click(&self) -> (r: bool)
        ensures
            r == (self.click_kind == ClickKind::Single),
    {
        self.click_kind == ClickKind::Single
    }

    /// Returns true if the click kind was a double click.
    pub fn is_double_click(&self) -> (r: bool)
        ensures
            r == (self.click_kind == ClickKind::Double),
    {
        self.click_kind == ClickKind::Double
    }

    /// Returns true if the click kind was a triple click.
    pub fn is_triple_click(&self) -> (r: bool)
        ensures
            r == (self.click_kind == ClickKind::Triple),
    {
        self.click_kind == ClickKind::Triple
    }
}

/// An event emitted to `on_release` handlers.
#[derive(Debug, Clone, Copy)]
pub struct ReleaseEvent<P> {
    /// Normalized position of the cursor.
    pub position: P,
    /// Button released.
    pub button: MouseButton,
    /// Click kind before releasing; `None` if the click began outside the chart.
    pub click_kind: Option<ClickKind>,
    /// Keyboard modifiers.
    pub modifiers: Modifiers,
    /// Whether the cursor was dragged before the release.
    pub was_dragging: bool,
}

impl<P> ReleaseEvent<P> {
    /// A release event.
    pub fn new(
        position: P,
        button: MouseButton,
        click_kind: Option<ClickKind>,
        modifiers: Modifiers,
        was_dragging: bool,
    ) -> (e: Self)
        ensures
            e.position == position,
            e.button == button,
            e.click_kind == click_kind,
            e.modifiers == modifiers,
            e.was_dragging == was_dragging,
    {
        ReleaseEvent { position, button, click_kind, modifiers, was_dragging }
    }

    /// Returns true if the click kind was `Some(Single)`.
    pub fn is_single_click(&self) -> (r: bool)
        ensures
            r == (self.click_kind == Some(ClickKind::Single)),
    {
        match self.click_kind {
            Some(ClickKind::Single) => true,
            _ => false,
        }
    }

    /// Returns true if the click kind was `Some(Double)`.
    pub fn is_double_click(&self) -> (r: bool)
        ensures
            r == (self.click_kind == Some(ClickKind::Double)),
    {
        match self.click_kind {
            Some(ClickKind::Double) => true,
            _ => false,
        }
    }

    /// Returns true if the click kind was `Some(Triple)`.
    pub fn is_triple_click(&self) -> (r: bool)
        ensures
            r == (self.click_kind == Some(ClickKind::Triple)),
    {
        match self.click_kind {
            Some(ClickKind::Triple) => true,
            _ => false,
        }
    }
}

/// A press is exactly one of a single, a double or a triple click.
pub proof fn lemma_press_has_one_click_kind<P>(e: PressEvent<P>)
    ensures
        (e.click_kind == ClickKind::Single) as int + (e.click_kind == ClickKind::Double) as int + (
        e.click_kind == ClickKind::Triple) as int == 1,
{
}

/// A release is at most one of a single, a double or a triple click, and
/// none of them when the click began outside the chart.
pub proof fn lemma_release_has_at_most_one_click_kind<P>(e: ReleaseEvent<P>)
    ensures
        (e.click_kind == Some(ClickKind::Single)) as int + (e.click_kind == Some(ClickKind::Double))
            as int + (e.click_kind == Some(ClickKind::Triple)) as int == if e.click_kind is Some {
            1int
        } else {
            0int
        },
{
    match e.click_kind {
        Some(ClickKind::Single) => {},
        Some(ClickKind::Double) => {},
        Some(ClickKind::Triple) => {},
        None => {},
    }
}

/// `r` is what the closure's return value `ret` converts to, where the
/// conversion obeys its specification.
pub open spec fn converts_to<Message, R: Into<Option<Message>>>(ret: R, r: Option<Message>) -> bool {
    R::obeys_into_spec() ==> r == ret.into_spec()
}

/// A callable that turns the arguments of an event into an optional message.
pub trait Callback<Message, Args> {
    /// Whether a call with `args` can yield `r`.
    spec fn yields(&self, args: Args, r: Option<Message>) -> bool;

    /// Calls the callback.
    fn call(&self, args: Args) -> (r: Option<Message>)
        ensures
            self.yields(args, r),
    ;
}

/// A closure of no arguments, usable as a [`Callback`].
#[verifier::reject_recursive_types(R)]
pub struct FnCallback0<R, F: Fn() -> R> {
    f: F,
    marker: std::marker::PhantomData<R>,
}

impl<R, F: Fn() -> R> FnCallback0<R, F> {
    /// The closure accepts being called.
    #[verifier::type_invariant]
    spec fn accepts(self) -> bool {
        call_requires(self.f, ())
    }

    /// Wraps a closure that accepts being called.
    pub fn new(f: F) -> (c: Self)
        requires
            call_requires(f, ()),
        ensures
            c.closure() == f,
    {
        FnCallback0 { f, marker: std::marker::PhantomData }
    }

    /// The wrapped closure.
    pub closed spec fn closure(&self) -> F {
        self.f
    }
}

impl<Message, R: Into<Option<Message>>, F: Fn() -> R> Callback<Message, ()> for FnCallback0<R, F> {
    /// The closure, called, returns a value that converts to `r`.
    open spec fn yields(&self, args: (), r: Option<Message>) -> bool {
        exists|ret: R| call_ensures(self.closure(), (), ret) && converts_to(ret, r)
    }

    fn call(&self, args: ()) -> (r: Option<Message>) {
        proof {
            use_type_invariant(self);
        }
        let ret = (self.f)();
        let r: Option<Message> = ret.into();
        assert(call_ensures(self.closure(), (), ret));
        assert(converts_to(ret, r));
        r
    }
}

/// A closure of one argument, usable as a [`Callback`].
#[verifier::reject_recursive_types(A)]
#[verifier::reject_recursive_types(R)]
pub struct FnCallback1<A, R, F: Fn(A) -> R> {
    f: F,
    marker: std::marker::PhantomData<(A, R)>,
}

impl<A, R, F: Fn(A) -> R> FnCallback1<A, R, F> {
    /// The closure accepts every argument.
    #[verifier::type_invariant]
    spec fn accepts(self) -> bool {
        forall|a: A| call_requires(self.f, (a,))
    }

    /// Wraps a closure that accepts every argument.
    pub fn new(f: F) -> (c: Self)
        requires
            forall|a: A| call_requires(f, (a,)),
        ensures
            c.closure() == f,
    {
        FnCallback1 { f, marker: std::marker::PhantomData }
    }

    /// The wrapped closure.
    pub closed spec fn closure(&self) -> F {
        self.f
    }
}

impl<Message, A, R: Into<Option<Message>>, F: Fn(A) -> R> Callback<Message, (A,)> for FnCallback1<
    A,
    R,
    F,
> {
    /// The closure, called with the argument, returns a value that converts to `r`.
    open spec fn yields(&self, args: (A,), r: Option<Message>) -> bool {
        exists|ret: R| call_ensures(self.closure(), (args.0,), ret) && converts_to(ret, r)
    }

    fn call(&self, args: (A,)) -> (r: Option<Message>) {
        proof {
            use_type_invariant(self);
        }
        let (a,) = args;
        let ret = (self.f)(a);
        let r: Option<Message> = ret.into();
        assert(call_ensures(self.closure(), (args.0,), ret));
        assert(converts_to(ret, r));
        r
    }
}

/// A closure of two arguments, usable as a [`Callback`].
#[verifier::reject_recursive_types(A)]
#[verifier::reject_recursive_types(B)]
#[verifier::reject_recursive_types(R)]
pub struct FnCallback2<A, B, R, F: Fn(A, B) -> R> {
    f: F,
    marker: std::marker::PhantomData<(A, B, R)>,
}

impl<A, B, R, F: Fn(A, B) -> R> FnCallback2<A, B, R, F> {
    /// The closure accepts every pair of arguments.
    #[verifier::type_invariant]
    spec fn accepts(self) -> bool {
        forall|a: A, b: B| call_requires(self.f, (a, b))
    }

    /// Wraps a closure that accepts every pair of arguments.
    pub fn new(f: F) -> (c: Self)
        requires
            forall|a: A, b: B| call_requires(f, (a, b)),
        ensures
            c.closure() == f,
    {
        FnCallback2 { f, marker: std::marker::PhantomData }
    }

    /// The wrapped closure.
    pub closed spec fn closure(&self) -> F {
        self.f
    }
}

impl<Message, A, B, R: Into<Option<Message>>, F: Fn(A, B) -> R> Callback<Message, (A, B)> for
    FnCallback2<A, B, R, F> {
    /// The closure, called with the arguments, returns a value that converts to `r`.
    open spec fn yields(&self, args: (A, B), r: Option<Message>) -> bool {
        exists|ret: R| call_ensures(self.closure(), (args.0, args.1), ret) && converts_to(ret, r)
    }

    fn call(&self, args: (A, B)) -> (r: Option<Message>) {
        proof {
            use_type_invariant(self);
        }
        let (a, b) = args;
        let ret = (self.f)(a, b);
        let r: Option<Message> = ret.into();
        assert(call_ensures(self.closure(), (args.0, args.1), ret));
        assert(converts_to(ret, r));
        r
    }
}

/// A handler that is either a fixed message or a callback producing one.
#[verifier::reject_recursive_types(Message)]
#[verifier::reject_recursive_types(Args)]
pub enum Handler<Message, Args> {
    /// A direct message value.
    Direct(Message),
    /// A callback, returning an optional message.
    Closure(Box<dyn Callback<Message, Args>>),
}

/// Running handler `h` on `args` can yield `r`: a copy of the message of a
/// direct handler, or what the callback yields for `args`.
pub open spec fn runs<Message: Clone, Args>(h: Handler<Message, Args>, args: Args, r: Option<Message>) -> bool {
    match h {
        Handler::Direct(m) => r matches Some(c) && cloned(m, c),
        Handler::Closure(c) => c.yields(args, r),
    }
}

impl<Message: Clone, Args> Handler<Message, Args> {
    /// Runs the handler: a direct handler always yields a copy of its
    /// message; a callback yields whatever it returns for `args`.
    pub fn run(&self, args: Args) -> (r: Option<Message>)
        ensures
            self matches Handler::Direct(m) ==> r matches Some(c) && cloned(*m, c),
            self matches Handler::Closure(c) ==> c.yields(args, r),
            runs(*self, args, r),
    {
        match self {
            Handler::Direct(m) => Some(m.clone()),
            Handler::Closure(f) => f.call(args),
        }
    }
}

/// Marker selecting the closure conversion of [`IntoHandler`].
pub struct FnMarker;

/// Marker selecting the direct-message conversion of [`IntoHandler`].
pub struct DirectMarker;

/// Converts direct messages or closures into a [`Handler`].
pub trait IntoHandler<Message, Args, Marker>: Sized {
    /// Whether the value can be turned into a handler: a closure must accept
    /// every argument tuple.
    spec fn handler_ready(&self) -> bool;

    /// Whether `h` is the handler that `self` converts into.
    spec fn becomes(&self, h: Handler<Message, Args>) -> bool;

    /// Converts `self` into a [`Handler`].
    fn into_handler(self) -> (h: Handler<Message, Args>)
        requires
            self.handler_ready(),
        ensures
            self.becomes(h),
    ;
}

impl<Message: Clone + 'static, Args> IntoHandler<Message, Args, DirectMarker> for Message {
    open spec fn handler_ready(&self) -> bool {
        true
    }

    /// A message becomes a direct handler of itself.
    open spec fn becomes(&self, h: Handler<Message, Args>) -> bool {
        h matches Handler::Direct(m) && m == *self
    }

    fn into_handler(self) -> (h: Handler<Message, Args>) {
        Handler::Direct(self)
    }
}

impl<Message: 'static, R: Into<Option<Message>> + 'static, F: Fn() -> R + 'static> IntoHandler<
    Message,
    (),
    FnMarker,
> for F {
    open spec fn handler_ready(&self) -> bool {
        call_requires(*self, ())
    }

    /// A closure becomes a callback handler that yields what the closure
    /// returns, converted.
    open spec fn becomes(&self, h: Handler<Message, ()>) -> bool {
        h matches Handler::Closure(c) && forall|r: Option<Message>|
            #[trigger] c.yields((), r) == exists|ret: R| call_ensures(*self, (), ret) && converts_to(
                ret,
                r,
            )
    }

    fn into_handler(self) -> (h: Handler<Message, ()>) {
        Handler::Closure(Box::new(FnCallback0::new(self)))
    }
}

impl<
    Message: 'static,
    A: 'static,
    R: Into<Option<Message>> + 'static,
    F: Fn(A) -> R + 'static,
> IntoHandler<Message, (A,), FnMarker> for F {
    open spec fn handler_ready(&self) -> bool {
        forall|a: A| call_requires(*self, (a,))
    }

    /// A closure becomes a callback handler that yields what the closure
    /// returns for the argument, converted.
    open spec fn becomes(&self, h: Handler<Message, (A,)>) -> bool {
        h matches Handler::Closure(c) && forall|a: A, r: Option<Message>|
            #[trigger] c.yields((a,), r) == exists|ret: R| call_ensures(*self, (a,), ret) && converts_to(
                ret,
                r,
            )
    }

    fn into_handler(self) -> (h: Handler<Message, (A,)>) {
        Handler::Closure(Box::new(FnCallback1::new(self)))
    }
}

impl<
    Message: 'static,
    A: 'static,
    B: 'static,
    R: Into<Option<Message>> + 'static,
    F: Fn(A, B) -> R + 'static,
> IntoHandler<Message, (A, B), FnMarker> for F {
    open spec fn handler_ready(&self) -> bool {
        forall|a: A, b: B| call_requires(*self, (a, b))
    }

    /// A closure becomes a callback handler that yields what the closure
    /// returns for the arguments, converted.
    open spec fn becomes(&self, h: Handler<Message, (A, B)>) -> bool {
        h matches Handler::Closure(c) && forall|a: A, b: B, r: Option<Message>|
            #[trigger] c.yields((a, b), r) == exists|ret: R|
                call_ensures(*self, (a, b), ret) && converts_to(ret, r)
    }

    fn into_handler(self) -> (h: Handler<Message, (A, B)>) {
        Handler::Closure(Box::new(FnCallback2::new(self)))
    }
}

} // verus!
