//! Callbacks of the web platform: code that the platform runs on an executor when an event
//! comes in.
use vstd::prelude::*;

verus! {

/// Something that runs futures (an async runtime).
pub trait FutureExecutor {
    fn execute<T: std::future::Future<Output = ()> + 'static>(&mut self, future: T);
}

/// What a callback does when it runs: given the executor and the event data, it spawns
/// its work. Each kind of callback says, by `spawns`, how a run may leave the executor.
pub trait Spawner<T, D> {
    /// A run with executor `before` and `data` may leave the executor as `after`; any
    /// executor at all, unless the spawner says more.
    open spec fn spawns(&self, before: T, data: D, after: T) -> bool {
        true
    }

    fn spawn(&mut self, executor: &mut T, data: D)
        ensures
            old(self).spawns(*old(executor), data, *final(executor));
}

/// A boxed spawner runs as the spawner in the box does.
impl<T, D> Spawner<T, D> for Box<dyn Spawner<T, D>> {
    open spec fn spawns(&self, before: T, data: D, after: T) -> bool {
        (**self).spawns(before, data, after)
    }

    fn spawn(&mut self, executor: &mut T, data: D) {
        (&mut **self).spawn(executor, data);
    }
}

/// A callback, run with an executor and event data of type `D`, that runs its spawner `S`
/// (by default, any spawner in a box).
#[verifier::reject_recursive_types(T)]
#[verifier::reject_recursive_types(D)]
#[verifier::reject_recursive_types(S)]
pub struct Callback<T: FutureExecutor, D = (), S: Spawner<T, D> = Box<dyn Spawner<T, D>>> {
    spawner: S,
    marker: std::marker::PhantomData<(T, D)>,
}

impl<T: FutureExecutor, D, S: Spawner<T, D>> Callback<T, D, S> {
    /// The spawner that the callback runs.
    pub closed spec fn spawner(&self) -> S {
        self.spawner
    }

    /// A callback that runs `spawner`.
    pub fn new(spawner: S) -> (cb: Self)
        ensures
            cb.spawner() == spawner,
            forall|b: T, d: D, a: T| cb.runs(b, d, a) == spawner.spawns(b, d, a),
    {
        Callback { spawner, marker: std::marker::PhantomData }
    }

    /// Running the callback with executor `before` and `data` may leave the executor as
    /// `after`: what its spawner says of a run.
    pub open spec fn runs(&self, before: T, data: D, after: T) -> bool {
        self.spawner().spawns(before, data, after)
    }

    /// Runs the callback's spawner once with `executor` and `data`.
    pub fn execute(&mut self, executor: &mut T, data: D)
        ensures
            old(self).runs(*old(executor), data, *final(executor)),
    {
        self.spawner.spawn(executor, data);
    }
}

impl<T: FutureExecutor, S: Spawner<T, ()>> Callback<T, (), S> {
    /// Runs a callback that takes no data.
    pub fn exec(&mut self, executor: &mut T)
        ensures
            old(self).runs(*old(executor), (), *final(executor)),
    {
        self.execute(executor, ());
    }
}

/// Run by a `PollGuard` each time before its future is polled.
pub trait PollCallback {
    fn poll(&mut self);
}

/// A future paired with a callback that runs before each poll of the future.
pub struct PollGuard<T, C: PollCallback> {
    cb: C,
    fut: T,
}

impl<F, C: PollCallback> PollGuard<F, C> {
    /// Pairs `fut` with `cb`.
    pub fn new(fut: F, cb: C) -> (g: Self)
        ensures
            g.future() == fut,
            g.callback() == cb,
    {
        Self { cb, fut }
    }

    /// The guarded future.
    pub closed spec fn future(&self) -> F {
        self.fut
    }

    /// The callback run before each poll.
    pub closed spec fn callback(&self) -> C {
        self.cb
    }

    /// The future and the callback, taken apart (for the executor that polls them).
    pub fn into_parts(self) -> (r: (F, C))
        ensures
            r.0 == self.future(),
            r.1 == self.callback(),
    {
        (self.fut, self.cb)
    }
}

/// A key went up or down.
#[derive(Debug, Clone, Copy, PartialEq, Eq, Structural)]
pub struct KeyboardEvent {
    pub key: char,
}

/// The callbacks registered for one kind of event.
#[verifier::reject_recursive_types(D)]
#[verifier::reject_recursive_types(E)]
pub struct EventListener<D, E: FutureExecutor> {
    listeners: Vec<Callback<E, D>>,
}

/// `states` are the executor before and after each run and `data` the data of each run,
/// when the callbacks `cbs` run one after the other, each with a clone of `event`, from
/// executor `before` to executor `after`.
pub open spec fn run_chain<D: Clone, E: FutureExecutor>(
    cbs: Seq<Callback<E, D>>,
    event: D,
    before: E,
    after: E,
    states: Seq<E>,
    data: Seq<D>,
) -> bool {
    &&& states.len() == cbs.len() + 1
    &&& data.len() == cbs.len()
    &&& states[0] == before
    &&& states[cbs.len() as int] == after
    &&& forall|i: int|
        0 <= i < cbs.len() ==> cloned(event, #[trigger] data[i]) && cbs[i].runs(states[i], data[i], states[i + 1])
}

/// The callbacks `cbs`, run once each in order with a clone of `event`, take the executor
/// from `before` to `after`.
pub open spec fn ran_in_order<D: Clone, E: FutureExecutor>(cbs: Seq<Callback<E, D>>, event: D, before: E, after: E) -> bool {
    exists|states: Seq<E>, data: Seq<D>| #[trigger] run_chain(cbs, event, before, after, states, data)
}

impl<D, E: FutureExecutor> EventListener<D, E> {
    /// The registered callbacks, in order of registration.
    pub closed spec fn callbacks(&self) -> Seq<Callback<E, D>> {
        self.listeners@
    }

    /// The number of registered callbacks.
    pub open spec fn len(&self) -> nat {
        self.callbacks().len()
    }

    /// A listener without callbacks.
    pub fn new() -> (l: Self)
        ensures
            l.callbacks() == Seq::<Callback<E, D>>::empty(),
    {
        let l = EventListener { listeners: Vec::new() };
        assert(l.listeners@ =~= Seq::<Callback<E, D>>::empty());
        l
    }

    /// Registers a callback; it runs after those registered before it.
    pub fn add(&mut self, callback: Callback<E, D>)
        ensures
            final(self).callbacks() == old(self).callbacks().push(callback),
    {
        self.listeners.push(callback);
    }

    /// The number of registered callbacks.
    pub fn count(&self) -> (n: usize)
        ensures
            n == self.len(),
    {
        self.listeners.len()
    }
}

impl<D: Clone, E: FutureExecutor> EventListener<D, E> {
    /// Runs every registered callback, in order of registration, each with a clone of `event`.
    pub fn handle_event(&mut self, event: D, e: &mut E)
        ensures
            final(self).len() == old(self).len(),
            ran_in_order(old(self).callbacks(), event, *old(e), *final(e)),
    {
        let ghost cbs = self.listeners@;
        let ghost e0 = *e;
        let ghost mut states: Seq<E> = seq![*e];
        let ghost mut data: Seq<D> = Seq::empty();
        let n = self.listeners.len();
        let mut i: usize = 0;
        while i < n
            invariant
                i <= n,
                n == self.listeners.len(),
                n == cbs.len(),
                forall|j: int| i <= j < n ==> self.listeners@[j] == cbs[j],
                states.len() == i + 1,
                data.len() == i,
                states[0] == e0,
                states[i as int] == *e,
                forall|j: int|
                    0 <= j < i ==> cloned(event, #[trigger] data[j]) && cbs[j].runs(states[j], data[j], states[j + 1]),
            decreases n - i,
        {
            let d = event.clone();
            let ghost before = *e;
            proof {
                data = data.push(d);
            }
            self.listeners[i].execute(e, d);
            proof {
                states = states.push(*e);
                assert(cbs[i as int].runs(before, data[i as int], states[i + 1]));
            }
            i += 1;
        }
        assert(run_chain(cbs, event, e0, *e, states, data));
    }
}

impl<D, E: FutureExecutor> Default for EventListener<D, E> {
    fn default() -> (l: Self)
        ensures
            l.len() == 0,
    {
        Self::new()
    }
}

/// An input event that the window hands to the page: `B` is the type of mouse buttons, `P`
/// that of pointer positions and scroll distances.
#[derive(Debug, Clone, Copy, PartialEq, Eq)]
pub enum InputEvent<B, P> {
    MouseDown(B),
    MouseUp(B),
    MouseMove(P),
    MouseScroll(P),
    KeyboardDown(char),
    KeyboardUp(char),
}

/// A mouse button went down or up.
#[derive(Debug, Clone, Copy, PartialEq, Eq)]
pub struct MouseButtonEvent<B> {
    pub button: B,
}

/// The mouse moved to a position.
#[derive(Debug, Clone, Copy, PartialEq, Eq)]
pub struct MouseMoveEvent<P> {
    pub pos: P,
}

/// The mouse wheel scrolled by a distance.
#[derive(Debug, Clone, Copy, PartialEq, Eq)]
pub struct MouseScrollEvent<P> {
    pub delta: P,
}

/// A callback for one kind of input event.
#[verifier::reject_recursive_types(E)]
#[verifier::reject_recursive_types(B)]
#[verifier::reject_recursive_types(P)]
pub enum Listeners<E: FutureExecutor, B, P> {
    MouseDown(Callback<E, MouseButtonEvent<B>>),
    MouseUp(Callback<E, MouseButtonEvent<B>>),
    MouseMove(Callback<E, MouseMoveEvent<P>>),
    MouseScroll(Callback<E, MouseScrollEvent<P>>),
    KeyboardUp(Callback<E, KeyboardEvent>),
    KeyboardDown(Callback<E, KeyboardEvent>),
}

/// The kinds of input events, in the order of the listener counts below.
pub enum EventKind {
    MouseUp,
    MouseDown,
    MouseMove,
    MouseScroll,
    KeyboardUp,
    KeyboardDown,
}

/// The kind of event a callback listens to.
pub open spec fn listener_kind<E: FutureExecutor, B, P>(l: Listeners<E, B, P>) -> EventKind {
    match l {
        Listeners::MouseDown(_) => EventKind::MouseDown,
        Listeners::MouseUp(_) => EventKind::MouseUp,
        Listeners::MouseMove(_) => EventKind::MouseMove,
        Listeners::MouseScroll(_) => EventKind::MouseScroll,
        Listeners::KeyboardUp(_) => EventKind::KeyboardUp,
        Listeners::KeyboardDown(_) => EventKind::KeyboardDown,
    }
}

/// The numbers of callbacks per kind: mouse up, mouse down, mouse move, mouse scroll,
/// keyboard up, keyboard down.
pub type ListenerCounts = (nat, nat, nat, nat, nat, nat);

/// The counts with one more callback of kind `k`.
pub open spec fn counts_with(c: ListenerCounts, k: EventKind) -> ListenerCounts {
    match k {
        EventKind::MouseUp => (c.0 + 1, c.1, c.2, c.3, c.4, c.5),
        EventKind::MouseDown => (c.0, c.1 + 1, c.2, c.3, c.4, c.5),
        EventKind::MouseMove => (c.0, c.1, c.2 + 1, c.3, c.4, c.5),
        EventKind::MouseScroll => (c.0, c.1, c.2, c.3 + 1, c.4, c.5),
        EventKind::KeyboardUp => (c.0, c.1, c.2, c.3, c.4 + 1, c.5),
        EventKind::KeyboardDown => (c.0, c.1, c.2, c.3, c.4, c.5 + 1),
    }
}

/// The callbacks of a page, per kind of input event.
#[verifier::reject_recursive_types(E)]
#[verifier::reject_recursive_types(B)]
#[verifier::reject_recursive_types(P)]
pub struct EventListeners<E: FutureExecutor, B, P> {
    mouse_up: EventListener<MouseButtonEvent<B>, E>,
    mouse_down: EventListener<MouseButtonEvent<B>, E>,
    mouse_move: EventListener<MouseMoveEvent<P>, E>,
    mouse_scroll: EventListener<MouseScrollEvent<P>, E>,
    keyboard_up: EventListener<KeyboardEvent, E>,
    keyboard_down: EventListener<KeyboardEvent, E>,
}

impl<E: FutureExecutor, B, P> EventListeners<E, B, P> {
    /// The callbacks for mouse buttons going up.
    pub closed spec fn mouse_up_listener(&self) -> EventListener<MouseButtonEvent<B>, E> {
        self.mouse_up
    }

    /// The callbacks for mouse buttons going down.
    pub closed spec fn mouse_down_listener(&self) -> EventListener<MouseButtonEvent<B>, E> {
        self.mouse_down
    }

    /// The callbacks for mouse moves.
    pub closed spec fn mouse_move_listener(&self) -> EventListener<MouseMoveEvent<P>, E> {
        self.mouse_move
    }

    /// The callbacks for mouse wheel scrolls.
    pub closed spec fn mouse_scroll_listener(&self) -> EventListener<MouseScrollEvent<P>, E> {
        self.mouse_scroll
    }

    /// The callbacks for keys going up.
    pub closed spec fn keyboard_up_listener(&self) -> EventListener<KeyboardEvent, E> {
        self.keyboard_up
    }

    /// The callbacks for keys going down.
    pub closed spec fn keyboard_down_listener(&self) -> EventListener<KeyboardEvent, E> {
        self.keyboard_down
    }

    /// How many callbacks listen to each kind of event.
    pub closed spec fn counts(&self) -> ListenerCounts {
        (
            self.mouse_up.len(),
            self.mouse_down.len(),
            self.mouse_move.len(),
            self.mouse_scroll.len(),
            self.keyboard_up.len(),
            self.keyboard_down.len(),
        )
    }

    /// No callbacks at all.
    pub fn new() -> (l: Self)
        ensures
            l.counts() == (0nat, 0nat, 0nat, 0nat, 0nat, 0nat),
    {
        EventListeners {
            mouse_up: EventListener::new(),
            mouse_down: EventListener::new(),
            mouse_move: EventListener::new(),
            mouse_scroll: EventListener::new(),
            keyboard_up: EventListener::new(),
            keyboard_down: EventListener::new(),
        }
    }

    /// Registers a callback with the events of its kind; the other kinds keep theirs.
    pub fn add_listener(&mut self, listener: Listeners<E, B, P>)
        ensures
            final(self).counts() == counts_with(old(self).counts(), listener_kind(listener)),
    {
        match listener {
            Listeners::MouseDown(callback) => self.mouse_down.add(callback),
            Listeners::MouseUp(callback) => self.mouse_up.add(callback),
            Listeners::MouseMove(callback) => self.mouse_move.add(callback),
            Listeners::MouseScroll(callback) => self.mouse_scroll.add(callback),
            Listeners::KeyboardUp(callback) => self.keyboard_up.add(callback),
            Listeners::KeyboardDown(callback) => self.keyboard_down.add(callback),
        }
    }

    /// The number of callbacks for each kind, in the order of `counts`.
    pub fn listener_counts(&self) -> (r: (usize, usize, usize, usize, usize, usize))
        ensures
            (r.0 as nat, r.1 as nat, r.2 as nat, r.3 as nat, r.4 as nat, r.5 as nat) == self.counts(),
    {
        (
            self.mouse_up.count(),
            self.mouse_down.count(),
            self.mouse_move.count(),
            self.mouse_scroll.count(),
            self.keyboard_up.count(),
            self.keyboard_down.count(),
        )
    }
}

/// The kind of an input event.
pub open spec fn event_kind<B, P>(event: InputEvent<B, P>) -> EventKind {
    match event {
        InputEvent::MouseDown(_) => EventKind::MouseDown,
        InputEvent::MouseUp(_) => EventKind::MouseUp,
        InputEvent::MouseMove(_) => EventKind::MouseMove,
        InputEvent::MouseScroll(_) => EventKind::MouseScroll,
        InputEvent::KeyboardDown(_) => EventKind::KeyboardDown,
        InputEvent::KeyboardUp(_) => EventKind::KeyboardUp,
    }
}

impl<E: FutureExecutor, B: Clone, P: Clone> EventListeners<E, B, P> {
    /// The callbacks for the kind of `event` ran once each, in order of registration, with
    /// (a clone of) the event's data, taking the executor from `before` to `after`.
    pub open spec fn dispatched(&self, event: InputEvent<B, P>, before: E, after: E) -> bool {
        match event {
            InputEvent::MouseDown(b) => ran_in_order(
                self.mouse_down_listener().callbacks(),
                MouseButtonEvent { button: b },
                before,
                after,
            ),
            InputEvent::MouseUp(b) => ran_in_order(self.mouse_up_listener().callbacks(), MouseButtonEvent { button: b }, before, after),
            InputEvent::MouseMove(p) => ran_in_order(self.mouse_move_listener().callbacks(), MouseMoveEvent { pos: p }, before, after),
            InputEvent::MouseScroll(p) => ran_in_order(
                self.mouse_scroll_listener().callbacks(),
                MouseScrollEvent { delta: p },
                before,
                after,
            ),
            InputEvent::KeyboardDown(k) => ran_in_order(self.keyboard_down_listener().callbacks(), KeyboardEvent { key: k }, before, after),
            InputEvent::KeyboardUp(k) => ran_in_order(self.keyboard_up_listener().callbacks(), KeyboardEvent { key: k }, before, after),
        }
    }

    /// `self` has the callbacks of `other` for every kind of event but `kind`.
    pub open spec fn same_except(&self, other: &Self, kind: EventKind) -> bool {
        &&& (kind !is MouseUp ==> self.mouse_up_listener() == other.mouse_up_listener())
        &&& (kind !is MouseDown ==> self.mouse_down_listener() == other.mouse_down_listener())
        &&& (kind !is MouseMove ==> self.mouse_move_listener() == other.mouse_move_listener())
        &&& (kind !is MouseScroll ==> self.mouse_scroll_listener() == other.mouse_scroll_listener())
        &&& (kind !is KeyboardUp ==> self.keyboard_up_listener() == other.keyboard_up_listener())
        &&& (kind !is KeyboardDown ==> self.keyboard_down_listener() == other.keyboard_down_listener())
    }

    /// Runs the callbacks registered for the kind of `event`, in order of registration, each
    /// with the event's data; no callback is added or removed, and the callbacks for other
    /// kinds of events do not run.
    pub fn handle_input_event(&mut self, event: InputEvent<B, P>, e: &mut E)
        ensures
            final(self).counts() == old(self).counts(),
            old(self).dispatched(event, *old(e), *final(e)),
            final(self).same_except(old(self), event_kind(event)),
    {
        match event {
            InputEvent::MouseDown(button) => self.mouse_down.handle_event(MouseButtonEvent { button }, e),
            InputEvent::MouseUp(button) => self.mouse_up.handle_event(MouseButtonEvent { button }, e),
            InputEvent::MouseMove(pos) => self.mouse_move.handle_event(MouseMoveEvent { pos }, e),
            InputEvent::MouseScroll(delta) => self.mouse_scroll.handle_event(MouseScrollEvent { delta }, e),
            InputEvent::KeyboardDown(key) => self.keyboard_down.handle_event(KeyboardEvent { key }, e),
            InputEvent::KeyboardUp(key) => self.keyboard_up.handle_event(KeyboardEvent { key }, e),
        }
    }
}

impl<E: FutureExecutor, B, P> Default for EventListeners<E, B, P> {
    fn default() -> (l: Self)
        ensures
            l.counts() == (0nat, 0nat, 0nat, 0nat, 0nat, 0nat),
    {
        Self::new()
    }
}

} // verus!
