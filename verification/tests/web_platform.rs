use std::future::Future;
use gosub::web_platform::{
    Callback, EventListener, EventListeners, FutureExecutor, InputEvent, KeyboardEvent, Listeners, MouseButtonEvent,
    MouseMoveEvent, PollCallback, PollGuard, Spawner,
};

#[derive(Default)]
struct CountingExecutor {
    spawned: usize,
}

impl FutureExecutor for CountingExecutor {
    fn execute<T: Future<Output = ()> + 'static>(&mut self, _future: T) {
        self.spawned += 1;
    }
}

struct Record(std::rc::Rc<std::cell::RefCell<Vec<char>>>);

impl Spawner<CountingExecutor, KeyboardEvent> for Record {
    fn spawn(&mut self, executor: &mut CountingExecutor, data: KeyboardEvent) {
        self.0.borrow_mut().push(data.key);
        executor.execute(async {});
    }
}

struct Nothing;

impl Spawner<CountingExecutor, ()> for Nothing {
    fn spawn(&mut self, executor: &mut CountingExecutor, _data: ()) {
        executor.execute(async {});
    }
}

#[test]
fn every_listener_sees_the_event_in_order() {
    let seen = std::rc::Rc::new(std::cell::RefCell::new(Vec::new()));
    let mut listener: EventListener<KeyboardEvent, CountingExecutor> = EventListener::default();
    listener.add(Callback::new(Box::new(Record(seen.clone()))));
    listener.add(Callback::new(Box::new(Record(seen.clone()))));
    let mut exec = CountingExecutor::default();
    listener.handle_event(KeyboardEvent { key: 'a' }, &mut exec);
    listener.handle_event(KeyboardEvent { key: 'b' }, &mut exec);
    assert_eq!(*seen.borrow(), vec!['a', 'a', 'b', 'b']);
    assert_eq!(exec.spawned, 4);
    assert_eq!(listener.count(), 2);
}

#[test]
fn exec_runs_a_callback_without_data() {
    let mut cb = Callback::new(Nothing);
    let mut exec = CountingExecutor::default();
    cb.exec(&mut exec);
    cb.exec(&mut exec);
    assert_eq!(exec.spawned, 2);
}

struct Poller;

impl PollCallback for Poller {
    fn poll(&mut self) {}
}

#[test]
fn poll_guard_keeps_its_parts() {
    let g = PollGuard::new(5u32, Poller);
    let (fut, _cb) = g.into_parts();
    assert_eq!(fut, 5);
}

struct Buttons(std::rc::Rc<std::cell::RefCell<Vec<u8>>>);

impl Spawner<CountingExecutor, MouseButtonEvent<u8>> for Buttons {
    fn spawn(&mut self, executor: &mut CountingExecutor, data: MouseButtonEvent<u8>) {
        self.0.borrow_mut().push(data.button);
        executor.execute(async {});
    }
}

struct Moves(std::rc::Rc<std::cell::RefCell<Vec<(i32, i32)>>>);

impl Spawner<CountingExecutor, MouseMoveEvent<(i32, i32)>> for Moves {
    fn spawn(&mut self, executor: &mut CountingExecutor, data: MouseMoveEvent<(i32, i32)>) {
        self.0.borrow_mut().push(data.pos);
        executor.execute(async {});
    }
}

#[test]
fn input_events_reach_the_listeners_of_their_kind() {
    let downs = std::rc::Rc::new(std::cell::RefCell::new(Vec::new()));
    let moves = std::rc::Rc::new(std::cell::RefCell::new(Vec::new()));
    let keys = std::rc::Rc::new(std::cell::RefCell::new(Vec::new()));
    let mut listeners: EventListeners<CountingExecutor, u8, (i32, i32)> = EventListeners::default();
    assert_eq!(listeners.listener_counts(), (0, 0, 0, 0, 0, 0));
    listeners.add_listener(Listeners::MouseDown(Callback::new(Box::new(Buttons(downs.clone())))));
    listeners.add_listener(Listeners::MouseMove(Callback::new(Box::new(Moves(moves.clone())))));
    listeners.add_listener(Listeners::KeyboardUp(Callback::new(Box::new(Record(keys.clone())))));
    assert_eq!(listeners.listener_counts(), (0, 1, 1, 0, 1, 0));

    let mut exec = CountingExecutor::default();
    listeners.handle_input_event(InputEvent::MouseDown(2), &mut exec);
    listeners.handle_input_event(InputEvent::MouseUp(3), &mut exec);
    listeners.handle_input_event(InputEvent::MouseMove((4, 5)), &mut exec);
    listeners.handle_input_event(InputEvent::KeyboardDown('x'), &mut exec);
    listeners.handle_input_event(InputEvent::KeyboardUp('y'), &mut exec);
    assert_eq!(*downs.borrow(), vec![2]);
    assert_eq!(*moves.borrow(), vec![(4, 5)]);
    assert_eq!(*keys.borrow(), vec!['y']);
    assert_eq!(exec.spawned, 3);
    assert_eq!(listeners.listener_counts(), (0, 1, 1, 0, 1, 0));
}

#[test]
fn a_callback_runs_the_spawner_it_was_made_with() {
    let seen = std::rc::Rc::new(std::cell::RefCell::new(Vec::new()));
    let mut cb = Callback::new(Record(seen.clone()));
    let mut exec = CountingExecutor::default();
    cb.execute(&mut exec, KeyboardEvent { key: 'q' });
    assert_eq!(*seen.borrow(), vec!['q']);
    assert_eq!(exec.spawned, 1);
}
