//! The user agent's windows: their options, and which of them are open.
use vstd::prelude::*;

verus! {

/// Where a window is placed in a hosting page.
#[derive(Debug, Default)]
pub struct WindowOptions {
    pub id: String,
    pub parent_id: String,
}

impl WindowOptions {
    /// Options for the window with element id `id`, without a parent.
    pub fn with_id(id: String) -> (o: Self)
        ensures
            o.id@ == id@,
            o.parent_id@ == Seq::<char>::empty(),
    {
        Self { id, parent_id: String::new() }
    }
}

/// What happened to a window of the application.
#[derive(Debug, Clone, Copy, PartialEq, Eq, Structural)]
pub enum WindowEvent {
    /// A window with this id was opened (and resumed).
    Opened(u64),
    /// Opening a window failed.
    OpenFailed,
    /// The window with this id was closed.
    Closed(u64),
}

/// What the application does after a window event.
#[derive(Debug, Clone, Copy, PartialEq, Eq, Structural)]
pub enum WindowAction {
    /// Go on handling events.
    Continue,
    /// Leave the event loop: no window is open.
    Exit,
}

/// The ids of the open windows.
pub struct OpenWindows {
    ids: Vec<u64>,
}

impl View for OpenWindows {
    type V = Set<u64>;

    closed spec fn view(&self) -> Set<u64> {
        Set::new(|id: u64| self.ids@.contains(id))
    }
}

impl OpenWindows {
    /// No window is open.
    pub fn new() -> (w: Self)
        ensures
            w@ == Set::<u64>::empty(),
    {
        let w = OpenWindows { ids: Vec::new() };
        assert(w@ =~= Set::<u64>::empty());
        w
    }

    /// Whether no window is open.
    pub fn is_empty(&self) -> (r: bool)
        ensures
            r == (self@ == Set::<u64>::empty()),
    {
        if self.ids.len() == 0 {
            assert(self@ =~= Set::<u64>::empty());
            true
        } else {
            assert(self@.contains(self.ids@[0]));
            false
        }
    }

    /// The windows after `event`, and whether the application goes on: an opened window
    /// joins the open ones, a closed one leaves them; when opening fails, or a window is
    /// closed, and no window is left open, the application exits.
    pub fn handle(&mut self, event: WindowEvent) -> (a: WindowAction)
        ensures
            final(self)@ == match event {
                WindowEvent::Opened(id) => old(self)@.insert(id),
                WindowEvent::OpenFailed => old(self)@,
                WindowEvent::Closed(id) => old(self)@.remove(id),
            },
            a == match event {
                WindowEvent::Opened(_) => WindowAction::Continue,
                _ => if final(self)@ == Set::<u64>::empty() {
                    WindowAction::Exit
                } else {
                    WindowAction::Continue
                },
            },
    {
        match event {
            WindowEvent::Opened(id) => {
                let ghost before = self@;
                let ghost olds = self.ids@;
                self.ids.push(id);
                assert(self.ids@ == olds.push(id));
                assert forall|x: u64| #[trigger] self@.contains(x) == before.insert(id).contains(x) by {
                    if self.ids@.contains(x) && x != id {
                        let j = choose|j: int| 0 <= j < self.ids@.len() && self.ids@[j] == x;
                        assert(olds[j] == x);
                        assert(olds.contains(x));
                    }
                    if olds.contains(x) {
                        let j = choose|j: int| 0 <= j < olds.len() && olds[j] == x;
                        assert(self.ids@[j] == x);
                    }
                    if x == id {
                        assert(self.ids@[self.ids@.len() - 1] == x);
                    }
                }
                assert(self@ =~= before.insert(id));
                WindowAction::Continue
            },
            WindowEvent::OpenFailed => {
                if self.is_empty() {
                    WindowAction::Exit
                } else {
                    WindowAction::Continue
                }
            },
            WindowEvent::Closed(id) => {
                let ghost before = self@;
                let mut kept: Vec<u64> = Vec::new();
                let mut i: usize = 0;
                while i < self.ids.len()
                    invariant
                        i <= self.ids.len(),
                        before == Set::new(|x: u64| self.ids@.contains(x)),
                        forall|x: u64| kept@.contains(x) <==> (x != id && exists|j: int| 0 <= j < i && self.ids@[j] == x),
                    decreases self.ids.len() - i,
                {
                    let x = self.ids[i];
                    if x != id {
                        let ghost k0 = kept@;
                        kept.push(x);
                        assert forall|y: u64| kept@.contains(y) <==> (y != id && exists|j: int| 0 <= j < i + 1 && self.ids@[j] == y) by {
                            if kept@.contains(y) && y != x {
                                let m = choose|m: int| 0 <= m < kept@.len() && kept@[m] == y;
                                assert(k0[m] == y);
                                assert(k0.contains(y));
                            }
                            if y == x {
                                assert(kept@[kept@.len() - 1] == y);
                            }
                            if y != id && (exists|j: int| 0 <= j < i + 1 && self.ids@[j] == y) && y != x {
                                let j = choose|j: int| 0 <= j < i + 1 && self.ids@[j] == y;
                                assert(j < i);
                                assert(k0.contains(y));
                                let m = choose|m: int| 0 <= m < k0.len() && k0[m] == y;
                                assert(kept@[m] == y);
                            }
                        }
                    } else {
                        assert forall|y: u64| kept@.contains(y) <==> (y != id && exists|j: int| 0 <= j < i + 1 && self.ids@[j] == y) by {
                            if y != id && (exists|j: int| 0 <= j < i + 1 && self.ids@[j] == y) {
                                let j = choose|j: int| 0 <= j < i + 1 && self.ids@[j] == y;
                                assert(j < i);
                            }
                        }
                    }
                    i += 1;
                }
                self.ids = kept;
                assert(self@ =~= before.remove(id));
                if self.is_empty() {
                    WindowAction::Exit
                } else {
                    WindowAction::Continue
                }
            },
        }
    }
}

} // verus!
