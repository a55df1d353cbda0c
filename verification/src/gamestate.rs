//! The navigable modes of the application and the context that selects
//! between them: a current-screen tag plus a running flag, owned by the
//! frame loop and mutated through explicit requests.

use vstd::prelude::*;

verus! {

/// The tag of a navigable screen. `PauseMenu` is reserved: no screen is
/// registered for it, and selecting it is a fatal condition.
#[derive(Debug, PartialEq, Eq, Structural, Hash, Copy, Clone)]
pub enum GameStates {
    Pong,
    MainMenu,
    PauseMenu,
}

/// What a clicked button asks of the application: a screen switch or
/// process termination. Buttons carry one of these as plain data in
/// place of an arbitrary callback.
#[derive(Debug, PartialEq, Eq, Structural, Copy, Clone)]
pub enum ButtonAction {
    NavigateTo(GameStates),
    RequestExit,
}

/// The process-wide control state: which screen executes next frame and
/// whether the frame loop keeps running.
#[derive(Debug, PartialEq, Eq, Structural, Copy, Clone)]
pub struct AppContext {
    pub state: GameStates,
    pub running: bool,
}

impl AppContext {
    /// The context at startup: the main menu, running.
    pub fn new() -> (ctx: AppContext)
        ensures
            ctx == (AppContext { state: GameStates::MainMenu, running: true }),
    {
        AppContext { state: GameStates::MainMenu, running: true }
    }

    /// The context after one button action is honored.
    pub open spec fn spec_apply(self, action: ButtonAction) -> AppContext {
        match action {
            ButtonAction::NavigateTo(s) => AppContext { state: s, ..self },
            ButtonAction::RequestExit => AppContext { running: false, ..self },
        }
    }

    /// The context after a list of button actions is honored in order.
    pub open spec fn spec_apply_all(self, actions: Seq<ButtonAction>) -> AppContext
        decreases actions.len(),
    {
        if actions.len() == 0 {
            self
        } else {
            self.spec_apply_all(actions.drop_last()).spec_apply(actions.last())
        }
    }

    pub fn apply(&mut self, action: ButtonAction)
        ensures
            *final(self) == old(self).spec_apply(action),
    {
        match action {
            ButtonAction::NavigateTo(s) => {
                self.state = s;
            },
            ButtonAction::RequestExit => {
                self.running = false;
            },
        }
    }

    pub fn apply_all(&mut self, actions: &Vec<ButtonAction>)
        ensures
            *final(self) == old(self).spec_apply_all(actions@),
    {
        let n = actions.len();
        let mut i: usize = 0;
        while i < n
            invariant
                n == actions@.len(),
                i <= n,
                *self == old(self).spec_apply_all(actions@.take(i as int)),
            decreases n - i,
        {
            self.apply(actions[i]);
            proof {
                assert(actions@.take(i + 1 as int).drop_last() =~= actions@.take(i as int));
                assert(actions@.take(i + 1 as int).last() == actions@[i as int]);
            }
            i += 1;
        }
        proof {
            assert(actions@.take(n as int) =~= actions@);
        }
    }
}

} // verus!
