//! Runtime state of the running overlay, and what each command received
//! over the control socket does to it and to the window.

use vstd::prelude::*;

use crate::ipc::Command;

verus! {

/// Runtime state of the overlay.
#[derive(Clone, Copy, Debug, PartialEq, Eq, Structural)]
pub struct AppState {
    /// Whether pointer input currently passes through the overlay.
    pub click_through: bool,
}

/// Creates the runtime state from the startup configuration.
pub fn create(click_through: bool) -> (state: AppState)
    ensures
        state.click_through == click_through,
{
    AppState { click_through }
}

/// What the window must do after a command has been applied to the state.
#[derive(Clone, Copy, Debug, PartialEq, Eq, Structural)]
pub enum Effect {
    /// Give the window the input region for this click-through value.
    ApplyClickThrough(bool),
    /// Show the window.
    Present,
    /// Hide the window.
    Hide,
    /// Reload the page in the window.
    Reload,
    /// Quit the application.
    Quit,
}

/// Click-through after `command`, from click-through `current` before it.
pub open spec fn next_click_through(current: bool, command: Command) -> bool {
    match command {
        Command::Toggle => !current,
        Command::Enable => true,
        Command::Disable => false,
        _ => current,
    }
}

/// The window effect of `command`, given click-through after it.
pub open spec fn effect_of(command: Command, click_through: bool) -> Effect {
    match command {
        Command::Toggle | Command::Enable | Command::Disable => Effect::ApplyClickThrough(
            click_through,
        ),
        Command::Show => Effect::Present,
        Command::Hide => Effect::Hide,
        Command::Reload => Effect::Reload,
        Command::Quit => Effect::Quit,
    }
}

impl AppState {
    /// Applies one command: updates click-through and says what the
    /// window must do. A click-through command hands the window the new
    /// value, so the window's input behaviour always follows the state.
    pub fn apply(&mut self, command: Command) -> (effect: Effect)
        ensures
            final(self).click_through == next_click_through(old(self).click_through, command),
            effect == effect_of(command, final(self).click_through),
            command == Command::Toggle ==> final(self).click_through == !old(self).click_through,
            command == Command::Enable ==> final(self).click_through,
            command == Command::Disable ==> !final(self).click_through,
            command == Command::Toggle || command == Command::Enable || command == Command::Disable
                ==> effect == Effect::ApplyClickThrough(final(self).click_through),
            command == Command::Show ==> effect == Effect::Present,
            command == Command::Hide ==> effect == Effect::Hide,
            command == Command::Reload ==> effect == Effect::Reload,
            command == Command::Quit ==> effect == Effect::Quit,
            !(command == Command::Toggle || command == Command::Enable || command
                == Command::Disable) ==> final(self).click_through == old(self).click_through,
    {
        match command {
            Command::Toggle => {
                let new_value = !self.click_through;
                self.click_through = new_value;
                Effect::ApplyClickThrough(new_value)
            },
            Command::Enable => {
                self.click_through = true;
                Effect::ApplyClickThrough(true)
            },
            Command::Disable => {
                self.click_through = false;
                Effect::ApplyClickThrough(false)
            },
            Command::Show => Effect::Present,
            Command::Hide => Effect::Hide,
            Command::Reload => Effect::Reload,
            Command::Quit => Effect::Quit,
        }
    }
}

/// Toggling twice gives back the click-through value one started from.
pub proof fn lemma_toggle_twice_restores(click_through: bool)
    ensures
        next_click_through(next_click_through(click_through, Command::Toggle), Command::Toggle)
            == click_through,
{
}

/// Toggling always changes click-through.
pub proof fn lemma_toggle_flips(click_through: bool)
    ensures
        next_click_through(click_through, Command::Toggle) != click_through,
{
}

/// `enable` and `disable` set click-through whatever it was, so repeating
/// either one changes nothing more.
pub proof fn lemma_enable_disable_absolute(click_through: bool)
    ensures
        next_click_through(click_through, Command::Enable),
        !next_click_through(click_through, Command::Disable),
        next_click_through(next_click_through(click_through, Command::Enable), Command::Enable)
            == next_click_through(click_through, Command::Enable),
        next_click_through(next_click_through(click_through, Command::Disable), Command::Disable)
            == next_click_through(click_through, Command::Disable),
{
}

/// Showing, hiding, reloading and quitting leave click-through as it was,
/// and only the three click-through commands touch the input region.
pub proof fn lemma_window_commands_keep_click_through(click_through: bool, command: Command)
    requires
        command != Command::Toggle,
        command != Command::Enable,
        command != Command::Disable,
    ensures
        next_click_through(click_through, command) == click_through,
        !(effect_of(command, click_through) is ApplyClickThrough),
{
}

/// Each window command has the effect its name says: `show` presents the
/// window, `hide` hides it, `reload` reloads the page, `quit` quits; the
/// click-through commands hand over the click-through value, and no two
/// commands of different kinds share an effect.
pub proof fn lemma_command_effects_follow_names(click_through: bool, c1: Command, c2: Command)
    ensures
        effect_of(Command::Show, click_through) == Effect::Present,
        effect_of(Command::Hide, click_through) == Effect::Hide,
        effect_of(Command::Reload, click_through) == Effect::Reload,
        effect_of(Command::Quit, click_through) == Effect::Quit,
        effect_of(Command::Toggle, click_through) == Effect::ApplyClickThrough(click_through),
        effect_of(Command::Enable, click_through) == Effect::ApplyClickThrough(click_through),
        effect_of(Command::Disable, click_through) == Effect::ApplyClickThrough(click_through),
        effect_of(c1, click_through) == effect_of(c2, click_through) && !(effect_of(
            c1,
            click_through,
        ) is ApplyClickThrough) ==> c1 == c2,
{
}

/// Click-through after the commands of `commands`, applied in order,
/// from click-through `start`.
pub open spec fn click_through_after(start: bool, commands: Seq<Command>) -> bool
    decreases commands.len(),
{
    if commands.len() == 0 {
        start
    } else {
        next_click_through(click_through_after(start, commands.drop_last()), commands.last())
    }
}

/// Applying a batch of commands one after another, as the main loop does
/// with every command waiting on the channel, ends at the fold of the
/// per-command rule: `trace[i]` is the click-through before the `i`-th
/// command, each step being what `AppState::apply` ensures.
pub proof fn lemma_applying_in_turn_reaches_fold(
    start: bool,
    commands: Seq<Command>,
    trace: Seq<bool>,
)
    requires
        trace.len() == commands.len() + 1,
        trace[0] == start,
        forall|i: int|
            0 <= i < commands.len() ==> #[trigger] trace[i + 1] == next_click_through(
                trace[i],
                commands[i],
            ),
    ensures
        trace.last() == click_through_after(start, commands),
    decreases commands.len(),
{
    if commands.len() > 0 {
        let n = commands.len() - 1;
        let shorter = commands.drop_last();
        let prefix = trace.drop_last();
        assert forall|i: int| 0 <= i < shorter.len() implies #[trigger] prefix[i + 1]
            == next_click_through(prefix[i], shorter[i]) by {
            assert(trace[i + 1] == next_click_through(trace[i], commands[i]));
        }
        lemma_applying_in_turn_reaches_fold(start, shorter, prefix);
        assert(trace[n + 1] == next_click_through(trace[n], commands[n]));
    }
}

/// Handling one batch and then another is the same as handling the two
/// batches as one.
pub proof fn lemma_batches_compose(start: bool, first: Seq<Command>, second: Seq<Command>)
    ensures
        click_through_after(start, first + second) == click_through_after(
            click_through_after(start, first),
            second,
        ),
    decreases second.len(),
{
    if second.len() == 0 {
        assert(first + second =~= first);
    } else {
        assert((first + second).drop_last() =~= first + second.drop_last());
        assert((first + second).last() == second.last());
        lemma_batches_compose(start, first, second.drop_last());
    }
}

} // verus!
