//! The decisions of the interactive loop: which command a key stands for,
//! how long to wait for input, and what one pass of the loop does to a
//! simulation.
use crate::grid::App;
use crate::model::Life;
use vstd::prelude::*;

verus! {

/// Target interval, in milliseconds, between automatic generations.
pub const TICK_RATE_MS: u64 = 100;

/// A key press, reduced to what the loop can tell apart.
#[derive(Clone, Copy, Debug, PartialEq, Eq, Structural)]
pub enum Key {
    Char(char),
    Enter,
    Other,
}

/// What the loop does in answer to an input.
#[derive(Clone, Copy, Debug, PartialEq, Eq, Structural)]
pub enum Command {
    Quit,
    ToggleRun,
    Step,
    Ignore,
}

/// How the loop goes on after one pass.
#[derive(Clone, Copy, Debug, PartialEq, Eq, Structural)]
pub enum Flow {
    /// Leave the loop.
    Quit,
    /// Go on; when `restart_tick` holds, the tick interval starts anew now.
    Continue { restart_tick: bool },
}

/// `q` quits, space toggles running, Enter steps; any other key, or no key
/// at all, does nothing.
pub open spec fn command_of(key: Option<Key>) -> Command {
    match key {
        Some(Key::Char(c)) => if c == 'q' {
            Command::Quit
        } else if c == ' ' {
            Command::ToggleRun
        } else {
            Command::Ignore
        },
        Some(Key::Enter) => Command::Step,
        _ => Command::Ignore,
    }
}

/// The state after a command: a toggle flips the run flag, a step advances
/// one generation only while paused, anything else changes nothing.
pub open spec fn after_command(m: Life, c: Command) -> Life {
    match c {
        Command::ToggleRun => m.toggled(),
        Command::Step => if m.running {
            m
        } else {
            m.advanced()
        },
        _ => m,
    }
}

/// The state after the tick check: once `tick` milliseconds have passed, a
/// running simulation advances one generation.
pub open spec fn after_tick(m: Life, elapsed: u64, tick: u64) -> Life {
    if elapsed >= tick && m.running {
        m.advanced()
    } else {
        m
    }
}

/// The state after one pass of the loop with command `c`, `elapsed`
/// milliseconds after the last tick.
pub open spec fn after_iteration(m: Life, c: Command, elapsed: u64, tick: u64) -> Life {
    if c == Command::Quit {
        m
    } else {
        after_tick(after_command(m, c), elapsed, tick)
    }
}

/// The flow after one pass: quit on the quit command, else go on and
/// restart the tick interval once it has run out.
pub open spec fn flow_of(c: Command, elapsed: u64, tick: u64) -> Flow {
    if c == Command::Quit {
        Flow::Quit
    } else {
        Flow::Continue { restart_tick: elapsed >= tick }
    }
}

/// The state after a series of passes, each given its command and the
/// milliseconds elapsed since the last tick.
pub open spec fn run_iterations(m: Life, events: Seq<(Command, u64)>, tick: u64) -> Life
    decreases events.len(),
{
    if events.len() == 0 {
        m
    } else {
        run_iterations(after_iteration(m, events[0].0, events[0].1, tick), events.drop_first(), tick)
    }
}

/// The command that a key stands for.
pub fn command_for(key: Option<Key>) -> (r: Command)
    ensures
        r == command_of(key),
{
    match key {
        Some(Key::Char(c)) => if c == 'q' {
            Command::Quit
        } else if c == ' ' {
            Command::ToggleRun
        } else {
            Command::Ignore
        },
        Some(Key::Enter) => Command::Step,
        _ => Command::Ignore,
    }
}

/// How long to wait for input: what is left of the tick interval, never
/// less than zero.
pub fn poll_timeout(tick_ms: u64, elapsed_ms: u64) -> (r: u64)
    ensures
        r == if elapsed_ms >= tick_ms {
            0
        } else {
            tick_ms - elapsed_ms
        },
{
    if elapsed_ms >= tick_ms {
        0
    } else {
        tick_ms - elapsed_ms
    }
}

/// One pass of the loop after the input wait: the key, if any, is acted on,
/// then, unless it quit, a running simulation advances once the tick
/// interval (`tick_ms`) has run out, `elapsed_ms` being the time since the
/// last tick.
pub fn iterate(app: &mut App, key: Option<Key>, elapsed_ms: u64, tick_ms: u64) -> (r: Flow)
    requires
        old(app).wf(),
    ensures
        final(app).wf(),
        final(app)@ == after_iteration(old(app)@, command_of(key), elapsed_ms, tick_ms),
        r == flow_of(command_of(key), elapsed_ms, tick_ms),
{
    match command_for(key) {
        Command::Quit => {
            return Flow::Quit;
        },
        Command::ToggleRun => app.toggle_running(),
        Command::Step => {
            if !app.is_running() {
                app.update();
            }
        },
        Command::Ignore => {},
    }
    if elapsed_ms >= tick_ms {
        if app.is_running() {
            app.update();
        }
        Flow::Continue { restart_tick: true }
    } else {
        Flow::Continue { restart_tick: false }
    }
}

/// While paused, passes without a step or a toggle (no key, an ignored key,
/// or quit) change nothing: not the grid, not a counter, not the run flag.
pub proof fn lemma_paused_without_step_keeps_state(m: Life, events: Seq<(Command, u64)>, tick: u64)
    requires
        !m.running,
        forall|i: int|
            0 <= i < events.len() ==> (#[trigger] events[i]).0 != Command::Step && events[i].0
                != Command::ToggleRun,
    ensures
        run_iterations(m, events, tick) == m,
    decreases events.len(),
{
    if events.len() > 0 {
        let rest = events.drop_first();
        assert(after_iteration(m, events[0].0, events[0].1, tick) == m);
        assert forall|i: int| 0 <= i < rest.len() implies (#[trigger] rest[i]).0 != Command::Step
            && rest[i].0 != Command::ToggleRun by {
            assert(rest[i] == events[i + 1]);
        }
        lemma_paused_without_step_keeps_state(m, rest, tick);
    }
}

/// While paused, a step advances exactly one generation, whatever the time
/// since the last tick, and the simulation stays paused.
pub proof fn lemma_paused_step_advances_once(m: Life, elapsed: u64, tick: u64)
    requires
        m.wf(),
        !m.running,
        m.stats.generation < u64::MAX,
    ensures
        after_iteration(m, Command::Step, elapsed, tick) == m.advanced(),
        after_iteration(m, Command::Step, elapsed, tick).stats.generation == m.stats.generation + 1,
        !after_iteration(m, Command::Step, elapsed, tick).running,
{
}

/// Two toggles in a row give back the state they started from, and a toggle
/// changes neither the grid nor a counter.
pub proof fn lemma_toggle_twice(m: Life)
    ensures
        after_command(after_command(m, Command::ToggleRun), Command::ToggleRun) == m,
        after_command(m, Command::ToggleRun).cells == m.cells,
        after_command(m, Command::ToggleRun).stats == m.stats,
        after_command(m, Command::ToggleRun).running == !m.running,
{
}

} // verus!
