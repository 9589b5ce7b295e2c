//! What holds of the supervisor over whole histories: commands from the
//! control channel and events of the respawn loop, in the order in which
//! they reach the shared state.

use crate::command::{parse_command, CommandView, DEFAULT_DELAY};
use crate::respawn::{ends_wait, step, Event, Phase};
use crate::state::{Fault, Reply, State};
use crate::text::{decimal, tokens};
use vstd::prelude::*;

verus! {

/// One thing that reaches the shared state.
pub enum Input {
    /// A command from the control channel.
    Control(CommandView),
    /// An answer of the outside world to the respawn loop.
    Loop(Event),
}

/// The state and the loop's phase after one input. A command leaves the
/// phase alone.
pub open spec fn react(now: (State, Phase), input: Input) -> (State, Phase) {
    match input {
        Input::Control(command) => (now.0.after(command), now.1),
        Input::Loop(event) => step(now.0, now.1, event),
    }
}

/// The state and the loop's phase after the inputs, first input first.
pub open spec fn run(start: (State, Phase), inputs: Seq<Input>) -> (State, Phase)
    decreases inputs.len(),
{
    if inputs.len() == 0 {
        start
    } else {
        react(run(start, inputs.drop_last()), inputs.last())
    }
}

/// The state after the commands, first command first.
pub open spec fn after_all(state: State, commands: Seq<CommandView>) -> State
    decreases commands.len(),
{
    if commands.len() == 0 {
        state
    } else {
        after_all(state, commands.drop_last()).after(commands.last())
    }
}

/// Whether a command writes the desired-running flag.
pub open spec fn writes_flag(command: CommandView) -> bool {
    command is Start || command is Stop
}

/// The process that the latest successful spawn of a history started: the
/// one of the last `Spawned` that arrived while the loop was spawning. Where
/// the history holds none, the process that the state named at its start.
pub open spec fn latest_spawn(start: (State, Phase), inputs: Seq<Input>) -> Option<u32>
    decreases inputs.len(),
{
    if inputs.len() == 0 {
        start.0.pid
    } else {
        let before = run(start, inputs.drop_last());
        match inputs.last() {
            Input::Loop(Event::Spawned(pid)) if before.1 is Spawning => Some(pid),
            _ => latest_spawn(start, inputs.drop_last()),
        }
    }
}

/// Whether the history holds a successful spawn.
pub open spec fn has_spawned(start: (State, Phase), inputs: Seq<Input>) -> bool
    decreases inputs.len(),
{
    if inputs.len() == 0 {
        false
    } else {
        let before = run(start, inputs.drop_last());
        match inputs.last() {
            Input::Loop(Event::Spawned(_)) if before.1 is Spawning => true,
            _ => has_spawned(start, inputs.drop_last()),
        }
    }
}

/// The last write wins, in its general form: after any commands, the flag
/// is what the last `Start` or `Stop` among them wrote, whatever came before
/// it and whatever other commands came after it.
pub proof fn lemma_flag_follows_last_write(state: State, commands: Seq<CommandView>, last: int)
    requires
        0 <= last < commands.len(),
        writes_flag(commands[last]),
        forall|i: int| last < i < commands.len() ==> !writes_flag(commands[i]),
    ensures
        after_all(state, commands).running == (commands[last] is Start),
    decreases commands.len(),
{
    if last < commands.len() - 1 {
        lemma_flag_follows_last_write(state, commands.drop_last(), last);
        assert(!writes_flag(commands.last()));
    }
}

/// The last write wins: after any sequence of `Start` and `Stop` commands
/// that is not empty, the desired-running flag is what the last of them
/// wrote. Nothing earlier is kept or replayed.
pub proof fn lemma_last_write_wins(state: State, commands: Seq<CommandView>)
    requires
        commands.len() > 0,
        forall|i: int| 0 <= i < commands.len() ==> writes_flag(commands[i]),
    ensures
        after_all(state, commands).running == (commands.last() is Start),
{
    lemma_flag_follows_last_write(state, commands, commands.len() - 1);
}

/// The state names the process of the latest successful spawn: nothing but
/// a successful spawn writes the process identifier, and no exit clears it.
pub proof fn lemma_pid_is_latest_spawn(start: (State, Phase), inputs: Seq<Input>)
    ensures
        run(start, inputs).0.pid == latest_spawn(start, inputs),
    decreases inputs.len(),
{
    if inputs.len() > 0 {
        lemma_pid_is_latest_spawn(start, inputs.drop_last());
    }
}

/// A loop that set out spawning awaits a child only after a successful
/// spawn.
pub proof fn lemma_running_has_spawned(start: (State, Phase), inputs: Seq<Input>)
    requires
        start.1 is Spawning,
    ensures
        run(start, inputs).1 is Running ==> has_spawned(start, inputs),
        has_spawned(start, inputs) ==> latest_spawn(start, inputs) is Some,
    decreases inputs.len(),
{
    if inputs.len() > 0 {
        lemma_running_has_spawned(start, inputs.drop_last());
    }
}

/// A `Stop` while a child is running names exactly one process for the
/// terminator: the one that the latest successful spawn started. It reports
/// no fault, and the flag is written.
pub proof fn lemma_stop_terminates_latest_spawn(start: (State, Phase), inputs: Seq<Input>)
    requires
        start.1 is Spawning,
        run(start, inputs).1 is Running,
    ensures
        latest_spawn(start, inputs) is Some,
        run(start, inputs).0.reply_to(CommandView::Stop) == (Reply {
            wake: true,
            terminate: latest_spawn(start, inputs),
            fault: None,
        }),
        !react(run(start, inputs), Input::Control(CommandView::Stop)).0.running,
{
    lemma_pid_is_latest_spawn(start, inputs);
    lemma_running_has_spawned(start, inputs);
}

/// A `Stop` before any child was started clears the flag, names no process
/// and reports that there is none.
pub proof fn lemma_stop_without_child(state: State)
    requires
        state.pid is None,
    ensures
        state.reply_to(CommandView::Stop) == (Reply {
            wake: true,
            terminate: None,
            fault: Some(Fault::NoActiveProcess),
        }),
        state.reply_to(CommandView::Restart) == Reply::failed(Fault::NoActiveProcess),
        !state.after(CommandView::Stop).running,
{
}

/// The four keywords differ from each other.
proof fn lemma_keywords_differ()
    ensures
        "STOP"@ != "START"@,
        "STOP"@ != "RESTART"@,
        "STOP"@ != "DELAY"@,
        "START"@ != "RESTART"@,
        "START"@ != "DELAY"@,
        "RESTART"@ != "DELAY"@,
{
    reveal_strlit("STOP");
    reveal_strlit("START");
    reveal_strlit("RESTART");
    reveal_strlit("DELAY");
    assert("STOP"@.len() == 4 && "START"@.len() == 5 && "RESTART"@.len() == 7);
    assert("START"@[0] == 'S' && "DELAY"@[0] == 'D');
}

/// A `DELAY` without an argument sets the delay to the default of fifteen
/// seconds, and changes nothing else.
pub proof fn lemma_bare_delay_sets_default(state: State, text: Seq<char>)
    requires
        tokens(text) == seq!["DELAY"@],
    ensures
        parse_command(text) == CommandView::SetDelay(DEFAULT_DELAY),
        state.after(parse_command(text)) == (State { delay: 15, ..state }),
        state.reply_to(parse_command(text)) == Reply::quiet(),
{
    lemma_keywords_differ();
    assert(tokens(text)[0] == "DELAY"@);
}

/// A `DELAY` with a number sets the delay to that number of seconds, and
/// changes nothing else.
pub proof fn lemma_delay_sets_seconds(state: State, text: Seq<char>, seconds: u64)
    requires
        tokens(text).len() >= 2,
        tokens(text)[0] == "DELAY"@,
        decimal(tokens(text)[1]) == Some(seconds),
    ensures
        parse_command(text) == CommandView::SetDelay(seconds),
        state.after(parse_command(text)) == (State { delay: seconds, ..state }),
        state.reply_to(parse_command(text)) == Reply::quiet(),
{
    lemma_keywords_differ();
}

/// A `DELAY` whose argument writes no number leaves the state as it was,
/// the delay with it, and is reported as a command that is not known.
pub proof fn lemma_bad_delay_changes_nothing(state: State, text: Seq<char>)
    requires
        tokens(text).len() >= 2,
        tokens(text)[0] == "DELAY"@,
        decimal(tokens(text)[1]) is None,
    ensures
        parse_command(text) == CommandView::Unrecognized(text),
        state.after(parse_command(text)) == state,
        state.reply_to(parse_command(text)) == Reply::failed(Fault::UnknownCommand),
{
    lemma_keywords_differ();
}

/// No command reaches a wait in progress: the wait keeps the delay it began
/// with, whatever command arrives, and so does it when woken by anything
/// that does not end it.
pub proof fn lemma_wait_keeps_its_delay(state: State, delay: u64, input: Input)
    requires
        input matches Input::Loop(event) ==> !ends_wait(event),
    ensures
        react((state, Phase::WaitingForNextCycle { delay }), input).1 == (
        Phase::WaitingForNextCycle { delay }),
{
}

/// A new delay takes effect with the next cycle: every wait that begins
/// after a `SetDelay`, with no other in between, lasts the new delay. The
/// inputs in between are any but a `SetDelay`.
pub proof fn lemma_next_wait_takes_new_delay(
    start: (State, Phase),
    seconds: u64,
    inputs: Seq<Input>,
    event: Event,
)
    requires
        forall|i: int|
            0 <= i < inputs.len() ==> !(#[trigger] inputs[i] is Control
                && inputs[i]->Control_0 is SetDelay),
        !(run(react(start, Input::Control(CommandView::SetDelay(seconds))), inputs).1
            is WaitingForNextCycle),
    ensures
        ({
            let now = run(react(start, Input::Control(CommandView::SetDelay(seconds))), inputs);
            let next = react(now, Input::Loop(event));
            next.1 is WaitingForNextCycle ==> next.1 == (Phase::WaitingForNextCycle {
                delay: seconds,
            })
        }),
{
    lemma_delay_is_latest_set(
        react(start, Input::Control(CommandView::SetDelay(seconds))),
        inputs,
    );
}

/// Nothing but a `SetDelay` writes the delay.
pub proof fn lemma_delay_is_latest_set(start: (State, Phase), inputs: Seq<Input>)
    requires
        forall|i: int|
            0 <= i < inputs.len() ==> !(#[trigger] inputs[i] is Control
                && inputs[i]->Control_0 is SetDelay),
    ensures
        run(start, inputs).0.delay == start.0.delay,
    decreases inputs.len(),
{
    if inputs.len() > 0 {
        lemma_delay_is_latest_set(start, inputs.drop_last());
        assert(!(inputs.last() is Control && inputs.last()->Control_0 is SetDelay));
    }
}

/// The loop writes nothing but the process identifier, and that only when a
/// spawn succeeded while it was spawning.
pub proof fn lemma_loop_writes_pid_only(state: State, phase: Phase, event: Event)
    ensures
        step(state, phase, event).0.running == state.running,
        step(state, phase, event).0.delay == state.delay,
        step(state, phase, event).0.pid != state.pid ==> phase is Spawning && event is Spawned,
{
}

/// A wait lies before every spawn but the first: the loop comes to spawn
/// only out of a wait that ended or out of a signal while parked, and only
/// where respawning is wanted. A spawn that failed is therefore retried
/// after the delay, not at once.
pub proof fn lemma_spawn_follows_wait(state: State, phase: Phase, event: Event)
    requires
        !(phase is Spawning),
        step(state, phase, event).1 is Spawning,
    ensures
        state.running,
        (phase is WaitingForNextCycle && ends_wait(event)) || (phase is PausedBlocking && event
            == Event::Signaled),
{
}

/// One cycle of a supervisor that is wanted running: the program is
/// started, exits, the wait lasts the delay of that moment, and the loop is
/// back at spawning, the new process recorded.
pub proof fn lemma_cycle_respawns(state: State, pid: u32)
    requires
        state.running,
    ensures
        ({
            let started = react((state, Phase::Spawning), Input::Loop(Event::Spawned(pid)));
            let exited = react(started, Input::Loop(Event::ChildExited));
            let waited = react(exited, Input::Loop(Event::TimedOut));
            &&& started == (state.spawned(pid), Phase::Running)
            &&& exited == (state.spawned(pid), Phase::WaitingForNextCycle { delay: state.delay })
            &&& waited == (state.spawned(pid), Phase::Spawning)
        }),
{
}

/// A stopped supervisor spawns nothing: while respawning is not wanted and
/// no `Start` arrives, a loop that is not about to spawn never comes to
/// spawn, whatever else happens, and the state names the same process
/// throughout.
pub proof fn lemma_stopped_never_spawns(start: (State, Phase), inputs: Seq<Input>)
    requires
        !start.0.running,
        !(start.1 is Spawning),
        forall|i: int|
            0 <= i < inputs.len() ==> !(#[trigger] inputs[i] is Control
                && inputs[i]->Control_0 is Start),
    ensures
        !run(start, inputs).0.running,
        !(run(start, inputs).1 is Spawning),
        run(start, inputs).0.pid == start.0.pid,
    decreases inputs.len(),
{
    if inputs.len() > 0 {
        lemma_stopped_never_spawns(start, inputs.drop_last());
        assert(!(inputs.last() is Control && inputs.last()->Control_0 is Start));
    }
}

/// A `Start` lets a parked loop spawn at the next signal.
pub proof fn lemma_start_resumes(state: State)
    ensures
        react(
            react((state, Phase::PausedBlocking), Input::Control(CommandView::Start)),
            Input::Loop(Event::Signaled),
        ).1 is Spawning,
{
}

} // verus!
