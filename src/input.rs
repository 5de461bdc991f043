//! Playing an input sequence: the primitive commands that it comes to.

use vstd::prelude::*;
use crate::keys::Key;
use crate::sequence::InputAction;

verus! {

/// How a key command moves a key.
#[derive(Debug, Clone, Copy, PartialEq, Eq, Structural)]
pub enum Direction {
    Press,
    Release,
    /// Press and release at once.
    Click,
}

/// A primitive command for the input system, or a pause of the player.
#[derive(Debug, Clone, Copy, PartialEq, Eq, Structural)]
pub enum InputCommand {
    Key { key: Key, direction: Direction },
    Sleep { duration_ms: u64 },
}

/// The commands that play one action.
pub open spec fn commands_of(a: InputAction) -> Seq<InputCommand> {
    match a {
        InputAction::Press { key, duration_ms: None } => seq![
            InputCommand::Key { key, direction: Direction::Click },
        ],
        InputAction::Press { key, duration_ms: Some(d) } => seq![
            InputCommand::Key { key, direction: Direction::Press },
            InputCommand::Sleep { duration_ms: d },
            InputCommand::Key { key, direction: Direction::Release },
        ],
        InputAction::KeyDown { key } => seq![InputCommand::Key { key, direction: Direction::Press }],
        InputAction::KeyUp { key } => seq![InputCommand::Key { key, direction: Direction::Release }],
        InputAction::Wait { duration_ms } => seq![InputCommand::Sleep { duration_ms }],
    }
}

/// The commands that play a sequence of actions, in order.
pub open spec fn plan_of(actions: Seq<InputAction>) -> Seq<InputCommand>
    decreases actions.len(),
{
    if actions.len() == 0 {
        Seq::empty()
    } else {
        plan_of(actions.drop_last()) + commands_of(actions.last())
    }
}

/// The commands that play `actions` in order. A hold presses, pauses and
/// releases; a click is one command; an empty sequence gives no command.
/// The player runs them in order and stops at the first that fails.
pub fn plan_input_commands(actions: &Vec<InputAction>) -> (r: Vec<InputCommand>)
    ensures
        r@ == plan_of(actions@),
{
    let mut out: Vec<InputCommand> = Vec::new();
    let mut i: usize = 0;
    while i < actions.len()
        invariant
            i <= actions@.len(),
            out@ == plan_of(actions@.subrange(0, i as int)),
        decreases actions@.len() - i,
    {
        let ghost before = out@;
        assert(actions@.subrange(0, i + 1).drop_last() =~= actions@.subrange(0, i as int));
        match actions[i] {
            InputAction::Press { key, duration_ms: None } => {
                out.push(InputCommand::Key { key, direction: Direction::Click });
            },
            InputAction::Press { key, duration_ms: Some(d) } => {
                out.push(InputCommand::Key { key, direction: Direction::Press });
                out.push(InputCommand::Sleep { duration_ms: d });
                out.push(InputCommand::Key { key, direction: Direction::Release });
            },
            InputAction::KeyDown { key } => {
                out.push(InputCommand::Key { key, direction: Direction::Press });
            },
            InputAction::KeyUp { key } => {
                out.push(InputCommand::Key { key, direction: Direction::Release });
            },
            InputAction::Wait { duration_ms } => {
                out.push(InputCommand::Sleep { duration_ms });
            },
        }
        assert(out@ =~= before + commands_of(actions@[i as int]));
        i = i + 1;
    }
    assert(actions@.subrange(0, i as int) =~= actions@);
    out
}

} // verus!
