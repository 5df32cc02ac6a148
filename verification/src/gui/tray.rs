//! A tray menu whose commands carry the place of a bot in the list.
//!
//! A menu of this kind is built anew for every click and handled while it is
//! shown, so a place means the same bot throughout.
use vstd::prelude::*;
use vstd::string::*;

use crate::gui_native::menu::BotAction;
use crate::text::{comes_first, ends_with, ordered, ordered_total, ordered_transitive, same, views};

verus! {

pub const ID_EXIT: i32 = 1;

pub const ID_ADD_SERVER: i32 = 2;

/// The ids of the first bot begin here.
pub const ID_BOT_BASE: i32 = 1000;

/// How far the ids of two bots are apart.
pub const IDS_PER_PLACE: i32 = 10;

/// What a command does.
#[derive(Debug, Clone, Copy, PartialEq, Eq, Structural)]
pub enum Command {
    Exit,
    AddServer,
    /// Something with the bot at this place.
    Bot(usize, BotAction),
    Nothing,
}

/// The id of a bot's command.
pub open spec fn id_of(place: int, action: BotAction) -> int {
    ID_BOT_BASE + place * IDS_PER_PLACE + (match action {
        BotAction::Start => 0int,
        BotAction::Stop => 1,
        BotAction::Restart => 2,
        BotAction::Logs => 3,
        BotAction::Config => 4,
    })
}

/// The action with this number.
pub open spec fn numbered_action(n: int) -> Option<BotAction> {
    if n == 0 {
        Some(BotAction::Start)
    } else if n == 1 {
        Some(BotAction::Stop)
    } else if n == 2 {
        Some(BotAction::Restart)
    } else if n == 3 {
        Some(BotAction::Logs)
    } else if n == 4 {
        Some(BotAction::Config)
    } else {
        None
    }
}

/// What an id means where there are so many bots.
pub open spec fn command_of(id: int, bots: nat) -> Command {
    if id == ID_EXIT {
        Command::Exit
    } else if id == ID_ADD_SERVER {
        Command::AddServer
    } else if id >= ID_BOT_BASE && (id - ID_BOT_BASE) / (IDS_PER_PLACE as int) < bots {
        match numbered_action((id - ID_BOT_BASE) % (IDS_PER_PLACE as int)) {
            Some(action) => Command::Bot(
                ((id - ID_BOT_BASE) / (IDS_PER_PLACE as int)) as usize,
                action,
            ),
            None => Command::Nothing,
        }
    } else {
        Command::Nothing
    }
}

/// What an id means where there are so many bots.
pub fn handle_menu_action(id: i32, bots: usize) -> (r: Command)
    ensures
        r == command_of(id as int, bots as nat),
{
    if id == ID_EXIT {
        return Command::Exit;
    }
    if id == ID_ADD_SERVER {
        return Command::AddServer;
    }
    if id < ID_BOT_BASE {
        return Command::Nothing;
    }
    let place: i32 = (id - ID_BOT_BASE) / IDS_PER_PLACE;
    let n: i32 = (id - ID_BOT_BASE) % IDS_PER_PLACE;
    if place as usize >= bots {
        return Command::Nothing;
    }
    let action = match n {
        0 => BotAction::Start,
        1 => BotAction::Stop,
        2 => BotAction::Restart,
        3 => BotAction::Logs,
        4 => BotAction::Config,
        _ => {
            return Command::Nothing;
        },
    };
    Command::Bot(place as usize, action)
}

/// The first id of the bot at a place.
pub fn base_id(place: usize) -> (r: i32)
    requires
        place <= 214_748_263,
    ensures
        r == id_of(place as int, BotAction::Start),
{
    ID_BOT_BASE + place as i32 * IDS_PER_PLACE
}

/// A command does what it says to the bot it was made for.
pub proof fn a_command_reaches_its_bot(place: nat, action: BotAction, bots: nat)
    requires
        place < bots <= usize::MAX,
    ensures
        command_of(id_of(place as int, action), bots) == Command::Bot(place as usize, action),
{
    let offset = id_of(place as int, action) - ID_BOT_BASE;
    assert(offset / 10 == place && 0 <= offset % 10 < 5);
}

/// Whether a file is a dated log of the instance whose log has this name.
pub open spec fn dated_log(file: Seq<char>, name: Seq<char>) -> bool {
    name.is_suffix_of(file) && file != name
}

/// The newest dated log among some files: the last by name. `None` where there
/// is none.
pub fn newest_dated_log(files: &Vec<String>, name: &str) -> (r: Option<usize>)
    ensures
        match r {
            Some(i) => i < files@.len() && dated_log(files@[i as int]@, name@) && forall|k: int|
                0 <= k < files@.len() && dated_log(#[trigger] views(files@)[k], name@) ==> ordered(
                    views(files@)[k],
                    files@[i as int]@,
                ),
            None => forall|k: int|
                0 <= k < files@.len() ==> !dated_log(#[trigger] views(files@)[k], name@),
        },
{
    let mut best: Option<usize> = None;
    let mut i: usize = 0;
    while i < files.len()
        invariant
            i <= files.len(),
            match best {
                Some(b) => b < i && dated_log(files@[b as int]@, name@) && forall|k: int|
                    0 <= k < i && dated_log(#[trigger] views(files@)[k], name@) ==> ordered(
                        views(files@)[k],
                        files@[b as int]@,
                    ),
                None => forall|k: int|
                    0 <= k < i ==> !dated_log(#[trigger] views(files@)[k], name@),
            },
        decreases files.len() - i,
    {
        let file = files[i].as_str();
        assert(views(files@)[i as int] == file@);
        if ends_with(file, name) && !same(file, name) {
            proof {
                ordered_total(file@, file@);
            }
            match best {
                Some(b) => {
                    let later = comes_first(files[b].as_str(), file);
                    proof {
                        let x = files@[b as int]@;
                        ordered_total(x, file@);
                        assert forall|k: int|
                            0 <= k < i + 1 && dated_log(
                                #[trigger] views(files@)[k],
                                name@,
                            ) implies ordered(
                            views(files@)[k],
                            if later {
                                file@
                            } else {
                                x
                            },
                        ) by {
                            if k < i && later {
                                ordered_transitive(views(files@)[k], x, file@);
                            }
                        }
                    }
                    if later {
                        best = Some(i);
                    }
                },
                None => {
                    best = Some(i);
                },
            }
        }
        i += 1;
    }
    best
}

/// A dated log of an instance ends with the name of its log and has the date
/// in front; no log is a dated one of itself.
pub proof fn a_dated_log_has_the_date_in_front(date: Seq<char>, name: Seq<char>)
    ensures
        date.len() > 0 ==> dated_log(date + name, name),
        !dated_log(name, name),
{
    let file = date + name;
    assert(name =~= file.subrange(file.len() - name.len(), file.len() as int));
    if date.len() > 0 {
        assert(file.len() > name.len());
    }
}

} // verus!
