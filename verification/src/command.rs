//! The commands of the tracker and what each does to the grid.

use vstd::prelude::*;
use comfy_table::Table;
use crate::clock::{clock_now, datable};
use crate::model::{
    aligned, blanked, initial, renamed, stamps_of, with_value, ClassView, Data, Timestamp,
};
use crate::order::{gained_rows, lemma_aligned_same_moments, lemma_new_row_aligns};
use crate::table::{can_show, shows};

verus! {

/// One thing the user can ask for.
#[derive(Debug)]
pub enum Command {
    /// Store `input` in row `y` of class `x`.
    SetCell { x: usize, y: usize, input: u8 },
    /// Add an unset row at the present moment.
    New,
    /// Change nothing, only show the grid.
    Display,
    /// Give the classes called `from` the name `into`.
    Rename { from: String, into: String },
    /// Add a class called `name` with every row unset.
    NewClass { name: String },
}

/// Why a command was not carried out.
#[derive(Clone, Copy, Debug, PartialEq, Eq, Structural)]
pub enum Refusal {
    /// The grid has no row `y` in a class `x`.
    NoSuchCell,
    /// A new class takes its rows from the first class, and there is none.
    NoFirstClass,
}

/// The reason why `command` cannot be carried out on `classes`, if there is
/// one.
pub open spec fn refusal(classes: Seq<ClassView>, command: Command) -> Option<Refusal> {
    match command {
        Command::SetCell { x, y, input } => {
            if x < classes.len() && y < classes[x as int].entries.len() {
                None
            } else {
                Some(Refusal::NoSuchCell)
            }
        },
        Command::NewClass { name } => {
            if classes.len() > 0 {
                None
            } else {
                Some(Refusal::NoFirstClass)
            }
        },
        _ => None,
    }
}

/// `after` is what `command`, given at the moment `stamp`, makes of `before`.
/// A command that cannot be carried out leaves the grid as it is.
pub open spec fn carried_out(
    before: Seq<ClassView>,
    command: Command,
    stamp: Timestamp,
    after: Seq<ClassView>,
) -> bool {
    if refusal(before, command).is_some() {
        after == before
    } else {
        match command {
            Command::SetCell { x, y, input } => {
                after == with_value(before, x as int, y as int, input)
            },
            Command::New => gained_rows(before, stamp, after),
            Command::Display => after == before,
            Command::Rename { from, into } => after == before.map_values(
                |c: ClassView| renamed(c, from@, into@),
            ),
            Command::NewClass { name } => after == before.push(
                ClassView { name: name@, entries: blanked(before[0].entries) },
            ),
        }
    }
}

/// The grid a tracker starts with has its one class, and so is aligned.
pub proof fn lemma_initial_aligned(stamp: Timestamp)
    ensures
        aligned(initial(stamp)),
{
}

/// No command breaks the grid's alignment: if every class had the same
/// timestamps at the same rows before, every class, a new one included, has
/// them so afterwards.
pub proof fn lemma_commands_keep_aligned(
    before: Seq<ClassView>,
    command: Command,
    stamp: Timestamp,
    after: Seq<ClassView>,
)
    requires
        aligned(before),
        carried_out(before, command, stamp, after),
    ensures
        aligned(after),
{
    if refusal(before, command).is_some() {
    } else {
        match command {
            Command::SetCell { x, y, input } => {
                assert forall|i: int| 0 <= i < after.len() implies stamps_of(
                    #[trigger] after[i].entries,
                ) == stamps_of(after[0].entries) by {
                    assert(stamps_of(after[i].entries) =~= stamps_of(before[i].entries));
                    assert(stamps_of(after[0].entries) =~= stamps_of(before[0].entries));
                }
            },
            Command::New => {
                lemma_aligned_same_moments(before);
                lemma_new_row_aligns(before, stamp, after);
            },
            Command::Display => {},
            Command::Rename { from, into } => {
                assert forall|i: int| 0 <= i < after.len() implies stamps_of(
                    #[trigger] after[i].entries,
                ) == stamps_of(after[0].entries) by {
                    assert(after[i].entries == before[i].entries);
                    assert(after[0].entries == before[0].entries);
                }
            },
            Command::NewClass { name } => {
                assert(stamps_of(blanked(before[0].entries)) =~= stamps_of(before[0].entries));
                assert forall|i: int| 0 <= i < after.len() implies stamps_of(
                    #[trigger] after[i].entries,
                ) == stamps_of(after[0].entries) by {
                    if i < before.len() {
                        assert(after[i] == before[i]);
                    }
                    assert(after[0] == before[0]);
                }
            },
        }
    }
}

impl Data {
    /// Carries out `command` as given at the moment `timestamp`, or refuses it
    /// and leaves the grid as it is.
    pub fn apply(&mut self, command: &Command, timestamp: Timestamp) -> (outcome: Result<
        (),
        Refusal,
    >)
        ensures
            carried_out(old(self)@, *command, timestamp, final(self)@),
            match refusal(old(self)@, *command) {
                Some(reason) => outcome == Err::<(), Refusal>(reason),
                None => outcome.is_ok(),
            },
    {
        match command {
            Command::SetCell { x, y, input } => {
                if *x < self.classes.len() && *y < self.classes[*x].entries.len() {
                    self.set(*x, *y, *input);
                    Ok(())
                } else {
                    Err(Refusal::NoSuchCell)
                }
            },
            Command::New => {
                self.new_blank_row(timestamp);
                Ok(())
            },
            Command::Display => Ok(()),
            Command::Rename { from, into } => {
                self.rename(from, into);
                Ok(())
            },
            Command::NewClass { name } => {
                if self.classes.len() > 0 {
                    self.new_blank_class(name.clone());
                    Ok(())
                } else {
                    Err(Refusal::NoFirstClass)
                }
            },
        }
    }
}

/// Carries out `command` at the present moment and draws the grid that
/// results. A refused command leaves the grid as it is and draws nothing.
/// After a command that was carried out there is a table unless the grid
/// cannot be shown or, with `verbose`, some row has no date.
pub fn parse(data: &mut Data, command: &Command, verbose: bool) -> (outcome: Result<
    Option<Table>,
    Refusal,
>)
    ensures
        exists|stamp: Timestamp| carried_out(old(data)@, *command, stamp, final(data)@),
        match refusal(old(data)@, *command) {
            Some(reason) => outcome == Err::<Option<Table>, Refusal>(reason),
            None => outcome matches Ok(drawn) && {
                &&& drawn.is_some() == (can_show(final(data)@) && (verbose ==> datable(
                    final(data)@,
                )))
                &&& drawn matches Some(table) ==> shows(table, final(data)@, verbose)
            },
        },
{
    let stamp = clock_now();
    let applied = data.apply(command, stamp);
    assert(carried_out(old(data)@, *command, stamp, data@));
    match applied {
        Ok(()) => Ok(data.print(verbose)),
        Err(reason) => Err(reason),
    }
}

} // verus!
