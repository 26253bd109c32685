//! What the operator can ask for.

use vstd::prelude::*;

verus! {

/// A choice of the operator: an entity to launch, or the end.
#[derive(Clone, Copy, Debug, PartialEq, Eq, Structural)]
pub enum PromptSelection {
    Ship,
    Passenger,
    Inspector,
    Navy,
    Exit,
}

/// The choice that a key of the menu stands for: `1` a ship, `2` a passenger,
/// `3` the end, and nothing for any other key.
pub open spec fn selection_of(key: char) -> Option<PromptSelection> {
    if key == '1' {
        Some(PromptSelection::Ship)
    } else if key == '2' {
        Some(PromptSelection::Passenger)
    } else if key == '3' {
        Some(PromptSelection::Exit)
    } else {
        None
    }
}

/// Reads a key of the menu.
pub fn selection_for(key: char) -> (selection: Option<PromptSelection>)
    ensures
        selection == selection_of(key),
{
    if key == '1' {
        Some(PromptSelection::Ship)
    } else if key == '2' {
        Some(PromptSelection::Passenger)
    } else if key == '3' {
        Some(PromptSelection::Exit)
    } else {
        None
    }
}

/// As many copies of `selection` as `count` says; none for a negative count.
pub open spec fn repeated(selection: PromptSelection, count: i32) -> Seq<PromptSelection> {
    Seq::new(
        if count > 0 {
            count as nat
        } else {
            0
        },
        |i: int| selection,
    )
}

/// Adds `count` copies of `selection`.
fn push_repeated(selections: &mut Vec<PromptSelection>, selection: PromptSelection, count: i32)
    ensures
        final(selections)@ == old(selections)@ + repeated(selection, count),
{
    let mut i: i32 = 0;
    assert(selections@ =~= old(selections)@ + repeated(selection, 0));
    while i < count
        invariant
            0 <= i,
            i <= count || i == 0,
            selections@ == old(selections)@ + repeated(selection, i),
        decreases count - i,
    {
        selections.push(selection);
        i += 1;
        assert(selections@ =~= old(selections)@ + repeated(selection, i));
    }
    assert(repeated(selection, i) =~= repeated(selection, count));
}

/// The entities to launch at the start, from the counts given on the command
/// line: the ships, then the passengers, then the travellers, who are
/// passengers too.
pub fn options_as_vector(ships: i32, passengers: i32, travellers: i32) -> (selections: Vec<
    PromptSelection,
>)
    ensures
        selections@ == repeated(PromptSelection::Ship, ships) + repeated(
            PromptSelection::Passenger,
            passengers,
        ) + repeated(PromptSelection::Passenger, travellers),
{
    let mut selections: Vec<PromptSelection> = Vec::new();
    push_repeated(&mut selections, PromptSelection::Ship, ships);
    push_repeated(&mut selections, PromptSelection::Passenger, passengers);
    push_repeated(&mut selections, PromptSelection::Passenger, travellers);
    assert(selections@ =~= repeated(PromptSelection::Ship, ships) + repeated(
        PromptSelection::Passenger,
        passengers,
    ) + repeated(PromptSelection::Passenger, travellers));
    selections
}

} // verus!
