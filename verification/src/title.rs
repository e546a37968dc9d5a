//! What the title area shows.
use vstd::prelude::*;

use crate::mode::{InputMode, Mode, MODES};
use crate::text::{digit_char, has_prefix, views};

verus! {

/// The labels of the tabs, one for each mode, from the left.
pub open spec fn tab_labels() -> Seq<Seq<char>> {
    seq![
        "F1 Main"@,
        "F2 Registers"@,
        "F3 Stack"@,
        "F4 Instructions"@,
        "F5 Output"@,
        "F6 Mapping"@,
        "F7 Hexdump"@,
    ]
}

/// What the colors of values mean, from the left.
pub open spec fn legend_labels() -> Seq<Seq<char>> {
    seq!["Heap"@, "Stack"@, "Code"@, "String"@, "Asm"@]
}

/// The parts of the heading of a program with a name and a version.
pub open spec fn heading_parts(name: Seq<char>, version: Seq<char>) -> Seq<Seq<char>> {
    seq!["|"@, name, "-"@, "v"@, version, "|"@]
}

/// The hint on what the keys do.
pub open spec fn hint(mode: InputMode) -> Seq<char> {
    match mode {
        InputMode::Normal => "Press q to exit, i to enter input"@,
        InputMode::Editing => "Press Esc to stop editing, Enter to send input"@,
    }
}

/// The labels of the tabs, one for each mode, from the left.
pub fn tabs() -> (r: Vec<String>)
    ensures
        views(r@) == tab_labels(),
        r@.len() == MODES,
{
    let r: Vec<String> = vec![
        "F1 Main".to_owned(),
        "F2 Registers".to_owned(),
        "F3 Stack".to_owned(),
        "F4 Instructions".to_owned(),
        "F5 Output".to_owned(),
        "F6 Mapping".to_owned(),
        "F7 Hexdump".to_owned(),
    ];
    assert(views(r@) =~= tab_labels());
    r
}

/// What the colors of values mean, from the left.
pub fn legend() -> (r: Vec<String>)
    ensures
        views(r@) == legend_labels(),
{
    let r: Vec<String> = vec![
        "Heap".to_owned(),
        "Stack".to_owned(),
        "Code".to_owned(),
        "String".to_owned(),
        "Asm".to_owned(),
    ];
    assert(views(r@) =~= legend_labels());
    r
}

/// The parts of the heading, from the left.
pub fn heading(name: &str, version: &str) -> (r: Vec<String>)
    ensures
        views(r@) == heading_parts(name@, version@),
{
    let r: Vec<String> = vec![
        "|".to_owned(),
        name.to_owned(),
        "-".to_owned(),
        "v".to_owned(),
        version.to_owned(),
        "|".to_owned(),
    ];
    assert(views(r@) =~= heading_parts(name@, version@));
    r
}

/// The hint on what the keys do.
pub fn status(mode: InputMode) -> (r: String)
    ensures
        r@ == hint(mode),
{
    match mode {
        InputMode::Normal => "Press q to exit, i to enter input".to_owned(),
        InputMode::Editing => "Press Esc to stop editing, Enter to send input".to_owned(),
    }
}

/// The label of a mode's tab begins with the function key that shows the mode.
pub proof fn law_labels_name_function_keys(mode: Mode)
    ensures
        has_prefix(
            tab_labels()[mode.position()],
            seq!['F', digit_char(mode.position() + 1), ' '],
        ),
{
    reveal_strlit("F1 Main");
    reveal_strlit("F2 Registers");
    reveal_strlit("F3 Stack");
    reveal_strlit("F4 Instructions");
    reveal_strlit("F5 Output");
    reveal_strlit("F6 Mapping");
    reveal_strlit("F7 Hexdump");
    let label = tab_labels()[mode.position()];
    assert(label.take(3) =~= seq!['F', digit_char(mode.position() + 1), ' ']);
}

/// The heading is the name and the version in full, as `|name-vversion|`.
pub proof fn law_heading(name: Seq<char>, version: Seq<char>)
    ensures
        heading_parts(name, version).len() == 6,
        heading_parts(name, version)[0] == seq!['|'],
        heading_parts(name, version)[1] == name,
        heading_parts(name, version)[2] == seq!['-'],
        heading_parts(name, version)[3] == seq!['v'],
        heading_parts(name, version)[4] == version,
        heading_parts(name, version)[5] == seq!['|'],
{
    reveal_strlit("|");
    reveal_strlit("-");
    reveal_strlit("v");
    assert("|"@ == seq!['|'] && "-"@ == seq!['-'] && "v"@ == seq!['v']);
}

} // verus!
