//! From an offset in the instructions back to the source.
//!
//! A program notes where the code of each source file and of each source
//! position begins. The entry for an instruction is the last one that begins
//! at or before it.

use vstd::prelude::*;
use crate::bytecode::{BytecodeProgram, FilePosition, OpcodeIndex};

verus! {

/// How many entries from the `from`th on begin at or before `index`, counted
/// up to the first that begins behind it.
pub open spec fn leading(offsets: Seq<OpcodeIndex>, index: OpcodeIndex, from: nat) -> nat
    decreases offsets.len() - from,
{
    if from < offsets.len() && offsets[from as int] <= index {
        1 + leading(offsets, index, from + 1)
    } else {
        0
    }
}

/// The entry for `index`: the last of the leading entries that begin at or
/// before it, or the first entry if even that begins behind it.
pub open spec fn entry_for(offsets: Seq<OpcodeIndex>, index: OpcodeIndex) -> nat {
    if leading(offsets, index, 0) == 0 {
        0
    } else {
        (leading(offsets, index, 0) - 1) as nat
    }
}

/// Whether the offsets rise, as those of a compiled program do.
pub open spec fn rising(offsets: Seq<OpcodeIndex>) -> bool {
    forall|i: int, j: int| 0 <= i <= j < offsets.len() ==> offsets[i] <= offsets[j]
}

/// The offsets at which the files of a program begin.
pub open spec fn file_offsets(program: &BytecodeProgram) -> Seq<OpcodeIndex> {
    Seq::new(program.files@.len(), |i: int| program.files@[i].0)
}

/// The offsets at which the source positions of a program begin.
pub open spec fn position_offsets(program: &BytecodeProgram) -> Seq<OpcodeIndex> {
    Seq::new(program.positions@.len(), |i: int| program.positions@[i].0)
}

/// Where an instruction comes from.
#[derive(Clone, Copy, PartialEq, Eq, Structural, Debug)]
pub struct StackTraceLine {
    /// The file, as an index into the program's files.
    pub file: usize,
    pub position: FilePosition,
}

/// The file and the place in it that the instruction at `index` comes from.
/// None for a program without files or without positions.
pub fn get_stacktrace_line(program: &BytecodeProgram, index: OpcodeIndex) -> (line: Option<StackTraceLine>)
    ensures
        line == (if program.files@.len() == 0 || program.positions@.len() == 0 {
            None
        } else {
            Some(
                StackTraceLine {
                    file: entry_for(file_offsets(program), index) as usize,
                    position: program.positions@[entry_for(position_offsets(program), index) as int].1,
                },
            )
        }),
        line matches Some(found) ==> found.file < program.files@.len(),
        // Where the table of files is in order, as that of a compiled
        // program is, the file is the last that begins at or before the
        // instruction.
        line matches Some(found) ==> (rising(file_offsets(program)) && program.files@[0].0 <= index ==> {
            &&& program.files@[found.file as int].0 <= index
            &&& forall|i: int| found.file < i < program.files@.len() ==> program.files@[i].0 > index
        }),
        // And so is the place, where the table of places is in order.
        line matches Some(found) ==> (rising(position_offsets(program)) && program.positions@[0].0 <= index
            ==> {
            let last = entry_for(position_offsets(program), index) as int;
            &&& 0 <= last < program.positions@.len()
            &&& found.position == program.positions@[last].1
            &&& program.positions@[last].0 <= index
            &&& forall|i: int| last < i < program.positions@.len() ==> program.positions@[i].0 > index
        }),
{
    if program.files.len() == 0 || program.positions.len() == 0 {
        return None;
    }
    let mut file: usize = 0;
    let mut i: usize = 0;
    while i < program.files.len() && program.files[i].0 <= index
        invariant
            i <= program.files.len(),
            file == (if i == 0 {
                0
            } else {
                i - 1
            }),
            leading(file_offsets(program), index, 0) == i + leading(file_offsets(program), index, i as nat),
        decreases program.files.len() - i,
    {
        file = i;
        i += 1;
    }
    let mut position: usize = 0;
    let mut j: usize = 0;
    while j < program.positions.len() && program.positions[j].0 <= index
        invariant
            j <= program.positions.len(),
            position == (if j == 0 {
                0
            } else {
                j - 1
            }),
            leading(position_offsets(program), index, 0) == j + leading(
                position_offsets(program),
                index,
                j as nat,
            ),
        decreases program.positions.len() - j,
    {
        position = j;
        j += 1;
    }
    proof {
        if rising(file_offsets(program)) && program.files@[0].0 <= index {
            lemma_entry_is_last(file_offsets(program), index);
            assert forall|i: int| file < i < program.files@.len() implies program.files@[i].0 > index by {
                assert(file_offsets(program)[i] == program.files@[i].0);
            }
            assert(file_offsets(program)[file as int] == program.files@[file as int].0);
        }
        if rising(position_offsets(program)) && program.positions@[0].0 <= index {
            lemma_entry_is_last(position_offsets(program), index);
            assert forall|i: int| position < i < program.positions@.len() implies program.positions@[i].0
                > index by {
                assert(position_offsets(program)[i] == program.positions@[i].0);
            }
            assert(position_offsets(program)[position as int] == program.positions@[position as int].0);
        }
    }
    Some(StackTraceLine { file, position: program.positions[position].1 })
}

/// Among rising offsets the entry for an instruction is the last that
/// begins at or before it.
pub proof fn lemma_entry_is_last(offsets: Seq<OpcodeIndex>, index: OpcodeIndex)
    requires
        rising(offsets),
        offsets.len() > 0,
        offsets[0] <= index,
    ensures
        entry_for(offsets, index) < offsets.len(),
        offsets[entry_for(offsets, index) as int] <= index,
        forall|i: int| entry_for(offsets, index) < i < offsets.len() ==> offsets[i] > index,
{
    lemma_leading(offsets, index, 0);
}

/// The leading entries end where the first entry begins behind `index`.
proof fn lemma_leading(offsets: Seq<OpcodeIndex>, index: OpcodeIndex, from: nat)
    requires
        rising(offsets),
        from <= offsets.len(),
    ensures
        from + leading(offsets, index, from) <= offsets.len(),
        forall|i: int| from <= i < from + leading(offsets, index, from) ==> offsets[i] <= index,
        forall|i: int| from + leading(offsets, index, from) <= i < offsets.len() ==> offsets[i] > index,
    decreases offsets.len() - from,
{
    if from < offsets.len() && offsets[from as int] <= index {
        lemma_leading(offsets, index, from + 1);
    }
}

} // verus!
