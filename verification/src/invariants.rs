//! What holds of the generator all through a parse, and so of every
//! compiled program.
//!
//! No name and no string constant stands twice in its table; every class
//! stands under a name of its own; and a class named `M` has a function
//! `m`. The built-in classes establish this, every piece of source text
//! keeps it, and so a compiled program can always be started.

use vstd::prelude::*;
use crate::builtins::{
    arithmetic_funcs, builtin_class, builtin_func, builtin_funcs, builtin_position, builtins, input_funcs,
    output_funcs, string_funcs, variable_funcs,
};
use crate::bytecode::{ClassView, FilePosition, OpCode};
use crate::generator::{
    GeneratorView, TABLE_LIMIT, empty_generator, index_of, interned, loop_amount, main_class_name,
    main_func_name,
};
use crate::lexer::{find, integer_of, is_digit, is_lower, is_upper, is_valid_name, name_at, skip, string_at};
use crate::parser::{
    Loops, body, class_body, classes_from, files_from, function, lemma_class_advances,
    lemma_function_advances, lemma_name_bounds, lemma_piece_advances, lemma_skip_bounds, piece,
    program_of,
};
use crate::reader::position_at;
use crate::semantics::{first_named, start};

verus! {

/// No entry stands twice in the table.
pub open spec fn distinct(table: Seq<Seq<u8>>) -> bool {
    forall|i: int, j: int| 0 <= i < j < table.len() ==> table[i] != table[j]
}

/// Every class named `M` has a function named `m`.
pub open spec fn main_has_func(g: GeneratorView) -> bool {
    forall|i: int|
        0 <= i < g.class_names.len() && g.global_names[(#[trigger] g.class_names[i]) as int]
            == main_class_name() ==> {
            let m = index_of(g.member_names, main_func_name(), 0);
            m < g.member_names.len() && g.classes[i].funcs.contains_key(m as u16)
        }
}

/// What holds of the generator all through a parse.
pub open spec fn sound(g: GeneratorView) -> bool {
    &&& g.wf()
    &&& distinct(g.global_names)
    &&& distinct(g.member_names)
    &&& distinct(g.local_names)
    &&& distinct(g.strings)
    &&& forall|i: int| 0 <= i < g.class_names.len() ==> (#[trigger] g.class_names[i]) < g.global_names.len()
    &&& forall|i: int, j: int| 0 <= i < j < g.class_names.len() ==> g.class_names[i] != g.class_names[j]
    &&& main_has_func(g)
}

/// What two generators share when one has emitted instructions or noted
/// places that the other has not: the tables and the classes.
pub open spec fn same_tables(g: GeneratorView, h: GeneratorView) -> bool {
    &&& h.class_names == g.class_names
    &&& h.classes == g.classes
    &&& h.member_names == g.member_names
    &&& h.global_names == g.global_names
    &&& h.local_names == g.local_names
    &&& h.strings == g.strings
    &&& h.numbers == g.numbers
}

/// Where the search for a name ends.
pub proof fn lemma_index_of(table: Seq<Seq<u8>>, name: Seq<u8>, from: nat)
    requires
        from <= table.len(),
    ensures
        from <= index_of(table, name, from) <= table.len(),
        index_of(table, name, from) < table.len() ==> table[index_of(table, name, from) as int] == name,
        forall|j: int| from <= j < index_of(table, name, from) ==> table[j] != name,
    decreases table.len() - from,
{
    if from < table.len() && table[from as int] != name {
        lemma_index_of(table, name, from + 1);
    }
}

/// The search for a name ends at the first place that holds it.
pub proof fn lemma_index_is(table: Seq<Seq<u8>>, name: Seq<u8>, from: nat, place: nat)
    requires
        from <= place <= table.len(),
        place < table.len() ==> table[place as int] == name,
        forall|j: int| from <= j < place ==> table[j] != name,
    ensures
        index_of(table, name, from) == place,
    decreases table.len() - from,
{
    if from < place {
        lemma_index_is(table, name, from + 1, place);
    }
}

/// A new last entry moves no name that the table holds.
pub proof fn lemma_index_of_push(table: Seq<Seq<u8>>, name: Seq<u8>, added: Seq<u8>)
    ensures
        index_of(table, name, 0) < table.len() ==> index_of(table.push(added), name, 0) == index_of(
            table,
            name,
            0,
        ),
        index_of(table, name, 0) >= table.len() && added == name ==> index_of(table.push(added), name, 0)
            == table.len(),
        index_of(table, name, 0) >= table.len() && added != name ==> index_of(table.push(added), name, 0)
            == table.len() + 1,
{
    lemma_index_of(table, name, 0);
    let place = index_of(table, name, 0);
    let longer = table.push(added);
    if place < table.len() {
        lemma_index_is(longer, name, 0, place);
    } else if added == name {
        lemma_index_is(longer, name, 0, table.len());
    } else {
        lemma_index_is(longer, name, 0, table.len() + 1);
    }
}

/// What interning does to a table: the name gets the place it has, or the
/// next one; every other name keeps its place; and no name stands twice.
pub proof fn lemma_interned(table: Seq<Seq<u8>>, name: Seq<u8>)
    requires
        distinct(table),
        table.len() <= TABLE_LIMIT,
    ensures
        interned(table, name) matches Some((grown, id)) ==> {
            &&& distinct(grown)
            &&& grown.len() <= TABLE_LIMIT
            &&& (grown == table || grown == table.push(name))
            &&& id < grown.len()
            &&& grown[id as int] == name
            &&& id == index_of(grown, name, 0)
        },
        interned(table, name) is None ==> table.len() == TABLE_LIMIT,
{
    lemma_index_of(table, name, 0);
    lemma_index_of_push(table, name, name);
}

/// Emitting instructions and noting places keeps the generator sound.
pub proof fn lemma_same_tables(g: GeneratorView, h: GeneratorView)
    requires
        sound(g),
        same_tables(g, h),
    ensures
        sound(h),
{
}

/// A member name more keeps the generator sound.
proof fn lemma_member_interned(g: GeneratorView, name: Seq<u8>)
    requires
        sound(g),
        interned(g.member_names, name) is Some,
    ensures
        sound(GeneratorView { member_names: interned(g.member_names, name)->Some_0.0, ..g }),
{
    lemma_interned(g.member_names, name);
    lemma_index_of_push(g.member_names, main_func_name(), name);
    lemma_index_of(g.member_names, main_func_name(), 0);
    let grown = GeneratorView { member_names: interned(g.member_names, name)->Some_0.0, ..g };
    assert forall|i: int|
        0 <= i < grown.class_names.len() && grown.global_names[(#[trigger] grown.class_names[i]) as int]
            == main_class_name() implies ({
        let m = index_of(grown.member_names, main_func_name(), 0);
        m < grown.member_names.len() && grown.classes[i].funcs.contains_key(m as u16)
    }) by {
        assert(g.class_names[i] == grown.class_names[i]);
    }
}

/// A global name more keeps the generator sound.
proof fn lemma_global_interned(g: GeneratorView, name: Seq<u8>)
    requires
        sound(g),
        interned(g.global_names, name) is Some,
    ensures
        sound(GeneratorView { global_names: interned(g.global_names, name)->Some_0.0, ..g }),
{
    lemma_interned(g.global_names, name);
    let grown = GeneratorView { global_names: interned(g.global_names, name)->Some_0.0, ..g };
    assert forall|i: int|
        0 <= i < grown.class_names.len() && grown.global_names[(#[trigger] grown.class_names[i]) as int]
            == main_class_name() implies ({
        let m = index_of(grown.member_names, main_func_name(), 0);
        m < grown.member_names.len() && grown.classes[i].funcs.contains_key(m as u16)
    }) by {
        assert(g.class_names[i] == grown.class_names[i]);
        assert(g.class_names[i] < g.global_names.len());
    }
}

/// The pushes of names and constants keep the generator sound.
pub proof fn lemma_pushes(g: GeneratorView, name: Seq<u8>, pos: FilePosition)
    requires
        sound(g),
    ensures
        g.push_global(name, pos) matches Ok(h) ==> sound(h),
        g.push_member(name, pos) matches Ok(h) ==> sound(h),
        g.push_local(name, pos) matches Ok(h) ==> sound(h),
        g.push_name(name, pos) matches Ok(h) ==> sound(h),
        g.push_string(name, pos) matches Ok(h) ==> sound(h),
        g.push_number(name, pos) matches Ok(h) ==> sound(h),
{
    if let Ok(h) = g.push_global(name, pos) {
        lemma_global_interned(g, name);
        let grown = GeneratorView { global_names: interned(g.global_names, name)->Some_0.0, ..g };
        lemma_same_tables(grown, h);
    }
    if let Ok(h) = g.push_member(name, pos) {
        lemma_member_interned(g, name);
        let grown = GeneratorView { member_names: interned(g.member_names, name)->Some_0.0, ..g };
        lemma_same_tables(grown, h);
    }
    if let Ok(h) = g.push_local(name, pos) {
        lemma_interned(g.local_names, name);
        let grown = GeneratorView { local_names: interned(g.local_names, name)->Some_0.0, ..g };
        assert(sound(grown));
        lemma_same_tables(grown, h);
    }
    if let Ok(h) = g.push_string(name, pos) {
        lemma_interned(g.strings, name);
        let grown = GeneratorView { strings: interned(g.strings, name)->Some_0.0, ..g };
        assert(sound(grown));
        lemma_same_tables(grown, h);
    }
    if let Ok(h) = g.push_number(name, pos) {
        let grown = GeneratorView { numbers: g.numbers.push(name), ..g };
        assert(sound(grown));
        lemma_same_tables(grown, h);
    }
}

/// A function more keeps the generator sound, whether the class takes it
/// or not.
pub proof fn lemma_with_func(g: GeneratorView, class: ClassView, name: Seq<u8>)
    requires
        sound(g),
    ensures
        sound(g.with_func(class, name).0),
{
    if interned(g.member_names, name) is Some {
        lemma_member_interned(g, name);
    }
}

/// A class more keeps the generator sound, whether the class joins the
/// others or not.
pub proof fn lemma_with_class(g: GeneratorView, class: ClassView, name: Seq<u8>)
    requires
        sound(g),
    ensures
        sound(g.with_class(class, name)),
{
    match interned(g.global_names, name) {
        None => {},
        Some((table, id)) => {
            lemma_interned(g.global_names, name);
            lemma_global_interned(g, name);
            let named = GeneratorView { global_names: table, ..g };
            let h = g.with_class(class, name);
            if g.class_error(class, name) is None {
                assert(h.class_names == g.class_names.push(id));
                assert(h.classes == g.classes.push(class));
                assert forall|i: int| 0 <= i < h.class_names.len() implies (#[trigger] h.class_names[i])
                    < h.global_names.len() by {
                    if i < g.class_names.len() {
                        assert(g.class_names[i] < g.global_names.len());
                    }
                }
                assert forall|i: int, j: int| 0 <= i < j < h.class_names.len() implies h.class_names[i]
                    != h.class_names[j] by {
                    if j == g.class_names.len() {
                        assert(g.class_names.contains(g.class_names[i]));
                    }
                }
                assert forall|i: int|
                    0 <= i < h.class_names.len() && h.global_names[(#[trigger] h.class_names[i]) as int]
                        == main_class_name() implies ({
                    let m = index_of(h.member_names, main_func_name(), 0);
                    m < h.member_names.len() && h.classes[i].funcs.contains_key(m as u16)
                }) by {
                    if i < g.class_names.len() {
                        assert(named.class_names[i] == h.class_names[i]);
                    }
                }
            }
        },
    }
}

/// Every piece of a function body keeps the generator sound.
pub proof fn lemma_piece_sound(src: Seq<u8>, start: nat, g: GeneratorView, loops: Loops)
    requires
        sound(g),
    ensures
        piece(src, start, g, loops) matches Ok((_, h, _)) ==> sound(h),
{
    let pos = position_at(src, start);
    let c = src[start as int];
    match piece(src, start, g, loops) {
        Err(_) => {},
        Ok((_, h, _)) => {
            lemma_pushes(g, seq![c], pos);
            if c == '/' as u8 {
                let name = name_at(src, start + 1)->Some_0.0;
                lemma_pushes(g, name, pos);
                lemma_same_tables(g.push_name(name, pos)->Ok_0, h);
            } else if c == '\\' as u8 {
                lemma_pushes(g, loops.last().0, pos);
                lemma_same_tables(g.push_name(loops.last().0, pos)->Ok_0, h);
            } else if c == '(' as u8 {
                let close = find(src, start + 1, ')' as u8);
                let content = src.subrange(start + 1 as int, close as int);
                lemma_pushes(g, content, pos);
                if !is_valid_name(content) {
                    lemma_same_tables(g, h);
                }
            } else if c == '"' as u8 {
                let bytes = string_at(src, start + 1, Seq::empty())->Some_0.0;
                lemma_pushes(g, bytes, pos);
            } else if c == '<' as u8 {
                let close = find(src, start + 1, '>' as u8);
                lemma_pushes(g, src.subrange(start + 1 as int, close as int), pos);
            } else if is_lower(c) || is_upper(c) {
            } else {
                lemma_same_tables(g, h);
            }
        },
    }
}

/// Every function body keeps the generator sound.
pub proof fn lemma_body_sound(src: Seq<u8>, at: nat, g: GeneratorView, loops: Loops)
    requires
        sound(g),
        at <= src.len(),
    ensures
        body(src, at, g, loops) matches Ok((_, h)) ==> sound(h),
    decreases src.len() - at,
{
    lemma_skip_bounds(src, at, false);
    let start = skip(src, at, false);
    if start < src.len() {
        if src[start as int] == ']' as u8 {
            if loops.len() == 0 {
                lemma_same_tables(g, g.emit(OpCode::Return, position_at(src, start)));
            }
        } else {
            lemma_piece_advances(src, start, g, loops);
            lemma_piece_sound(src, start, g, loops);
            match piece(src, start, g, loops) {
                Err(_) => {},
                Ok((next, generator, open)) => {
                    lemma_body_sound(src, next, generator, open);
                },
            }
        }
    }
}

/// Every function keeps the generator sound.
pub proof fn lemma_function_sound(src: Seq<u8>, at: nat, g: GeneratorView, class: ClassView)
    requires
        sound(g),
        at <= src.len(),
    ensures
        function(src, at, g, class) matches Ok((_, h, _)) ==> sound(h),
{
    lemma_name_bounds(src, at);
    match name_at(src, at) {
        None => {},
        Some((name, next)) => {
            lemma_with_func(g, class, name);
            match g.add_func(class, name) {
                Err(_) => {},
                Ok((named, _)) => {
                    lemma_body_sound(src, next, named, Seq::empty());
                },
            }
        },
    }
}

/// Every class keeps the generator sound.
pub proof fn lemma_class_body_sound(src: Seq<u8>, at: nat, g: GeneratorView, class: ClassView, name: Seq<u8>)
    requires
        sound(g),
        at <= src.len(),
    ensures
        class_body(src, at, g, class, name) matches Ok((_, h)) ==> sound(h),
    decreases src.len() - at,
{
    lemma_skip_bounds(src, at, false);
    let start = skip(src, at, false);
    if start < src.len() {
        if src[start as int] == '[' as u8 {
            lemma_function_advances(src, start + 1, g, class);
            lemma_function_sound(src, start + 1, g, class);
            match function(src, start + 1, g, class) {
                Err(_) => {},
                Ok((next, generator, changed)) => {
                    lemma_class_body_sound(src, next, generator, changed, name);
                },
            }
        } else if src[start as int] == '}' as u8 {
            lemma_with_class(g, class, name);
        }
    }
}

/// Every source file keeps the generator sound.
pub proof fn lemma_classes_sound(src: Seq<u8>, at: nat, g: GeneratorView)
    requires
        sound(g),
        at <= src.len(),
    ensures
        classes_from(src, at, g) matches Ok(h) ==> sound(h),
    decreases src.len() - at,
{
    lemma_skip_bounds(src, at, false);
    let start = skip(src, at, false);
    if start < src.len() && src[start as int] == '{' as u8 {
        lemma_class_advances(src, start + 1, g);
        lemma_name_bounds(src, start + 1);
        match name_at(src, start + 1) {
            None => {},
            Some((name, next)) => {
                let empty = ClassView { funcs: Map::empty(), constructor: None };
                lemma_class_body_sound(src, next, g, empty, name);
                match class_body(src, next, g, empty, name) {
                    Err(_) => {},
                    Ok((end, generator)) => {
                        lemma_classes_sound(src, end, generator);
                    },
                }
            },
        }
    }
}

/// All source files together keep the generator sound.
pub proof fn lemma_files_sound(files: Seq<(Seq<char>, Seq<u8>)>, from: nat, g: GeneratorView)
    requires
        sound(g),
    ensures
        files_from(files, from, g) matches Ok(h) ==> sound(h),
    decreases files.len() - from,
{
    if from < files.len() {
        let named = g.file(files[from as int].0);
        lemma_same_tables(g, named);
        lemma_classes_sound(files[from as int].1, 0, named);
        match classes_from(files[from as int].1, 0, named) {
            Err(_) => {},
            Ok(generator) => {
                lemma_files_sound(files, from + 1, generator);
            },
        }
    }
}

/// The functions of a built-in class keep the generator sound.
proof fn lemma_builtin_funcs_sound(
    g: GeneratorView,
    class: ClassView,
    funcs: Seq<(Seq<u8>, OpCode)>,
    count: nat,
)
    requires
        sound(g),
    ensures
        sound(builtin_funcs(g, class, funcs, count).0),
    decreases count,
{
    if count > 0 {
        lemma_builtin_funcs_sound(g, class, funcs, (count - 1) as nat);
        let (before, growing) = builtin_funcs(g, class, funcs, (count - 1) as nat);
        lemma_with_func(before, growing, funcs[count - 1].0);
        lemma_same_tables(
            before.with_func(growing, funcs[count - 1].0).0,
            builtin_func(before, growing, funcs[count - 1].0, funcs[count - 1].1).0,
        );
    }
}

/// A built-in class keeps the generator sound.
proof fn lemma_builtin_class_sound(g: GeneratorView, name: u8, funcs: Seq<(Seq<u8>, OpCode)>)
    requires
        sound(g),
    ensures
        sound(builtin_class(g, name, funcs)),
{
    let empty = ClassView { funcs: Map::empty(), constructor: None };
    lemma_builtin_funcs_sound(g, empty, funcs, funcs.len());
    let (compiled, class) = builtin_funcs(g, empty, funcs, funcs.len());
    lemma_with_class(compiled, class, seq![name]);
}

/// The built-in classes leave a sound generator.
pub proof fn lemma_builtins_sound()
    ensures
        sound(builtins()),
{
    let start = empty_generator().file("<builtin>"@);
    assert(sound(start));
    let a = builtin_class(start, 'A' as u8, arithmetic_funcs());
    lemma_builtin_class_sound(start, 'A' as u8, arithmetic_funcs());
    let i = builtin_class(a, 'I' as u8, input_funcs());
    lemma_builtin_class_sound(a, 'I' as u8, input_funcs());
    let o = builtin_class(i, 'O' as u8, output_funcs());
    lemma_builtin_class_sound(i, 'O' as u8, output_funcs());
    let s = builtin_class(o, 'S' as u8, string_funcs());
    lemma_builtin_class_sound(o, 'S' as u8, string_funcs());
    lemma_builtin_class_sound(s, 'V' as u8, variable_funcs());
}

/// The first class of a name is found where one of that name stands.
pub proof fn lemma_first_named(names: Seq<u16>, name: u16, from: nat)
    requires
        from <= names.len(),
    ensures
        from <= first_named(names, name, from) <= names.len(),
        first_named(names, name, from) < names.len() ==> names[first_named(names, name, from) as int]
            == name,
        (exists|i: int| from <= i < names.len() && names[i] == name) ==> first_named(names, name, from)
            < names.len(),
    decreases names.len() - from,
{
    if from < names.len() && names[from as int] != name {
        lemma_first_named(names, name, from + 1);
    }
}

/// A compiled program can be started: it has its main class, and that has
/// its main function. Its string constants are all different, and none of
/// its tables holds more than two bytes can tell apart.
pub proof fn law_compiled_program_starts(files: Seq<(Seq<char>, Seq<u8>)>)
    requires
        program_of(files) is Ok,
    ensures
        start(program_of(files)->Ok_0) is Ok,
        distinct(program_of(files)->Ok_0.strings),
        program_of(files)->Ok_0.strings.len() <= TABLE_LIMIT,
        program_of(files)->Ok_0.numbers.len() <= TABLE_LIMIT,
        program_of(files)->Ok_0.class_names.len() == program_of(files)->Ok_0.classes.len(),
{
    lemma_builtins_sound();
    lemma_files_sound(files, 0, builtins());
    let g = files_from(files, 0, builtins())->Ok_0;
    let p = program_of(files)->Ok_0;
    lemma_index_of(g.global_names, main_class_name(), 0);
    lemma_index_of(g.member_names, main_func_name(), 0);
    lemma_first_named(p.class_names, p.main_class, 0);
    let main = first_named(p.class_names, p.main_class, 0);
    assert(p.class_names.contains(p.main_class));
    assert(main < p.class_names.len());
    assert(g.class_names[main as int] == p.main_class);
}

/// The offsets of a table rise, and none lies behind `end`.
pub open spec fn offsets_rise<T>(table: Seq<(usize, T)>, end: nat) -> bool {
    &&& forall|i: int, j: int| 0 <= i <= j < table.len() ==> table[i].0 <= table[j].0
    &&& forall|i: int| 0 <= i < table.len() ==> (#[trigger] table[i]).0 <= end
}

/// The files and the places that the generator has noted stand in the
/// order of their offsets, as long as the offsets fit the machine's words.
pub open spec fn noted(g: GeneratorView) -> bool {
    g.instructions.len() <= usize::MAX ==> offsets_rise(g.files, g.instructions.len()) && offsets_rise(
        g.positions,
        g.instructions.len(),
    )
}

/// What two generators share when one has more names, constants or classes
/// than the other: the instructions and what is noted of them.
pub open spec fn same_code(g: GeneratorView, h: GeneratorView) -> bool {
    &&& h.instructions.len() == g.instructions.len()
    &&& h.files == g.files
    &&& h.positions == g.positions
}

proof fn lemma_noted_same(g: GeneratorView, h: GeneratorView)
    requires
        noted(g),
        same_code(g, h),
    ensures
        noted(h),
{
}

proof fn lemma_noted_byte(g: GeneratorView, byte: u8)
    requires
        noted(g),
    ensures
        noted(g.byte(byte)),
        noted(g.short(byte as u16)),
{
}

proof fn lemma_noted_short(g: GeneratorView, value: u16)
    requires
        noted(g),
    ensures
        noted(g.short(value)),
{
    lemma_noted_byte(g, (value / 256) as u8);
    lemma_noted_byte(g.byte((value / 256) as u8), (value % 256) as u8);
}

proof fn lemma_noted_emit(g: GeneratorView, op: OpCode, pos: FilePosition)
    requires
        noted(g),
    ensures
        noted(g.emit(op, pos)),
{
    let placed = g.positioned(pos);
    if g.instructions.len() <= usize::MAX {
        assert(offsets_rise(placed.positions, g.instructions.len()));
    }
    assert(noted(placed));
    lemma_noted_byte(placed, op.spec_code());
}

proof fn lemma_noted_pushes(g: GeneratorView, name: Seq<u8>, pos: FilePosition)
    requires
        noted(g),
    ensures
        g.push_global(name, pos) matches Ok(h) ==> noted(h),
        g.push_member(name, pos) matches Ok(h) ==> noted(h),
        g.push_local(name, pos) matches Ok(h) ==> noted(h),
        g.push_name(name, pos) matches Ok(h) ==> noted(h),
        g.push_string(name, pos) matches Ok(h) ==> noted(h),
        g.push_number(name, pos) matches Ok(h) ==> noted(h),
{
    if let Some((table, id)) = interned(g.global_names, name) {
        let grown = GeneratorView { global_names: table, ..g };
        lemma_noted_same(g, grown);
        lemma_noted_emit(grown, OpCode::PushGlobal, pos);
        lemma_noted_short(grown.emit(OpCode::PushGlobal, pos), id);
    }
    if let Some((table, id)) = interned(g.member_names, name) {
        let grown = GeneratorView { member_names: table, ..g };
        lemma_noted_same(g, grown);
        lemma_noted_emit(grown, OpCode::PushMember, pos);
        lemma_noted_short(grown.emit(OpCode::PushMember, pos), id);
    }
    if let Some((table, id)) = interned(g.local_names, name) {
        let grown = GeneratorView { local_names: table, ..g };
        lemma_noted_same(g, grown);
        lemma_noted_emit(grown, OpCode::PushLocal, pos);
        lemma_noted_short(grown.emit(OpCode::PushLocal, pos), id);
    }
    if let Some((table, id)) = interned(g.strings, name) {
        let grown = GeneratorView { strings: table, ..g };
        lemma_noted_same(g, grown);
        lemma_noted_emit(grown, OpCode::PushString, pos);
        lemma_noted_short(grown.emit(OpCode::PushString, pos), id);
    }
    let grown = GeneratorView { numbers: g.numbers.push(name), ..g };
    lemma_noted_same(g, grown);
    lemma_noted_emit(grown, OpCode::PushNumber, pos);
    lemma_noted_short(grown.emit(OpCode::PushNumber, pos), g.numbers.len() as u16);
}

proof fn lemma_noted_loop(g: GeneratorView, loop_start: usize, pos: FilePosition)
    requires
        noted(g),
    ensures
        noted(g.emit(OpCode::Load, pos).jump_if_not(pos)),
        g.emit(OpCode::Load, pos).jump_if(loop_start, pos) matches Ok(h) ==> noted(h),
{
    lemma_noted_emit(g, OpCode::Load, pos);
    let loaded = g.emit(OpCode::Load, pos);
    lemma_noted_emit(loaded, OpCode::JumpIfNot, pos);
    lemma_noted_byte(loaded.emit(OpCode::JumpIfNot, pos), 0);
    lemma_noted_byte(loaded.emit(OpCode::JumpIfNot, pos).byte(0), 0);
    if let Ok(h) = loaded.jump_if(loop_start, pos) {
        let amount = loop_amount(loop_start as int, loaded.instructions.len() as int);
        lemma_noted_emit(loaded, OpCode::JumpIf, pos);
        lemma_noted_short(loaded.emit(OpCode::JumpIf, pos), amount as u16);
        lemma_noted_same(loaded.emit(OpCode::JumpIf, pos).short(amount as u16), h);
    }
}

/// Every piece of a function body keeps the noted offsets in order.
proof fn lemma_piece_noted(src: Seq<u8>, start: nat, g: GeneratorView, loops: Loops)
    requires
        noted(g),
    ensures
        piece(src, start, g, loops) matches Ok((_, h, _)) ==> noted(h),
{
    let pos = position_at(src, start);
    let c = src[start as int];
    match piece(src, start, g, loops) {
        Err(_) => {},
        Ok((_, h, _)) => {
            lemma_noted_pushes(g, seq![c], pos);
            if c == '/' as u8 {
                let name = name_at(src, start + 1)->Some_0.0;
                lemma_noted_pushes(g, name, pos);
                lemma_noted_loop(g.push_name(name, pos)->Ok_0, 0, pos);
            } else if c == '\\' as u8 {
                lemma_noted_pushes(g, loops.last().0, pos);
                lemma_noted_loop(g.push_name(loops.last().0, pos)->Ok_0, loops.last().1, pos);
            } else if c == '(' as u8 {
                let close = find(src, start + 1, ')' as u8);
                let content = src.subrange(start + 1 as int, close as int);
                lemma_noted_pushes(g, content, pos);
                if !is_valid_name(content) {
                    lemma_noted_emit(g, OpCode::Duplicate, pos);
                    lemma_noted_byte(g.emit(OpCode::Duplicate, pos), integer_of(content)->Ok_0);
                }
            } else if c == '"' as u8 {
                let bytes = string_at(src, start + 1, Seq::empty())->Some_0.0;
                lemma_noted_pushes(g, bytes, pos);
            } else if c == '<' as u8 {
                let close = find(src, start + 1, '>' as u8);
                lemma_noted_pushes(g, src.subrange(start + 1 as int, close as int), pos);
            } else if is_lower(c) || is_upper(c) {
            } else if is_digit(c) {
                lemma_noted_emit(g, OpCode::Duplicate, pos);
                lemma_noted_byte(g.emit(OpCode::Duplicate, pos), (c - '0' as u8) as u8);
            } else if c == '$' as u8 {
                lemma_noted_emit(g, OpCode::PushSelf, pos);
                lemma_noted_emit(g.emit(OpCode::PushSelf, pos), OpCode::Store, pos);
            } else if c == '!' as u8 {
                let loaded = g.emit(OpCode::Load, pos);
                lemma_noted_emit(g, OpCode::Load, pos);
                lemma_noted_emit(loaded, OpCode::Instantiate, pos);
                lemma_noted_emit(loaded.emit(OpCode::Instantiate, pos), OpCode::StoreKeep, pos);
                lemma_noted_emit(
                    loaded.emit(OpCode::Instantiate, pos).emit(OpCode::StoreKeep, pos),
                    OpCode::Construct,
                    pos,
                );
            } else {
                lemma_noted_emit(g, OpCode::Pop, pos);
                lemma_noted_emit(g, OpCode::Return, pos);
                lemma_noted_emit(g, OpCode::Load, pos);
                lemma_noted_emit(g, OpCode::Store, pos);
                lemma_noted_emit(g, OpCode::Call, pos);
                lemma_noted_emit(g, OpCode::LoadFrom, pos);
            }
        },
    }
}

proof fn lemma_body_noted(src: Seq<u8>, at: nat, g: GeneratorView, loops: Loops)
    requires
        noted(g),
        at <= src.len(),
    ensures
        body(src, at, g, loops) matches Ok((_, h)) ==> noted(h),
    decreases src.len() - at,
{
    lemma_skip_bounds(src, at, false);
    let start = skip(src, at, false);
    if start < src.len() {
        if src[start as int] == ']' as u8 {
            lemma_noted_emit(g, OpCode::Return, position_at(src, start));
        } else {
            lemma_piece_advances(src, start, g, loops);
            lemma_piece_noted(src, start, g, loops);
            match piece(src, start, g, loops) {
                Err(_) => {},
                Ok((next, generator, open)) => {
                    lemma_body_noted(src, next, generator, open);
                },
            }
        }
    }
}

proof fn lemma_function_noted(src: Seq<u8>, at: nat, g: GeneratorView, class: ClassView)
    requires
        noted(g),
        at <= src.len(),
    ensures
        function(src, at, g, class) matches Ok((_, h, _)) ==> noted(h),
{
    lemma_name_bounds(src, at);
    match name_at(src, at) {
        None => {},
        Some((name, next)) => {
            lemma_noted_same(g, g.with_func(class, name).0);
            match g.add_func(class, name) {
                Err(_) => {},
                Ok((named, _)) => {
                    lemma_body_noted(src, next, named, Seq::empty());
                },
            }
        },
    }
}

proof fn lemma_class_body_noted(src: Seq<u8>, at: nat, g: GeneratorView, class: ClassView, name: Seq<u8>)
    requires
        noted(g),
        at <= src.len(),
    ensures
        class_body(src, at, g, class, name) matches Ok((_, h)) ==> noted(h),
    decreases src.len() - at,
{
    lemma_skip_bounds(src, at, false);
    let start = skip(src, at, false);
    if start < src.len() {
        if src[start as int] == '[' as u8 {
            lemma_function_advances(src, start + 1, g, class);
            lemma_function_noted(src, start + 1, g, class);
            match function(src, start + 1, g, class) {
                Err(_) => {},
                Ok((next, generator, changed)) => {
                    lemma_class_body_noted(src, next, generator, changed, name);
                },
            }
        } else if src[start as int] == '}' as u8 {
            lemma_noted_same(g, g.with_class(class, name));
        }
    }
}

proof fn lemma_classes_noted(src: Seq<u8>, at: nat, g: GeneratorView)
    requires
        noted(g),
        at <= src.len(),
    ensures
        classes_from(src, at, g) matches Ok(h) ==> noted(h),
    decreases src.len() - at,
{
    lemma_skip_bounds(src, at, false);
    let start = skip(src, at, false);
    if start < src.len() && src[start as int] == '{' as u8 {
        lemma_class_advances(src, start + 1, g);
        lemma_name_bounds(src, start + 1);
        match name_at(src, start + 1) {
            None => {},
            Some((name, next)) => {
                let empty = ClassView { funcs: Map::empty(), constructor: None };
                lemma_class_body_noted(src, next, g, empty, name);
                match class_body(src, next, g, empty, name) {
                    Err(_) => {},
                    Ok((end, generator)) => {
                        lemma_classes_noted(src, end, generator);
                    },
                }
            },
        }
    }
}

proof fn lemma_files_noted(files: Seq<(Seq<char>, Seq<u8>)>, from: nat, g: GeneratorView)
    requires
        noted(g),
        g.files.len() > 0,
        g.positions.len() > 0,
    ensures
        files_from(files, from, g) matches Ok(h) ==> noted(h) && h.files.len() > 0 && h.positions.len() > 0
            && h.files[0] == g.files[0] && h.positions[0] == g.positions[0],
    decreases files.len() - from,
{
    if from < files.len() {
        let named = g.file(files[from as int].0);
        if g.instructions.len() <= usize::MAX {
            assert(offsets_rise(named.files, g.instructions.len()));
        }
        lemma_classes_noted(files[from as int].1, 0, named);
        lemma_classes_keep(files[from as int].1, 0, named);
        match classes_from(files[from as int].1, 0, named) {
            Err(_) => {},
            Ok(generator) => {
                lemma_files_noted(files, from + 1, generator);
            },
        }
    }
}

/// What is noted stays noted: a parse only adds to the two tables.
pub open spec fn keeps(g: GeneratorView, h: GeneratorView) -> bool {
    &&& g.files.len() <= h.files.len()
    &&& g.positions.len() <= h.positions.len()
    &&& forall|i: int| 0 <= i < g.files.len() ==> h.files[i] == g.files[i]
    &&& forall|i: int| 0 <= i < g.positions.len() ==> h.positions[i] == g.positions[i]
}

proof fn lemma_piece_keeps(src: Seq<u8>, start: nat, g: GeneratorView, loops: Loops)
    ensures
        piece(src, start, g, loops) matches Ok((_, h, _)) ==> keeps(g, h),
{
}

proof fn lemma_body_keeps(src: Seq<u8>, at: nat, g: GeneratorView, loops: Loops)
    requires
        at <= src.len(),
    ensures
        body(src, at, g, loops) matches Ok((_, h)) ==> keeps(g, h),
    decreases src.len() - at,
{
    lemma_skip_bounds(src, at, false);
    let start = skip(src, at, false);
    if start < src.len() && src[start as int] != ']' as u8 {
        lemma_piece_advances(src, start, g, loops);
        lemma_piece_keeps(src, start, g, loops);
        match piece(src, start, g, loops) {
            Err(_) => {},
            Ok((next, generator, open)) => {
                lemma_body_keeps(src, next, generator, open);
            },
        }
    }
}

proof fn lemma_class_body_keeps(src: Seq<u8>, at: nat, g: GeneratorView, class: ClassView, name: Seq<u8>)
    requires
        at <= src.len(),
    ensures
        class_body(src, at, g, class, name) matches Ok((_, h)) ==> keeps(g, h),
    decreases src.len() - at,
{
    lemma_skip_bounds(src, at, false);
    let start = skip(src, at, false);
    if start < src.len() && src[start as int] == '[' as u8 {
        lemma_function_advances(src, start + 1, g, class);
        lemma_name_bounds(src, start + 1);
        match name_at(src, start + 1) {
            None => {},
            Some((func, next)) => match g.add_func(class, func) {
                Err(_) => {},
                Ok((named, _)) => {
                    lemma_body_keeps(src, next, named, Seq::empty());
                },
            },
        }
        match function(src, start + 1, g, class) {
            Err(_) => {},
            Ok((next, generator, changed)) => {
                lemma_class_body_keeps(src, next, generator, changed, name);
            },
        }
    }
}

proof fn lemma_classes_keep(src: Seq<u8>, at: nat, g: GeneratorView)
    requires
        at <= src.len(),
    ensures
        classes_from(src, at, g) matches Ok(h) ==> keeps(g, h),
    decreases src.len() - at,
{
    lemma_skip_bounds(src, at, false);
    let start = skip(src, at, false);
    if start < src.len() && src[start as int] == '{' as u8 {
        lemma_class_advances(src, start + 1, g);
        lemma_name_bounds(src, start + 1);
        match name_at(src, start + 1) {
            None => {},
            Some((name, next)) => {
                let empty = ClassView { funcs: Map::empty(), constructor: None };
                lemma_class_body_keeps(src, next, g, empty, name);
                match class_body(src, next, g, empty, name) {
                    Err(_) => {},
                    Ok((end, generator)) => {
                        lemma_classes_keep(src, end, generator);
                    },
                }
            },
        }
    }
}

proof fn lemma_builtin_funcs_noted(g: GeneratorView, class: ClassView, funcs: Seq<(Seq<u8>, OpCode)>, count: nat)
    requires
        noted(g),
        g.files.len() > 0,
    ensures
        noted(builtin_funcs(g, class, funcs, count).0),
        builtin_funcs(g, class, funcs, count).0.files == g.files,
        builtin_funcs(g, class, funcs, count).0.positions.len() >= g.positions.len(),
        count > 0 ==> builtin_funcs(g, class, funcs, count).0.positions.len() > 0,
        g.positions.len() > 0 ==> builtin_funcs(g, class, funcs, count).0.positions[0] == g.positions[0],
        g.positions.len() == 0 && count > 0 ==> builtin_funcs(g, class, funcs, count).0.positions[0] == (
            g.instructions.len() as usize,
            builtin_position(),
        ),
    decreases count,
{
    if count > 0 {
        lemma_builtin_funcs_noted(g, class, funcs, (count - 1) as nat);
        let (before, growing) = builtin_funcs(g, class, funcs, (count - 1) as nat);
        let named = before.with_func(growing, funcs[count - 1].0).0;
        lemma_noted_same(before, named);
        lemma_noted_emit(named, funcs[count - 1].1, builtin_position());
        lemma_noted_emit(
            named.emit(funcs[count - 1].1, builtin_position()),
            OpCode::Return,
            builtin_position(),
        );
    }
}

proof fn lemma_builtin_class_noted(g: GeneratorView, name: u8, funcs: Seq<(Seq<u8>, OpCode)>)
    requires
        noted(g),
        g.files.len() > 0,
    ensures
        noted(builtin_class(g, name, funcs)),
        builtin_class(g, name, funcs).files == g.files,
        builtin_class(g, name, funcs).positions.len() >= g.positions.len(),
        funcs.len() > 0 ==> builtin_class(g, name, funcs).positions.len() > 0,
        g.positions.len() > 0 ==> builtin_class(g, name, funcs).positions[0] == g.positions[0],
        g.positions.len() == 0 && funcs.len() > 0 ==> builtin_class(g, name, funcs).positions[0] == (
            g.instructions.len() as usize,
            builtin_position(),
        ),
{
    let empty = ClassView { funcs: Map::empty(), constructor: None };
    lemma_builtin_funcs_noted(g, empty, funcs, funcs.len());
    let (compiled, class) = builtin_funcs(g, empty, funcs, funcs.len());
    lemma_noted_same(compiled, compiled.with_class(class, seq![name]));
}

/// The tables of a compiled program by which an instruction is traced back
/// to the source are in order: the offsets of the files rise, and so do
/// those of the places. Both begin at offset 0, with the built-in classes.
pub proof fn law_compiled_tables_rise(files: Seq<(Seq<char>, Seq<u8>)>)
    requires
        program_of(files) is Ok,
        program_of(files)->Ok_0.instructions.len() <= usize::MAX,
    ensures
        ({
            let p = program_of(files)->Ok_0;
            &&& offsets_rise(p.files, p.instructions.len())
            &&& offsets_rise(p.positions, p.instructions.len())
            &&& p.files.len() > 0
            &&& p.positions.len() > 0
            &&& p.files[0] == (0usize, "<builtin>"@)
            &&& p.positions[0] == (0usize, builtin_position())
        }),
{
    let start = empty_generator().file("<builtin>"@);
    assert(noted(start));
    assert(start.files[0] == (0usize, "<builtin>"@));
    let a = builtin_class(start, 'A' as u8, arithmetic_funcs());
    lemma_builtin_class_noted(start, 'A' as u8, arithmetic_funcs());
    let i = builtin_class(a, 'I' as u8, input_funcs());
    lemma_builtin_class_noted(a, 'I' as u8, input_funcs());
    let o = builtin_class(i, 'O' as u8, output_funcs());
    lemma_builtin_class_noted(i, 'O' as u8, output_funcs());
    let s = builtin_class(o, 'S' as u8, string_funcs());
    lemma_builtin_class_noted(o, 'S' as u8, string_funcs());
    lemma_builtin_class_noted(s, 'V' as u8, variable_funcs());
    assert(arithmetic_funcs().len() > 0);
    lemma_files_noted(files, 0, builtins());
}

} // verus!
