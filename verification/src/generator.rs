//! The bytecode under construction.
//!
//! The parser emits instructions as it reads. A `BytecodeGenerator` holds
//! what has been emitted so far: the instruction bytes, the tables that give
//! each name and each constant its id, and the classes. What each of its
//! methods does is stated on `GeneratorView`, the same state as plain
//! mathematical values.

use vstd::prelude::*;
use byte_string::ByteString;
use crate::bytecode::{
    BytecodeProgram, ClassDefinition, ClassView, FilePosition, GlobalName, LocalName, MemberName,
    OpCode, OpcodeIndex, ProgramView, classes_of, files_of, high_byte, low_byte, texts_of,
};
use crate::bytes::{as_bytes, bytes_of, pool_of, same_bytes};
use crate::parser::ParseError;

verus! {

/// The most names a scope can hold, and the most constants of a kind.
pub const TABLE_LIMIT: usize = 65535;

/// The name of the class whose function `m` a program starts with.
pub open spec fn main_class_name() -> Seq<u8> {
    seq!['M' as u8]
}

/// The name of the function that a program starts with.
pub open spec fn main_func_name() -> Seq<u8> {
    seq!['m' as u8]
}

/// The name of the function that runs when an object is made.
pub open spec fn constructor_name() -> Seq<u8> {
    seq!['c' as u8, '_' as u8, '_' as u8]
}

/// The index of the first of `table[from..]` that is `name`, or the length
/// of the table.
pub open spec fn index_of(table: Seq<Seq<u8>>, name: Seq<u8>, from: nat) -> nat
    decreases table.len() - from,
{
    if from >= table.len() {
        table.len()
    } else if table[from as int] == name {
        from
    } else {
        index_of(table, name, from + 1)
    }
}

/// The id of `name` in a table and the table that holds it: the place where
/// the name stands already, or else the next free place, which the name
/// then takes. None if the name is new and the table full.
pub open spec fn interned(table: Seq<Seq<u8>>, name: Seq<u8>) -> Option<(Seq<Seq<u8>>, u16)> {
    let found = index_of(table, name, 0);
    if found < table.len() {
        Some((table, found as u16))
    } else if table.len() >= TABLE_LIMIT {
        None
    } else {
        Some((table.push(name), table.len() as u16))
    }
}

/// What a `BytecodeGenerator` holds.
pub struct GeneratorView {
    pub instructions: Seq<u8>,
    pub class_names: Seq<GlobalName>,
    pub classes: Seq<ClassView>,
    pub member_names: Seq<Seq<u8>>,
    pub global_names: Seq<Seq<u8>>,
    pub local_names: Seq<Seq<u8>>,
    pub strings: Seq<Seq<u8>>,
    pub numbers: Seq<Seq<u8>>,
    pub files: Seq<(OpcodeIndex, Seq<char>)>,
    pub positions: Seq<(OpcodeIndex, FilePosition)>,
}

impl GeneratorView {
    /// No table holds more than its ids can tell apart.
    pub open spec fn wf(self) -> bool {
        &&& self.member_names.len() <= TABLE_LIMIT
        &&& self.global_names.len() <= TABLE_LIMIT
        &&& self.local_names.len() <= TABLE_LIMIT
        &&& self.strings.len() <= TABLE_LIMIT
        &&& self.numbers.len() <= TABLE_LIMIT
        &&& self.class_names.len() == self.classes.len()
    }

    /// The offset of the next instruction.
    pub open spec fn here(self) -> OpcodeIndex {
        self.instructions.len() as usize
    }

    /// A source file begins here.
    pub open spec fn file(self, name: Seq<char>) -> GeneratorView {
        GeneratorView { files: self.files.push((self.here(), name)), ..self }
    }

    /// What is emitted next comes from `pos`. Noted only where the place
    /// differs from the one noted last.
    pub open spec fn positioned(self, pos: FilePosition) -> GeneratorView {
        if self.positions.len() > 0 && self.positions.last().1 == pos {
            self
        } else {
            GeneratorView { positions: self.positions.push((self.here(), pos)), ..self }
        }
    }

    /// One byte more of code.
    pub open spec fn byte(self, byte: u8) -> GeneratorView {
        GeneratorView { instructions: self.instructions.push(byte), ..self }
    }

    /// A two-byte operand, the high byte first.
    pub open spec fn short(self, value: u16) -> GeneratorView {
        self.byte((value / 256) as u8).byte((value % 256) as u8)
    }

    /// An instruction that comes from `pos`.
    pub open spec fn emit(self, op: OpCode, pos: FilePosition) -> GeneratorView {
        self.positioned(pos).byte(op.spec_code())
    }

    /// The push of a global name, which gets an id if it has none.
    pub open spec fn push_global(self, name: Seq<u8>, pos: FilePosition) -> Result<GeneratorView, ParseError> {
        match interned(self.global_names, name) {
            None => Err(ParseError::TooManyGlobals),
            Some((table, id)) => Ok(
                GeneratorView { global_names: table, ..self }.emit(OpCode::PushGlobal, pos).short(id),
            ),
        }
    }

    /// The push of a local name, which gets an id if it has none. Where the
    /// local names are full, the error is that of the global names.
    pub open spec fn push_local(self, name: Seq<u8>, pos: FilePosition) -> Result<GeneratorView, ParseError> {
        match interned(self.local_names, name) {
            None => Err(ParseError::TooManyGlobals),
            Some((table, id)) => Ok(
                GeneratorView { local_names: table, ..self }.emit(OpCode::PushLocal, pos).short(id),
            ),
        }
    }

    /// The push of a member name, which gets an id if it has none.
    pub open spec fn push_member(self, name: Seq<u8>, pos: FilePosition) -> Result<GeneratorView, ParseError> {
        match interned(self.member_names, name) {
            None => Err(ParseError::TooManyMembers),
            Some((table, id)) => Ok(
                GeneratorView { member_names: table, ..self }.emit(OpCode::PushMember, pos).short(id),
            ),
        }
    }

    /// The push of a name, whose first byte tells its scope: an upper-case
    /// letter a global, a lower-case letter a member, an underscore a local.
    pub open spec fn push_name(self, name: Seq<u8>, pos: FilePosition) -> Result<GeneratorView, ParseError> {
        if name.len() > 0 && 'A' as u8 <= name[0] <= 'Z' as u8 {
            self.push_global(name, pos)
        } else if name.len() > 0 && 'a' as u8 <= name[0] <= 'z' as u8 {
            self.push_member(name, pos)
        } else if name.len() > 0 && name[0] == '_' as u8 {
            self.push_local(name, pos)
        } else {
            Err(ParseError::UnexpectedName)
        }
    }

    /// The push of a number, whose literal joins the number constants. Equal
    /// literals are not shared.
    pub open spec fn push_number(self, text: Seq<u8>, pos: FilePosition) -> Result<GeneratorView, ParseError> {
        if self.numbers.len() >= TABLE_LIMIT {
            Err(ParseError::TooManyNumbers)
        } else {
            Ok(
                GeneratorView { numbers: self.numbers.push(text), ..self }.emit(OpCode::PushNumber, pos).short(
                    self.numbers.len() as u16,
                ),
            )
        }
    }

    /// The push of a string, which joins the string constants unless it
    /// stands among them already.
    pub open spec fn push_string(self, bytes: Seq<u8>, pos: FilePosition) -> Result<GeneratorView, ParseError> {
        match interned(self.strings, bytes) {
            None => Err(ParseError::TooManyStrings),
            Some((table, id)) => Ok(
                GeneratorView { strings: table, ..self }.emit(OpCode::PushString, pos).short(id),
            ),
        }
    }

    /// The head of a loop: a forward jump whose length is not known yet.
    /// The body of the loop begins at the resulting `here()`.
    pub open spec fn jump_if_not(self, pos: FilePosition) -> GeneratorView {
        self.emit(OpCode::JumpIfNot, pos).byte(0).byte(0)
    }

    /// The foot of a loop whose body begins at `loop_start`: a backward jump
    /// to the body's begin. Its length is also the length of the forward jump
    /// at the loop's head, which is filled in now.
    pub open spec fn jump_if(self, loop_start: OpcodeIndex, pos: FilePosition) -> Result<
        GeneratorView,
        ParseError,
    > {
        let amount = loop_amount(loop_start as int, self.instructions.len() as int);
        if amount > 65535 {
            Err(ParseError::LoopTooLong)
        } else {
            let jump = self.emit(OpCode::JumpIf, pos).short(amount as u16);
            Ok(
                GeneratorView {
                    instructions: patched(
                        patched(jump.instructions, loop_start - 2, (amount / 256) as u8),
                        loop_start - 1,
                        (amount % 256) as u8,
                    ),
                    ..jump
                },
            )
        }
    }

    /// Why `add_func` fails, if it does: the member names are full, or the
    /// class has a function of this name.
    pub open spec fn func_error(self, class: ClassView, name: Seq<u8>) -> Option<ParseError> {
        match interned(self.member_names, name) {
            None => Some(ParseError::TooManyMembers),
            Some((table, id)) => if class.funcs.contains_key(id) {
                Some(ParseError::DuplicateFuncName)
            } else {
                None
            },
        }
    }

    /// The generator and the class after `add_func`: a function named `name`
    /// of `class` begins here. A function named `c__` is the constructor, and
    /// is noted as that before anything else. Where `add_func` fails, the
    /// class does not get the function.
    pub open spec fn with_func(self, class: ClassView, name: Seq<u8>) -> (GeneratorView, ClassView) {
        let constructor = if name == constructor_name() {
            Some(self.here())
        } else {
            class.constructor
        };
        match interned(self.member_names, name) {
            None => (self, ClassView { constructor, ..class }),
            Some((table, id)) => (
                GeneratorView { member_names: table, ..self },
                ClassView {
                    funcs: if class.funcs.contains_key(id) {
                        class.funcs
                    } else {
                        class.funcs.insert(id, self.here())
                    },
                    constructor,
                },
            ),
        }
    }

    /// `add_func`, as the parser takes it: an error ends the parse.
    pub open spec fn add_func(self, class: ClassView, name: Seq<u8>) -> Result<
        (GeneratorView, ClassView),
        ParseError,
    > {
        match self.func_error(class, name) {
            Some(error) => Err(error),
            None => Ok(self.with_func(class, name)),
        }
    }

    /// Why `add_class` fails, if it does: the global names are full, a class
    /// of this name exists, or the class is `M` and has no function `m`.
    pub open spec fn class_error(self, class: ClassView, name: Seq<u8>) -> Option<ParseError> {
        match interned(self.global_names, name) {
            None => Some(ParseError::TooManyGlobals),
            Some((table, id)) => {
                let main = index_of(self.member_names, main_func_name(), 0);
                if self.class_names.contains(id) {
                    Some(ParseError::DuplicateClassName)
                } else if name == main_class_name() && (main >= self.member_names.len()
                    || !class.funcs.contains_key(main as u16)) {
                    Some(ParseError::MissingMainFunc)
                } else {
                    None
                }
            },
        }
    }

    /// The generator after `add_class`: the class named `name` is complete,
    /// and joins the classes. Where `add_class` fails, the class does not
    /// join them.
    pub open spec fn with_class(self, class: ClassView, name: Seq<u8>) -> GeneratorView {
        match interned(self.global_names, name) {
            None => self,
            Some((table, id)) => if self.class_error(class, name) is Some {
                GeneratorView { global_names: table, ..self }
            } else {
                GeneratorView {
                    global_names: table,
                    class_names: self.class_names.push(id),
                    classes: self.classes.push(class),
                    ..self
                }
            },
        }
    }

    /// `add_class`, as the parser takes it: an error ends the parse.
    pub open spec fn add_class(self, class: ClassView, name: Seq<u8>) -> Result<GeneratorView, ParseError> {
        match self.class_error(class, name) {
            Some(error) => Err(error),
            None => Ok(self.with_class(class, name)),
        }
    }

    /// The finished program. There has to be a class `M`; its function `m`
    /// is where the program starts.
    pub open spec fn program(self) -> Result<ProgramView, ParseError> {
        let class = index_of(self.global_names, main_class_name(), 0);
        let func = index_of(self.member_names, main_func_name(), 0);
        if class >= self.global_names.len() || !self.class_names.contains(class as u16) {
            Err(ParseError::MissingMainClass)
        } else if func >= self.member_names.len() {
            Err(ParseError::MissingMainFunc)
        } else {
            Ok(
                ProgramView {
                    class_names: self.class_names,
                    classes: self.classes,
                    strings: self.strings,
                    numbers: self.numbers,
                    instructions: self.instructions,
                    main_class: class as u16,
                    main_func: func as u16,
                    files: self.files,
                    positions: self.positions,
                },
            )
        }
    }
}

/// The instructions with the byte at `at` replaced, if there is one.
pub open spec fn patched(instructions: Seq<u8>, at: int, byte: u8) -> Seq<u8> {
    if 0 <= at < instructions.len() {
        instructions.update(at, byte)
    } else {
        instructions
    }
}

/// The length of both jumps of a loop whose body begins at `loop_start` and
/// whose backward jump stands at `foot`.
pub open spec fn loop_amount(loop_start: int, foot: int) -> int {
    foot - loop_start + 3
}

/// A generator that has emitted nothing.
pub open spec fn empty_generator() -> GeneratorView {
    GeneratorView {
        instructions: Seq::empty(),
        class_names: Seq::empty(),
        classes: Seq::empty(),
        member_names: Seq::empty(),
        global_names: Seq::empty(),
        local_names: Seq::empty(),
        strings: Seq::empty(),
        numbers: Seq::empty(),
        files: Seq::empty(),
        positions: Seq::empty(),
    }
}

/// The bytecode under construction.
pub struct BytecodeGenerator {
    pub instructions: Vec<u8>,
    pub class_names: Vec<GlobalName>,
    pub classes: Vec<ClassDefinition>,
    /// The member names: the id of a name is its place.
    pub member_names: Vec<ByteString>,
    pub global_names: Vec<ByteString>,
    pub local_names: Vec<ByteString>,
    pub strings: Vec<ByteString>,
    pub numbers: Vec<Vec<u8>>,
    pub files: Vec<(OpcodeIndex, String)>,
    pub positions: Vec<(OpcodeIndex, FilePosition)>,
}

impl View for BytecodeGenerator {
    type V = GeneratorView;

    open spec fn view(&self) -> GeneratorView {
        GeneratorView {
            instructions: self.instructions@,
            class_names: self.class_names@,
            classes: classes_of(self.classes@),
            member_names: pool_of(self.member_names@),
            global_names: pool_of(self.global_names@),
            local_names: pool_of(self.local_names@),
            strings: pool_of(self.strings@),
            numbers: texts_of(self.numbers@),
            files: files_of(self.files@),
            positions: self.positions@,
        }
    }
}

/// The index of the first name of the table that holds these bytes, or the
/// length of the table.
pub fn find_name(table: &Vec<ByteString>, name: &Vec<u8>) -> (found: usize)
    ensures
        found == index_of(pool_of(table@), name@, 0),
        found <= table.len(),
{
    let mut i: usize = 0;
    while i < table.len()
        invariant
            i <= table.len(),
            index_of(pool_of(table@), name@, 0) == index_of(pool_of(table@), name@, i as nat),
        decreases table.len() - i,
    {
        if same_bytes(as_bytes(&table[i]), name) {
            return i;
        }
        i += 1;
    }
    i
}

/// Whether some class stands under this name already.
pub fn has_class(class_names: &Vec<GlobalName>, name: GlobalName) -> (found: bool)
    ensures
        found == class_names@.contains(name),
{
    let mut i: usize = 0;
    while i < class_names.len()
        invariant
            i <= class_names.len(),
            forall|j: int| 0 <= j < i ==> class_names[j] != name,
        decreases class_names.len() - i,
    {
        if class_names[i] == name {
            return true;
        }
        i += 1;
    }
    false
}

impl BytecodeGenerator {
    /// A generator that has emitted nothing.
    pub fn new() -> (generator: BytecodeGenerator)
        ensures
            generator@ == empty_generator(),
            generator@.wf(),
    {
        let generator = BytecodeGenerator {
            instructions: Vec::new(),
            class_names: Vec::new(),
            classes: Vec::new(),
            member_names: Vec::new(),
            global_names: Vec::new(),
            local_names: Vec::new(),
            strings: Vec::new(),
            numbers: Vec::new(),
            files: Vec::new(),
            positions: Vec::new(),
        };
        assert(generator@.classes =~= Seq::empty());
        assert(generator@.member_names =~= Seq::empty());
        assert(generator@.global_names =~= Seq::empty());
        assert(generator@.local_names =~= Seq::empty());
        assert(generator@.strings =~= Seq::empty());
        assert(generator@.numbers =~= Seq::empty());
        assert(generator@.files =~= Seq::empty());
        generator
    }

    /// The id of a name in a table, which takes the name in if it is new.
    pub fn get_name(name_map: &mut Vec<ByteString>, name_str: ByteString) -> (id: Option<u16>)
        requires
            old(name_map).len() <= TABLE_LIMIT,
        ensures
            final(name_map).len() <= TABLE_LIMIT,
            match interned(pool_of(old(name_map)@), bytes_of(name_str)) {
                Some((table, found)) => id == Some(found) && pool_of(final(name_map)@) == table,
                None => id is None && final(name_map)@ == old(name_map)@,
            },
    {
        let found: usize = find_name(name_map, as_bytes(&name_str));
        if found < name_map.len() {
            Some(found as u16)
        } else if name_map.len() >= TABLE_LIMIT {
            None
        } else {
            let id: u16 = name_map.len() as u16;
            name_map.push(name_str);
            assert(pool_of(name_map@) =~= pool_of(old(name_map)@).push(bytes_of(name_str)));
            Some(id)
        }
    }

    /// The id of a global name.
    pub fn get_global_name(&mut self, name_str: ByteString) -> (id: Option<GlobalName>)
        requires
            old(self)@.wf(),
        ensures
            final(self)@.wf(),
            match interned(old(self)@.global_names, bytes_of(name_str)) {
                Some((table, found)) => id == Some(found) && final(self)@ == (GeneratorView {
                    global_names: table,
                    ..old(self)@
                }),
                None => id is None && final(self)@ == old(self)@,
            },
    {
        Self::get_name(&mut self.global_names, name_str)
    }

    /// The id of a member name.
    pub fn get_member_name(&mut self, name_str: ByteString) -> (id: Option<MemberName>)
        requires
            old(self)@.wf(),
        ensures
            final(self)@.wf(),
            match interned(old(self)@.member_names, bytes_of(name_str)) {
                Some((table, found)) => id == Some(found) && final(self)@ == (GeneratorView {
                    member_names: table,
                    ..old(self)@
                }),
                None => id is None && final(self)@ == old(self)@,
            },
    {
        Self::get_name(&mut self.member_names, name_str)
    }

    /// The id of a local name.
    pub fn get_local_name(&mut self, name_str: ByteString) -> (id: Option<LocalName>)
        requires
            old(self)@.wf(),
        ensures
            final(self)@.wf(),
            match interned(old(self)@.local_names, bytes_of(name_str)) {
                Some((table, found)) => id == Some(found) && final(self)@ == (GeneratorView {
                    local_names: table,
                    ..old(self)@
                }),
                None => id is None && final(self)@ == old(self)@,
            },
    {
        Self::get_name(&mut self.local_names, name_str)
    }

    /// The id of a string constant.
    pub fn get_string_index(&mut self, string: ByteString) -> (id: Option<u16>)
        requires
            old(self)@.wf(),
        ensures
            final(self)@.wf(),
            match interned(old(self)@.strings, bytes_of(string)) {
                Some((table, found)) => id == Some(found) && final(self)@ == (GeneratorView {
                    strings: table,
                    ..old(self)@
                }),
                None => id is None && final(self)@ == old(self)@,
            },
    {
        Self::get_name(&mut self.strings, string)
    }

    /// The id of a new number constant.
    pub fn get_number_index(&mut self, text: Vec<u8>) -> (id: Option<u16>)
        requires
            old(self)@.wf(),
        ensures
            final(self)@.wf(),
            if old(self)@.numbers.len() >= TABLE_LIMIT {
                id is None && final(self)@ == old(self)@
            } else {
                id == Some(old(self)@.numbers.len() as u16) && final(self)@ == (GeneratorView {
                    numbers: old(self)@.numbers.push(text@),
                    ..old(self)@
                })
            },
    {
        if self.numbers.len() >= TABLE_LIMIT {
            None
        } else {
            let index: usize = self.numbers.len();
            self.numbers.push(text);
            assert(texts_of(self.numbers@) =~= texts_of(old(self).numbers@).push(text@));
            Some(index as u16)
        }
    }

    /// A function of `class` begins here.
    pub fn add_func(&mut self, class: &mut ClassDefinition, func_name_str: ByteString) -> (r: Result<
        (),
        ParseError,
    >)
        requires
            old(self)@.wf(),
        ensures
            final(self)@.wf(),
            (final(self)@, final(class)@) == old(self)@.with_func(old(class)@, bytes_of(func_name_str)),
            match old(self)@.func_error(old(class)@, bytes_of(func_name_str)) {
                None => r is Ok,
                Some(error) => r == Err::<(), ParseError>(error),
            },
    {
        let here: usize = self.instructions.len();
        let name: &Vec<u8> = as_bytes(&func_name_str);
        if name.len() == 3 && name[0] == 'c' as u8 && name[1] == '_' as u8 && name[2] == '_' as u8 {
            assert(name@ =~= constructor_name());
            class.constructor = Some(here);
        }
        let member_name: MemberName = match self.get_member_name(func_name_str) {
            Some(member_name) => member_name,
            None => {
                return Err(ParseError::TooManyMembers);
            },
        };
        if class.funcs.contains_key(&member_name) {
            Err(ParseError::DuplicateFuncName)
        } else {
            class.funcs.insert(member_name, here);
            Ok(())
        }
    }

    /// A class is complete.
    pub fn add_class(&mut self, class: ClassDefinition, class_name_str: ByteString) -> (r: Result<
        (),
        ParseError,
    >)
        requires
            old(self)@.wf(),
        ensures
            final(self)@.wf(),
            final(self)@ == old(self)@.with_class(class@, bytes_of(class_name_str)),
            match old(self)@.class_error(class@, bytes_of(class_name_str)) {
                None => r is Ok,
                Some(error) => r == Err::<(), ParseError>(error),
            },
    {
        let name: &Vec<u8> = as_bytes(&class_name_str);
        let is_main: bool = name.len() == 1 && name[0] == 'M' as u8;
        assert(is_main == (name@ == main_class_name())) by {
            if is_main {
                assert(name@ =~= main_class_name());
            }
        }
        let mut main_func: Vec<u8> = Vec::new();
        main_func.push('m' as u8);
        assert(main_func@ =~= main_func_name());
        let main: usize = find_name(&self.member_names, &main_func);
        let missing: bool = is_main && (main >= self.member_names.len() || !class.funcs.contains_key(
            &(main as u16),
        ));
        let class_name: GlobalName = match self.get_global_name(class_name_str) {
            Some(class_name) => class_name,
            None => {
                return Err(ParseError::TooManyGlobals);
            },
        };
        if has_class(&self.class_names, class_name) {
            Err(ParseError::DuplicateClassName)
        } else if missing {
            Err(ParseError::MissingMainFunc)
        } else {
            self.class_names.push(class_name);
            self.classes.push(class);
            assert(classes_of(self.classes@) =~= classes_of(old(self).classes@).push(class@));
            Ok(())
        }
    }

    /// A source file begins here.
    pub fn set_filename(&mut self, file: String)
        requires
            old(self)@.wf(),
        ensures
            final(self)@.wf(),
            final(self)@ == old(self)@.file(file@),
    {
        self.files.push((self.instructions.len(), file));
        assert(files_of(self.files@) =~= files_of(old(self).files@).push((old(self)@.here(), file@)));
    }

    /// What is emitted next comes from `pos`.
    pub fn set_position(&mut self, pos: FilePosition)
        requires
            old(self)@.wf(),
        ensures
            final(self)@.wf(),
            final(self)@ == old(self)@.positioned(pos),
    {
        let count: usize = self.positions.len();
        if count == 0 || self.positions[count - 1].1 != pos {
            self.positions.push((self.instructions.len(), pos));
        }
    }

    fn add_byte(&mut self, byte: u8)
        requires
            old(self)@.wf(),
        ensures
            final(self)@.wf(),
            final(self)@ == old(self)@.byte(byte),
    {
        self.instructions.push(byte);
    }

    fn add_short(&mut self, value: u16)
        requires
            old(self)@.wf(),
        ensures
            final(self)@.wf(),
            final(self)@ == old(self)@.short(value),
    {
        self.add_byte(high_byte(value));
        self.add_byte(low_byte(value));
    }

    /// Emits an instruction that comes from `pos`.
    pub fn add_opcode(&mut self, opcode: OpCode, pos: FilePosition)
        requires
            old(self)@.wf(),
        ensures
            final(self)@.wf(),
            final(self)@ == old(self)@.emit(opcode, pos),
    {
        self.set_position(pos);
        self.add_byte(opcode.code());
    }

    /// `?`: emits `Call`.
    pub fn add_call(&mut self, pos: FilePosition)
        requires
            old(self)@.wf(),
        ensures
            final(self)@.wf(),
            final(self)@ == old(self)@.emit(OpCode::Call, pos),
    {
        self.add_opcode(OpCode::Call, pos);
    }

    /// Emits `Construct`.
    pub fn add_construct(&mut self, pos: FilePosition)
        requires
            old(self)@.wf(),
        ensures
            final(self)@.wf(),
            final(self)@ == old(self)@.emit(OpCode::Construct, pos),
    {
        self.add_opcode(OpCode::Construct, pos);
    }

    /// Emits `Duplicate` with its depth.
    pub fn add_duplicate(&mut self, index: u8, pos: FilePosition)
        requires
            old(self)@.wf(),
        ensures
            final(self)@.wf(),
            final(self)@ == old(self)@.emit(OpCode::Duplicate, pos).byte(index),
    {
        self.add_opcode(OpCode::Duplicate, pos);
        self.add_byte(index);
    }

    /// Emits `Instantiate`.
    pub fn add_instantiate(&mut self, pos: FilePosition)
        requires
            old(self)@.wf(),
        ensures
            final(self)@.wf(),
            final(self)@ == old(self)@.emit(OpCode::Instantiate, pos),
    {
        self.add_opcode(OpCode::Instantiate, pos);
    }

    /// The foot of the loop whose body begins at `loop_start`.
    pub fn add_jump_if(&mut self, loop_start: usize, pos: FilePosition) -> (r: Result<(), ParseError>)
        requires
            old(self)@.wf(),
            3 <= loop_start <= old(self).instructions.len(),
        ensures
            final(self)@.wf(),
            match old(self)@.jump_if(loop_start, pos) {
                Ok(generator) => r is Ok && final(self)@ == generator,
                Err(error) => r == Err::<(), ParseError>(error),
            },
    {
        let jump_amount: usize = self.instructions.len() - loop_start + 3;
        if jump_amount > 65535 {
            return Err(ParseError::LoopTooLong);
        }
        let hi: u8 = high_byte(jump_amount as u16);
        let lo: u8 = low_byte(jump_amount as u16);
        self.add_opcode(OpCode::JumpIf, pos);
        self.add_byte(hi);
        self.add_byte(lo);
        self.instructions[loop_start - 2] = hi;
        self.instructions[loop_start - 1] = lo;
        Ok(())
    }

    /// The head of a loop. Gives the offset at which the body begins.
    pub fn add_jump_if_not(&mut self, pos: FilePosition) -> (loop_start: usize)
        requires
            old(self)@.wf(),
        ensures
            final(self)@.wf(),
            final(self)@ == old(self)@.jump_if_not(pos),
            loop_start == final(self).instructions.len(),
            loop_start >= 3,
    {
        self.add_opcode(OpCode::JumpIfNot, pos);
        self.add_byte(0);
        self.add_byte(0);
        self.instructions.len()
    }

    /// `*`: emits `Load`.
    pub fn add_load(&mut self, pos: FilePosition)
        requires
            old(self)@.wf(),
        ensures
            final(self)@.wf(),
            final(self)@ == old(self)@.emit(OpCode::Load, pos),
    {
        self.add_opcode(OpCode::Load, pos);
    }

    /// `.`: emits `LoadFrom`.
    pub fn add_load_from(&mut self, pos: FilePosition)
        requires
            old(self)@.wf(),
        ensures
            final(self)@.wf(),
            final(self)@ == old(self)@.emit(OpCode::LoadFrom, pos),
    {
        self.add_opcode(OpCode::LoadFrom, pos);
    }

    /// `,`: emits `Pop`.
    pub fn add_pop(&mut self, pos: FilePosition)
        requires
            old(self)@.wf(),
        ensures
            final(self)@.wf(),
            final(self)@ == old(self)@.emit(OpCode::Pop, pos),
    {
        self.add_opcode(OpCode::Pop, pos);
    }

    /// Emits the push of a global name.
    pub fn add_push_global(&mut self, name_str: ByteString, pos: FilePosition) -> (r: Result<(), ParseError>)
        requires
            old(self)@.wf(),
        ensures
            final(self)@.wf(),
            match old(self)@.push_global(bytes_of(name_str), pos) {
                Ok(generator) => r is Ok && final(self)@ == generator,
                Err(error) => r == Err::<(), ParseError>(error),
            },
    {
        let global_name: GlobalName = match self.get_global_name(name_str) {
            Some(global_name) => global_name,
            None => {
                return Err(ParseError::TooManyGlobals);
            },
        };
        self.add_opcode(OpCode::PushGlobal, pos);
        self.add_short(global_name);
        Ok(())
    }

    /// Emits the push of a local name.
    pub fn add_push_local(&mut self, name_str: ByteString, pos: FilePosition) -> (r: Result<(), ParseError>)
        requires
            old(self)@.wf(),
        ensures
            final(self)@.wf(),
            match old(self)@.push_local(bytes_of(name_str), pos) {
                Ok(generator) => r is Ok && final(self)@ == generator,
                Err(error) => r == Err::<(), ParseError>(error),
            },
    {
        let local_name: LocalName = match self.get_local_name(name_str) {
            Some(local_name) => local_name,
            None => {
                return Err(ParseError::TooManyGlobals);
            },
        };
        self.add_opcode(OpCode::PushLocal, pos);
        self.add_short(local_name);
        Ok(())
    }

    /// Emits the push of a member name.
    pub fn add_push_member(&mut self, name_str: ByteString, pos: FilePosition) -> (r: Result<(), ParseError>)
        requires
            old(self)@.wf(),
        ensures
            final(self)@.wf(),
            match old(self)@.push_member(bytes_of(name_str), pos) {
                Ok(generator) => r is Ok && final(self)@ == generator,
                Err(error) => r == Err::<(), ParseError>(error),
            },
    {
        let member_name: MemberName = match self.get_member_name(name_str) {
            Some(member_name) => member_name,
            None => {
                return Err(ParseError::TooManyMembers);
            },
        };
        self.add_opcode(OpCode::PushMember, pos);
        self.add_short(member_name);
        Ok(())
    }

    /// Emits the push of a name, by the scope that its first byte tells.
    pub fn add_push_name(&mut self, name_str: ByteString, pos: FilePosition) -> (r: Result<(), ParseError>)
        requires
            old(self)@.wf(),
        ensures
            final(self)@.wf(),
            match old(self)@.push_name(bytes_of(name_str), pos) {
                Ok(generator) => r is Ok && final(self)@ == generator,
                Err(error) => r == Err::<(), ParseError>(error),
            },
    {
        let name: &Vec<u8> = as_bytes(&name_str);
        if name.len() == 0 {
            return Err(ParseError::UnexpectedName);
        }
        let first: u8 = name[0];
        if first >= 'A' as u8 && first <= 'Z' as u8 {
            self.add_push_global(name_str, pos)
        } else if first >= 'a' as u8 && first <= 'z' as u8 {
            self.add_push_member(name_str, pos)
        } else if first == '_' as u8 {
            self.add_push_local(name_str, pos)
        } else {
            Err(ParseError::UnexpectedName)
        }
    }

    /// Emits the push of a number, given as the text of its literal.
    pub fn add_push_number(&mut self, text: Vec<u8>, pos: FilePosition) -> (r: Result<(), ParseError>)
        requires
            old(self)@.wf(),
        ensures
            final(self)@.wf(),
            match old(self)@.push_number(text@, pos) {
                Ok(generator) => r is Ok && final(self)@ == generator,
                Err(error) => r == Err::<(), ParseError>(error),
            },
    {
        let number_index: u16 = match self.get_number_index(text) {
            Some(index) => index,
            None => {
                return Err(ParseError::TooManyNumbers);
            },
        };
        self.add_opcode(OpCode::PushNumber, pos);
        self.add_short(number_index);
        Ok(())
    }

    /// Emits `PushSelf`.
    pub fn add_push_self(&mut self, pos: FilePosition)
        requires
            old(self)@.wf(),
        ensures
            final(self)@.wf(),
            final(self)@ == old(self)@.emit(OpCode::PushSelf, pos),
    {
        self.add_opcode(OpCode::PushSelf, pos);
    }

    /// Emits the push of a string.
    pub fn add_push_string(&mut self, string: ByteString, pos: FilePosition) -> (r: Result<(), ParseError>)
        requires
            old(self)@.wf(),
        ensures
            final(self)@.wf(),
            match old(self)@.push_string(bytes_of(string), pos) {
                Ok(generator) => r is Ok && final(self)@ == generator,
                Err(error) => r == Err::<(), ParseError>(error),
            },
    {
        let string_index: u16 = match self.get_string_index(string) {
            Some(string_index) => string_index,
            None => {
                return Err(ParseError::TooManyStrings);
            },
        };
        self.add_opcode(OpCode::PushString, pos);
        self.add_short(string_index);
        Ok(())
    }

    /// `^`: emits `Return`.
    pub fn add_return(&mut self, pos: FilePosition)
        requires
            old(self)@.wf(),
        ensures
            final(self)@.wf(),
            final(self)@ == old(self)@.emit(OpCode::Return, pos),
    {
        self.add_opcode(OpCode::Return, pos);
    }

    /// `=`: emits `Store`.
    pub fn add_store(&mut self, pos: FilePosition)
        requires
            old(self)@.wf(),
        ensures
            final(self)@.wf(),
            final(self)@ == old(self)@.emit(OpCode::Store, pos),
    {
        self.add_opcode(OpCode::Store, pos);
    }

    /// Emits `StoreKeep`.
    pub fn add_store_keep(&mut self, pos: FilePosition)
        requires
            old(self)@.wf(),
        ensures
            final(self)@.wf(),
            final(self)@ == old(self)@.emit(OpCode::StoreKeep, pos),
    {
        self.add_opcode(OpCode::StoreKeep, pos);
    }

    /// The finished program.
    pub fn get_program(self) -> (r: Result<BytecodeProgram, ParseError>)
        requires
            self@.wf(),
        ensures
            match self@.program() {
                Ok(program) => r is Ok && r->Ok_0@ == program,
                Err(error) => r is Err && r->Err_0 == error,
            },
    {
        let mut main_class: Vec<u8> = Vec::new();
        main_class.push('M' as u8);
        assert(main_class@ =~= main_class_name());
        let mut main_func: Vec<u8> = Vec::new();
        main_func.push('m' as u8);
        assert(main_func@ =~= main_func_name());
        let class: usize = find_name(&self.global_names, &main_class);
        if class >= self.global_names.len() || !has_class(&self.class_names, class as u16) {
            return Err(ParseError::MissingMainClass);
        }
        let func: usize = find_name(&self.member_names, &main_func);
        if func >= self.member_names.len() {
            return Err(ParseError::MissingMainFunc);
        }
        Ok(
            BytecodeProgram {
                class_names: self.class_names,
                classes: self.classes,
                strings: self.strings,
                numbers: self.numbers,
                instructions: self.instructions,
                main_class: class as u16,
                main_func: func as u16,
                files: self.files,
                positions: self.positions,
            },
        )
    }
}

} // verus!
