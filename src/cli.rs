use vstd::prelude::*;

use crate::error::{FileError, FileResult};
use crate::file::{
    byte_len, create_outcome, delete_by_id_outcome, delete_by_name_outcome, has_id, has_name,
    total_bytes, write_outcome, FileSystem, StoreModel,
};
use crate::stats::{stats, stats_match, Stats};
use crate::text::{lower_of, lowercase, same_text, trim, trimmed};

verus! {

/// The commands of the shell.
#[derive(Debug, Clone, Copy, PartialEq, Eq)]
pub enum Operation {
    Create,
    Write,
    Read,
    List,
    Delete,
    Info,
    Help,
    Stats,
    Quit,
}

/// The command that a lower-case word names, with its aliases.
pub open spec fn operation_named(word: Seq<char>) -> Option<Operation> {
    if word == "create"@ || word == "c"@ {
        Some(Operation::Create)
    } else if word == "write"@ || word == "w"@ {
        Some(Operation::Write)
    } else if word == "read"@ || word == "r"@ {
        Some(Operation::Read)
    } else if word == "list"@ || word == "l"@ || word == "ls"@ {
        Some(Operation::List)
    } else if word == "delete"@ || word == "d"@ || word == "del"@ {
        Some(Operation::Delete)
    } else if word == "info"@ || word == "i"@ {
        Some(Operation::Info)
    } else if word == "help"@ || word == "h"@ || word == "?"@ {
        Some(Operation::Help)
    } else if word == "stats"@ || word == "s"@ {
        Some(Operation::Stats)
    } else if word == "quit"@ || word == "q"@ || word == "exit"@ {
        Some(Operation::Quit)
    } else {
        None
    }
}

/// The command that a line of input names: the line is trimmed and put in
/// lower case before it is looked up.
pub open spec fn operation_of_line(line: Seq<char>) -> Option<Operation> {
    operation_named(lower_of(trimmed(line)))
}

impl Operation {
    /// The command that `word`, already trimmed and in lower case, names;
    /// `InvalidInput` when it names none.
    pub fn from_word(word: &str) -> (r: FileResult<Operation>)
        ensures
            r matches Ok(op) ==> operation_named(word@) == Some(op),
            r matches Err(e) ==> operation_named(word@) is None && e is InvalidInput,
    {
        let op = if same_text(word, "create") || same_text(word, "c") {
            Operation::Create
        } else if same_text(word, "write") || same_text(word, "w") {
            Operation::Write
        } else if same_text(word, "read") || same_text(word, "r") {
            Operation::Read
        } else if same_text(word, "list") || same_text(word, "l") || same_text(word, "ls") {
            Operation::List
        } else if same_text(word, "delete") || same_text(word, "d") || same_text(word, "del") {
            Operation::Delete
        } else if same_text(word, "info") || same_text(word, "i") {
            Operation::Info
        } else if same_text(word, "help") || same_text(word, "h") || same_text(word, "?") {
            Operation::Help
        } else if same_text(word, "stats") || same_text(word, "s") {
            Operation::Stats
        } else if same_text(word, "quit") || same_text(word, "q") || same_text(word, "exit") {
            Operation::Quit
        } else {
            let mut message = "Unknown command: ".to_owned();
            message.append(word);
            return Err(FileError::InvalidInput(message));
        };
        Ok(op)
    }

    /// The command that a line of input names, in any case and with any
    /// surrounding whitespace; `InvalidInput` when it names none.
    pub fn from_str(input: &str) -> (r: FileResult<Operation>)
        ensures
            r matches Ok(op) ==> operation_of_line(input@) == Some(op),
            r matches Err(e) ==> operation_of_line(input@) is None && e is InvalidInput,
    {
        let word = lowercase(trim(input));
        Operation::from_word(word.as_str())
    }
}

/// Checks a line given for a file name or content: it is trimmed, and must not
/// be empty then (`InvalidInput`).
pub fn checked_input(line: &str) -> (r: FileResult<String>)
    ensures
        r is Err <==> trimmed(line@).len() == 0,
        r matches Ok(s) ==> s@ == trimmed(line@),
        r matches Err(e) ==> e is InvalidInput,
{
    let t = trim(line);
    if t.is_empty() {
        return Err(FileError::InvalidInput("Input cannot be empty".to_owned()));
    }
    Ok(t.to_owned())
}

/// The characters after an optional leading '+'.
pub open spec fn unsigned_digits(s: Seq<char>) -> Seq<char> {
    if s.len() > 0 && s[0] == '+' {
        s.drop_first()
    } else {
        s
    }
}

/// An ASCII decimal digit.
pub open spec fn is_digit(c: char) -> bool {
    '0' <= c <= '9'
}

/// The number that a string of decimal digits spells.
pub open spec fn digits_value(d: Seq<char>) -> int
    decreases d.len(),
{
    if d.len() == 0 {
        0
    } else {
        digits_value(d.drop_last()) * 10 + (d.last() as int - '0' as int)
    }
}

/// The identifier that `s` spells, as `str::parse::<u32>` reads it: an
/// optional '+', then one or more decimal digits, of a value that fits.
pub open spec fn parsed_id(s: Seq<char>) -> Option<u32> {
    let d = unsigned_digits(s);
    if d.len() > 0 && (forall|i: int| 0 <= i < d.len() ==> is_digit(#[trigger] d[i]))
        && digits_value(d) <= u32::MAX {
        Some(digits_value(d) as u32)
    } else {
        None
    }
}

proof fn lemma_digits_grow(d: Seq<char>, n: int)
    requires
        0 <= n <= d.len(),
        forall|i: int| 0 <= i < d.len() ==> is_digit(#[trigger] d[i]),
    ensures
        0 <= digits_value(d.take(n)) <= digits_value(d),
    decreases d.len(),
{
    if d.len() > 0 {
        if n == d.len() {
            assert(d.take(n) == d);
            lemma_digits_grow(d.drop_last(), 0);
            assert(d.drop_last().take(0) =~= d.take(0));
        } else {
            lemma_digits_grow(d.drop_last(), n);
            assert(d.drop_last().take(n) == d.take(n));
        }
    }
}

/// Reads `s` as an identifier, as `str::parse::<u32>` would.
pub fn parse_id(s: &str) -> (r: Option<u32>)
    ensures
        r == parsed_id(s@),
{
    let n = s.unicode_len();
    let mut i: usize = 0;
    if n > 0 && s.get_char(0) == '+' {
        i = 1;
    }
    let start = i;
    let ghost d = unsigned_digits(s@);
    assert(d == s@.subrange(start as int, n as int));
    if start == n {
        return None;
    }
    let mut value: u64 = 0;
    while i < n
        invariant
            start <= i <= n,
            n == s@.len(),
            d == s@.subrange(start as int, n as int),
            d == unsigned_digits(s@),
            forall|j: int| 0 <= j < i - start ==> is_digit(#[trigger] d[j]),
            value == digits_value(d.take(i - start)),
            value <= u32::MAX,
        decreases n - i,
    {
        let c = s.get_char(i);
        let ghost k = i - start;
        assert(d[k] == c);
        if !('0' <= c && c <= '9') {
            assert(!is_digit(d[k]));
            return None;
        }
        assert(d.take(k + 1).drop_last() == d.take(k));
        assert(d.take(k + 1).last() == c);
        assert(digits_value(d.take(k + 1)) == value * 10 + (c as int - '0' as int));
        value = value * 10 + (c as u64 - '0' as u64);
        i = i + 1;
        if value > u32::MAX as u64 {
            proof {
                if forall|j: int| 0 <= j < d.len() ==> is_digit(#[trigger] d[j]) {
                    lemma_digits_grow(d, k + 1);
                    assert(digits_value(d) > u32::MAX);
                }
            }
            return None;
        }
    }
    assert(d.take(n - start) == d);
    Some(value as u32)
}


/// A command together with the inputs it was given.
#[derive(Debug)]
pub enum Command {
    Create { name: String, content: String },
    Write { name: String, content: String },
    Read { name: String },
    List,
    /// `target` is an identifier when it reads as one, else a name.
    Delete { target: String },
    /// `target` is an identifier when it reads as one, else a name.
    Info { target: String },
    Help,
    Stats,
    Quit,
}

/// What a command that succeeded has to show.
#[derive(Debug)]
pub enum Outcome {
    /// A file was created with this identifier.
    Created(u32),
    Written,
    /// The content of the file that was read.
    Content(String),
    /// The listing is what `list_files` gives.
    Listed,
    Deleted,
    /// The identifier of the file asked about.
    Found(u32),
    Stats(Stats),
    Help,
    /// The shell stops.
    Quit,
}

/// There is an identifier left for a new file, and the sizes would still sum
/// to no more than `usize::MAX` with `content` added.
pub open spec fn room_to_create(s: StoreModel, content: Seq<char>) -> bool {
    &&& s.next_id < u32::MAX
    &&& total_bytes(s.files) + byte_len(content) <= usize::MAX
}

/// The sizes would still sum to no more than `usize::MAX` with `content` added.
pub open spec fn room_to_write(s: StoreModel, content: Seq<char>) -> bool {
    total_bytes(s.files) + byte_len(content) <= usize::MAX
}

/// The identifier that a create command returned, or its error.
pub open spec fn created_id(r: FileResult<Outcome>) -> FileResult<u32> {
    match r {
        Ok(Outcome::Created(id)) => Ok(id),
        Ok(_) => Err(FileError::EmptyContent),
        Err(e) => Err(e),
    }
}

/// Whether a command that changes a file succeeded, or its error.
pub open spec fn done(r: FileResult<Outcome>) -> FileResult<()> {
    match r {
        Ok(_) => Ok(()),
        Err(e) => Err(e),
    }
}

/// The command failed with `InvalidInput`.
pub open spec fn rejected(r: FileResult<Outcome>) -> bool {
    r matches Err(e) && e is InvalidInput
}

/// What reading `name` gives on the store `s`.
pub open spec fn read_reply(s: StoreModel, name: Seq<char>, r: FileResult<Outcome>) -> bool {
    &&& (r is Ok <==> has_name(s.files, name))
    &&& r matches Err(e) ==> e.is_not_found(name)
    &&& r matches Ok(o) ==> (o matches Outcome::Content(c) && exists|i: int|
        0 <= i < s.files.len() && #[trigger] s.files[i].name@ == name && c@ == s.files[i].content@)
}

/// What asking about `target` gives on the store `s`.
pub open spec fn info_reply(s: StoreModel, target: Seq<char>, r: FileResult<Outcome>) -> bool {
    match parsed_id(target) {
        Some(id) => {
            &&& (r is Ok <==> has_id(s.files, id))
            &&& r is Ok ==> r == Ok::<Outcome, FileError>(Outcome::Found(id))
            &&& r matches Err(e) ==> e == FileError::InvalidId(id)
        },
        None => {
            &&& (r is Ok <==> has_name(s.files, target))
            &&& r matches Err(e) ==> e.is_not_found(target)
            &&& r matches Ok(o) ==> (o matches Outcome::Found(id) && exists|i: int|
                0 <= i < s.files.len() && #[trigger] s.files[i].name@ == target && s.files[i].id == id)
        },
    }
}

/// What running `command` on the store `before` leaves and returns.
pub open spec fn execute_outcome(
    before: StoreModel,
    after: StoreModel,
    command: Command,
    r: FileResult<Outcome>,
) -> bool {
    match command {
        Command::Create { name, content } => if room_to_create(before, content@) {
            &&& r is Ok ==> r->Ok_0 is Created
            &&& create_outcome(before, after, name, content, created_id(r))
        } else {
            after == before && rejected(r)
        },
        Command::Write { name, content } => if room_to_write(before, content@) {
            &&& r is Ok ==> r->Ok_0 is Written
            &&& write_outcome(before, after, name@, content@, done(r))
        } else {
            after == before && rejected(r)
        },
        Command::Read { name } => after == before && read_reply(before, name@, r),
        Command::List => after == before && r == Ok::<Outcome, FileError>(Outcome::Listed),
        Command::Delete { target } => {
            &&& r is Ok ==> r->Ok_0 is Deleted
            &&& match parsed_id(target@) {
                Some(id) => delete_by_id_outcome(before, after, id, done(r)),
                None => delete_by_name_outcome(before, after, target@, done(r)),
            }
        },
        Command::Info { target } => after == before && info_reply(before, target@, r),
        Command::Stats => after == before && (r matches Ok(o) && o matches Outcome::Stats(st)
            && stats_match(before.files, st)),
        Command::Help => after == before && r == Ok::<Outcome, FileError>(Outcome::Help),
        Command::Quit => after == before && r == Ok::<Outcome, FileError>(Outcome::Quit),
    }
}

/// The shell: it owns the store and runs commands on it.
pub struct CLI {
    filesystem: FileSystem,
}

impl View for CLI {
    type V = StoreModel;

    closed spec fn view(&self) -> StoreModel {
        self.filesystem@
    }
}

impl Default for CLI {
    fn default() -> (r: CLI)
        ensures
            r.wf(),
            r@.files.len() == 0,
            r@.next_id == 1,
    {
        CLI::new()
    }
}

impl CLI {
    /// The store keeps its invariant.
    pub open spec fn wf(&self) -> bool {
        self@.wf()
    }

    /// A shell over an empty store.
    pub fn new() -> (r: CLI)
        ensures
            r.wf(),
            r@.files.len() == 0,
            r@.next_id == 1,
    {
        CLI { filesystem: FileSystem::new() }
    }

    /// The store, to read from.
    pub fn filesystem(&self) -> (r: &FileSystem)
        ensures
            r@ == self@,
    {
        &self.filesystem
    }

    /// Runs one command on the store. A failure changes nothing and leaves
    /// the shell running; only `Quit` stops it.
    pub fn execute_operation(&mut self, command: Command) -> (r: FileResult<Outcome>)
        requires
            old(self).wf(),
        ensures
            final(self).wf(),
            execute_outcome(old(self)@, final(self)@, command, r),
    {
        match command {
            Command::Create { name, content } => {
                let room = match self.filesystem.total_size().checked_add(content.as_str().len()) {
                    Some(_) => self.filesystem.next_id() < u32::MAX,
                    None => false,
                };
                if !room {
                    return Err(FileError::InvalidInput("The store is full".to_owned()));
                }
                match self.filesystem.create_file(name, content) {
                    Ok(id) => Ok(Outcome::Created(id)),
                    Err(e) => Err(e),
                }
            },
            Command::Write { name, content } => {
                if self.filesystem.total_size().checked_add(content.as_str().len()).is_none() {
                    return Err(FileError::InvalidInput("The store is full".to_owned()));
                }
                match self.filesystem.write_file(name.as_str(), content) {
                    Ok(()) => Ok(Outcome::Written),
                    Err(e) => Err(e),
                }
            },
            Command::Read { name } => match self.filesystem.read_file(name.as_str()) {
                Ok(c) => Ok(Outcome::Content(c.to_owned())),
                Err(e) => Err(e),
            },
            Command::List => Ok(Outcome::Listed),
            Command::Delete { target } => {
                let result = match parse_id(target.as_str()) {
                    Some(id) => self.filesystem.delete_file_by_id(id),
                    None => self.filesystem.delete_file(target.as_str()),
                };
                match result {
                    Ok(()) => Ok(Outcome::Deleted),
                    Err(e) => Err(e),
                }
            },
            Command::Info { target } => {
                let found = match parse_id(target.as_str()) {
                    Some(id) => self.filesystem.get_file_by_id(id),
                    None => self.filesystem.get_file(target.as_str()),
                };
                match found {
                    Ok(f) => Ok(Outcome::Found(f.id)),
                    Err(e) => Err(e),
                }
            },
            Command::Stats => Ok(Outcome::Stats(stats(&self.filesystem))),
            Command::Help => Ok(Outcome::Help),
            Command::Quit => Ok(Outcome::Quit),
        }
    }
}

} // verus!
