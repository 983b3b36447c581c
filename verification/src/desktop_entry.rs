//! Setup files in the desktop-entry format.
//!
//! Such a file is read line by line. Blanks at either end of a line do not
//! count. A line in square brackets opens a group; a line with an equals sign
//! gives a key its value; empty lines and lines that start with `#` say
//! nothing. Only the group `Desktop Entry` is read: its key `Name` is the
//! setup's name and its key `Exec` the setup's command.

use crate::setup::{normal_command, ParseError, Setup, SetupView};
use crate::text::{
    bytes_equal, find_byte, position_of, split_bytes, split_on, text_of_bytes, trim, trim_bytes,
    trim_end, trim_end_bytes, trim_start, trim_start_bytes,
};
use crate::views::views_of;
use vstd::prelude::*;
use vstd::slice::*;
use vstd::string::*;
use vstd::utf8::*;

verus! {

/// The byte that ends a line.
pub const NEWLINE: u8 = 0x0a;

/// The byte that opens a group's name.
pub const BRACKET_OPEN: u8 = 0x5b;

/// The byte that closes a group's name.
pub const BRACKET_CLOSE: u8 = 0x5d;

/// The byte that starts a comment.
pub const HASH: u8 = 0x23;

/// The byte between a key and its value.
pub const EQUALS: u8 = 0x3d;

/// The one group that is read.
pub const MAIN_GROUP: &'static str = "Desktop Entry";

/// The key that holds the setup's name.
pub const NAME_KEY: &'static str = "Name";

/// The key that holds the setup's command.
pub const COMMAND_KEY: &'static str = "Exec";

/// The name of the group that `line` opens, if it opens one. The line is
/// taken without the blanks at its ends.
pub open spec fn header_name(line: Seq<u8>) -> Option<Seq<u8>> {
    if line.len() >= 2 && line[0] == BRACKET_OPEN && line.last() == BRACKET_CLOSE {
        Some(line.subrange(1, line.len() - 1))
    } else {
        None
    }
}

/// Whether `line` says nothing: it is empty or a comment.
pub open spec fn is_silent(line: Seq<u8>) -> bool {
    line.len() == 0 || line[0] == HASH
}

/// The key and the value that `line` gives, if it gives any: the key is
/// what stands before the first equals sign and the value what stands after
/// it, both without the blanks around them.
pub open spec fn entry_of(line: Seq<u8>) -> Option<(Seq<u8>, Seq<u8>)> {
    let at = position_of(line, EQUALS);
    if is_silent(line) || header_name(line) is Some || at >= line.len() {
        None
    } else {
        Some((trim_end(line.subrange(0, at)), trim_start(line.subrange(at + 1, line.len() as int))))
    }
}

/// Whether line `i` lies in the group that is read: the nearest line above
/// it that opens a group opens that one.
pub open spec fn in_main_group(lines: Seq<Seq<u8>>, i: int) -> bool
    decreases i,
{
    if i <= 0 || i > lines.len() {
        false
    } else {
        match header_name(trim(lines[i - 1])) {
            Some(group) => group == encode_utf8(MAIN_GROUP@),
            None => in_main_group(lines, i - 1),
        }
    }
}

/// The value that line `i` gives to `key`, if it gives it one.
pub open spec fn value_at(lines: Seq<Seq<u8>>, i: int, key: Seq<u8>) -> Option<Seq<u8>> {
    if 0 <= i < lines.len() && in_main_group(lines, i) {
        match entry_of(trim(lines[i])) {
            Some((k, v)) => if k == key {
                Some(v)
            } else {
                None
            },
            None => None,
        }
    } else {
        None
    }
}

/// The value of `key` from line `from` on: the first that a line gives it.
pub open spec fn value_from(lines: Seq<Seq<u8>>, key: Seq<u8>, from: int) -> Option<Seq<u8>>
    decreases lines.len() - from,
{
    if from < 0 || from >= lines.len() {
        None
    } else {
        match value_at(lines, from, key) {
            Some(v) => Some(v),
            None => value_from(lines, key, from + 1),
        }
    }
}

/// The value that the file `bytes` gives to `key`.
pub open spec fn value_of(bytes: Seq<u8>, key: Seq<char>) -> Option<Seq<u8>> {
    value_from(split_on(bytes, NEWLINE), encode_utf8(key), 0)
}

/// The setup that the file `bytes` describes, or why it describes none.
pub open spec fn desktop_setup(bytes: Seq<u8>) -> Result<SetupView, ParseError> {
    match value_of(bytes, NAME_KEY@) {
        None => Err(ParseError::MissingName),
        Some(name) => match value_of(bytes, COMMAND_KEY@) {
            None => Err(ParseError::MissingCommand),
            Some(command) => if valid_utf8(name) && valid_utf8(command) {
                Ok(
                    SetupView {
                        name: decode_utf8(name),
                        command: normal_command(Some(decode_utf8(command))),
                        comment: None,
                    },
                )
            } else {
                Err(ParseError::NotText)
            },
        },
    }
}

/// The name of the group that `line` opens, if it opens one.
pub fn group_header<'a>(line: &'a [u8]) -> (r: Option<&'a [u8]>)
    ensures
        r matches Some(g) ==> header_name(line@) == Some(g@),
        r is None ==> header_name(line@) is None,
{
    let n = line.len();
    if n >= 2 && line[0] == BRACKET_OPEN && line[n - 1] == BRACKET_CLOSE {
        Some(slice_subrange(line, 1, n - 1))
    } else {
        None
    }
}

/// The key and the value that `line` gives, if it gives any.
pub fn key_and_value<'a>(line: &'a [u8]) -> (r: Option<(&'a [u8], &'a [u8])>)
    ensures
        r matches Some(kv) ==> entry_of(line@) == Some((kv.0@, kv.1@)),
        r is None ==> entry_of(line@) is None,
{
    let n = line.len();
    if n == 0 || line[0] == HASH {
        return None;
    }
    if group_header(line).is_some() {
        return None;
    }
    let at = find_byte(line, EQUALS);
    if at >= n {
        return None;
    }
    let key = trim_end_bytes(slice_subrange(line, 0, at));
    let value = trim_start_bytes(slice_subrange(line, at + 1, n));
    Some((key, value))
}

/// Reads a setup from a file in the desktop-entry format.
pub fn parse_desktop_entry(bytes: &[u8]) -> (r: Result<Setup, ParseError>)
    ensures
        match r {
            Ok(setup) => desktop_setup(bytes@) == Ok::<SetupView, ParseError>(setup@),
            Err(e) => desktop_setup(bytes@) == Err::<SetupView, ParseError>(e),
        },
{
    let lines = split_bytes(bytes, NEWLINE);
    let ghost all = views_of(lines@);
    let name_key = NAME_KEY.as_bytes();
    let command_key = COMMAND_KEY.as_bytes();
    let mut inside = false;
    let mut name: Option<Vec<u8>> = None;
    let mut command: Option<Vec<u8>> = None;
    let mut i: usize = 0;
    while i < lines.len()
        invariant
            i <= lines.len(),
            all == views_of(lines@),
            name_key@ == encode_utf8(NAME_KEY@),
            command_key@ == encode_utf8(COMMAND_KEY@),
            inside == in_main_group(all, i as int),
            value_from(all, name_key@, 0) == match name {
                Some(n) => Some(n@),
                None => value_from(all, name_key@, i as int),
            },
            value_from(all, command_key@, 0) == match command {
                Some(c) => Some(c@),
                None => value_from(all, command_key@, i as int),
            },
        decreases lines.len() - i,
    {
        let line = trim_bytes(lines[i].as_slice());
        assert(line@ == trim(all[i as int]));
        match group_header(line) {
            Some(group) => {
                inside = bytes_equal(group, MAIN_GROUP.as_bytes());
            },
            None => {
                if inside {
                    match key_and_value(line) {
                        Some((key, value)) => {
                            if name.is_none() && bytes_equal(key, name_key) {
                                name = Some(slice_to_vec(value));
                            }
                            if command.is_none() && bytes_equal(key, command_key) {
                                command = Some(slice_to_vec(value));
                            }
                        },
                        None => {},
                    }
                }
            },
        }
        i += 1;
    }
    match name {
        None => Err(ParseError::MissingName),
        Some(name) => match command {
            None => Err(ParseError::MissingCommand),
            Some(command) => match text_of_bytes(name) {
                None => Err(ParseError::NotText),
                Some(name) => match text_of_bytes(command) {
                    None => Err(ParseError::NotText),
                    Some(command) => Ok(Setup::new(name, Some(command))),
                },
            },
        },
    }
}

/// The value of a key is that of the first line that gives it one: where
/// the key has a value, some line gives it, and no line before that one
/// gives the key anything; where it has none, no line gives it anything.
pub proof fn lemma_first_value_counts(lines: Seq<Seq<u8>>, key: Seq<u8>, from: int)
    requires
        0 <= from,
    ensures
        match value_from(lines, key, from) {
            Some(value) => exists|at: int|
                from <= at < lines.len() && #[trigger] value_at(lines, at, key) == Some(value)
                    && forall|before: int|
                    from <= before < at ==> value_at(lines, before, key) is None,
            None => forall|at: int| from <= at < lines.len() ==> value_at(lines, at, key) is None,
        },
    decreases lines.len() - from,
{
    if from < lines.len() {
        match value_at(lines, from, key) {
            Some(value) => {
                assert(value_at(lines, from, key) == Some(value));
            },
            None => {
                lemma_first_value_counts(lines, key, from + 1);
                match value_from(lines, key, from + 1) {
                    Some(value) => {
                        let at = choose|at: int|
                            from + 1 <= at < lines.len() && #[trigger] value_at(lines, at, key)
                                == Some(value) && forall|before: int|
                                from + 1 <= before < at ==> value_at(lines, before, key) is None;
                        assert(value_at(lines, at, key) == Some(value));
                        assert forall|before: int| from <= before < at implies value_at(
                            lines,
                            before,
                            key,
                        ) is None by {}
                    },
                    None => {},
                }
            },
        }
    }
}

/// A file that describes a setup gives it, as its name, the text of its
/// `Name` key, letter for letter.
pub proof fn lemma_desktop_name_is_kept(bytes: Seq<u8>)
    requires
        desktop_setup(bytes) is Ok,
    ensures
        value_of(bytes, NAME_KEY@) matches Some(name) && valid_utf8(name) && desktop_setup(
            bytes,
        )->Ok_0.name == decode_utf8(name),
{
}

/// A file that describes a setup gives it no command where its `Exec` key
/// is empty, and else the text of that key, letter for letter.
pub proof fn lemma_desktop_command_is_kept(bytes: Seq<u8>)
    requires
        desktop_setup(bytes) is Ok,
    ensures
        value_of(bytes, COMMAND_KEY@) matches Some(command) && valid_utf8(command) && if command.len()
            == 0 {
            desktop_setup(bytes)->Ok_0.command is None
        } else {
            desktop_setup(bytes)->Ok_0.command == Some(decode_utf8(command))
        },
{
    let command = value_of(bytes, COMMAND_KEY@)->Some_0;
    if command.len() > 0 {
        assert(decode_utf8(command).len() > 0);
    }
}

} // verus!
