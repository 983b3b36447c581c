//! The catalog of setups: what the files of the sessions directory give.
//!
//! The caller lists the directory `sessions` below the configuration
//! directory and hands over what it found; the catalog reads each regular
//! file by itself and keeps the setups that could be read, in the order of
//! the listing.

use crate::desktop_entry::{desktop_setup, parse_desktop_entry};
use crate::setup::{ParseError, Setup, SetupView};
use crate::structured::{parse_structured, structured_setup};
use crate::views::{opt_view, views_of};
use vstd::prelude::*;
use vstd::string::*;

verus! {

/// The name of the directory, below the configuration directory, that holds
/// one file for each setup.
pub const SESSIONS_DIRECTORY: &'static str = "sessions";

/// The ending of the name of a file in the desktop-entry format.
pub const DESKTOP_SUFFIX: &'static str = ".desktop";

/// What an entry of a directory is, once links have been followed.
#[derive(Clone, Copy, Debug, PartialEq, Eq, Structural)]
pub enum EntryKind {
    /// A regular file.
    File,
    /// A directory.
    Directory,
    /// Anything else, such as a socket or a device.
    Other,
}

/// The format of a setup file.
#[derive(Clone, Copy, Debug, PartialEq, Eq, Structural)]
pub enum SetupFormat {
    /// A TOML document with the keys `command`, `name` and `comment`.
    Structured,
    /// A desktop entry with the keys `Name` and `Exec`.
    DesktopEntry,
}

/// Why there is no catalog.
#[derive(Clone, Copy, Debug, PartialEq, Eq, Structural)]
pub enum CatalogError {
    /// The sessions directory does not exist or is no directory.
    DirectoryMissing,
}

/// One entry of the sessions directory.
#[derive(Debug, PartialEq, Eq)]
pub struct SessionEntry {
    /// The name of the entry within the directory.
    pub name: String,
    /// What the entry is.
    pub kind: EntryKind,
    /// What the file holds; `None` where it could not be read.
    pub content: Option<Vec<u8>>,
}

/// What a [`SessionEntry`] holds, as plain values.
pub struct SessionEntryView {
    pub name: Seq<char>,
    pub kind: EntryKind,
    pub content: Option<Seq<u8>>,
}

impl View for SessionEntry {
    type V = SessionEntryView;

    open spec fn view(&self) -> SessionEntryView {
        SessionEntryView { name: self.name@, kind: self.kind, content: opt_view(self.content) }
    }
}

/// Whether `text` ends with `suffix`.
pub open spec fn ends_with(text: Seq<char>, suffix: Seq<char>) -> bool {
    text.len() >= suffix.len() && text.subrange(text.len() - suffix.len(), text.len() as int)
        == suffix
}

/// The format of the file called `name`: a desktop entry where the name
/// ends with `.desktop`, and a structured file otherwise.
pub open spec fn format_of(name: Seq<char>) -> SetupFormat {
    if ends_with(name, DESKTOP_SUFFIX@) {
        SetupFormat::DesktopEntry
    } else {
        SetupFormat::Structured
    }
}

/// The setup that a file of the given format describes, or why it
/// describes none.
pub open spec fn setup_in_format(format: SetupFormat, bytes: Seq<u8>) -> Result<
    SetupView,
    ParseError,
> {
    match format {
        SetupFormat::Structured => structured_setup(bytes),
        SetupFormat::DesktopEntry => desktop_setup(bytes),
    }
}

/// The setup that one entry of the directory gives, if it gives one: the
/// entry must be a regular file that could be read and that describes a
/// setup in the format that its name stands for.
pub open spec fn setup_of_entry(entry: SessionEntryView) -> Option<SetupView> {
    match entry.content {
        Some(bytes) => if entry.kind == EntryKind::File {
            match setup_in_format(format_of(entry.name), bytes) {
                Ok(setup) => Some(setup),
                Err(_) => None,
            }
        } else {
            None
        },
        None => None,
    }
}

/// The setups that the entries give, in the order of the entries; an entry
/// that gives none leaves no trace.
pub open spec fn setups_of(entries: Seq<SessionEntryView>) -> Seq<SetupView>
    decreases entries.len(),
{
    if entries.len() == 0 {
        Seq::<SetupView>::empty()
    } else {
        let before = setups_of(entries.drop_last());
        match setup_of_entry(entries.last()) {
            Some(setup) => before.push(setup),
            None => before,
        }
    }
}

/// Tells the format of a setup file by its name.
pub fn format_by_name(name: &str) -> (r: SetupFormat)
    ensures
        r == format_of(name@),
{
    let suffix = DESKTOP_SUFFIX;
    let n = name.unicode_len();
    let m = suffix.unicode_len();
    if n < m {
        return SetupFormat::Structured;
    }
    let ending = String::from_str(name.substring_char(n - m, n));
    let wanted = String::from_str(suffix);
    if ending == wanted {
        SetupFormat::DesktopEntry
    } else {
        SetupFormat::Structured
    }
}

/// Reads a setup from a file of the given format.
pub fn parse_setup(format: SetupFormat, bytes: &[u8]) -> (r: Result<Setup, ParseError>)
    ensures
        match r {
            Ok(setup) => setup_in_format(format, bytes@) == Ok::<SetupView, ParseError>(setup@),
            Err(e) => setup_in_format(format, bytes@) == Err::<SetupView, ParseError>(e),
        },
{
    match format {
        SetupFormat::Structured => parse_structured(bytes),
        SetupFormat::DesktopEntry => parse_desktop_entry(bytes),
    }
}

/// Reads the setup that one entry of the directory gives, if it gives one.
pub fn read_entry(entry: &SessionEntry) -> (r: Option<Setup>)
    ensures
        opt_view(r) == setup_of_entry(entry@),
{
    match &entry.content {
        Some(bytes) => match entry.kind {
            EntryKind::File => match parse_setup(
                format_by_name(entry.name.as_str()),
                bytes.as_slice(),
            ) {
                Ok(setup) => Some(setup),
                Err(_) => None,
            },
            _ => None,
        },
        None => None,
    }
}

/// The setups of the sessions directory.
///
/// `listing` is what the directory holds, entry by entry as it was listed,
/// or `None` where there is no such directory. A missing directory is the
/// one failure; a file that cannot be read as a setup is passed over, so
/// the catalog may hold fewer setups than the directory holds files, or
/// none.
pub fn available_setups(listing: Option<Vec<SessionEntry>>) -> (r: Result<
    Vec<Setup>,
    CatalogError,
>)
    ensures
        match listing {
            Some(entries) => r matches Ok(setups) && views_of(setups@) == setups_of(
                views_of(entries@),
            ),
            None => r == Err::<Vec<Setup>, CatalogError>(CatalogError::DirectoryMissing),
        },
{
    let entries = match listing {
        Some(entries) => entries,
        None => {
            return Err(CatalogError::DirectoryMissing);
        },
    };
    let mut setups: Vec<Setup> = Vec::new();
    let mut i: usize = 0;
    assert(views_of(entries@).take(0) =~= Seq::<SessionEntryView>::empty());
    assert(views_of(setups@) =~= Seq::<SetupView>::empty());
    while i < entries.len()
        invariant
            i <= entries.len(),
            views_of(setups@) == setups_of(views_of(entries@).take(i as int)),
        decreases entries.len() - i,
    {
        proof {
            let upto = views_of(entries@).take(i + 1);
            assert(upto.drop_last() =~= views_of(entries@).take(i as int));
            assert(upto.last() == entries@[i as int]@);
        }
        let ghost before = views_of(setups@);
        match read_entry(&entries[i]) {
            Some(setup) => {
                let ghost added = setup@;
                setups.push(setup);
                assert(views_of(setups@) =~= before.push(added));
            },
            None => {},
        }
        i += 1;
    }
    assert(views_of(entries@).take(i as int) =~= views_of(entries@));
    Ok(setups)
}

/// Each entry is read by itself, and the order of the entries is kept: the
/// setups of two listings put one after the other are the setups of the
/// first followed by those of the second.
pub proof fn lemma_entries_are_read_alone(first: Seq<SessionEntryView>, second: Seq<SessionEntryView>)
    ensures
        setups_of(first + second) == setups_of(first) + setups_of(second),
    decreases second.len(),
{
    if second.len() == 0 {
        assert(first + second =~= first);
        assert(setups_of(first) + setups_of(second) =~= setups_of(first));
    } else {
        let all = first + second;
        assert(all.drop_last() =~= first + second.drop_last());
        assert(all.last() == second.last());
        lemma_entries_are_read_alone(first, second.drop_last());
        match setup_of_entry(second.last()) {
            Some(setup) => {
                assert(setups_of(all) =~= setups_of(first) + setups_of(second));
            },
            None => {},
        }
    }
}

/// An entry gives one setup at most, so a catalog is never longer than its
/// listing.
pub proof fn lemma_catalog_is_no_longer_than_listing(entries: Seq<SessionEntryView>)
    ensures
        setups_of(entries).len() <= entries.len(),
    decreases entries.len(),
{
    if entries.len() > 0 {
        lemma_catalog_is_no_longer_than_listing(entries.drop_last());
    }
}

} // verus!
