use moin_dm::catalog::{
    available_setups, format_by_name, parse_setup, read_entry, CatalogError, EntryKind,
    SessionEntry, SetupFormat,
};
use moin_dm::setup::{ParseError, Setup};

fn file(name: &str, content: &[u8]) -> SessionEntry {
    SessionEntry { name: String::from(name), kind: EntryKind::File, content: Some(content.to_vec()) }
}

fn setup(name: &str, command: &str) -> Setup {
    Setup::new(String::from(name), Some(String::from(command)))
}

#[test]
fn a_missing_sessions_directory_is_the_one_failure() {
    assert_eq!(available_setups(None), Err(CatalogError::DirectoryMissing));
}

#[test]
fn an_empty_directory_gives_an_empty_catalog() {
    assert_eq!(available_setups(Some(vec![])), Ok(vec![]));
}

#[test]
fn one_valid_and_one_malformed_file_give_one_setup() {
    let listing = vec![
        file("broken", b"name = \n"),
        file("i3", b"name = 'i3'\ncommand = 'startx /usr/bin/i3'\n"),
    ];
    assert_eq!(available_setups(Some(listing)), Ok(vec![setup("i3", "startx /usr/bin/i3")]));
}

#[test]
fn one_valid_and_one_malformed_desktop_entry_give_one_setup() {
    let listing = vec![
        file("sway.desktop", b"[Desktop Entry]\nName=Sway\nExec=sway\n"),
        file("broken.desktop", b"[Desktop Entry]\nExec=sway\n"),
    ];
    assert_eq!(available_setups(Some(listing)), Ok(vec![setup("Sway", "sway")]));
}

#[test]
fn only_malformed_files_give_an_empty_catalog() {
    let listing = vec![file("a", b"???"), file("b.desktop", b"???")];
    assert_eq!(available_setups(Some(listing)), Ok(vec![]));
}

#[test]
fn the_catalog_keeps_the_order_of_the_listing() {
    let listing = vec![
        file("z", b"name = 'Z'\ncommand = 'z'\n"),
        file("a.desktop", b"[Desktop Entry]\nName=A\nExec=a\n"),
        file("m", b"name = 'M'\ncommand = 'm'\n"),
    ];
    assert_eq!(
        available_setups(Some(listing)),
        Ok(vec![setup("Z", "z"), setup("A", "a"), setup("M", "m")])
    );
}

#[test]
fn two_files_may_give_the_same_setup() {
    let listing = vec![
        file("one", b"name = 'X'\ncommand = 'x'\n"),
        file("two", b"name = 'X'\ncommand = 'x'\n"),
    ];
    assert_eq!(available_setups(Some(listing)), Ok(vec![setup("X", "x"), setup("X", "x")]));
}

#[test]
fn directories_and_special_files_are_skipped() {
    let valid = b"name = 'X'\ncommand = 'x'\n";
    let listing = vec![
        SessionEntry {
            name: String::from("dir"),
            kind: EntryKind::Directory,
            content: Some(valid.to_vec()),
        },
        SessionEntry {
            name: String::from("socket"),
            kind: EntryKind::Other,
            content: Some(valid.to_vec()),
        },
        SessionEntry { name: String::from("dir2"), kind: EntryKind::Directory, content: None },
        file("file", valid),
    ];
    assert_eq!(available_setups(Some(listing)), Ok(vec![setup("X", "x")]));
}

#[test]
fn files_that_cannot_be_read_are_skipped() {
    let listing = vec![
        SessionEntry { name: String::from("locked"), kind: EntryKind::File, content: None },
        file("open", b"name = 'X'\ncommand = 'x'\n"),
    ];
    assert_eq!(available_setups(Some(listing)), Ok(vec![setup("X", "x")]));
}

#[test]
fn the_catalog_does_not_add_the_fallback() {
    let setups = available_setups(Some(vec![file("a", b"name = 'A'\ncommand = 'a'\n")])).unwrap();
    assert_eq!(setups.len(), 1);
    assert!(setups.iter().all(|s| s.name() != "Command Line"));
}

#[test]
fn the_name_of_a_file_tells_its_format() {
    assert_eq!(format_by_name("sway.desktop"), SetupFormat::DesktopEntry);
    assert_eq!(format_by_name(".desktop"), SetupFormat::DesktopEntry);
    assert_eq!(format_by_name("größe.desktop"), SetupFormat::DesktopEntry);
    assert_eq!(format_by_name("sway"), SetupFormat::Structured);
    assert_eq!(format_by_name("sway.toml"), SetupFormat::Structured);
    assert_eq!(format_by_name("sway.desktop.bak"), SetupFormat::Structured);
    assert_eq!(format_by_name("sway.Desktop"), SetupFormat::Structured);
    assert_eq!(format_by_name("desktop"), SetupFormat::Structured);
    assert_eq!(format_by_name(""), SetupFormat::Structured);
}

#[test]
fn a_file_is_read_in_the_format_of_its_name() {
    let toml = b"name = 'T'\ncommand = 't'\n";
    let desktop = b"[Desktop Entry]\nName=D\nExec=d\n";
    assert_eq!(read_entry(&file("t", toml)), Some(setup("T", "t")));
    assert_eq!(read_entry(&file("d.desktop", desktop)), Some(setup("D", "d")));
    assert_eq!(read_entry(&file("t.desktop", toml)), None);
    assert_eq!(read_entry(&file("d", desktop)), None);
}

#[test]
fn parse_setup_reads_either_format() {
    assert_eq!(
        parse_setup(SetupFormat::Structured, b"name = 'T'\ncommand = 't'\n"),
        Ok(setup("T", "t"))
    );
    assert_eq!(
        parse_setup(SetupFormat::DesktopEntry, b"[Desktop Entry]\nName=D\nExec=d\n"),
        Ok(setup("D", "d"))
    );
    assert_eq!(
        parse_setup(SetupFormat::DesktopEntry, b"name = 'T'\ncommand = 't'\n"),
        Err(ParseError::MissingName)
    );
    assert_eq!(
        parse_setup(SetupFormat::Structured, b"[Desktop Entry]\nName=D\nExec=d\n"),
        Err(ParseError::Malformed)
    );
}
