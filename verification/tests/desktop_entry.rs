use moin_dm::desktop_entry::{group_header, key_and_value, parse_desktop_entry};
use moin_dm::setup::ParseError;

#[test]
fn a_desktop_entry_gives_name_and_command() {
    let setup = parse_desktop_entry(b"[Desktop Entry]\nName=Sway\nExec=sway\n").unwrap();
    assert_eq!(setup.name(), "Sway");
    assert_eq!(setup.command_text(), Some("sway"));
    assert_eq!(setup.comment(), None);
}

#[test]
fn an_empty_exec_is_no_command() {
    let setup = parse_desktop_entry(b"[Desktop Entry]\nName=Shell\nExec=\n").unwrap();
    assert_eq!(setup.name(), "Shell");
    assert_eq!(setup.command_text(), None);
}

#[test]
fn an_exec_of_blanks_is_no_command() {
    let setup = parse_desktop_entry(b"[Desktop Entry]\nName=Shell\nExec =  \t\n").unwrap();
    assert_eq!(setup.command_text(), None);
}

#[test]
fn a_non_empty_exec_is_kept_letter_for_letter() {
    let setup =
        parse_desktop_entry(b"[Desktop Entry]\nName=X\nExec=startx  /usr/bin/i3 -- :1 = yes\n")
            .unwrap();
    assert_eq!(setup.command_text(), Some("startx  /usr/bin/i3 -- :1 = yes"));
}

#[test]
fn the_name_is_kept_letter_for_letter() {
    let setup = parse_desktop_entry(
        "[Desktop Entry]\nName=Größe [α] = 2 # kein Kommentar\nExec=x\n".as_bytes(),
    )
    .unwrap();
    assert_eq!(setup.name(), "Größe [α] = 2 # kein Kommentar");
}

#[test]
fn an_empty_name_is_a_name() {
    let setup = parse_desktop_entry(b"[Desktop Entry]\nName=\nExec=x\n").unwrap();
    assert_eq!(setup.name(), "");
}

#[test]
fn a_missing_name_fails_the_file() {
    assert_eq!(
        parse_desktop_entry(b"[Desktop Entry]\nExec=sway\n"),
        Err(ParseError::MissingName)
    );
    assert_eq!(parse_desktop_entry(b""), Err(ParseError::MissingName));
}

#[test]
fn a_missing_exec_fails_the_file() {
    assert_eq!(
        parse_desktop_entry(b"[Desktop Entry]\nName=Sway\n"),
        Err(ParseError::MissingCommand)
    );
}

#[test]
fn a_name_that_is_no_text_fails_the_file() {
    assert_eq!(
        parse_desktop_entry(b"[Desktop Entry]\nName=\xff\xfe\nExec=x\n"),
        Err(ParseError::NotText)
    );
    assert_eq!(
        parse_desktop_entry(b"[Desktop Entry]\nName=x\nExec=\xc3\n"),
        Err(ParseError::NotText)
    );
}

#[test]
fn keys_before_the_group_are_not_read() {
    assert_eq!(parse_desktop_entry(b"Name=Early\nExec=x\n"), Err(ParseError::MissingName));
    let setup =
        parse_desktop_entry(b"Name=Early\n[Desktop Entry]\nName=Right\nExec=x\n").unwrap();
    assert_eq!(setup.name(), "Right");
}

#[test]
fn keys_of_other_groups_are_not_read() {
    let file = b"[Desktop Action New]\nName=Other\nExec=other\n[Desktop Entry]\nName=Main\nExec=main\n[Desktop Action Old]\nName=Late\n";
    let setup = parse_desktop_entry(file).unwrap();
    assert_eq!(setup.name(), "Main");
    assert_eq!(setup.command_text(), Some("main"));
    assert_eq!(
        parse_desktop_entry(b"[Desktop Entry]\nName=Main\n[Other]\nExec=x\n"),
        Err(ParseError::MissingCommand)
    );
}

#[test]
fn the_group_may_be_opened_again() {
    let setup =
        parse_desktop_entry(b"[Desktop Entry]\nName=A\n[Other]\nExec=no\n[Desktop Entry]\nExec=yes\n")
            .unwrap();
    assert_eq!(setup.name(), "A");
    assert_eq!(setup.command_text(), Some("yes"));
}

#[test]
fn the_first_value_of_a_key_counts() {
    let setup =
        parse_desktop_entry(b"[Desktop Entry]\nName=First\nName=Second\nExec=a\nExec=b\n").unwrap();
    assert_eq!(setup.name(), "First");
    assert_eq!(setup.command_text(), Some("a"));
}

#[test]
fn other_keys_are_other_keys() {
    let file = b"[Desktop Entry]\nName[de]=Deutsch\nGenericName=Generic\nTryExec=try\nname=lower\nName=Right\nExec=x\n";
    let setup = parse_desktop_entry(file).unwrap();
    assert_eq!(setup.name(), "Right");
    assert_eq!(setup.command_text(), Some("x"));
}

#[test]
fn comments_and_empty_lines_say_nothing() {
    let file = b"# Name=Comment\n\n[Desktop Entry]\n  # Exec=comment\n\nName=N\n\t\nExec=e\n";
    let setup = parse_desktop_entry(file).unwrap();
    assert_eq!(setup.name(), "N");
    assert_eq!(setup.command_text(), Some("e"));
}

#[test]
fn blanks_around_lines_keys_and_values_do_not_count() {
    let file = b"  [Desktop Entry]\t\r\n\tName \t=  My Setup \r\n Exec=\trun it\t\r\n";
    let setup = parse_desktop_entry(file).unwrap();
    assert_eq!(setup.name(), "My Setup");
    assert_eq!(setup.command_text(), Some("run it"));
}

#[test]
fn the_last_line_needs_no_newline() {
    let setup = parse_desktop_entry(b"[Desktop Entry]\nName=N\nExec=e").unwrap();
    assert_eq!(setup.command_text(), Some("e"));
}

#[test]
fn the_name_of_the_group_is_exact() {
    assert_eq!(
        parse_desktop_entry(b"[ Desktop Entry ]\nName=N\nExec=e\n"),
        Err(ParseError::MissingName)
    );
    assert_eq!(
        parse_desktop_entry(b"[desktop entry]\nName=N\nExec=e\n"),
        Err(ParseError::MissingName)
    );
}

#[test]
fn lines_without_equals_sign_are_passed_over() {
    let setup = parse_desktop_entry(b"[Desktop Entry]\nrubbish\nName=N\nExec=e\n").unwrap();
    assert_eq!(setup.name(), "N");
}

#[test]
fn a_group_header_is_a_line_in_brackets() {
    assert_eq!(group_header(b"[Desktop Entry]"), Some(&b"Desktop Entry"[..]));
    assert_eq!(group_header(b"[]"), Some(&b""[..]));
    assert_eq!(group_header(b"[a]b]"), Some(&b"a]b"[..]));
    assert_eq!(group_header(b"["), None);
    assert_eq!(group_header(b"[x"), None);
    assert_eq!(group_header(b"x]"), None);
    assert_eq!(group_header(b""), None);
}

#[test]
fn a_line_with_equals_sign_gives_key_and_value() {
    assert_eq!(key_and_value(b"Name=Sway"), Some((&b"Name"[..], &b"Sway"[..])));
    assert_eq!(key_and_value(b"Name = a = b"), Some((&b"Name"[..], &b"a = b"[..])));
    assert_eq!(key_and_value(b"=v"), Some((&b""[..], &b"v"[..])));
    assert_eq!(key_and_value(b"k="), Some((&b"k"[..], &b""[..])));
}

#[test]
fn silent_lines_and_headers_give_no_key() {
    assert_eq!(key_and_value(b""), None);
    assert_eq!(key_and_value(b"# a=b"), None);
    assert_eq!(key_and_value(b"[a=b]"), None);
    assert_eq!(key_and_value(b"no equals sign"), None);
}
