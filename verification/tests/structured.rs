use moin_dm::setup::{ParseError, Setup};
use moin_dm::structured::{parse_structured, setup_from_fields, Field};

fn text(t: &str) -> Field {
    Field::Text(String::from(t))
}

#[test]
fn a_structured_file_gives_name_and_command() {
    let setup = parse_structured(b"command = \"startx /usr/bin/i3\"\nname = \"i3\"\n").unwrap();
    assert_eq!(setup.name(), "i3");
    assert_eq!(setup.command_text(), Some("startx /usr/bin/i3"));
}

#[test]
fn a_structured_file_may_have_a_comment() {
    let setup = parse_structured(
        b"name = 'Sway'\ncommand = 'sway'\ncomment = 'A tiling compositor'\n",
    )
    .unwrap();
    assert_eq!(setup.name(), "Sway");
    assert_eq!(setup.command_text(), Some("sway"));
    assert_eq!(setup.comment(), Some("A tiling compositor"));
}

#[test]
fn a_structured_file_without_comment_has_none() {
    let setup = parse_structured(b"name = 'Sway'\ncommand = 'sway'\n").unwrap();
    assert_eq!(setup.comment(), None);
    let setup = parse_structured(b"name = 'Sway'\ncommand = 'sway'\ncomment = ''\n").unwrap();
    assert_eq!(setup.comment(), Some(""));
}

#[test]
fn the_structured_name_is_kept_letter_for_letter() {
    let setup =
        parse_structured("name = \"Größe \\\"α\\\" = 2\"\ncommand = \"x\"\n".as_bytes()).unwrap();
    assert_eq!(setup.name(), "Größe \"α\" = 2");
}

#[test]
fn each_key_is_read_for_itself() {
    let setup = parse_structured(b"comment = 'c'\nname = 'n'\ncommand = 'm'\n").unwrap();
    assert_eq!(setup.name(), "n");
    assert_eq!(setup.command_text(), Some("m"));
}

#[test]
fn an_empty_structured_command_is_no_command() {
    let setup = parse_structured(b"name = 'Shell'\ncommand = ''\n").unwrap();
    assert_eq!(setup.command_text(), None);
}

#[test]
fn unknown_keys_are_passed_over() {
    let setup = parse_structured(b"name = 'n'\ncommand = 'c'\nicon = 'i'\nweight = 3\n").unwrap();
    assert_eq!(setup.name(), "n");
}

#[test]
fn a_file_without_name_has_no_name() {
    assert_eq!(parse_structured(b"command = 'c'\n"), Err(ParseError::MissingName));
    assert_eq!(parse_structured(b""), Err(ParseError::MissingName));
}

#[test]
fn a_file_without_command_has_no_command() {
    assert_eq!(parse_structured(b"name = 'n'\n"), Err(ParseError::MissingCommand));
}

#[test]
fn a_name_that_is_a_number_is_no_text() {
    assert_eq!(parse_structured(b"name = 3\ncommand = 'c'\n"), Err(ParseError::NotText));
}

#[test]
fn a_command_that_is_a_list_is_no_text() {
    assert_eq!(
        parse_structured(b"name = 'n'\ncommand = ['a', 'b']\n"),
        Err(ParseError::NotText)
    );
}

#[test]
fn a_comment_that_is_no_text_fails_the_file() {
    assert_eq!(
        parse_structured(b"name = 'n'\ncommand = 'c'\ncomment = true\n"),
        Err(ParseError::NotText)
    );
}

#[test]
fn what_is_no_toml_is_malformed() {
    assert_eq!(parse_structured(b"name = \n"), Err(ParseError::Malformed));
    assert_eq!(parse_structured(b"name 'n'"), Err(ParseError::Malformed));
    assert_eq!(
        parse_structured(b"name = 'a'\nname = 'b'\ncommand = 'c'\n"),
        Err(ParseError::Malformed)
    );
}

#[test]
fn what_is_no_utf8_is_malformed() {
    assert_eq!(
        parse_structured(b"name = '\xff'\ncommand = 'c'\n"),
        Err(ParseError::Malformed)
    );
}

fn nested(arrays: usize) -> Vec<u8> {
    let mut file = b"name = 'n'\ncommand = 'c'\ndeep = ".to_vec();
    file.extend(std::iter::repeat(b'[').take(arrays));
    file.extend(std::iter::repeat(b']').take(arrays));
    file.push(b'\n');
    file
}

#[test]
fn dots_and_brackets_in_text_do_not_count_as_nesting() {
    let mut file = b"name = 'n'\ncommand = '".to_vec();
    file.extend(std::iter::repeat(b'.').take(65));
    file.extend_from_slice(b"'\n");
    let setup = parse_structured(&file).unwrap();
    assert_eq!(setup.name(), "n");
    assert_eq!(setup.command_text().map(str::len), Some(65));

    let mut file = b"name = \"n\"\ncommand = \"c\"\ncomment = \"".to_vec();
    file.extend(std::iter::repeat(b'[').take(1000));
    file.extend(std::iter::repeat(b'{').take(1000));
    file.extend(std::iter::repeat(b'.').take(1000));
    file.extend_from_slice(b"\"\n");
    assert_eq!(parse_structured(&file).unwrap().command_text(), Some("c"));
}

#[test]
fn dots_and_brackets_in_comments_do_not_count_as_nesting() {
    let mut file = b"# ".to_vec();
    file.extend(std::iter::repeat(b'.').take(500));
    file.extend(std::iter::repeat(b'[').take(500));
    file.extend_from_slice(b"\nname = 'n' # [[[[ .... {{{{\ncommand = 'c'\n");
    let setup = parse_structured(&file).unwrap();
    assert_eq!(setup.name(), "n");
    assert_eq!(setup.command_text(), Some("c"));
}

#[test]
fn many_keys_and_numbers_do_not_count_as_nesting() {
    let mut file = b"name = 'n'\ncommand = 'c'\n".to_vec();
    for i in 0..200 {
        file.extend_from_slice(format!("[table{}]\nkey.part = {}.5\nlist = [1.0, 2.0, [3.0]]\n", i, i).as_bytes());
    }
    let setup = parse_structured(&file).unwrap();
    assert_eq!(setup.name(), "n");
}

#[test]
fn a_file_at_the_nesting_limit_is_read() {
    let setup = parse_structured(&nested(16)).unwrap();
    assert_eq!(setup.name(), "n");
    assert_eq!(setup.command_text(), Some("c"));
    assert_eq!(
        parse_structured(b"a.b.c.d.e.f.g.h.i.j.k.l.m.n.o.p.q = 1\n"),
        Err(ParseError::MissingName)
    );
}

#[test]
fn a_file_over_the_nesting_limit_is_not_read() {
    assert_eq!(parse_structured(&nested(17)), Err(ParseError::Malformed));
    assert_eq!(
        parse_structured(b"name = 'n'\ncommand = 'c'\na.b.c.d.e.f.g.h.i.j.k.l.m.n.o.p.q.r = 1\n"),
        Err(ParseError::Malformed)
    );
}

#[test]
fn a_deeply_nested_file_is_not_read() {
    assert_eq!(parse_structured(&nested(100_000)), Err(ParseError::Malformed));
}

#[test]
fn the_deepest_file_within_the_limit_is_read() {
    let key = vec!["k"; 17].join(".");
    let mut file = format!("name = 'n'\ncommand = 'c'\n[{}]\n{} = ", key, key);
    for _ in 0..15 {
        file.push_str(&format!("{{ {} = ", key));
    }
    file.push('1');
    for _ in 0..15 {
        file.push_str(" }");
    }
    file.push('\n');
    let setup = parse_structured(file.as_bytes()).unwrap();
    assert_eq!(setup.name(), "n");
}

#[test]
fn three_fields_make_a_setup() {
    assert_eq!(
        setup_from_fields(text("sway"), text("Sway"), Field::Absent),
        Ok(Setup::new(String::from("Sway"), Some(String::from("sway"))))
    );
    assert_eq!(
        setup_from_fields(text("sway"), text("Sway"), text("tiling")),
        Ok(Setup::with_comment(
            String::from("Sway"),
            Some(String::from("sway")),
            Some(String::from("tiling"))
        ))
    );
    assert_eq!(
        setup_from_fields(text("sway"), text("Sway"), text("")),
        Ok(Setup::with_comment(
            String::from("Sway"),
            Some(String::from("sway")),
            Some(String::new())
        ))
    );
    assert_eq!(
        setup_from_fields(text(""), text("Shell"), Field::Absent),
        Ok(Setup::new(String::from("Shell"), None))
    );
}

#[test]
fn a_missing_or_wrong_name_comes_first() {
    assert_eq!(
        setup_from_fields(Field::Absent, Field::Absent, Field::Other),
        Err(ParseError::MissingName)
    );
    assert_eq!(
        setup_from_fields(Field::Absent, Field::Other, Field::Other),
        Err(ParseError::NotText)
    );
}

#[test]
fn a_missing_or_wrong_command_comes_second() {
    assert_eq!(
        setup_from_fields(Field::Absent, text("n"), Field::Other),
        Err(ParseError::MissingCommand)
    );
    assert_eq!(
        setup_from_fields(Field::Other, text("n"), Field::Absent),
        Err(ParseError::NotText)
    );
}

#[test]
fn a_wrong_comment_comes_last() {
    assert_eq!(
        setup_from_fields(text("c"), text("n"), Field::Other),
        Err(ParseError::NotText)
    );
}
