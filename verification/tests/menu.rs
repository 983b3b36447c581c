use moin_dm::menu::{
    config_candidates, first_present, interpret_choice, offered_users, Choice, ConfigPlace,
    KnownUser,
};

fn user(uid: u32, name: &str) -> KnownUser {
    KnownUser { uid, name: Some(String::from(name)) }
}

fn place(base: &str, below: &str) -> ConfigPlace {
    ConfigPlace { base: String::from(base), below: String::from(below) }
}

#[test]
fn regular_users_are_offered_in_their_order() {
    let users =
        vec![user(0, "root"), user(1001, "bob"), user(33, "www-data"), user(1000, "alice")];
    assert_eq!(offered_users(&users), vec!["bob", "alice"]);
}

#[test]
fn the_first_regular_user_has_the_id_1000() {
    assert_eq!(offered_users(&vec![user(999, "almost")]), Vec::<String>::new());
    assert_eq!(offered_users(&vec![user(1000, "first")]), vec!["first"]);
    assert_eq!(offered_users(&vec![user(u32::MAX, "last")]), vec!["last"]);
}

#[test]
fn users_whose_name_is_no_text_are_not_offered() {
    let users = vec![KnownUser { uid: 1000, name: None }, user(1001, "bob")];
    assert_eq!(offered_users(&users), vec!["bob"]);
}

#[test]
fn no_users_give_no_names() {
    assert_eq!(offered_users(&vec![]), Vec::<String>::new());
}

#[test]
fn q_leaves_the_menu() {
    assert_eq!(interpret_choice("q\n", 3), Choice::Quit);
    assert_eq!(interpret_choice("Q\n", 3), Choice::Quit);
    assert_eq!(interpret_choice("q", 0), Choice::Quit);
}

#[test]
fn a_number_picks_the_setup() {
    assert_eq!(interpret_choice("0\n", 3), Choice::Pick(0));
    assert_eq!(interpret_choice("2\n", 3), Choice::Pick(2));
    assert_eq!(interpret_choice("2", 3), Choice::Pick(2));
    assert_eq!(interpret_choice("12\n", 13), Choice::Pick(12));
    assert_eq!(interpret_choice("007\n", 8), Choice::Pick(7));
}

#[test]
fn a_number_that_names_no_setup_asks_again() {
    assert_eq!(interpret_choice("3\n", 3), Choice::Again);
    assert_eq!(interpret_choice("0\n", 0), Choice::Again);
    assert_eq!(interpret_choice("99999999999999999999999999999999999999999\n", 5), Choice::Again);
    assert_eq!(
        interpret_choice("18446744073709551616\n", usize::MAX),
        Choice::Again
    );
}

#[test]
fn the_largest_number_can_be_picked() {
    let line = format!("{}\n", usize::MAX - 1);
    assert_eq!(interpret_choice(&line, usize::MAX), Choice::Pick(usize::MAX - 1));
}

#[test]
fn anything_else_asks_again() {
    assert_eq!(interpret_choice("\n", 3), Choice::Again);
    assert_eq!(interpret_choice("", 3), Choice::Again);
    assert_eq!(interpret_choice("qq\n", 3), Choice::Again);
    assert_eq!(interpret_choice("q \n", 3), Choice::Again);
    assert_eq!(interpret_choice("1 \n", 3), Choice::Again);
    assert_eq!(interpret_choice(" 1\n", 3), Choice::Again);
    assert_eq!(interpret_choice("+1\n", 3), Choice::Again);
    assert_eq!(interpret_choice("-1\n", 3), Choice::Again);
    assert_eq!(interpret_choice("1a\n", 3), Choice::Again);
    assert_eq!(interpret_choice("١\n", 3), Choice::Again);
    assert_eq!(interpret_choice("1\n\n", 3), Choice::Again);
    assert_eq!(interpret_choice("1\r\n", 3), Choice::Again);
}

#[test]
fn all_places_are_listed_in_their_order() {
    assert_eq!(
        config_candidates(
            Some(String::from("/tmp/conf")),
            Some(String::from("/home/alice/.config")),
            Some(String::from("/home/alice")),
        ),
        vec![
            place("/tmp/conf", ""),
            place("/home/alice/.config", "moin-dm"),
            place("/home/alice", ".config/moin-dm"),
            place("/etc/moin-dm", ""),
            place("/usr/share/moin-dm", ""),
        ]
    );
}

#[test]
fn places_that_are_not_known_are_left_out() {
    assert_eq!(
        config_candidates(None, None, None),
        vec![place("/etc/moin-dm", ""), place("/usr/share/moin-dm", "")]
    );
    assert_eq!(
        config_candidates(None, None, Some(String::from("/root"))),
        vec![
            place("/root", ".config/moin-dm"),
            place("/etc/moin-dm", ""),
            place("/usr/share/moin-dm", ""),
        ]
    );
    assert_eq!(
        config_candidates(None, Some(String::from("/x")), None),
        vec![place("/x", "moin-dm"), place("/etc/moin-dm", ""), place("/usr/share/moin-dm", "")]
    );
}

#[test]
fn the_first_place_that_is_there_is_taken() {
    assert_eq!(first_present(&[false, true, true]), Some(1));
    assert_eq!(first_present(&[true]), Some(0));
    assert_eq!(first_present(&[false, false, false, false, true]), Some(4));
}

#[test]
fn no_place_is_taken_where_none_is_there() {
    assert_eq!(first_present(&[false, false]), None);
    assert_eq!(first_present(&[]), None);
}
