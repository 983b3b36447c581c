//! What the menus of the program rest on: which users are offered, what a
//! typed answer means, and where the configuration is looked for.

use crate::views::{opt_view, views_of};
use vstd::prelude::*;
use vstd::string::*;

verus! {

/// The lowest id of a regular user. Accounts below it belong to the system
/// and are not offered for login.
pub const FIRST_REGULAR_UID: u32 = 1000;

/// The directory of the program below a directory of configurations.
pub const PROGRAM_DIRECTORY: &'static str = "moin-dm";

/// The directory of the program below a home directory.
pub const HOME_DIRECTORY: &'static str = ".config/moin-dm";

/// The directory of the program that the administrator fills.
pub const SYSTEM_DIRECTORY: &'static str = "/etc/moin-dm";

/// The directory of the program that comes with its installation.
pub const SHARED_DIRECTORY: &'static str = "/usr/share/moin-dm";

/// A user of the machine, as the account database lists it.
#[derive(Debug, PartialEq, Eq)]
pub struct KnownUser {
    /// The id of the user.
    pub uid: u32,
    /// The name of the user; `None` where the name is no text.
    pub name: Option<String>,
}

/// What a [`KnownUser`] holds, as plain values.
pub struct KnownUserView {
    pub uid: u32,
    pub name: Option<Seq<char>>,
}

impl View for KnownUser {
    type V = KnownUserView;

    open spec fn view(&self) -> KnownUserView {
        KnownUserView { uid: self.uid, name: opt_view(self.name) }
    }
}

/// The name under which a user is offered for login, if the user is
/// offered: regular users are, under their name, where it is text.
pub open spec fn offered_name(user: KnownUserView) -> Option<Seq<char>> {
    if user.uid >= FIRST_REGULAR_UID {
        user.name
    } else {
        None
    }
}

/// The names that are offered for login, in the order of the users.
pub open spec fn offered_names(users: Seq<KnownUserView>) -> Seq<Seq<char>>
    decreases users.len(),
{
    if users.len() == 0 {
        Seq::<Seq<char>>::empty()
    } else {
        let before = offered_names(users.drop_last());
        match offered_name(users.last()) {
            Some(name) => before.push(name),
            None => before,
        }
    }
}

/// Gives the names that are offered for login.
pub fn offered_users(users: &Vec<KnownUser>) -> (names: Vec<String>)
    ensures
        views_of(names@) == offered_names(views_of(users@)),
{
    let mut names: Vec<String> = Vec::new();
    let mut i: usize = 0;
    assert(views_of(users@).take(0) =~= Seq::<KnownUserView>::empty());
    assert(views_of(names@) =~= Seq::<Seq<char>>::empty());
    while i < users.len()
        invariant
            i <= users.len(),
            views_of(names@) == offered_names(views_of(users@).take(i as int)),
        decreases users.len() - i,
    {
        proof {
            let upto = views_of(users@).take(i + 1);
            assert(upto.drop_last() =~= views_of(users@).take(i as int));
            assert(upto.last() == users@[i as int]@);
        }
        let ghost before = views_of(names@);
        if users[i].uid >= FIRST_REGULAR_UID {
            match &users[i].name {
                Some(name) => {
                    names.push(name.clone());
                    assert(views_of(names@) =~= before.push(name@));
                },
                None => {},
            }
        }
        i += 1;
    }
    assert(views_of(users@).take(i as int) =~= views_of(users@));
    names
}

/// What an answer at the prompt of the plain menu means.
#[derive(Clone, Copy, Debug, PartialEq, Eq, Structural)]
pub enum Choice {
    /// Leave the program.
    Quit,
    /// Start the setup with this number.
    Pick(usize),
    /// The answer means nothing: ask again.
    Again,
}

/// Whether `c` is one of the digits `0` to `9`.
pub open spec fn is_digit(c: char) -> bool {
    '0' <= c && c <= '9'
}

/// The number that a run of digits stands for, read as a decimal.
pub open spec fn decimal(digits: Seq<char>) -> nat
    decreases digits.len(),
{
    if digits.len() == 0 {
        0
    } else {
        10 * decimal(digits.drop_last()) + (digits.last() as u32 - '0' as u32) as nat
    }
}

/// The answer that was typed: the line without the newline that ends it.
pub open spec fn typed(line: Seq<char>) -> Seq<char> {
    if line.len() > 0 && line.last() == '\n' {
        line.drop_last()
    } else {
        line
    }
}

/// What the line `line` means where `count` setups are listed, numbered
/// from zero: `q` or `Q` leaves, the number of a listed setup picks it, and
/// everything else means nothing.
pub open spec fn choice_of(line: Seq<char>, count: nat) -> Choice {
    let answer = typed(line);
    if answer == seq!['q'] || answer == seq!['Q'] {
        Choice::Quit
    } else if answer.len() > 0 && (forall|i: int| 0 <= i < answer.len() ==> is_digit(answer[i]))
        && decimal(answer) < count {
        Choice::Pick(decimal(answer) as usize)
    } else {
        Choice::Again
    }
}

/// A decimal that is lengthened by digits does not get smaller.
pub proof fn lemma_decimal_grows(digits: Seq<char>, upto: int)
    requires
        0 <= upto <= digits.len(),
        forall|i: int| 0 <= i < digits.len() ==> is_digit(digits[i]),
    ensures
        decimal(digits.take(upto)) <= decimal(digits),
    decreases digits.len() - upto,
{
    if upto < digits.len() {
        let longer = digits.take(upto + 1);
        assert(longer.drop_last() =~= digits.take(upto));
        assert(longer.last() == digits[upto]);
        lemma_decimal_grows(digits, upto + 1);
    } else {
        assert(digits.take(upto) =~= digits);
    }
}

/// Tells what an answer at the prompt of the plain menu means.
pub fn interpret_choice(line: &str, count: usize) -> (r: Choice)
    ensures
        r == choice_of(line@, count as nat),
{
    let full = line.unicode_len();
    let n = if full > 0 && line.get_char(full - 1) == '\n' {
        full - 1
    } else {
        full
    };
    let ghost answer = typed(line@);
    assert(answer =~= line@.take(n as int));
    if n == 1 {
        let c = line.get_char(0);
        if c == 'q' || c == 'Q' {
            assert(answer =~= seq![c]);
            return Choice::Quit;
        }
        assert(answer[0] == c);
        assert(seq!['q'][0] == 'q' && seq!['Q'][0] == 'Q');
    }
    if n == 0 {
        return Choice::Again;
    }
    assert(seq!['q'].len() == 1 && seq!['Q'].len() == 1);
    assert(answer != seq!['q'] && answer != seq!['Q']);
    let mut value: usize = 0;
    let mut i: usize = 0;
    assert(answer.take(0) =~= Seq::<char>::empty());
    while i < n
        invariant
            i <= n,
            n == answer.len(),
            n <= line@.len(),
            answer == typed(line@),
            answer != seq!['q'] && answer != seq!['Q'],
            forall|k: int| 0 <= k < n ==> answer[k] == line@[k],
            forall|k: int| 0 <= k < i ==> is_digit(answer[k]),
            value == decimal(answer.take(i as int)),
            value < count || i == 0,
        decreases n - i,
    {
        let c = line.get_char(i);
        if !(c >= '0' && c <= '9') {
            assert(!is_digit(answer[i as int]));
            return Choice::Again;
        }
        let digit = (c as u32 - '0' as u32) as u128;
        let grown = (value as u128) * 10 + digit;
        proof {
            let longer = answer.take(i + 1);
            assert(longer.drop_last() =~= answer.take(i as int));
            assert(longer.last() == c);
            assert(grown == decimal(longer));
        }
        if grown >= count as u128 {
            proof {
                if forall|k: int| 0 <= k < answer.len() ==> is_digit(answer[k]) {
                    lemma_decimal_grows(answer, i + 1);
                }
            }
            return Choice::Again;
        }
        value = grown as usize;
        i += 1;
    }
    assert(answer.take(i as int) =~= answer);
    Choice::Pick(value)
}

/// A place where the configuration may be found: a directory, and what is
/// to be added to it.
#[derive(Debug, PartialEq, Eq)]
pub struct ConfigPlace {
    /// The directory to start from.
    pub base: String,
    /// The path below `base`; empty where `base` is the place itself.
    pub below: String,
}

/// What a [`ConfigPlace`] holds, as plain text.
pub struct ConfigPlaceView {
    pub base: Seq<char>,
    pub below: Seq<char>,
}

impl View for ConfigPlace {
    type V = ConfigPlaceView;

    open spec fn view(&self) -> ConfigPlaceView {
        ConfigPlaceView { base: self.base@, below: self.below@ }
    }
}

/// The place that a directory gives, if there is a directory.
pub open spec fn place_of(base: Option<Seq<char>>, below: Seq<char>) -> Seq<ConfigPlaceView> {
    match base {
        Some(base) => seq![ConfigPlaceView { base, below }],
        None => Seq::<ConfigPlaceView>::empty(),
    }
}

/// The places where the configuration is looked for, in the order in which
/// they are tried: the directory that the user named, the program's
/// directory below the user's directory of configurations, the one below
/// the user's home, the system's and the shared one. A place whose
/// directory is not known is left out.
pub open spec fn config_places(
    given: Option<Seq<char>>,
    config_home: Option<Seq<char>>,
    home: Option<Seq<char>>,
) -> Seq<ConfigPlaceView> {
    place_of(given, Seq::<char>::empty()) + place_of(config_home, PROGRAM_DIRECTORY@) + place_of(
        home,
        HOME_DIRECTORY@,
    ) + seq![
        ConfigPlaceView { base: SYSTEM_DIRECTORY@, below: Seq::<char>::empty() },
        ConfigPlaceView { base: SHARED_DIRECTORY@, below: Seq::<char>::empty() },
    ]
}

/// Lists the places where the configuration is looked for.
pub fn config_candidates(
    given: Option<String>,
    config_home: Option<String>,
    home: Option<String>,
) -> (places: Vec<ConfigPlace>)
    ensures
        views_of(places@) == config_places(opt_view(given), opt_view(config_home), opt_view(home)),
{
    let mut places: Vec<ConfigPlace> = Vec::new();
    match given {
        Some(base) => {
            places.push(ConfigPlace { base, below: String::new() });
        },
        None => {},
    }
    assert(views_of(places@) =~= place_of(opt_view(given), Seq::<char>::empty()));
    let ghost first = views_of(places@);
    match config_home {
        Some(base) => {
            places.push(ConfigPlace { base, below: String::from_str(PROGRAM_DIRECTORY) });
        },
        None => {},
    }
    assert(views_of(places@) =~= first + place_of(opt_view(config_home), PROGRAM_DIRECTORY@));
    let ghost second = views_of(places@);
    match home {
        Some(base) => {
            places.push(ConfigPlace { base, below: String::from_str(HOME_DIRECTORY) });
        },
        None => {},
    }
    assert(views_of(places@) =~= second + place_of(opt_view(home), HOME_DIRECTORY@));
    let ghost third = views_of(places@);
    places.push(ConfigPlace { base: String::from_str(SYSTEM_DIRECTORY), below: String::new() });
    places.push(ConfigPlace { base: String::from_str(SHARED_DIRECTORY), below: String::new() });
    assert(views_of(places@) =~= third + seq![
        ConfigPlaceView { base: SYSTEM_DIRECTORY@, below: Seq::<char>::empty() },
        ConfigPlaceView { base: SHARED_DIRECTORY@, below: Seq::<char>::empty() },
    ]);
    places
}

/// The first place that is there, of places of which `there` tells one by
/// one whether they are.
pub fn first_present(there: &[bool]) -> (r: Option<usize>)
    ensures
        match r {
            Some(at) => at < there@.len() && there@[at as int] && forall|k: int|
                0 <= k < at ==> !there@[k],
            None => forall|k: int| 0 <= k < there@.len() ==> !there@[k],
        },
{
    let mut i: usize = 0;
    while i < there.len()
        invariant
            i <= there.len(),
            forall|k: int| 0 <= k < i ==> !there@[k],
        decreases there.len() - i,
    {
        if there[i] {
            return Some(i);
        }
        i += 1;
    }
    None
}

} // verus!
