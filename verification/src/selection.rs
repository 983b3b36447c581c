//! What the user has chosen so far.

use crate::setup::{Setup, SetupView};
use crate::views::opt_view;
use vstd::prelude::*;
use vstd::string::*;

verus! {

/// The choices that a login is made of: who logs in, and what is started.
///
/// A selection is filled in piece by piece. Where no login is asked for,
/// the setup is the only choice to make.
#[derive(Debug, PartialEq, Eq)]
pub struct Selection {
    login: bool,
    username: Option<String>,
    setup: Option<Setup>,
}

/// What a [`Selection`] holds, as plain values.
pub struct SelectionView {
    /// Whether the user has to log in.
    pub login: bool,
    /// The name of the user, once it is chosen.
    pub username: Option<Seq<char>>,
    /// The setup, once it is chosen.
    pub setup: Option<SetupView>,
}

impl SelectionView {
    /// Whether nothing is left to choose: the setup is chosen, and so is
    /// the user where a login is asked for.
    pub open spec fn is_complete(self) -> bool {
        self.setup is Some && (self.login ==> self.username is Some)
    }
}

impl View for Selection {
    type V = SelectionView;

    closed spec fn view(&self) -> SelectionView {
        SelectionView {
            login: self.login,
            username: opt_view(self.username),
            setup: opt_view(self.setup),
        }
    }
}

impl Selection {
    /// A selection for a login, with nothing chosen yet.
    pub fn new() -> (r: Selection)
        ensures
            r@ == (SelectionView { login: true, username: None, setup: None }),
    {
        Selection { login: true, username: None, setup: None }
    }

    /// A selection that asks for no login, with nothing chosen yet.
    pub fn without_login() -> (r: Selection)
        ensures
            r@ == (SelectionView { login: false, username: None, setup: None }),
    {
        Selection { login: false, username: None, setup: None }
    }

    /// Whether the user has to log in.
    pub fn needs_login(&self) -> (r: bool)
        ensures
            r == self@.login,
    {
        self.login
    }

    /// The name of the user, if it is chosen.
    pub fn username(&self) -> (r: Option<&str>)
        ensures
            opt_view(r) == self@.username,
    {
        match &self.username {
            Some(name) => Some(name.as_str()),
            None => None,
        }
    }

    /// Chooses the user. An earlier choice is replaced.
    pub fn set_username(&mut self, new_name: String)
        ensures
            final(self)@ == (SelectionView { username: Some(new_name@), ..old(self)@ }),
    {
        self.username = Some(new_name);
    }

    /// The setup, if it is chosen.
    pub fn setup(&self) -> (r: Option<&Setup>)
        ensures
            opt_view(r) == self@.setup,
    {
        match &self.setup {
            Some(setup) => Some(setup),
            None => None,
        }
    }

    /// Chooses the setup. An earlier choice is replaced.
    pub fn set_setup(&mut self, new_setup: Setup)
        ensures
            final(self)@ == (SelectionView { setup: Some(new_setup@), ..old(self)@ }),
    {
        self.setup = Some(new_setup);
    }

    /// Whether nothing is left to choose.
    pub fn is_complete(&self) -> (r: bool)
        ensures
            r == self@.is_complete(),
    {
        self.setup.is_some() && (!self.login || self.username.is_some())
    }

    /// Whether the setup is chosen.
    pub fn has_setup(&self) -> (r: bool)
        ensures
            r == self@.setup is Some,
    {
        self.setup.is_some()
    }
}

} // verus!
