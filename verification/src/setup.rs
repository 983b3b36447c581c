//! Setups: the named targets that a user can choose to start.

use crate::text::{lemma_split_on_nonempty, split_on, split_text};
use crate::views::{opt_view, views_of};
use vstd::prelude::*;
use vstd::string::*;

verus! {

/// Why a setup file gave no setup.
#[derive(Clone, Copy, Debug, PartialEq, Eq, Structural)]
pub enum ParseError {
    /// The file is not a document of its format at all.
    Malformed,
    /// The file gives no name.
    MissingName,
    /// The file gives no command, not even an empty one.
    MissingCommand,
    /// The file gives a name, a command or a comment that is not text.
    NotText,
}

/// A named target that can be started. It never changes once it is made.
#[derive(Debug, PartialEq, Eq)]
pub struct Setup {
    name: String,
    command: Option<String>,
    comment: Option<String>,
}

/// What a [`Setup`] holds, as plain text.
pub struct SetupView {
    /// The label shown to the user.
    pub name: Seq<char>,
    /// The command line to start; `None` stands for the plain login shell.
    pub command: Option<Seq<char>>,
    /// What the setup says of itself, if it says anything.
    pub comment: Option<Seq<char>>,
}

/// One change of identity that a program makes before it starts.
#[derive(Clone, Copy, Debug, PartialEq, Eq, Structural)]
pub enum IdentityChange {
    /// Take on the group with this id.
    Group(u32),
    /// Take on the user with this id.
    User(u32),
}

/// A program to start, with its arguments.
#[derive(Debug, PartialEq, Eq)]
pub struct Invocation {
    /// The program that is started.
    pub program: String,
    /// Its arguments, without the program's own name.
    pub args: Vec<String>,
    /// The changes of identity to make before the program starts, in the
    /// order in which they are to be made. Where there are none, the
    /// program runs as the caller does.
    pub switch: Vec<IdentityChange>,
}

/// What an [`Invocation`] holds, as plain text.
pub struct InvocationView {
    pub program: Seq<char>,
    pub args: Seq<Seq<char>>,
    pub switch: Seq<IdentityChange>,
}

impl View for Invocation {
    type V = InvocationView;

    open spec fn view(&self) -> InvocationView {
        InvocationView {
            program: self.program@,
            args: views_of(self.args@),
            switch: self.switch@,
        }
    }
}

/// A command as a setup holds it: an empty command is no command.
pub open spec fn normal_command(command: Option<Seq<char>>) -> Option<Seq<char>> {
    match command {
        Some(c) => if c.len() == 0 {
            None
        } else {
            command
        },
        None => None,
    }
}

/// The program and arguments that a setup's command stands for when it is
/// started directly: the command is cut at every space, the first piece is
/// the program and the others are its arguments. A setup without a command
/// names no program.
pub open spec fn direct_invocation(setup: SetupView) -> Option<InvocationView> {
    match setup.command {
        None => None,
        Some(c) => {
            let pieces = split_on(c, ' ');
            Some(
                InvocationView {
                    program: pieces[0],
                    args: pieces.subrange(1, pieces.len() as int),
                    switch: Seq::<IdentityChange>::empty(),
                },
            )
        },
    }
}

impl View for Setup {
    type V = SetupView;

    closed spec fn view(&self) -> SetupView {
        SetupView {
            name: self.name@,
            command: opt_view(self.command),
            comment: opt_view(self.comment),
        }
    }
}

impl Clone for Setup {
    fn clone(&self) -> (r: Self)
        ensures
            r@ == self@,
    {
        proof {
            use_type_invariant(self);
        }
        let command = match &self.command {
            Some(c) => Some(c.clone()),
            None => None,
        };
        let comment = match &self.comment {
            Some(c) => Some(c.clone()),
            None => None,
        };
        Setup { name: self.name.clone(), command, comment }
    }
}

impl Setup {
    #[verifier::type_invariant]
    spec fn command_is_not_empty(self) -> bool {
        self.command matches Some(c) ==> c@.len() > 0
    }

    /// Makes a setup without a comment. An empty command is taken as no
    /// command.
    pub fn new(name: String, command: Option<String>) -> (r: Setup)
        ensures
            r@ == (SetupView {
                name: name@,
                command: normal_command(opt_view(command)),
                comment: None,
            }),
    {
        Self::with_comment(name, command, None)
    }

    /// Makes a setup that says something of itself. An empty command is
    /// taken as no command; the comment is kept as it is.
    pub fn with_comment(name: String, command: Option<String>, comment: Option<String>) -> (r:
        Setup)
        ensures
            r@ == (SetupView {
                name: name@,
                command: normal_command(opt_view(command)),
                comment: opt_view(comment),
            }),
    {
        let command = match command {
            Some(c) => if c.as_str().is_empty() {
                None
            } else {
                Some(c)
            },
            None => None,
        };
        Setup { name, command, comment }
    }

    /// The setup that stands for the plain login shell, under the label
    /// "Command Line". A catalog never holds it by itself: a caller that
    /// wants an entry that is always there adds it.
    pub fn fallback() -> (r: Setup)
        ensures
            r@ == (SetupView { name: "Command Line"@, command: None, comment: None }),
    {
        Setup { name: String::from_str("Command Line"), command: None, comment: None }
    }

    /// The label of this setup.
    pub fn name(&self) -> (r: &str)
        ensures
            r@ == self@.name,
    {
        self.name.as_str()
    }

    /// The command line of this setup, if it has one. It is never empty.
    pub fn command_text(&self) -> (r: Option<&str>)
        ensures
            opt_view(r) == self@.command,
            r matches Some(c) ==> c@.len() > 0,
    {
        proof {
            use_type_invariant(self);
        }
        match &self.command {
            Some(c) => Some(c.as_str()),
            None => None,
        }
    }

    /// What this setup says of itself, if it says anything.
    pub fn comment(&self) -> (r: Option<&str>)
        ensures
            opt_view(r) == self@.comment,
    {
        match &self.comment {
            Some(c) => Some(c.as_str()),
            None => None,
        }
    }

    /// The program that starts this setup directly, with its arguments.
    pub fn command(&self) -> (r: Option<Invocation>)
        ensures
            opt_view(r) == direct_invocation(self@),
    {
        match &self.command {
            None => None,
            Some(c) => {
                let mut pieces = split_text(c.as_str(), ' ');
                proof {
                    lemma_split_on_nonempty(c@, ' ');
                }
                let ghost all = views_of(pieces@);
                let program = pieces.remove(0);
                assert(views_of(pieces@) =~= all.subrange(1, all.len() as int));
                Some(Invocation { program, args: pieces, switch: Vec::new() })
            },
        }
    }
}

} // verus!
