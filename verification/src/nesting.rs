//! How deep a TOML document nests, measured on its bytes before it is
//! parsed.
//!
//! A document nests where a value stands in an array or an inline table,
//! and where a key or a table's header has several parts with dots between
//! them. Brackets, braces and dots that stand in a string or in a comment
//! open nothing and are not counted. The bytes are read once, from left to
//! right, and strings and comments are told apart as a TOML parser tells
//! them apart.

use vstd::prelude::*;

verus! {

/// The byte that ends a line.
pub const LINE_FEED: u8 = 0x0a;

/// The tab, the one control byte that may stand in a comment.
pub const TAB: u8 = 0x09;

/// The first byte that is no control byte.
pub const SPACE: u8 = 0x20;

/// The byte that opens and closes a basic string.
pub const DOUBLE_QUOTE: u8 = 0x22;

/// The byte that opens and closes a literal string.
pub const SINGLE_QUOTE: u8 = 0x27;

/// The byte that opens a comment.
pub const NUMBER_SIGN: u8 = 0x23;

/// The byte between the items of an array or an inline table.
pub const COMMA: u8 = 0x2c;

/// The byte between the parts of a key.
pub const DOT: u8 = 0x2e;

/// The byte between a key and its value.
pub const EQUALS_SIGN: u8 = 0x3d;

/// The byte that opens an array or a table's header.
pub const SQUARE_OPEN: u8 = 0x5b;

/// The byte that escapes the next one in a basic string.
pub const BACKSLASH: u8 = 0x5c;

/// The byte that closes an array or a table's header.
pub const SQUARE_CLOSE: u8 = 0x5d;

/// The byte that opens an inline table.
pub const CURLY_OPEN: u8 = 0x7b;

/// The byte that closes an inline table.
pub const CURLY_CLOSE: u8 = 0x7d;

/// Where in a document the reading stands. In the modes that belong to a
/// string, `basic` tells a basic string, in double quotes, from a literal
/// one, in single quotes.
#[derive(Clone, Copy, Debug, PartialEq, Eq, Structural)]
pub enum Mode {
    /// Outside strings and comments.
    Plain,
    /// In a comment.
    Comment,
    /// Behind the quote that opens a string.
    One { basic: bool },
    /// Behind two quotes: an empty string, or the start of a string of
    /// several lines.
    Two { basic: bool },
    /// In a string of one line.
    Line { basic: bool },
    /// Behind a backslash in a basic string of one line.
    LineEscape,
    /// In a string of several lines, behind `run` quotes in a row.
    Block { basic: bool, run: u8 },
    /// Behind a backslash in a basic string of several lines.
    BlockEscape,
    /// Behind the three quotes that close a string of several lines, and
    /// `extra` more. Up to two more quotes belong to the string.
    Closed { basic: bool, extra: u8 },
}

/// What the reading of a document has come to.
pub struct Scan {
    /// Where the reading stands.
    pub mode: Mode,
    /// How many brackets and braces are open.
    pub depth: nat,
    /// How many dots the key or the value at hand has held so far.
    pub dots: nat,
    /// The most that `depth` and `dots` have been.
    pub deepest: nat,
}

/// The quote of a string: double for a basic one, single for a literal one.
pub open spec fn quote_of(basic: bool) -> u8 {
    if basic {
        DOUBLE_QUOTE
    } else {
        SINGLE_QUOTE
    }
}

/// Whether `b` is a control byte other than the tab. Such a byte ends a
/// comment.
pub open spec fn is_control(b: u8) -> bool {
    b < SPACE && b != TAB
}

/// Whether the byte `b`, met in mode `mode`, stands outside strings and
/// comments. That is so between strings and comments, and for the byte that
/// follows an empty or a closed string, that breaks off a string of one
/// line at the end of the line, or that ends a comment.
pub open spec fn reads_plain(mode: Mode, b: u8) -> bool {
    match mode {
        Mode::Plain => true,
        Mode::Comment => is_control(b),
        Mode::One { .. } => b == LINE_FEED,
        Mode::Two { basic } => b != quote_of(basic),
        Mode::Line { .. } => b == LINE_FEED,
        Mode::LineEscape => false,
        Mode::Block { .. } => false,
        Mode::BlockEscape => false,
        Mode::Closed { basic, .. } => b != quote_of(basic),
    }
}

/// The mode behind a byte that stands outside strings and comments.
pub open spec fn mode_after_plain(b: u8) -> Mode {
    if b == NUMBER_SIGN {
        Mode::Comment
    } else if b == DOUBLE_QUOTE {
        Mode::One { basic: true }
    } else if b == SINGLE_QUOTE {
        Mode::One { basic: false }
    } else {
        Mode::Plain
    }
}

/// The mode behind a byte in a string of one line.
pub open spec fn mode_after_line(basic: bool, b: u8) -> Mode {
    if b == quote_of(basic) {
        Mode::Plain
    } else if basic && b == BACKSLASH {
        Mode::LineEscape
    } else {
        Mode::Line { basic }
    }
}

/// The mode behind the byte `b` that was met in mode `mode`.
///
/// A string is opened by one quote or by three; two quotes and no third
/// are an empty string. A string of one line is closed by its quote; one of
/// several lines by three quotes in a row, and up to two quotes more still
/// belong to it. In a basic string the byte behind a backslash closes
/// nothing. A comment runs up to the first control byte that is no tab.
pub open spec fn mode_after(mode: Mode, b: u8) -> Mode {
    if reads_plain(mode, b) {
        mode_after_plain(b)
    } else {
        match mode {
            Mode::Plain => Mode::Plain,
            Mode::Comment => Mode::Comment,
            Mode::One { basic } => if b == quote_of(basic) {
                Mode::Two { basic }
            } else {
                mode_after_line(basic, b)
            },
            Mode::Two { basic } => Mode::Block { basic, run: 0 },
            Mode::Line { basic } => mode_after_line(basic, b),
            Mode::LineEscape => Mode::Line { basic: true },
            Mode::Block { basic, run } => if b == quote_of(basic) {
                if run >= 2 {
                    Mode::Closed { basic, extra: 0 }
                } else {
                    Mode::Block { basic, run: (run + 1) as u8 }
                }
            } else if basic && b == BACKSLASH {
                Mode::BlockEscape
            } else {
                Mode::Block { basic, run: 0 }
            },
            Mode::BlockEscape => Mode::Block { basic: true, run: 0 },
            Mode::Closed { basic, extra } => if extra == 0 {
                Mode::Closed { basic, extra: 1 }
            } else {
                Mode::Plain
            },
        }
    }
}

/// How many brackets and braces are open behind the byte `b`, which stands
/// outside strings and comments, where `depth` were open before it.
pub open spec fn depth_after(depth: nat, b: u8) -> nat {
    if b == SQUARE_OPEN || b == CURLY_OPEN {
        depth + 1
    } else if (b == SQUARE_CLOSE || b == CURLY_CLOSE) && depth > 0 {
        (depth - 1) as nat
    } else {
        depth
    }
}

/// How many dots the key or the value at hand holds behind the byte `b`,
/// which stands outside strings and comments, where it held `dots` before.
/// A key or a value ends with the line, at an equals sign, at a comma and at
/// every bracket and brace.
pub open spec fn dots_after(dots: nat, b: u8) -> nat {
    if b == DOT {
        dots + 1
    } else if b == LINE_FEED || b == EQUALS_SIGN || b == COMMA || b == SQUARE_OPEN || b
        == SQUARE_CLOSE || b == CURLY_OPEN || b == CURLY_CLOSE {
        0
    } else {
        dots
    }
}

/// The larger of two numbers.
pub open spec fn larger(a: nat, b: nat) -> nat {
    if a >= b {
        a
    } else {
        b
    }
}

/// The reading behind the byte `b`.
pub open spec fn scan_step(s: Scan, b: u8) -> Scan {
    let plain = reads_plain(s.mode, b);
    let depth = if plain {
        depth_after(s.depth, b)
    } else {
        s.depth
    };
    let dots = if plain {
        dots_after(s.dots, b)
    } else {
        s.dots
    };
    Scan { mode: mode_after(s.mode, b), depth, dots, deepest: larger(s.deepest, larger(depth, dots)) }
}

/// The reading behind all of `bytes`.
pub open spec fn scan(bytes: Seq<u8>) -> Scan
    decreases bytes.len(),
{
    if bytes.len() == 0 {
        Scan { mode: Mode::Plain, depth: 0, dots: 0, deepest: 0 }
    } else {
        scan_step(scan(bytes.drop_last()), bytes.last())
    }
}

/// How deep `bytes` nest: the most brackets and braces that are open at
/// one place outside strings and comments, or the most dots of one key,
/// whichever is more.
pub open spec fn nesting_depth(bytes: Seq<u8>) -> nat {
    scan(bytes).deepest
}

/// Whether the byte at `at` stands outside strings and comments.
pub open spec fn is_plain_at(bytes: Seq<u8>, at: int) -> bool {
    reads_plain(scan(bytes.take(at)).mode, bytes[at])
}

/// A longer document nests no less than its start.
pub proof fn lemma_nesting_grows(bytes: Seq<u8>, upto: int)
    requires
        0 <= upto <= bytes.len(),
    ensures
        nesting_depth(bytes.take(upto)) <= nesting_depth(bytes),
    decreases bytes.len() - upto,
{
    if upto < bytes.len() {
        let longer = bytes.take(upto + 1);
        assert(longer.drop_last() =~= bytes.take(upto));
        lemma_nesting_grows(bytes, upto + 1);
    } else {
        assert(bytes.take(upto) =~= bytes);
    }
}

/// Only what stands outside strings and comments nests: a document in
/// which every bracket, brace and dot stands in a string or in a comment
/// does not nest at all, however many of them it holds.
pub proof fn lemma_text_does_not_nest(bytes: Seq<u8>)
    requires
        forall|at: int|
            0 <= at < bytes.len() && #[trigger] is_plain_at(bytes, at) ==> bytes[at] != SQUARE_OPEN
                && bytes[at] != CURLY_OPEN && bytes[at] != DOT,
    ensures
        nesting_depth(bytes) == 0,
        scan(bytes).depth == 0,
        scan(bytes).dots == 0,
    decreases bytes.len(),
{
    if bytes.len() > 0 {
        let front = bytes.drop_last();
        assert forall|at: int| 0 <= at < front.len() && #[trigger] is_plain_at(front, at) implies
            front[at] != SQUARE_OPEN && front[at] != CURLY_OPEN && front[at] != DOT by {
            assert(front.take(at) =~= bytes.take(at));
            assert(is_plain_at(bytes, at));
        }
        lemma_text_does_not_nest(front);
        let last = bytes.len() - 1;
        assert(bytes.take(last) =~= front);
        if reads_plain(scan(front).mode, bytes.last()) {
            assert(is_plain_at(bytes, last));
        }
    }
}

/// A document nests no deeper than it is long.
pub proof fn lemma_nesting_is_bounded(bytes: Seq<u8>)
    ensures
        scan(bytes).depth <= bytes.len(),
        scan(bytes).dots <= bytes.len(),
        nesting_depth(bytes) <= bytes.len(),
    decreases bytes.len(),
{
    if bytes.len() > 0 {
        lemma_nesting_is_bounded(bytes.drop_last());
    }
}

/// Tells whether a byte stands outside strings and comments.
fn stands_plain(mode: Mode, b: u8) -> (r: bool)
    ensures
        r == reads_plain(mode, b),
{
    match mode {
        Mode::Plain => true,
        Mode::Comment => b < SPACE && b != TAB,
        Mode::One { .. } => b == LINE_FEED,
        Mode::Two { basic } => b != quote_byte(basic),
        Mode::Line { .. } => b == LINE_FEED,
        Mode::LineEscape => false,
        Mode::Block { .. } => false,
        Mode::BlockEscape => false,
        Mode::Closed { basic, .. } => b != quote_byte(basic),
    }
}

/// Gives the quote of a string.
fn quote_byte(basic: bool) -> (r: u8)
    ensures
        r == quote_of(basic),
{
    if basic {
        DOUBLE_QUOTE
    } else {
        SINGLE_QUOTE
    }
}

/// Gives the mode behind a byte in a string of one line.
fn next_in_line(basic: bool, b: u8) -> (r: Mode)
    ensures
        r == mode_after_line(basic, b),
{
    if b == quote_byte(basic) {
        Mode::Plain
    } else if basic && b == BACKSLASH {
        Mode::LineEscape
    } else {
        Mode::Line { basic }
    }
}

/// Gives the mode behind a byte.
fn next_mode(mode: Mode, b: u8) -> (r: Mode)
    ensures
        r == mode_after(mode, b),
{
    if stands_plain(mode, b) {
        if b == NUMBER_SIGN {
            Mode::Comment
        } else if b == DOUBLE_QUOTE {
            Mode::One { basic: true }
        } else if b == SINGLE_QUOTE {
            Mode::One { basic: false }
        } else {
            Mode::Plain
        }
    } else {
        match mode {
            Mode::Plain => Mode::Plain,
            Mode::Comment => Mode::Comment,
            Mode::One { basic } => if b == quote_byte(basic) {
                Mode::Two { basic }
            } else {
                next_in_line(basic, b)
            },
            Mode::Two { basic } => Mode::Block { basic, run: 0 },
            Mode::Line { basic } => next_in_line(basic, b),
            Mode::LineEscape => Mode::Line { basic: true },
            Mode::Block { basic, run } => if b == quote_byte(basic) {
                if run >= 2 {
                    Mode::Closed { basic, extra: 0 }
                } else {
                    Mode::Block { basic, run: run + 1 }
                }
            } else if basic && b == BACKSLASH {
                Mode::BlockEscape
            } else {
                Mode::Block { basic, run: 0 }
            },
            Mode::BlockEscape => Mode::Block { basic: true, run: 0 },
            Mode::Closed { basic, extra } => if extra == 0 {
                Mode::Closed { basic, extra: 1 }
            } else {
                Mode::Plain
            },
        }
    }
}

/// Measures how deep a document nests.
pub fn measure_nesting(bytes: &[u8]) -> (deepest: usize)
    ensures
        deepest == nesting_depth(bytes@),
{
    let mut mode = Mode::Plain;
    let mut depth: usize = 0;
    let mut dots: usize = 0;
    let mut deepest: usize = 0;
    let mut i: usize = 0;
    assert(bytes@.take(0) =~= Seq::<u8>::empty());
    while i < bytes.len()
        invariant
            i <= bytes.len(),
            depth <= i,
            dots <= i,
            deepest <= i,
            scan(bytes@.take(i as int)) == (Scan {
                mode,
                depth: depth as nat,
                dots: dots as nat,
                deepest: deepest as nat,
            }),
        decreases bytes.len() - i,
    {
        let b = bytes[i];
        proof {
            let upto = bytes@.take(i + 1);
            assert(upto.drop_last() =~= bytes@.take(i as int));
            assert(upto.last() == b);
        }
        if stands_plain(mode, b) {
            if b == SQUARE_OPEN || b == CURLY_OPEN {
                depth += 1;
            } else if (b == SQUARE_CLOSE || b == CURLY_CLOSE) && depth > 0 {
                depth -= 1;
            }
            if b == DOT {
                dots += 1;
            } else if b == LINE_FEED || b == EQUALS_SIGN || b == COMMA || b == SQUARE_OPEN || b
                == SQUARE_CLOSE || b == CURLY_OPEN || b == CURLY_CLOSE {
                dots = 0;
            }
        }
        mode = next_mode(mode, b);
        if depth > deepest {
            deepest = depth;
        }
        if dots > deepest {
            deepest = dots;
        }
        i += 1;
    }
    assert(bytes@.take(i as int) =~= bytes@);
    deepest
}

} // verus!
