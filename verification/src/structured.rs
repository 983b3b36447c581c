//! Setup files in the structured format: a TOML document with the keys
//! `command` and `name`, both text, and the optional key `comment`, text too.
//!
//! The document is read by the `toml` crate. What that crate returns is
//! taken on trust and has a name here; what is made of it is proved.

use crate::nesting::{
    is_plain_at, lemma_text_does_not_nest, measure_nesting, nesting_depth, CURLY_OPEN, DOT,
    SQUARE_OPEN,
};
use crate::setup::{normal_command, ParseError, Setup, SetupView};
use vstd::prelude::*;
use vstd::string::*;

verus! {

/// A value of a TOML document, as the `toml` crate holds it.
#[verifier::external_type_specification]
#[verifier::external_body]
pub struct ExTomlValue(toml::Value);

/// The error that the `toml` crate gives for what is no TOML document.
#[verifier::external_type_specification]
#[verifier::external_body]
pub struct ExTomlError(toml::de::Error);

/// The document that `toml::from_slice` reads from `bytes`, or `None` where
/// it reports an error.
pub uninterp spec fn toml_document(bytes: Seq<u8>) -> Option<toml::Value>;

/// What `toml::Value::get` finds in `table` under the text `key`: `None`
/// where `table` is no table or holds no such key.
pub uninterp spec fn toml_entry(table: toml::Value, key: Seq<char>) -> Option<toml::Value>;

/// What `toml::Value::as_str` gives for `value`: its text where it is a
/// TOML string, and `None` where it is anything else.
pub uninterp spec fn toml_text(value: toml::Value) -> Option<Seq<char>>;

/// How deep a setup file may nest at most.
pub const NESTING_LIMIT: usize = 16;

/// The key of the setup's command.
pub const COMMAND_FIELD: &'static str = "command";

/// The key of the setup's name.
pub const NAME_FIELD: &'static str = "name";

/// The key of the setup's comment.
pub const COMMENT_FIELD: &'static str = "comment";

/// What a document holds under one key.
#[derive(Debug, PartialEq, Eq)]
pub enum Field {
    /// The document has no such key.
    Absent,
    /// The key holds this text.
    Text(String),
    /// The key holds something that is no text.
    Other,
}

/// What a [`Field`] holds, as plain text.
pub enum FieldView {
    Absent,
    Text(Seq<char>),
    Other,
}

impl View for Field {
    type V = FieldView;

    open spec fn view(&self) -> FieldView {
        match self {
            Field::Absent => FieldView::Absent,
            Field::Text(t) => FieldView::Text(t@),
            Field::Other => FieldView::Other,
        }
    }
}

/// What the document `doc` holds under `key`.
pub open spec fn field_of(doc: toml::Value, key: Seq<char>) -> FieldView {
    match toml_entry(doc, key) {
        None => FieldView::Absent,
        Some(value) => match toml_text(value) {
            Some(text) => FieldView::Text(text),
            None => FieldView::Other,
        },
    }
}

/// The comment that a field gives: its text, if it holds any.
pub open spec fn comment_of(comment: FieldView) -> Option<Seq<char>> {
    match comment {
        FieldView::Text(text) => Some(text),
        _ => None,
    }
}

/// The setup that three fields describe, or why they describe none. The
/// name and the command must be there and be text; the comment may be
/// missing, but where it is there it must be text too. An empty command is
/// no command; the name and the comment are kept as they are.
pub open spec fn setup_of_fields(command: FieldView, name: FieldView, comment: FieldView) -> Result<
    SetupView,
    ParseError,
> {
    match name {
        FieldView::Absent => Err(ParseError::MissingName),
        FieldView::Other => Err(ParseError::NotText),
        FieldView::Text(n) => match command {
            FieldView::Absent => Err(ParseError::MissingCommand),
            FieldView::Other => Err(ParseError::NotText),
            FieldView::Text(c) => match comment {
                FieldView::Other => Err(ParseError::NotText),
                _ => Ok(
                    SetupView {
                        name: n,
                        command: normal_command(Some(c)),
                        comment: comment_of(comment),
                    },
                ),
            },
        },
    }
}

/// The setup that the file `bytes` describes, or why it describes none. A
/// file that nests deeper than `NESTING_LIMIT` is not read at all.
pub open spec fn structured_setup(bytes: Seq<u8>) -> Result<SetupView, ParseError> {
    if nesting_depth(bytes) > NESTING_LIMIT {
        Err(ParseError::Malformed)
    } else {
        match toml_document(bytes) {
            None => Err(ParseError::Malformed),
            Some(doc) => setup_of_fields(
                field_of(doc, COMMAND_FIELD@),
                field_of(doc, NAME_FIELD@),
                field_of(doc, COMMENT_FIELD@),
            ),
        }
    }
}

/// Reads a TOML document.
///
/// Trusted: this is `toml::from_slice`, read into a `toml::Value`. It takes
/// the bytes as UTF-8 text and parses them, and what it returns depends on
/// the bytes alone. The parser calls itself for every array and inline
/// table that stands in another and for every part of a key or a header,
/// and it has no limit of its own, so it is only handed files whose
/// nesting is bounded: with no more than `NESTING_LIMIT` brackets and
/// braces open at one place and no more than `NESTING_LIMIT` dots in one
/// key, neither the parser nor the document that it builds gets deeper
/// than a few hundred levels.
#[verifier::external_body]
fn read_document(bytes: &[u8]) -> (r: Result<toml::Value, toml::de::Error>)
    requires
        nesting_depth(bytes@) <= NESTING_LIMIT,
    ensures
        r matches Ok(doc) ==> toml_document(bytes@) == Some(doc),
        r is Err ==> toml_document(bytes@) is None,
{
    toml::from_slice::<toml::Value>(bytes)
}

/// Looks a key up in a document.
///
/// Trusted: this is `toml::Value::get` with a text key, which gives the
/// value under that key where the receiver is a table that holds the key.
#[verifier::external_body]
fn entry<'a>(table: &'a toml::Value, key: &str) -> (r: Option<&'a toml::Value>)
    ensures
        r matches Some(value) ==> toml_entry(*table, key@) == Some(*value),
        r is None ==> toml_entry(*table, key@) is None,
{
    table.get(key)
}

/// Reads a value as text.
///
/// Trusted: this is `toml::Value::as_str`, which gives the text of a TOML
/// string and nothing for any other value.
#[verifier::external_body]
fn text<'a>(value: &'a toml::Value) -> (r: Option<&'a str>)
    ensures
        r matches Some(t) ==> toml_text(*value) == Some(t@),
        r is None ==> toml_text(*value) is None,
{
    value.as_str()
}

/// Reads what a document holds under one key.
fn read_field(doc: &toml::Value, key: &str) -> (r: Field)
    ensures
        r@ == field_of(*doc, key@),
{
    match entry(doc, key) {
        None => Field::Absent,
        Some(value) => match text(value) {
            Some(t) => Field::Text(String::from_str(t)),
            None => Field::Other,
        },
    }
}

/// Makes a setup of the three fields of a structured file.
pub fn setup_from_fields(command: Field, name: Field, comment: Field) -> (r: Result<
    Setup,
    ParseError,
>)
    ensures
        match r {
            Ok(setup) => setup_of_fields(command@, name@, comment@) == Ok::<SetupView, ParseError>(
                setup@,
            ),
            Err(e) => setup_of_fields(command@, name@, comment@) == Err::<SetupView, ParseError>(e),
        },
{
    match name {
        Field::Absent => Err(ParseError::MissingName),
        Field::Other => Err(ParseError::NotText),
        Field::Text(n) => match command {
            Field::Absent => Err(ParseError::MissingCommand),
            Field::Other => Err(ParseError::NotText),
            Field::Text(c) => match comment {
                Field::Other => Err(ParseError::NotText),
                Field::Text(t) => Ok(Setup::with_comment(n, Some(c), Some(t))),
                Field::Absent => Ok(Setup::new(n, Some(c))),
            },
        },
    }
}

/// Reads a setup from a file in the structured format.
pub fn parse_structured(bytes: &[u8]) -> (r: Result<Setup, ParseError>)
    ensures
        match r {
            Ok(setup) => structured_setup(bytes@) == Ok::<SetupView, ParseError>(setup@),
            Err(e) => structured_setup(bytes@) == Err::<SetupView, ParseError>(e),
        },
{
    if measure_nesting(bytes) > NESTING_LIMIT {
        return Err(ParseError::Malformed);
    }
    match read_document(bytes) {
        Err(_) => Err(ParseError::Malformed),
        Ok(doc) => {
            let command = read_field(&doc, COMMAND_FIELD);
            let name = read_field(&doc, NAME_FIELD);
            let comment = read_field(&doc, COMMENT_FIELD);
            setup_from_fields(command, name, comment)
        },
    }
}

/// Every file that does not nest too deep is read: what it describes is
/// what its document holds under the three keys, and it is malformed only
/// where it is no document at all.
pub proof fn lemma_files_within_the_limit_are_read(bytes: Seq<u8>)
    requires
        nesting_depth(bytes) <= NESTING_LIMIT,
    ensures
        structured_setup(bytes) == match toml_document(bytes) {
            None => Err::<SetupView, ParseError>(ParseError::Malformed),
            Some(doc) => setup_of_fields(
                field_of(doc, COMMAND_FIELD@),
                field_of(doc, NAME_FIELD@),
                field_of(doc, COMMENT_FIELD@),
            ),
        },
{
}

/// A well-formed record within the limit gives its setup: where the
/// document holds text under `name` and under `command`, and text or
/// nothing under `comment`, the file describes the setup of that name and
/// that command, and there is no other way for a file to describe one.
pub proof fn lemma_well_formed_records_give_setups(bytes: Seq<u8>, doc: toml::Value)
    requires
        nesting_depth(bytes) <= NESTING_LIMIT,
        toml_document(bytes) == Some(doc),
    ensures
        structured_setup(bytes) is Ok <==> field_of(doc, NAME_FIELD@) is Text && field_of(
            doc,
            COMMAND_FIELD@,
        ) is Text && !(field_of(doc, COMMENT_FIELD@) is Other),
        structured_setup(bytes) matches Ok(setup) ==> field_of(doc, NAME_FIELD@) == FieldView::Text(
            setup.name,
        ) && setup.command == normal_command(Some(field_of(doc, COMMAND_FIELD@)->Text_0))
            && setup.comment == comment_of(field_of(doc, COMMENT_FIELD@)),
{
}

/// A file that does not nest, whatever its strings and comments hold, is
/// within the limit.
pub proof fn lemma_flat_files_are_within_the_limit(bytes: Seq<u8>)
    requires
        forall|at: int|
            0 <= at < bytes.len() && #[trigger] is_plain_at(bytes, at) ==> bytes[at] != SQUARE_OPEN
                && bytes[at] != CURLY_OPEN && bytes[at] != DOT,
    ensures
        nesting_depth(bytes) <= NESTING_LIMIT,
{
    lemma_text_does_not_nest(bytes);
}

/// A file that describes a setup gives it, as its name, the text that the
/// document holds under `name`, letter for letter.
pub proof fn lemma_structured_name_is_kept(bytes: Seq<u8>)
    requires
        structured_setup(bytes) is Ok,
    ensures
        toml_document(bytes) matches Some(doc) && field_of(doc, NAME_FIELD@) == FieldView::Text(
            structured_setup(bytes)->Ok_0.name,
        ),
{
}

} // verus!
