//! Error and result types.
use vstd::prelude::*;
use vstd::string::StringExecFns;
use crate::bao::pv::PVLine;
use crate::text::{decimal, decimal_text, signed_decimal, signed_decimal_text};

verus! {

/// Search error type.
#[derive(Debug)]
pub enum SearchError {
    /// A line could not be delivered, since nobody listens any more; holds
    /// the line.
    SendPVLineError(PVLine),
}

/// Search result type.
pub type SearchResult<T> = Result<T, SearchError>;

/// Why a text could not be read as a move.
#[derive(Debug)]
pub enum MoveFactoryError {
    /// The pit is not written as a decimal digit.
    ParseError,
    /// The pit number is not one that the form of the text allows.
    ParseInvalidIndex(i8),
    /// The direction is neither `L` nor `R`.
    ParseInvalidDirection(String),
    /// The text has a length that no move is written in.
    ParseInvalidLength(usize),
}

/// The content of a [`MoveFactoryError`].
pub enum MoveFactoryErrorView {
    ParseError,
    ParseInvalidIndex(i8),
    ParseInvalidDirection(Seq<char>),
    ParseInvalidLength(usize),
}

impl View for MoveFactoryError {
    type V = MoveFactoryErrorView;

    open spec fn view(&self) -> MoveFactoryErrorView {
        match self {
            MoveFactoryError::ParseError => MoveFactoryErrorView::ParseError,
            MoveFactoryError::ParseInvalidIndex(index) => MoveFactoryErrorView::ParseInvalidIndex(
                *index,
            ),
            MoveFactoryError::ParseInvalidDirection(text) => {
                MoveFactoryErrorView::ParseInvalidDirection(text@)
            },
            MoveFactoryError::ParseInvalidLength(length) => {
                MoveFactoryErrorView::ParseInvalidLength(*length)
            },
        }
    }
}

impl MoveFactoryErrorView {
    /// The message of the error.
    pub open spec fn text(self) -> Seq<char> {
        match self {
            MoveFactoryErrorView::ParseError => "ParseError: invalid digit found in string"@,
            MoveFactoryErrorView::ParseInvalidIndex(index) => "ParseInvalidIndex: "@
                + signed_decimal_text(index as int),
            MoveFactoryErrorView::ParseInvalidDirection(text) => "ParseInvalidDirection: "@ + text,
            MoveFactoryErrorView::ParseInvalidLength(length) => "ParseInvalidLength: "@
                + decimal_text(length as nat),
        }
    }
}

impl MoveFactoryError {
    /// The message of the error: its name, a colon and what was found.
    pub fn to_text(&self) -> (text: String)
        ensures
            text@ == self@.text(),
    {
        match self {
            MoveFactoryError::ParseError => String::from_str(
                "ParseError: invalid digit found in string",
            ),
            MoveFactoryError::ParseInvalidIndex(index) => {
                let mut text = String::from_str("ParseInvalidIndex: ");
                text.append(signed_decimal(*index).as_str());
                text
            },
            MoveFactoryError::ParseInvalidDirection(direction) => {
                let mut text = String::from_str("ParseInvalidDirection: ");
                text.append(direction.as_str());
                text
            },
            MoveFactoryError::ParseInvalidLength(length) => {
                let mut text = String::from_str("ParseInvalidLength: ");
                text.append(decimal(*length).as_str());
                text
            },
        }
    }
}

/// Move factory result type.
pub type MoveFactoryResult<T> = Result<T, MoveFactoryError>;

/// Why a move could not be added to a game.
#[derive(Debug)]
pub enum GameBuilderError {
    /// The text of the move could not be read.
    InvalidMove(MoveFactoryError),
    /// The move is not legal in the position; holds the move's text.
    IllegalMove(String),
}

/// The content of a [`GameBuilderError`].
pub enum GameBuilderErrorView {
    InvalidMove(MoveFactoryErrorView),
    IllegalMove(Seq<char>),
}

impl View for GameBuilderError {
    type V = GameBuilderErrorView;

    open spec fn view(&self) -> GameBuilderErrorView {
        match self {
            GameBuilderError::InvalidMove(error) => GameBuilderErrorView::InvalidMove(error@),
            GameBuilderError::IllegalMove(text) => GameBuilderErrorView::IllegalMove(text@),
        }
    }
}

impl GameBuilderErrorView {
    /// The message of the error.
    pub open spec fn text(self) -> Seq<char> {
        match self {
            GameBuilderErrorView::InvalidMove(error) => "InvalidMove: "@ + error.text(),
            GameBuilderErrorView::IllegalMove(text) => "IllegalMove: "@ + text,
        }
    }
}

impl GameBuilderError {
    /// The message of the error: its name, a colon and what was found.
    pub fn to_text(&self) -> (text: String)
        ensures
            text@ == self@.text(),
    {
        match self {
            GameBuilderError::InvalidMove(error) => {
                let mut text = String::from_str("InvalidMove: ");
                text.append(error.to_text().as_str());
                text
            },
            GameBuilderError::IllegalMove(illegal) => {
                let mut text = String::from_str("IllegalMove: ");
                text.append(illegal.as_str());
                text
            },
        }
    }
}

/// Game factory result type
pub type GameBuilderResult<T> = Result<T, GameBuilderError>;

} // verus!
