//! Build a game move by move.
use vstd::prelude::*;
use vstd::string::{StringExecFns, StringSliceAdditionalSpecFns};
use vstd::utf8::{encode_utf8, is_ascii_chars_encode_utf8};
use crate::bao::board::ZobristKeys;
use crate::bao::game::{Game, GameView};
use crate::bao::move_factory::MoveFactory;
use crate::bao::moves::{contains_move, Move};
use crate::error::{GameBuilderError, GameBuilderErrorView, GameBuilderResult};
use crate::text::digit_str;

verus! {

/// A game under construction: the position reached so far and the keys that
/// its boards are hashed with.
#[derive(Debug)]
pub struct GameBuilder {
    game: Game,
    keys: ZobristKeys,
}

/// Whether a byte is a decimal digit.
pub open spec fn is_digit(byte: u8) -> bool {
    48 <= byte <= 57
}

/// Whether a byte is one of the direction letters `L` and `R`.
pub open spec fn is_side(byte: u8) -> bool {
    byte == 76 || byte == 82
}

/// Whether a byte is one of the row letters `a`, `A`, `b` and `B`.
pub open spec fn is_row(byte: u8) -> bool {
    byte == 97 || byte == 65 || byte == 98 || byte == 66
}

/// Whether a byte belongs to a word: a letter, a digit, an underscore, or a
/// byte of a character outside ASCII.
pub open spec fn is_word(byte: u8) -> bool {
    is_digit(byte) || 65 <= byte <= 90 || 97 <= byte <= 122 || byte == 95 || byte >= 128
}

/// The end of the longest run of digits that starts at `from`.
pub open spec fn digits_end(text: Seq<u8>, from: int) -> int
    decreases text.len() - from,
{
    if 0 <= from < text.len() && is_digit(text[from]) {
        digits_end(text, from + 1)
    } else {
        from
    }
}

/// The length of the number-and-direction form that starts at `from`: one
/// or more digits and a direction letter. Zero if there is none.
pub open spec fn directed_len(text: Seq<u8>, from: int) -> int {
    let end = digits_end(text, from);
    if from < end < text.len() && is_side(text[end]) {
        end + 1 - from
    } else {
        0
    }
}

/// The length of the move token that starts at `from`, zero if none starts
/// there. A token is, in this order of preference: digits and a direction
/// letter; a row letter, digits and a direction letter; a single digit that
/// stands alone, with no word byte before or after it.
pub open spec fn token_len(text: Seq<u8>, from: int) -> int {
    if directed_len(text, from) > 0 {
        directed_len(text, from)
    } else if is_row(text[from]) && directed_len(text, from + 1) > 0 {
        directed_len(text, from + 1) + 1
    } else if is_digit(text[from]) && (from == 0 || !is_word(text[from - 1])) && (from + 1
        == text.len() || !is_word(text[from + 1])) {
        1
    } else {
        0
    }
}

/// The digits of a run are digits, and the run ends in the text.
pub proof fn lemma_digits_end(text: Seq<u8>, from: int)
    requires
        0 <= from <= text.len(),
    ensures
        from <= digits_end(text, from) <= text.len(),
        forall|k: int| from <= k < digits_end(text, from) ==> is_digit(#[trigger] text[k]),
    decreases text.len() - from,
{
    if from < text.len() && is_digit(text[from]) {
        lemma_digits_end(text, from + 1);
    }
}

/// A token lies in the text and is made of digits and of row and direction
/// letters.
pub proof fn lemma_token_bytes(text: Seq<u8>, from: int)
    requires
        0 <= from < text.len(),
    ensures
        0 <= token_len(text, from) <= text.len() - from,
        forall|k: int|
            from <= k < from + token_len(text, from) ==> is_digit(#[trigger] text[k]) || is_side(
                text[k],
            ) || is_row(text[k]),
{
    lemma_digits_end(text, from);
    lemma_digits_end(text, from + 1);
}

impl GameView {
    /// The game after the turn that starts with `m`, or the error that names
    /// `m` if it is not legal.
    pub open spec fn with_move(self, m: Move) -> Result<GameView, GameBuilderErrorView> {
        if self.legal_moves().contains(m) {
            Ok(self.after_turn(m))
        } else {
            Err(GameBuilderErrorView::IllegalMove(m.text()))
        }
    }

    /// The game after the turns that start with `moves`, played one after
    /// the other, or the error of the first of them that is not legal where
    /// it is played.
    pub open spec fn with_moves(self, moves: Seq<Move>) -> Result<GameView, GameBuilderErrorView>
        decreases moves.len(),
    {
        if moves.len() == 0 {
            Ok(self)
        } else {
            match self.with_move(moves[0]) {
                Ok(next) => next.with_moves(moves.drop_first()),
                Err(error) => Err(error),
            }
        }
    }

    /// The builder can look at `m`: the move starts from a pit of the board
    /// and is not an end-phase capture that is legal and yet starts in the
    /// back row, where no pit faces the opponent.
    pub open spec fn can_take(self, m: Move) -> bool {
        &&& 0 <= m.index < 16
        &&& self.legal_moves().contains(m) ==> self.accepts(m)
    }

    /// The builder can look at every move of `moves` in the game in which it
    /// is played.
    pub open spec fn can_try(self, moves: Seq<Move>) -> bool
        decreases moves.len(),
    {
        moves.len() > 0 ==> {
            &&& self.can_take(moves[0])
            &&& self.legal_moves().contains(moves[0]) ==> self.after_turn(moves[0]).can_try(
                moves.drop_first(),
            )
        }
    }

    /// The game after the turn that starts with the move that `text` stands
    /// for, or why there is no such game: the text is no move, or the move
    /// is not legal.
    pub open spec fn with_text(self, text: Seq<u8>) -> Result<GameView, GameBuilderErrorView> {
        match self.parse_text(text) {
            Ok(m) => self.with_move(m),
            Err(error) => Err(GameBuilderErrorView::InvalidMove(error)),
        }
    }

    /// The game after the turns whose first moves are the tokens of `text`
    /// from byte `from` on, or the error of the first token that is no legal
    /// move. Bytes that belong to no token are passed over.
    pub open spec fn with_tokens(self, text: Seq<u8>, from: int) -> Result<
        GameView,
        GameBuilderErrorView,
    >
        decreases text.len() - from,
    {
        if from < 0 || from >= text.len() {
            Ok(self)
        } else if token_len(text, from) > 0 {
            match self.with_text(text.subrange(from, from + token_len(text, from))) {
                Ok(next) => next.with_tokens(text, from + token_len(text, from)),
                Err(error) => Err(error),
            }
        } else {
            self.with_tokens(text, from + 1)
        }
    }

    /// A move that was read from text can be looked at by the builder.
    pub proof fn lemma_parsed_can_be_taken(self, text: Seq<u8>)
        requires
            self.valid(),
        ensures
            self.parse_text(text) matches Ok(m) ==> self.can_take(m),
    {
        crate::bao::moves::lemma_flag_table();
        if let Ok(m) = self.parse_text(text) {
            if self.legal_moves().contains(m) {
                self.lemma_legal_move_shape(m);
            }
        }
    }
}

/// Whether `built` is the builder that holds the game `expected`, or the
/// error `expected`.
pub open spec fn built_as(
    built: GameBuilderResult<GameBuilder>,
    keys: ZobristKeys,
    expected: Result<GameView, GameBuilderErrorView>,
) -> bool {
    match expected {
        Ok(game) => built is Ok && built->Ok_0.game()@ == game && built->Ok_0.keys() == keys,
        Err(error) => built is Err && built->Err_0@ == error,
    }
}

impl GameBuilder {
    /// The position reached so far.
    pub closed spec fn game(&self) -> Game {
        self.game
    }

    /// The keys that the boards are hashed with.
    pub closed spec fn keys(&self) -> ZobristKeys {
        self.keys
    }

    #[verifier::type_invariant]
    spec fn inv(&self) -> bool {
        self.game.wf() && self.game.hashed(&self.keys)
    }

    /// A builder that holds the initial position.
    pub fn new(keys: ZobristKeys) -> (builder: GameBuilder)
        ensures
            builder.game()@ == GameView::initial(),
            builder.keys() == keys,
    {
        GameBuilder { game: Game::new(&keys), keys }
    }

    /// The game that was built: its boards are consistent and hashed with
    /// the builder's keys.
    pub fn build(self) -> (game: Game)
        ensures
            game == self.game(),
            game.wf(),
            game.hashed(&self.keys()),
    {
        proof {
            use_type_invariant(&self);
        }
        self.game
    }

    /// Plays the turn that starts with `m` if `m` is legal, and says that it
    /// is illegal if it is not.
    pub fn with_move(self, m: Move) -> (built: GameBuilderResult<GameBuilder>)
        requires
            self.game()@.can_take(m),
        ensures
            built_as(built, self.keys(), self.game()@.with_move(m)),
    {
        proof {
            use_type_invariant(&self);
        }
        let mut move_factory = MoveFactory::new(&self.game);
        let legal_moves = move_factory.get_legal_moves();
        if !contains_move(legal_moves, m) {
            return Err(GameBuilderError::IllegalMove(m.to_text()));
        }
        let mut game = self.game;
        game.take_turn(&self.keys, &m);
        Ok(GameBuilder { game, keys: self.keys })
    }

    /// Plays the turns that start with `moves`, one after the other, and
    /// stops at the first move that is not legal.
    pub fn with_moves(self, moves: &[Move]) -> (built: GameBuilderResult<GameBuilder>)
        requires
            self.game()@.can_try(moves@),
        ensures
            built_as(built, self.keys(), self.game()@.with_moves(moves@)),
    {
        let ghost start = self.game()@;
        let ghost keys = self.keys();
        let mut builder = self;
        let mut i: usize = 0;
        assert(moves@.subrange(0, moves@.len() as int) =~= moves@);
        while i < moves.len()
            invariant
                i <= moves@.len(),
                keys == self.keys(),
                start == self.game()@,
                builder.keys() == keys,
                builder.game()@.can_try(moves@.subrange(i as int, moves@.len() as int)),
                start.with_moves(moves@) == builder.game()@.with_moves(
                    moves@.subrange(i as int, moves@.len() as int),
                ),
            decreases moves@.len() - i,
        {
            assert(moves@.subrange(i as int, moves@.len() as int).drop_first() =~= moves@.subrange(
                i + 1,
                moves@.len() as int,
            ));
            match builder.with_move(moves[i]) {
                Ok(next) => {
                    builder = next;
                },
                Err(error) => {
                    return Err(error);
                },
            }
            i += 1;
        }
        Ok(builder)
    }

    /// Reads a move from `m` and plays the turn that starts with it.
    pub fn with_move_str(self, m: &str) -> (built: GameBuilderResult<GameBuilder>)
        ensures
            built_as(built, self.keys(), self.game()@.with_text(m.spec_bytes())),
    {
        proof {
            self.game()@.lemma_parsed_can_be_taken(m.spec_bytes());
        }
        let move_factory = MoveFactory::new(&self.game);
        match move_factory.parse_move(m) {
            Ok(m) => self.with_move(m),
            Err(error) => Err(GameBuilderError::InvalidMove(error)),
        }
    }

    /// The end of the longest run of digits that starts at `from`.
    fn scan_digits(text: &[u8], from: usize) -> (end: usize)
        requires
            from <= text@.len(),
        ensures
            end == digits_end(text@, from as int),
            from <= end <= text@.len(),
    {
        let mut end = from;
        while end < text.len() && 48 <= text[end] && text[end] <= 57
            invariant
                from <= end <= text@.len(),
                digits_end(text@, from as int) == digits_end(text@, end as int),
            decreases text@.len() - end,
        {
            end += 1;
        }
        end
    }

    /// The length of the digits-and-direction form at `from`, or zero.
    fn scan_directed(text: &[u8], from: usize) -> (length: usize)
        requires
            from <= text@.len(),
        ensures
            length == directed_len(text@, from as int),
    {
        let end = Self::scan_digits(text, from);
        if from < end && end < text.len() && (text[end] == 76 || text[end] == 82) {
            end + 1 - from
        } else {
            0
        }
    }

    /// Whether a byte belongs to a word.
    fn word_byte(byte: u8) -> (word: bool)
        ensures
            word == is_word(byte),
    {
        (48 <= byte && byte <= 57) || (65 <= byte && byte <= 90) || (97 <= byte && byte <= 122)
            || byte == 95 || byte >= 128
    }

    /// The length of the move token that starts at `from`, or zero.
    fn scan_token(text: &[u8], from: usize) -> (length: usize)
        requires
            from < text@.len(),
        ensures
            length == token_len(text@, from as int),
            length <= text@.len() - from,
    {
        proof {
            lemma_token_bytes(text@, from as int);
        }
        let directed = Self::scan_directed(text, from);
        if directed > 0 {
            return directed;
        }
        let first = text[from];
        if first == 97 || first == 65 || first == 98 || first == 66 {
            let rest = Self::scan_directed(text, from + 1);
            if rest > 0 {
                return rest + 1;
            }
        }
        if 48 <= first && first <= 57 && (from == 0 || !Self::word_byte(text[from - 1])) && (from
            + 1 == text.len() || !Self::word_byte(text[from + 1])) {
            1
        } else {
            0
        }
    }

    /// The text of one byte of a token.
    fn symbol(byte: u8) -> (text: &'static str)
        requires
            is_digit(byte) || is_side(byte) || is_row(byte),
        ensures
            text@ == seq![byte as char],
    {
        proof {
            reveal_strlit("L");
            reveal_strlit("R");
            reveal_strlit("a");
            reveal_strlit("A");
            reveal_strlit("b");
            reveal_strlit("B");
        }
        let text = if byte == 76 {
            "L"
        } else if byte == 82 {
            "R"
        } else if byte == 97 {
            "a"
        } else if byte == 65 {
            "A"
        } else if byte == 98 {
            "b"
        } else if byte == 66 {
            "B"
        } else {
            digit_str(byte - 48)
        };
        text
    }

    /// The token of `length` bytes that starts at `from`, as a string.
    fn token(text: &[u8], from: usize, length: usize) -> (token: String)
        requires
            from < text@.len(),
            length == token_len(text@, from as int),
        ensures
            encode_utf8(token@) == text@.subrange(from as int, from + length),
    {
        proof {
            lemma_token_bytes(text@, from as int);
        }
        let mut token = String::new();
        let mut k: usize = 0;
        let size = text.len();
        while k < length
            invariant
                k <= length,
                from + length <= text@.len() == size,
                token@.len() == k,
                forall|j: int| 0 <= j < k ==> #[trigger] token@[j] == text@[from + j] as char,
                forall|j: int|
                    from <= j < from + length ==> is_digit(#[trigger] text@[j]) || is_side(text@[j])
                        || is_row(text@[j]),
            decreases length - k,
        {
            let byte = text[from + k];
            token.append(Self::symbol(byte));
            k += 1;
        }
        proof {
            is_ascii_chars_encode_utf8(token@);
        }
        token
    }

    /// Plays the turns that start with the moves written in `moves`, one
    /// after the other, and stops at the first that is no legal move (see
    /// [`GameView::with_tokens`] and [`token_len`]).
    pub fn with_moves_str(self, moves: &str) -> (built: GameBuilderResult<GameBuilder>)
        ensures
            built_as(built, self.keys(), self.game()@.with_tokens(moves.spec_bytes(), 0)),
    {
        let text = moves.as_bytes();
        let mut builder = self;
        let mut from: usize = 0;
        while from < text.len()
            invariant
                from <= text@.len(),
                text@ == moves.spec_bytes(),
                builder.keys() == self.keys(),
                self.game()@.with_tokens(text@, 0) == builder.game()@.with_tokens(
                    text@,
                    from as int,
                ),
            decreases text@.len() - from,
        {
            let length = Self::scan_token(text, from);
            if length > 0 {
                let token = Self::token(text, from, length);
                match builder.with_move_str(token.as_str()) {
                    Ok(next) => {
                        builder = next;
                    },
                    Err(error) => {
                        return Err(error);
                    },
                }
                from += length;
            } else {
                from += 1;
            }
        }
        Ok(builder)
    }
}

} // verus!
