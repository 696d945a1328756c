//! Games: their states, their moves and the records that hold them.

use vstd::prelude::*;

use crate::address::Address;

verus! {

#[derive(Copy, Clone, Debug, PartialEq, Eq, Structural)]
pub enum GameState {
    Created,
    InProgress,
    Completed,
    Drawn,
    Forfeited,
}

impl GameState {
    /// The number that stands for the state in a record.
    pub open spec fn number(self) -> u32 {
        match self {
            GameState::Created => 0,
            GameState::InProgress => 1,
            GameState::Completed => 2,
            GameState::Drawn => 3,
            GameState::Forfeited => 4,
        }
    }

    /// The state that a number stands for.
    pub open spec fn of_number(number: u32) -> GameState {
        if number == 0 {
            GameState::Created
        } else if number == 1 {
            GameState::InProgress
        } else if number == 2 {
            GameState::Completed
        } else if number == 3 {
            GameState::Drawn
        } else {
            GameState::Forfeited
        }
    }

    fn to_number(self) -> (number: u32)
        ensures
            number == self.number(),
    {
        match self {
            GameState::Created => 0,
            GameState::InProgress => 1,
            GameState::Completed => 2,
            GameState::Drawn => 3,
            GameState::Forfeited => 4,
        }
    }

    fn from_number(number: u32) -> (state: GameState)
        ensures
            state == GameState::of_number(number),
    {
        match number {
            0 => GameState::Created,
            1 => GameState::InProgress,
            2 => GameState::Completed,
            3 => GameState::Drawn,
            _ => GameState::Forfeited,
        }
    }
}

/// One move: who made it, what it was and the ledger sequence it was made at.
#[derive(Clone, Debug)]
pub struct ChessMove {
    pub player: Address,
    pub move_data: Vec<u32>,
    pub timestamp: u64,
}

/// A move as a mathematical value.
#[verifier::ext_equal]
pub struct MoveModel {
    pub player: Address,
    pub move_data: Seq<u32>,
    pub timestamp: u64,
}

impl View for ChessMove {
    type V = MoveModel;

    open spec fn view(&self) -> MoveModel {
        MoveModel { player: self.player, move_data: self.move_data@, timestamp: self.timestamp }
    }
}

#[derive(Clone, Debug)]
pub struct Game {
    pub id: u64,
    pub player1: Address,
    pub player2: Option<Address>,
    pub state: GameState,
    pub wager_amount: i128,
    /// 1 when `player1` is to move, 2 when `player2` is.
    pub current_turn: u32,
    pub moves: Vec<ChessMove>,
    /// The ledger sequence at which the game was created.
    pub created_at: u64,
    pub winner: Option<Address>,
}

/// A game as a mathematical value.
#[verifier::ext_equal]
pub struct GameModel {
    pub id: u64,
    pub player1: Address,
    pub player2: Option<Address>,
    pub state: GameState,
    pub wager_amount: i128,
    pub current_turn: u32,
    pub moves: Seq<MoveModel>,
    pub created_at: u64,
    pub winner: Option<Address>,
}

/// The moves of a list, each as a mathematical value.
pub open spec fn moves_view(moves: Seq<ChessMove>) -> Seq<MoveModel> {
    moves.map_values(|m: ChessMove| m@)
}

impl View for Game {
    type V = GameModel;

    open spec fn view(&self) -> GameModel {
        GameModel {
            id: self.id,
            player1: self.player1,
            player2: self.player2,
            state: self.state,
            wager_amount: self.wager_amount,
            current_turn: self.current_turn,
            moves: moves_view(self.moves@),
            created_at: self.created_at,
            winner: self.winner,
        }
    }
}

impl GameModel {
    /// Whether the address is one of the two players.
    pub open spec fn has_player(self, player: Address) -> bool {
        player == self.player1 || Some(player) == self.player2
    }

    /// The number of a player's seat, 1 or 2; `player1` comes first.
    pub open spec fn seat(self, player: Address) -> Option<u32> {
        if player == self.player1 {
            Some(1u32)
        } else if Some(player) == self.player2 {
            Some(2u32)
        } else {
            None
        }
    }

    /// The player on the other side of the board.
    pub open spec fn opponent(self, player: Address) -> Option<Address> {
        if player == self.player1 {
            self.player2
        } else {
            Some(self.player1)
        }
    }

    /// Who makes the move of the given number, counted from zero.
    pub open spec fn mover(self, index: int) -> Option<Address> {
        if index % 2 == 0 {
            Some(self.player1)
        } else {
            self.player2
        }
    }

    /// Whether the game was drawn or forfeited.
    pub open spec fn is_over(self) -> bool {
        self.state == GameState::Drawn || self.state == GameState::Forfeited
    }

    /// What holds of every game that the contract has run from its creation.
    pub open spec fn wf(self) -> bool {
        &&& self.player2 != Some(self.player1)
        &&& self.current_turn == 1 + self.moves.len() % 2
        &&& self.state == GameState::Created ==> {
            &&& self.player2 is None
            &&& self.moves.len() == 0
        }
        &&& self.state != GameState::Created ==> self.player2 is Some
        &&& forall|i: int|
            0 <= i < self.moves.len() ==> {
                &&& self.mover(i) == Some((#[trigger] self.moves[i]).player)
                &&& self.moves[i].move_data.len() > 0
            }
        &&& self.state == GameState::Created || self.state == GameState::InProgress || self.state
            == GameState::Drawn ==> self.winner is None
        &&& self.state == GameState::Forfeited ==> {
            &&& self.winner is Some
            &&& self.winner == Some(self.player1) || self.winner == self.player2
        }
    }
}

/// A game as the values of its fields, in order, with the state as a number.
pub type GameRecord = (
    u64,
    Address,
    Option<Address>,
    u32,
    i128,
    u32,
    Vec<ChessMove>,
    u64,
    Option<Address>,
);

/// A record as a mathematical value.
pub type RecordModel = (
    u64,
    Address,
    Option<Address>,
    u32,
    i128,
    u32,
    Seq<MoveModel>,
    u64,
    Option<Address>,
);

pub open spec fn record_view(r: GameRecord) -> RecordModel {
    (r.0, r.1, r.2, r.3, r.4, r.5, moves_view(r.6@), r.7, r.8)
}

/// The record that holds a game.
pub open spec fn record_of(g: GameModel) -> RecordModel {
    (
        g.id,
        g.player1,
        g.player2,
        g.state.number(),
        g.wager_amount,
        g.current_turn,
        g.moves,
        g.created_at,
        g.winner,
    )
}

/// The game that a record holds.
pub open spec fn game_of(r: RecordModel) -> GameModel {
    GameModel {
        id: r.0,
        player1: r.1,
        player2: r.2,
        state: GameState::of_number(r.3),
        wager_amount: r.4,
        current_turn: r.5,
        moves: r.6,
        created_at: r.7,
        winner: r.8,
    }
}

/// A game read back from its record is the game that was written.
pub proof fn record_round_trip(g: GameModel)
    ensures
        game_of(record_of(g)) == g,
{
}

impl Game {
    pub(crate) fn into_record(self) -> (record: GameRecord)
        ensures
            record_view(record) == record_of(self@),
    {
        (
            self.id,
            self.player1,
            self.player2,
            self.state.to_number(),
            self.wager_amount,
            self.current_turn,
            self.moves,
            self.created_at,
            self.winner,
        )
    }

    pub(crate) fn from_record(record: GameRecord) -> (game: Game)
        ensures
            game@ == game_of(record_view(record)),
    {
        Game {
            id: record.0,
            player1: record.1,
            player2: record.2,
            state: GameState::from_number(record.3),
            wager_amount: record.4,
            current_turn: record.5,
            moves: record.6,
            created_at: record.7,
            winner: record.8,
        }
    }
}

} // verus!
