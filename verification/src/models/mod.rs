//! Policies that score the spaces of a board, and the choice of a move from
//! their scores.

use vstd::prelude::*;

pub mod trainer;

use crate::games::answer;
use crate::games::count_empty;
use crate::games::encoding;
use crate::games::lemma_round_trip;
use crate::games::lemma_take_space;
use crate::games::moved;
use crate::games::BoardGame;
use crate::games::Move;
use crate::games::Player;
use crate::games::Position;
use crate::games::Reward;

verus! {

/// A preference for one space. Only the order of scores matters: a policy
/// that computes in another kind of number hands over integers that stand in
/// the same order.
pub type Score = i64;

/// A policy: it scores every space of a board that it is shown.
pub trait Model {
    /// What the policy reports when it cannot evaluate a board.
    type Failure;

    /// Whether `answer` is one that the policy may give when it is shown
    /// the encoded board `xs`: scores, or the report of a failure. Each
    /// policy may say for itself what its answers are; of one that does
    /// not, every answer is taken to be possible.
    open spec fn answers(&self, xs: Seq<u8>, answer: Result<Seq<Score>, Self::Failure>) -> bool {
        true
    }

    /// Evaluates an encoded board, which holds one owner code for each
    /// space, and gives one score for each space.
    fn forward(&self, xs: &[u8]) -> (scores: Result<Vec<Score>, Self::Failure>)
        requires
            forall|i: int| 0 <= i < xs@.len() ==> xs@[i] <= 2,
        ensures
            self.answers(
                xs@,
                match scores {
                    Ok(given) => Ok(given@),
                    Err(e) => Err(e),
                },
            ),
    ;
}

/// Makes games of one kind.
pub trait GameFactory<G: BoardGame> {
    /// A game that is ready to be played.
    fn new(&self) -> (game: G)
        ensures
            game.valid(),
    ;
}

/// Whether the space at `i` can be chosen: it is on the board, it has a
/// score, and nobody owns it.
pub open spec fn is_candidate(board: Seq<Player>, scores: Seq<Score>, i: int) -> bool {
    &&& 0 <= i < board.len()
    &&& i < scores.len()
    &&& board[i] == Player::Empty
}

/// Whether the space at `i` is the one to choose: it is a candidate, no
/// candidate has a higher score, and every candidate before it has a lower one.
pub open spec fn is_best(board: Seq<Player>, scores: Seq<Score>, i: int) -> bool {
    &&& is_candidate(board, scores, i)
    &&& forall|j: int| #[trigger]
        is_candidate(board, scores, j) ==> scores[j] <= scores[i] && (j < i ==> scores[j]
            < scores[i])
}

/// The numeric encoding of a board for a policy.
pub fn encode_board(board: &[Player]) -> (xs: Vec<u8>)
    ensures
        xs@ == encoding(board@),
        forall|i: int| 0 <= i < xs@.len() ==> xs@[i] <= 2,
{
    let mut xs: Vec<u8> = Vec::new();
    let mut i: usize = 0;
    while i < board.len()
        invariant
            i <= board.len(),
            xs@ == encoding(board@.take(i as int)),
        decreases board.len() - i,
    {
        xs.push(u8::from(board[i]));
        i += 1;
        assert(xs@ == encoding(board@.take(i as int)));
    }
    assert(board@.take(i as int) == board@);
    xs
}

/// Chooses among the empty spaces the one with the highest score, and among
/// equals the first. There is a choice exactly if some empty space has a score.
pub fn best_space(board: &[Player], scores: &[Score]) -> (choice: Option<usize>)
    ensures
        choice matches Some(i) ==> is_best(board@, scores@, i as int),
        choice is None <==> forall|j: int| !is_candidate(board@, scores@, j),
{
    let mut choice: Option<usize> = None;
    let mut best: Score = 0;
    let mut i: usize = 0;
    while i < board.len() && i < scores.len()
        invariant
            i <= board.len(),
            i <= scores.len(),
            choice matches Some(c) ==> c < i && best == scores@[c as int] && is_candidate(
                board@,
                scores@,
                c as int,
            ),
            choice matches Some(c) ==> forall|j: int|
                0 <= j < i && #[trigger] is_candidate(board@, scores@, j) ==> scores@[j]
                    <= scores@[c as int] && (j < c ==> scores@[j] < scores@[c as int]),
            choice is None ==> forall|j: int| 0 <= j < i ==> !is_candidate(board@, scores@, j),
        decreases board.len() - i,
    {
        if board[i] == Player::Empty {
            let take = match choice {
                None => true,
                Some(_) => scores[i] > best,
            };
            if take {
                choice = Some(i);
                best = scores[i];
            }
        }
        i += 1;
    }
    choice
}

/// Whether a move names an empty space of the board by its column and row,
/// so that nothing refuses it.
pub open spec fn is_legal(pos: Position, pmove: Move) -> bool {
    pos.refusal(pmove) is None
}

/// Whether `choice` is the move to make in `pos` on the scores of a policy:
/// the empty space with the highest score, and among equals the first,
/// named by its column and row; or none, where no empty space has a score.
pub open spec fn is_pick(pos: Position, scores: Seq<Score>, choice: Option<Move>) -> bool {
    match choice {
        Some(pmove) => is_legal(pos, pmove) && is_best(
            pos.board,
            scores,
            pmove.linear(pos.columns as int),
        ),
        None => forall|j: int| !is_candidate(pos.board, scores, j),
    }
}

/// Whether `choice` is what comes of a policy's answer in `pos`: its failure
/// as it came, or the move to make on its scores.
pub open spec fn follows_answer<E>(
    pos: Position,
    answer: Result<Seq<Score>, E>,
    choice: Result<Option<Move>, E>,
) -> bool {
    match answer {
        Err(e) => choice == Err::<Option<Move>, E>(e),
        Ok(scores) => choice matches Ok(picked) && is_pick(pos, scores, picked),
    }
}

/// Whether `choice` is what comes of asking the policy in `pos`: the policy
/// has an answer to the encoding of the board, and the choice follows it.
pub open spec fn is_model_choice<M: Model>(
    model: &M,
    pos: Position,
    choice: Result<Option<Move>, M::Failure>,
) -> bool {
    exists|answer: Result<Seq<Score>, M::Failure>| #[trigger]
        model.answers(encoding(pos.board), answer) && follows_answer(pos, answer, choice)
}

/// On given scores there is one choice and no other.
pub proof fn lemma_one_pick(
    pos: Position,
    scores: Seq<Score>,
    first: Option<Move>,
    second: Option<Move>,
)
    requires
        is_pick(pos, scores, first),
        is_pick(pos, scores, second),
    ensures
        first == second,
{
    match (first, second) {
        (Some(a), Some(b)) => {
            let i = a.linear(pos.columns as int);
            let j = b.linear(pos.columns as int);
            assert(is_candidate(pos.board, scores, i));
            assert(is_candidate(pos.board, scores, j));
            assert(i == j);
            let columns = pos.columns as int;
            vstd::arithmetic::div_mod::lemma_fundamental_div_mod_converse(
                i,
                columns,
                a.1 as int,
                a.0 as int,
            );
            vstd::arithmetic::div_mod::lemma_fundamental_div_mod_converse(
                j,
                columns,
                b.1 as int,
                b.0 as int,
            );
        },
        (Some(a), None) => {
            assert(is_candidate(pos.board, scores, a.linear(pos.columns as int)));
        },
        (None, Some(b)) => {
            assert(is_candidate(pos.board, scores, b.linear(pos.columns as int)));
        },
        (None, None) => {},
    }
}

/// Chooses the game's next move from the scores of a policy: the empty
/// space with the highest score, and among equals the first, named by its
/// column and row. There is a choice exactly if some empty space has a score.
pub fn pick_move<G: BoardGame>(game: &G, scores: &[Score]) -> (choice: Option<Move>)
    requires
        game.valid(),
    ensures
        is_pick(game.position(), scores@, choice),
{
    let board = game.get_board();
    match best_space(board.as_slice(), scores) {
        None => None,
        Some(index) => {
            let columns = game.columns();
            proof {
                game.lemma_valid();
                let rows = game.position().rows;
                assert(columns > 0) by (nonlinear_arith)
                    requires
                        0 <= index < columns * rows,
                ;
                lemma_round_trip(index as int, columns as int);
            }
            Some(Move::from_1d(index, columns))
        },
    }
}

/// Asks the policy to score the game's board and chooses the game's next
/// move from its answer. The policy is shown the encoding of the board. A
/// failure of the policy is passed on as it came; on scores the choice is
/// the empty space with the highest, and among equals the first, or none
/// where the policy scored no empty space. So a move that is chosen is
/// legal, whatever the policy answers.
pub fn get_move_model<G: BoardGame, M: Model>(game: &G, model: &M) -> (choice: Result<
    Option<Move>,
    M::Failure,
>)
    requires
        game.valid(),
    ensures
        is_model_choice(model, game.position(), choice),
        choice matches Ok(Some(pmove)) ==> is_legal(game.position(), pmove),
{
    let board = game.get_board();
    let xs = encode_board(board.as_slice());
    match model.forward(xs.as_slice()) {
        Err(e) => {
            assert(model.answers(encoding(game.position().board), Err(e)));
            Err(e)
        },
        Ok(scores) => {
            let picked = pick_move(game, scores.as_slice());
            assert(model.answers(encoding(game.position().board), Ok(scores@)));
            assert(follows_answer::<M::Failure>(
                game.position(),
                Ok(scores@),
                Ok(picked),
            ));
            Ok(picked)
        },
    }
}

/// One entry of an episode's log: who moved, the board as it stood before
/// the move, and the move.
#[derive(Clone, Debug, PartialEq, Eq)]
pub struct LogEntry {
    pub turn: Player,
    pub board: Vec<Player>,
    pub pmove: Move,
}

/// A game played to its end: the result, which is the empty owner for a tie,
/// and every move in the order in which it was made.
#[derive(Clone, Debug, PartialEq, Eq)]
pub struct Episode {
    pub winner: Player,
    pub log: Vec<LogEntry>,
}

/// Why a game of self-play came to no end.
#[derive(Clone, Debug, PartialEq, Eq)]
pub enum SessionError<E> {
    /// The policy could not evaluate a board; its report is passed on as it came.
    Policy(E),
    /// The policy gave no score for any empty space.
    NoLegalMove,
}

/// The position that a log entry was made in, on a board of the size of `start`.
pub open spec fn entry_position(start: Position, entry: LogEntry) -> Position {
    Position { columns: start.columns, rows: start.rows, board: entry.board@, turn: entry.turn }
}

/// Whether `next` is what the legal move `pmove` makes of `pos` under the
/// rules of the game `G`, with one side of the coin or the other.
pub open spec fn leads_to<G: BoardGame>(pos: Position, pmove: Move, next: Position) -> bool {
    let index = pmove.linear(pos.columns as int);
    &&& is_legal(pos, pmove)
    &&& (next == moved::<G>(pos, index, true) || next == moved::<G>(pos, index, false))
}

/// Whether the move of entry `i` of a log leads to the position of the next
/// entry, and the game still goes on there.
pub open spec fn is_step<G: BoardGame>(start: Position, log: Seq<LogEntry>, i: int) -> bool {
    &&& leads_to::<G>(
        entry_position(start, log[i]),
        log[i].pmove,
        entry_position(start, log[i + 1]),
    )
    &&& G::outcome(entry_position(start, log[i + 1])) is None
}

/// Whether `log` tells how the game `G` went from `start` to `end`: with no
/// entry the two are the same; else the first entry was made in `start`,
/// every entry's move leads to the position of the next entry, in which the
/// game still goes on, and the last entry's move leads to `end`.
pub open spec fn is_record<G: BoardGame>(
    start: Position,
    log: Seq<LogEntry>,
    end: Position,
) -> bool {
    if log.len() == 0 {
        end == start
    } else {
        &&& entry_position(start, log[0]) == start
        &&& forall|i: int| 0 <= i < log.len() - 1 ==> #[trigger] is_step::<G>(start, log, i)
        &&& leads_to::<G>(entry_position(start, log.last()), log.last().pmove, end)
    }
}

/// Whether every move of a log is what came of asking the policy in the
/// position of its entry.
pub open spec fn is_chosen<M: Model>(model: &M, start: Position, log: Seq<LogEntry>) -> bool {
    forall|i: int|
        0 <= i < log.len() ==> is_model_choice(
            model,
            entry_position(start, #[trigger] log[i]),
            Ok(Some(log[i].pmove)),
        )
}

/// What came of asking the policy when a game of self-play stopped with an
/// error: the policy's failure, or no choice.
pub open spec fn last_choice<E>(error: SessionError<E>) -> Result<Option<Move>, E> {
    match error {
        SessionError::Policy(e) => Err(e),
        SessionError::NoLegalMove => Ok(None),
    }
}

/// Whether a game of self-play of `G` with the policy went from `start` to
/// `end` as `log` tells and stopped there with `error`: every move of the
/// log came of asking the policy, and in `end` the policy failed, or it
/// scored no empty space.
pub open spec fn is_stopped<G: BoardGame, M: Model>(
    model: &M,
    start: Position,
    log: Seq<LogEntry>,
    end: Position,
    error: SessionError<M::Failure>,
) -> bool {
    &&& is_record::<G>(start, log, end)
    &&& is_chosen(model, start, log)
    &&& is_model_choice(model, end, last_choice(error))
}

/// A log whose moves came of asking the policy, with a further entry whose
/// move did so too, is a log whose moves came of asking the policy.
pub proof fn lemma_chosen_grows<M: Model>(
    model: &M,
    start: Position,
    log: Seq<LogEntry>,
    entry: LogEntry,
)
    requires
        is_chosen(model, start, log),
        is_model_choice(model, entry_position(start, entry), Ok(Some(entry.pmove))),
    ensures
        is_chosen(model, start, log.push(entry)),
{
    let longer = log.push(entry);
    assert forall|i: int| 0 <= i < longer.len() implies is_model_choice(
        model,
        entry_position(start, #[trigger] longer[i]),
        Ok(Some(longer[i].pmove)),
    ) by {
        if i < log.len() {
            assert(longer[i] == log[i]);
        } else {
            assert(longer[i] == entry);
        }
    }
}

/// A record that ends where a further entry was made, in a game that still
/// goes on, is with that entry a record of the game up to where the entry's
/// move leads.
pub proof fn lemma_record_grows<G: BoardGame>(
    start: Position,
    log: Seq<LogEntry>,
    entry: LogEntry,
    before: Position,
    after: Position,
)
    requires
        is_record::<G>(start, log, before),
        entry_position(start, entry) == before,
        leads_to::<G>(before, entry.pmove, after),
        log.len() > 0 ==> G::outcome(before) is None,
    ensures
        is_record::<G>(start, log.push(entry), after),
{
    let longer = log.push(entry);
    assert(longer.last() == entry);
    if log.len() == 0 {
        assert(longer[0] == entry);
    } else {
        assert(longer[0] == log[0]);
        assert forall|i: int| 0 <= i < longer.len() - 1 implies #[trigger] is_step::<G>(
            start,
            longer,
            i,
        ) by {
            assert(longer[i] == log[i]);
            if i < log.len() - 1 {
                assert(longer[i + 1] == log[i + 1]);
                assert(is_step::<G>(start, log, i));
            } else {
                assert(longer[i + 1] == entry);
                assert(log[i] == log.last());
            }
        }
    }
}

/// In the record of a game the entries are made by the two players in turn,
/// beginning with the player who was to move at the start.
pub proof fn lemma_record_turns<G: BoardGame>(
    start: Position,
    log: Seq<LogEntry>,
    end: Position,
    i: int,
)
    requires
        start.turn.is_player(),
        is_record::<G>(start, log, end),
        0 <= i < log.len(),
    ensures
        log[i].turn == if i % 2 == 0 {
            start.turn
        } else {
            start.turn.opponent()
        },
    decreases i,
{
    if i > 0 {
        lemma_record_turns::<G>(start, log, end, i - 1);
        assert(is_step::<G>(start, log, i - 1));
    }
}

/// A legal move takes one empty space and leaves the size of the board as
/// it is, whatever the rules make of the board afterwards.
pub proof fn lemma_move_takes_space<G: BoardGame>(pos: Position, pmove: Move, next: Position)
    requires
        pos.wf(),
        leads_to::<G>(pos, pmove, next),
    ensures
        next.columns == pos.columns,
        next.rows == pos.rows,
        next.board.len() == pos.board.len(),
        next.turn == pos.turn.opponent(),
        count_empty(next.board) + 1 == count_empty(pos.board),
{
    let index = pmove.linear(pos.columns as int);
    assert(pmove.1 * pos.columns >= 0) by (nonlinear_arith);
    let taken = pos.board.update(index, pos.turn);
    lemma_take_space(pos.board, index, pos.turn);
    G::lemma_settled(taken, pos.columns, pos.rows, index, true);
    G::lemma_settled(taken, pos.columns, pos.rows, index, false);
}

/// Plays one game to its end: asks the policy for scores, chooses the empty
/// space with the highest, logs the turn, the board and the move, and plays
/// it, until the game tells a result. The log is a true record of the game
/// from where it stood to where it stands, every move of it came of asking
/// the policy, and the winner is the result of the last position; no game
/// takes more moves than the board had empty spaces. The game stops with an
/// error where the policy fails, which is passed on as it came, or where it
/// scores no empty space; the game then stands where the moves so far have
/// brought it.
pub fn play_episode<G: BoardGame, M: Model>(game: &mut G, model: &M) -> (episode: Result<
    Episode,
    SessionError<M::Failure>,
>)
    requires
        old(game).valid(),
    ensures
        final(game).valid(),
        episode matches Ok(ep) ==> {
            &&& ep.log@.len() > 0
            &&& ep.log@.len() <= count_empty(old(game).position().board)
            &&& is_record::<G>(old(game).position(), ep.log@, final(game).position())
            &&& is_chosen(model, old(game).position(), ep.log@)
            &&& G::outcome(final(game).position()) == Some(ep.winner)
        },
        episode matches Err(error) ==> exists|log: Seq<LogEntry>| #[trigger]
            is_stopped::<G, M>(model, old(game).position(), log, final(game).position(), error),
{
    let ghost start = game.position();
    let mut log: Vec<LogEntry> = Vec::new();
    loop
        invariant
            start == old(game).position(),
            game.valid(),
            game.position().columns == start.columns,
            game.position().rows == start.rows,
            is_record::<G>(start, log@, game.position()),
            is_chosen(model, start, log@),
            log@.len() + count_empty(game.position().board) == count_empty(start.board),
            log@.len() > 0 ==> G::outcome(game.position()) is None,
        decreases count_empty(game.position().board),
    {
        let ghost before = game.position();
        let ghost before_log = log@;
        let choice = match get_move_model(game, model) {
            Err(e) => {
                assert(is_stopped::<G, M>(model, start, log@, before, SessionError::Policy(e)));
                return Err(SessionError::Policy(e));
            },
            Ok(choice) => choice,
        };
        let pmove = match choice {
            None => {
                assert(is_stopped::<G, M>(model, start, log@, before, SessionError::NoLegalMove));
                return Err(SessionError::NoLegalMove);
            },
            Some(pmove) => pmove,
        };
        proof {
            game.lemma_valid();
        }
        let entry = LogEntry { turn: game.get_turn(), board: game.get_board(), pmove };
        let ghost made = entry;
        log.push(entry);
        let result = game.play(pmove);
        proof {
            let after = game.position();
            assert(leads_to::<G>(before, pmove, after));
            lemma_record_grows::<G>(start, before_log, made, before, after);
            lemma_chosen_grows(model, start, before_log, made);
            lemma_move_takes_space::<G>(before, pmove, after);
        }
        match result {
            Ok(Some(winner)) => {
                return Ok(Episode { winner, log });
            },
            Ok(None) => {},
            Err(_) => unreached(),
        }
    }
}

/// One training example: an encoded board, and the target vector that
/// rewards the move that was made on it.
#[derive(Clone, Debug, PartialEq, Eq)]
pub struct TrainingSet {
    pub input: Vec<u8>,
    pub output: Vec<Reward>,
}

/// The training examples of one episode, in the order of its moves.
#[derive(Clone, Debug, PartialEq, Eq)]
pub struct TrainingSession {
    pub sets: Vec<TrainingSet>,
}

/// Which log entries an episode with the given result trains on: the moves
/// of the winner, or after a tie every move.
pub open spec fn is_kept(winner: Player) -> spec_fn(LogEntry) -> bool {
    |entry: LogEntry| winner == Player::Empty || entry.turn == winner
}

/// Whether `set` is the training example of a log entry, for a board of
/// `cells` spaces in rows of `columns` and an episode of `turn_count` turns.
pub open spec fn is_example(
    set: TrainingSet,
    entry: LogEntry,
    cells: nat,
    columns: nat,
    turn_count: usize,
    scale: u32,
) -> bool {
    &&& set.input@ == encoding(entry.board@)
    &&& set.output@ == answer(cells, entry.pmove.linear(columns as int), scale, turn_count)
}

/// Whether `sets` are the training examples of an episode: one for each
/// entry that is kept, in the order of the log, each rewarding its move with
/// `scale` over the number of all turns of the episode.
pub open spec fn is_training_set(
    sets: Seq<TrainingSet>,
    log: Seq<LogEntry>,
    winner: Player,
    cells: nat,
    columns: nat,
    scale: u32,
) -> bool {
    let kept = log.filter(is_kept(winner));
    &&& sets.len() == kept.len()
    &&& forall|i: int|
        0 <= i < sets.len() ==> is_example(
            #[trigger] sets[i],
            kept[i],
            cells,
            columns,
            log.len() as usize,
            scale,
        )
}

/// Builds the training examples of a finished episode of `game`: of the log
/// it keeps the entries of the winner, or all of them after a tie, and turns
/// each into the encoding of its board and the target vector of its move.
pub fn build_training_set<G: BoardGame>(
    game: &G,
    log: &[LogEntry],
    winner: Player,
    scale: u32,
) -> (session: TrainingSession)
    requires
        game.valid(),
    ensures
        is_training_set(
            session.sets@,
            log@,
            winner,
            game.position().board.len(),
            game.position().columns,
            scale,
        ),
{
    let turn_count = log.len();
    let ghost cells = game.position().board.len();
    let ghost columns = game.position().columns;
    let mut sets: Vec<TrainingSet> = Vec::new();
    let mut i: usize = 0;
    proof {
        reveal(Seq::filter);
        assert(log@.take(0).filter(is_kept(winner)).len() == 0);
    }
    while i < log.len()
        invariant
            game.valid(),
            cells == game.position().board.len(),
            columns == game.position().columns,
            turn_count == log.len(),
            i <= log.len(),
            sets@.len() == log@.take(i as int).filter(is_kept(winner)).len(),
            forall|j: int|
                0 <= j < sets@.len() ==> is_example(
                    #[trigger] sets@[j],
                    log@.take(i as int).filter(is_kept(winner))[j],
                    cells,
                    columns,
                    turn_count,
                    scale,
                ),
        decreases log.len() - i,
    {
        let entry = &log[i];
        proof {
            assert(log@.take(i as int + 1) == log@.take(i as int).push(log@[i as int]));
            log@.take(i as int).lemma_filter_push(log@[i as int], is_kept(winner));
        }
        if winner == Player::Empty || entry.turn == winner {
            let set = TrainingSet {
                input: encode_board(entry.board.as_slice()),
                output: game.create_answer_tensor(entry.pmove, turn_count, scale),
            };
            sets.push(set);
        }
        i += 1;
    }
    assert(log@.take(i as int) == log@);
    TrainingSession { sets }
}

/// Whether `sets` are the training examples of a game of self-play of `G`
/// with the policy that went from `start` to `end` as `log` tells, every
/// move as it came of asking the policy, and ended with `winner`.
pub open spec fn is_session<G: BoardGame, M: Model>(
    model: &M,
    sets: Seq<TrainingSet>,
    start: Position,
    end: Position,
    log: Seq<LogEntry>,
    winner: Player,
    scale: u32,
) -> bool {
    &&& log.len() > 0
    &&& is_record::<G>(start, log, end)
    &&& is_chosen(model, start, log)
    &&& G::outcome(end) == Some(winner)
    &&& is_training_set(sets, log, winner, end.board.len(), end.columns, scale)
}

/// Plays one game of self-play and builds its training examples: the moves
/// of the winner, or every move after a tie, each rewarded with `scale`
/// over the number of turns that the game took. Where the game stops with
/// an error, because the policy fails or scores no empty space, the error
/// is passed on and the game stands where the moves so far have brought it.
pub fn self_play_session<G: BoardGame, M: Model>(game: &mut G, model: &M, scale: u32) -> (session:
    Result<TrainingSession, SessionError<M::Failure>>)
    requires
        old(game).valid(),
    ensures
        final(game).valid(),
        session matches Ok(s) ==> exists|log: Seq<LogEntry>, winner: Player| #[trigger]
            is_session::<G, M>(
                model,
                s.sets@,
                old(game).position(),
                final(game).position(),
                log,
                winner,
                scale,
            ),
        session matches Err(error) ==> exists|log: Seq<LogEntry>| #[trigger]
            is_stopped::<G, M>(model, old(game).position(), log, final(game).position(), error),
{
    match play_episode(game, model) {
        Err(e) => Err(e),
        Ok(episode) => {
            let built = build_training_set(game, episode.log.as_slice(), episode.winner, scale);
            assert(is_session::<G, M>(
                model,
                built.sets@,
                old(game).position(),
                game.position(),
                episode.log@,
                episode.winner,
                scale,
            ));
            let done: Result<TrainingSession, SessionError<M::Failure>> = Ok(built);
            assert(done matches Ok(s) ==> s == built);
            done
        },
    }
}

} // verus!
