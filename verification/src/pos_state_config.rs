//! The parameters of the proof-of-stake term state, and what is derived
//! from them.
//!
//! Rounds are grouped into terms. The election for a term is open for a
//! window of rounds before the term starts: from three half-terms before it
//! up to one half-term before it.
//!
//! A process keeps its parameters in a cell that is set once. Reading the
//! cell may find it empty, however late it is read, so what is derived from
//! a cell comes with the case that nothing was read.

use once_cell::sync::OnceCell;
use vstd::prelude::*;

verus! {

/// The number of a round.
pub type Round = u64;

/// The number of terms whose validators serve at one time.
pub const TERM_LIST_LEN: usize = 6;

/// The number of rounds in a term.
pub const ROUND_PER_TERM: Round = 60;

/// The most validators a term can hold.
pub const TERM_MAX_SIZE: usize = 10000;

/// The number of validators elected for a term.
pub const TERM_ELECTED_SIZE: usize = 50;

/// The number of views for which votes stay locked on their way in.
pub const IN_QUEUE_LOCKED_VIEWS: u64 = 10080;

/// The number of views for which votes stay locked on their way out.
pub const OUT_QUEUE_LOCKED_VIEWS: u64 = 10080;

/// The most rounds a term can have for its first election views to fit the
/// machine's integers.
pub const MAX_ROUND_PER_TERM: Round = 3074457345618258602;

/// The parameters of the term state.
#[derive(Clone, Copy, Debug)]
pub struct PosStateConfig {
    round_per_term: Round,
    term_max_size: usize,
    term_elected_size: usize,
    in_queue_locked_views: u64,
    out_queue_locked_views: u64,
}

/// What a set of parameters holds.
pub struct PosStateConfigView {
    pub round_per_term: Round,
    pub term_max_size: usize,
    pub term_elected_size: usize,
    pub in_queue_locked_views: u64,
    pub out_queue_locked_views: u64,
}

impl View for PosStateConfig {
    type V = PosStateConfigView;

    closed spec fn view(&self) -> PosStateConfigView {
        PosStateConfigView {
            round_per_term: self.round_per_term,
            term_max_size: self.term_max_size,
            term_elected_size: self.term_elected_size,
            in_queue_locked_views: self.in_queue_locked_views,
            out_queue_locked_views: self.out_queue_locked_views,
        }
    }
}

impl PosStateConfig {
    pub fn new(
        round_per_term: Round,
        term_max_size: usize,
        term_elected_size: usize,
        in_queue_locked_views: u64,
        out_queue_locked_views: u64,
    ) -> (config: Self)
        ensures
            config@ == (PosStateConfigView {
                round_per_term,
                term_max_size,
                term_elected_size,
                in_queue_locked_views,
                out_queue_locked_views,
            }),
    {
        Self {
            round_per_term,
            term_max_size,
            term_elected_size,
            in_queue_locked_views,
            out_queue_locked_views,
        }
    }
}

impl Default for PosStateConfig {
    fn default() -> (config: Self)
        ensures
            config@ == (PosStateConfigView {
                round_per_term: ROUND_PER_TERM,
                term_max_size: TERM_MAX_SIZE,
                term_elected_size: TERM_ELECTED_SIZE,
                in_queue_locked_views: IN_QUEUE_LOCKED_VIEWS,
                out_queue_locked_views: OUT_QUEUE_LOCKED_VIEWS,
            }),
    {
        Self {
            round_per_term: ROUND_PER_TERM,
            term_max_size: TERM_MAX_SIZE,
            term_elected_size: TERM_ELECTED_SIZE,
            in_queue_locked_views: IN_QUEUE_LOCKED_VIEWS,
            out_queue_locked_views: OUT_QUEUE_LOCKED_VIEWS,
        }
    }
}

/// How many rounds before a term starts its election opens.
pub open spec fn election_start_of(round_per_term: Round) -> int {
    round_per_term / 2 * 3
}

/// How many rounds before a term starts its election closes.
pub open spec fn election_end_of(round_per_term: Round) -> int {
    round_per_term as int / 2
}

/// The first view in which an election opens.
pub open spec fn first_start_view_of(round_per_term: Round) -> int {
    TERM_LIST_LEN * round_per_term - election_start_of(round_per_term)
}

/// The first view in which an election closes.
pub open spec fn first_end_view_of(round_per_term: Round) -> int {
    TERM_LIST_LEN * round_per_term - election_end_of(round_per_term)
}

/// Whether the first election views derived from `round_per_term` fit the
/// machine's integers.
pub open spec fn views_fit(round_per_term: Round) -> bool {
    TERM_LIST_LEN * round_per_term <= u64::MAX
}

/// The election window lies before the term and is not empty for a term of
/// two rounds or more: it opens before it closes, and both views fit.
pub proof fn lemma_election_window(round_per_term: Round)
    requires
        views_fit(round_per_term),
    ensures
        0 <= election_end_of(round_per_term) <= election_start_of(round_per_term)
            <= TERM_LIST_LEN * round_per_term,
        0 <= first_start_view_of(round_per_term) <= first_end_view_of(round_per_term)
            <= u64::MAX,
        round_per_term >= 2 ==> first_start_view_of(round_per_term) < first_end_view_of(
            round_per_term,
        ),
{
}

/// What the term state's parameters offer.
pub trait PosStateConfigTrait {
    /// The parameters.
    spec fn config(&self) -> PosStateConfigView;

    fn round_per_term(&self) -> (rounds: Round)
        ensures
            rounds == self.config().round_per_term,
    ;

    /// A term `n` is open for election in the views after
    /// `n * round_per_term - election_term_start_round` up to and including
    /// `n * round_per_term - election_term_end_round`.
    fn election_term_start_round(&self) -> (rounds: Round)
        requires
            election_start_of(self.config().round_per_term) <= u64::MAX,
        ensures
            rounds == election_start_of(self.config().round_per_term),
    ;

    fn election_term_end_round(&self) -> (rounds: Round)
        ensures
            rounds == election_end_of(self.config().round_per_term),
    ;

    fn first_start_election_view(&self) -> (view: u64)
        requires
            views_fit(self.config().round_per_term),
        ensures
            view == first_start_view_of(self.config().round_per_term),
    ;

    fn first_end_election_view(&self) -> (view: u64)
        requires
            views_fit(self.config().round_per_term),
        ensures
            view == first_end_view_of(self.config().round_per_term),
    ;

    fn term_max_size(&self) -> (size: usize)
        ensures
            size == self.config().term_max_size,
    ;

    fn term_elected_size(&self) -> (size: usize)
        ensures
            size == self.config().term_elected_size,
    ;

    fn in_queue_locked_views(&self) -> (views: u64)
        ensures
            views == self.config().in_queue_locked_views,
    ;

    fn out_queue_locked_views(&self) -> (views: u64)
        ensures
            views == self.config().out_queue_locked_views,
    ;

    /// Votes of a validator that is retired by force stay locked as long as
    /// votes on their way out.
    fn force_retired_locked_views(&self) -> (views: u64)
        ensures
            views == self.config().out_queue_locked_views,
    ;
}

impl PosStateConfigTrait for PosStateConfig {
    open spec fn config(&self) -> PosStateConfigView {
        self@
    }

    fn round_per_term(&self) -> (rounds: Round) {
        self.round_per_term
    }

    fn election_term_start_round(&self) -> (rounds: Round) {
        self.round_per_term() / 2 * 3
    }

    fn election_term_end_round(&self) -> (rounds: Round) {
        self.round_per_term() / 2
    }

    fn first_start_election_view(&self) -> (view: u64) {
        TERM_LIST_LEN as u64 * self.round_per_term() - self.election_term_start_round()
    }

    fn first_end_election_view(&self) -> (view: u64) {
        TERM_LIST_LEN as u64 * self.round_per_term() - self.election_term_end_round()
    }

    fn term_max_size(&self) -> (size: usize) {
        self.term_max_size
    }

    fn term_elected_size(&self) -> (size: usize) {
        self.term_elected_size
    }

    fn in_queue_locked_views(&self) -> (views: u64) {
        self.in_queue_locked_views
    }

    fn out_queue_locked_views(&self) -> (views: u64) {
        self.out_queue_locked_views
    }

    fn force_retired_locked_views(&self) -> (views: u64) {
        self.out_queue_locked_views()
    }
}

/// The first views in which an election opens and closes.
#[derive(Clone, Copy, Debug, PartialEq, Eq, Structural)]
pub struct ElectionViews {
    pub first_start: u64,
    pub first_end: u64,
}

/// The first election views that follow from parameters that were read:
/// none where nothing was read, and none where the views do not fit the
/// machine's integers.
pub open spec fn election_views_of(read: Option<PosStateConfigView>) -> Option<ElectionViews> {
    match read {
        Some(config) => if views_fit(config.round_per_term) {
            Some(
                ElectionViews {
                    first_start: first_start_view_of(config.round_per_term) as u64,
                    first_end: first_end_view_of(config.round_per_term) as u64,
                },
            )
        } else {
            None
        },
        None => None,
    }
}

/// What was read, as what it holds.
pub open spec fn read_view(read: Option<PosStateConfig>) -> Option<PosStateConfigView> {
    match read {
        Some(config) => Some(config@),
        None => None,
    }
}

/// The first election views that follow from what a read of the
/// parameters gave.
pub fn election_views(read: Option<PosStateConfig>) -> (views: Option<ElectionViews>)
    ensures
        views == election_views_of(read_view(read)),
{
    match read {
        Some(config) => {
            let rounds = config.round_per_term();
            if rounds > MAX_ROUND_PER_TERM {
                None
            } else {
                proof {
                    lemma_election_window(rounds);
                }
                Some(
                    ElectionViews {
                        first_start: config.first_start_election_view(),
                        first_end: config.first_end_election_view(),
                    },
                )
            }
        },
        None => None,
    }
}

/// A cell that is written at most once.
#[verifier::external_type_specification]
#[verifier::external_body]
#[verifier::reject_recursive_types(T)]
pub struct ExOnceCell<T>(OnceCell<T>);

/// The parameters that a cell holds once it is set. A cell is set at most
/// once, so every read that finds parameters finds these. Of a cell that is
/// never set this says nothing.
pub uninterp spec fn cell_config(cell: OnceCell<PosStateConfig>) -> PosStateConfigView;

/// Reads the cell, by `OnceCell::get`. The read may find the cell empty,
/// also where another read found it set; parameters that it finds are the
/// ones the cell holds from then on.
#[verifier::external_body]
fn cell_get(cell: &OnceCell<PosStateConfig>) -> (held: Option<&PosStateConfig>)
    ensures
        held matches Some(config) ==> config@ == cell_config(*cell),
{
    cell.get()
}

/// Reads the parameters that `cell` holds, if the read finds any.
pub fn configured(cell: &OnceCell<PosStateConfig>) -> (read: Option<PosStateConfig>)
    ensures
        read matches Some(config) ==> config@ == cell_config(*cell),
{
    match cell_get(cell) {
        Some(config) => Some(*config),
        None => None,
    }
}

/// Reads the cell and derives the first election views from what the read
/// finds: none where it finds the cell empty, and none where the views do
/// not fit the machine's integers.
pub fn configured_election_views(cell: &OnceCell<PosStateConfig>) -> (views: Option<
    ElectionViews,
>)
    ensures
        views matches Some(found) ==> election_views_of(Some(cell_config(*cell))) == Some(found),
{
    election_views(configured(cell))
}

} // verus!
