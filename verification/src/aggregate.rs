//! The aggregation engine: a fold of a league's game results into one tally
//! per team and, for every pair of teams, the games between the two.

use crate::model::{
    game_models, GameError, GameModel, GameOutcome, GameResultSpec, LeagueModel, TheLeagueSpec,
    Timestamp,
};
use vstd::prelude::*;
use vstd::relations::*;

verus! {

/// Points for a win and for a draw; a loss earns none.
pub const WIN_POINTS: u8 = 3;

pub const DRAW_POINTS: u8 = 1;

/// A game that counts for a league, its teams written as positions in the
/// league's team list.
#[derive(Clone, Copy, Debug, PartialEq, Eq, Structural)]
pub struct Fixture {
    pub home: usize,
    pub away: usize,
    pub round_number: u32,
    pub time: Timestamp,
    pub result: GameOutcome,
}

/// A game counts for the league called `league_name` when it names that
/// league, is valid, and both of its teams are on the league's team list.
/// A game of a team that has left the list is passed over.
pub open spec fn counts(league_name: Seq<char>, league: LeagueModel, g: GameModel) -> bool {
    &&& g.league_name == league_name
    &&& g.valid()
    &&& league.names().contains(g.home)
    &&& league.names().contains(g.away)
}

/// The fixture that a game stands for, if it counts.
pub open spec fn fixture_of(league_name: Seq<char>, league: LeagueModel, g: GameModel) -> Option<
    Fixture,
> {
    if counts(league_name, league, g) {
        Some(
            Fixture {
                home: league.names().index_of(g.home) as usize,
                away: league.names().index_of(g.away) as usize,
                round_number: g.round_number,
                time: g.time,
                result: g.result,
            },
        )
    } else {
        None
    }
}

/// The fixtures of the games that count, in the order of `games`.
pub open spec fn fixtures(league_name: Seq<char>, league: LeagueModel, games: Seq<GameModel>) -> Seq<
    Fixture,
> {
    games.filter_map(|g: GameModel| fixture_of(league_name, league, g))
}

/// A fixture of a league with `n` teams: two different positions below `n`
/// and scores that agree with the declared winner.
pub open spec fn fixture_ok(f: Fixture, n: nat) -> bool {
    &&& f.home < n
    &&& f.away < n
    &&& f.home != f.away
    &&& f.result.consistent()
}

/// Every fixture of a well-formed league is a fixture of its teams.
pub proof fn lemma_fixture_of_ok(league_name: Seq<char>, league: LeagueModel, g: GameModel)
    requires
        league.wf(),
    ensures
        match fixture_of(league_name, league, g) {
            Some(f) => fixture_ok(f, league.teams.len()) && league.names()[f.home as int] == g.home
                && league.names()[f.away as int] == g.away,
            None => true,
        },
{
}

/// What the engine makes of a game result when it aggregates a league.
#[derive(Clone, Copy, Debug, PartialEq, Eq, Structural)]
pub enum GameVerdict {
    /// The game counts.
    Counted,
    /// The game names another league.
    OtherLeague,
    /// The game breaks a rule of game results.
    Rejected(GameError),
    /// One of the teams is not on the league's list. The game is passed
    /// over without complaint: the team may have left the league.
    UnlistedTeam,
}

/// What is made of `g`: the first of the reasons above that applies, in
/// that order.
pub open spec fn game_verdict(league_name: Seq<char>, league: LeagueModel, g: GameModel) -> GameVerdict {
    if g.league_name != league_name {
        GameVerdict::OtherLeague
    } else if g.verdict() is Err {
        GameVerdict::Rejected(g.verdict()->Err_0)
    } else if !league.names().contains(g.home) || !league.names().contains(g.away) {
        GameVerdict::UnlistedTeam
    } else {
        GameVerdict::Counted
    }
}

/// Says whether `game` counts for `league`, and why not.
pub fn classify(league_name: &str, league: &TheLeagueSpec, game: &GameResultSpec) -> (verdict:
    GameVerdict)
    ensures
        verdict == game_verdict(league_name@, league@, game@),
        verdict == GameVerdict::Counted <==> counts(league_name@, league@, game@),
{
    let wanted = league_name.to_owned();
    if game.league_name != wanted {
        return GameVerdict::OtherLeague;
    }
    match game.validate() {
        Err(e) => {
            return GameVerdict::Rejected(e);
        },
        Ok(_) => {},
    }
    if league.find_team(game.teams[0].as_str()).is_none() || league.find_team(
        game.teams[1].as_str(),
    ).is_none() {
        return GameVerdict::UnlistedTeam;
    }
    GameVerdict::Counted
}

/// The fixture of `game` in `league`, or `None` where the game does not
/// count for it.
pub fn resolve_game(league_name: &str, league: &TheLeagueSpec, game: &GameResultSpec) -> (fixture: Option<
    Fixture,
>)
    requires
        league@.wf(),
    ensures
        fixture == fixture_of(league_name@, league@, game@),
{
    let wanted = league_name.to_owned();
    if game.league_name != wanted {
        return None;
    }
    if game.validate().is_err() {
        return None;
    }
    let home = match league.find_team(game.teams[0].as_str()) {
        Some(i) => i,
        None => { return None; },
    };
    let away = match league.find_team(game.teams[1].as_str()) {
        Some(i) => i,
        None => { return None; },
    };
    Some(
        Fixture { home, away, round_number: game.round_number, time: game.time, result: game.result },
    )
}

/// The fixtures of the games that count, in the order of `games`.
pub fn resolve_games(league_name: &str, league: &TheLeagueSpec, games: &Vec<GameResultSpec>) -> (out:
    Vec<Fixture>)
    requires
        league@.wf(),
    ensures
        out@ == fixtures(league_name@, league@, game_models(games@)),
        forall|k: int| 0 <= k < out.len() ==> fixture_ok(#[trigger] out[k], league@.teams.len()),
{
    let ghost models = game_models(games@);
    let ghost pick = |g: GameModel| fixture_of(league_name@, league@, g);
    let mut out: Vec<Fixture> = Vec::new();
    let mut k: usize = 0;
    while k < games.len()
        invariant
            k <= games.len(),
            league@.wf(),
            models == game_models(games@),
            pick == |g: GameModel| fixture_of(league_name@, league@, g),
            out@ == models.take(k as int).filter_map(pick),
            forall|i: int| 0 <= i < out.len() ==> fixture_ok(#[trigger] out[i], league@.teams.len()),
        decreases games.len() - k,
    {
        let resolved = resolve_game(league_name, league, &games[k]);
        proof {
            models.lemma_filter_map_take_succ(pick, k as int);
            lemma_fixture_of_ok(league_name@, league@, models[k as int]);
        }
        if let Some(f) = resolved {
            out.push(f);
        }
        k += 1;
    }
    assert(models.take(games.len() as int) == models);
    out
}

/// What a team has accumulated, as numbers without bound.
pub struct Tally {
    pub points: nat,
    pub wins: nat,
    pub losses: nat,
    pub draws: nat,
    pub goals_for: nat,
    pub goals_against: nat,
}

impl Tally {
    /// The tally of a team that has not played.
    pub open spec fn zero() -> Tally {
        Tally { points: 0, wins: 0, losses: 0, draws: 0, goals_for: 0, goals_against: 0 }
    }

    /// The field-wise sum of two tallies.
    pub open spec fn plus(self, other: Tally) -> Tally {
        Tally {
            points: self.points + other.points,
            wins: self.wins + other.wins,
            losses: self.losses + other.losses,
            draws: self.draws + other.draws,
            goals_for: self.goals_for + other.goals_for,
            goals_against: self.goals_against + other.goals_against,
        }
    }

    /// Number of games behind the tally.
    pub open spec fn played(self) -> nat {
        self.wins + self.losses + self.draws
    }

    /// Goals scored less goals conceded.
    pub open spec fn goal_difference(self) -> int {
        self.goals_for - self.goals_against
    }
}

/// Whether `team` is one of the two teams of `f`.
pub open spec fn involves(f: Fixture, team: int) -> bool {
    f.home == team || f.away == team
}

/// What one fixture adds to the tally of `team`: three points and a win to
/// the winner, a loss to the loser, one point and a draw to each side of a
/// draw, and to both sides their goals. Nothing to a team that did not play.
pub open spec fn share(f: Fixture, team: int) -> Tally {
    if f.home == team {
        Tally {
            points: match f.result {
                GameOutcome::WinnerHome { .. } => WIN_POINTS as nat,
                GameOutcome::WinnerAway { .. } => 0,
                GameOutcome::Draw { .. } => DRAW_POINTS as nat,
            },
            wins: if f.result is WinnerHome { 1 } else { 0 },
            losses: if f.result is WinnerAway { 1 } else { 0 },
            draws: if f.result is Draw { 1 } else { 0 },
            goals_for: f.result.home_goals(),
            goals_against: f.result.away_goals(),
        }
    } else if f.away == team {
        Tally {
            points: match f.result {
                GameOutcome::WinnerHome { .. } => 0,
                GameOutcome::WinnerAway { .. } => WIN_POINTS as nat,
                GameOutcome::Draw { .. } => DRAW_POINTS as nat,
            },
            wins: if f.result is WinnerAway { 1 } else { 0 },
            losses: if f.result is WinnerHome { 1 } else { 0 },
            draws: if f.result is Draw { 1 } else { 0 },
            goals_for: f.result.away_goals(),
            goals_against: f.result.home_goals(),
        }
    } else {
        Tally::zero()
    }
}

/// The step of the fold that accumulates the tally of `team`.
pub open spec fn add_share(team: int) -> spec_fn(Tally, Fixture) -> Tally {
    |acc: Tally, f: Fixture| acc.plus(share(f, team))
}

/// The tally of `team` over `fx`: the sum of the shares of all fixtures.
pub open spec fn tally(fx: Seq<Fixture>, team: int) -> Tally {
    fx.fold_left(Tally::zero(), add_share(team))
}

/// Number of fixtures of `fx` in which `team` played.
pub open spec fn appearances(fx: Seq<Fixture>, team: int) -> nat {
    fx.filter(|f: Fixture| involves(f, team)).len()
}

/// The accumulator of one team. Games are counted in 64 bits, which a list
/// in memory cannot exceed; points and goals are summed in 128 bits, which
/// sums of that many 32-bit scores cannot exceed.
#[derive(Clone, Copy, Debug, PartialEq, Eq, Structural)]
pub struct TeamStats {
    pub points: u128,
    pub wins: u64,
    pub losses: u64,
    pub draws: u64,
    pub goals_for: u128,
    pub goals_against: u128,
}

impl View for TeamStats {
    type V = Tally;

    open spec fn view(&self) -> Tally {
        Tally {
            points: self.points as nat,
            wins: self.wins as nat,
            losses: self.losses as nat,
            draws: self.draws as nat,
            goals_for: self.goals_for as nat,
            goals_against: self.goals_against as nat,
        }
    }
}

/// Largest number of goals that one side of one game can hold.
pub open spec fn score_limit() -> nat {
    0xffff_ffff
}

/// The tally of the first `k + 1` fixtures is that of the first `k` with
/// the share of the next one added.
pub proof fn lemma_tally_step(fx: Seq<Fixture>, team: int, k: int)
    requires
        0 <= k < fx.len(),
    ensures
        tally(fx.take(k + 1), team) == tally(fx.take(k), team).plus(share(fx[k], team)),
        appearances(fx.take(k + 1), team) == appearances(fx.take(k), team) + (if involves(
            fx[k],
            team,
        ) {
            1nat
        } else {
            0nat
        }),
{
    let head = fx.take(k + 1);
    assert(head.drop_last() == fx.take(k));
    assert(head.last() == fx[k]);
    let played = |f: Fixture| involves(f, team);
    assert(head.filter(played) == if played(fx[k]) {
        fx.take(k).filter(played).push(fx[k])
    } else {
        fx.take(k).filter(played)
    }) by {
        reveal(Seq::filter);
    }
}

/// Points follow from wins and draws, every game a team played is a win, a
/// loss or a draw, and no sum outgrows its bound.
pub proof fn lemma_tally_shape(fx: Seq<Fixture>, team: int)
    ensures
        tally(fx, team).points == WIN_POINTS * tally(fx, team).wins + DRAW_POINTS * tally(
            fx,
            team,
        ).draws,
        tally(fx, team).played() == appearances(fx, team),
        appearances(fx, team) <= fx.len(),
        tally(fx, team).goals_for <= fx.len() * score_limit(),
        tally(fx, team).goals_against <= fx.len() * score_limit(),
    decreases fx.len(),
{
    if fx.len() > 0 {
        let k = fx.len() - 1;
        lemma_tally_shape(fx.take(k), team);
        lemma_tally_step(fx, team, k);
        assert(fx.take(k + 1) == fx);
        assert(fx.len() * score_limit() == fx.take(k).len() * score_limit() + score_limit())
            by (nonlinear_arith)
            requires
                fx.take(k).len() + 1 == fx.len(),
        ;
    } else {
        assert(fx.filter(|f: Fixture| involves(f, team)).len() == 0) by {
            reveal(Seq::filter);
        }
    }
}

/// The tally of team `team` over `fx`.
pub fn tally_team(fx: &Vec<Fixture>, team: usize) -> (stats: TeamStats)
    ensures
        stats@ == tally(fx@, team as int),
{
    let mut stats = TeamStats {
        points: 0,
        wins: 0,
        losses: 0,
        draws: 0,
        goals_for: 0,
        goals_against: 0,
    };
    let mut k: usize = 0;
    while k < fx.len()
        invariant
            k <= fx.len(),
            stats@ == tally(fx@.take(k as int), team as int),
        decreases fx.len() - k,
    {
        proof {
            lemma_tally_shape(fx@.take(k as int), team as int);
            lemma_tally_step(fx@, team as int, k as int);
            assert(k * score_limit() <= 0xffff_ffff_ffff_ffff * 0xffff_ffff) by (nonlinear_arith)
                requires
                    k <= 0xffff_ffff_ffff_ffff,
            ;
        }
        let f = fx[k];
        let home_goals = f.result.goals_home() as u128;
        let away_goals = f.result.goals_away() as u128;
        if f.home == team {
            stats.goals_for = stats.goals_for + home_goals;
            stats.goals_against = stats.goals_against + away_goals;
            match f.result {
                GameOutcome::WinnerHome { .. } => {
                    stats.wins = stats.wins + 1;
                    stats.points = stats.points + WIN_POINTS as u128;
                },
                GameOutcome::WinnerAway { .. } => {
                    stats.losses = stats.losses + 1;
                },
                GameOutcome::Draw { .. } => {
                    stats.draws = stats.draws + 1;
                    stats.points = stats.points + DRAW_POINTS as u128;
                },
            }
        } else if f.away == team {
            stats.goals_for = stats.goals_for + away_goals;
            stats.goals_against = stats.goals_against + home_goals;
            match f.result {
                GameOutcome::WinnerHome { .. } => {
                    stats.losses = stats.losses + 1;
                },
                GameOutcome::WinnerAway { .. } => {
                    stats.wins = stats.wins + 1;
                    stats.points = stats.points + WIN_POINTS as u128;
                },
                GameOutcome::Draw { .. } => {
                    stats.draws = stats.draws + 1;
                    stats.points = stats.points + DRAW_POINTS as u128;
                },
            }
        }
        k += 1;
    }
    assert(fx@.take(fx.len() as int) == fx@);
    stats
}

/// Whether `f` was played between the teams `a` and `b`, whichever of the
/// two was at home.
pub open spec fn between(f: Fixture, a: int, b: int) -> bool {
    (f.home == a && f.away == b) || (f.home == b && f.away == a)
}

/// `between` as a predicate on fixtures.
pub open spec fn meets(a: int, b: int) -> spec_fn(Fixture) -> bool {
    |f: Fixture| between(f, a, b)
}

/// A number for each kind of outcome, for ordering only.
pub open spec fn outcome_rank(r: GameOutcome) -> int {
    match r {
        GameOutcome::WinnerHome { .. } => 0,
        GameOutcome::WinnerAway { .. } => 1,
        GameOutcome::Draw { .. } => 2,
    }
}

/// The order in which the games of a pair are listed: by time, then by
/// round; games level on both are ordered by home team, away team, kind of
/// outcome and scores, so that two different fixtures are never level.
pub open spec fn earlier_or_same(x: Fixture, y: Fixture) -> bool {
    if x.time.seconds != y.time.seconds {
        x.time.seconds < y.time.seconds
    } else if x.time.nanos != y.time.nanos {
        x.time.nanos < y.time.nanos
    } else if x.round_number != y.round_number {
        x.round_number < y.round_number
    } else if x.home != y.home {
        x.home < y.home
    } else if x.away != y.away {
        x.away < y.away
    } else if outcome_rank(x.result) != outcome_rank(y.result) {
        outcome_rank(x.result) < outcome_rank(y.result)
    } else if x.result.home_goals() != y.result.home_goals() {
        x.result.home_goals() < y.result.home_goals()
    } else {
        x.result.away_goals() <= y.result.away_goals()
    }
}

/// `earlier_or_same` as a relation on fixtures.
pub open spec fn by_time() -> spec_fn(Fixture, Fixture) -> bool {
    |x: Fixture, y: Fixture| earlier_or_same(x, y)
}

/// The listing order is a total order.
pub proof fn lemma_by_time_total()
    ensures
        total_ordering(by_time()),
{
    let leq = by_time();
    assert(reflexive(leq));
    assert(antisymmetric(leq)) by {
        assert forall|x: Fixture, y: Fixture| #[trigger] leq(x, y) && #[trigger] leq(y, x) implies x
            == y by {
            assert(x.time == y.time);
            assert(x.result == y.result);
        }
    }
    assert(transitive(leq));
    assert(strongly_connected(leq));
}

/// The games between `a` and `b` in the order of `fx`.
pub open spec fn meetings(fx: Seq<Fixture>, a: int, b: int) -> Seq<Fixture> {
    fx.filter(meets(a, b))
}

/// The games between `a` and `b` in listing order. The list does not depend
/// on the order of `fx`, nor on which of the two teams is named first.
pub open spec fn history(fx: Seq<Fixture>, a: int, b: int) -> Seq<Fixture> {
    meetings(fx, a, b).sort_by(by_time())
}

/// Whether `x` comes no later than `y` in listing order.
pub fn comes_first(x: &Fixture, y: &Fixture) -> (first: bool)
    ensures
        first == earlier_or_same(*x, *y),
{
    if x.time.seconds != y.time.seconds {
        x.time.seconds < y.time.seconds
    } else if x.time.nanos != y.time.nanos {
        x.time.nanos < y.time.nanos
    } else if x.round_number != y.round_number {
        x.round_number < y.round_number
    } else if x.home != y.home {
        x.home < y.home
    } else if x.away != y.away {
        x.away < y.away
    } else {
        let kind_x: u8 = match x.result {
            GameOutcome::WinnerHome { .. } => 0,
            GameOutcome::WinnerAway { .. } => 1,
            GameOutcome::Draw { .. } => 2,
        };
        let kind_y: u8 = match y.result {
            GameOutcome::WinnerHome { .. } => 0,
            GameOutcome::WinnerAway { .. } => 1,
            GameOutcome::Draw { .. } => 2,
        };
        if kind_x != kind_y {
            kind_x < kind_y
        } else if x.result.goals_home() != y.result.goals_home() {
            x.result.goals_home() < y.result.goals_home()
        } else {
            x.result.goals_away() <= y.result.goals_away()
        }
    }
}

/// Puts `f` into a list in listing order, behind the entries that come no
/// later than it.
pub fn insert_in_order(list: &mut Vec<Fixture>, f: Fixture)
    requires
        sorted_by(old(list)@, by_time()),
    ensures
        sorted_by(final(list)@, by_time()),
        final(list)@.to_multiset() == old(list)@.to_multiset().insert(f),
{
    let mut pos: usize = 0;
    while pos < list.len() && comes_first(&list[pos], &f)
        invariant
            pos <= list.len(),
            list@ == old(list)@,
            forall|i: int| 0 <= i < pos ==> earlier_or_same(#[trigger] list[i], f),
        decreases list.len() - pos,
    {
        pos += 1;
    }
    proof {
        lemma_by_time_total();
        let leq = by_time();
        let grown = list@.insert(pos as int, f);
        assert forall|i: int, j: int| 0 <= i < j < grown.len() implies #[trigger] leq(
            grown[i],
            grown[j],
        ) by {
            if j < pos {
                assert(leq(list[i], list[j]));
            } else if j == pos {
                assert(earlier_or_same(list[i], f));
            } else if i < pos {
                assert(leq(list[i], list[j - 1]));
            } else if i == pos {
                assert(!earlier_or_same(list[pos as int], f));
                assert(leq(f, list[pos as int]));
                if j - 1 > pos {
                    assert(leq(list[pos as int], list[j - 1]));
                }
                assert(leq(f, list[j - 1]));
            } else {
                assert(leq(list[i - 1], list[j - 1]));
            }
        }
        vstd::seq_lib::to_multiset_insert(list@, pos as int, f);
    }
    list.insert(pos, f);
}

/// One more fixture seen: the history grows by it if it was played between
/// the two teams, and stays as it was if not.
pub proof fn lemma_history_step(fx: Seq<Fixture>, a: int, b: int, k: int, grown: Seq<Fixture>)
    requires
        0 <= k < fx.len(),
        between(fx[k], a, b) ==> sorted_by(grown, by_time()) && grown.to_multiset() == history(
            fx.take(k),
            a,
            b,
        ).to_multiset().insert(fx[k]),
        !between(fx[k], a, b) ==> grown == history(fx.take(k), a, b),
    ensures
        grown == history(fx.take(k + 1), a, b),
{
    let head = fx.take(k + 1);
    assert(head.drop_last() == fx.take(k));
    assert(head.last() == fx[k]);
    let before = meetings(fx.take(k), a, b);
    let after = meetings(head, a, b);
    assert(after == if between(fx[k], a, b) {
        before.push(fx[k])
    } else {
        before
    }) by {
        reveal(Seq::filter);
    }
    if between(fx[k], a, b) {
        lemma_by_time_total();
        before.lemma_sort_by_ensures(by_time());
        after.lemma_sort_by_ensures(by_time());
        vstd::seq_lib::to_multiset_build(before, fx[k]);
        vstd::seq_lib::lemma_sorted_unique(grown, history(head, a, b), by_time());
    }
}

/// Without fixtures there is no history.
pub proof fn lemma_history_empty(a: int, b: int)
    ensures
        history(Seq::<Fixture>::empty(), a, b) == Seq::<Fixture>::empty(),
{
    let none = Seq::<Fixture>::empty();
    assert(none.filter(meets(a, b)) == none) by {
        reveal(Seq::filter);
    }
    lemma_by_time_total();
    none.lemma_sort_by_ensures(by_time());
    vstd::seq_lib::to_multiset_len(none);
    vstd::seq_lib::to_multiset_len(none.sort_by(by_time()));
    assert(none.sort_by(by_time()).len() == 0);
}

/// The games between the teams `a` and `b` in listing order.
pub fn pair_history(fx: &Vec<Fixture>, a: usize, b: usize) -> (list: Vec<Fixture>)
    ensures
        list@ == history(fx@, a as int, b as int),
{
    let mut list: Vec<Fixture> = Vec::new();
    let mut k: usize = 0;
    proof {
        assert(fx@.take(0) == Seq::<Fixture>::empty());
        lemma_history_empty(a as int, b as int);
    }
    while k < fx.len()
        invariant
            k <= fx.len(),
            list@ == history(fx@.take(k as int), a as int, b as int),
        decreases fx.len() - k,
    {
        let f = fx[k];
        proof {
            lemma_by_time_total();
            meetings(fx@.take(k as int), a as int, b as int).lemma_sort_by_ensures(by_time());
        }
        if (f.home == a && f.away == b) || (f.home == b && f.away == a) {
            insert_in_order(&mut list, f);
        }
        proof {
            lemma_history_step(fx@, a as int, b as int, k as int, list@);
        }
        k += 1;
    }
    assert(fx@.take(fx.len() as int) == fx@);
    list
}

/// What the engine holds of one team.
#[derive(Clone, Debug)]
pub struct TeamRecord {
    /// The team's name.
    pub name: String,
    /// The team's tally over all games that count.
    pub stats: TeamStats,
    /// For each team that stands before this one in the team list, the
    /// games between the two in listing order.
    pub versus: Vec<Vec<Fixture>>,
}

/// What a `TeamRecord` holds.
pub struct TeamRecordModel {
    pub name: Seq<char>,
    pub tally: Tally,
    pub versus: Seq<Seq<Fixture>>,
}

impl View for TeamRecord {
    type V = TeamRecordModel;

    open spec fn view(&self) -> TeamRecordModel {
        TeamRecordModel {
            name: self.name@,
            tally: self.stats@,
            versus: self.versus@.map_values(|list: Vec<Fixture>| list@),
        }
    }
}

/// Largest sum of goals that a tally can reach.
pub open spec fn goal_bound() -> nat {
    0xffff_ffff_ffff_ffff * 0xffff_ffff
}

/// The result of the aggregation as a value: one record per team, in the
/// order of the league's team list.
pub struct AggregationModel {
    pub teams: Seq<TeamRecordModel>,
}

impl AggregationModel {
    /// The team names in the order of the records.
    pub open spec fn names(self) -> Seq<Seq<char>> {
        self.teams.map_values(|t: TeamRecordModel| t.name)
    }

    /// The games between the teams at `a` and `b`, whichever is named
    /// first; none for a team and itself.
    pub open spec fn games_between(self, a: int, b: int) -> Seq<Fixture> {
        if b < a {
            self.teams[a].versus[b]
        } else if a < b {
            self.teams[b].versus[a]
        } else {
            Seq::empty()
        }
    }

    /// What every aggregation satisfies: at most eight teams with different
    /// names, a list of games for every pair of teams, points that follow
    /// from wins and draws, and goal sums within their bound.
    pub open spec fn wf(self) -> bool {
        &&& self.teams.len() <= crate::model::MAX_TEAMS
        &&& self.names().no_duplicates()
        &&& forall|i: int|
            0 <= i < self.teams.len() ==> {
                let t = #[trigger] self.teams[i];
                &&& t.versus.len() == i
                &&& t.tally.points == WIN_POINTS * t.tally.wins + DRAW_POINTS * t.tally.draws
                &&& t.tally.goals_for <= goal_bound()
                &&& t.tally.goals_against <= goal_bound()
            }
    }
}

/// The aggregation of `games` for the league called `league_name`: for each
/// team its tally over the games that count, and for each pair of teams the
/// games between them.
pub open spec fn aggregation(league_name: Seq<char>, league: LeagueModel, games: Seq<GameModel>) -> AggregationModel {
    let fx = fixtures(league_name, league, games);
    AggregationModel {
        teams: Seq::new(
            league.teams.len(),
            |i: int|
                TeamRecordModel {
                    name: league.teams[i].name,
                    tally: tally(fx, i),
                    versus: Seq::new(i as nat, |j: int| history(fx, i, j)),
                },
        ),
    }
}

/// The aggregation of a well-formed league is well formed.
pub proof fn lemma_aggregation_wf(league_name: Seq<char>, league: LeagueModel, games: Seq<GameModel>)
    requires
        league.wf(),
        fixtures(league_name, league, games).len() <= usize::MAX,
    ensures
        aggregation(league_name, league, games).wf(),
{
    let fx = fixtures(league_name, league, games);
    let agg = aggregation(league_name, league, games);
    assert(agg.names() == league.names());
    assert forall|i: int| 0 <= i < agg.teams.len() implies {
        let t = #[trigger] agg.teams[i];
        &&& t.versus.len() == i
        &&& t.tally.points == WIN_POINTS * t.tally.wins + DRAW_POINTS * t.tally.draws
        &&& t.tally.goals_for <= goal_bound()
        &&& t.tally.goals_against <= goal_bound()
    } by {
        lemma_tally_shape(fx, i);
        assert(fx.len() * score_limit() <= goal_bound()) by (nonlinear_arith)
            requires
                fx.len() <= 0xffff_ffff_ffff_ffff,
                score_limit() == 0xffff_ffff,
                goal_bound() == 0xffff_ffff_ffff_ffff * 0xffff_ffff,
        ;
    }
}

/// The accumulated state of a league: per team the tally, per pair of teams
/// the games between them. Built by `aggregate` only, so that every value
/// is well formed.
pub struct Aggregation {
    teams: Vec<TeamRecord>,
}

impl View for Aggregation {
    type V = AggregationModel;

    closed spec fn view(&self) -> AggregationModel {
        AggregationModel { teams: self.teams@.map_values(|t: TeamRecord| t@) }
    }
}

impl Aggregation {
    #[verifier::type_invariant]
    spec fn well_formed(self) -> bool {
        self@.wf()
    }

    /// Number of teams.
    pub fn len(&self) -> (n: usize)
        ensures
            n == self@.teams.len(),
            self@.wf(),
    {
        proof {
            use_type_invariant(self);
        }
        self.teams.len()
    }

    /// The record of the team at position `i`.
    pub fn team(&self, i: usize) -> (record: &TeamRecord)
        requires
            i < self@.teams.len(),
        ensures
            record@ == self@.teams[i as int],
    {
        &self.teams[i]
    }

    /// Position of the team called `name`, if the aggregation has it.
    pub fn position(&self, name: &str) -> (found: Option<usize>)
        ensures
            match found {
                Some(i) => i < self@.teams.len() && self@.teams[i as int].name == name@,
                None => !self@.names().contains(name@),
            },
    {
        let wanted = name.to_owned();
        let mut i: usize = 0;
        while i < self.teams.len()
            invariant
                i <= self.teams.len(),
                wanted@ == name@,
                forall|j: int| 0 <= j < i ==> self@.names()[j] != name@,
            decreases self.teams.len() - i,
        {
            if self.teams[i].name == wanted {
                return Some(i);
            }
            i += 1;
        }
        None
    }

    /// The tally of the team called `name`, if the aggregation has it.
    pub fn stats_of(&self, name: &str) -> (found: Option<TeamStats>)
        ensures
            match found {
                Some(stats) => exists|i: int|
                    0 <= i < self@.teams.len() && self@.teams[i].name == name@ && stats@
                        == self@.teams[i].tally,
                None => !self@.names().contains(name@),
            },
    {
        match self.position(name) {
            Some(i) => Some(self.teams[i].stats),
            None => None,
        }
    }

    /// The games between the teams at `a` and `b` in listing order,
    /// whichever of the two is named first.
    pub fn games_between(&self, a: usize, b: usize) -> (games: Vec<Fixture>)
        requires
            a < self@.teams.len(),
            b < self@.teams.len(),
        ensures
            games@ == self@.games_between(a as int, b as int),
    {
        proof {
            use_type_invariant(self);
        }
        if a == b {
            return Vec::new();
        }
        let (hi, lo) = if b < a {
            (a, b)
        } else {
            (b, a)
        };
        assert(self.teams[hi as int]@ == self@.teams[hi as int]);
        let list = &self.teams[hi].versus[lo];
        assert(list@ == self@.teams[hi as int].versus[lo as int]);
        let mut games: Vec<Fixture> = Vec::new();
        let mut k: usize = 0;
        while k < list.len()
            invariant
                k <= list.len(),
                games@ == list@.take(k as int),
            decreases list.len() - k,
        {
            games.push(list[k]);
            assert(list@.take(k + 1) == list@.take(k as int).push(list@[k as int]));
            k += 1;
        }
        assert(list@.take(list.len() as int) == list@);
        games
    }
}

/// Folds the games of a league into its aggregation. Games of another
/// league, games of a team that is no longer listed and invalid games
/// contribute nothing.
pub fn aggregate(league_name: &str, league: &TheLeagueSpec, games: &Vec<GameResultSpec>) -> (agg:
    Aggregation)
    requires
        league@.wf(),
    ensures
        agg@ == aggregation(league_name@, league@, game_models(games@)),
        agg@.wf(),
{
    let fx = resolve_games(league_name, league, games);
    let ghost goal = aggregation(league_name@, league@, game_models(games@));
    let n = league.teams.len();
    let mut teams: Vec<TeamRecord> = Vec::new();
    let mut i: usize = 0;
    while i < n
        invariant
            i <= n,
            n == league.teams.len(),
            fx@ == fixtures(league_name@, league@, game_models(games@)),
            goal == aggregation(league_name@, league@, game_models(games@)),
            teams.len() == i,
            forall|t: int| 0 <= t < i ==> (#[trigger] teams[t])@ == goal.teams[t],
        decreases n - i,
    {
        let mut versus: Vec<Vec<Fixture>> = Vec::new();
        let mut j: usize = 0;
        while j < i
            invariant
                j <= i,
                versus.len() == j,
                forall|o: int|
                    0 <= o < j ==> (#[trigger] versus[o])@ == history(fx@, i as int, o),
            decreases i - j,
        {
            let list = pair_history(&fx, i, j);
            versus.push(list);
            j += 1;
        }
        let record = TeamRecord {
            name: league.teams[i].name.clone(),
            stats: tally_team(&fx, i),
            versus,
        };
        assert(record@.versus == goal.teams[i as int].versus);
        assert(record@ == goal.teams[i as int]);
        teams.push(record);
        i += 1;
    }
    proof {
        assert(fx@.len() == fx.len());
        lemma_aggregation_wf(league_name@, league@, game_models(games@));
        assert(teams@.map_values(|t: TeamRecord| t@) == goal.teams);
    }
    Aggregation { teams }
}

/// Whether the team called `name` played in `g` and `g` counts.
pub open spec fn took_part(league_name: Seq<char>, league: LeagueModel, name: Seq<char>) -> spec_fn(
    GameModel,
) -> bool {
    |g: GameModel| counts(league_name, league, g) && (g.home == name || g.away == name)
}

/// Number of games that count and in which the team called `name` played.
pub open spec fn participations(
    league_name: Seq<char>,
    league: LeagueModel,
    games: Seq<GameModel>,
    name: Seq<char>,
) -> nat {
    games.filter(took_part(league_name, league, name)).len()
}

/// The tally of a team does not depend on the order of the fixtures.
pub proof fn lemma_tally_permutation(a: Seq<Fixture>, b: Seq<Fixture>, team: int)
    requires
        a.to_multiset() == b.to_multiset(),
    ensures
        tally(a, team) == tally(b, team),
{
    let step = add_share(team);
    assert(vstd::seq_lib::commutative_foldl(step));
    vstd::seq_lib::lemma_fold_left_permutation(a, b, step, Tally::zero());
}

/// The history of a pair does not depend on the order of the fixtures, nor
/// on which of the two teams is named first.
pub proof fn lemma_history_permutation(a: Seq<Fixture>, b: Seq<Fixture>, x: int, y: int)
    requires
        a.to_multiset() == b.to_multiset(),
    ensures
        history(a, x, y) == history(b, x, y),
        history(a, x, y) == history(a, y, x),
{
    lemma_by_time_total();
    crate::permutation::lemma_filter_permutation(a, b, meets(x, y));
    meetings(a, x, y).lemma_sort_by_ensures(by_time());
    meetings(b, x, y).lemma_sort_by_ensures(by_time());
    vstd::seq_lib::lemma_sorted_unique(history(a, x, y), history(b, x, y), by_time());
    assert(meets(x, y) == meets(y, x)) by {
        assert forall|f: Fixture| #[trigger] meets(x, y)(f) == meets(y, x)(f) by {}
        assert(meets(x, y) =~= meets(y, x));
    }
}

/// Idempotence: two aggregations of the same league over the same games
/// are the same value.
pub proof fn law_aggregation_idempotent(
    league_name: Seq<char>,
    league: LeagueModel,
    games: Seq<GameModel>,
    first: AggregationModel,
    second: AggregationModel,
)
    requires
        first == aggregation(league_name, league, games),
        second == aggregation(league_name, league, games),
    ensures
        first == second,
{
}

/// Order-independence: games handed over in another order, each as often
/// as before, aggregate to the same value.
pub proof fn law_aggregation_order_independent(
    league_name: Seq<char>,
    league: LeagueModel,
    a: Seq<GameModel>,
    b: Seq<GameModel>,
)
    requires
        a.to_multiset() == b.to_multiset(),
    ensures
        aggregation(league_name, league, a) == aggregation(league_name, league, b),
{
    let fa = fixtures(league_name, league, a);
    let fb = fixtures(league_name, league, b);
    crate::permutation::lemma_filter_map_permutation(
        a,
        b,
        |g: GameModel| fixture_of(league_name, league, g),
    );
    let left = aggregation(league_name, league, a);
    let right = aggregation(league_name, league, b);
    assert forall|i: int| 0 <= i < left.teams.len() implies left.teams[i] == right.teams[i] by {
        lemma_tally_permutation(fa, fb, i);
        assert forall|j: int| 0 <= j < i implies history(fa, i, j) == history(fb, i, j) by {
            lemma_history_permutation(fa, fb, i, j);
        }
        assert(left.teams[i].versus =~= right.teams[i].versus);
    }
    assert(left.teams =~= right.teams);
}

/// Conservation: the wins, losses and draws of a team add up to the number
/// of games that count and in which the team played.
pub proof fn law_conservation(
    league_name: Seq<char>,
    league: LeagueModel,
    games: Seq<GameModel>,
    team: int,
)
    requires
        league.wf(),
        0 <= team < league.teams.len(),
    ensures
        aggregation(league_name, league, games).teams[team].tally.played() == participations(
            league_name,
            league,
            games,
            league.names()[team],
        ),
    decreases games.len(),
{
    let name = league.names()[team];
    let pick = |g: GameModel| fixture_of(league_name, league, g);
    let part = took_part(league_name, league, name);
    let fx = fixtures(league_name, league, games);
    lemma_tally_shape(fx, team);
    if games.len() == 0 {
        assert(games.filter(part).len() == 0) by {
            reveal(Seq::filter);
        }
        assert(fx.filter(|f: Fixture| involves(f, team)).len() == 0) by {
            reveal(Seq::filter);
        }
    } else {
        let rest = games.drop_last();
        let g = games.last();
        law_conservation(league_name, league, rest, team);
        let fr = fixtures(league_name, league, rest);
        lemma_tally_shape(fr, team);
        lemma_fixture_of_ok(league_name, league, g);
        assert(games.filter(part) == if part(g) {
            rest.filter(part).push(g)
        } else {
            rest.filter(part)
        }) by {
            reveal(Seq::filter);
        }
        match pick(g) {
            Some(f) => {
                assert(fx == fr.push(f));
                assert(fx.take(fr.len() as int) == fr);
                lemma_tally_step(fx, team, fr.len() as int);
                assert(fx.take(fr.len() as int + 1) == fx);
                assert(involves(f, team) == part(g));
            },
            None => {
                assert(fx == fr);
                assert(!part(g));
            },
        }
    }
}

/// The points formula: a team's points are three for each win and one for
/// each draw.
pub proof fn law_points_formula(
    league_name: Seq<char>,
    league: LeagueModel,
    games: Seq<GameModel>,
    team: int,
)
    requires
        0 <= team < league.teams.len(),
    ensures
        ({
            let t = aggregation(league_name, league, games).teams[team].tally;
            t.points == 3 * t.wins + 1 * t.draws
        }),
{
    lemma_tally_shape(fixtures(league_name, league, games), team);
}

} // verus!
