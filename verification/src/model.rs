//! The resources the engine works on: leagues, game results and standings,
//! each with the mathematical value that contracts speak of.

use vstd::prelude::*;
use vstd::string::*;

verus! {

/// The texts of a list of strings.
pub open spec fn texts(list: Seq<String>) -> Seq<Seq<char>> {
    list.map_values(|s: String| s@)
}

/// A point in time: seconds since the Unix epoch and the nanoseconds within
/// that second.
#[derive(Clone, Copy, Debug, PartialEq, Eq, Structural)]
pub struct Timestamp {
    pub seconds: i64,
    pub nanos: u32,
}

/// A member of a team's roster.
#[derive(Clone, Debug)]
pub struct Player {
    pub first_name: String,
    pub last_name: String,
}

/// What a `Player` holds.
pub struct PlayerModel {
    pub first_name: Seq<char>,
    pub last_name: Seq<char>,
}

impl View for Player {
    type V = PlayerModel;

    open spec fn view(&self) -> PlayerModel {
        PlayerModel { first_name: self.first_name@, last_name: self.last_name@ }
    }
}

/// A team registered in a league. Its name identifies it within the league.
#[derive(Clone, Debug)]
pub struct Team {
    pub name: String,
    pub description: Option<String>,
    pub location: Option<String>,
    pub players: Vec<Player>,
}

/// What a `Team` holds.
pub struct TeamModel {
    pub name: Seq<char>,
    pub description: Option<Seq<char>>,
    pub location: Option<Seq<char>>,
    pub players: Seq<PlayerModel>,
}

/// The text of an optional string.
pub open spec fn text_of(s: Option<String>) -> Option<Seq<char>> {
    match s {
        Some(t) => Some(t@),
        None => None,
    }
}

impl View for Team {
    type V = TeamModel;

    open spec fn view(&self) -> TeamModel {
        TeamModel {
            name: self.name@,
            description: text_of(self.description),
            location: text_of(self.location),
            players: self.players@.map_values(|p: Player| p@),
        }
    }
}

/// Configuration of a league: how many teams it may hold, how often each pair
/// of teams meets, and the teams themselves.
#[derive(Clone, Debug)]
pub struct TheLeagueSpec {
    pub max_teams: u8,
    pub matchups: u32,
    pub teams: Vec<Team>,
}

/// What a `TheLeagueSpec` holds.
pub struct LeagueModel {
    pub max_teams: u8,
    pub matchups: u32,
    pub teams: Seq<TeamModel>,
}

impl View for TheLeagueSpec {
    type V = LeagueModel;

    open spec fn view(&self) -> LeagueModel {
        LeagueModel {
            max_teams: self.max_teams,
            matchups: self.matchups,
            teams: self.teams@.map_values(|t: Team| t@),
        }
    }
}

/// Smallest and largest admissible value of `max_teams`.
pub const MIN_TEAMS: u8 = 2;

pub const MAX_TEAMS: u8 = 8;

impl LeagueModel {
    /// The team names in the order of the team list.
    pub open spec fn names(self) -> Seq<Seq<char>> {
        self.teams.map_values(|t: TeamModel| t.name)
    }

    /// `max_teams` lies between two and eight.
    pub open spec fn capacity_ok(self) -> bool {
        MIN_TEAMS <= self.max_teams <= MAX_TEAMS
    }

    /// The team list is no longer than `max_teams` allows.
    pub open spec fn size_ok(self) -> bool {
        self.teams.len() <= self.max_teams
    }

    /// A league the engine can work on: an admissible capacity, no more
    /// teams than that, and no team name used twice.
    pub open spec fn wf(self) -> bool {
        &&& self.capacity_ok()
        &&& self.size_ok()
        &&& self.names().no_duplicates()
    }
}

/// Why a league cannot be reconciled.
#[derive(Clone, Copy, Debug, PartialEq, Eq, Structural)]
pub enum LeagueError {
    /// `max_teams` is below two or above eight.
    CapacityOutOfRange,
    /// The league lists more teams than `max_teams`.
    TooManyTeams,
    /// Two entries of the team list carry the same name.
    DuplicateTeam,
}

impl LeagueError {
    /// The word that names the error in a condition.
    pub open spec fn reason_text(self) -> Seq<char> {
        match self {
            LeagueError::CapacityOutOfRange => "CapacityOutOfRange"@,
            LeagueError::TooManyTeams => "TooManyTeams"@,
            LeagueError::DuplicateTeam => "DuplicateTeam"@,
        }
    }

    /// The word that names the error in a condition.
    pub fn reason(&self) -> (text: String)
        ensures
            text@ == self.reason_text(),
    {
        match self {
            LeagueError::CapacityOutOfRange => String::from_str("CapacityOutOfRange"),
            LeagueError::TooManyTeams => String::from_str("TooManyTeams"),
            LeagueError::DuplicateTeam => String::from_str("DuplicateTeam"),
        }
    }
}

/// The first rule that `league` breaks, in the order capacity, size, names.
pub open spec fn league_verdict(league: LeagueModel) -> Result<(), LeagueError> {
    if !league.capacity_ok() {
        Err(LeagueError::CapacityOutOfRange)
    } else if !league.size_ok() {
        Err(LeagueError::TooManyTeams)
    } else if !league.names().no_duplicates() {
        Err(LeagueError::DuplicateTeam)
    } else {
        Ok(())
    }
}

impl TheLeagueSpec {
    /// Position of the team called `name` in the team list, if there is one.
    pub fn find_team(&self, name: &str) -> (found: Option<usize>)
        ensures
            match found {
                Some(i) => i < self.teams.len() && self@.names()[i as int] == name@
                    && forall|j: int| 0 <= j < i ==> self@.names()[j] != name@,
                None => !self@.names().contains(name@),
            },
    {
        let wanted = name.to_owned();
        let mut i: usize = 0;
        while i < self.teams.len()
            invariant
                i <= self.teams.len(),
                wanted@ == name@,
                forall|j: int| 0 <= j < i ==> self@.names()[j] != name@,
            decreases self.teams.len() - i,
        {
            if self.teams[i].name == wanted {
                return Some(i);
            }
            i += 1;
        }
        None
    }

    /// Checks the rules of a league.
    pub fn validate(&self) -> (verdict: Result<(), LeagueError>)
        ensures
            verdict == league_verdict(self@),
            verdict is Ok <==> self@.wf(),
    {
        if self.max_teams < MIN_TEAMS || self.max_teams > MAX_TEAMS {
            return Err(LeagueError::CapacityOutOfRange);
        }
        if self.teams.len() > self.max_teams as usize {
            return Err(LeagueError::TooManyTeams);
        }
        let mut i: usize = 0;
        while i < self.teams.len()
            invariant
                i <= self.teams.len(),
                self@.capacity_ok(),
                self@.size_ok(),
                forall|a: int, b: int|
                    0 <= a < b < i ==> self@.names()[a] != self@.names()[b],
            decreases self.teams.len() - i,
        {
            let mut j: usize = 0;
            while j < i
                invariant
                    j <= i < self.teams.len(),
                    self@.capacity_ok(),
                    self@.size_ok(),
                    forall|a: int| 0 <= a < j ==> self@.names()[a] != self@.names()[i as int],
                decreases i - j,
            {
                if self.teams[j].name == self.teams[i].name {
                    assert(self@.names()[j as int] == self@.names()[i as int]);
                    return Err(LeagueError::DuplicateTeam);
                }
                j += 1;
            }
            i += 1;
        }
        Ok(())
    }
}

/// How a game ended. The home team is the first of the two teams of a game
/// result, the away team the second.
#[derive(Clone, Copy, Debug, PartialEq, Eq, Structural)]
pub enum GameOutcome {
    /// The home team won.
    WinnerHome { score_home: u32, score_away: u32 },
    /// The away team won.
    WinnerAway { score_home: u32, score_away: u32 },
    /// Both teams scored `score` goals.
    Draw { score: u32 },
}

impl GameOutcome {
    /// Goals of the home team.
    pub open spec fn home_goals(self) -> nat {
        match self {
            GameOutcome::WinnerHome { score_home, .. } => score_home as nat,
            GameOutcome::WinnerAway { score_home, .. } => score_home as nat,
            GameOutcome::Draw { score } => score as nat,
        }
    }

    /// Goals of the away team.
    pub open spec fn away_goals(self) -> nat {
        match self {
            GameOutcome::WinnerHome { score_away, .. } => score_away as nat,
            GameOutcome::WinnerAway { score_away, .. } => score_away as nat,
            GameOutcome::Draw { score } => score as nat,
        }
    }

    /// The declared winner scored more goals than the loser.
    pub open spec fn consistent(self) -> bool {
        match self {
            GameOutcome::WinnerHome { score_home, score_away } => score_home > score_away,
            GameOutcome::WinnerAway { score_home, score_away } => score_away > score_home,
            GameOutcome::Draw { .. } => true,
        }
    }

    /// Goals of the home team.
    pub fn goals_home(&self) -> (goals: u32)
        ensures
            goals == self.home_goals(),
    {
        match self {
            GameOutcome::WinnerHome { score_home, .. } => *score_home,
            GameOutcome::WinnerAway { score_home, .. } => *score_home,
            GameOutcome::Draw { score } => *score,
        }
    }

    /// Goals of the away team.
    pub fn goals_away(&self) -> (goals: u32)
        ensures
            goals == self.away_goals(),
    {
        match self {
            GameOutcome::WinnerHome { score_away, .. } => *score_away,
            GameOutcome::WinnerAway { score_away, .. } => *score_away,
            GameOutcome::Draw { score } => *score,
        }
    }

    /// Whether the scores agree with the declared winner.
    pub fn is_consistent(&self) -> (ok: bool)
        ensures
            ok == self.consistent(),
    {
        match self {
            GameOutcome::WinnerHome { score_home, score_away } => *score_home > *score_away,
            GameOutcome::WinnerAway { score_home, score_away } => *score_away > *score_home,
            GameOutcome::Draw { .. } => true,
        }
    }
}

/// The record of one played game. `teams[0]` is the home team, `teams[1]`
/// the away team.
#[derive(Clone, Debug)]
pub struct GameResultSpec {
    pub league_name: String,
    pub round_number: u32,
    pub teams: [String; 2],
    pub time: Timestamp,
    pub result: GameOutcome,
}

/// What a `GameResultSpec` holds.
pub struct GameModel {
    pub league_name: Seq<char>,
    pub round_number: u32,
    pub home: Seq<char>,
    pub away: Seq<char>,
    pub time: Timestamp,
    pub result: GameOutcome,
}

impl View for GameResultSpec {
    type V = GameModel;

    open spec fn view(&self) -> GameModel {
        GameModel {
            league_name: self.league_name@,
            round_number: self.round_number,
            home: self.teams[0]@,
            away: self.teams[1]@,
            time: self.time,
            result: self.result,
        }
    }
}

/// Why a game result is rejected whatever league it belongs to.
#[derive(Clone, Copy, Debug, PartialEq, Eq, Structural)]
pub enum GameError {
    /// Home and away team are the same team.
    SameTeam,
    /// The declared winner did not score more goals than the loser.
    ScoreContradictsWinner,
}

impl GameError {
    /// The word that names the error in a condition.
    pub open spec fn reason_text(self) -> Seq<char> {
        match self {
            GameError::SameTeam => "SameTeam"@,
            GameError::ScoreContradictsWinner => "ScoreContradictsWinner"@,
        }
    }

    /// The word that names the error in a condition.
    pub fn reason(&self) -> (text: String)
        ensures
            text@ == self.reason_text(),
    {
        match self {
            GameError::SameTeam => String::from_str("SameTeam"),
            GameError::ScoreContradictsWinner => String::from_str("ScoreContradictsWinner"),
        }
    }
}

impl GameModel {
    /// A game between two different teams whose scores agree with its
    /// declared winner. A result that names a winner with no more goals
    /// than the loser is rejected, not reinterpreted.
    pub open spec fn valid(self) -> bool {
        self.home != self.away && self.result.consistent()
    }

    /// The first rule that the game breaks.
    pub open spec fn verdict(self) -> Result<(), GameError> {
        if self.home == self.away {
            Err(GameError::SameTeam)
        } else if !self.result.consistent() {
            Err(GameError::ScoreContradictsWinner)
        } else {
            Ok(())
        }
    }
}

impl GameResultSpec {
    /// Checks the rules of a game result.
    pub fn validate(&self) -> (verdict: Result<(), GameError>)
        ensures
            verdict == self@.verdict(),
            verdict is Ok <==> self@.valid(),
    {
        if self.teams[0] == self.teams[1] {
            Err(GameError::SameTeam)
        } else if !self.result.is_consistent() {
            Err(GameError::ScoreContradictsWinner)
        } else {
            Ok(())
        }
    }
}

/// The values of a sequence of game results.
pub open spec fn game_models(games: Seq<GameResultSpec>) -> Seq<GameModel> {
    games.map_values(|g: GameResultSpec| g@)
}

/// How teams level on points are told apart.
#[derive(Clone, Copy, Debug, PartialEq, Eq, Structural)]
pub enum StandingResolution {
    /// The games between the level teams decide first.
    Head2Head,
    /// The goal difference over all games decides.
    GoalDifference,
}

/// What a client asks of a standing: which team of which league it tracks
/// and how ties are resolved.
#[derive(Clone, Debug)]
pub struct StandingSpec {
    pub league_name: String,
    pub team_name: String,
    pub resolution: StandingResolution,
}

/// What a `StandingSpec` holds.
pub struct StandingSpecModel {
    pub league_name: Seq<char>,
    pub team_name: Seq<char>,
    pub resolution: StandingResolution,
}

impl View for StandingSpec {
    type V = StandingSpecModel;

    open spec fn view(&self) -> StandingSpecModel {
        StandingSpecModel {
            league_name: self.league_name@,
            team_name: self.team_name@,
            resolution: self.resolution,
        }
    }
}

} // verus!
