//! The tie-break resolver: a total order of the teams of an aggregation.
//! Points decide first. Teams level on points are told apart by the chosen
//! strategy, and in the last resort by goal difference, goals scored and
//! name.

use crate::aggregate::{share, Aggregation, AggregationModel, Fixture};
use crate::model::{texts, StandingResolution};
use crate::names::{
    lemma_name_before_asymmetric, lemma_name_before_total, lemma_name_before_transitive,
    name_before, name_less,
};
use vstd::prelude::*;

verus! {

/// The step of the fold that sums the points of `team` over fixtures.
pub open spec fn add_points(team: int) -> spec_fn(nat, Fixture) -> nat {
    |acc: nat, f: Fixture| acc + share(f, team).points
}

/// Points that the team at `a` earned in its games against the team at `b`.
pub open spec fn pair_points(agg: AggregationModel, a: int, b: int) -> nat {
    agg.games_between(a, b).fold_left(0nat, add_points(a))
}

/// Points that the team at `a` earned against the members of `group` with a
/// position below `upto`.
pub open spec fn group_points_upto(agg: AggregationModel, group: Seq<bool>, a: int, upto: int) -> nat
    decreases upto,
{
    if upto <= 0 {
        0
    } else {
        group_points_upto(agg, group, a, upto - 1) + if group[upto - 1] {
            pair_points(agg, a, upto - 1)
        } else {
            0
        }
    }
}

/// Points that the team at `a` earned in its games against the members of
/// `group`. A group is given by one flag per team.
pub open spec fn group_points(agg: AggregationModel, group: Seq<bool>, a: int) -> nat {
    group_points_upto(agg, group, a, group.len() as int)
}

/// Number of members of a group.
pub open spec fn size(group: Seq<bool>) -> nat
    decreases group.len(),
{
    if group.len() == 0 {
        0
    } else {
        size(group.drop_last()) + if group.last() {
            1nat
        } else {
            0nat
        }
    }
}

/// The members of `group` whose points against the group are `level`.
pub open spec fn narrow(agg: AggregationModel, group: Seq<bool>, level: nat) -> Seq<bool> {
    Seq::new(group.len(), |t: int| group[t] && group_points(agg, group, t) == level)
}

/// The order of last resort: the higher goal difference over all games,
/// then the more goals scored, then the name that stands first.
pub open spec fn fallback_before(agg: AggregationModel, a: int, b: int) -> bool {
    let ta = agg.teams[a].tally;
    let tb = agg.teams[b].tally;
    if ta.goal_difference() != tb.goal_difference() {
        ta.goal_difference() > tb.goal_difference()
    } else if ta.goals_for != tb.goals_for {
        ta.goals_for > tb.goals_for
    } else {
        name_before(agg.teams[a].name, agg.teams[b].name)
    }
}

/// The order among the members of a group of teams level on points: the
/// team with more points from the games within the group stands first.
/// Teams level on those too are compared again within the smaller group of
/// the teams level with them. Where the whole group is level, games played
/// or not, the order of last resort decides.
pub open spec fn head_to_head_before(agg: AggregationModel, group: Seq<bool>, a: int, b: int) -> bool
    decreases size(group),
{
    let pa = group_points(agg, group, a);
    let pb = group_points(agg, group, b);
    if pa != pb {
        pa > pb
    } else {
        let inner = narrow(agg, group, pa);
        if size(inner) < size(group) {
            head_to_head_before(agg, inner, a, b)
        } else {
            fallback_before(agg, a, b)
        }
    }
}

/// The group of the teams that have as many points as the team at `a`.
pub open spec fn level_with(agg: AggregationModel, a: int) -> Seq<bool> {
    Seq::new(agg.teams.len(), |t: int| agg.teams[t].tally.points == agg.teams[a].tally.points)
}

/// Whether the team at `a` ranks before the team at `b`: more points rank
/// first, and `strategy` tells teams level on points apart.
pub open spec fn before(agg: AggregationModel, strategy: StandingResolution, a: int, b: int) -> bool {
    let pa = agg.teams[a].tally.points;
    let pb = agg.teams[b].tally.points;
    if pa != pb {
        pa > pb
    } else {
        match strategy {
            StandingResolution::Head2Head => head_to_head_before(agg, level_with(agg, a), a, b),
            StandingResolution::GoalDifference => fallback_before(agg, a, b),
        }
    }
}

/// A ranking lists every team of the aggregation once, by position, each
/// before all the teams it ranks before.
pub open spec fn is_ranking(agg: AggregationModel, strategy: StandingResolution, order: Seq<usize>) -> bool {
    &&& order.len() == agg.teams.len()
    &&& order.no_duplicates()
    &&& forall|i: int| 0 <= i < order.len() ==> (#[trigger] order[i]) < agg.teams.len()
    &&& forall|t: usize| t < agg.teams.len() ==> order.contains(t)
    &&& forall|i: int, j: int|
        0 <= i < j < order.len() ==> before(agg, strategy, #[trigger] order[i] as int, #[trigger] order[j] as int)
}

/// A group within another has no more members, and as many only if it is
/// the same group.
pub proof fn lemma_size_within(inner: Seq<bool>, outer: Seq<bool>)
    requires
        inner.len() == outer.len(),
        forall|t: int| 0 <= t < inner.len() && inner[t] ==> outer[t],
    ensures
        size(inner) <= size(outer),
        size(inner) == size(outer) ==> inner == outer,
    decreases inner.len(),
{
    if inner.len() > 0 {
        lemma_size_within(inner.drop_last(), outer.drop_last());
        if size(inner) == size(outer) {
            assert(inner.drop_last() == outer.drop_last());
            assert(inner =~= inner.drop_last().push(inner.last()));
            assert(outer =~= outer.drop_last().push(outer.last()));
        }
    } else {
        assert(inner =~= outer);
    }
}

/// In a well-formed aggregation the order of last resort is a strict total
/// order of the teams.
pub proof fn lemma_fallback_order(agg: AggregationModel, a: int, b: int, c: int)
    requires
        agg.wf(),
        0 <= a < agg.teams.len(),
        0 <= b < agg.teams.len(),
        0 <= c < agg.teams.len(),
    ensures
        !fallback_before(agg, a, a),
        a != b ==> (fallback_before(agg, a, b) <==> !fallback_before(agg, b, a)),
        fallback_before(agg, a, b) && fallback_before(agg, b, c) ==> fallback_before(agg, a, c),
{
    let na = agg.teams[a].name;
    let nb = agg.teams[b].name;
    let nc = agg.teams[c].name;
    lemma_name_before_asymmetric(na, nb);
    lemma_name_before_asymmetric(na, na);
    if a != b {
        assert(agg.names()[a] == na && agg.names()[b] == nb);
        assert(na != nb);
        lemma_name_before_total(na, nb);
    }
    if name_before(na, nb) && name_before(nb, nc) {
        lemma_name_before_transitive(na, nb, nc);
    }
}

/// Among the members of a group, of two different teams exactly one stands
/// before the other.
pub proof fn lemma_head_to_head_total(agg: AggregationModel, group: Seq<bool>, a: int, b: int)
    requires
        agg.wf(),
        group.len() == agg.teams.len(),
        0 <= a < group.len(),
        0 <= b < group.len(),
        a != b,
        group[a],
        group[b],
    ensures
        head_to_head_before(agg, group, a, b) <==> !head_to_head_before(agg, group, b, a),
    decreases size(group),
{
    let pa = group_points(agg, group, a);
    let pb = group_points(agg, group, b);
    if pa == pb {
        let inner = narrow(agg, group, pa);
        if size(inner) < size(group) {
            lemma_head_to_head_total(agg, inner, a, b);
        } else {
            lemma_fallback_order(agg, a, b, a);
        }
    }
}

/// Among the members of a group the order is transitive.
pub proof fn lemma_head_to_head_transitive(
    agg: AggregationModel,
    group: Seq<bool>,
    a: int,
    b: int,
    c: int,
)
    requires
        agg.wf(),
        group.len() == agg.teams.len(),
        0 <= a < group.len(),
        0 <= b < group.len(),
        0 <= c < group.len(),
        group[a],
        group[b],
        group[c],
        head_to_head_before(agg, group, a, b),
        head_to_head_before(agg, group, b, c),
    ensures
        head_to_head_before(agg, group, a, c),
    decreases size(group),
{
    let pa = group_points(agg, group, a);
    let pb = group_points(agg, group, b);
    let pc = group_points(agg, group, c);
    if pa == pb && pb == pc {
        let inner = narrow(agg, group, pa);
        if size(inner) < size(group) {
            lemma_head_to_head_transitive(agg, inner, a, b, c);
        } else {
            lemma_fallback_order(agg, a, b, c);
        }
    }
}

/// The ranking order is a strict total order of the teams of a well-formed
/// aggregation: of two different teams exactly one ranks before the other,
/// and the order is transitive.
pub proof fn lemma_before_order(
    agg: AggregationModel,
    strategy: StandingResolution,
    a: int,
    b: int,
    c: int,
)
    requires
        agg.wf(),
        0 <= a < agg.teams.len(),
        0 <= b < agg.teams.len(),
        0 <= c < agg.teams.len(),
    ensures
        a != b ==> (before(agg, strategy, a, b) <==> !before(agg, strategy, b, a)),
        before(agg, strategy, a, b) && before(agg, strategy, b, c) ==> before(agg, strategy, a, c),
{
    let pa = agg.teams[a].tally.points;
    let pb = agg.teams[b].tally.points;
    let pc = agg.teams[c].tally.points;
    lemma_fallback_order(agg, a, b, c);
    if pa == pb {
        assert(level_with(agg, a) =~= level_with(agg, b));
        if a != b && strategy == StandingResolution::Head2Head {
            lemma_head_to_head_total(agg, level_with(agg, a), a, b);
        }
        if pb == pc && strategy == StandingResolution::Head2Head && before(agg, strategy, a, b)
            && before(agg, strategy, b, c) {
            assert(level_with(agg, b) =~= level_with(agg, c));
            lemma_head_to_head_transitive(agg, level_with(agg, a), a, b, c);
        }
    }
}

/// The entries of `order` are positions of teams, each ranking before all
/// that follow it.
pub open spec fn in_rank_order(agg: AggregationModel, strategy: StandingResolution, order: Seq<usize>) -> bool {
    &&& forall|i: int| 0 <= i < order.len() ==> (#[trigger] order[i]) < agg.teams.len()
    &&& forall|i: int, j: int|
        0 <= i < j < order.len() ==> before(agg, strategy, #[trigger] order[i] as int, #[trigger] order[j] as int)
}

/// Two lists in rank order that hold the same teams, each once, are the
/// same list.
pub proof fn lemma_rank_order_unique(
    agg: AggregationModel,
    strategy: StandingResolution,
    first: Seq<usize>,
    second: Seq<usize>,
)
    requires
        agg.wf(),
        in_rank_order(agg, strategy, first),
        in_rank_order(agg, strategy, second),
        first.no_duplicates(),
        second.no_duplicates(),
        forall|t: usize| first.contains(t) <==> second.contains(t),
    ensures
        first == second,
    decreases first.len(),
{
    if first.len() == 0 {
        if second.len() > 0 {
            assert(second.contains(second[0]));
        }
        assert(first =~= second);
    } else {
        let x = first[0];
        assert(first.contains(x));
        let k = choose|k: int| 0 <= k < second.len() && second[k] == x;
        if k > 0 {
            let y = second[0];
            assert(second.contains(y));
            let m = choose|m: int| 0 <= m < first.len() && first[m] == y;
            assert(before(agg, strategy, second[0] as int, second[k] as int));
            assert(before(agg, strategy, first[0] as int, first[m] as int));
            lemma_before_order(agg, strategy, x as int, y as int, x as int);
        }
        let rest1 = first.drop_first();
        let rest2 = second.drop_first();
        assert forall|t: usize| rest1.contains(t) <==> rest2.contains(t) by {
            if rest1.contains(t) {
                let i = choose|i: int| 0 <= i < rest1.len() && rest1[i] == t;
                assert(first[i + 1] == t);
                assert(second.contains(t));
                let j = choose|j: int| 0 <= j < second.len() && second[j] == t;
                assert(rest2[j - 1] == t);
            }
            if rest2.contains(t) {
                let i = choose|i: int| 0 <= i < rest2.len() && rest2[i] == t;
                assert(second[i + 1] == t);
                assert(first.contains(t));
                let j = choose|j: int| 0 <= j < first.len() && first[j] == t;
                assert(rest1[j - 1] == t);
            }
        }
        assert forall|i: int, j: int| 0 <= i < j < rest1.len() implies before(
            agg,
            strategy,
            #[trigger] rest1[i] as int,
            #[trigger] rest1[j] as int,
        ) by {
            assert(before(agg, strategy, first[i + 1] as int, first[j + 1] as int));
        }
        assert forall|i: int, j: int| 0 <= i < j < rest2.len() implies before(
            agg,
            strategy,
            #[trigger] rest2[i] as int,
            #[trigger] rest2[j] as int,
        ) by {
            assert(before(agg, strategy, second[i + 1] as int, second[j + 1] as int));
        }
        lemma_rank_order_unique(agg, strategy, rest1, rest2);
        assert(first =~= seq![x] + rest1);
        assert(second =~= seq![x] + rest2);
    }
}

/// Determinism: an aggregation has one ranking under a strategy. Whatever
/// produces a ranking of the same aggregation under the same strategy
/// produces the same one.
pub proof fn law_ranking_unique(
    agg: AggregationModel,
    strategy: StandingResolution,
    first: Seq<usize>,
    second: Seq<usize>,
)
    requires
        agg.wf(),
        is_ranking(agg, strategy, first),
        is_ranking(agg, strategy, second),
    ensures
        first == second,
{
    assert forall|t: usize| first.contains(t) <==> second.contains(t) by {
        if first.contains(t) {
            let i = choose|i: int| 0 <= i < first.len() && first[i] == t;
            assert(first[i] < agg.teams.len());
        }
        if second.contains(t) {
            let i = choose|i: int| 0 <= i < second.len() && second[i] == t;
            assert(second[i] < agg.teams.len());
        }
    }
    lemma_rank_order_unique(agg, strategy, first, second);
}

/// Most points that one team can earn against another.
pub open spec fn pair_limit() -> nat {
    3 * 0xffff_ffff_ffff_ffff
}

/// `table` holds for each pair of teams the points of the first against
/// the second.
pub open spec fn table_of(agg: AggregationModel, table: Seq<Vec<u128>>) -> bool {
    &&& table.len() == agg.teams.len()
    &&& forall|a: int|
        0 <= a < table.len() ==> {
            &&& (#[trigger] table[a]).len() == agg.teams.len()
            &&& forall|b: int|
                0 <= b < agg.teams.len() ==> (#[trigger] table[a][b]) == pair_points(agg, a, b)
                    && table[a][b] <= pair_limit()
        }
}

/// Points that the team at `a` earned in its games against the team at `b`.
pub fn points_against(agg: &Aggregation, a: usize, b: usize) -> (points: u128)
    requires
        a < agg@.teams.len(),
        b < agg@.teams.len(),
    ensures
        points == pair_points(agg@, a as int, b as int),
        points <= pair_limit(),
{
    let n = agg.len();
    if a == b {
        return 0;
    }
    let (hi, lo) = if b < a {
        (a, b)
    } else {
        (b, a)
    };
    let record = agg.team(hi);
    assert(record@ == agg@.teams[hi as int]);
    assert(record.versus@.map_values(|list: Vec<Fixture>| list@).len() == hi);
    let list = &record.versus[lo];
    assert(list@ == agg@.games_between(a as int, b as int)) by {
        assert(record@.versus[lo as int] == list@);
    }
    let mut points: u128 = 0;
    let mut k: usize = 0;
    while k < list.len()
        invariant
            k <= list.len(),
            points == list@.take(k as int).fold_left(0nat, add_points(a as int)),
            points <= 3 * k,
        decreases list.len() - k,
    {
        proof {
            assert(list@.take(k + 1).drop_last() == list@.take(k as int));
            assert(list@.take(k + 1).last() == list@[k as int]);
        }
        let f = list[k];
        if f.home == a {
            match f.result {
                crate::model::GameOutcome::WinnerHome { .. } => {
                    points = points + 3;
                },
                crate::model::GameOutcome::WinnerAway { .. } => {},
                crate::model::GameOutcome::Draw { .. } => {
                    points = points + 1;
                },
            }
        } else if f.away == a {
            match f.result {
                crate::model::GameOutcome::WinnerHome { .. } => {},
                crate::model::GameOutcome::WinnerAway { .. } => {
                    points = points + 3;
                },
                crate::model::GameOutcome::Draw { .. } => {
                    points = points + 1;
                },
            }
        }
        k += 1;
    }
    assert(list@.take(list.len() as int) == list@);
    points
}

/// For each pair of teams the points of the first against the second.
pub fn points_table(agg: &Aggregation) -> (table: Vec<Vec<u128>>)
    ensures
        table_of(agg@, table@),
{
    let n = agg.len();
    let mut table: Vec<Vec<u128>> = Vec::new();
    let mut a: usize = 0;
    while a < n
        invariant
            a <= n,
            n == agg@.teams.len(),
            table.len() == a,
            forall|x: int|
                0 <= x < a ==> {
                    &&& (#[trigger] table[x]).len() == n
                    &&& forall|y: int|
                        0 <= y < n ==> (#[trigger] table[x][y]) == pair_points(agg@, x, y)
                            && table[x][y] <= pair_limit()
                },
        decreases n - a,
    {
        let mut row: Vec<u128> = Vec::new();
        let mut b: usize = 0;
        while b < n
            invariant
                b <= n,
                a < n,
                n == agg@.teams.len(),
                row.len() == b,
                forall|y: int|
                    0 <= y < b ==> (#[trigger] row[y]) == pair_points(agg@, a as int, y) && row[y]
                        <= pair_limit(),
            decreases n - b,
        {
            row.push(points_against(agg, a, b));
            b += 1;
        }
        table.push(row);
        a += 1;
    }
    table
}

/// Points that the team at `a` earned against the members of `group`.
pub fn points_in_group(agg: &Aggregation, table: &Vec<Vec<u128>>, group: &Vec<bool>, a: usize) -> (points:
    u128)
    requires
        table_of(agg@, table@),
        group.len() == agg@.teams.len(),
        a < agg@.teams.len(),
    ensures
        points == group_points(agg@, group@, a as int),
{
    let n = agg.len();
    let mut points: u128 = 0;
    let mut b: usize = 0;
    while b < n
        invariant
            b <= n,
            n == agg@.teams.len(),
            n == group.len(),
            a < n,
            table_of(agg@, table@),
            agg@.wf(),
            points == group_points_upto(agg@, group@, a as int, b as int),
            points <= b * 0x2_ffff_ffff_ffff_fffd,
        decreases n - b,
    {
        if group[b] {
            let earned = table[a][b];
            assert(earned <= 0x2_ffff_ffff_ffff_fffd);
            points = points + earned;
        }
        b += 1;
    }
    points
}

/// Whether the team at `a` stands before the team at `b` in the order of
/// last resort.
pub fn fallback_first(agg: &Aggregation, a: usize, b: usize) -> (first: bool)
    requires
        a < agg@.teams.len(),
        b < agg@.teams.len(),
    ensures
        first == fallback_before(agg@, a as int, b as int),
{
    let n = agg.len();
    let ra = agg.team(a);
    let rb = agg.team(b);
    let ta = ra.stats;
    let tb = rb.stats;
    assert(ra@ == agg@.teams[a as int] && rb@ == agg@.teams[b as int]);
    let left = ta.goals_for + tb.goals_against;
    let right = tb.goals_for + ta.goals_against;
    if left != right {
        left > right
    } else if ta.goals_for != tb.goals_for {
        ta.goals_for > tb.goals_for
    } else {
        name_less(ra.name.as_str(), rb.name.as_str())
    }
}

/// Whether the team at `a` stands before the team at `b` among the teams
/// level on points with `a`.
pub fn head_to_head_first(agg: &Aggregation, table: &Vec<Vec<u128>>, a: usize, b: usize) -> (first:
    bool)
    requires
        table_of(agg@, table@),
        a < agg@.teams.len(),
        b < agg@.teams.len(),
    ensures
        first == head_to_head_before(agg@, level_with(agg@, a as int), a as int, b as int),
{
    let n = agg.len();
    let level = agg.team(a).stats.points;
    let mut group: Vec<bool> = Vec::new();
    let mut t: usize = 0;
    while t < n
        invariant
            t <= n,
            n == agg@.teams.len(),
            a < n,
            level == agg@.teams[a as int].tally.points,
            group.len() == t,
            forall|x: int| 0 <= x < t ==> (#[trigger] group[x]) == level_with(agg@, a as int)[x],
        decreases n - t,
    {
        let record = agg.team(t);
        group.push(record.stats.points == level);
        t += 1;
    }
    assert(group@ =~= level_with(agg@, a as int));
    loop
        invariant
            n == agg@.teams.len(),
            a < n,
            b < n,
            group.len() == n,
            table_of(agg@, table@),
            head_to_head_before(agg@, level_with(agg@, a as int), a as int, b as int)
                == head_to_head_before(agg@, group@, a as int, b as int),
        decreases size(group@),
    {
        let pa = points_in_group(agg, table, &group, a);
        let pb = points_in_group(agg, table, &group, b);
        if pa != pb {
            return pa > pb;
        }
        let mut inner: Vec<bool> = Vec::new();
        let mut smaller = false;
        let mut t: usize = 0;
        while t < n
            invariant
                t <= n,
                n == agg@.teams.len(),
                group.len() == n,
                table_of(agg@, table@),
                inner.len() == t,
                forall|x: int|
                    0 <= x < t ==> (#[trigger] inner[x]) == narrow(agg@, group@, pa as nat)[x],
                smaller <==> exists|x: int| 0 <= x < t && group[x] && !inner[x],
            decreases n - t,
        {
            let keep = group[t] && points_in_group(agg, table, &group, t) == pa;
            if group[t] && !keep {
                smaller = true;
            }
            inner.push(keep);
            t += 1;
        }
        proof {
            assert(inner@ =~= narrow(agg@, group@, pa as nat));
            lemma_size_within(inner@, group@);
            if !smaller {
                assert(inner@ =~= group@);
            }
        }
        if !smaller {
            return fallback_first(agg, a, b);
        }
        group = inner;
    }
}

/// Whether the team at `a` ranks before the team at `b`.
pub fn ranks_before(
    agg: &Aggregation,
    table: &Vec<Vec<u128>>,
    strategy: StandingResolution,
    a: usize,
    b: usize,
) -> (first: bool)
    requires
        table_of(agg@, table@),
        a < agg@.teams.len(),
        b < agg@.teams.len(),
    ensures
        first == before(agg@, strategy, a as int, b as int),
{
    let pa = agg.team(a).stats.points;
    let pb = agg.team(b).stats.points;
    if pa != pb {
        pa > pb
    } else {
        match strategy {
            StandingResolution::Head2Head => head_to_head_first(agg, table, a, b),
            StandingResolution::GoalDifference => fallback_first(agg, a, b),
        }
    }
}

/// Ranks the teams of an aggregation: the positions of the teams, the
/// first-ranked team first. An aggregation without teams has the empty
/// ranking.
pub fn rank(agg: &Aggregation, strategy: StandingResolution) -> (order: Vec<usize>)
    ensures
        is_ranking(agg@, strategy, order@),
{
    let n = agg.len();
    let table = points_table(agg);
    let mut order: Vec<usize> = Vec::new();
    let mut t: usize = 0;
    while t < n
        invariant
            t <= n,
            n == agg@.teams.len(),
            agg@.wf(),
            table_of(agg@, table@),
            order.len() == t,
            order@.no_duplicates(),
            in_rank_order(agg@, strategy, order@),
            forall|i: int| 0 <= i < order.len() ==> (#[trigger] order[i]) < t,
            forall|x: usize| x < t ==> order@.contains(x),
        decreases n - t,
    {
        let mut pos: usize = 0;
        while pos < order.len() && ranks_before(agg, &table, strategy, order[pos], t)
            invariant
                pos <= order.len(),
                t < n,
                n == agg@.teams.len(),
                table_of(agg@, table@),
                forall|i: int| 0 <= i < order.len() ==> (#[trigger] order[i]) < t,
                forall|i: int|
                    0 <= i < pos ==> before(agg@, strategy, (#[trigger] order[i]) as int, t as int),
            decreases order.len() - pos,
        {
            pos += 1;
        }
        proof {
            let old_order = order@;
            let grown = old_order.insert(pos as int, t);
            assert forall|i: int, j: int| 0 <= i < j < grown.len() implies before(
                agg@,
                strategy,
                #[trigger] grown[i] as int,
                #[trigger] grown[j] as int,
            ) by {
                if j < pos {
                    assert(before(agg@, strategy, old_order[i] as int, old_order[j] as int));
                } else if j == pos {
                } else if i < pos {
                    assert(before(agg@, strategy, old_order[i] as int, old_order[j - 1] as int));
                } else if i == pos {
                    let head = old_order[pos as int];
                    lemma_before_order(agg@, strategy, t as int, head as int, old_order[j - 1] as int);
                    if j - 1 > pos {
                        assert(before(agg@, strategy, head as int, old_order[j - 1] as int));
                    }
                } else {
                    assert(before(agg@, strategy, old_order[i - 1] as int, old_order[j - 1] as int));
                }
            }
            assert forall|x: usize| x < t + 1 implies grown.contains(x) by {
                if x == t {
                    assert(grown[pos as int] == x);
                } else {
                    assert(old_order.contains(x));
                    let i = choose|i: int| 0 <= i < old_order.len() && old_order[i] == x;
                    if i < pos {
                        assert(grown[i] == x);
                    } else {
                        assert(grown[i + 1] == x);
                    }
                }
            }
            assert(grown.no_duplicates()) by {
                assert forall|i: int, j: int| 0 <= i < grown.len() && 0 <= j < grown.len() && i != j implies grown[i] != grown[j] by {
                    let oi = if i < pos { i } else { i - 1 };
                    let oj = if j < pos { j } else { j - 1 };
                    if i != pos && j != pos {
                        assert(old_order[oi] != old_order[oj]);
                    }
                }
            }
        }
        order.insert(pos, t);
        t += 1;
    }
    proof {
        assert forall|x: usize| x < agg@.teams.len() implies order@.contains(x) by {}
    }
    order
}

/// The ranking of an aggregation under a strategy.
pub open spec fn ranking(agg: AggregationModel, strategy: StandingResolution) -> Seq<usize> {
    choose|order: Seq<usize>| is_ranking(agg, strategy, order)
}

/// The rank of the team at `team`, the first-ranked team having rank one.
pub open spec fn rank_of(agg: AggregationModel, strategy: StandingResolution, team: int) -> int {
    ranking(agg, strategy).index_of(team as usize) + 1
}

/// The rank of the team at `team` in the ranking `order`.
pub fn rank_in(agg: &Aggregation, strategy: StandingResolution, order: &Vec<usize>, team: usize) -> (rank:
    usize)
    requires
        is_ranking(agg@, strategy, order@),
        team < agg@.teams.len(),
    ensures
        rank == rank_of(agg@, strategy, team as int),
        1 <= rank <= agg@.teams.len(),
        order@[rank - 1] == team,
{
    let n = agg.len();
    proof {
        law_ranking_unique(agg@, strategy, order@, ranking(agg@, strategy));
        assert(order@.contains(team));
    }
    let mut i: usize = 0;
    while i < order.len()
        invariant
            i <= order.len(),
            order.len() == agg@.teams.len(),
            order@ == ranking(agg@, strategy),
            order@.no_duplicates(),
            order@.contains(team),
            forall|j: int| 0 <= j < i ==> order[j] != team,
        decreases order.len() - i,
    {
        if order[i] == team {
            proof {
                let at = order@.index_of(team);
                assert(order@[at] == team);
            }
            return i + 1;
        }
        i += 1;
    }
    proof {
        let k = choose|k: int| 0 <= k < order@.len() && order@[k] == team;
        assert(order[k] != team);
    }
    1
}

/// The names of the teams at the positions of `order`.
pub open spec fn names_in_order(agg: AggregationModel, order: Seq<usize>) -> Seq<Seq<char>> {
    order.map_values(|t: usize| agg.teams[t as int].name)
}

/// The names of the teams in the order of their ranking, the first-ranked
/// team first.
pub fn ranked_names(agg: &Aggregation, strategy: StandingResolution) -> (names: Vec<String>)
    ensures
        texts(names@) == names_in_order(agg@, ranking(agg@, strategy)),
        is_ranking(agg@, strategy, ranking(agg@, strategy)),
{
    let n = agg.len();
    let order = rank(agg, strategy);
    proof {
        law_ranking_unique(agg@, strategy, order@, ranking(agg@, strategy));
    }
    let mut names: Vec<String> = Vec::new();
    let mut i: usize = 0;
    while i < order.len()
        invariant
            i <= order.len(),
            is_ranking(agg@, strategy, order@),
            names.len() == i,
            forall|j: int| 0 <= j < i ==> (#[trigger] names[j])@ == agg@.teams[order[j] as int].name,
        decreases order.len() - i,
    {
        let record = agg.team(order[i]);
        names.push(record.name.clone());
        i += 1;
    }
    assert(texts(names@) =~= names_in_order(agg@, order@));
    names
}

} // verus!
