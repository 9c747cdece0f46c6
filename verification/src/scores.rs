//! A table from team name to score in which every name occurs once.

use vstd::prelude::*;

verus! {

/// The position of `name` among `names`, where it occurs.
pub open spec fn position_of(names: Seq<String>, name: Seq<char>) -> int {
    choose|i: int| 0 <= i < names.len() && names[i]@ == name
}

/// Whether `name` occurs among `names`.
pub open spec fn occurs(names: Seq<String>, name: Seq<char>) -> bool {
    exists|i: int| 0 <= i < names.len() && names[i]@ == name
}

/// Whether no two of `names` spell the same text.
pub open spec fn all_distinct(names: Seq<String>) -> bool {
    forall|i: int, j: int|
        0 <= i < names.len() && 0 <= j < names.len() && i != j ==> names[i]@ != names[j]@
}

/// The map that pairs `names` with `points` position by position.
pub open spec fn table_of(names: Seq<String>, points: Seq<i32>) -> Map<Seq<char>, i32> {
    Map::new(|name: Seq<char>| occurs(names, name), |name: Seq<char>| points[position_of(names, name)])
}

/// The map obtained by inserting the first `count` pairs of `names` and
/// `points` in order, a later pair replacing an earlier one of the same name.
pub open spec fn collected(names: Seq<String>, points: Seq<i32>, count: nat) -> Map<Seq<char>, i32>
    decreases count,
{
    if count == 0 {
        Map::empty()
    } else {
        collected(names, points, (count - 1) as nat).insert(
            names[count - 1]@,
            points[count - 1],
        )
    }
}

/// The names among the first `count` of `names`, each where it first
/// occurs: the order in which `collected` comes to list them.
pub open spec fn collected_names(names: Seq<String>, points: Seq<i32>, count: nat) -> Seq<
    Seq<char>,
>
    decreases count,
{
    if count == 0 {
        Seq::empty()
    } else {
        let before = collected_names(names, points, (count - 1) as nat);
        if collected(names, points, (count - 1) as nat).contains_key(names[count - 1]@) {
            before
        } else {
            before.push(names[count - 1]@)
        }
    }
}

/// Scores by team name. Each team is listed once, in the order in which it
/// first came in.
pub struct Scores {
    teams: Vec<String>,
    points: Vec<i32>,
}

impl View for Scores {
    type V = Map<Seq<char>, i32>;

    closed spec fn view(&self) -> Map<Seq<char>, i32> {
        table_of(self.teams@, self.points@)
    }
}

impl Scores {
    /// Every team has one score and is listed once. Every table that this
    /// module hands out is well formed.
    pub closed spec fn wf(&self) -> bool {
        &&& self.teams@.len() == self.points@.len()
        &&& all_distinct(self.teams@)
    }

    /// The team names in listing order.
    pub closed spec fn names(&self) -> Seq<Seq<char>> {
        Seq::new(self.teams@.len(), |i: int| self.teams@[i]@)
    }

    /// A table without teams.
    pub fn new() -> (table: Scores)
        ensures
            table.wf(),
            table@ == Map::<Seq<char>, i32>::empty(),
            table.names() == Seq::<Seq<char>>::empty(),
    {
        Scores { teams: Vec::new(), points: Vec::new() }
    }

    /// Where `team` is listed, if it is.
    fn find(&self, team: &str) -> (found: Option<usize>)
        ensures
            match found {
                Some(i) => i < self.teams@.len() && self.teams@[i as int]@ == team@,
                None => !occurs(self.teams@, team@),
            },
    {
        let mut i: usize = 0;
        while i < self.teams.len()
            invariant
                i <= self.teams@.len(),
                forall|j: int| 0 <= j < i ==> self.teams@[j]@ != team@,
            decreases self.teams@.len() - i,
        {
            if same_text(self.teams[i].as_str(), team) {
                return Some(i);
            }
            i += 1;
        }
        None
    }
}

/// A score inserted under a name that has one replaces it: a lookup then
/// finds the later score, and nothing of the earlier insertion is left.
pub proof fn lemma_insert_replaces(
    table: Map<Seq<char>, i32>,
    team: Seq<char>,
    earlier: i32,
    later: i32,
)
    ensures
        table.insert(team, earlier).insert(team, later)[team] == later,
        table.insert(team, earlier).insert(team, later) == table.insert(team, later),
{
}

/// Listing a new name with its score is inserting it.
proof fn lemma_table_push(names: Seq<String>, points: Seq<i32>, team: String, score: i32)
    requires
        all_distinct(names),
        names.len() == points.len(),
        !occurs(names, team@),
    ensures
        all_distinct(names.push(team)),
        table_of(names.push(team), points.push(score)) == table_of(names, points).insert(
            team@,
            score,
        ),
{
    let longer = names.push(team);
    let before = table_of(names, points);
    let after = table_of(longer, points.push(score));
    assert(all_distinct(longer));
    assert forall|name: Seq<char>| after.contains_key(name) <==> before.insert(
        team@,
        score,
    ).contains_key(name) by {
        if occurs(names, name) {
            let j = position_of(names, name);
            assert(longer[j]@ == name);
        }
        if name == team@ {
            assert(longer[names.len() as int]@ == name);
        }
    }
}

impl Scores {
    /// The listing holds exactly the teams that have a score, each once.
    pub proof fn lemma_names_are_keys(&self)
        requires
            self.wf(),
        ensures
            self.names().no_duplicates(),
            forall|name: Seq<char>| self@.contains_key(name) <==> self.names().contains(name),
    {
        let names = self.names();
        assert forall|name: Seq<char>| self@.contains_key(name) implies names.contains(name) by {
            let i = position_of(self.teams@, name);
            assert(names[i] == name);
        }
    }

    /// The score of `team`, if it is listed.
    pub fn get(&self, team: &str) -> (score: Option<i32>)
        requires
            self.wf(),
        ensures
            score == if self@.contains_key(team@) {
                Some(self@[team@])
            } else {
                None
            },
    {
        match self.find(team) {
            Some(i) => {
                Some(self.points[i])
            },
            None => None,
        }
    }

    /// Sets the score of `team`, listing the team if it is new, and returns
    /// the score that was replaced.
    pub fn insert(&mut self, team: String, score: i32) -> (replaced: Option<i32>)
        requires
            old(self).wf(),
        ensures
            final(self).wf(),
            final(self)@ == old(self)@.insert(team@, score),
            replaced == if old(self)@.contains_key(team@) {
                Some(old(self)@[team@])
            } else {
                None
            },
            final(self).names() == if old(self)@.contains_key(team@) {
                old(self).names()
            } else {
                old(self).names().push(team@)
            },
    {
        match self.find(team.as_str()) {
            Some(i) => {
                let replaced = self.points[i];
                self.points.set(i, score);
                Some(replaced)
            },
            None => {
                proof {
                    lemma_table_push(self.teams@, self.points@, team, score);
                }
                self.teams.push(team);
                self.points.push(score);
                None
            },
        }
    }

    /// Lists `team` with `score` unless it is listed already, and returns the
    /// score that the table then holds for it.
    pub fn or_insert(&mut self, team: String, score: i32) -> (held: i32)
        requires
            old(self).wf(),
        ensures
            final(self).wf(),
            final(self)@ == if old(self)@.contains_key(team@) {
                old(self)@
            } else {
                old(self)@.insert(team@, score)
            },
            held == final(self)@[team@],
            final(self).names() == if old(self)@.contains_key(team@) {
                old(self).names()
            } else {
                old(self).names().push(team@)
            },
    {
        match self.get(team.as_str()) {
            Some(held) => held,
            None => {
                self.insert(team, score);
                score
            },
        }
    }

    /// The number of teams listed.
    pub fn len(&self) -> (count: usize)
        ensures
            count == self.names().len(),
    {
        self.teams.len()
    }

    /// The team at `index` of the listing, with its score.
    pub fn entry_at(&self, index: usize) -> (entry: (&str, i32))
        requires
            self.wf(),
            index < self.names().len(),
        ensures
            entry.0@ == self.names()[index as int],
            self@.contains_key(entry.0@),
            entry.1 == self@[entry.0@],
    {
        (self.teams[index].as_str(), self.points[index])
    }

    /// A table of its own with the same teams and scores, in the same order.
    pub fn snapshot(&self) -> (copy: Scores)
        requires
            self.wf(),
        ensures
            copy.wf(),
            copy@ == self@,
            copy.names() == self.names(),
    {
        let mut teams: Vec<String> = Vec::new();
        let mut points: Vec<i32> = Vec::new();
        let mut i: usize = 0;
        while i < self.teams.len()
            invariant
                i <= self.teams@.len(),
                self.teams@.len() == self.points@.len(),
                teams@ == self.teams@.take(i as int),
                points@ == self.points@.take(i as int),
            decreases self.teams@.len() - i,
        {
            teams.push(self.teams[i].clone());
            points.push(self.points[i]);
            i += 1;
        }
        assert(teams@ =~= self.teams@);
        Scores { teams, points }
    }

    /// The table that results from inserting the pairs of `teams` and
    /// `points` in order, as far as both reach.
    pub fn from_pairs(teams: &Vec<String>, points: &Vec<i32>) -> (table: Scores)
        ensures
            table.wf(),
            table@ == collected(
                teams@,
                points@,
                if teams@.len() <= points@.len() {
                    teams@.len()
                } else {
                    points@.len()
                },
            ),
            table.names() == collected_names(
                teams@,
                points@,
                if teams@.len() <= points@.len() {
                    teams@.len()
                } else {
                    points@.len()
                },
            ),
    {
        let count = if teams.len() <= points.len() {
            teams.len()
        } else {
            points.len()
        };
        let mut table = Scores::new();
        let mut i: usize = 0;
        while i < count
            invariant
                i <= count,
                count <= teams@.len(),
                count <= points@.len(),
                table.wf(),
                table@ == collected(teams@, points@, i as nat),
                table.names() == collected_names(teams@, points@, i as nat),
            decreases count - i,
        {
            table.insert(teams[i].clone(), points[i]);
            i += 1;
        }
        table
    }
}

/// Whether two texts hold the same characters.
pub fn same_text(left: &str, right: &str) -> (same: bool)
    ensures
        same == (left@ == right@),
{
    let n = left.unicode_len();
    if n != right.unicode_len() {
        return false;
    }
    let mut i: usize = 0;
    while i < n
        invariant
            i <= n,
            n == left@.len(),
            n == right@.len(),
            forall|j: int| 0 <= j < i ==> left@[j] == right@[j],
        decreases n - i,
    {
        if left.get_char(i) != right.get_char(i) {
            return false;
        }
        i += 1;
    }
    assert(left@ =~= right@);
    true
}

} // verus!
