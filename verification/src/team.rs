//! Teams: the records that the tables hold, and the records made on the
//! spot for a team that no table knows.

use std::collections::HashMap;
use vstd::prelude::*;
use crate::color::{get_rgb_from_hex, get_secondary_for_primary, hex_color, secondary_for, Color};
use crate::error::{Error, ErrorView};
use crate::json::{
    as_object, as_str, as_u64, as_u64_str, get_object_from_value, get_str, get_u64, get_u64_str,
    Json,
};
use crate::sport::{Level, Sport, SportType};
use crate::text::{
    chars_of, copy_chars, join_chars, join_text, same_text, split_chars, split_text, string_of,
    texts,
};

verus! {

/// A team as the providers and the tables describe it.
#[derive(Debug, PartialEq, Eq)]
pub struct Team {
    pub id: u64,
    pub location: String,
    pub name: String,
    pub display_name: String,
    pub abbreviation: String,
    pub primary_color: Color,
    pub secondary_color: Color,
}

/// A team with its texts as sequences of characters.
pub ghost struct TeamView {
    pub id: u64,
    pub location: Seq<char>,
    pub name: Seq<char>,
    pub display_name: Seq<char>,
    pub abbreviation: Seq<char>,
    pub primary_color: Color,
    pub secondary_color: Color,
}

impl View for Team {
    type V = TeamView;

    open spec fn view(&self) -> TeamView {
        TeamView {
            id: self.id,
            location: self.location@,
            name: self.name@,
            display_name: self.display_name@,
            abbreviation: self.abbreviation@,
            primary_color: self.primary_color,
            secondary_color: self.secondary_color,
        }
    }
}

impl Clone for Team {
    fn clone(&self) -> (copy: Self)
        ensures
            copy@ == self@,
    {
        Team {
            id: self.id,
            location: self.location.clone(),
            name: self.name.clone(),
            display_name: self.display_name.clone(),
            abbreviation: self.abbreviation.clone(),
            primary_color: self.primary_color,
            secondary_color: self.secondary_color,
        }
    }
}

impl Team {
    /// The team with the given fields.
    pub fn new(
        id: u64,
        location: &str,
        name: &str,
        display_name: &str,
        abbreviation: &str,
        primary_color: Color,
        secondary_color: Color,
    ) -> (team: Team)
        ensures
            team@ == (TeamView {
                id,
                location: location@,
                name: name@,
                display_name: display_name@,
                abbreviation: abbreviation@,
                primary_color,
                secondary_color,
            }),
    {
        Team {
            id,
            location: location.to_owned(),
            name: name.to_owned(),
            display_name: display_name.to_owned(),
            abbreviation: abbreviation.to_owned(),
            primary_color,
            secondary_color,
        }
    }
}

/// Whether every team of a table is filed under its own id.
pub open spec fn filed_by_id(table: Map<u64, Team>) -> bool {
    forall|id: u64| table.contains_key(id) ==> (#[trigger] table[id]).id == id
}

/// The table that files each team under its id; of two teams with one id
/// the later one stays.
pub open spec fn table_of(teams: Seq<Team>) -> Map<u64, Team>
    decreases teams.len(),
{
    if teams.len() == 0 {
        Map::<u64, Team>::empty()
    } else {
        table_of(teams.drop_last()).insert(teams.last().id, teams.last())
    }
}

/// A table made from a list of teams files every team under its own id.
pub proof fn lemma_table_filed(teams: Seq<Team>)
    ensures
        filed_by_id(table_of(teams)),
    decreases teams.len(),
{
    if teams.len() > 0 {
        lemma_table_filed(teams.drop_last());
    }
}

/// Files each team under its id.
pub fn get_teams(teams: Vec<Team>) -> (table: HashMap<u64, Team>)
    ensures
        table@ == table_of(teams@),
        filed_by_id(table@),
{
    let mut rest = teams;
    let mut table: HashMap<u64, Team> = HashMap::new();
    let ghost all = teams@;
    let ghost mut done: int = 0;
    assert(all.take(0) =~= Seq::<Team>::empty());
    assert(rest@ =~= all.skip(0));
    while rest.len() > 0
        invariant
            0 <= done <= all.len(),
            rest.len() == all.len() - done,
            rest@ == all.skip(done),
            table@ == table_of(all.take(done)),
        decreases rest.len(),
    {
        proof {
            let next = all.take(done + 1);
            assert(next.drop_last() =~= all.take(done));
            assert(next.last() == all[done]);
            assert(rest@[0] == all.skip(done)[0]);
            assert(rest@.remove(0) =~= all.skip(done + 1));
        }
        let team = rest.remove(0);
        let id: u64 = team.id;
        table.insert(id, team);
        proof {
            done = done + 1;
        }
    }
    proof {
        assert(all.take(all.len() as int) =~= all);
        lemma_table_filed(all);
    }
    table
}

/// Whether a sport has a table of teams: every sport but professional golf.
pub open spec fn has_team_map(sport: Sport) -> bool {
    !(sport.sport_type == SportType::Golf && sport.level == Level::Professional)
}

/// Whether a sport has a table of teams.
pub fn has_team_table(sport: &Sport) -> (r: bool)
    ensures
        r == has_team_map(*sport),
{
    match (sport.sport_type, sport.level) {
        (SportType::Golf, Level::Professional) => false,
        _ => true,
    }
}

/// Whether two sports look their teams up in one table. Hockey and baseball
/// have one table each at either level; every other collegiate sport uses
/// the colleges' table; professional football and basketball have their own.
pub open spec fn share_table(a: Sport, b: Sport) -> bool {
    table_rank(a) == table_rank(b)
}

/// The rank of the table in which a sport's teams are looked up.
pub open spec fn table_rank(sport: Sport) -> int {
    match (sport.sport_type, sport.level) {
        (SportType::Hockey, _) => 0,
        (SportType::Baseball, _) => 1,
        (_, Level::Collegiate) => 2,
        (SportType::Football, Level::Professional) => 3,
        _ => 4,
    }
}

/// The tables of known teams, one for each league and one for all colleges.
/// In each table every team is filed under its own id.
pub struct TeamTables {
    hockey: HashMap<u64, Team>,
    baseball: HashMap<u64, Team>,
    football: HashMap<u64, Team>,
    basketball: HashMap<u64, Team>,
    collegiate: HashMap<u64, Team>,
}

/// The table in which a sport's teams are looked up.
pub closed spec fn team_map_of(tables: TeamTables, sport: Sport) -> HashMap<u64, Team> {
    match (sport.sport_type, sport.level) {
        (SportType::Hockey, _) => tables.hockey,
        (SportType::Baseball, _) => tables.baseball,
        (_, Level::Collegiate) => tables.collegiate,
        (SportType::Football, Level::Professional) => tables.football,
        _ => tables.basketball,
    }
}

impl TeamTables {
    #[verifier::type_invariant]
    spec fn filed(self) -> bool {
        &&& filed_by_id(self.hockey@)
        &&& filed_by_id(self.baseball@)
        &&& filed_by_id(self.football@)
        &&& filed_by_id(self.basketball@)
        &&& filed_by_id(self.collegiate@)
    }

    /// Tables that hold no team.
    pub fn new() -> (tables: TeamTables)
        ensures
            forall|sport: Sport| (#[trigger] team_map_of(tables, sport))@ == Map::<u64, Team>::empty(),
    {
        TeamTables {
            hockey: HashMap::new(),
            baseball: HashMap::new(),
            football: HashMap::new(),
            basketball: HashMap::new(),
            collegiate: HashMap::new(),
        }
    }

    /// These tables with the table of `sport` made anew from `teams`, each
    /// filed under its id. The tables of the sports that do not share it stay
    /// as they are.
    pub fn with_teams(self, sport: &Sport, teams: Vec<Team>) -> (tables: TeamTables)
        requires
            has_team_map(*sport),
        ensures
            team_map_of(tables, *sport)@ == table_of(teams@),
            forall|other: Sport|
                !share_table(other, *sport) ==> #[trigger] team_map_of(tables, other)
                    == team_map_of(self, other),
    {
        proof {
            use_type_invariant(&self);
        }
        let table = get_teams(teams);
        let TeamTables { hockey, baseball, football, basketball, collegiate } = self;
        match (sport.sport_type, sport.level) {
            (SportType::Hockey, _) => TeamTables {
                hockey: table,
                baseball,
                football,
                basketball,
                collegiate,
            },
            (SportType::Baseball, _) => TeamTables {
                hockey,
                baseball: table,
                football,
                basketball,
                collegiate,
            },
            (_, Level::Collegiate) => TeamTables {
                hockey,
                baseball,
                football,
                basketball,
                collegiate: table,
            },
            (SportType::Football, Level::Professional) => TeamTables {
                hockey,
                baseball,
                football: table,
                basketball,
                collegiate,
            },
            _ => TeamTables { hockey, baseball, football, basketball: table, collegiate },
        }
    }
}

/// Sports that share a table look their teams up in the same one.
pub proof fn lemma_shared_table(tables: TeamTables, a: Sport, b: Sport)
    requires
        share_table(a, b),
    ensures
        team_map_of(tables, a) == team_map_of(tables, b),
{
}

/// The table in which a sport's teams are looked up. It is the same at
/// every call: nothing that the library does changes a table.
pub fn get_team_map<'a>(tables: &'a TeamTables, sport: &Sport) -> (map: &'a HashMap<u64, Team>)
    requires
        has_team_map(*sport),
    ensures
        *map == team_map_of(*tables, *sport),
        filed_by_id(map@),
{
    proof {
        use_type_invariant(tables);
    }
    match (sport.sport_type, sport.level) {
        (SportType::Hockey, _) => &tables.hockey,
        (SportType::Baseball, _) => &tables.baseball,
        (_, Level::Collegiate) => &tables.collegiate,
        (SportType::Football, Level::Professional) => &tables.football,
        _ => &tables.basketball,
    }
}

/// The short form of a name's first word: a cardinal direction or `Central`
/// becomes its initial.
pub open spec fn short_first(word: Seq<char>) -> Seq<char> {
    if word == "North"@ {
        "N"@
    } else if word == "South"@ {
        "S"@
    } else if word == "West"@ {
        "W"@
    } else if word == "East"@ {
        "E"@
    } else if word == "Central"@ {
        "C"@
    } else {
        word
    }
}

/// The short form of a name's last word: `State` becomes `St`.
pub open spec fn short_last(word: Seq<char>) -> Seq<char> {
    if word == "State"@ {
        "St"@
    } else {
        word
    }
}

/// The words of a name with the last one shortened, then the first.
pub open spec fn short_words(words: Seq<Seq<char>>) -> Seq<Seq<char>>
    recommends
        words.len() >= 1,
{
    let ended = words.update(words.len() - 1, short_last(words.last()));
    ended.update(0, short_first(ended[0]))
}

/// The name under which a team is shown: the name itself where it has at
/// most eleven characters, else its words, split at single spaces, with the
/// last and the first shortened.
pub open spec fn display_name_text(raw: Seq<char>) -> Seq<char> {
    if raw.len() > 11 {
        join_text(short_words(split_text(raw, ' ')), " "@)
    } else {
        raw
    }
}

fn shorten_first(word: Vec<char>) -> (r: Vec<char>)
    ensures
        r@ == short_first(word@),
{
    let text = string_of(&word);
    if same_text(text.as_str(), "North") {
        chars_of("N")
    } else if same_text(text.as_str(), "South") {
        chars_of("S")
    } else if same_text(text.as_str(), "West") {
        chars_of("W")
    } else if same_text(text.as_str(), "East") {
        chars_of("E")
    } else if same_text(text.as_str(), "Central") {
        chars_of("C")
    } else {
        word
    }
}

fn shorten_last(word: Vec<char>) -> (r: Vec<char>)
    ensures
        r@ == short_last(word@),
{
    let text = string_of(&word);
    if same_text(text.as_str(), "State") {
        chars_of("St")
    } else {
        word
    }
}

/// The name under which a team is shown.
pub fn get_display_name(raw: &str) -> (r: String)
    ensures
        r@ == display_name_text(raw@),
{
    let cs = chars_of(raw);
    if cs.len() > 11 {
        let words = split_chars(&cs, ' ');
        let count: usize = words.len();
        let mut short: Vec<Vec<char>> = Vec::new();
        let mut i: usize = 0;
        while i < count
            invariant
                i <= count,
                count == words.len(),
                count >= 1,
                short.len() == i,
                forall|j: int| 0 <= j < i ==> short@[j]@ == short_words(texts(words@))[j],
            decreases count - i,
        {
            let mut word = copy_chars(&words[i]);
            if i == count - 1 {
                word = shorten_last(word);
            }
            if i == 0 {
                word = shorten_first(word);
            }
            short.push(word);
            i += 1;
        }
        assert(texts(short@) =~= short_words(texts(words@)));
        string_of(&join_chars(&short, &chars_of(" ")))
    } else {
        raw.to_owned()
    }
}

/// The id of a competitor's team: a number, or a string that writes one.
pub open spec fn team_id_of(team: crate::json::JsonMap) -> Result<u64, ErrorView> {
    match as_u64(team.field("id"@), "id"@) {
        Ok(id) => Ok(id),
        Err(_) => as_u64_str(team.field("id"@), "id"@),
    }
}

/// The team that a competitor's own record describes. Its secondary colour
/// is the one that goes with its colour when that colour itself is the
/// candidate.
pub open spec fn created_team(competitor: Json) -> Result<TeamView, ErrorView> {
    match as_object(competitor.member("team"@), "team"@) {
        Err(e) => Err(e),
        Ok(team) => match team_id_of(team) {
            Err(e) => Err(e),
            Ok(id) => match as_str(team.field("location"@), "location"@) {
                Err(e) => Err(e),
                Ok(location) => match as_str(team.field("name"@), "name"@) {
                    Err(e) => Err(e),
                    Ok(name) => match as_str(team.field("abbreviation"@), "abbreviation"@) {
                        Err(e) => Err(e),
                        Ok(abbreviation) => match as_str(team.field("color"@), "color"@) {
                            Err(e) => Err(e),
                            Ok(color) => match hex_color(color) {
                                None => Err(ErrorView::IntegerParseError(color)),
                                Some(primary) => Ok(
                                    TeamView {
                                        id,
                                        location,
                                        name,
                                        display_name: display_name_text(name),
                                        abbreviation,
                                        primary_color: primary,
                                        secondary_color: secondary_for(primary, primary),
                                    },
                                ),
                            },
                        },
                    },
                },
            },
        },
    }
}

/// `r` is the team, or the failure, that `expected` gives.
pub open spec fn yields_team(r: Result<Team, Error>, expected: Result<TeamView, ErrorView>) -> bool {
    match expected {
        Ok(team) => r matches Ok(got) && got@ == team,
        Err(e) => r matches Err(got) && got@ == e,
    }
}

/// Makes the record of a team that no table knows from the competitor's own
/// record. A missing field, or a colour that is no six hexadecimal digits,
/// is reported and nothing is guessed.
pub fn create_team(competitor: &Json) -> (r: Result<Team, Error>)
    ensures
        yields_team(r, created_team(*competitor)),
{
    let team = get_object_from_value(competitor, "team")?;
    let id: u64 = match get_u64(team, "id") {
        Ok(id) => id,
        Err(_) => get_u64_str(team, "id")?,
    };
    let location = get_str(team, "location")?;
    let name = get_str(team, "name")?;
    let abbreviation = get_str(team, "abbreviation")?;
    let display_name = get_display_name(name);
    let color = get_str(team, "color")?;
    let secondary_color = get_secondary_for_primary(color, color)?;
    let primary_color = get_rgb_from_hex(color)?;
    Ok(
        Team {
            id,
            location: location.to_owned(),
            name: name.to_owned(),
            display_name,
            abbreviation: abbreviation.to_owned(),
            primary_color,
            secondary_color,
        },
    )
}

/// The team with the given id: the table's record where it has one, else
/// the record made from the competitor's own.
pub open spec fn resolved_team(table: Map<u64, Team>, id: u64, competitor: Json) -> Result<
    TeamView,
    ErrorView,
> {
    if table.contains_key(id) {
        Ok(table[id]@)
    } else {
        created_team(competitor)
    }
}

/// Looks a team up in the sport's table and, where the table does not know
/// it, makes its record from the competitor's own. A record made this way is
/// not added to the table.
pub fn lookup_or_create(
    tables: &TeamTables,
    sport: &Sport,
    team_id: u64,
    competitor: &Json,
) -> (r: Result<Team, Error>)
    requires
        has_team_map(*sport),
    ensures
        yields_team(r, resolved_team(team_map_of(*tables, *sport)@, team_id, *competitor)),
{
    let table = get_team_map(tables, sport);
    match table.get(&team_id) {
        Some(team) => Ok(team.clone()),
        None => create_team(competitor),
    }
}

/// A team made on the spot is shown under its name where that has at most
/// eleven characters, and under the shortened name otherwise.
pub proof fn lemma_created_display_name(competitor: Json)
    ensures
        created_team(competitor) matches Ok(team) ==> {
            &&& team.display_name == display_name_text(team.name)
            &&& team.name.len() <= 11 ==> team.display_name == team.name
            &&& team.name.len() > 11 ==> team.display_name == join_text(
                short_words(split_text(team.name, ' ')),
                " "@,
            )
        },
{
}

} // verus!
