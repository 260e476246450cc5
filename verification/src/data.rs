//! Static game data: species, moves, type chart and the indices that map
//! species and move numbers back to their keys.
//!
//! Each table is an association list kept in the order in which the loader
//! handed its entries over; a lookup returns the first entry that matches.
use vstd::prelude::*;

verus! {

#[verifier::external_type_specification]
#[verifier::external_body]
pub struct ExJsonValue(serde_json::Value);

/// `serde_json::Value`'s `Clone` (derived in serde_json): it returns a copy
/// of the JSON value. Nothing is stated of the copy, as `Value` has no model
/// here; the move table only carries the value through.
pub assume_specification[ <serde_json::Value as Clone>::clone ](v: &serde_json::Value) -> (r:
    serde_json::Value);

/// Base stats of a species.
#[derive(Debug, Clone, Copy, PartialEq, Eq)]
pub struct BaseStats {
    pub hp: u16,
    pub atk: u16,
    pub def: u16,
    pub spa: u16,
    pub spd: u16,
    pub spe: u16,
}

/// One pokedex entry.
#[derive(Debug, Clone)]
pub struct PokemonData {
    pub num: u16,
    pub name: String,
    pub types: Vec<String>,
    pub base_stats: BaseStats,
}

/// One move entry.
#[derive(Debug, Clone)]
pub struct MoveData {
    pub num: u16,
    pub name: String,
    pub base_power: u16,
    /// Either a number or `true` (never misses); carried as read.
    pub accuracy: serde_json::Value,
    /// "Physical", "Special" or "Status".
    pub category: String,
    /// The move's type.
    pub move_type: String,
    pub priority: i8,
}

/// How much damage a defending type takes from an attacking type.
#[derive(Debug, Clone, Copy, PartialEq, Eq, Structural)]
pub enum Effectiveness {
    /// Damage times one.
    Neutral,
    /// Damage times two.
    SuperEffective,
    /// Damage times one half.
    NotVeryEffective,
    /// No damage.
    Immune,
}

impl Effectiveness {
    /// The multiplier that a `damageTaken` code of the type chart stands for:
    /// 1 doubles, 2 halves, 3 makes immune, any other code is neutral.
    pub open spec fn spec_from_code(code: u64) -> Effectiveness {
        if code == 1 {
            Effectiveness::SuperEffective
        } else if code == 2 {
            Effectiveness::NotVeryEffective
        } else if code == 3 {
            Effectiveness::Immune
        } else {
            Effectiveness::Neutral
        }
    }

    pub fn from_code(code: u64) -> (r: Effectiveness)
        ensures
            r == Self::spec_from_code(code),
    {
        if code == 1 {
            Effectiveness::SuperEffective
        } else if code == 2 {
            Effectiveness::NotVeryEffective
        } else if code == 3 {
            Effectiveness::Immune
        } else {
            Effectiveness::Neutral
        }
    }
}

/// `i` is the first position of `s` whose number is `id`.
pub open spec fn is_first_id(s: Seq<(String, u16)>, id: u16, i: int) -> bool {
    &&& 0 <= i < s.len()
    &&& s[i].1 == id
    &&& forall|j: int| 0 <= j < i ==> s[j].1 != id
}

/// The first position of `s` whose number is `id`, if any.
pub open spec fn first_id_index(s: Seq<(String, u16)>, id: u16) -> Option<int> {
    if exists|i: int| is_first_id(s, id, i) {
        Some(choose|i: int| is_first_id(s, id, i))
    } else {
        None
    }
}

/// `i` is the first position of `s` whose key is `key`.
pub open spec fn is_first_key<V>(s: Seq<(String, V)>, key: Seq<char>, i: int) -> bool {
    &&& 0 <= i < s.len()
    &&& s[i].0@ == key
    &&& forall|j: int| 0 <= j < i ==> s[j].0@ != key
}

/// The first position of `s` whose key is `key`, if any.
pub open spec fn first_key_index<V>(s: Seq<(String, V)>, key: Seq<char>) -> Option<int> {
    if exists|i: int| is_first_key(s, key, i) {
        Some(choose|i: int| is_first_key(s, key, i))
    } else {
        None
    }
}

proof fn lemma_first_id(s: Seq<(String, u16)>, id: u16, i: int)
    requires
        is_first_id(s, id, i),
    ensures
        first_id_index(s, id) == Some(i),
{
    let k = choose|k: int| is_first_id(s, id, k);
    assert(is_first_id(s, id, k));
    if k < i {
        assert(s[k].1 != id);
    } else if i < k {
        assert(s[i].1 != id);
    }
}

proof fn lemma_first_key<V>(s: Seq<(String, V)>, key: Seq<char>, i: int)
    requires
        is_first_key(s, key, i),
    ensures
        first_key_index(s, key) == Some(i),
{
    let k = choose|k: int| is_first_key(s, key, k);
    assert(is_first_key(s, key, k));
    if k < i {
        assert(s[k].0@ != key);
    } else if i < k {
        assert(s[i].0@ != key);
    }
}

/// Position of the first entry of `s` whose number is `id`.
pub fn position_of_id(s: &Vec<(String, u16)>, id: u16) -> (r: Option<usize>)
    ensures
        match r {
            Some(i) => first_id_index(s@, id) == Some(i as int),
            None => first_id_index(s@, id) is None,
        },
{
    let mut i: usize = 0;
    while i < s.len()
        invariant
            0 <= i <= s.len(),
            forall|j: int| 0 <= j < i ==> s@[j].1 != id,
        decreases s.len() - i,
    {
        if s[i].1 == id {
            proof {
                lemma_first_id(s@, id, i as int);
            }
            return Some(i);
        }
        i += 1;
    }
    assert(!exists|k: int| is_first_id(s@, id, k));
    None
}

/// Position of the first entry of `s` whose key is `key`.
pub fn position_of_key<V>(s: &Vec<(String, V)>, key: &String) -> (r: Option<usize>)
    ensures
        match r {
            Some(i) => first_key_index(s@, key@) == Some(i as int),
            None => first_key_index(s@, key@) is None,
        },
{
    let mut i: usize = 0;
    while i < s.len()
        invariant
            0 <= i <= s.len(),
            forall|j: int| 0 <= j < i ==> s@[j].0@ != key@,
        decreases s.len() - i,
    {
        if s[i].0 == *key {
            proof {
                lemma_first_key(s@, key@, i as int);
            }
            return Some(i);
        }
        i += 1;
    }
    assert(!exists|k: int| is_first_key(s@, key@, k));
    None
}

/// The numbers of a list of entries, keyed as the entries are: the index
/// from number back to key.
pub open spec fn is_num_index<V>(index: Seq<(String, u16)>, entries: Seq<(String, V)>, num: spec_fn(V) -> u16) -> bool {
    &&& index.len() == entries.len()
    &&& forall|i: int| 0 <= i < index.len() ==> #[trigger] index[i].0@ == entries[i].0@ && index[i].1 == num(entries[i].1)
}

/// No key occurs twice.
pub open spec fn keys_distinct<V>(s: Seq<(String, V)>) -> bool {
    forall|i: int, j: int| 0 <= i < s.len() && 0 <= j < s.len() && i != j ==> s[i].0@ != s[j].0@
}

/// One row of the type chart as it was read: attacking type and its code,
/// `None` where the code was not an unsigned integer.
pub type RawChartRow = Vec<(String, Option<u64>)>;

/// What a row of the type chart holds after reading: the entries that had a
/// code, in order, each with the multiplier the code stands for.
pub open spec fn spec_chart_row(raw: Seq<(String, Option<u64>)>) -> Seq<(Seq<char>, Effectiveness)>
    decreases raw.len(),
{
    if raw.len() == 0 {
        Seq::empty()
    } else {
        let prev = spec_chart_row(raw.drop_last());
        match raw.last().1 {
            Some(code) => prev.push((raw.last().0@, Effectiveness::spec_from_code(code))),
            None => prev,
        }
    }
}

/// A chart row with its keys taken by their text.
pub open spec fn row_view(row: Seq<(String, Effectiveness)>) -> Seq<(Seq<char>, Effectiveness)> {
    row.map_values(|e: (String, Effectiveness)| (e.0@, e.1))
}

/// What the type chart holds after reading: the defending types that had a
/// `damageTaken` table, in order, each with its row.
pub open spec fn spec_chart(raw: Seq<(String, Option<RawChartRow>)>) -> Seq<(Seq<char>, Seq<(Seq<char>, Effectiveness)>)>
    decreases raw.len(),
{
    if raw.len() == 0 {
        Seq::empty()
    } else {
        let prev = spec_chart(raw.drop_last());
        match raw.last().1 {
            Some(row) => prev.push((raw.last().0@, spec_chart_row(row@))),
            None => prev,
        }
    }
}

/// The type chart with its keys taken by their text.
pub open spec fn chart_view(chart: Seq<(String, Vec<(String, Effectiveness)>)>) -> Seq<(Seq<char>, Seq<(Seq<char>, Effectiveness)>)> {
    chart.map_values(|e: (String, Vec<(String, Effectiveness)>)| (e.0@, row_view(e.1@)))
}

/// Reads one row of the type chart: keeps the entries that have a code and
/// turns each code into its multiplier.
pub fn build_chart_row(raw: &RawChartRow) -> (r: Vec<(String, Effectiveness)>)
    ensures
        row_view(r@) == spec_chart_row(raw@),
{
    let mut out: Vec<(String, Effectiveness)> = Vec::new();
    let mut i: usize = 0;
    while i < raw.len()
        invariant
            0 <= i <= raw.len(),
            row_view(out@) == spec_chart_row(raw@.take(i as int)),
        decreases raw.len() - i,
    {
        let ghost before = out@;
        assert(raw@.take(i + 1).drop_last() == raw@.take(i as int));
        match raw[i].1 {
            Some(code) => {
                out.push((raw[i].0.clone(), Effectiveness::from_code(code)));
                assert(row_view(out@) == row_view(before).push((raw@[i as int].0@, Effectiveness::spec_from_code(code))));
            },
            None => {},
        }
        i += 1;
    }
    assert(raw@.take(raw@.len() as int) == raw@);
    out
}

/// Reads the type chart: keeps the defending types that have a
/// `damageTaken` table and reads each such row.
pub fn build_typechart(raw: &Vec<(String, Option<RawChartRow>)>) -> (r: Vec<(String, Vec<(String, Effectiveness)>)>)
    ensures
        chart_view(r@) == spec_chart(raw@),
        keys_distinct(raw@) && (forall|k: int| 0 <= k < raw@.len() && raw@[k].1 is Some ==> keys_distinct(#[trigger] raw@[k].1->0@))
            ==> chart_map(chart_view(r@)) == chart_of_codes(codes_map(raw@)),
{
    let mut out: Vec<(String, Vec<(String, Effectiveness)>)> = Vec::new();
    let mut i: usize = 0;
    while i < raw.len()
        invariant
            0 <= i <= raw.len(),
            chart_view(out@) == spec_chart(raw@.take(i as int)),
        decreases raw.len() - i,
    {
        let ghost before = out@;
        assert(raw@.take(i + 1).drop_last() == raw@.take(i as int));
        match &raw[i].1 {
            Some(row) => {
                let built = build_chart_row(row);
                out.push((raw[i].0.clone(), built));
                assert(chart_view(out@) == chart_view(before).push((raw@[i as int].0@, spec_chart_row(row@))));
            },
            None => {},
        }
        i += 1;
    }
    assert(raw@.take(raw@.len() as int) == raw@);
    proof {
        if keys_distinct(raw@) && (forall|k: int| 0 <= k < raw@.len() && raw@[k].1 is Some ==> keys_distinct(#[trigger] raw@[k].1->0@)) {
            lemma_chart_map(raw@);
        }
    }
    out
}

/// The numbers of the pokedex entries, keyed as the entries are.
pub fn index_species(pokedex: &Vec<(String, PokemonData)>) -> (r: Vec<(String, u16)>)
    ensures
        is_num_index(r@, pokedex@, |d: PokemonData| d.num),
{
    let mut out: Vec<(String, u16)> = Vec::new();
    let mut i: usize = 0;
    while i < pokedex.len()
        invariant
            0 <= i <= pokedex.len(),
            out@.len() == i,
            forall|k: int| 0 <= k < i ==> #[trigger] out@[k].0@ == pokedex@[k].0@ && out@[k].1 == pokedex@[k].1.num,
        decreases pokedex.len() - i,
    {
        out.push((pokedex[i].0.clone(), pokedex[i].1.num));
        i += 1;
    }
    out
}

/// The numbers of the move entries, keyed as the entries are.
pub fn index_moves(moves: &Vec<(String, MoveData)>) -> (r: Vec<(String, u16)>)
    ensures
        is_num_index(r@, moves@, |d: MoveData| d.num),
{
    let mut out: Vec<(String, u16)> = Vec::new();
    let mut i: usize = 0;
    while i < moves.len()
        invariant
            0 <= i <= moves.len(),
            out@.len() == i,
            forall|k: int| 0 <= k < i ==> #[trigger] out@[k].0@ == moves@[k].0@ && out@[k].1 == moves@[k].1.num,
        decreases moves.len() - i,
    {
        out.push((moves[i].0.clone(), moves[i].1.num));
        i += 1;
    }
    out
}

/// All static data the simulator reads.
pub struct GameData {
    /// Species by key.
    pub pokedex: Vec<(String, PokemonData)>,
    /// Moves by key.
    pub moves: Vec<(String, MoveData)>,
    /// Keys of the species that have usage statistics.
    pub usage: Vec<String>,
    /// For each defending type, the multiplier of each attacking type.
    pub typechart: Vec<(String, Vec<(String, Effectiveness)>)>,
    /// Species key to species number.
    pub species_to_id: Vec<(String, u16)>,
    /// Move key to move number.
    pub move_to_id: Vec<(String, u16)>,
}

impl GameData {
    /// Assembles the game data from its read tables and builds the two
    /// number indices from the pokedex and the move table.
    pub fn new(
        pokedex: Vec<(String, PokemonData)>,
        moves: Vec<(String, MoveData)>,
        usage: Vec<String>,
        typechart: Vec<(String, Vec<(String, Effectiveness)>)>,
    ) -> (r: GameData)
        requires
            keys_distinct(pokedex@),
            keys_distinct(moves@),
            chart_keys_distinct(typechart@),
        ensures
            r.wf(),
            r.pokedex@ == pokedex@,
            r.moves@ == moves@,
            r.usage@ == usage@,
            r.typechart@ == typechart@,
            is_num_index(r.species_to_id@, pokedex@, |d: PokemonData| d.num),
            is_num_index(r.move_to_id@, moves@, |d: MoveData| d.num),
    {
        let species_to_id = index_species(&pokedex);
        let move_to_id = index_moves(&moves);
        proof {
            lemma_index_keys_distinct(species_to_id@, pokedex@, |d: PokemonData| d.num);
            lemma_index_keys_distinct(move_to_id@, moves@, |d: MoveData| d.num);
        }
        GameData { pokedex, moves, usage, typechart, species_to_id, move_to_id }
    }

    /// The tables are maps: no key occurs twice in any of them.
    pub open spec fn wf(self) -> bool {
        &&& keys_distinct(self.pokedex@)
        &&& keys_distinct(self.moves@)
        &&& chart_keys_distinct(self.typechart@)
        &&& keys_distinct(self.species_to_id@)
        &&& keys_distinct(self.move_to_id@)
    }

    /// Position in `species_to_id` of the first species numbered `id`.
    pub open spec fn spec_species_key_index(self, id: u16) -> Option<int> {
        first_id_index(self.species_to_id@, id)
    }

    /// Position in `pokedex` of the entry of the first species numbered `id`.
    pub open spec fn spec_species_index(self, id: u16) -> Option<int> {
        match first_id_index(self.species_to_id@, id) {
            Some(k) => first_key_index(self.pokedex@, self.species_to_id@[k].0@),
            None => None,
        }
    }

    /// Position in `moves` of the entry of the first move numbered `id`.
    pub open spec fn spec_move_index(self, id: u16) -> Option<int> {
        match first_id_index(self.move_to_id@, id) {
            Some(k) => first_key_index(self.moves@, self.move_to_id@[k].0@),
            None => None,
        }
    }

    /// The number of the move with key `name`.
    pub open spec fn spec_move_id(self, name: Seq<char>) -> Option<u16> {
        match first_key_index(self.move_to_id@, name) {
            Some(k) => Some(self.move_to_id@[k].1),
            None => None,
        }
    }

    /// Whether the species with key `key` has usage statistics.
    pub open spec fn spec_has_usage(self, key: Seq<char>) -> bool {
        exists|i: int| 0 <= i < self.usage@.len() && #[trigger] self.usage@[i]@ == key
    }

    /// How much a defender of type `def_type` takes from an attack of type
    /// `atk_type`, when the chart says.
    pub open spec fn spec_effectiveness(self, def_type: Seq<char>, atk_type: Seq<char>) -> Option<Effectiveness> {
        match first_key_index(self.typechart@, def_type) {
            Some(i) => match first_key_index(self.typechart@[i].1@, atk_type) {
                Some(j) => Some(self.typechart@[i].1@[j].1),
                None => None,
            },
            None => None,
        }
    }

    /// Position in `species_to_id` of the first species numbered `id`.
    pub fn species_key_index(&self, id: u16) -> (r: Option<usize>)
        ensures
            match r {
                Some(k) => self.spec_species_key_index(id) == Some(k as int),
                None => self.spec_species_key_index(id) is None,
            },
    {
        position_of_id(&self.species_to_id, id)
    }

    /// Position in `pokedex` of the entry of the first species numbered `id`.
    pub fn species_index(&self, id: u16) -> (r: Option<usize>)
        ensures
            match r {
                Some(k) => self.spec_species_index(id) == Some(k as int),
                None => self.spec_species_index(id) is None,
            },
    {
        match position_of_id(&self.species_to_id, id) {
            Some(k) => position_of_key(&self.pokedex, &self.species_to_id[k].0),
            None => None,
        }
    }

    /// Position in `moves` of the entry of the first move numbered `id`.
    pub fn move_index(&self, id: u16) -> (r: Option<usize>)
        ensures
            match r {
                Some(k) => self.spec_move_index(id) == Some(k as int),
                None => self.spec_move_index(id) is None,
            },
    {
        match position_of_id(&self.move_to_id, id) {
            Some(k) => position_of_key(&self.moves, &self.move_to_id[k].0),
            None => None,
        }
    }

    /// The number of the move with key `name`.
    pub fn move_id(&self, name: &String) -> (r: Option<u16>)
        ensures
            r == self.spec_move_id(name@),
    {
        match position_of_key(&self.move_to_id, name) {
            Some(k) => Some(self.move_to_id[k].1),
            None => None,
        }
    }

    /// Whether the species with key `key` has usage statistics.
    pub fn has_usage(&self, key: &String) -> (r: bool)
        ensures
            r == self.spec_has_usage(key@),
    {
        let mut i: usize = 0;
        while i < self.usage.len()
            invariant
                0 <= i <= self.usage@.len(),
                forall|j: int| 0 <= j < i ==> self.usage@[j]@ != key@,
            decreases self.usage.len() - i,
        {
            if self.usage[i] == *key {
                return true;
            }
            i += 1;
        }
        false
    }

    /// How much a defender of type `def_type` takes from an attack of type
    /// `atk_type`, when the chart says.
    pub fn effectiveness(&self, def_type: &String, atk_type: &String) -> (r: Option<Effectiveness>)
        ensures
            r == self.spec_effectiveness(def_type@, atk_type@),
    {
        match position_of_key(&self.typechart, def_type) {
            Some(i) => match position_of_key(&self.typechart[i].1, atk_type) {
                Some(j) => Some(self.typechart[i].1[j].1),
                None => None,
            },
            None => None,
        }
    }
}

/// Looking a species up by number through an index built from the pokedex
/// finds a species of that number, and finds one whenever the pokedex holds
/// one; the same holds of moves.
pub proof fn lemma_index_finds_number<V>(index: Seq<(String, u16)>, entries: Seq<(String, V)>, num: spec_fn(V) -> u16, id: u16)
    requires
        is_num_index(index, entries, num),
        keys_distinct(entries),
    ensures
        match first_id_index(index, id) {
            Some(k) => first_key_index(entries, index[k].0@) == Some(k) && num(entries[k].1) == id,
            None => forall|i: int| 0 <= i < entries.len() ==> num(entries[i].1) != id,
        },
{
    match first_id_index(index, id) {
        Some(k) => {
            let c = choose|i: int| is_first_id(index, id, i);
            assert(is_first_id(index, id, c));
            assert(index[k].0@ == entries[k].0@);
            assert(is_first_key(entries, index[k].0@, k));
            lemma_first_key(entries, index[k].0@, k);
        },
        None => {
            assert forall|i: int| 0 <= i < entries.len() implies num(entries[i].1) != id by {
                if num(entries[i].1) == id {
                    assert(index[i].0@ == entries[i].0@);
                    assert(index[i].1 == id);
                    lemma_some_first_id(index, id, i);
                }
            }
        },
    }
}

proof fn lemma_some_first_id(s: Seq<(String, u16)>, id: u16, i: int)
    requires
        0 <= i < s.len(),
        s[i].1 == id,
    ensures
        first_id_index(s, id) is Some,
    decreases i,
{
    if exists|j: int| 0 <= j < i && s[j].1 == id {
        let j = choose|j: int| 0 <= j < i && s[j].1 == id;
        lemma_some_first_id(s, id, j);
    } else {
        assert(is_first_id(s, id, i));
    }
}

/// No key occurs twice in a list keyed by text.
pub open spec fn view_keys_distinct<V>(s: Seq<(Seq<char>, V)>) -> bool {
    forall|i: int, j: int| 0 <= i < s.len() && 0 <= j < s.len() && i != j ==> s[i].0 != s[j].0
}

/// `e` is read from an entry of `raw`.
pub open spec fn row_entry_from(raw: Seq<(String, Option<u64>)>, e: (Seq<char>, Effectiveness)) -> bool {
    exists|q: int| #![trigger raw[q]] 0 <= q < raw.len() && raw[q].1 is Some && e == (raw[q].0@, Effectiveness::spec_from_code(raw[q].1->0))
}

proof fn lemma_row_members(raw: Seq<(String, Option<u64>)>)
    ensures
        forall|p: int| 0 <= p < spec_chart_row(raw).len() ==> row_entry_from(raw, #[trigger] spec_chart_row(raw)[p]),
    decreases raw.len(),
{
    if raw.len() > 0 {
        let init = raw.drop_last();
        lemma_row_members(init);
        let prev = spec_chart_row(init);
        assert forall|p: int| 0 <= p < spec_chart_row(raw).len() implies row_entry_from(raw, #[trigger] spec_chart_row(raw)[p]) by {
            if p < prev.len() {
                assert(spec_chart_row(raw)[p] == prev[p]);
                assert(row_entry_from(init, prev[p]));
                let q = choose|q: int| #![trigger init[q]] 0 <= q < init.len() && init[q].1 is Some && prev[p] == (init[q].0@, Effectiveness::spec_from_code(init[q].1->0));
                assert(init[q] == raw[q]);
            } else {
                let q = raw.len() - 1;
                assert(raw[q] == raw.last());
                assert(raw[q].1 is Some);
            }
        }
    }
}

proof fn lemma_row_has(raw: Seq<(String, Option<u64>)>, j: int)
    requires
        0 <= j < raw.len(),
        raw[j].1 is Some,
    ensures
        exists|p: int| 0 <= p < spec_chart_row(raw).len() && #[trigger] spec_chart_row(raw)[p] == (raw[j].0@, Effectiveness::spec_from_code(raw[j].1->0)),
    decreases raw.len(),
{
    let init = raw.drop_last();
    let prev = spec_chart_row(init);
    if j == raw.len() - 1 {
        assert(spec_chart_row(raw)[prev.len() as int] == (raw[j].0@, Effectiveness::spec_from_code(raw[j].1->0)));
    } else {
        assert(init[j] == raw[j]);
        lemma_row_has(init, j);
        let p = choose|p: int| 0 <= p < prev.len() && #[trigger] prev[p] == (init[j].0@, Effectiveness::spec_from_code(init[j].1->0));
        assert(spec_chart_row(raw)[p] == prev[p]);
    }
}

proof fn lemma_row_distinct(raw: Seq<(String, Option<u64>)>)
    requires
        keys_distinct(raw),
    ensures
        view_keys_distinct(spec_chart_row(raw)),
    decreases raw.len(),
{
    if raw.len() > 0 {
        let init = raw.drop_last();
        assert(keys_distinct(init)) by {
            assert forall|a: int, b: int| 0 <= a < init.len() && 0 <= b < init.len() && a != b implies init[a].0@ != init[b].0@ by {
                assert(init[a] == raw[a] && init[b] == raw[b]);
            }
        }
        lemma_row_distinct(init);
        lemma_row_members(init);
        let prev = spec_chart_row(init);
        let out = spec_chart_row(raw);
        if raw.last().1 is Some {
            assert forall|a: int, b: int| 0 <= a < out.len() && 0 <= b < out.len() && a != b implies out[a].0 != out[b].0 by {
                if a < prev.len() && b < prev.len() {
                    assert(out[a] == prev[a] && out[b] == prev[b]);
                } else {
                    let c = if a < prev.len() { a } else { b };
                    assert(out[c] == prev[c]);
                    assert(row_entry_from(init, prev[c]));
                    let q = choose|q: int| #![trigger init[q]] 0 <= q < init.len() && init[q].1 is Some && prev[c] == (init[q].0@, Effectiveness::spec_from_code(init[q].1->0));
                    assert(init[q] == raw[q]);
                    assert(raw[q].0@ != raw[raw.len() - 1].0@);
                }
            }
        }
    }
}

/// `e` is read from an entry of `raw`.
pub open spec fn chart_entry_from(raw: Seq<(String, Option<RawChartRow>)>, e: (Seq<char>, Seq<(Seq<char>, Effectiveness)>)) -> bool {
    exists|q: int| #![trigger raw[q]] 0 <= q < raw.len() && raw[q].1 is Some && e == (raw[q].0@, spec_chart_row(raw[q].1->0@))
}

proof fn lemma_chart_members(raw: Seq<(String, Option<RawChartRow>)>)
    ensures
        forall|p: int| 0 <= p < spec_chart(raw).len() ==> chart_entry_from(raw, #[trigger] spec_chart(raw)[p]),
    decreases raw.len(),
{
    if raw.len() > 0 {
        let init = raw.drop_last();
        lemma_chart_members(init);
        let prev = spec_chart(init);
        assert forall|p: int| 0 <= p < spec_chart(raw).len() implies chart_entry_from(raw, #[trigger] spec_chart(raw)[p]) by {
            if p < prev.len() {
                assert(spec_chart(raw)[p] == prev[p]);
                assert(chart_entry_from(init, prev[p]));
                let q = choose|q: int| #![trigger init[q]] 0 <= q < init.len() && init[q].1 is Some && prev[p] == (init[q].0@, spec_chart_row(init[q].1->0@));
                assert(init[q] == raw[q]);
            } else {
                let q = raw.len() - 1;
                assert(raw[q] == raw.last());
                assert(raw[q].1 is Some);
            }
        }
    }
}

proof fn lemma_chart_has(raw: Seq<(String, Option<RawChartRow>)>, i: int)
    requires
        0 <= i < raw.len(),
        raw[i].1 is Some,
    ensures
        exists|p: int| 0 <= p < spec_chart(raw).len() && #[trigger] spec_chart(raw)[p] == (raw[i].0@, spec_chart_row(raw[i].1->0@)),
    decreases raw.len(),
{
    let init = raw.drop_last();
    let prev = spec_chart(init);
    if i == raw.len() - 1 {
        assert(spec_chart(raw)[prev.len() as int] == (raw[i].0@, spec_chart_row(raw[i].1->0@)));
    } else {
        assert(init[i] == raw[i]);
        lemma_chart_has(init, i);
        let p = choose|p: int| 0 <= p < prev.len() && #[trigger] prev[p] == (init[i].0@, spec_chart_row(init[i].1->0@));
        assert(spec_chart(raw)[p] == prev[p]);
    }
}

proof fn lemma_chart_distinct(raw: Seq<(String, Option<RawChartRow>)>)
    requires
        keys_distinct(raw),
    ensures
        view_keys_distinct(spec_chart(raw)),
    decreases raw.len(),
{
    if raw.len() > 0 {
        let init = raw.drop_last();
        assert(keys_distinct(init)) by {
            assert forall|a: int, b: int| 0 <= a < init.len() && 0 <= b < init.len() && a != b implies init[a].0@ != init[b].0@ by {
                assert(init[a] == raw[a] && init[b] == raw[b]);
            }
        }
        lemma_chart_distinct(init);
        lemma_chart_members(init);
        let prev = spec_chart(init);
        let out = spec_chart(raw);
        if raw.last().1 is Some {
            assert forall|a: int, b: int| 0 <= a < out.len() && 0 <= b < out.len() && a != b implies out[a].0 != out[b].0 by {
                if a < prev.len() && b < prev.len() {
                    assert(out[a] == prev[a] && out[b] == prev[b]);
                } else {
                    let c = if a < prev.len() { a } else { b };
                    assert(out[c] == prev[c]);
                    assert(chart_entry_from(init, prev[c]));
                    let q = choose|q: int| #![trigger init[q]] 0 <= q < init.len() && init[q].1 is Some && prev[c] == (init[q].0@, spec_chart_row(init[q].1->0@));
                    assert(init[q] == raw[q]);
                    assert(raw[q].0@ != raw[raw.len() - 1].0@);
                }
            }
        }
    }
}

/// Looking up a pair of types in the type chart that was read from `raw`
/// gives the multiplier of the code that `raw` held for the pair, provided
/// no defending type has two tables and no table names an attacking type
/// twice (as in the JSON objects the chart is read from).
pub proof fn lemma_typechart_reads_back(raw: Seq<(String, Option<RawChartRow>)>, data: GameData, i: int, j: int)
    requires
        chart_view(data.typechart@) == spec_chart(raw),
        keys_distinct(raw),
        forall|k: int| 0 <= k < raw.len() && raw[k].1 is Some ==> keys_distinct(#[trigger] raw[k].1->0@),
        0 <= i < raw.len(),
        raw[i].1 is Some,
        0 <= j < raw[i].1->0@.len(),
        raw[i].1->0@[j].1 is Some,
    ensures
        data.spec_effectiveness(raw[i].0@, raw[i].1->0@[j].0@) == Some(Effectiveness::spec_from_code(raw[i].1->0@[j].1->0)),
{
    let chart = data.typechart@;
    let cv = chart_view(chart);
    let row = raw[i].1->0@;
    let def = raw[i].0@;
    let atk = row[j].0@;
    let code = row[j].1->0;
    lemma_chart_has(raw, i);
    lemma_chart_distinct(raw);
    let p = choose|p: int| 0 <= p < spec_chart(raw).len() && #[trigger] spec_chart(raw)[p] == (def, spec_chart_row(row));
    assert(cv[p] == (chart[p].0@, row_view(chart[p].1@)));
    assert forall|x: int| 0 <= x < p implies chart[x].0@ != def by {
        assert(cv[x] == (chart[x].0@, row_view(chart[x].1@)));
    }
    assert(is_first_key(chart, def, p));
    lemma_first_key(chart, def, p);
    let cells = chart[p].1@;
    let rv = row_view(cells);
    assert(rv == spec_chart_row(row));
    lemma_row_has(row, j);
    lemma_row_distinct(row);
    let r = choose|r: int| 0 <= r < spec_chart_row(row).len() && #[trigger] spec_chart_row(row)[r] == (atk, Effectiveness::spec_from_code(code));
    assert(rv[r] == (cells[r].0@, cells[r].1));
    assert forall|x: int| 0 <= x < r implies cells[x].0@ != atk by {
        assert(rv[x] == (cells[x].0@, cells[x].1));
    }
    assert(is_first_key(cells, atk, r));
    lemma_first_key(cells, atk, r);
}

/// No defending type occurs twice in the type chart, nor an attacking type
/// twice in one of its rows.
pub open spec fn chart_keys_distinct(chart: Seq<(String, Vec<(String, Effectiveness)>)>) -> bool {
    &&& keys_distinct(chart)
    &&& forall|p: int| 0 <= p < chart.len() ==> keys_distinct(#[trigger] chart[p].1@)
}

proof fn lemma_index_keys_distinct<V>(index: Seq<(String, u16)>, entries: Seq<(String, V)>, num: spec_fn(V) -> u16)
    requires
        is_num_index(index, entries, num),
        keys_distinct(entries),
    ensures
        keys_distinct(index),
{
    assert forall|a: int, b: int| 0 <= a < index.len() && 0 <= b < index.len() && a != b implies index[a].0@ != index[b].0@ by {
        assert(index[a].0@ == entries[a].0@);
        assert(index[b].0@ == entries[b].0@);
    }
}

/// Whether no key occurs twice in `s`.
pub fn keys_are_distinct<V>(s: &Vec<(String, V)>) -> (r: bool)
    ensures
        r == keys_distinct(s@),
{
    let mut i: usize = 0;
    while i < s.len()
        invariant
            0 <= i <= s.len(),
            forall|a: int, b: int| 0 <= a < i && 0 <= b < s@.len() && a != b ==> s@[a].0@ != s@[b].0@,
        decreases s.len() - i,
    {
        let mut j: usize = 0;
        while j < s.len()
            invariant
                0 <= i < s.len(),
                0 <= j <= s.len(),
                forall|a: int, b: int| 0 <= a < i && 0 <= b < s@.len() && a != b ==> s@[a].0@ != s@[b].0@,
                forall|b: int| 0 <= b < j && b != i ==> s@[i as int].0@ != s@[b].0@,
            decreases s.len() - j,
        {
            if j != i && s[i].0 == s[j].0 {
                return false;
            }
            j += 1;
        }
        i += 1;
    }
    true
}

/// Whether no defending type occurs twice in `chart`, nor an attacking
/// type twice in one of its rows.
pub fn chart_keys_are_distinct(chart: &Vec<(String, Vec<(String, Effectiveness)>)>) -> (r: bool)
    ensures
        r == chart_keys_distinct(chart@),
{
    if !keys_are_distinct(chart) {
        return false;
    }
    let mut p: usize = 0;
    while p < chart.len()
        invariant
            0 <= p <= chart.len(),
            forall|q: int| 0 <= q < p ==> keys_distinct(#[trigger] chart@[q].1@),
        decreases chart.len() - p,
    {
        if !keys_are_distinct(&chart[p].1) {
            return false;
        }
        p += 1;
    }
    true
}

/// What a JSON text says of the object under `field` in each of its
/// entries: `None` when the text is not a JSON object with string keys;
/// otherwise, for each key of that object, `None` when its value has no
/// `field` holding an object, else that object's keys, each with its value
/// as an unsigned integer (`None` where the value is not one). It is a
/// function of the text and the field alone.
pub uninterp spec fn json_object_codes(text: Seq<char>, field: Seq<char>) -> Option<Map<Seq<char>, Option<Map<Seq<char>, Option<u64>>>>>;

/// The codes of a row, read as a map (a later entry wins).
pub open spec fn codes_row_map(row: Seq<(String, Option<u64>)>) -> Map<Seq<char>, Option<u64>>
    decreases row.len(),
{
    if row.len() == 0 {
        Map::empty()
    } else {
        codes_row_map(row.drop_last()).insert(row.last().0@, row.last().1)
    }
}

/// The rows of a read type chart, read as a map (a later entry wins).
pub open spec fn codes_map(rows: Seq<(String, Option<RawChartRow>)>) -> Map<Seq<char>, Option<Map<Seq<char>, Option<u64>>>>
    decreases rows.len(),
{
    if rows.len() == 0 {
        Map::empty()
    } else {
        let row = match rows.last().1 {
            Some(r) => Some(codes_row_map(r@)),
            None => None,
        };
        codes_map(rows.drop_last()).insert(rows.last().0@, row)
    }
}

/// `serde_json::from_str::<HashMap<String, Value>>` on `text`; then, for each
/// entry, `Value::get(field)` and `Value::as_object`, and `Value::as_u64` on
/// each value of that object; collected, in the maps' iteration order, into
/// rows. `None` when the text does not parse. The rows, read as a map, are
/// what [`json_object_codes`] names; as they come from maps, no key occurs
/// twice. Their order (that of a `HashMap`) is left unsaid.
#[verifier::external_body]
fn json_object_field_codes(text: &String, field: &String) -> (r: Option<Vec<(String, Option<RawChartRow>)>>)
    ensures
        match r {
            Some(rows) => {
                &&& json_object_codes(text@, field@) == Some(codes_map(rows@))
                &&& keys_distinct(rows@)
                &&& forall|k: int| 0 <= k < rows@.len() && rows@[k].1 is Some ==> keys_distinct(#[trigger] rows@[k].1->0@)
            },
            None => json_object_codes(text@, field@) is None,
        },
{
    let parsed = serde_json::from_str::<std::collections::HashMap<String, serde_json::Value>>(text.as_str());
    parsed.ok().map(|m| {
        m.into_iter().map(|(t, v)| {
            let row = v.get(field.as_str()).and_then(serde_json::Value::as_object);
            (t, row.map(|d| d.iter().map(|(a, c)| (a.clone(), c.as_u64())).collect()))
        }).collect()
    })
}

/// The row of multipliers that a row of codes stands for: the attacking
/// types whose code is given, each with the multiplier of its code.
pub open spec fn row_of_codes(d: Map<Seq<char>, Option<u64>>) -> Map<Seq<char>, Effectiveness> {
    Map::new(|a: Seq<char>| d.contains_key(a) && d[a] is Some, |a: Seq<char>| Effectiveness::spec_from_code(d[a]->0))
}

/// The type chart that the codes stand for: the defending types that have
/// a table, each with the row its codes stand for.
pub open spec fn chart_of_codes(m: Map<Seq<char>, Option<Map<Seq<char>, Option<u64>>>>) -> Map<Seq<char>, Map<Seq<char>, Effectiveness>> {
    Map::new(|t: Seq<char>| m.contains_key(t) && m[t] is Some, |t: Seq<char>| row_of_codes(m[t]->0))
}

/// A row of the type chart, read as a map.
pub open spec fn row_map(cells: Seq<(Seq<char>, Effectiveness)>) -> Map<Seq<char>, Effectiveness>
    decreases cells.len(),
{
    if cells.len() == 0 {
        Map::empty()
    } else {
        row_map(cells.drop_last()).insert(cells.last().0, cells.last().1)
    }
}

/// The type chart, read as a map.
pub open spec fn chart_map(cv: Seq<(Seq<char>, Seq<(Seq<char>, Effectiveness)>)>) -> Map<Seq<char>, Map<Seq<char>, Effectiveness>>
    decreases cv.len(),
{
    if cv.len() == 0 {
        Map::empty()
    } else {
        chart_map(cv.drop_last()).insert(cv.last().0, row_map(cv.last().1))
    }
}

proof fn lemma_codes_row_dom(row: Seq<(String, Option<u64>)>, a: Seq<char>)
    ensures
        codes_row_map(row).contains_key(a) <==> exists|j: int| 0 <= j < row.len() && #[trigger] row[j].0@ == a,
    decreases row.len(),
{
    if row.len() > 0 {
        let init = row.drop_last();
        lemma_codes_row_dom(init, a);
        if exists|j: int| 0 <= j < init.len() && #[trigger] init[j].0@ == a {
            let j = choose|j: int| 0 <= j < init.len() && #[trigger] init[j].0@ == a;
            assert(row[j] == init[j]);
        }
        if exists|j: int| 0 <= j < row.len() && #[trigger] row[j].0@ == a {
            let j = choose|j: int| 0 <= j < row.len() && #[trigger] row[j].0@ == a;
            if j < row.len() - 1 {
                assert(init[j] == row[j]);
            }
        }
    }
}

proof fn lemma_codes_dom(rows: Seq<(String, Option<RawChartRow>)>, t: Seq<char>)
    ensures
        codes_map(rows).contains_key(t) <==> exists|j: int| 0 <= j < rows.len() && #[trigger] rows[j].0@ == t,
    decreases rows.len(),
{
    if rows.len() > 0 {
        let init = rows.drop_last();
        lemma_codes_dom(init, t);
        if exists|j: int| 0 <= j < init.len() && #[trigger] init[j].0@ == t {
            let j = choose|j: int| 0 <= j < init.len() && #[trigger] init[j].0@ == t;
            assert(rows[j] == init[j]);
        }
        if exists|j: int| 0 <= j < rows.len() && #[trigger] rows[j].0@ == t {
            let j = choose|j: int| 0 <= j < rows.len() && #[trigger] rows[j].0@ == t;
            if j < rows.len() - 1 {
                assert(init[j] == rows[j]);
            }
        }
    }
}

proof fn lemma_keys_distinct_init<V>(s: Seq<(String, V)>)
    requires
        keys_distinct(s),
        s.len() > 0,
    ensures
        keys_distinct(s.drop_last()),
        forall|j: int| 0 <= j < s.len() - 1 ==> #[trigger] s.drop_last()[j].0@ != s.last().0@,
{
    let init = s.drop_last();
    assert forall|a: int, b: int| 0 <= a < init.len() && 0 <= b < init.len() && a != b implies init[a].0@ != init[b].0@ by {
        assert(init[a] == s[a] && init[b] == s[b]);
    }
    assert forall|j: int| 0 <= j < s.len() - 1 implies #[trigger] s.drop_last()[j].0@ != s.last().0@ by {
        assert(init[j] == s[j]);
    }
}

/// A row of codes with distinct keys reads as the row of multipliers its
/// codes stand for.
proof fn lemma_row_map(row: Seq<(String, Option<u64>)>)
    requires
        keys_distinct(row),
    ensures
        row_map(spec_chart_row(row)) == row_of_codes(codes_row_map(row)),
    decreases row.len(),
{
    if row.len() == 0 {
        assert(row_of_codes(codes_row_map(row)) =~= Map::empty());
    } else {
        let init = row.drop_last();
        let k = row.last().0@;
        lemma_keys_distinct_init(row);
        lemma_row_map(init);
        lemma_codes_row_dom(init, k);
        let c = codes_row_map(init);
        let prev = spec_chart_row(init);
        assert(!c.contains_key(k));
        match row.last().1 {
            Some(x) => {
                let e = (k, Effectiveness::spec_from_code(x));
                assert(prev.push(e).drop_last() == prev);
                assert(row_map(prev.push(e)) == row_map(prev).insert(k, e.1));
                assert(row_of_codes(c.insert(k, Some(x))) =~= row_of_codes(c).insert(k, e.1));
            },
            None => {
                assert(row_of_codes(c.insert(k, None)) =~= row_of_codes(c));
            },
        }
    }
}

/// A type chart read from rows with distinct keys is, as a map, the chart
/// that the rows' codes stand for.
proof fn lemma_chart_map(raw: Seq<(String, Option<RawChartRow>)>)
    requires
        keys_distinct(raw),
        forall|k: int| 0 <= k < raw.len() && raw[k].1 is Some ==> keys_distinct(#[trigger] raw[k].1->0@),
    ensures
        chart_map(spec_chart(raw)) == chart_of_codes(codes_map(raw)),
    decreases raw.len(),
{
    if raw.len() == 0 {
        assert(chart_of_codes(codes_map(raw)) =~= Map::empty());
    } else {
        let init = raw.drop_last();
        let t = raw.last().0@;
        lemma_keys_distinct_init(raw);
        assert forall|k: int| 0 <= k < init.len() && init[k].1 is Some implies keys_distinct(#[trigger] init[k].1->0@) by {
            assert(init[k] == raw[k]);
        }
        lemma_chart_map(init);
        lemma_codes_dom(init, t);
        let c = codes_map(init);
        let prev = spec_chart(init);
        assert(!c.contains_key(t));
        match raw.last().1 {
            Some(r) => {
                assert(raw[raw.len() - 1] == raw.last());
                lemma_row_map(r@);
                let e = (t, spec_chart_row(r@));
                assert(prev.push(e).drop_last() == prev);
                assert(chart_map(prev.push(e)) == chart_map(prev).insert(t, row_map(e.1)));
                assert(chart_of_codes(c.insert(t, Some(codes_row_map(r@)))) =~= chart_of_codes(c).insert(t, row_of_codes(codes_row_map(r@))));
            },
            None => {
                assert(chart_of_codes(c.insert(t, None)) =~= chart_of_codes(c));
            },
        }
    }
}

/// The rows of a chart read from `raw` keep the keys of `raw` distinct.
proof fn lemma_chart_keys_distinct(raw: Seq<(String, Option<RawChartRow>)>, chart: Seq<(String, Vec<(String, Effectiveness)>)>)
    requires
        chart_view(chart) == spec_chart(raw),
        keys_distinct(raw),
        forall|k: int| 0 <= k < raw.len() && raw[k].1 is Some ==> keys_distinct(#[trigger] raw[k].1->0@),
    ensures
        chart_keys_distinct(chart),
{
    let cv = chart_view(chart);
    lemma_chart_distinct(raw);
    lemma_chart_members(raw);
    assert forall|a: int, b: int| 0 <= a < chart.len() && 0 <= b < chart.len() && a != b implies chart[a].0@ != chart[b].0@ by {
        assert(cv[a] == (chart[a].0@, row_view(chart[a].1@)));
        assert(cv[b] == (chart[b].0@, row_view(chart[b].1@)));
    }
    assert forall|p: int| 0 <= p < chart.len() implies keys_distinct(#[trigger] chart[p].1@) by {
        assert(cv[p] == (chart[p].0@, row_view(chart[p].1@)));
        assert(chart_entry_from(raw, spec_chart(raw)[p]));
        let q = choose|q: int| #![trigger raw[q]] 0 <= q < raw.len() && raw[q].1 is Some && spec_chart(raw)[p] == (raw[q].0@, spec_chart_row(raw[q].1->0@));
        lemma_row_distinct(raw[q].1->0@);
        let cells = chart[p].1@;
        let rv = row_view(cells);
        assert forall|x: int, y: int| 0 <= x < cells.len() && 0 <= y < cells.len() && x != y implies cells[x].0@ != cells[y].0@ by {
            assert(rv[x] == (cells[x].0@, cells[x].1));
            assert(rv[y] == (cells[y].0@, cells[y].1));
        }
    }
}

/// Reads the type chart from the text of a JSON object that maps each
/// defending type to an object whose `damageTaken` object maps attacking
/// types to codes. As a map, the chart is the one that the `damageTaken`
/// codes of the text stand for ([`chart_of_codes`]): the types that have a
/// `damageTaken` object, each with the attacking types whose code is an
/// unsigned integer, code 1 doubling, 2 halving, 3 making immune and any
/// other being neutral. Text that does not parse gives an empty chart. No
/// key occurs twice in the result.
pub fn read_typechart(text: &String) -> (r: Vec<(String, Vec<(String, Effectiveness)>)>)
    ensures
        match json_object_codes(text@, "damageTaken"@) {
            Some(m) => chart_map(chart_view(r@)) == chart_of_codes(m),
            None => r@.len() == 0,
        },
        chart_keys_distinct(r@),
{
    let field = String::from_str("damageTaken");
    match json_object_field_codes(text, &field) {
        Some(rows) => {
            let chart = build_typechart(&rows);
            proof {
                lemma_chart_keys_distinct(rows@, chart@);
                lemma_chart_map(rows@);
            }
            chart
        },
        None => Vec::new(),
    }
}

} // verus!
