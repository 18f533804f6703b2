//! The data behind the bestiary web page: a card per species for the index,
//! a detail record per species, the sorted lists of elements and stages, and
//! who evolves into whom.
use vstd::prelude::*;
use vstd::string::{StrSliceExecFns, StringExecFns};

use crate::bestiary::model::{
    copy_text_option, Evolution, Move, MoveEffect, PetSpecies, Stats,
};
use crate::order::{copy_texts, has_text, lex_lt, sort_unique_texts, strictly_sorted_texts};
use crate::text::{
    chars_of, decimal, path_extension, path_extension_of, same_text, text_option_view, trim_text,
    trimmed, u64_text,
};

verus! {

/// The stats shown for a species, with their total.
#[derive(Debug, Clone, Copy, PartialEq, Eq)]
pub struct StatsDto {
    pub max_hp: i32,
    pub attack: i32,
    pub defense: i32,
    pub speed: i32,
    pub special_attack: i32,
    pub special_defense: i32,
    pub total: i32,
}

/// The sum of the six stats.
pub open spec fn stats_total(s: Stats) -> int {
    s.max_hp + s.attack + s.defense + s.speed + s.special_attack + s.special_defense
}

/// Each partial sum of the stats, added in order, fits in `i32`.
pub open spec fn stats_total_fits(s: Stats) -> bool {
    &&& i32::MIN <= s.max_hp + s.attack <= i32::MAX
    &&& i32::MIN <= s.max_hp + s.attack + s.defense <= i32::MAX
    &&& i32::MIN <= s.max_hp + s.attack + s.defense + s.speed <= i32::MAX
    &&& i32::MIN <= s.max_hp + s.attack + s.defense + s.speed + s.special_attack <= i32::MAX
    &&& i32::MIN <= stats_total(s) <= i32::MAX
}

/// Whether the stat total of `s`, summed in order, stays within `i32`.
pub fn stats_total_in_range(s: &Stats) -> (r: bool)
    ensures
        r == stats_total_fits(*s),
{
    let a = s.max_hp as i64 + s.attack as i64;
    let b = a + s.defense as i64;
    let c = b + s.speed as i64;
    let d = c + s.special_attack as i64;
    let e = d + s.special_defense as i64;
    let lo = i32::MIN as i64;
    let hi = i32::MAX as i64;
    lo <= a && a <= hi && lo <= b && b <= hi && lo <= c && c <= hi && lo <= d && d <= hi && lo <= e
        && e <= hi
}

/// The shown form of the stats `s`.
pub open spec fn stats_dto(s: Stats) -> StatsDto {
    StatsDto {
        max_hp: s.max_hp,
        attack: s.attack,
        defense: s.defense,
        speed: s.speed,
        special_attack: s.special_attack,
        special_defense: s.special_defense,
        total: stats_total(s) as i32,
    }
}

impl StatsDto {
    /// The stats of a species and their total.
    pub fn from_species(entry: &PetSpecies) -> (dto: Self)
        requires
            stats_total_fits(entry.stats),
        ensures
            dto == stats_dto(entry.stats),
            dto.total == stats_total(entry.stats),
    {
        let stats = &entry.stats;
        StatsDto {
            max_hp: stats.max_hp,
            attack: stats.attack,
            defense: stats.defense,
            speed: stats.speed,
            special_attack: stats.special_attack,
            special_defense: stats.special_defense,
            total: stats.max_hp + stats.attack + stats.defense + stats.speed + stats.special_attack
                + stats.special_defense,
        }
    }
}

/// A move effect as shown: its kind and, for damage, its power.
#[derive(Debug, Clone, Copy, PartialEq, Eq)]
pub struct MoveEffectDto {
    pub kind: &'static str,
    pub power: Option<i32>,
}

impl MoveEffectDto {
    /// The shown form of a move effect.
    pub fn from_effect(value: &MoveEffect) -> (dto: Self)
        ensures
            match *value {
                MoveEffect::Damage { power } => dto.kind@ == "damage"@ && dto.power == Some(power),
                MoveEffect::Status => dto.kind@ == "status"@ && dto.power is None,
            },
    {
        match value {
            MoveEffect::Damage { power } => MoveEffectDto { kind: "damage", power: Some(*power) },
            MoveEffect::Status => MoveEffectDto { kind: "status", power: None },
        }
    }
}

/// A move as shown.
#[derive(Debug, Clone, PartialEq, Eq)]
pub struct MoveDto {
    pub id: String,
    pub name: String,
    pub element: String,
    pub category: String,
    pub priority: i8,
    pub energy_cost: i32,
    pub description: String,
    pub effect: MoveEffectDto,
}

/// `dto` shows the move `m`.
pub open spec fn shows_move(dto: MoveDto, m: Move) -> bool {
    &&& dto.id == m.id
    &&& dto.name == m.name
    &&& dto.element == m.element
    &&& dto.category == m.category
    &&& dto.priority == m.priority
    &&& dto.energy_cost == m.energy_cost
    &&& dto.description == m.description
    &&& match m.effect {
        MoveEffect::Damage { power } => dto.effect.kind@ == "damage"@ && dto.effect.power == Some(
            power,
        ),
        MoveEffect::Status => dto.effect.kind@ == "status"@ && dto.effect.power is None,
    }
}

impl MoveDto {
    /// The shown form of a move.
    pub fn from_move(value: &Move) -> (dto: Self)
        ensures
            shows_move(dto, *value),
    {
        MoveDto {
            id: value.id.clone(),
            name: value.name.clone(),
            element: value.element.clone(),
            category: value.category.clone(),
            priority: value.priority,
            energy_cost: value.energy_cost,
            description: value.description.clone(),
            effect: MoveEffectDto::from_effect(&value.effect),
        }
    }
}

/// An evolution as shown.
#[derive(Debug, Clone, PartialEq, Eq)]
pub struct EvolutionDto {
    pub to_name: String,
    pub evo_level: Option<i32>,
    pub condition: Option<String>,
    pub chain_text: Option<String>,
}

/// `dto` shows the evolution `e`.
pub open spec fn shows_evolution(dto: EvolutionDto, e: Evolution) -> bool {
    &&& dto.to_name == e.to_name
    &&& dto.evo_level == e.evo_level
    &&& dto.condition == e.condition
    &&& dto.chain_text == e.chain_text
}

impl EvolutionDto {
    /// The shown form of an evolution.
    pub fn from_evolution(value: &Evolution) -> (dto: Self)
        ensures
            shows_evolution(dto, *value),
    {
        EvolutionDto {
            to_name: value.to_name.clone(),
            evo_level: value.evo_level,
            condition: copy_text_option(&value.condition),
            chain_text: copy_text_option(&value.chain_text),
        }
    }
}

/// A text as shown: trimmed, and empty when it is only `:`.
pub open spec fn display_of(s: Seq<char>) -> Seq<char> {
    let t = trimmed(s);
    if t.len() == 0 || t == ":"@ {
        Seq::empty()
    } else {
        t
    }
}

/// A text as shown.
pub fn display_text(value: &str) -> (r: String)
    ensures
        r@ == display_of(value@),
{
    let trimmed_text = trim_text(value);
    let chars = chars_of(trimmed_text.as_str());
    let is_colon = chars.len() == 1 && chars[0] == ':';
    proof {
        reveal_strlit(":");
        if chars@.len() == 1 {
            if is_colon {
                assert(trimmed_text@ =~= ":"@);
            } else {
                assert(trimmed_text@ != ":"@);
            }
        }
    }
    if chars.len() == 0 || is_colon {
        String::new()
    } else {
        trimmed_text
    }
}

/// An optional text as shown: none when it shows as empty.
pub open spec fn normalized_of(value: Option<String>) -> Option<Seq<char>> {
    match value {
        Some(s) => if display_of(s@).len() == 0 {
            None
        } else {
            Some(display_of(s@))
        },
        None => None,
    }
}

/// An optional text as shown.
pub fn normalized_option(value: &Option<String>) -> (r: Option<String>)
    ensures
        text_option_view(r) == normalized_of(*value),
{
    match value {
        Some(text) => {
            let normalized = display_text(text.as_str());
            if normalized.as_str().unicode_len() == 0 {
                None
            } else {
                Some(normalized)
            }
        },
        None => None,
    }
}


/// The non-empty texts among `values`, in order, each once.
pub fn unique_sorted(values: &Vec<String>) -> (r: Vec<String>)
    ensures
        strictly_sorted_texts(r@),
        forall|t: Seq<char>| has_text(r@, t) <==> (t.len() > 0 && has_text(values@, t)),
{
    let mut kept: Vec<String> = Vec::new();
    for i in 0..values.len()
        invariant
            forall|t: Seq<char>|
                has_text(kept@, t) <==> (t.len() > 0 && exists|k: int|
                    0 <= k < i && (#[trigger] values@[k])@ == t),
    {
        let ghost before = kept@;
        if values[i].as_str().unicode_len() > 0 {
            kept.push(values[i].clone());
        }
        assert forall|t: Seq<char>|
            has_text(kept@, t) <==> (t.len() > 0 && exists|k: int|
                0 <= k < i + 1 && (#[trigger] values@[k])@ == t) by {
            if has_text(kept@, t) {
                let a = choose|a: int| 0 <= a < kept@.len() && (#[trigger] kept@[a])@ == t;
                if a < before.len() {
                    assert(before[a] == kept@[a]);
                    assert(has_text(before, t));
                } else {
                    assert(values@[i as int]@ == t);
                }
            }
            if t.len() > 0 && exists|k: int| 0 <= k < i + 1 && (#[trigger] values@[k])@ == t {
                let k = choose|k: int| 0 <= k < i + 1 && (#[trigger] values@[k])@ == t;
                if k < i {
                    assert(has_text(before, t));
                    let a = choose|a: int| 0 <= a < before.len() && (#[trigger] before[a])@ == t;
                    assert(kept@[a] == before[a]);
                } else {
                    assert(kept@[kept@.len() - 1] == values@[i as int]);
                }
            }
        }
    }
    let r = sort_unique_texts(&kept);
    assert forall|t: Seq<char>| has_text(r@, t) <==> (t.len() > 0 && has_text(values@, t)) by {
        if t.len() > 0 && has_text(values@, t) {
            let k = choose|k: int| 0 <= k < values@.len() && (#[trigger] values@[k])@ == t;
            assert(values@[k]@ == t);
        }
    }
    r
}

/// `entry` evolves into the species named `target`.
pub open spec fn evolves_into(entry: PetSpecies, target: Seq<char>) -> bool {
    exists|j: int|
        0 <= j < entry.evolutions@.len() && (#[trigger] entry.evolutions@[j]).to_name@ == target
}

/// A species of `species` named `name` evolves into `target`.
pub open spec fn is_predecessor(species: Seq<PetSpecies>, target: Seq<char>, name: Seq<char>) -> bool {
    exists|i: int|
        0 <= i < species.len() && (#[trigger] species[i]).name@ == name && evolves_into(
            species[i],
            target,
        )
}

/// Some species of `species` evolves into `target`.
pub open spec fn is_target(species: Seq<PetSpecies>, target: Seq<char>) -> bool {
    exists|i: int| 0 <= i < species.len() && evolves_into(#[trigger] species[i], target)
}

/// The names of the species that evolve into one target.
#[derive(Debug, Clone, PartialEq, Eq)]
pub struct PredecessorEntry {
    pub target: String,
    pub names: Vec<String>,
}

/// For each species that another evolves into, the names of those it
/// evolves from.
#[derive(Debug, Clone, PartialEq, Eq)]
pub struct Predecessors {
    pub entries: Vec<PredecessorEntry>,
}

/// `i` is the first entry for `target`.
pub open spec fn first_entry(entries: Seq<PredecessorEntry>, target: Seq<char>, i: int) -> bool {
    &&& 0 <= i < entries.len()
    &&& entries[i].target@ == target
    &&& forall|j: int| 0 <= j < i ==> (#[trigger] entries[j]).target@ != target
}

/// The names listed for `target`: those of its first entry, or none.
pub open spec fn predecessors_named(entries: Seq<PredecessorEntry>, target: Seq<char>) -> Seq<
    String,
> {
    if exists|i: int| first_entry(entries, target, i) {
        entries[choose|i: int| first_entry(entries, target, i)].names@
    } else {
        Seq::empty()
    }
}

proof fn lemma_first_entry_unique(entries: Seq<PredecessorEntry>, target: Seq<char>, i: int, k: int)
    requires
        first_entry(entries, target, i),
        first_entry(entries, target, k),
    ensures
        i == k,
{
    if i < k {
        assert(entries[i].target@ != target);
    } else if k < i {
        assert(entries[k].target@ != target);
    }
}

proof fn lemma_named_at(entries: Seq<PredecessorEntry>, target: Seq<char>, i: int)
    requires
        first_entry(entries, target, i),
    ensures
        predecessors_named(entries, target) == entries[i].names@,
{
    let c = choose|c: int| first_entry(entries, target, c);
    lemma_first_entry_unique(entries, target, i, c);
}

impl Predecessors {
    /// The names of the species that evolve into `target`; none when there
    /// are none.
    pub fn names_for(&self, target: &str) -> (r: Vec<String>)
        ensures
            r@ == predecessors_named(self.entries@, target@),
    {
        let mut i: usize = 0;
        while i < self.entries.len()
            invariant
                i <= self.entries@.len(),
                forall|j: int| 0 <= j < i ==> (#[trigger] self.entries@[j]).target@ != target@,
            decreases self.entries.len() - i,
        {
            if same_text(self.entries[i].target.as_str(), target) {
                proof {
                    lemma_named_at(self.entries@, target@, i as int);
                }
                return copy_texts(&self.entries[i].names);
            }
            i = i + 1;
        }
        assert(!exists|c: int| first_entry(self.entries@, target@, c)) by {
            if exists|c: int| first_entry(self.entries@, target@, c) {
                let c = choose|c: int| first_entry(self.entries@, target@, c);
                assert(self.entries@[c].target@ != target@);
            }
        }
        Vec::new()
    }
}

/// Whether `entry` evolves into the species named `target`.
fn has_evolution_into(entry: &PetSpecies, target: &str) -> (r: bool)
    ensures
        r == evolves_into(*entry, target@),
{
    let mut j: usize = 0;
    while j < entry.evolutions.len()
        invariant
            j <= entry.evolutions@.len(),
            forall|m: int| 0 <= m < j ==> (#[trigger] entry.evolutions@[m]).to_name@ != target@,
        decreases entry.evolutions.len() - j,
    {
        if same_text(entry.evolutions[j].to_name.as_str(), target) {
            return true;
        }
        j = j + 1;
    }
    false
}

/// The names of the species that evolve into `target`, in order, each once.
fn predecessor_names(species: &Vec<PetSpecies>, target: &str) -> (r: Vec<String>)
    ensures
        strictly_sorted_texts(r@),
        forall|n: Seq<char>| has_text(r@, n) <==> is_predecessor(species@, target@, n),
{
    let mut names: Vec<String> = Vec::new();
    for i in 0..species.len()
        invariant
            forall|n: Seq<char>|
                has_text(names@, n) <==> exists|k: int|
                    0 <= k < i && (#[trigger] species@[k]).name@ == n && evolves_into(
                        species@[k],
                        target@,
                    ),
    {
        let ghost before = names@;
        if has_evolution_into(&species[i], target) {
            names.push(species[i].name.clone());
        }
        assert forall|n: Seq<char>|
            has_text(names@, n) <==> exists|k: int|
                0 <= k < i + 1 && (#[trigger] species@[k]).name@ == n && evolves_into(
                    species@[k],
                    target@,
                ) by {
            if has_text(names@, n) {
                let a = choose|a: int| 0 <= a < names@.len() && (#[trigger] names@[a])@ == n;
                if a < before.len() {
                    assert(before[a] == names@[a]);
                    assert(has_text(before, n));
                } else {
                    assert(species@[i as int].name@ == n);
                }
            }
            if exists|k: int|
                0 <= k < i + 1 && (#[trigger] species@[k]).name@ == n && evolves_into(
                    species@[k],
                    target@,
                ) {
                let k = choose|k: int|
                    0 <= k < i + 1 && (#[trigger] species@[k]).name@ == n && evolves_into(
                        species@[k],
                        target@,
                    );
                if k < i {
                    assert(has_text(before, n));
                    let a = choose|a: int| 0 <= a < before.len() && (#[trigger] before[a])@ == n;
                    assert(names@[a] == before[a]);
                } else {
                    assert(names@[names@.len() - 1] == species@[i as int].name);
                }
            }
        }
    }
    sort_unique_texts(&names)
}

/// Every name that some species evolves into, possibly more than once.
fn all_targets(species: &Vec<PetSpecies>) -> (r: Vec<String>)
    ensures
        forall|t: Seq<char>| has_text(r@, t) <==> is_target(species@, t),
{
    let mut r: Vec<String> = Vec::new();
    for i in 0..species.len()
        invariant
            forall|t: Seq<char>|
                has_text(r@, t) <==> exists|k: int|
                    0 <= k < i && evolves_into(#[trigger] species@[k], t),
    {
        let evolutions = &species[i].evolutions;
        for j in 0..evolutions.len()
            invariant
                evolutions@ == species@[i as int].evolutions@,
                forall|t: Seq<char>|
                    has_text(r@, t) <==> (exists|k: int|
                        0 <= k < i && evolves_into(#[trigger] species@[k], t)) || (exists|m: int|
                        0 <= m < j && (#[trigger] evolutions@[m]).to_name@ == t),
        {
            let ghost before = r@;
            r.push(evolutions[j].to_name.clone());
            assert forall|t: Seq<char>|
                has_text(r@, t) <==> (exists|k: int|
                    0 <= k < i && evolves_into(#[trigger] species@[k], t)) || (exists|m: int|
                    0 <= m < j + 1 && (#[trigger] evolutions@[m]).to_name@ == t) by {
                if has_text(r@, t) {
                    let a = choose|a: int| 0 <= a < r@.len() && (#[trigger] r@[a])@ == t;
                    if a < before.len() {
                        assert(before[a] == r@[a]);
                        assert(has_text(before, t));
                    } else {
                        assert(evolutions@[j as int].to_name@ == t);
                    }
                }
                if exists|m: int| 0 <= m < j + 1 && (#[trigger] evolutions@[m]).to_name@ == t {
                    let m = choose|m: int|
                        0 <= m < j + 1 && (#[trigger] evolutions@[m]).to_name@ == t;
                    if m < j {
                        assert(has_text(before, t));
                        let a = choose|a: int| 0 <= a < before.len() && (#[trigger] before[a])@ == t;
                        assert(r@[a] == before[a]);
                    } else {
                        assert(r@[r@.len() - 1] == evolutions@[j as int].to_name);
                    }
                }
                if exists|k: int| 0 <= k < i && evolves_into(#[trigger] species@[k], t) {
                    assert(has_text(before, t));
                    let a = choose|a: int| 0 <= a < before.len() && (#[trigger] before[a])@ == t;
                    assert(r@[a] == before[a]);
                }
            }
        }
        assert forall|t: Seq<char>|
            has_text(r@, t) <==> exists|k: int|
                0 <= k < i + 1 && evolves_into(#[trigger] species@[k], t) by {
            if exists|m: int|
                0 <= m < evolutions@.len() && (#[trigger] evolutions@[m]).to_name@ == t {
                assert(evolves_into(species@[i as int], t));
            }
            if exists|k: int| 0 <= k < i + 1 && evolves_into(#[trigger] species@[k], t) {
                let k = choose|k: int| 0 <= k < i + 1 && evolves_into(#[trigger] species@[k], t);
                if k == i {
                    let m = choose|m: int|
                        0 <= m < species@[k].evolutions@.len()
                            && (#[trigger] species@[k].evolutions@[m]).to_name@ == t;
                    assert(evolutions@[m].to_name@ == t);
                }
            }
        }
    }
    r
}

/// Who evolves into whom: for each species that some species evolves into,
/// the names of those that do, in order and each once.
pub fn build_predecessors(species: &Vec<PetSpecies>) -> (r: Predecessors)
    ensures
        forall|t: Seq<char>|
            (exists|i: int| 0 <= i < r.entries@.len() && (#[trigger] r.entries@[i]).target@ == t)
                <==> is_target(species@, t),
        forall|t: Seq<char>, n: Seq<char>|
            #[trigger] has_text(predecessors_named(r.entries@, t), n) <==> is_predecessor(
                species@,
                t,
                n,
            ),
        forall|t: Seq<char>| strictly_sorted_texts(#[trigger] predecessors_named(r.entries@, t)),
{
    let all = all_targets(species);
    let targets = sort_unique_texts(&all);
    let mut entries: Vec<PredecessorEntry> = Vec::new();
    for k in 0..targets.len()
        invariant
            strictly_sorted_texts(targets@),
            entries@.len() == k,
            forall|i: int| 0 <= i < k ==> (#[trigger] entries@[i]).target@ == targets@[i]@,
            forall|i: int, n: Seq<char>|
                0 <= i < k ==> (#[trigger] has_text(entries@[i].names@, n) <==> is_predecessor(
                    species@,
                    targets@[i]@,
                    n,
                )),
            forall|i: int| 0 <= i < k ==> strictly_sorted_texts((#[trigger] entries@[i]).names@),
    {
        let names = predecessor_names(species, targets[k].as_str());
        entries.push(PredecessorEntry { target: targets[k].clone(), names });
    }
    let r = Predecessors { entries };
    assert forall|t: Seq<char>|
        (exists|i: int| 0 <= i < r.entries@.len() && (#[trigger] r.entries@[i]).target@ == t)
            <==> is_target(species@, t) by {
        if exists|i: int| 0 <= i < r.entries@.len() && (#[trigger] r.entries@[i]).target@ == t {
            let i = choose|i: int| 0 <= i < r.entries@.len() && (#[trigger] r.entries@[i]).target@ == t;
            assert(has_text(targets@, t) && has_text(all@, t));
        }
        if is_target(species@, t) {
            assert(has_text(all@, t));
            assert(has_text(targets@, t));
            let i = choose|i: int| 0 <= i < targets@.len() && (#[trigger] targets@[i])@ == t;
            assert(r.entries@[i].target@ == t);
        }
    }
    assert forall|t: Seq<char>|
        (forall|n: Seq<char>|
            #[trigger] has_text(predecessors_named(r.entries@, t), n) <==> is_predecessor(
                species@,
                t,
                n,
            )) && strictly_sorted_texts(predecessors_named(r.entries@, t)) by {
        if exists|i: int| 0 <= i < targets@.len() && (#[trigger] targets@[i])@ == t {
            let i = choose|i: int| 0 <= i < targets@.len() && (#[trigger] targets@[i])@ == t;
            assert forall|j: int| 0 <= j < i implies (#[trigger] r.entries@[j]).target@ != t by {
                assert(lex_lt(targets@[j]@, targets@[i]@));
            }
            assert(first_entry(r.entries@, t, i));
            lemma_named_at(r.entries@, t, i);
        } else {
            assert(!exists|c: int| first_entry(r.entries@, t, c)) by {
                if exists|c: int| first_entry(r.entries@, t, c) {
                    let c = choose|c: int| first_entry(r.entries@, t, c);
                    assert(targets@[c]@ == t);
                }
            }
            assert(!has_text(all@, t));
            assert forall|n: Seq<char>| !is_predecessor(species@, t, n) by {
                if is_predecessor(species@, t, n) {
                    let i = choose|i: int|
                        0 <= i < species@.len() && (#[trigger] species@[i]).name@ == n
                            && evolves_into(species@[i], t);
                    assert(is_target(species@, t));
                }
            }
        }
    }
    r
}


/// The card of a species in the site index.
#[derive(Debug, Clone, PartialEq, Eq)]
pub struct SpeciesCard {
    pub id: String,
    pub pokemon_id: i64,
    pub name: String,
    pub element: String,
    pub evo_stage: String,
    pub ability: String,
    pub spirit_no: Option<String>,
    pub icon: Option<String>,
    pub stats: StatsDto,
    pub move_count: usize,
    pub evolution_count: usize,
}

/// `card` shows `entry`, with the icon address `icon`.
pub open spec fn shows_card(card: SpeciesCard, entry: PetSpecies, icon: Option<Seq<char>>) -> bool {
    &&& card.id == entry.species_id
    &&& card.pokemon_id == entry.pokemon_id
    &&& card.name == entry.name
    &&& card.element == entry.element
    &&& card.evo_stage == entry.evo_stage
    &&& card.ability@ == display_of(entry.ability@)
    &&& text_option_view(card.spirit_no) == normalized_of(entry.spirit_no)
    &&& text_option_view(card.icon) == icon
    &&& card.stats == stats_dto(entry.stats)
    &&& card.move_count == entry.learnset@.len()
    &&& card.evolution_count == entry.evolutions@.len()
}

/// The index card of a species.
pub fn species_card(entry: &PetSpecies, icon: Option<String>) -> (card: SpeciesCard)
    requires
        stats_total_fits(entry.stats),
    ensures
        shows_card(card, *entry, text_option_view(icon)),
{
    SpeciesCard {
        id: entry.species_id.clone(),
        pokemon_id: entry.pokemon_id,
        name: entry.name.clone(),
        element: entry.element.clone(),
        evo_stage: entry.evo_stage.clone(),
        ability: display_text(entry.ability.as_str()),
        spirit_no: normalized_option(&entry.spirit_no),
        icon,
        stats: StatsDto::from_species(entry),
        move_count: entry.learnset.len(),
        evolution_count: entry.evolutions.len(),
    }
}

/// The detail record of a species.
#[derive(Debug, Clone, PartialEq, Eq)]
pub struct SpeciesDetail {
    pub id: String,
    pub pokemon_id: i64,
    pub name: String,
    pub element: String,
    pub evo_stage: String,
    pub ability: String,
    pub spirit_no: Option<String>,
    pub icon: Option<String>,
    pub stats: StatsDto,
    pub learnset: Vec<MoveDto>,
    pub evolves_from: Vec<String>,
    pub evolves_to: Vec<EvolutionDto>,
}

/// `detail` shows `entry`, with the icon address `icon`, apart from the
/// species it evolves from.
pub open spec fn shows_detail(detail: SpeciesDetail, entry: PetSpecies, icon: Option<Seq<char>>) -> bool {
    &&& detail.id == entry.species_id
    &&& detail.pokemon_id == entry.pokemon_id
    &&& detail.name == entry.name
    &&& detail.element == entry.element
    &&& detail.evo_stage == entry.evo_stage
    &&& detail.ability@ == display_of(entry.ability@)
    &&& text_option_view(detail.spirit_no) == normalized_of(entry.spirit_no)
    &&& text_option_view(detail.icon) == icon
    &&& detail.stats == stats_dto(entry.stats)
    &&& detail.learnset@.len() == entry.learnset@.len()
    &&& forall|i: int|
        0 <= i < entry.learnset@.len() ==> shows_move(
            #[trigger] detail.learnset@[i],
            entry.learnset@[i],
        )
    &&& detail.evolves_to@.len() == entry.evolutions@.len()
    &&& forall|i: int|
        0 <= i < entry.evolutions@.len() ==> shows_evolution(
            #[trigger] detail.evolves_to@[i],
            entry.evolutions@[i],
        )
}

/// The shown forms of a learnset.
fn move_dtos(moves: &Vec<Move>) -> (r: Vec<MoveDto>)
    ensures
        r@.len() == moves@.len(),
        forall|i: int| 0 <= i < moves@.len() ==> shows_move(#[trigger] r@[i], moves@[i]),
{
    let mut r: Vec<MoveDto> = Vec::new();
    for i in 0..moves.len()
        invariant
            r@.len() == i,
            forall|k: int| 0 <= k < i ==> shows_move(#[trigger] r@[k], moves@[k]),
    {
        r.push(MoveDto::from_move(&moves[i]));
    }
    r
}

/// The shown forms of a list of evolutions.
fn evolution_dtos(evolutions: &Vec<Evolution>) -> (r: Vec<EvolutionDto>)
    ensures
        r@.len() == evolutions@.len(),
        forall|i: int| 0 <= i < evolutions@.len() ==> shows_evolution(#[trigger] r@[i], evolutions@[i]),
{
    let mut r: Vec<EvolutionDto> = Vec::new();
    for i in 0..evolutions.len()
        invariant
            r@.len() == i,
            forall|k: int| 0 <= k < i ==> shows_evolution(#[trigger] r@[k], evolutions@[k]),
    {
        r.push(EvolutionDto::from_evolution(&evolutions[i]));
    }
    r
}

/// The detail record of a species; it evolves from the species that
/// `evolves_from` lists for its name.
pub fn species_detail(entry: &PetSpecies, icon: Option<String>, evolves_from: &Predecessors) -> (detail: SpeciesDetail)
    requires
        stats_total_fits(entry.stats),
    ensures
        shows_detail(detail, *entry, text_option_view(icon)),
        detail.evolves_from@ == predecessors_named(evolves_from.entries@, entry.name@),
{
    SpeciesDetail {
        id: entry.species_id.clone(),
        pokemon_id: entry.pokemon_id,
        name: entry.name.clone(),
        element: entry.element.clone(),
        evo_stage: entry.evo_stage.clone(),
        ability: display_text(entry.ability.as_str()),
        spirit_no: normalized_option(&entry.spirit_no),
        icon,
        stats: StatsDto::from_species(entry),
        learnset: move_dtos(&entry.learnset),
        evolves_from: evolves_from.names_for(entry.name.as_str()),
        evolves_to: evolution_dtos(&entry.evolutions),
    }
}

/// The file name an icon is exported under: the species id, a `.` and the
/// extension of its source, `png` when that has none.
pub open spec fn icon_file_text(species_id: Seq<char>, extension: Option<Seq<char>>) -> Seq<char> {
    species_id + "."@ + match extension {
        Some(e) => e,
        None => "png"@,
    }
}

/// The file name an icon is exported under, given the extension of its
/// source.
pub fn icon_file_name(species_id: &str, extension: &Option<String>) -> (r: String)
    ensures
        r@ == icon_file_text(species_id@, text_option_view(*extension)),
{
    let mut r = String::from_str(species_id);
    r.append(".");
    match extension {
        Some(e) => r.append(e.as_str()),
        None => r.append("png"),
    }
    r
}

/// The file name the icon of `entry` is exported under, if it has an icon.
pub open spec fn exported_icon_text(entry: PetSpecies) -> Option<Seq<char>> {
    match entry.icon_path {
        Some(p) => Some(icon_file_text(entry.species_id@, path_extension_of(p@))),
        None => None,
    }
}

/// The file name the icon of `entry` is exported under, if it has an icon.
pub fn exported_icon_file(entry: &PetSpecies) -> (r: Option<String>)
    ensures
        text_option_view(r) == exported_icon_text(*entry),
{
    match &entry.icon_path {
        Some(path) => {
            let extension = path_extension(path.as_str());
            Some(icon_file_name(entry.species_id.as_str(), &extension))
        },
        None => None,
    }
}

/// The address of an exported icon file within the site.
pub fn icon_url(file_name: &str) -> (r: String)
    ensures
        r@ == "icons/"@ + file_name@,
{
    let mut r = String::from_str("icons/");
    r.append(file_name);
    r
}

/// The address of the icon of `entry` within the site, if it has one.
pub open spec fn site_icon(entry: PetSpecies) -> Option<Seq<char>> {
    match exported_icon_text(entry) {
        Some(f) => Some("icons/"@ + f),
        None => None,
    }
}

/// When the site data was made: the seconds since the Unix epoch, or `0`
/// when the clock stands before it.
pub fn generated_timestamp(elapsed_secs: Option<u64>) -> (r: String)
    ensures
        r@ == match elapsed_secs {
            Some(secs) => decimal(secs as nat),
            None => "0"@,
        },
{
    match elapsed_secs {
        Some(secs) => u64_text(secs),
        None => String::from_str("0"),
    }
}

/// The index of the site.
#[derive(Debug, Clone, PartialEq, Eq)]
pub struct SpeciesIndex {
    pub generated_at: String,
    pub species_count: usize,
    pub elements: Vec<String>,
    pub stages: Vec<String>,
    pub species: Vec<SpeciesCard>,
}

/// Everything the site shows: its index and a detail record per species.
#[derive(Debug, Clone, PartialEq, Eq)]
pub struct SiteData {
    pub index: SpeciesIndex,
    pub details: Vec<SpeciesDetail>,
}

/// `t` is the non-empty element of some species.
pub open spec fn lists_element(species: Seq<PetSpecies>, t: Seq<char>) -> bool {
    t.len() > 0 && exists|i: int| 0 <= i < species.len() && (#[trigger] species[i]).element@ == t
}

/// `t` is the non-empty evolution stage of some species.
pub open spec fn lists_stage(species: Seq<PetSpecies>, t: Seq<char>) -> bool {
    t.len() > 0 && exists|i: int| 0 <= i < species.len() && (#[trigger] species[i]).evo_stage@ == t
}

/// The site data of a list of species, made at `generated_at`.
pub fn site_data(species: &Vec<PetSpecies>, generated_at: String) -> (data: SiteData)
    requires
        forall|i: int| 0 <= i < species@.len() ==> stats_total_fits(#[trigger] species@[i].stats),
    ensures
        data.index.generated_at == generated_at,
        data.index.species_count == species@.len(),
        strictly_sorted_texts(data.index.elements@),
        forall|t: Seq<char>| has_text(data.index.elements@, t) <==> lists_element(species@, t),
        strictly_sorted_texts(data.index.stages@),
        forall|t: Seq<char>| has_text(data.index.stages@, t) <==> lists_stage(species@, t),
        data.index.species@.len() == species@.len(),
        forall|i: int|
            0 <= i < species@.len() ==> shows_card(
                #[trigger] data.index.species@[i],
                species@[i],
                site_icon(species@[i]),
            ),
        data.details@.len() == species@.len(),
        forall|i: int|
            0 <= i < species@.len() ==> shows_detail(
                #[trigger] data.details@[i],
                species@[i],
                site_icon(species@[i]),
            ),
        forall|i: int|
            0 <= i < species@.len() ==> strictly_sorted_texts((#[trigger] data.details@[i]).evolves_from@),
        forall|i: int, n: Seq<char>|
            0 <= i < species@.len() ==> (#[trigger] has_text(data.details@[i].evolves_from@, n)
                <==> is_predecessor(species@, species@[i].name@, n)),
{
    let evolves_from = build_predecessors(species);
    let mut element_list: Vec<String> = Vec::new();
    let mut stage_list: Vec<String> = Vec::new();
    for i in 0..species.len()
        invariant
            element_list@.len() == i,
            stage_list@.len() == i,
            forall|k: int| 0 <= k < i ==> (#[trigger] element_list@[k]) == species@[k].element,
            forall|k: int| 0 <= k < i ==> (#[trigger] stage_list@[k]) == species@[k].evo_stage,
    {
        element_list.push(species[i].element.clone());
        stage_list.push(species[i].evo_stage.clone());
    }
    let elements = unique_sorted(&element_list);
    let stages = unique_sorted(&stage_list);
    let mut cards: Vec<SpeciesCard> = Vec::new();
    let mut details: Vec<SpeciesDetail> = Vec::new();
    for i in 0..species.len()
        invariant
            forall|k: int| 0 <= k < species@.len() ==> stats_total_fits(#[trigger] species@[k].stats),
            forall|t: Seq<char>, n: Seq<char>|
                #[trigger] has_text(predecessors_named(evolves_from.entries@, t), n) <==> is_predecessor(
                    species@,
                    t,
                    n,
                ),
            forall|t: Seq<char>| strictly_sorted_texts(#[trigger] predecessors_named(evolves_from.entries@, t)),
            cards@.len() == i,
            details@.len() == i,
            forall|k: int| 0 <= k < i ==> shows_card(#[trigger] cards@[k], species@[k], site_icon(species@[k])),
            forall|k: int| 0 <= k < i ==> shows_detail(#[trigger] details@[k], species@[k], site_icon(species@[k])),
            forall|k: int|
                0 <= k < i ==> (#[trigger] details@[k]).evolves_from@ == predecessors_named(
                    evolves_from.entries@,
                    species@[k].name@,
                ),
    {
        let entry = &species[i];
        let icon = match exported_icon_file(entry) {
            Some(file) => Some(icon_url(file.as_str())),
            None => None,
        };
        let detail_icon = match &icon {
            Some(url) => Some(url.clone()),
            None => None,
        };
        details.push(species_detail(entry, detail_icon, &evolves_from));
        cards.push(species_card(entry, icon));
    }
    assert forall|t: Seq<char>| has_text(element_list@, t) == (exists|i: int|
        0 <= i < species@.len() && (#[trigger] species@[i]).element@ == t) by {
        if exists|i: int| 0 <= i < species@.len() && (#[trigger] species@[i]).element@ == t {
            let i = choose|i: int| 0 <= i < species@.len() && (#[trigger] species@[i]).element@ == t;
            assert(element_list@[i]@ == t);
        }
    }
    assert forall|t: Seq<char>| has_text(stage_list@, t) == (exists|i: int|
        0 <= i < species@.len() && (#[trigger] species@[i]).evo_stage@ == t) by {
        if exists|i: int| 0 <= i < species@.len() && (#[trigger] species@[i]).evo_stage@ == t {
            let i = choose|i: int| 0 <= i < species@.len() && (#[trigger] species@[i]).evo_stage@ == t;
            assert(stage_list@[i]@ == t);
        }
    }
    let count = cards.len();
    SiteData {
        index: SpeciesIndex {
            generated_at,
            species_count: count,
            elements,
            stages,
            species: cards,
        },
        details,
    }
}

} // verus!
