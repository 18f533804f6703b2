use vstd::prelude::*;
use vstd::string::StringExecFns;

use crate::bestiary::error::BestiaryError;
use crate::bestiary::model::{species_views, PetSpecies, PetSpeciesView};
use crate::bestiary::query::PetQueryService;

verus! {

/// The last index of `s` whose species satisfies `f`.
pub open spec fn last_where(s: Seq<PetSpeciesView>, f: spec_fn(PetSpeciesView) -> bool) -> Option<int>
    decreases s.len(),
{
    if s.len() == 0 {
        None
    } else if f(s.last()) {
        Some(s.len() - 1)
    } else {
        last_where(s.drop_last(), f)
    }
}

/// Where `last_where` points: a species satisfying `f` with none after it.
pub proof fn lemma_last_where(s: Seq<PetSpeciesView>, f: spec_fn(PetSpeciesView) -> bool)
    ensures
        match last_where(s, f) {
            Some(i) => 0 <= i < s.len() && f(s[i]) && forall|j: int| i < j < s.len() ==> !f(s[j]),
            None => forall|j: int| 0 <= j < s.len() ==> !f(s[j]),
        },
    decreases s.len(),
{
    if s.len() > 0 && !f(s.last()) {
        lemma_last_where(s.drop_last(), f);
        assert forall|j: int| 0 <= j < s.len() - 1 implies s.drop_last()[j] == s[j] by {}
    }
}

/// The species whose id is `id`.
pub open spec fn has_id(id: Seq<char>) -> spec_fn(PetSpeciesView) -> bool {
    |p: PetSpeciesView| p.species_id@ == id
}

/// The species named `name`.
pub open spec fn has_name(name: Seq<char>) -> spec_fn(PetSpeciesView) -> bool {
    |p: PetSpeciesView| p.name@ == name
}

/// An in-memory catalog of species, in the order they were loaded. Looking a
/// species up by id or by name finds the last one loaded with it.
#[derive(Debug, Clone, PartialEq, Eq)]
pub struct PetCatalog {
    species: Vec<PetSpecies>,
}

impl View for PetCatalog {
    type V = Seq<PetSpeciesView>;

    closed spec fn view(&self) -> Seq<PetSpeciesView> {
        species_views(self.species@)
    }
}

/// What a lookup returns: the species at the index found, or nothing.
pub open spec fn found(
    catalog: Seq<PetSpeciesView>,
    index: Option<int>,
    r: Option<&PetSpecies>,
) -> bool {
    match index {
        Some(i) => r matches Some(p) && p@ == catalog[i],
        None => r is None,
    }
}

/// What a copying lookup returns: a copy of the species at the index found.
pub open spec fn found_copy(
    catalog: Seq<PetSpeciesView>,
    index: Option<int>,
    r: Option<PetSpecies>,
) -> bool {
    match index {
        Some(i) => r matches Some(p) && p@ == catalog[i],
        None => r is None,
    }
}

impl PetCatalog {
    /// A catalog holding `species`, in order.
    pub fn new(species: Vec<PetSpecies>) -> (c: Self)
        ensures
            c@ == species_views(species@),
    {
        PetCatalog { species }
    }

    /// All species, in order.
    pub fn species(&self) -> (s: &[PetSpecies])
        ensures
            species_views(s@) == self@,
    {
        self.species.as_slice()
    }

    fn last_matching(&self, key: &String, by_id: bool) -> (r: Option<&PetSpecies>)
        ensures
            found(
                self@,
                last_where(
                    self@,
                    if by_id {
                        has_id(key@)
                    } else {
                        has_name(key@)
                    },
                ),
                r,
            ),
    {
        let ghost f = if by_id {
            has_id(key@)
        } else {
            has_name(key@)
        };
        let ghost s = self@;
        let mut i = self.species.len();
        assert(s.take(i as int) =~= s);
        while i > 0
            invariant
                i <= self.species@.len(),
                s == species_views(self.species@),
                f == if by_id {
                    has_id(key@)
                } else {
                    has_name(key@)
                },
                last_where(s, f) == last_where(s.take(i as int), f),
            decreases i,
        {
            i = i - 1;
            assert(s.take(i + 1).drop_last() =~= s.take(i as int));
            assert(s.take(i + 1).last() == self.species@[i as int]@);
            let candidate = &self.species[i];
            let hit = if by_id {
                candidate.species_id == *key
            } else {
                candidate.name == *key
            };
            if hit {
                return Some(candidate);
            }
        }
        None
    }

    /// The last species loaded with the id `species_id`.
    pub fn species_by_id(&self, species_id: &str) -> (r: Option<&PetSpecies>)
        ensures
            found(self@, last_where(self@, has_id(species_id@)), r),
    {
        let key = String::from_str(species_id);
        self.last_matching(&key, true)
    }

    /// The last species loaded with the name `name`.
    pub fn species_by_name(&self, name: &str) -> (r: Option<&PetSpecies>)
        ensures
            found(self@, last_where(self@, has_name(name@)), r),
    {
        let key = String::from_str(name);
        self.last_matching(&key, false)
    }

    /// Queries over this catalog.
    pub fn query(&self) -> (q: PetQueryService<'_>)
        ensures
            q@ == self@,
    {
        PetQueryService::new(self)
    }

    /// The catalog service over this catalog; the same queries.
    pub fn service(&self) -> (q: PetQueryService<'_>)
        ensures
            q@ == self@,
    {
        self.query()
    }

    /// A copy of every species, in order.
    pub fn list_species(&self) -> (r: Result<Vec<PetSpecies>, BestiaryError>)
        ensures
            r matches Ok(v) && species_views(v@) == self@,
    {
        let mut out: Vec<PetSpecies> = Vec::new();
        for i in 0..self.species.len()
            invariant
                species_views(out@) == species_views(self.species@).take(i as int),
        {
            let copy = self.species[i].duplicate();
            let ghost before = out@;
            out.push(copy);
            assert(out@ == before.push(copy));
            assert(species_views(out@) =~= species_views(before).push(copy@));
            assert(species_views(self.species@).take(i + 1) =~= species_views(self.species@).take(
                i as int,
            ).push(self.species@[i as int]@));
        }
        assert(species_views(self.species@).take(self.species@.len() as int) =~= species_views(
            self.species@,
        ));
        Ok(out)
    }

    /// A copy of the last species loaded with the id `species_id`, if any.
    pub fn get_species(&self, species_id: &str) -> (r: Result<Option<PetSpecies>, BestiaryError>)
        ensures
            r matches Ok(o) && found_copy(self@, last_where(self@, has_id(species_id@)), o),
    {
        match self.species_by_id(species_id) {
            Some(p) => Ok(Some(p.duplicate())),
            None => Ok(None),
        }
    }

    /// A copy of the last species loaded with the name `name`, if any.
    pub fn find_species_by_name(&self, name: &str) -> (r: Result<Option<PetSpecies>, BestiaryError>)
        ensures
            r matches Ok(o) && found_copy(self@, last_where(self@, has_name(name@)), o),
    {
        match self.species_by_name(name) {
            Some(p) => Ok(Some(p.duplicate())),
            None => Ok(None),
        }
    }
}

} // verus!
