use vstd::prelude::*;
use vstd::string::StringExecFns;

use crate::bestiary::catalog::{has_id, has_name, last_where, PetCatalog};
use crate::bestiary::error::{BestiaryError, BestiaryErrorView};
use crate::bestiary::model::{
    copy_evolutions, copy_moves, copy_text_option, species_views, Evolution, Move, PetSpecies,
    PetSpeciesView,
};

verus! {

/// Queries over a catalog of species.
#[derive(Debug, Clone, Copy)]
pub struct PetQueryService<'a> {
    repository: &'a PetCatalog,
}

impl<'a> View for PetQueryService<'a> {
    type V = Seq<PetSpeciesView>;

    closed spec fn view(&self) -> Seq<PetSpeciesView> {
        self.repository@
    }
}

/// The species of the given element.
pub open spec fn of_element(element: Seq<char>) -> spec_fn(PetSpeciesView) -> bool {
    |p: PetSpeciesView| p.element@ == element
}

/// The species of the given evolution stage.
pub open spec fn of_stage(stage: Seq<char>) -> spec_fn(PetSpeciesView) -> bool {
    |p: PetSpeciesView| p.evo_stage@ == stage
}

/// What a lookup by id answers: `found` applied to the species found, or
/// the missing-species error naming the id.
pub open spec fn answered<T>(
    catalog: Seq<PetSpeciesView>,
    key: Seq<char>,
    index: Option<int>,
    r: Result<T, BestiaryError>,
    found: spec_fn(PetSpeciesView, T) -> bool,
) -> bool {
    match index {
        Some(i) => r matches Ok(x) && found(catalog[i], x),
        None => r matches Err(e) && e@ == BestiaryErrorView::MissingSpecies(key),
    }
}

impl<'a> PetQueryService<'a> {
    /// Queries over `repository`.
    pub fn new(repository: &'a PetCatalog) -> (q: Self)
        ensures
            q@ == repository@,
    {
        PetQueryService { repository }
    }

    /// The species of the given evolution stage or element, in catalog order.
    fn filtered(&self, key: &str, by_element: bool) -> (r: Vec<PetSpecies>)
        ensures
            species_views(r@) == self@.filter(
                if by_element {
                    of_element(key@)
                } else {
                    of_stage(key@)
                },
            ),
    {
        let ghost f = if by_element {
            of_element(key@)
        } else {
            of_stage(key@)
        };
        let key = String::from_str(key);
        let all = self.repository.species();
        let ghost s = species_views(all@);
        let mut out: Vec<PetSpecies> = Vec::new();
        assert(s.take(0).filter(f) =~= Seq::<PetSpeciesView>::empty()) by {
            reveal_with_fuel(Seq::<_>::filter, 1);
        }
        for i in 0..all.len()
            invariant
                s == species_views(all@),
                s == self@,
                f == if by_element {
                    of_element(key@)
                } else {
                    of_stage(key@)
                },
                species_views(out@) == s.take(i as int).filter(f),
        {
            let entry = &all[i];
            assert(s.take(i + 1).drop_last() =~= s.take(i as int));
            assert(s.take(i + 1).last() == entry@);
            proof {
                reveal_with_fuel(Seq::<_>::filter, 1);
            }
            let keep = if by_element {
                entry.element == key
            } else {
                entry.evo_stage == key
            };
            if keep {
                let copy = entry.duplicate();
                let ghost before = out@;
                out.push(copy);
                assert(species_views(out@) =~= species_views(before).push(copy@));
            }
        }
        assert(s.take(all@.len() as int) =~= s);
        out
    }

    /// The species of the given element, in catalog order.
    pub fn species_by_element(&self, element: &str) -> (r: Result<Vec<PetSpecies>, BestiaryError>)
        ensures
            r matches Ok(v) && species_views(v@) == self@.filter(of_element(element@)),
    {
        Ok(self.filtered(element, true))
    }

    /// The species of the given evolution stage, in catalog order.
    pub fn species_by_stage(&self, evo_stage: &str) -> (r: Result<Vec<PetSpecies>, BestiaryError>)
        ensures
            r matches Ok(v) && species_views(v@) == self@.filter(of_stage(evo_stage@)),
    {
        Ok(self.filtered(evo_stage, false))
    }

    /// A copy of the last species named `name`; an error naming it when there
    /// is none.
    pub fn species_by_name(&self, name: &str) -> (r: Result<PetSpecies, BestiaryError>)
        ensures
            answered(
                self@,
                name@,
                last_where(self@, has_name(name@)),
                r,
                |p: PetSpeciesView, x: PetSpecies| x@ == p,
            ),
    {
        match self.repository.species_by_name(name) {
            Some(p) => Ok(p.duplicate()),
            None => Err(BestiaryError::MissingSpecies(String::from_str(name))),
        }
    }

    /// The learnset of the species with the id `species_id`.
    pub fn legal_moves_for_species(&self, species_id: &str) -> (r: Result<Vec<Move>, BestiaryError>)
        ensures
            answered(
                self@,
                species_id@,
                last_where(self@, has_id(species_id@)),
                r,
                |p: PetSpeciesView, x: Vec<Move>| x@ == p.learnset,
            ),
    {
        match self.repository.species_by_id(species_id) {
            Some(p) => Ok(copy_moves(&p.learnset)),
            None => Err(BestiaryError::MissingSpecies(String::from_str(species_id))),
        }
    }

    /// The evolutions of the species with the id `species_id`.
    pub fn evolution_chain_for_species(&self, species_id: &str) -> (r: Result<
        Vec<Evolution>,
        BestiaryError,
    >)
        ensures
            answered(
                self@,
                species_id@,
                last_where(self@, has_id(species_id@)),
                r,
                |p: PetSpeciesView, x: Vec<Evolution>| x@ == p.evolutions,
            ),
    {
        match self.repository.species_by_id(species_id) {
            Some(p) => Ok(copy_evolutions(&p.evolutions)),
            None => Err(BestiaryError::MissingSpecies(String::from_str(species_id))),
        }
    }

    /// The icon path of the species with the id `species_id`, if it has one.
    pub fn icon_path_for_species(&self, species_id: &str) -> (r: Result<
        Option<String>,
        BestiaryError,
    >)
        ensures
            answered(
                self@,
                species_id@,
                last_where(self@, has_id(species_id@)),
                r,
                |p: PetSpeciesView, x: Option<String>| x == p.icon_path,
            ),
    {
        match self.repository.species_by_id(species_id) {
            Some(p) => Ok(copy_text_option(&p.icon_path)),
            None => Err(BestiaryError::MissingSpecies(String::from_str(species_id))),
        }
    }
}

} // verus!
