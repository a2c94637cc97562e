//! What is kept in the data directory.

use crate::ident::id_text;
use crate::json::text_eq;
use crate::models::Pet;
use crate::paths::{spec_join, AppPaths};
use crate::script::{script_ids, texts, BehaviorScript};
use vstd::prelude::*;

verus! {

/// Access to the files below the application's directories.
pub struct StorageService {
    paths: AppPaths,
}

/// Those of `all`, in their order, that are not among `existing`.
pub open spec fn missing(all: Seq<Seq<char>>, existing: Seq<Seq<char>>) -> Seq<Seq<char>>
    decreases all.len(),
{
    if all.len() == 0 {
        Seq::empty()
    } else if existing.contains(all.last()) {
        missing(all.drop_last(), existing)
    } else {
        missing(all.drop_last(), existing).push(all.last())
    }
}

/// Whether `id` is among `existing`.
pub fn is_among(id: &str, existing: &Vec<String>) -> (r: bool)
    ensures
        r == texts(existing@).contains(id@),
{
    let mut i: usize = 0;
    while i < existing.len()
        invariant
            i <= existing.len(),
            forall|j: int| 0 <= j < i ==> texts(existing@)[j] != id@,
        decreases existing.len() - i,
    {
        if text_eq(existing[i].as_str(), id) {
            assert(texts(existing@)[i as int] == id@);
            return true;
        }
        i += 1;
    }
    false
}

impl StorageService {
    pub closed spec fn spec_paths(&self) -> AppPaths {
        self.paths
    }

    #[must_use]
    pub fn new(paths: AppPaths) -> (r: Self)
        ensures
            r.spec_paths() == paths,
    {
        StorageService { paths }
    }

    #[must_use]
    pub fn paths(&self) -> (r: &AppPaths)
        ensures
            *r == self.spec_paths(),
    {
        &self.paths
    }

    /// The files that go with a pet, which are to be removed with it: its
    /// model, then its thumbnail.
    pub fn delete_pet_data(&self, pet: &Pet) -> (r: Vec<String>)
        ensures
            r@.len() == 2,
            r@[0]@ == spec_join(
                spec_join(self.spec_paths().spec_data_dir(), "models"@),
                id_text(pet.id) + ".glb"@,
            ),
            r@[1]@ == spec_join(
                spec_join(self.spec_paths().spec_data_dir(), "models"@),
                id_text(pet.id) + ".png"@,
            ),
    {
        let mut files: Vec<String> = Vec::new();
        files.push(self.paths.model_path(pet.id));
        files.push(self.paths.thumbnail_path(pet.id));
        files
    }

    /// The built-in scripts that have to be written: those whose id is not
    /// among the ids of the script files that exist.
    pub fn init_builtin_scripts(&self, existing: &Vec<String>) -> (r: Vec<BehaviorScript>)
        ensures
            script_ids(r@) == missing(
                seq!["idle"@, "walk"@, "happy"@, "sleep"@],
                texts(existing@),
            ),
    {
        let all: Vec<BehaviorScript> = BehaviorScript::builtin_scripts();
        let ghost ids = script_ids(all@);
        let mut out: Vec<BehaviorScript> = Vec::new();
        let mut rest: Vec<BehaviorScript> = all;
        let mut kept: Vec<BehaviorScript> = Vec::new();
        proof {
            assert(ids.take(rest@.len() as int) =~= ids);
            assert(script_ids(kept@).reverse() =~= Seq::<Seq<char>>::empty());
            assert(missing(ids, texts(existing@)) + Seq::<Seq<char>>::empty() =~= missing(
                ids,
                texts(existing@),
            ));
        }
        // Scripts are taken from the end, so `kept` holds them in reverse.
        while rest.len() > 0
            invariant
                rest@.len() <= ids.len(),
                script_ids(rest@) == ids.take(rest@.len() as int),
                missing(ids, texts(existing@)) == missing(
                    ids.take(rest@.len() as int),
                    texts(existing@),
                ) + script_ids(kept@).reverse(),
            decreases rest.len(),
        {
            let ghost before = rest@;
            let ghost n = rest@.len() as int;
            let script = rest.pop().unwrap();
            proof {
                assert(script.id@ == script_ids(before)[n - 1]);
                assert(ids.take(n).drop_last() =~= ids.take(n - 1));
                assert(ids.take(n).last() == script.id@);
                assert(script_ids(rest@) =~= ids.take(n - 1));
            }
            if !is_among(script.id.as_str(), existing) {
                proof {
                    let k = script_ids(kept@);
                    assert(script_ids(kept@.push(script)) =~= k.push(script.id@));
                    assert(k.push(script.id@).reverse() =~= seq![script.id@] + k.reverse());
                    assert(missing(ids.take(n - 1), texts(existing@)).push(script.id@) + k.reverse()
                        =~= missing(ids.take(n - 1), texts(existing@)) + (seq![script.id@]
                        + k.reverse()));
                }
                kept.push(script);
            }
        }
        proof {
            assert(ids.take(0) =~= Seq::<Seq<char>>::empty());
            assert(missing(ids, texts(existing@)) =~= script_ids(kept@).reverse());
        }
        while kept.len() > 0
            invariant
                missing(ids, texts(existing@)) == script_ids(out@) + script_ids(kept@).reverse(),
            decreases kept.len(),
        {
            let ghost k = script_ids(kept@);
            let script = kept.pop().unwrap();
            proof {
                assert(script_ids(kept@) =~= k.drop_last());
                assert(k.reverse() =~= seq![script.id@] + k.drop_last().reverse());
                assert(script_ids(out@.push(script)) =~= script_ids(out@).push(script.id@));
                assert(script_ids(out@).push(script.id@) + k.drop_last().reverse() =~= script_ids(
                    out@,
                ) + (seq![script.id@] + k.drop_last().reverse()));
            }
            out.push(script);
        }
        proof {
            assert(script_ids(kept@).reverse() =~= Seq::<Seq<char>>::empty());
            assert(script_ids(out@) + Seq::<Seq<char>>::empty() =~= script_ids(out@));
        }
        out
    }
}

} // verus!
