//! The registry: every known unit, ordered by name, each name once.
use vstd::prelude::*;

use crate::name::{compare_names, lemma_name_lt_irreflexive, lemma_name_lt_transitive, name_lt, NameOrder};
use crate::m20260202_000001_add_ai_rename_parent_dir as add_ai_rename_parent_dir;
use crate::m20260203_000001_create_collection_season_mapping as create_collection_season_mapping;
use crate::m20260220_000001_add_page_play_stream_cache as add_page_play_stream_cache;
use crate::m20260222_000001_create_image_proxy_cache as create_image_proxy_cache;
use crate::m20260222_000002_add_video_submission_membership_state as add_video_submission_membership_state;
use crate::m20260225_000001_add_download_nfo as add_download_nfo;
use crate::unit::{all_additive, all_well_authored, mirrors, sorted_by_name, MigrationError, MigrationUnit};

verus! {

/// Every known unit, in ascending name order, each name once.
#[derive(Debug)]
pub struct Registry {
    units: Vec<MigrationUnit>,
}

/// No two units of `units` share a name.
pub open spec fn names_distinct(units: Seq<MigrationUnit>) -> bool {
    forall|i: int, j: int| 0 <= i < units.len() && 0 <= j < units.len() && i != j ==> #[trigger] units[i].name@ != #[trigger] units[j].name@
}

impl Registry {
    /// The units, in order.
    pub closed spec fn view(&self) -> Seq<MigrationUnit> {
        self.units@
    }

    #[verifier::type_invariant]
    spec fn inv(&self) -> bool {
        sorted_by_name(self.units@)
    }

    /// Collects `units` in ascending name order. Fails, before any database
    /// is touched, where two of them share a name.
    pub fn new(units: Vec<MigrationUnit>) -> (r: Result<Registry, MigrationError>)
        ensures
            r is Ok <==> names_distinct(units@),
            r matches Ok(reg) ==> {
                &&& sorted_by_name(reg@)
                &&& reg@.len() == units@.len()
                &&& forall|k: int| 0 <= k < units@.len() ==> reg@.contains(#[trigger] units@[k])
            },
            r matches Err(e) ==> e matches MigrationError::DuplicateMigrationName { name } && exists|i: int, j: int|
                0 <= i < units@.len() && 0 <= j < units@.len() && i != j && #[trigger] units@[i].name@ == name@
                    && #[trigger] units@[j].name@ == name@,
    {
        let ghost orig = units@;
        let mut rest = units;
        let mut out: Vec<MigrationUnit> = Vec::new();
        while rest.len() > 0
            invariant
                orig == units@,
                rest@ == orig.subrange(0, rest@.len() as int),
                out@.len() + rest@.len() == orig.len(),
                sorted_by_name(out@),
                forall|k: int| rest@.len() <= k < orig.len() ==> out@.contains(#[trigger] orig[k]),
                forall|j: int| 0 <= j < out@.len() ==> exists|k: int| rest@.len() <= k < orig.len() && #[trigger] orig[k] == #[trigger] out@[j],
                forall|i: int, j: int| rest@.len() <= i < orig.len() && rest@.len() <= j < orig.len() && i != j ==> #[trigger] orig[i].name@ != #[trigger] orig[j].name@,
            decreases rest@.len(),
        {
            let ghost ku = rest@.len() - 1;
            assert forall|j: int| 0 <= j < out@.len() implies exists|k: int| ku + 1 <= k < orig.len() && #[trigger] orig[k] == #[trigger] out@[j] by {
                let k = choose|k: int| rest@.len() <= k < orig.len() && #[trigger] orig[k] == #[trigger] out@[j];
                assert(ku + 1 <= k < orig.len() && orig[k] == out@[j]);
            }
            let u = rest.pop().unwrap();
            assert(orig[ku] == u);
            let mut p: usize = 0;
            let mut dup = false;
            while p < out.len()
                invariant_except_break
                    !dup,
                invariant
                    p <= out@.len(),
                    forall|j: int| 0 <= j < p ==> name_lt(#[trigger] out@[j].name@, u.name@),
                ensures
                    p <= out@.len(),
                    dup ==> p < out@.len() && out@[p as int].name@ == u.name@,
                    !dup ==> forall|j: int| 0 <= j < p ==> name_lt(#[trigger] out@[j].name@, u.name@),
                    !dup ==> (p < out@.len() ==> name_lt(u.name@, out@[p as int].name@)),
                decreases out.len() - p,
            {
                match compare_names(out[p].name.as_str(), u.name.as_str()) {
                    NameOrder::Less => {},
                    NameOrder::Equal => {
                        dup = true;
                        break;
                    },
                    NameOrder::Greater => {
                        break;
                    },
                }
                p = p + 1;
            }
            if dup {
                let name = u.name.clone();
                proof {
                    let k = choose|k: int| ku + 1 <= k < orig.len() && #[trigger] orig[k] == #[trigger] out@[p as int];
                    assert(orig[k].name@ == name@ && orig[ku].name@ == name@);
                    assert(!names_distinct(orig));
                }
                return Err(MigrationError::DuplicateMigrationName { name });
            }
            let ghost before = out@;
            proof {
                assert forall|j: int| p <= j < before.len() implies name_lt(u.name@, #[trigger] before[j].name@) by {
                    if j > p {
                        lemma_name_lt_transitive(u.name@, before[p as int].name@, before[j].name@);
                    }
                }
                assert forall|k: int| ku < k < orig.len() implies #[trigger] orig[k].name@ != u.name@ by {
                    let j = choose|j: int| 0 <= j < before.len() && before[j] == orig[k];
                    if j < p {
                        lemma_name_lt_irreflexive(u.name@);
                    } else {
                        lemma_name_lt_irreflexive(u.name@);
                    }
                }
            }
            out.insert(p, u);
            proof {
                assert forall|k: int| ku <= k < orig.len() implies out@.contains(#[trigger] orig[k]) by {
                    if k == ku {
                        assert(out@[p as int] == orig[k]);
                    } else {
                        let j = choose|j: int| 0 <= j < before.len() && before[j] == orig[k];
                        if j < p {
                            assert(out@[j] == orig[k]);
                        } else {
                            assert(out@[j + 1] == orig[k]);
                        }
                    }
                }
                assert forall|j: int| 0 <= j < out@.len() implies exists|k: int| ku <= k < orig.len() && #[trigger] orig[k] == #[trigger] out@[j] by {
                    if j == p {
                        assert(orig[ku] == out@[j]);
                    } else if j < p {
                        assert(out@[j] == before[j]);
                    } else {
                        assert(out@[j] == before[j - 1]);
                    }
                }
            }
        }
        proof {
            assert(rest@.len() == 0);
        }
        Ok(Registry { units: out })
    }

    /// The units in ascending name order.
    pub fn ordered_units(&self) -> (r: &Vec<MigrationUnit>)
        ensures
            r@ == self@,
            sorted_by_name(r@),
    {
        proof {
            use_type_invariant(self);
        }
        &self.units
    }
}

/// Every unit of this project, in the order they were written. Each only
/// adds on apply and is undone step by step on revert.
pub fn registered_units() -> (r: Vec<MigrationUnit>)
    ensures
        r@.len() == 6,
        r@[0].name@ == "m20260202_000001_add_ai_rename_parent_dir"@,
        r@[1].name@ == "m20260203_000001_create_collection_season_mapping"@,
        r@[2].name@ == "m20260220_000001_add_page_play_stream_cache"@,
        r@[3].name@ == "m20260222_000001_create_image_proxy_cache"@,
        r@[4].name@ == "m20260222_000002_add_video_submission_membership_state"@,
        r@[5].name@ == "m20260225_000001_add_download_nfo"@,
        forall|i: int| 0 <= i < r@.len() ==> all_additive(#[trigger] r@[i].apply@)
            && all_well_authored(r@[i].apply@) && mirrors(r@[i].apply@, r@[i].revert@),
{
    let mut r: Vec<MigrationUnit> = Vec::new();
    r.push(add_ai_rename_parent_dir::Migration.unit());
    r.push(create_collection_season_mapping::Migration.unit());
    r.push(add_page_play_stream_cache::Migration.unit());
    r.push(create_image_proxy_cache::Migration.unit());
    r.push(add_video_submission_membership_state::Migration.unit());
    r.push(add_download_nfo::Migration.unit());
    r
}

} // verus!
