//! Cube auto-detection: resolving an unnamed cube from the partial
//! fields of a raw option set.
//!
//! Each requested drilldown is parsed as a full level path and each cut
//! as a level path with its trailing member segment dropped; malformed
//! entries are skipped rather than rejecting the request. Cubes are
//! scanned in schema declaration order and the first whose level-name
//! set covers all parsed drilldowns and cuts wins. Requested measures
//! are deliberately not part of the acceptance check: in this engine a
//! missing measure never rejects a candidate cube. That asymmetry is a
//! documented quirk of the selection rule, likely surprising, and is
//! stated here rather than silently changed.

use vstd::prelude::*;
use vstd::string::*;

use crate::error::Error;
use crate::names::{level_name_of, valid_level_path, LevelName, LevelNameView};
use crate::query::AggregateQueryOpt;
use crate::schema::{cube_bindings, CubeV, LevelBinding, Schema};
use crate::text::{lemma_split_seq_len, split_seq, split_str};

verus! {

/// The level names an entry list yields when each entry is parsed as a
/// full level path, skipping entries that do not parse.
pub open spec fn parsed_level_names(es: Seq<Seq<char>>) -> Seq<LevelNameView>
    decreases es.len(),
{
    if es.len() == 0 {
        Seq::<LevelNameView>::empty()
    } else {
        let rest = parsed_level_names(es.drop_last());
        if valid_level_path(split_seq(es.last(), '.')) {
            rest.push(level_name_of(split_seq(es.last(), '.')))
        } else {
            rest
        }
    }
}

/// The level names an entry list yields when each entry is parsed as a
/// cut path with its trailing member segment dropped, skipping entries
/// that do not parse.
pub open spec fn parsed_cut_levels(es: Seq<Seq<char>>) -> Seq<LevelNameView>
    decreases es.len(),
{
    if es.len() == 0 {
        Seq::<LevelNameView>::empty()
    } else {
        let rest = parsed_cut_levels(es.drop_last());
        if valid_level_path(split_seq(es.last(), '.').drop_last()) {
            rest.push(level_name_of(split_seq(es.last(), '.').drop_last()))
        } else {
            rest
        }
    }
}

/// The entries of an optional list, or none.
pub open spec fn entries_of(o: Option<Seq<Seq<char>>>) -> Seq<Seq<char>> {
    match o {
        Some(es) => es,
        None => Seq::<Seq<char>>::empty(),
    }
}

/// Whether `ln` occurs among `names`.
pub open spec fn level_names_contain(names: Seq<LevelNameView>, ln: LevelNameView) -> bool {
    exists|i: int| 0 <= i < names.len() && names[i] == ln
}

/// The level names a cube supports.
pub open spec fn cube_level_name_views(c: CubeV) -> Seq<LevelNameView> {
    cube_bindings(c).map_values(|b: LevelBinding| b.name)
}

/// Whether a cube supports every requested drilldown and cut level.
pub open spec fn cube_matches(c: CubeV, drills: Seq<LevelNameView>, cuts: Seq<LevelNameView>) -> bool {
    &&& forall|i: int|
        0 <= i < drills.len() ==> level_names_contain(cube_level_name_views(c), #[trigger] drills[i])
    &&& forall|i: int|
        0 <= i < cuts.len() ==> level_names_contain(cube_level_name_views(c), #[trigger] cuts[i])
}

/// The name of the first cube, in declaration order, that matches the
/// request.
pub open spec fn detect_spec(cs: Seq<CubeV>, drills: Seq<LevelNameView>, cuts: Seq<LevelNameView>) -> Option<Seq<char>>
    decreases cs.len(),
{
    if cs.len() == 0 {
        None
    } else if cube_matches(cs[0], drills, cuts) {
        Some(cs[0].name)
    } else {
        detect_spec(cs.skip(1), drills, cuts)
    }
}

/// Detection is a function of the schema and the request alone: equal
/// inputs always select the same cube name, so repeated calls of
/// [`detect_cube`] on identical arguments agree.
pub proof fn lemma_detect_cube_deterministic(
    cs1: Seq<CubeV>,
    cs2: Seq<CubeV>,
    drills1: Seq<LevelNameView>,
    drills2: Seq<LevelNameView>,
    cuts1: Seq<LevelNameView>,
    cuts2: Seq<LevelNameView>,
)
    requires
        cs1 == cs2,
        drills1 == drills2,
        cuts1 == cuts2,
    ensures
        detect_spec(cs1, drills1, cuts1) == detect_spec(cs2, drills2, cuts2),
{
}

/// Whether every wanted name occurs among `names`.
#[verifier::loop_isolation(false)]
fn contains_all(names: &Vec<LevelName>, wanted: &Vec<LevelName>) -> (r: bool)
    ensures
        r == forall|i: int|
            0 <= i < wanted@.len() ==> level_names_contain(
                names@.map_values(|l: LevelName| l@),
                #[trigger] wanted@[i]@,
            ),
{
    let ghost ns = names@.map_values(|l: LevelName| l@);
    let mut i: usize = 0;
    while i < wanted.len()
        invariant
            i <= wanted.len(),
            ns == names@.map_values(|l: LevelName| l@),
            forall|k: int| 0 <= k < i ==> level_names_contain(ns, #[trigger] wanted@[k]@),
        decreases wanted.len() - i,
    {
        let mut found = false;
        let mut j: usize = 0;
        while j < names.len()
            invariant
                j <= names.len(),
                !found,
                forall|k: int| 0 <= k < j ==> #[trigger] ns[k] != wanted@[i as int]@,
            decreases names.len() - j,
        {
            if names[j].matches(&wanted[i]) {
                found = true;
                proof {
                    assert(ns[j as int] == names@[j as int]@);
                    assert(level_names_contain(ns, wanted@[i as int]@));
                }
                break ;
            }
            proof {
                assert(ns[j as int] == names@[j as int]@);
            }
            j += 1;
        }
        if !found {
            proof {
                assert(!level_names_contain(ns, wanted@[i as int]@));
            }
            return false;
        }
        i += 1;
    }
    true
}

/// Detects which cube to use from the drilldowns and cuts of a raw
/// option set: the first cube, in schema declaration order, supporting
/// them all. Requested measures never reject a candidate cube.
#[verifier::loop_isolation(false)]
pub fn detect_cube(schema: &Schema, agg_query: &AggregateQueryOpt) -> (r: Result<String, Error>)
    ensures
        ({
            let found = detect_spec(
                schema@.cubes,
                parsed_level_names(entries_of(agg_query@.drilldowns)),
                parsed_cut_levels(entries_of(agg_query@.cuts)),
            );
            &&& r is Ok <==> found is Some
            &&& (r matches Ok(name) ==> name@ == found->0)
            &&& (r matches Err(e) ==> e is Validation && e.spec_message()
                == "No cubes found with the requested drilldowns/cuts/measures."@)
        }),
{
    let ghost des = entries_of(agg_query@.drilldowns);
    let ghost ces = entries_of(agg_query@.cuts);

    let drills: Vec<LevelName> = match &agg_query.drilldowns {
        Some(ds) => {
            let mut acc: Vec<LevelName> = Vec::new();
            let mut i: usize = 0;
            while i < ds.len()
                invariant
                    i <= ds.len(),
                    acc@.map_values(|l: LevelName| l@) == parsed_level_names(
                        ds.deep_view().take(i as int),
                    ),
                decreases ds.len() - i,
            {
                let ghost prev = acc@.map_values(|l: LevelName| l@);
                proof {
                    assert(ds.deep_view().take(i + 1).drop_last() =~= ds.deep_view().take(i as int));
                    assert(ds.deep_view().take(i + 1).last() == ds@[i as int]@);
                }
                match LevelName::parse(ds[i].as_str()) {
                    Ok(ln) => {
                        acc.push(ln);
                        proof {
                            assert(acc@.map_values(|l: LevelName| l@) =~~= prev.push(
                                level_name_of(split_seq(ds@[i as int]@, '.')),
                            ));
                        }
                    },
                    Err(_) => {},
                }
                i += 1;
            }
            proof {
                assert(ds.deep_view().take(ds@.len() as int) =~= ds.deep_view());
            }
            acc
        },
        None => Vec::new(),
    };
    proof {
        assert(drills@.map_values(|l: LevelName| l@) =~~= parsed_level_names(des));
    }

    let cuts: Vec<LevelName> = match &agg_query.cuts {
        Some(cs) => {
            let mut acc: Vec<LevelName> = Vec::new();
            let mut i: usize = 0;
            while i < cs.len()
                invariant
                    i <= cs.len(),
                    acc@.map_values(|l: LevelName| l@) == parsed_cut_levels(
                        cs.deep_view().take(i as int),
                    ),
                decreases cs.len() - i,
            {
                let ghost prev = acc@.map_values(|l: LevelName| l@);
                proof {
                    assert(cs.deep_view().take(i + 1).drop_last() =~= cs.deep_view().take(i as int));
                    assert(cs.deep_view().take(i + 1).last() == cs@[i as int]@);
                }
                let mut parts = split_str(cs[i].as_str(), '.');
                proof {
                    lemma_split_seq_len(cs@[i as int]@, '.');
                }
                parts.pop();
                proof {
                    assert(parts.deep_view() =~~= split_seq(cs@[i as int]@, '.').drop_last());
                }
                match LevelName::from_vec(&parts) {
                    Ok(ln) => {
                        acc.push(ln);
                        proof {
                            assert(acc@.map_values(|l: LevelName| l@) =~~= prev.push(
                                level_name_of(split_seq(cs@[i as int]@, '.').drop_last()),
                            ));
                        }
                    },
                    Err(_) => {},
                }
                i += 1;
            }
            proof {
                assert(cs.deep_view().take(cs@.len() as int) =~= cs.deep_view());
            }
            acc
        },
        None => Vec::new(),
    };
    proof {
        assert(cuts@.map_values(|l: LevelName| l@) =~~= parsed_cut_levels(ces));
    }

    let ghost dls = drills@.map_values(|l: LevelName| l@);
    let ghost cls = cuts@.map_values(|l: LevelName| l@);
    let ghost cubes_v = schema@.cubes;

    let mut i: usize = 0;
    proof {
        assert(cubes_v.skip(0) =~= cubes_v);
    }
    while i < schema.cubes.len()
        invariant
            i <= schema.cubes.len(),
            detect_spec(cubes_v, dls, cls) == detect_spec(cubes_v.skip(i as int), dls, cls),
        decreases schema.cubes.len() - i,
    {
        proof {
            assert(cubes_v.skip(i as int)[0] == cubes_v[i as int]);
        }
        let level_names = schema.cubes[i].get_all_level_names();
        let drills_ok = contains_all(&level_names, &drills);
        let cuts_ok = contains_all(&level_names, &cuts);
        proof {
            assert(level_names@.map_values(|l: LevelName| l@) == cube_level_name_views(
                cubes_v[i as int],
            ));
            assert(forall|k: int| 0 <= k < drills@.len() ==> #[trigger] dls[k] == drills@[k]@);
            assert(forall|k: int| 0 <= k < cuts@.len() ==> #[trigger] cls[k] == cuts@[k]@);
        }
        if drills_ok && cuts_ok {
            proof {
                assert(cube_matches(cubes_v[i as int], dls, cls));
                assert(detect_spec(cubes_v.skip(i as int), dls, cls) == Some(
                    cubes_v[i as int].name,
                ));
            }
            return Ok(schema.cubes[i].name.clone());
        }
        proof {
            if cube_matches(cubes_v[i as int], dls, cls) {
                assert forall|k: int| 0 <= k < drills@.len() implies level_names_contain(
                    cube_level_name_views(cubes_v[i as int]),
                    #[trigger] drills@[k]@,
                ) by {
                    assert(dls[k] == drills@[k]@);
                }
                assert forall|k: int| 0 <= k < cuts@.len() implies level_names_contain(
                    cube_level_name_views(cubes_v[i as int]),
                    #[trigger] cuts@[k]@,
                ) by {
                    assert(cls[k] == cuts@[k]@);
                }
                assert(drills_ok && cuts_ok);
            }
            assert(!cube_matches(cubes_v[i as int], dls, cls));
            assert(cubes_v.skip(i as int).skip(1) =~= cubes_v.skip(i + 1));
        }
        i += 1;
    }
    proof {
        assert(cubes_v.skip(schema.cubes@.len() as int) =~= Seq::<CubeV>::empty());
    }
    Err(Error::Validation(
        String::from_str("No cubes found with the requested drilldowns/cuts/measures."),
    ))
}

} // verus!
