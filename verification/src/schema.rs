//! The schema metadata model and identifier resolution.
//!
//! A schema owns an ordered sequence of cubes; each cube binds a fact
//! table, an ordered tree of dimensions, hierarchies and levels, and an
//! ordered list of measures. Lookups are first-match-wins: cube names
//! are expected unique, but duplicates resolve to the first declaration
//! rather than failing.

use vstd::prelude::*;
use vstd::string::*;

use crate::dataframe::DataFrame;
use crate::error::Error;
use crate::names::{level_path_text, Cut, CutView, Drilldown, LevelName, LevelNameView, Measure};
use crate::query::{Query, QueryView};
use crate::sql::{
    clickhouse_sql,
    projection,
    spec_clickhouse_sql,
    CutSql,
    CutSqlView,
    DrilldownSql,
    MeasureSql,
    MeasureSqlView,
};

verus! {

/// The supported backend dialects.
pub enum Database {
    Clickhouse,
}

/// A level: the leaf of the classification tree, bound to its key
/// column on the fact table.
pub struct Level {
    pub name: String,
    pub key_column: String,
}

/// The abstract value of a [`Level`].
#[verifier::ext_equal]
pub ghost struct LevelV {
    pub name: Seq<char>,
    pub key_column: Seq<char>,
}

impl View for Level {
    type V = LevelV;

    open spec fn view(&self) -> LevelV {
        LevelV { name: self.name@, key_column: self.key_column@ }
    }
}

impl Clone for Level {
    fn clone(&self) -> (r: Level)
        ensures
            r@ == self@,
    {
        Level { name: self.name.clone(), key_column: self.key_column.clone() }
    }
}

/// A hierarchy: an ordered list of levels.
pub struct Hierarchy {
    pub name: String,
    pub levels: Vec<Level>,
}

/// The abstract value of a [`Hierarchy`].
#[verifier::ext_equal]
pub ghost struct HierarchyV {
    pub name: Seq<char>,
    pub levels: Seq<LevelV>,
}

impl View for Hierarchy {
    type V = HierarchyV;

    open spec fn view(&self) -> HierarchyV {
        HierarchyV { name: self.name@, levels: self.levels@.map_values(|l: Level| l@) }
    }
}

impl Clone for Hierarchy {
    #[verifier::loop_isolation(false)]
    fn clone(&self) -> (r: Hierarchy)
        ensures
            r@ == self@,
    {
        let mut levels: Vec<Level> = Vec::new();
        let mut i: usize = 0;
        while i < self.levels.len()
            invariant
                i <= self.levels.len(),
                levels@.map_values(|l: Level| l@) == self.levels@.map_values(
                    |l: Level| l@,
                ).take(i as int),
            decreases self.levels.len() - i,
        {
            let ghost prev = levels@.map_values(|l: Level| l@);
            levels.push(self.levels[i].clone());
            proof {
                assert(levels@.map_values(|l: Level| l@) =~~= prev.push(self.levels@[i as int]@));
                assert(self.levels@.map_values(|l: Level| l@).take(i + 1) =~~= self.levels@
                    .map_values(|l: Level| l@).take(i as int).push(self.levels@[i as int]@));
            }
            i += 1;
        }
        let r = Hierarchy { name: self.name.clone(), levels };
        proof {
            assert(self.levels@.map_values(|l: Level| l@).take(self.levels@.len() as int)
                =~~= self.levels@.map_values(|l: Level| l@));
            assert(r@ =~~= self@);
        }
        r
    }
}

/// A dimension: an ordered list of hierarchies.
pub struct Dimension {
    pub name: String,
    pub hierarchies: Vec<Hierarchy>,
}

/// The abstract value of a [`Dimension`].
#[verifier::ext_equal]
pub ghost struct DimensionV {
    pub name: Seq<char>,
    pub hierarchies: Seq<HierarchyV>,
}

impl View for Dimension {
    type V = DimensionV;

    open spec fn view(&self) -> DimensionV {
        DimensionV {
            name: self.name@,
            hierarchies: self.hierarchies@.map_values(|h: Hierarchy| h@),
        }
    }
}

impl Clone for Dimension {
    #[verifier::loop_isolation(false)]
    fn clone(&self) -> (r: Dimension)
        ensures
            r@ == self@,
    {
        let mut hierarchies: Vec<Hierarchy> = Vec::new();
        let mut i: usize = 0;
        while i < self.hierarchies.len()
            invariant
                i <= self.hierarchies.len(),
                hierarchies@.map_values(|h: Hierarchy| h@) == self.hierarchies@.map_values(
                    |h: Hierarchy| h@,
                ).take(i as int),
            decreases self.hierarchies.len() - i,
        {
            let ghost prev = hierarchies@.map_values(|h: Hierarchy| h@);
            hierarchies.push(self.hierarchies[i].clone());
            proof {
                assert(hierarchies@.map_values(|h: Hierarchy| h@) =~~= prev.push(
                    self.hierarchies@[i as int]@,
                ));
                assert(self.hierarchies@.map_values(|h: Hierarchy| h@).take(i + 1)
                    =~~= self.hierarchies@.map_values(|h: Hierarchy| h@).take(i as int).push(
                    self.hierarchies@[i as int]@,
                ));
            }
            i += 1;
        }
        let r = Dimension { name: self.name.clone(), hierarchies };
        proof {
            assert(self.hierarchies@.map_values(|h: Hierarchy| h@).take(
                self.hierarchies@.len() as int,
            ) =~~= self.hierarchies@.map_values(|h: Hierarchy| h@));
            assert(r@ =~~= self@);
        }
        r
    }
}

/// A measure declared by a cube: its aggregation function and column.
pub struct CubeMeasure {
    pub name: String,
    pub column: String,
    pub aggregator: String,
}

/// The abstract value of a [`CubeMeasure`].
#[verifier::ext_equal]
pub ghost struct CubeMeasureV {
    pub name: Seq<char>,
    pub column: Seq<char>,
    pub aggregator: Seq<char>,
}

impl View for CubeMeasure {
    type V = CubeMeasureV;

    open spec fn view(&self) -> CubeMeasureV {
        CubeMeasureV { name: self.name@, column: self.column@, aggregator: self.aggregator@ }
    }
}

impl Clone for CubeMeasure {
    fn clone(&self) -> (r: CubeMeasure)
        ensures
            r@ == self@,
    {
        CubeMeasure {
            name: self.name.clone(),
            column: self.column.clone(),
            aggregator: self.aggregator.clone(),
        }
    }
}

/// A cube: one queryable unit, immutable after load.
pub struct Cube {
    pub name: String,
    pub table: String,
    pub dimensions: Vec<Dimension>,
    pub measures: Vec<CubeMeasure>,
    pub min_auth_level: u64,
}

/// The abstract value of a [`Cube`].
#[verifier::ext_equal]
pub ghost struct CubeV {
    pub name: Seq<char>,
    pub table: Seq<char>,
    pub dimensions: Seq<DimensionV>,
    pub measures: Seq<CubeMeasureV>,
    pub min_auth_level: u64,
}

impl View for Cube {
    type V = CubeV;

    open spec fn view(&self) -> CubeV {
        CubeV {
            name: self.name@,
            table: self.table@,
            dimensions: self.dimensions@.map_values(|d: Dimension| d@),
            measures: self.measures@.map_values(|m: CubeMeasure| m@),
            min_auth_level: self.min_auth_level,
        }
    }
}

impl Clone for Cube {
    #[verifier::loop_isolation(false)]
    fn clone(&self) -> (r: Cube)
        ensures
            r@ == self@,
    {
        let mut dimensions: Vec<Dimension> = Vec::new();
        let mut i: usize = 0;
        while i < self.dimensions.len()
            invariant
                i <= self.dimensions.len(),
                dimensions@.map_values(|d: Dimension| d@) == self.dimensions@.map_values(
                    |d: Dimension| d@,
                ).take(i as int),
            decreases self.dimensions.len() - i,
        {
            let ghost prev = dimensions@.map_values(|d: Dimension| d@);
            dimensions.push(self.dimensions[i].clone());
            proof {
                assert(dimensions@.map_values(|d: Dimension| d@) =~~= prev.push(
                    self.dimensions@[i as int]@,
                ));
                assert(self.dimensions@.map_values(|d: Dimension| d@).take(i + 1)
                    =~~= self.dimensions@.map_values(|d: Dimension| d@).take(i as int).push(
                    self.dimensions@[i as int]@,
                ));
            }
            i += 1;
        }
        let mut measures: Vec<CubeMeasure> = Vec::new();
        let mut j: usize = 0;
        while j < self.measures.len()
            invariant
                j <= self.measures.len(),
                measures@.map_values(|m: CubeMeasure| m@) == self.measures@.map_values(
                    |m: CubeMeasure| m@,
                ).take(j as int),
            decreases self.measures.len() - j,
        {
            let ghost prev = measures@.map_values(|m: CubeMeasure| m@);
            measures.push(self.measures[j].clone());
            proof {
                assert(measures@.map_values(|m: CubeMeasure| m@) =~~= prev.push(
                    self.measures@[j as int]@,
                ));
                assert(self.measures@.map_values(|m: CubeMeasure| m@).take(j + 1)
                    =~~= self.measures@.map_values(|m: CubeMeasure| m@).take(j as int).push(
                    self.measures@[j as int]@,
                ));
            }
            j += 1;
        }
        let r = Cube {
            name: self.name.clone(),
            table: self.table.clone(),
            dimensions,
            measures,
            min_auth_level: self.min_auth_level,
        };
        proof {
            assert(self.dimensions@.map_values(|d: Dimension| d@).take(
                self.dimensions@.len() as int,
            ) =~~= self.dimensions@.map_values(|d: Dimension| d@));
            assert(self.measures@.map_values(|m: CubeMeasure| m@).take(self.measures@.len() as int)
                =~~= self.measures@.map_values(|m: CubeMeasure| m@));
            assert(r@ =~~= self@);
        }
        r
    }
}

/// The in-memory, read-mostly schema: an ordered sequence of cubes.
pub struct Schema {
    pub cubes: Vec<Cube>,
}

/// The abstract value of a [`Schema`].
#[verifier::ext_equal]
pub ghost struct SchemaV {
    pub cubes: Seq<CubeV>,
}

impl View for Schema {
    type V = SchemaV;

    open spec fn view(&self) -> SchemaV {
        SchemaV { cubes: self.cubes@.map_values(|c: Cube| c@) }
    }
}

/// A level of a cube together with its key column: the target of
/// identifier resolution.
#[verifier::ext_equal]
pub ghost struct LevelBinding {
    pub name: LevelNameView,
    pub key_column: Seq<char>,
}

/// The binding of one level within a named dimension and hierarchy.
pub open spec fn binding_of(dname: Seq<char>, hname: Seq<char>, l: LevelV) -> LevelBinding {
    LevelBinding {
        name: LevelNameView { dimension: dname, hierarchy: hname, level: l.name },
        key_column: l.key_column,
    }
}

/// The bindings of a list of levels, in order.
pub open spec fn bindings_of_levels(dname: Seq<char>, hname: Seq<char>, ls: Seq<LevelV>) -> Seq<
    LevelBinding,
>
    decreases ls.len(),
{
    if ls.len() == 0 {
        Seq::<LevelBinding>::empty()
    } else {
        bindings_of_levels(dname, hname, ls.drop_last()).push(binding_of(dname, hname, ls.last()))
    }
}

/// The bindings of a list of hierarchies, in order.
pub open spec fn bindings_of_hierarchies(dname: Seq<char>, hs: Seq<HierarchyV>) -> Seq<LevelBinding>
    decreases hs.len(),
{
    if hs.len() == 0 {
        Seq::<LevelBinding>::empty()
    } else {
        bindings_of_hierarchies(dname, hs.drop_last()) + bindings_of_levels(
            dname,
            hs.last().name,
            hs.last().levels,
        )
    }
}

/// The bindings of a list of dimensions, in order.
pub open spec fn bindings_of_dimensions(ds: Seq<DimensionV>) -> Seq<LevelBinding>
    decreases ds.len(),
{
    if ds.len() == 0 {
        Seq::<LevelBinding>::empty()
    } else {
        bindings_of_dimensions(ds.drop_last()) + bindings_of_hierarchies(
            ds.last().name,
            ds.last().hierarchies,
        )
    }
}

/// Every level a cube declares, flattened in declaration order and
/// bound to its key column.
pub open spec fn cube_bindings(c: CubeV) -> Seq<LevelBinding> {
    bindings_of_dimensions(c.dimensions)
}

/// The first binding whose level name equals `ln`, scanning front to
/// back.
pub open spec fn find_binding(bs: Seq<LevelBinding>, ln: LevelNameView) -> Option<LevelBinding>
    decreases bs.len(),
{
    if bs.len() == 0 {
        None
    } else if bs[0].name == ln {
        Some(bs[0])
    } else {
        find_binding(bs.skip(1), ln)
    }
}

/// The first measure of `ms` named `name`, scanning front to back.
pub open spec fn find_measure(ms: Seq<CubeMeasureV>, name: Seq<char>) -> Option<CubeMeasureV>
    decreases ms.len(),
{
    if ms.len() == 0 {
        None
    } else if ms[0].name == name {
        Some(ms[0])
    } else {
        find_measure(ms.skip(1), name)
    }
}

/// The first cube of `cs` named `name`, scanning front to back.
pub open spec fn find_cube(cs: Seq<CubeV>, name: Seq<char>) -> Option<CubeV>
    decreases cs.len(),
{
    if cs.len() == 0 {
        None
    } else if cs[0].name == name {
        Some(cs[0])
    } else {
        find_cube(cs.skip(1), name)
    }
}

impl Cube {
    /// Flattens the dimension tree into level bindings, in declaration
    /// order.
    #[verifier::loop_isolation(false)]
    pub fn level_bindings(&self) -> (r: Vec<(LevelName, String)>)
        ensures
            r@.map_values(
                |p: (LevelName, String)| LevelBinding { name: p.0@, key_column: p.1@ },
            ) == cube_bindings(self@),
    {
        let ghost to_binding = |p: (LevelName, String)|
            LevelBinding { name: p.0@, key_column: p.1@ };
        let mut acc: Vec<(LevelName, String)> = Vec::new();
        let mut i: usize = 0;
        proof {
            assert(acc@.map_values(to_binding) =~~= bindings_of_dimensions(
                self@.dimensions.take(0),
            ));
        }
        while i < self.dimensions.len()
            invariant
                i <= self.dimensions.len(),
                acc@.map_values(to_binding) == bindings_of_dimensions(self@.dimensions.take(
                    i as int,
                )),
            decreases self.dimensions.len() - i,
        {
            let dim = &self.dimensions[i];
            proof {
                assert(dim@ == self@.dimensions[i as int]);
            }
            let mut j: usize = 0;
            proof {
                assert(acc@.map_values(to_binding) =~~= bindings_of_dimensions(
                    self@.dimensions.take(i as int),
                ) + bindings_of_hierarchies(dim@.name, dim@.hierarchies.take(0)));
            }
            while j < dim.hierarchies.len()
                invariant
                    j <= dim.hierarchies.len(),
                    acc@.map_values(to_binding) == bindings_of_dimensions(self@.dimensions.take(
                        i as int,
                    )) + bindings_of_hierarchies(dim@.name, dim@.hierarchies.take(j as int)),
                decreases dim.hierarchies.len() - j,
            {
                let h = &dim.hierarchies[j];
                proof {
                    assert(h@ == dim@.hierarchies[j as int]);
                }
                let mut k: usize = 0;
                proof {
                    assert(acc@.map_values(to_binding) =~~= bindings_of_dimensions(
                        self@.dimensions.take(i as int),
                    ) + bindings_of_hierarchies(dim@.name, dim@.hierarchies.take(j as int))
                        + bindings_of_levels(dim@.name, h@.name, h@.levels.take(0)));
                }
                while k < h.levels.len()
                    invariant
                        k <= h.levels.len(),
                        acc@.map_values(to_binding) == bindings_of_dimensions(
                            self@.dimensions.take(i as int),
                        ) + bindings_of_hierarchies(dim@.name, dim@.hierarchies.take(j as int))
                            + bindings_of_levels(dim@.name, h@.name, h@.levels.take(k as int)),
                    decreases h.levels.len() - k,
                {
                    let ghost prev = acc@.map_values(to_binding);
                    let lv = &h.levels[k];
                    proof {
                        assert(lv@ == h@.levels[k as int]);
                    }
                    let ln = LevelName {
                        dimension: dim.name.clone(),
                        hierarchy: h.name.clone(),
                        level: lv.name.clone(),
                    };
                    acc.push((ln, lv.key_column.clone()));
                    proof {
                        assert(acc@.map_values(to_binding) =~~= prev.push(
                            binding_of(dim@.name, h@.name, h@.levels[k as int]),
                        ));
                        assert(h@.levels.take(k + 1).drop_last() =~= h@.levels.take(k as int));
                        assert(acc@.map_values(to_binding) =~~= bindings_of_dimensions(
                            self@.dimensions.take(i as int),
                        ) + bindings_of_hierarchies(dim@.name, dim@.hierarchies.take(j as int))
                            + bindings_of_levels(dim@.name, h@.name, h@.levels.take(k + 1)));
                    }
                    k += 1;
                }
                proof {
                    assert(h@.levels.take(h@.levels.len() as int) =~= h@.levels);
                    assert(dim@.hierarchies.take(j + 1).drop_last() =~= dim@.hierarchies.take(
                        j as int,
                    ));
                    assert(dim@.hierarchies.take(j + 1).last() == h@);
                    assert(acc@.map_values(to_binding) =~~= bindings_of_dimensions(
                        self@.dimensions.take(i as int),
                    ) + bindings_of_hierarchies(dim@.name, dim@.hierarchies.take(j + 1)));
                }
                j += 1;
            }
            proof {
                assert(dim@.hierarchies.take(dim@.hierarchies.len() as int) =~= dim@.hierarchies);
                assert(self@.dimensions.take(i + 1).drop_last() =~= self@.dimensions.take(i as int));
                assert(self@.dimensions.take(i + 1).last() == dim@);
                assert(acc@.map_values(to_binding) =~~= bindings_of_dimensions(
                    self@.dimensions.take(i + 1),
                ));
            }
            i += 1;
        }
        proof {
            assert(self@.dimensions.take(self@.dimensions.len() as int) =~= self@.dimensions);
        }
        acc
    }

    /// Every level name this cube supports, in declaration order.
    #[verifier::loop_isolation(false)]
    pub fn get_all_level_names(&self) -> (r: Vec<LevelName>)
        ensures
            r@.map_values(|l: LevelName| l@) == cube_bindings(self@).map_values(
                |b: LevelBinding| b.name,
            ),
    {
        let bindings = self.level_bindings();
        let ghost to_binding = |p: (LevelName, String)|
            LevelBinding { name: p.0@, key_column: p.1@ };
        let mut acc: Vec<LevelName> = Vec::new();
        let mut i: usize = 0;
        while i < bindings.len()
            invariant
                i <= bindings.len(),
                acc@.len() == i,
                forall|k: int|
                    0 <= k < i ==> #[trigger] acc@[k]@ == bindings@.map_values(to_binding)[k].name,
            decreases bindings.len() - i,
        {
            acc.push(bindings[i].0.clone());
            i += 1;
        }
        proof {
            assert(acc@.map_values(|l: LevelName| l@) =~~= cube_bindings(self@).map_values(
                |b: LevelBinding| b.name,
            ));
        }
        acc
    }

    /// Every measure name this cube supports, in declaration order.
    #[verifier::loop_isolation(false)]
    pub fn get_all_measure_names(&self) -> (r: Vec<Measure>)
        ensures
            r@.map_values(|m: Measure| m@) == self@.measures.map_values(
                |m: CubeMeasureV| m.name,
            ),
    {
        let mut acc: Vec<Measure> = Vec::new();
        let mut i: usize = 0;
        while i < self.measures.len()
            invariant
                i <= self.measures.len(),
                acc@.len() == i,
                forall|k: int| 0 <= k < i ==> #[trigger] acc@[k]@ == self@.measures[k].name,
            decreases self.measures.len() - i,
        {
            acc.push(Measure::new(self.measures[i].name.clone()));
            i += 1;
        }
        proof {
            assert(acc@.map_values(|m: Measure| m@) =~~= self@.measures.map_values(
                |m: CubeMeasureV| m.name,
            ));
        }
        acc
    }
}

/// Scans flattened bindings for the first one matching `ln` and hands
/// back its key column.
#[verifier::loop_isolation(false)]
fn find_in_bindings(bindings: &Vec<(LevelName, String)>, ln: &LevelName) -> (r: Option<String>)
    ensures
        ({
            let bs = bindings@.map_values(
                |p: (LevelName, String)| LevelBinding { name: p.0@, key_column: p.1@ },
            );
            match find_binding(bs, ln@) {
                Some(b) => r matches Some(c) && c@ == b.key_column,
                None => r is None,
            }
        }),
{
    let ghost bs = bindings@.map_values(
        |p: (LevelName, String)| LevelBinding { name: p.0@, key_column: p.1@ },
    );
    let mut i: usize = 0;
    proof {
        assert(bs.skip(0) =~= bs);
    }
    while i < bindings.len()
        invariant
            i <= bindings.len(),
            find_binding(bs, ln@) == find_binding(bs.skip(i as int), ln@),
        decreases bindings.len() - i,
    {
        if bindings[i].0.matches(ln) {
            proof {
                assert(bs.skip(i as int)[0] == bs[i as int]);
                assert(find_binding(bs.skip(i as int), ln@) == Some(bs[i as int]));
            }
            return Some(bindings[i].1.clone());
        }
        proof {
            assert(bs.skip(i as int)[0] == bs[i as int]);
            assert(bs.skip(i as int).skip(1) =~= bs.skip(i + 1));
        }
        i += 1;
    }
    proof {
        assert(bs.skip(bindings@.len() as int) =~= Seq::<LevelBinding>::empty());
    }
    None
}

impl Schema {
    /// The first cube with the given name, if any, borrowed.
    #[verifier::loop_isolation(false)]
    fn get_cube(&self, cube_name: &str) -> (r: Option<&Cube>)
        ensures
            match find_cube(self@.cubes, cube_name@) {
                Some(cv) => r matches Some(c) && c@ == cv,
                None => r is None,
            },
    {
        let wanted = cube_name.to_owned();
        let ghost cs = self@.cubes;
        let mut i: usize = 0;
        proof {
            assert(cs.skip(0) =~= cs);
        }
        while i < self.cubes.len()
            invariant
                i <= self.cubes.len(),
                find_cube(cs, cube_name@) == find_cube(cs.skip(i as int), cube_name@),
            decreases self.cubes.len() - i,
        {
            proof {
                assert(cs.skip(i as int)[0] == cs[i as int]);
            }
            if self.cubes[i].name.eq(&wanted) {
                return Some(&self.cubes[i]);
            }
            proof {
                assert(cs.skip(i as int).skip(1) =~= cs.skip(i + 1));
            }
            i += 1;
        }
        proof {
            assert(cs.skip(self.cubes@.len() as int) =~= Seq::<CubeV>::empty());
        }
        None
    }

    /// The first cube with the given name, cloned for the caller.
    /// Duplicate cube names resolve to the first declaration.
    pub fn cube_metadata(&self, cube_name: &str) -> (r: Option<Cube>)
        ensures
            match find_cube(self@.cubes, cube_name@) {
                Some(cv) => r matches Some(c) && c@ == cv,
                None => r is None,
            },
    {
        match self.get_cube(cube_name) {
            Some(c) => Some(c.clone()),
            None => None,
        }
    }

    /// The fact table of the named cube.
    pub fn cube_table(&self, cube: &str) -> (r: Option<String>)
        ensures
            match find_cube(self@.cubes, cube@) {
                Some(cv) => r matches Some(t) && t@ == cv.table,
                None => r is None,
            },
    {
        match self.get_cube(cube) {
            Some(c) => Some(c.table.clone()),
            None => None,
        }
    }
}

/// Whether every cut's level resolves inside the cube.
pub open spec fn cuts_resolvable(c: CubeV, cuts: Seq<CutView>) -> bool {
    forall|i: int|
        0 <= i < cuts.len() ==> find_binding(cube_bindings(c), #[trigger] cuts[i].level_name)
            is Some
}

/// Whether every drilldown's level resolves inside the cube.
pub open spec fn drills_resolvable(c: CubeV, drills: Seq<LevelNameView>) -> bool {
    forall|i: int|
        0 <= i < drills.len() ==> find_binding(cube_bindings(c), #[trigger] drills[i]) is Some
}

/// Whether every requested measure resolves inside the cube.
pub open spec fn meas_resolvable(c: CubeV, meas: Seq<Seq<char>>) -> bool {
    forall|i: int| 0 <= i < meas.len() ==> find_measure(c.measures, #[trigger] meas[i]) is Some
}

/// The bound form of one cut.
pub open spec fn cut_sql_of(c: CubeV, cut: CutView) -> CutSqlView {
    CutSqlView {
        column: find_binding(cube_bindings(c), cut.level_name)->0.key_column,
        members: cut.members,
        exclusive: cut.exclusive,
    }
}

/// The bound forms of a cut list, in request order.
pub open spec fn spec_cut_cols(c: CubeV, cuts: Seq<CutView>) -> Seq<CutSqlView> {
    Seq::new(cuts.len(), |i: int| cut_sql_of(c, cuts[i]))
}

/// The bound key columns of a drilldown list, in request order.
pub open spec fn spec_drill_cols(c: CubeV, drills: Seq<LevelNameView>) -> Seq<Seq<char>> {
    Seq::new(drills.len(), |i: int| find_binding(cube_bindings(c), drills[i])->0.key_column)
}

/// The bound forms of a measure list, in request order, each keeping
/// its requested name as the output alias.
pub open spec fn spec_mea_cols(c: CubeV, meas: Seq<Seq<char>>) -> Seq<MeasureSqlView> {
    Seq::new(
        meas.len(),
        |i: int|
            MeasureSqlView {
                name: meas[i],
                aggregator: find_measure(c.measures, meas[i])->0.aggregator,
                column: find_measure(c.measures, meas[i])->0.column,
            },
    )
}

impl Schema {
    /// Binds each requested cut to its level's key column inside the
    /// named cube, preserving request order.
    #[verifier::loop_isolation(false)]
    pub fn cube_cut_cols(&self, cube: &str, cuts: &Vec<Cut>) -> (r: Result<Vec<CutSql>, Error>)
        ensures
            r is Ok <==> find_cube(self@.cubes, cube@) is Some && cuts_resolvable(
                find_cube(self@.cubes, cube@)->0,
                cuts@.map_values(|c: Cut| c@),
            ),
            r matches Ok(v) ==> v@.map_values(|c: CutSql| c@) == spec_cut_cols(
                find_cube(self@.cubes, cube@)->0,
                cuts@.map_values(|c: Cut| c@),
            ),
            r matches Err(e) ==> e is Validation && ({
                ||| (find_cube(self@.cubes, cube@) is None && e.spec_message()
                    == "no cube found with name: "@ + cube@)
                ||| (find_cube(self@.cubes, cube@) is Some && exists|i: int|
                    0 <= i < cuts@.len() && find_binding(
                        cube_bindings(find_cube(self@.cubes, cube@)->0),
                        (#[trigger] cuts@[i])@.level_name,
                    ) is None && e.spec_message() == "could not find cut level in cube: "@
                        + level_path_text(cuts@[i]@.level_name))
            }),
    {
        let cube_ref = match self.get_cube(cube) {
            Some(c) => c,
            None => {
                return Err(Error::Validation(
                    String::from_str("no cube found with name: ").concat(cube),
                ));
            },
        };
        let ghost cv = find_cube(self@.cubes, cube@)->0;
        let bindings = cube_ref.level_bindings();
        let ghost cvs = cuts@.map_values(|c: Cut| c@);
        let mut acc: Vec<CutSql> = Vec::new();
        let mut i: usize = 0;
        while i < cuts.len()
            invariant
                i <= cuts.len(),
                acc@.len() == i,
                forall|k: int|
                    0 <= k < i ==> find_binding(cube_bindings(cv), #[trigger] cvs[k].level_name)
                        is Some,
                forall|k: int| 0 <= k < i ==> #[trigger] acc@[k]@ == cut_sql_of(cv, cvs[k]),
            decreases cuts.len() - i,
        {
            match find_in_bindings(&bindings, &cuts[i].level_name) {
                Some(col) => {
                    let mut members: Vec<String> = Vec::new();
                    let mut j: usize = 0;
                    while j < cuts[i].members.len()
                        invariant
                            j <= cuts@[i as int].members@.len(),
                            members.deep_view() == cuts@[i as int].members.deep_view().take(
                                j as int,
                            ),
                        decreases cuts@[i as int].members@.len() - j,
                    {
                        let ghost prev = members.deep_view();
                        members.push(cuts[i].members[j].clone());
                        proof {
                            assert(members.deep_view() =~~= prev.push(
                                cuts@[i as int].members@[j as int]@,
                            ));
                            assert(cuts@[i as int].members.deep_view().take(j + 1) =~~= cuts@[
                                i as int
                            ].members.deep_view().take(j as int).push(
                                cuts@[i as int].members@[j as int]@,
                            ));
                        }
                        j += 1;
                    }
                    proof {
                        assert(cuts@[i as int].members.deep_view().take(
                            cuts@[i as int].members@.len() as int,
                        ) =~~= cuts@[i as int].members.deep_view());
                    }
                    let c = CutSql { column: col, members, exclusive: cuts[i].exclusive };
                    proof {
                        assert(c@ =~~= cut_sql_of(cv, cvs[i as int]));
                    }
                    acc.push(c);
                },
                None => {
                    proof {
                        assert(cvs[i as int] == cuts@[i as int]@);
                        assert(cvs[i as int].level_name == cuts@[i as int].level_name@);
                        assert(find_binding(cube_bindings(cv), cvs[i as int].level_name) is None);
                        assert(!cuts_resolvable(cv, cvs));
                    }
                    return Err(Error::Validation(
                        String::from_str("could not find cut level in cube: ").concat(
                            cuts[i].level_name.path_text().as_str(),
                        ),
                    ));
                },
            }
            i += 1;
        }
        proof {
            assert(acc@.map_values(|c: CutSql| c@) =~~= spec_cut_cols(cv, cvs));
        }
        Ok(acc)
    }

    /// Binds each requested drilldown to its level's key column inside
    /// the named cube, preserving request order.
    #[verifier::loop_isolation(false)]
    pub fn cube_drill_cols(&self, cube: &str, drills: &Vec<Drilldown>) -> (r: Result<
        Vec<DrilldownSql>,
        Error,
    >)
        ensures
            r is Ok <==> find_cube(self@.cubes, cube@) is Some && drills_resolvable(
                find_cube(self@.cubes, cube@)->0,
                drills@.map_values(|d: Drilldown| d@),
            ),
            r matches Ok(v) ==> v@.map_values(|d: DrilldownSql| d@) == spec_drill_cols(
                find_cube(self@.cubes, cube@)->0,
                drills@.map_values(|d: Drilldown| d@),
            ),
            r matches Err(e) ==> e is Validation && ({
                ||| (find_cube(self@.cubes, cube@) is None && e.spec_message()
                    == "no cube found with name: "@ + cube@)
                ||| (find_cube(self@.cubes, cube@) is Some && exists|i: int|
                    0 <= i < drills@.len() && find_binding(
                        cube_bindings(find_cube(self@.cubes, cube@)->0),
                        (#[trigger] drills@[i])@,
                    ) is None && e.spec_message() == "could not find drilldown level in cube: "@
                        + level_path_text(drills@[i]@))
            }),
    {
        let cube_ref = match self.get_cube(cube) {
            Some(c) => c,
            None => {
                return Err(Error::Validation(
                    String::from_str("no cube found with name: ").concat(cube),
                ));
            },
        };
        let ghost cv = find_cube(self@.cubes, cube@)->0;
        let bindings = cube_ref.level_bindings();
        let ghost dvs = drills@.map_values(|d: Drilldown| d@);
        let mut acc: Vec<DrilldownSql> = Vec::new();
        let mut i: usize = 0;
        while i < drills.len()
            invariant
                i <= drills.len(),
                acc@.len() == i,
                forall|k: int|
                    0 <= k < i ==> find_binding(cube_bindings(cv), #[trigger] dvs[k]) is Some,
                forall|k: int|
                    0 <= k < i ==> #[trigger] acc@[k]@ == find_binding(
                        cube_bindings(cv),
                        dvs[k],
                    )->0.key_column,
            decreases drills.len() - i,
        {
            match find_in_bindings(&bindings, &drills[i].0) {
                Some(col) => {
                    acc.push(DrilldownSql { column: col });
                },
                None => {
                    proof {
                        assert(dvs[i as int] == drills@[i as int]@);
                        assert(find_binding(cube_bindings(cv), dvs[i as int]) is None);
                        assert(!drills_resolvable(cv, dvs));
                    }
                    return Err(Error::Validation(
                        String::from_str("could not find drilldown level in cube: ").concat(
                            drills[i].0.path_text().as_str(),
                        ),
                    ));
                },
            }
            i += 1;
        }
        proof {
            assert(acc@.map_values(|d: DrilldownSql| d@) =~~= spec_drill_cols(cv, dvs));
        }
        Ok(acc)
    }

    /// Binds each requested measure to its aggregator and column inside
    /// the named cube, preserving request order.
    #[verifier::loop_isolation(false)]
    pub fn cube_mea_cols(&self, cube: &str, meas: &Vec<Measure>) -> (r: Result<
        Vec<MeasureSql>,
        Error,
    >)
        ensures
            r is Ok <==> find_cube(self@.cubes, cube@) is Some && meas_resolvable(
                find_cube(self@.cubes, cube@)->0,
                meas@.map_values(|m: Measure| m@),
            ),
            r matches Ok(v) ==> v@.map_values(|m: MeasureSql| m@) == spec_mea_cols(
                find_cube(self@.cubes, cube@)->0,
                meas@.map_values(|m: Measure| m@),
            ),
            r matches Err(e) ==> e is Validation && ({
                ||| (find_cube(self@.cubes, cube@) is None && e.spec_message()
                    == "no cube found with name: "@ + cube@)
                ||| (find_cube(self@.cubes, cube@) is Some && exists|i: int|
                    0 <= i < meas@.len() && find_measure(
                        find_cube(self@.cubes, cube@)->0.measures,
                        (#[trigger] meas@[i])@,
                    ) is None && e.spec_message() == "could not find measure in cube: "@
                        + meas@[i]@)
            }),
    {
        let cube_ref = match self.get_cube(cube) {
            Some(c) => c,
            None => {
                return Err(Error::Validation(
                    String::from_str("no cube found with name: ").concat(cube),
                ));
            },
        };
        let ghost cv = find_cube(self@.cubes, cube@)->0;
        let ghost mvs = meas@.map_values(|m: Measure| m@);
        let mut acc: Vec<MeasureSql> = Vec::new();
        let mut i: usize = 0;
        while i < meas.len()
            invariant
                i <= meas.len(),
                acc@.len() == i,
                forall|k: int|
                    0 <= k < i ==> find_measure(cv.measures, #[trigger] mvs[k]) is Some,
                forall|k: int|
                    0 <= k < i ==> #[trigger] acc@[k]@ == (MeasureSqlView {
                        name: mvs[k],
                        aggregator: find_measure(cv.measures, mvs[k])->0.aggregator,
                        column: find_measure(cv.measures, mvs[k])->0.column,
                    }),
            decreases meas.len() - i,
        {
            let ghost ms = cv.measures;
            let mut j: usize = 0;
            let mut found: Option<MeasureSql> = None;
            proof {
                assert(ms.skip(0) =~= ms);
            }
            while j < cube_ref.measures.len()
                invariant
                    j <= cube_ref.measures.len(),
                    cube_ref@ == cv,
                    found is None,
                    find_measure(ms, mvs[i as int]) == find_measure(ms.skip(j as int), mvs[
                        i as int
                    ]),
                decreases cube_ref.measures.len() - j,
            {
                proof {
                    assert(ms.skip(j as int)[0] == ms[j as int]);
                }
                if cube_ref.measures[j].name.eq(&meas[i].0) {
                    found = Some(MeasureSql {
                        name: meas[i].0.clone(),
                        aggregator: cube_ref.measures[j].aggregator.clone(),
                        column: cube_ref.measures[j].column.clone(),
                    });
                    break ;
                }
                proof {
                    assert(ms.skip(j as int).skip(1) =~= ms.skip(j + 1));
                }
                j += 1;
            }
            match found {
                Some(m) => {
                    proof {
                        assert(m@ =~~= (MeasureSqlView {
                            name: mvs[i as int],
                            aggregator: find_measure(cv.measures, mvs[i as int])->0.aggregator,
                            column: find_measure(cv.measures, mvs[i as int])->0.column,
                        }));
                    }
                    acc.push(m);
                },
                None => {
                    proof {
                        assert(ms.skip(cube_ref.measures@.len() as int) =~= Seq::<
                            CubeMeasureV,
                        >::empty());
                        assert(mvs[i as int] == meas@[i as int]@);
                        assert(find_measure(cv.measures, mvs[i as int]) is None);
                    }
                    return Err(Error::Validation(
                        String::from_str("could not find measure in cube: ").concat(
                            meas[i].0.as_str(),
                        ),
                    ));
                },
            }
            i += 1;
        }
        proof {
            assert(acc@.map_values(|m: MeasureSql| m@) =~~= spec_mea_cols(cv, mvs));
        }
        Ok(acc)
    }
}

/// Whether compilation of `q` against the cube named `cube` succeeds:
/// the structural checks pass and every identifier resolves.
pub open spec fn spec_sql_ok(s: SchemaV, cube: Seq<char>, q: QueryView) -> bool {
    &&& q.measures.len() > 0
    &&& q.drilldowns.len() + q.cuts.len() > 0
    &&& find_cube(s.cubes, cube) is Some
    &&& cuts_resolvable(find_cube(s.cubes, cube)->0, q.cuts)
    &&& drills_resolvable(find_cube(s.cubes, cube)->0, q.drilldowns)
    &&& meas_resolvable(find_cube(s.cubes, cube)->0, q.measures)
}

/// The header list compilation returns: each drilldown's level segment,
/// then each measure name, in request order.
pub open spec fn spec_headers(q: QueryView) -> Seq<Seq<char>> {
    q.drilldowns.map_values(|d: LevelNameView| d.level) + q.measures
}

/// The statement compilation returns.
pub open spec fn spec_sql_text(s: SchemaV, cube: Seq<char>, q: QueryView) -> Seq<char> {
    let c = find_cube(s.cubes, cube)->0;
    spec_clickhouse_sql(
        c.table,
        spec_cut_cols(c, q.cuts),
        spec_drill_cols(c, q.drilldowns),
        spec_mea_cols(c, q.measures),
        q.sort,
        q.limit,
        q.top_where,
    )
}

/// The header list pairs one entry with each projected column of the
/// generated statement, in the same order: drilldown columns first,
/// then aggregated measures. Callers can therefore zip headers to
/// result columns without re-parsing the SQL text.
pub proof fn lemma_headers_match_projection(s: SchemaV, cube: Seq<char>, q: QueryView)
    ensures
        spec_headers(q).len() == projection(
            spec_drill_cols(find_cube(s.cubes, cube)->0, q.drilldowns),
            spec_mea_cols(find_cube(s.cubes, cube)->0, q.measures),
        ).len(),
{
}

impl Schema {
    /// Compiles a validated query against the named cube into SQL text
    /// and the matching header list.
    ///
    /// Fails fast, before any backend contact: a query needs at least
    /// one measure and at least one of a drilldown or a cut, and every
    /// referenced identifier must resolve inside the cube.
    ///
    /// The dialect renders drilldowns, cuts, measures, `top_where`,
    /// `sort` and `limit`; the remaining options (top, growth, rca,
    /// rate, sparse/dense, exclude-default-members, parents,
    /// properties, filters, captions) are validated and carried on the
    /// query but do not reach the SQL, as the contract's exact text
    /// makes checkable.
    #[verifier::loop_isolation(false)]
    pub fn sql_query(&self, cube: &str, query: &Query, db: Database) -> (r: Result<
        (String, Vec<String>),
        Error,
    >)
        ensures
            r is Ok <==> spec_sql_ok(self@, cube@, query@),
            query@.measures.len() == 0 ==> (r matches Err(e) && e.spec_message()
                == "No measure found; please specify at least one"@),
            query@.measures.len() > 0 && query@.drilldowns.len() + query@.cuts.len() == 0
                ==> (r matches Err(e) && e.spec_message()
                == "Either a drilldown or cut is required"@),
            r matches Ok(p) ==> {
                &&& p.0@ == spec_sql_text(self@, cube@, query@)
                &&& p.0@.len() > 0
                &&& p.1.deep_view() == spec_headers(query@)
                &&& p.1@.len() == query@.drilldowns.len() + query@.measures.len()
            },
            r matches Err(e) ==> e is Validation && ({
                let q = query@;
                let fc = find_cube(self@.cubes, cube@);
                ||| (q.measures.len() == 0 && e.spec_message()
                    == "No measure found; please specify at least one"@)
                ||| (q.measures.len() > 0 && q.drilldowns.len() + q.cuts.len() == 0
                    && e.spec_message() == "Either a drilldown or cut is required"@)
                ||| (fc is None && e.spec_message() == "no table found for cube: "@ + cube@)
                ||| (fc is Some && exists|i: int|
                    0 <= i < q.cuts.len() && find_binding(
                        cube_bindings(fc->0),
                        (#[trigger] q.cuts[i]).level_name,
                    ) is None && e.spec_message() == "could not find cut level in cube: "@
                        + level_path_text(q.cuts[i].level_name))
                ||| (fc is Some && exists|i: int|
                    0 <= i < q.drilldowns.len() && find_binding(
                        cube_bindings(fc->0),
                        #[trigger] q.drilldowns[i],
                    ) is None && e.spec_message() == "could not find drilldown level in cube: "@
                        + level_path_text(q.drilldowns[i]))
                ||| (fc is Some && exists|i: int|
                    0 <= i < q.measures.len() && find_measure(
                        fc->0.measures,
                        #[trigger] q.measures[i],
                    ) is None && e.spec_message() == "could not find measure in cube: "@
                        + q.measures[i])
            }),
    {
        if query.measures.len() == 0 {
            return Err(Error::Validation(
                String::from_str("No measure found; please specify at least one"),
            ));
        }
        if query.drilldowns.len() == 0 && query.cuts.len() == 0 {
            return Err(Error::Validation(
                String::from_str("Either a drilldown or cut is required"),
            ));
        }

        let table = match self.cube_table(cube) {
            Some(t) => t,
            None => {
                return Err(Error::Validation(
                    String::from_str("no table found for cube: ").concat(cube),
                ));
            },
        };

        let cut_cols = match self.cube_cut_cols(cube, &query.cuts) {
            Ok(v) => v,
            Err(e) => {
                proof {
                    let fc = find_cube(self@.cubes, cube@);
                    assert(fc is Some);
                    let k = choose|i: int|
                        0 <= i < query.cuts@.len() && find_binding(
                            cube_bindings(fc->0),
                            (#[trigger] query.cuts@[i])@.level_name,
                        ) is None && e.spec_message() == "could not find cut level in cube: "@
                            + level_path_text(query.cuts@[i]@.level_name);
                    assert(query@.cuts[k] == query.cuts@[k]@);
                }
                return Err(e);
            },
        };
        let drill_cols = match self.cube_drill_cols(cube, &query.drilldowns) {
            Ok(v) => v,
            Err(e) => {
                proof {
                    let fc = find_cube(self@.cubes, cube@);
                    assert(fc is Some);
                    let k = choose|i: int|
                        0 <= i < query.drilldowns@.len() && find_binding(
                            cube_bindings(fc->0),
                            (#[trigger] query.drilldowns@[i])@,
                        ) is None && e.spec_message()
                            == "could not find drilldown level in cube: "@ + level_path_text(
                            query.drilldowns@[i]@,
                        );
                    assert(query@.drilldowns[k] == query.drilldowns@[k]@);
                }
                return Err(e);
            },
        };
        let mea_cols = match self.cube_mea_cols(cube, &query.measures) {
            Ok(v) => v,
            Err(e) => {
                proof {
                    let fc = find_cube(self@.cubes, cube@);
                    assert(fc is Some);
                    let k = choose|i: int|
                        0 <= i < query.measures@.len() && find_measure(
                            fc->0.measures,
                            (#[trigger] query.measures@[i])@,
                        ) is None && e.spec_message() == "could not find measure in cube: "@
                            + query.measures@[i]@;
                    assert(query@.measures[k] == query.measures@[k]@);
                }
                return Err(e);
            },
        };

        match db {
            Database::Clickhouse => {
                let sql = clickhouse_sql(
                    table.as_str(),
                    &cut_cols,
                    &drill_cols,
                    &mea_cols,
                    &query.sort,
                    &query.limit,
                    &query.top_where,
                );
                let mut headers: Vec<String> = Vec::new();
                let mut i: usize = 0;
                while i < query.drilldowns.len()
                    invariant
                        i <= query.drilldowns.len(),
                        headers.deep_view() == query@.drilldowns.map_values(
                            |d: LevelNameView| d.level,
                        ).take(i as int),
                    decreases query.drilldowns.len() - i,
                {
                    let ghost prev = headers.deep_view();
                    headers.push(query.drilldowns[i].0.level.clone());
                    proof {
                        assert(headers.deep_view() =~~= prev.push(
                            query@.drilldowns[i as int].level,
                        ));
                        assert(query@.drilldowns.map_values(|d: LevelNameView| d.level).take(i + 1)
                            =~~= query@.drilldowns.map_values(|d: LevelNameView| d.level).take(
                            i as int,
                        ).push(query@.drilldowns[i as int].level));
                    }
                    i += 1;
                }
                let mut j: usize = 0;
                while j < query.measures.len()
                    invariant
                        j <= query.measures.len(),
                        headers.deep_view() == query@.drilldowns.map_values(
                            |d: LevelNameView| d.level,
                        ) + query@.measures.take(j as int),
                    decreases query.measures.len() - j,
                {
                    let ghost prev = headers.deep_view();
                    headers.push(query.measures[j].0.clone());
                    proof {
                        assert(headers.deep_view() =~~= prev.push(query@.measures[j as int]));
                        assert(query@.measures.take(j + 1) =~~= query@.measures.take(j as int).push(
                            query@.measures[j as int],
                        ));
                        assert(headers.deep_view() =~~= query@.drilldowns.map_values(
                            |d: LevelNameView| d.level,
                        ) + query@.measures.take(j + 1));
                    }
                    j += 1;
                }
                proof {
                    assert(query@.drilldowns.map_values(|d: LevelNameView| d.level).take(
                        query@.drilldowns.len() as int,
                    ) =~~= query@.drilldowns.map_values(|d: LevelNameView| d.level));
                    assert(query@.measures.take(query@.measures.len() as int) =~~= query@.measures);
                    assert(headers.deep_view() =~~= spec_headers(query@));
                    reveal_strlit("SELECT ");
                    assert(sql@.len() > 0);
                }
                Ok((sql, headers))
            },
        }
    }
}

impl Schema {
    /// Reserved enrichment step between execution and formatting.
    ///
    /// Dimension metadata is not attached to results in this engine:
    /// the step yields an empty frame, and the formatting collaborator
    /// works from the executed frame and the header list alone.
    pub fn add_dim_metadata(&self, query: &Query, df: DataFrame) -> (r: DataFrame)
        ensures
            r.columns@.len() == 0,
    {
        let _ = query;
        let _ = df;
        DataFrame::new()
    }

    /// Rendering of results belongs to an external collaborator; the
    /// core contributes nothing to it and hands back an empty string.
    pub fn format_results(&self, df: DataFrame) -> (r: String)
        ensures
            r@.len() == 0,
    {
        let _ = df;
        String::new()
    }
}

} // verus!
