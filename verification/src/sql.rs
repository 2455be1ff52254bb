//! Resolved column bindings and the ClickHouse SQL generator.
//!
//! A `CutSql`, `DrilldownSql` or `MeasureSql` is the corresponding query
//! identifier bound to concrete columns of a cube's fact table; the
//! order of each list is the order of the originating query list, and it
//! drives both the SQL projection order and the header order.

use vstd::prelude::*;
use vstd::string::*;

use crate::query::{Filter, LimitQuery, LimitView, SortDirection, SortQuery, SortView};
use crate::text::{join_seq, join_strs};

verus! {

/// A cut bound to its level's key column.
pub struct CutSql {
    pub column: String,
    pub members: Vec<String>,
    pub exclusive: bool,
}

/// The abstract value of a [`CutSql`].
#[verifier::ext_equal]
pub ghost struct CutSqlView {
    pub column: Seq<char>,
    pub members: Seq<Seq<char>>,
    pub exclusive: bool,
}

impl View for CutSql {
    type V = CutSqlView;

    open spec fn view(&self) -> CutSqlView {
        CutSqlView {
            column: self.column@,
            members: self.members.deep_view(),
            exclusive: self.exclusive,
        }
    }
}

/// A drilldown bound to its level's key column.
pub struct DrilldownSql {
    pub column: String,
}

impl View for DrilldownSql {
    type V = Seq<char>;

    open spec fn view(&self) -> Seq<char> {
        self.column@
    }
}

/// A measure bound to its aggregation function and column, keeping the
/// requested measure name as the output alias.
pub struct MeasureSql {
    pub name: String,
    pub aggregator: String,
    pub column: String,
}

/// The abstract value of a [`MeasureSql`].
#[verifier::ext_equal]
pub ghost struct MeasureSqlView {
    pub name: Seq<char>,
    pub aggregator: Seq<char>,
    pub column: Seq<char>,
}

impl View for MeasureSql {
    type V = MeasureSqlView;

    open spec fn view(&self) -> MeasureSqlView {
        MeasureSqlView { name: self.name@, aggregator: self.aggregator@, column: self.column@ }
    }
}

/// The aggregate expression a measure projects, aliased to the measure
/// name so that headers and `ORDER BY` can refer to it:
/// `agg(column) AS name`.
pub open spec fn mea_expr(m: MeasureSqlView) -> Seq<char> {
    m.aggregator + "("@ + m.column + ") AS "@ + m.name
}

/// The filter predicate a cut contributes: `column IN (m1, m2, ...)`,
/// negated to `NOT IN` for an exclusive cut.
pub open spec fn cut_pred(c: CutSqlView) -> Seq<char> {
    c.column + (if c.exclusive {
        " NOT IN ("@
    } else {
        " IN ("@
    }) + join_seq(c.members, ", "@) + ")"@
}

/// The projected column expressions: drilldown key columns first, then
/// aggregated measures, in request order.
pub open spec fn projection(drills: Seq<Seq<char>>, meas: Seq<MeasureSqlView>) -> Seq<Seq<char>> {
    drills + meas.map_values(|m: MeasureSqlView| mea_expr(m))
}

/// The SQL text of an ordering direction.
pub open spec fn direction_sql(d: SortDirection) -> Seq<char> {
    if d == SortDirection::Asc {
        " ASC"@
    } else {
        " DESC"@
    }
}

/// The ordering clause: an explicit sort translates directly, and when
/// none is given the first measure orders the rows descending.
pub open spec fn order_part(sort: Option<SortView>, meas: Seq<MeasureSqlView>) -> Seq<char> {
    match sort {
        Some(sv) => " ORDER BY "@ + sv.measure + direction_sql(sv.direction),
        None => if meas.len() > 0 {
            " ORDER BY "@ + meas[0].name + " DESC"@
        } else {
            Seq::<char>::empty()
        },
    }
}

/// The group-filter clause: a `top_where` predicate is evaluated on
/// the aggregated groups as a `HAVING` condition.
pub open spec fn having_part(top_where: Option<Seq<char>>) -> Seq<char> {
    match top_where {
        Some(t) => " HAVING "@ + t,
        None => Seq::<char>::empty(),
    }
}

/// The row-bound clause, rendered from the limit's own digit text.
pub open spec fn limit_part(limit: Option<LimitView>) -> Seq<char> {
    match limit {
        Some(v) => " LIMIT "@ + v.raw,
        None => Seq::<char>::empty(),
    }
}

/// The full statement the ClickHouse dialect generates: projection,
/// fact table source, one `IN` predicate per cut conjoined with `AND`,
/// grouping by every drilldown column, the `HAVING` group filter,
/// ordering and the row bound.
///
/// This is the dialect's whole output: an option absent from this
/// definition — top, growth, rca, rate, sparse/dense densification,
/// exclude-default-members, parents, properties, filters, captions —
/// is validated and carried on the query for its callers but does not
/// reach the generated SQL.
pub open spec fn spec_clickhouse_sql(
    table: Seq<char>,
    cuts: Seq<CutSqlView>,
    drills: Seq<Seq<char>>,
    meas: Seq<MeasureSqlView>,
    sort: Option<SortView>,
    limit: Option<LimitView>,
    top_where: Option<Seq<char>>,
) -> Seq<char> {
    "SELECT "@ + join_seq(projection(drills, meas), ", "@) + " FROM "@ + table + (if cuts.len()
        == 0 {
        Seq::<char>::empty()
    } else {
        " WHERE "@ + join_seq(cuts.map_values(|c: CutSqlView| cut_pred(c)), " AND "@)
    }) + (if drills.len() == 0 {
        Seq::<char>::empty()
    } else {
        " GROUP BY "@ + join_seq(drills, ", "@)
    }) + having_part(top_where) + order_part(sort, meas) + limit_part(limit)
}

/// The view of an optional sort.
pub open spec fn opt_sort_view(o: Option<SortQuery>) -> Option<SortView> {
    match o {
        Some(s) => Some(s@),
        None => None,
    }
}

/// The view of an optional group filter.
pub open spec fn opt_filter_view(o: Option<Filter>) -> Option<Seq<char>> {
    match o {
        Some(f) => Some(f@),
        None => None,
    }
}

/// The view of an optional limit.
pub open spec fn opt_limit_view(o: Option<LimitQuery>) -> Option<LimitView> {
    match o {
        Some(l) => Some(l@),
        None => None,
    }
}

/// The views of a list of bound drilldowns.
pub open spec fn drill_views(s: Seq<DrilldownSql>) -> Seq<Seq<char>> {
    s.map_values(|d: DrilldownSql| d@)
}

/// The views of a list of bound cuts.
pub open spec fn cut_views(s: Seq<CutSql>) -> Seq<CutSqlView> {
    s.map_values(|c: CutSql| c@)
}

/// The views of a list of bound measures.
pub open spec fn mea_views(s: Seq<MeasureSql>) -> Seq<MeasureSqlView> {
    s.map_values(|m: MeasureSql| m@)
}

/// The drilldown key columns as strings, in order.
fn drill_pieces(drills: &Vec<DrilldownSql>) -> (r: Vec<String>)
    ensures
        r.deep_view() == drill_views(drills@),
{
    let ghost dv = drill_views(drills@);
    let mut pieces: Vec<String> = Vec::new();
    let mut i: usize = 0;
    while i < drills.len()
        invariant
            i <= drills.len(),
            dv == drill_views(drills@),
            pieces.deep_view() == dv.take(i as int),
        decreases drills.len() - i,
    {
        let ghost prev = pieces.deep_view();
        pieces.push(drills[i].column.clone());
        proof {
            assert(pieces.deep_view() =~~= prev.push(drills@[i as int]@));
            assert(dv.take(i + 1) =~~= dv.take(i as int).push(drills@[i as int]@));
        }
        i += 1;
    }
    proof {
        assert(dv.take(drills@.len() as int) =~~= dv);
    }
    pieces
}

/// The aliased aggregate expressions of the measures, in order.
fn mea_pieces(meas: &Vec<MeasureSql>) -> (r: Vec<String>)
    ensures
        r.deep_view() == mea_views(meas@).map_values(|m: MeasureSqlView| mea_expr(m)),
{
    let ghost mv = mea_views(meas@);
    let mut pieces: Vec<String> = Vec::new();
    let mut j: usize = 0;
    while j < meas.len()
        invariant
            j <= meas.len(),
            mv == mea_views(meas@),
            pieces.deep_view() == mv.take(j as int).map_values(|m: MeasureSqlView| mea_expr(m)),
        decreases meas.len() - j,
    {
        let ghost prev = pieces.deep_view();
        let expr = meas[j].aggregator.clone().concat("(").concat(meas[j].column.as_str()).concat(
            ") AS ",
        ).concat(meas[j].name.as_str());
        proof {
            assert(expr@ =~= mea_expr(meas@[j as int]@));
        }
        pieces.push(expr);
        proof {
            assert(pieces.deep_view() =~~= prev.push(mea_expr(meas@[j as int]@)));
            assert(mv.take(j + 1).map_values(|m: MeasureSqlView| mea_expr(m)) =~~= mv.take(
                j as int,
            ).map_values(|m: MeasureSqlView| mea_expr(m)).push(mea_expr(meas@[j as int]@)));
        }
        j += 1;
    }
    proof {
        assert(mv.take(meas@.len() as int) =~~= mv);
    }
    pieces
}

/// The filter predicates of the cuts, in order.
fn cut_pieces(cuts: &Vec<CutSql>) -> (r: Vec<String>)
    ensures
        r.deep_view() == cut_views(cuts@).map_values(|c: CutSqlView| cut_pred(c)),
{
    let ghost cv = cut_views(cuts@);
    let mut preds: Vec<String> = Vec::new();
    let mut k: usize = 0;
    while k < cuts.len()
        invariant
            k <= cuts.len(),
            cv == cut_views(cuts@),
            preds.deep_view() == cv.take(k as int).map_values(|c: CutSqlView| cut_pred(c)),
        decreases cuts.len() - k,
    {
        let ghost prev = preds.deep_view();
        let members = join_strs(&cuts[k].members, ", ");
        let op = if cuts[k].exclusive {
            " NOT IN ("
        } else {
            " IN ("
        };
        let pred = cuts[k].column.clone().concat(op).concat(members.as_str()).concat(")");
        proof {
            assert(pred@ =~= cut_pred(cuts@[k as int]@));
        }
        preds.push(pred);
        proof {
            assert(preds.deep_view() =~~= prev.push(cut_pred(cuts@[k as int]@)));
            assert(cv.take(k + 1).map_values(|c: CutSqlView| cut_pred(c)) =~~= cv.take(
                k as int,
            ).map_values(|c: CutSqlView| cut_pred(c)).push(cut_pred(cuts@[k as int]@)));
        }
        k += 1;
    }
    proof {
        assert(cv.take(cuts@.len() as int) =~~= cv);
    }
    preds
}

/// Generates the ClickHouse statement for one resolved query.
#[verifier::rlimit(60)]
pub fn clickhouse_sql(
    table: &str,
    cuts: &Vec<CutSql>,
    drills: &Vec<DrilldownSql>,
    meas: &Vec<MeasureSql>,
    sort: &Option<SortQuery>,
    limit: &Option<LimitQuery>,
    top_where: &Option<Filter>,
) -> (r: String)
    ensures
        r@ == spec_clickhouse_sql(
            table@,
            cut_views(cuts@),
            drill_views(drills@),
            mea_views(meas@),
            opt_sort_view(*sort),
            opt_limit_view(*limit),
            opt_filter_view(*top_where),
        ),
{
    let ghost dv = drill_views(drills@);
    let ghost mv = mea_views(meas@);
    let ghost cv = cut_views(cuts@);

    let mut pieces = drill_pieces(drills);
    let mut meas_part = mea_pieces(meas);
    let ghost before_append = pieces.deep_view();
    pieces.append(&mut meas_part);
    proof {
        assert(pieces.deep_view() =~~= projection(dv, mv));
    }
    let projected = join_strs(&pieces, ", ");

    let mut out = String::from_str("SELECT ").concat(projected.as_str()).concat(" FROM ").concat(
        table,
    );
    proof {
        assert(out@ =~= "SELECT "@ + join_seq(projection(dv, mv), ", "@) + " FROM "@ + table@);
    }

    if cuts.len() > 0 {
        let preds = cut_pieces(cuts);
        let joined_preds = join_strs(&preds, " AND ");
        out = out.concat(" WHERE ").concat(joined_preds.as_str());
    }

    if drills.len() > 0 {
        let cols = drill_pieces(drills);
        let joined_cols = join_strs(&cols, ", ");
        out = out.concat(" GROUP BY ").concat(joined_cols.as_str());
    }

    let ghost before_having = out@;
    match top_where {
        Some(f) => {
            out = out.concat(" HAVING ").concat(f.0.as_str());
        },
        None => {},
    }
    proof {
        assert(out@ =~= before_having + having_part(opt_filter_view(*top_where)));
    }

    let ghost before_order = out@;
    match sort {
        Some(s) => {
            out = out.concat(" ORDER BY ").concat(s.measure.as_str());
            match s.direction {
                SortDirection::Asc => {
                    out = out.concat(" ASC");
                },
                SortDirection::Desc => {
                    out = out.concat(" DESC");
                },
            }
        },
        None => {
            if meas.len() > 0 {
                out = out.concat(" ORDER BY ").concat(meas[0].name.as_str()).concat(" DESC");
            }
        },
    }
    proof {
        assert(out@ =~= before_order + order_part(opt_sort_view(*sort), mv));
    }

    match limit {
        Some(l) => {
            out = out.concat(" LIMIT ").concat(l.raw.as_str());
        },
        None => {},
    }
    proof {
        assert(out@ =~= spec_clickhouse_sql(
            table@,
            cv,
            dv,
            mv,
            opt_sort_view(*sort),
            opt_limit_view(*limit),
            opt_filter_view(*top_where),
        ));
    }
    out
}

} // verus!
