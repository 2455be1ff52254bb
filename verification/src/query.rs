//! The query intermediate representation.
//!
//! An [`AggregateQueryOpt`] is the raw, string-keyed option set handed
//! over by the request layer; [`Query`] is its parsed, validated form,
//! built once per request and consumed by the compiler. Every
//! path-valued option follows the grammar `dimension.hierarchy.level`
//! (drilldowns) or `dimension.hierarchy.level.member` (cuts); malformed
//! values fail the whole conversion with an error naming the bad token.

use vstd::prelude::*;
use vstd::string::*;

use crate::error::Error;
use crate::names::{
    cut_err_msg,
    cut_exclusive,
    cut_member_body,
    level_err_msg,
    level_name_of,
    prop_err_msg,
    valid_cut_path,
    valid_level_path,
    valid_members,
    valid_property_path,
    Cut,
    CutView,
    Drilldown,
    LevelName,
    LevelNameView,
    Measure,
    Property,
    PropertyView,
};
use crate::text::{lemma_split_seq_len, split_seq, split_str};

verus! {

/// Ten to the power `n`.
pub open spec fn pow10(n: nat) -> int
    decreases n,
{
    if n == 0 {
        1
    } else {
        10 * pow10((n - 1) as nat)
    }
}

/// Whether `s` is one or more decimal digits.
pub open spec fn is_digits(s: Seq<char>) -> bool {
    s.len() >= 1 && forall|i: int| 0 <= i < s.len() ==> '0' <= #[trigger] s[i] <= '9'
}

/// The number the digit string `s` denotes.
pub open spec fn decimal_of(s: Seq<char>) -> int
    decreases s.len(),
{
    if s.len() == 0 {
        0
    } else {
        decimal_of(s.drop_last()) * 10 + (s.last() as int - '0' as int)
    }
}

proof fn lemma_pow10_mono(a: nat, b: nat)
    requires
        a <= b,
    ensures
        pow10(a) <= pow10(b),
    decreases b,
{
    if a < b {
        lemma_pow10_mono(a, (b - 1) as nat);
        lemma_pow10_bound((b - 1) as nat);
    }
}

proof fn lemma_pow10_bound(n: nat)
    ensures
        pow10(n) >= 1,
    decreases n,
{
    if n > 0 {
        lemma_pow10_bound((n - 1) as nat);
    }
}

proof fn lemma_decimal_bound(s: Seq<char>)
    requires
        forall|i: int| 0 <= i < s.len() ==> '0' <= #[trigger] s[i] <= '9',
    ensures
        0 <= decimal_of(s) < pow10(s.len()),
    decreases s.len(),
{
    if s.len() > 0 {
        lemma_decimal_bound(s.drop_last());
    }
}

/// The message a failed number parse carries: it names the offending
/// string.
pub open spec fn num_err_msg(s: Seq<char>) -> Seq<char> {
    if s.len() == 0 || s.len() > 19 {
        "expected a number of 1 to 19 digits: "@ + s
    } else {
        "expected only digits: "@ + s
    }
}

/// Parses a decimal number of up to 19 digits; every such number fits
/// the 64-bit machine bound, and a longer one might not.
fn parse_decimal_u64(s: &str) -> (r: Result<u64, Error>)
    ensures
        r is Ok <==> is_digits(s@) && s@.len() <= 19,
        r matches Ok(n) ==> n == decimal_of(s@),
        r matches Err(e) ==> e is Parse && e.spec_message() == num_err_msg(s@),
{
    let n = s.unicode_len();
    if n == 0 || n > 19 {
        return Err(Error::Parse(
            String::from_str("expected a number of 1 to 19 digits: ").concat(s),
        ));
    }
    let mut value: u64 = 0;
    let mut i: usize = 0;
    while i < n
        invariant
            i <= n,
            n == s@.len(),
            1 <= n <= 19,
            forall|k: int| 0 <= k < i ==> '0' <= #[trigger] s@[k] <= '9',
            value == decimal_of(s@.take(i as int)),
            0 <= value < pow10(i as nat),
        decreases n - i,
    {
        let c = s.get_char(i);
        if c < '0' || c > '9' {
            return Err(Error::Parse(String::from_str("expected only digits: ").concat(s)));
        }
        proof {
            assert(s@.take(i + 1).drop_last() =~= s@.take(i as int));
            lemma_decimal_bound(s@.take(i + 1));
            lemma_pow10_mono(i as nat, 18);
            assert(pow10(0) == 1);
            assert(pow10(1) == 10);
            assert(pow10(2) == 100);
            assert(pow10(3) == 1000);
            assert(pow10(4) == 10000);
            assert(pow10(5) == 100000);
            assert(pow10(6) == 1000000);
            assert(pow10(7) == 10000000);
            assert(pow10(8) == 100000000);
            assert(pow10(9) == 1000000000);
            assert(pow10(10) == 10000000000);
            assert(pow10(11) == 100000000000);
            assert(pow10(12) == 1000000000000);
            assert(pow10(13) == 10000000000000);
            assert(pow10(14) == 100000000000000);
            assert(pow10(15) == 1000000000000000);
            assert(pow10(16) == 10000000000000000);
            assert(pow10(17) == 100000000000000000);
            assert(pow10(18) == 1000000000000000000);
            assert(pow10(19) == 10000000000000000000);
        }
        value = value * 10 + (c as u32 as u64 - 48);
        i += 1;
    }
    proof {
        assert(s@.take(n as int) =~= s@);
    }
    Ok(value)
}

/// The direction of an ordering.
#[derive(Clone, Copy, PartialEq, Eq, Structural)]
pub enum SortDirection {
    Asc,
    Desc,
}

/// Whether `s` names a sort direction.
pub open spec fn valid_direction(s: Seq<char>) -> bool {
    s == "asc"@ || s == "desc"@
}

/// The direction `s` names.
pub open spec fn direction_of(s: Seq<char>) -> SortDirection {
    if s == "asc"@ {
        SortDirection::Asc
    } else {
        SortDirection::Desc
    }
}

fn parse_direction(s: &String) -> (r: Option<SortDirection>)
    ensures
        r is Some <==> valid_direction(s@),
        r matches Some(d) ==> d == direction_of(s@),
{
    let asc = String::from_str("asc");
    let desc = String::from_str("desc");
    if s.eq(&asc) {
        Some(SortDirection::Asc)
    } else if s.eq(&desc) {
        Some(SortDirection::Desc)
    } else {
        None
    }
}

/// A top-N restriction: the best `n` rows per group of `by_level`,
/// ranked by `sort_measure`.
pub struct TopQuery {
    pub n: u64,
    pub by_level: LevelName,
    pub sort_measure: String,
    pub direction: SortDirection,
}

/// The abstract value of a [`TopQuery`].
#[verifier::ext_equal]
pub ghost struct TopView {
    pub n: u64,
    pub by_level: LevelNameView,
    pub sort_measure: Seq<char>,
    pub direction: SortDirection,
}

impl View for TopQuery {
    type V = TopView;

    open spec fn view(&self) -> TopView {
        TopView {
            n: self.n,
            by_level: self.by_level@,
            sort_measure: self.sort_measure@,
            direction: self.direction,
        }
    }
}

/// The `top` option grammar: `n,dimension.hierarchy.level,measure,asc|desc`.
pub open spec fn valid_top(s: Seq<char>) -> bool {
    let cs = split_seq(s, ',');
    &&& cs.len() == 4
    &&& is_digits(cs[0])
    &&& cs[0].len() <= 19
    &&& valid_level_path(split_seq(cs[1], '.'))
    &&& cs[2].len() > 0
    &&& valid_direction(cs[3])
}

/// The value a valid `top` option denotes.
pub open spec fn top_view_of(s: Seq<char>) -> TopView {
    let cs = split_seq(s, ',');
    TopView {
        n: decimal_of(cs[0]) as u64,
        by_level: level_name_of(split_seq(cs[1], '.')),
        sort_measure: cs[2],
        direction: direction_of(cs[3]),
    }
}

/// The message a failed `top` parse carries: it names the bad token.
pub open spec fn top_err_msg(s: Seq<char>) -> Seq<char> {
    let cs = split_seq(s, ',');
    if cs.len() != 4 {
        "top needs n, level, measure and direction: "@ + s
    } else if !(is_digits(cs[0]) && cs[0].len() <= 19) {
        num_err_msg(cs[0])
    } else if !valid_level_path(split_seq(cs[1], '.')) {
        level_err_msg(cs[1])
    } else if cs[2].len() == 0 {
        "top has an empty measure: "@ + s
    } else {
        "top direction must be asc or desc: "@ + s
    }
}

impl TopQuery {
    /// Parses `n,dimension.hierarchy.level,measure,asc|desc`.
    pub fn parse(s: &str) -> (r: Result<TopQuery, Error>)
        ensures
            r is Ok <==> valid_top(s@),
            r matches Ok(t) ==> t@ == top_view_of(s@),
            r matches Err(e) ==> e is Parse && e.spec_message() == top_err_msg(s@),
    {
        let cs = split_str(s, ',');
        if cs.len() != 4 {
            return Err(Error::Parse(
                String::from_str("top needs n, level, measure and direction: ").concat(s),
            ));
        }
        let n = match parse_decimal_u64(cs[0].as_str()) {
            Ok(n) => n,
            Err(e) => { return Err(e) },
        };
        let by_level = match LevelName::parse(cs[1].as_str()) {
            Ok(ln) => ln,
            Err(e) => { return Err(e) },
        };
        if cs[2].as_str().is_empty() {
            return Err(Error::Parse(String::from_str("top has an empty measure: ").concat(s)));
        }
        let direction = match parse_direction(&cs[3]) {
            Some(d) => d,
            None => {
                return Err(Error::Parse(
                    String::from_str("top direction must be asc or desc: ").concat(s),
                ));
            },
        };
        let t = TopQuery { n, by_level, sort_measure: cs[2].clone(), direction };
        proof {
            assert(t@ =~~= top_view_of(s@));
        }
        Ok(t)
    }
}

/// An explicit ordering of the result rows.
pub struct SortQuery {
    pub measure: String,
    pub direction: SortDirection,
}

/// The abstract value of a [`SortQuery`].
#[verifier::ext_equal]
pub ghost struct SortView {
    pub measure: Seq<char>,
    pub direction: SortDirection,
}

impl View for SortQuery {
    type V = SortView;

    open spec fn view(&self) -> SortView {
        SortView { measure: self.measure@, direction: self.direction }
    }
}

/// The `sort` option grammar: `measure.asc` or `measure.desc`.
pub open spec fn valid_sort(s: Seq<char>) -> bool {
    let ds = split_seq(s, '.');
    ds.len() == 2 && ds[0].len() > 0 && valid_direction(ds[1])
}

/// The value a valid `sort` option denotes.
pub open spec fn sort_view_of(s: Seq<char>) -> SortView {
    let ds = split_seq(s, '.');
    SortView { measure: ds[0], direction: direction_of(ds[1]) }
}

/// The message a failed `sort` parse carries: it names the bad token.
pub open spec fn sort_err_msg(s: Seq<char>) -> Seq<char> {
    let ds = split_seq(s, '.');
    if ds.len() != 2 {
        "sort needs a measure and a direction: "@ + s
    } else if ds[0].len() == 0 {
        "sort has an empty measure: "@ + s
    } else {
        "sort direction must be asc or desc: "@ + s
    }
}

impl SortQuery {
    /// Parses `measure.asc` or `measure.desc`.
    pub fn parse(s: &str) -> (r: Result<SortQuery, Error>)
        ensures
            r is Ok <==> valid_sort(s@),
            r matches Ok(t) ==> t@ == sort_view_of(s@),
            r matches Err(e) ==> e is Parse && e.spec_message() == sort_err_msg(s@),
    {
        let ds = split_str(s, '.');
        if ds.len() != 2 {
            return Err(Error::Parse(
                String::from_str("sort needs a measure and a direction: ").concat(s),
            ));
        }
        if ds[0].as_str().is_empty() {
            return Err(Error::Parse(String::from_str("sort has an empty measure: ").concat(s)));
        }
        let direction = match parse_direction(&ds[1]) {
            Some(d) => d,
            None => {
                return Err(Error::Parse(
                    String::from_str("sort direction must be asc or desc: ").concat(s),
                ));
            },
        };
        let t = SortQuery { measure: ds[0].clone(), direction };
        proof {
            assert(t@ =~~= sort_view_of(s@));
        }
        Ok(t)
    }
}

/// A bound on the number of result rows. The digit text is kept beside
/// the parsed value so that the generator can render it verbatim.
pub struct LimitQuery {
    pub n: u64,
    pub raw: String,
}

/// The abstract value of a [`LimitQuery`].
#[verifier::ext_equal]
pub ghost struct LimitView {
    pub n: u64,
    pub raw: Seq<char>,
}

impl View for LimitQuery {
    type V = LimitView;

    open spec fn view(&self) -> LimitView {
        LimitView { n: self.n, raw: self.raw@ }
    }
}

/// The `limit` option grammar: a decimal number of 1 to 19 digits,
/// the widest count every 64-bit value covers.
pub open spec fn valid_limit(s: Seq<char>) -> bool {
    is_digits(s) && s.len() <= 19
}

impl LimitQuery {
    /// Parses a decimal row limit.
    pub fn parse(s: &str) -> (r: Result<LimitQuery, Error>)
        ensures
            r is Ok <==> valid_limit(s@),
            r matches Ok(t) ==> t@ == (LimitView { n: (decimal_of(s@) as u64), raw: s@ }),
            r matches Err(e) ==> e is Parse && e.spec_message() == num_err_msg(s@),
    {
        match parse_decimal_u64(s) {
            Ok(n) => Ok(LimitQuery { n, raw: s.to_owned() }),
            Err(e) => Err(e),
        }
    }
}

/// A growth calculation over a time drilldown:
/// `(current − prior) / prior` of a measure.
pub struct GrowthQuery {
    pub time_level: LevelName,
    pub measure: String,
}

/// The abstract value of a [`GrowthQuery`].
#[verifier::ext_equal]
pub ghost struct GrowthView {
    pub time_level: LevelNameView,
    pub measure: Seq<char>,
}

impl View for GrowthQuery {
    type V = GrowthView;

    open spec fn view(&self) -> GrowthView {
        GrowthView { time_level: self.time_level@, measure: self.measure@ }
    }
}

/// The `growth` option grammar: `dimension.hierarchy.level,measure`.
pub open spec fn valid_growth(s: Seq<char>) -> bool {
    let cs = split_seq(s, ',');
    cs.len() == 2 && valid_level_path(split_seq(cs[0], '.')) && cs[1].len() > 0
}

/// The value a valid `growth` option denotes.
pub open spec fn growth_view_of(s: Seq<char>) -> GrowthView {
    let cs = split_seq(s, ',');
    GrowthView { time_level: level_name_of(split_seq(cs[0], '.')), measure: cs[1] }
}

/// The message a failed `growth` parse carries: it names the bad
/// token.
pub open spec fn growth_err_msg(s: Seq<char>) -> Seq<char> {
    let cs = split_seq(s, ',');
    if cs.len() != 2 {
        "growth needs a time level and a measure: "@ + s
    } else if !valid_level_path(split_seq(cs[0], '.')) {
        level_err_msg(cs[0])
    } else {
        "growth has an empty measure: "@ + s
    }
}

impl GrowthQuery {
    /// Parses `dimension.hierarchy.level,measure`.
    pub fn parse(s: &str) -> (r: Result<GrowthQuery, Error>)
        ensures
            r is Ok <==> valid_growth(s@),
            r matches Ok(t) ==> t@ == growth_view_of(s@),
            r matches Err(e) ==> e is Parse && e.spec_message() == growth_err_msg(s@),
    {
        let cs = split_str(s, ',');
        if cs.len() != 2 {
            return Err(Error::Parse(
                String::from_str("growth needs a time level and a measure: ").concat(s),
            ));
        }
        let time_level = match LevelName::parse(cs[0].as_str()) {
            Ok(ln) => ln,
            Err(e) => { return Err(e) },
        };
        if cs[1].as_str().is_empty() {
            return Err(Error::Parse(String::from_str("growth has an empty measure: ").concat(s)));
        }
        let t = GrowthQuery { time_level, measure: cs[1].clone() };
        proof {
            assert(t@ =~~= growth_view_of(s@));
        }
        Ok(t)
    }
}

/// A revealed-comparative-advantage calculation: the ratio of a
/// member's share of a measure within its group to the overall share.
pub struct RcaQuery {
    pub drill1: LevelName,
    pub drill2: LevelName,
    pub measure: String,
}

/// The abstract value of an [`RcaQuery`].
#[verifier::ext_equal]
pub ghost struct RcaView {
    pub drill1: LevelNameView,
    pub drill2: LevelNameView,
    pub measure: Seq<char>,
}

impl View for RcaQuery {
    type V = RcaView;

    open spec fn view(&self) -> RcaView {
        RcaView { drill1: self.drill1@, drill2: self.drill2@, measure: self.measure@ }
    }
}

/// The `rca` option grammar: `level,level,measure` with dotted level
/// paths.
pub open spec fn valid_rca(s: Seq<char>) -> bool {
    let cs = split_seq(s, ',');
    &&& cs.len() == 3
    &&& valid_level_path(split_seq(cs[0], '.'))
    &&& valid_level_path(split_seq(cs[1], '.'))
    &&& cs[2].len() > 0
}

/// The value a valid `rca` option denotes.
pub open spec fn rca_view_of(s: Seq<char>) -> RcaView {
    let cs = split_seq(s, ',');
    RcaView {
        drill1: level_name_of(split_seq(cs[0], '.')),
        drill2: level_name_of(split_seq(cs[1], '.')),
        measure: cs[2],
    }
}

/// The message a failed `rca` parse carries: it names the bad token.
pub open spec fn rca_err_msg(s: Seq<char>) -> Seq<char> {
    let cs = split_seq(s, ',');
    if cs.len() != 3 {
        "rca needs two levels and a measure: "@ + s
    } else if !valid_level_path(split_seq(cs[0], '.')) {
        level_err_msg(cs[0])
    } else if !valid_level_path(split_seq(cs[1], '.')) {
        level_err_msg(cs[1])
    } else {
        "rca has an empty measure: "@ + s
    }
}

impl RcaQuery {
    /// Parses `level,level,measure` with dotted level paths.
    pub fn parse(s: &str) -> (r: Result<RcaQuery, Error>)
        ensures
            r is Ok <==> valid_rca(s@),
            r matches Ok(t) ==> t@ == rca_view_of(s@),
            r matches Err(e) ==> e is Parse && e.spec_message() == rca_err_msg(s@),
    {
        let cs = split_str(s, ',');
        if cs.len() != 3 {
            return Err(Error::Parse(
                String::from_str("rca needs two levels and a measure: ").concat(s),
            ));
        }
        let drill1 = match LevelName::parse(cs[0].as_str()) {
            Ok(ln) => ln,
            Err(e) => { return Err(e) },
        };
        let drill2 = match LevelName::parse(cs[1].as_str()) {
            Ok(ln) => ln,
            Err(e) => { return Err(e) },
        };
        if cs[2].as_str().is_empty() {
            return Err(Error::Parse(String::from_str("rca has an empty measure: ").concat(s)));
        }
        let t = RcaQuery { drill1, drill2, measure: cs[2].clone() };
        proof {
            assert(t@ =~~= rca_view_of(s@));
        }
        Ok(t)
    }
}

/// A rate calculation: the share of a measure taken by the named
/// members of a level.
pub struct RateQuery {
    pub level_name: LevelName,
    pub values: Vec<String>,
}

/// The abstract value of a [`RateQuery`].
#[verifier::ext_equal]
pub ghost struct RateView {
    pub level_name: LevelNameView,
    pub values: Seq<Seq<char>>,
}

impl View for RateQuery {
    type V = RateView;

    open spec fn view(&self) -> RateView {
        RateView { level_name: self.level_name@, values: self.values.deep_view() }
    }
}

/// The `rate` option grammar: `dimension.hierarchy.level.v1,v2,...`
/// with at least one non-empty value.
pub open spec fn valid_rate(s: Seq<char>) -> bool {
    let parts = split_seq(s, '.');
    &&& parts.len() == 4
    &&& parts[0].len() > 0
    &&& parts[1].len() > 0
    &&& parts[2].len() > 0
    &&& valid_members(split_seq(parts[3], ','))
}

/// The value a valid `rate` option denotes.
pub open spec fn rate_view_of(s: Seq<char>) -> RateView {
    let parts = split_seq(s, '.');
    RateView { level_name: level_name_of(parts), values: split_seq(parts[3], ',') }
}

/// The message a failed `rate` parse carries: it names the bad token.
pub open spec fn rate_err_msg(s: Seq<char>) -> Seq<char> {
    let parts = split_seq(s, '.');
    if parts.len() != 4 {
        "rate needs a level path and values: "@ + s
    } else if parts[0].len() == 0 || parts[1].len() == 0 || parts[2].len() == 0 {
        "rate has an empty level segment: "@ + s
    } else {
        "rate has an empty value: "@ + s
    }
}

impl RateQuery {
    /// Parses `dimension.hierarchy.level.v1,v2,...`.
    pub fn parse(s: &str) -> (r: Result<RateQuery, Error>)
        ensures
            r is Ok <==> valid_rate(s@),
            r matches Ok(t) ==> t@ == rate_view_of(s@),
            r matches Err(e) ==> e is Parse && e.spec_message() == rate_err_msg(s@),
    {
        let parts = split_str(s, '.');
        if parts.len() != 4 {
            return Err(Error::Parse(
                String::from_str("rate needs a level path and values: ").concat(s),
            ));
        }
        if parts[0].as_str().is_empty() || parts[1].as_str().is_empty()
            || parts[2].as_str().is_empty() {
            return Err(Error::Parse(
                String::from_str("rate has an empty level segment: ").concat(s),
            ));
        }
        let level_name = LevelName {
            dimension: parts[0].clone(),
            hierarchy: parts[1].clone(),
            level: parts[2].clone(),
        };
        let values = split_str(parts[3].as_str(), ',');
        let mut j: usize = 0;
        while j < values.len()
            invariant
                j <= values.len(),
                split_seq(s@, '.').len() == 4,
                split_seq(s@, '.')[0].len() > 0,
                split_seq(s@, '.')[1].len() > 0,
                split_seq(s@, '.')[2].len() > 0,
                values.deep_view() == split_seq(split_seq(s@, '.')[3], ','),
                forall|k: int| 0 <= k < j ==> #[trigger] values.deep_view()[k].len() > 0,
            decreases values.len() - j,
        {
            if values[j].as_str().is_empty() {
                proof {
                    assert(values.deep_view()[j as int] == values@[j as int]@);
                }
                return Err(Error::Parse(String::from_str("rate has an empty value: ").concat(s)));
            }
            j += 1;
        }
        proof {
            lemma_split_seq_len(split_seq(s@, '.')[3], ',');
        }
        let t = RateQuery { level_name, values };
        proof {
            assert(t@ =~~= rate_view_of(s@));
        }
        Ok(t)
    }
}

/// A filter expression, carried through verbatim for the caller's
/// dialect to interpret.
pub struct Filter(pub String);

impl View for Filter {
    type V = Seq<char>;

    open spec fn view(&self) -> Seq<char> {
        self.0@
    }
}

impl Filter {
    /// Parses a filter expression: a pass-through.
    pub fn parse(s: &str) -> (r: Filter)
        ensures
            r@ == s@,
    {
        Filter(s.to_owned())
    }
}

/// The raw, string-keyed option set recognized at the query
/// construction boundary.
pub struct AggregateQueryOpt {
    pub drilldowns: Option<Vec<String>>,
    pub cuts: Option<Vec<String>>,
    pub measures: Option<Vec<String>>,
    pub properties: Option<Vec<String>>,
    pub filters: Option<Vec<String>>,
    pub captions: Option<Vec<String>>,
    pub parents: Option<bool>,
    pub top: Option<String>,
    pub top_where: Option<String>,
    pub sort: Option<String>,
    pub limit: Option<String>,
    pub growth: Option<String>,
    pub rca: Option<String>,
    pub rate: Option<String>,
    pub debug: Option<bool>,
    pub exclude_default_members: Option<bool>,
    pub sparse: Option<bool>,
}

/// The abstract value of an [`AggregateQueryOpt`].
#[verifier::ext_equal]
pub ghost struct AggregateQueryOptView {
    pub drilldowns: Option<Seq<Seq<char>>>,
    pub cuts: Option<Seq<Seq<char>>>,
    pub measures: Option<Seq<Seq<char>>>,
    pub properties: Option<Seq<Seq<char>>>,
    pub filters: Option<Seq<Seq<char>>>,
    pub captions: Option<Seq<Seq<char>>>,
    pub parents: Option<bool>,
    pub top: Option<Seq<char>>,
    pub top_where: Option<Seq<char>>,
    pub sort: Option<Seq<char>>,
    pub limit: Option<Seq<char>>,
    pub growth: Option<Seq<char>>,
    pub rca: Option<Seq<char>>,
    pub rate: Option<Seq<char>>,
    pub debug: Option<bool>,
    pub exclude_default_members: Option<bool>,
    pub sparse: Option<bool>,
}

/// The view of an optional list of strings.
pub open spec fn opt_list_view(o: Option<Vec<String>>) -> Option<Seq<Seq<char>>> {
    match o {
        Some(v) => Some(v.deep_view()),
        None => None,
    }
}

/// The view of an optional string.
pub open spec fn opt_str_view(o: Option<String>) -> Option<Seq<char>> {
    match o {
        Some(s) => Some(s@),
        None => None,
    }
}

impl View for AggregateQueryOpt {
    type V = AggregateQueryOptView;

    open spec fn view(&self) -> AggregateQueryOptView {
        AggregateQueryOptView {
            drilldowns: opt_list_view(self.drilldowns),
            cuts: opt_list_view(self.cuts),
            measures: opt_list_view(self.measures),
            properties: opt_list_view(self.properties),
            filters: opt_list_view(self.filters),
            captions: opt_list_view(self.captions),
            parents: self.parents,
            top: opt_str_view(self.top),
            top_where: opt_str_view(self.top_where),
            sort: opt_str_view(self.sort),
            limit: opt_str_view(self.limit),
            growth: opt_str_view(self.growth),
            rca: opt_str_view(self.rca),
            rate: opt_str_view(self.rate),
            debug: self.debug,
            exclude_default_members: self.exclude_default_members,
            sparse: self.sparse,
        }
    }
}

/// The parsed, validated request: what the compiler consumes.
pub struct Query {
    pub drilldowns: Vec<Drilldown>,
    pub cuts: Vec<Cut>,
    pub measures: Vec<Measure>,
    pub parents: bool,
    pub properties: Vec<Property>,
    pub filters: Vec<Filter>,
    pub captions: Vec<Property>,
    pub top: Option<TopQuery>,
    pub top_where: Option<Filter>,
    pub sort: Option<SortQuery>,
    pub limit: Option<LimitQuery>,
    pub rca: Option<RcaQuery>,
    pub growth: Option<GrowthQuery>,
    pub debug: bool,
    pub rate: Option<RateQuery>,
    pub sparse: bool,
    pub exclude_default_members: bool,
}

/// The abstract value of a [`Query`].
#[verifier::ext_equal]
pub ghost struct QueryView {
    pub drilldowns: Seq<LevelNameView>,
    pub cuts: Seq<CutView>,
    pub measures: Seq<Seq<char>>,
    pub parents: bool,
    pub properties: Seq<PropertyView>,
    pub filters: Seq<Seq<char>>,
    pub captions: Seq<PropertyView>,
    pub top: Option<TopView>,
    pub top_where: Option<Seq<char>>,
    pub sort: Option<SortView>,
    pub limit: Option<LimitView>,
    pub rca: Option<RcaView>,
    pub growth: Option<GrowthView>,
    pub debug: bool,
    pub rate: Option<RateView>,
    pub sparse: bool,
    pub exclude_default_members: bool,
}

impl View for Query {
    type V = QueryView;

    open spec fn view(&self) -> QueryView {
        QueryView {
            drilldowns: self.drilldowns@.map_values(|d: Drilldown| d@),
            cuts: self.cuts@.map_values(|c: Cut| c@),
            measures: self.measures@.map_values(|m: Measure| m@),
            parents: self.parents,
            properties: self.properties@.map_values(|p: Property| p@),
            filters: self.filters@.map_values(|f: Filter| f@),
            captions: self.captions@.map_values(|p: Property| p@),
            top: match self.top {
                Some(t) => Some(t@),
                None => None,
            },
            top_where: match self.top_where {
                Some(t) => Some(t@),
                None => None,
            },
            sort: match self.sort {
                Some(t) => Some(t@),
                None => None,
            },
            limit: match self.limit {
                Some(t) => Some(t@),
                None => None,
            },
            rca: match self.rca {
                Some(t) => Some(t@),
                None => None,
            },
            growth: match self.growth {
                Some(t) => Some(t@),
                None => None,
            },
            debug: self.debug,
            rate: match self.rate {
                Some(t) => Some(t@),
                None => None,
            },
            sparse: self.sparse,
            exclude_default_members: self.exclude_default_members,
        }
    }
}

/// Whether every entry of an optional drilldown list parses.
pub open spec fn drills_ok(o: Option<Seq<Seq<char>>>) -> bool {
    match o {
        Some(es) => forall|i: int|
            0 <= i < es.len() ==> valid_level_path(split_seq(#[trigger] es[i], '.')),
        None => true,
    }
}

/// The level names an optional drilldown list denotes.
pub open spec fn drills_of(o: Option<Seq<Seq<char>>>) -> Seq<LevelNameView> {
    match o {
        Some(es) => Seq::new(es.len(), |i: int| level_name_of(split_seq(es[i], '.'))),
        None => Seq::<LevelNameView>::empty(),
    }
}

/// Whether every entry of an optional cut list parses.
pub open spec fn cuts_ok(o: Option<Seq<Seq<char>>>) -> bool {
    match o {
        Some(es) => forall|i: int|
            0 <= i < es.len() ==> valid_cut_path(split_seq(#[trigger] es[i], '.')),
        None => true,
    }
}

/// The value one valid cut string denotes.
pub open spec fn cut_view_of(s: Seq<char>) -> CutView {
    let parts = split_seq(s, '.');
    CutView {
        level_name: level_name_of(parts),
        members: split_seq(cut_member_body(parts[3]), ','),
        exclusive: cut_exclusive(parts[3]),
    }
}

/// The cuts an optional cut list denotes.
pub open spec fn cuts_of(o: Option<Seq<Seq<char>>>) -> Seq<CutView> {
    match o {
        Some(es) => Seq::new(es.len(), |i: int| cut_view_of(es[i])),
        None => Seq::<CutView>::empty(),
    }
}

/// The measure names an optional measure list denotes; measure parsing
/// is a pass-through and never fails.
pub open spec fn measures_of(o: Option<Seq<Seq<char>>>) -> Seq<Seq<char>> {
    match o {
        Some(es) => es,
        None => Seq::<Seq<char>>::empty(),
    }
}

/// Whether every entry of an optional property list parses.
pub open spec fn props_ok(o: Option<Seq<Seq<char>>>) -> bool {
    match o {
        Some(es) => forall|i: int|
            0 <= i < es.len() ==> valid_property_path(split_seq(#[trigger] es[i], '.')),
        None => true,
    }
}

/// The value one valid property string denotes.
pub open spec fn property_view_of(s: Seq<char>) -> PropertyView {
    let parts = split_seq(s, '.');
    PropertyView { level_name: level_name_of(parts), property: parts[3] }
}

/// The properties an optional property list denotes.
pub open spec fn props_of(o: Option<Seq<Seq<char>>>) -> Seq<PropertyView> {
    match o {
        Some(es) => Seq::new(es.len(), |i: int| property_view_of(es[i])),
        None => Seq::<PropertyView>::empty(),
    }
}

/// Whether an optional single-valued option parses under `valid`.
pub open spec fn opt_ok(o: Option<Seq<char>>, valid: spec_fn(Seq<char>) -> bool) -> bool {
    match o {
        Some(s) => valid(s),
        None => true,
    }
}

/// Whether every option of the set parses, so that the conversion to a
/// [`Query`] succeeds.
pub open spec fn agg_query_opt_ok(o: AggregateQueryOptView) -> bool {
    &&& drills_ok(o.drilldowns)
    &&& cuts_ok(o.cuts)
    &&& props_ok(o.properties)
    &&& props_ok(o.captions)
    &&& opt_ok(o.top, |s: Seq<char>| valid_top(s))
    &&& opt_ok(o.sort, |s: Seq<char>| valid_sort(s))
    &&& opt_ok(o.limit, |s: Seq<char>| valid_limit(s))
    &&& opt_ok(o.growth, |s: Seq<char>| valid_growth(s))
    &&& opt_ok(o.rca, |s: Seq<char>| valid_rca(s))
    &&& opt_ok(o.rate, |s: Seq<char>| valid_rate(s))
}

/// The default of an optional flag.
pub open spec fn flag_of(o: Option<bool>) -> bool {
    match o {
        Some(b) => b,
        None => false,
    }
}

/// Whether `msg` is the parse failure of some invalid option of the
/// set: the underlying error naming the bad token.
pub open spec fn conversion_err_named(o: AggregateQueryOptView, msg: Seq<char>) -> bool {
    ||| (o.drilldowns matches Some(es) && exists|i: int|
        0 <= i < es.len() && !valid_level_path(split_seq(#[trigger] es[i], '.')) && msg
            == level_err_msg(es[i]))
    ||| (o.cuts matches Some(es) && exists|i: int|
        0 <= i < es.len() && !valid_cut_path(split_seq(#[trigger] es[i], '.')) && msg
            == cut_err_msg(es[i]))
    ||| (o.properties matches Some(es) && exists|i: int|
        0 <= i < es.len() && !valid_property_path(split_seq(#[trigger] es[i], '.')) && msg
            == prop_err_msg(es[i]))
    ||| (o.captions matches Some(es) && exists|i: int|
        0 <= i < es.len() && !valid_property_path(split_seq(#[trigger] es[i], '.')) && msg
            == prop_err_msg(es[i]))
    ||| (o.top matches Some(s) && !valid_top(s) && msg == top_err_msg(s))
    ||| (o.sort matches Some(s) && !valid_sort(s) && msg == sort_err_msg(s))
    ||| (o.limit matches Some(s) && !valid_limit(s) && msg == num_err_msg(s))
    ||| (o.growth matches Some(s) && !valid_growth(s) && msg == growth_err_msg(s))
    ||| (o.rca matches Some(s) && !valid_rca(s) && msg == rca_err_msg(s))
    ||| (o.rate matches Some(s) && !valid_rate(s) && msg == rate_err_msg(s))
}

/// The query a fully valid option set denotes.
pub open spec fn query_of(o: AggregateQueryOptView) -> QueryView {
    QueryView {
        drilldowns: drills_of(o.drilldowns),
        cuts: cuts_of(o.cuts),
        measures: measures_of(o.measures),
        parents: flag_of(o.parents),
        properties: props_of(o.properties),
        filters: measures_of(o.filters),
        captions: props_of(o.captions),
        top: match o.top {
            Some(s) => Some(top_view_of(s)),
            None => None,
        },
        top_where: o.top_where,
        sort: match o.sort {
            Some(s) => Some(sort_view_of(s)),
            None => None,
        },
        limit: match o.limit {
            Some(s) => Some(LimitView { n: decimal_of(s) as u64, raw: s }),
            None => None,
        },
        rca: match o.rca {
            Some(s) => Some(rca_view_of(s)),
            None => None,
        },
        growth: match o.growth {
            Some(s) => Some(growth_view_of(s)),
            None => None,
        },
        debug: flag_of(o.debug),
        rate: match o.rate {
            Some(s) => Some(rate_view_of(s)),
            None => None,
        },
        sparse: flag_of(o.sparse),
        exclude_default_members: flag_of(o.exclude_default_members),
    }
}

impl Query {
    /// Converts a raw option set into the validated query form.
    ///
    /// Succeeds exactly when every present option parses under its
    /// grammar; the first malformed option fails the whole conversion.
    #[verifier::loop_isolation(false)]
    pub fn try_from(opt: AggregateQueryOpt) -> (r: Result<Query, Error>)
        ensures
            r is Ok <==> agg_query_opt_ok(opt@),
            r matches Ok(q) ==> q@ == query_of(opt@),
            r matches Err(e) ==> e is Parse && conversion_err_named(opt@, e.spec_message()),
    {
        let ghost o = opt@;

        let drilldowns: Vec<Drilldown> = match &opt.drilldowns {
            Some(ds) => {
                let mut acc: Vec<Drilldown> = Vec::new();
                let mut i: usize = 0;
                while i < ds.len()
                    invariant
                        i <= ds.len(),
                        acc@.len() == i,
                        forall|k: int|
                            0 <= k < i ==> valid_level_path(
                                split_seq(#[trigger] ds.deep_view()[k], '.'),
                            ),
                        forall|k: int|
                            0 <= k < i ==> #[trigger] acc@[k]@ == level_name_of(
                                split_seq(ds.deep_view()[k], '.'),
                            ),
                    decreases ds.len() - i,
                {
                    match Drilldown::parse(ds[i].as_str()) {
                        Ok(d) => acc.push(d),
                        Err(e) => {
                            proof {
                                assert(ds.deep_view()[i as int] == ds@[i as int]@);
                                assert(o.drilldowns == Some(ds.deep_view()));
                                assert(!drills_ok(o.drilldowns));
                            }
                            return Err(e);
                        },
                    }
                    i += 1;
                }
                proof {
                    assert(acc@.map_values(|d: Drilldown| d@) =~~= drills_of(o.drilldowns));
                }
                acc
            },
            None => Vec::new(),
        };

        let cuts: Vec<Cut> = match &opt.cuts {
            Some(cs) => {
                let mut acc: Vec<Cut> = Vec::new();
                let mut i: usize = 0;
                while i < cs.len()
                    invariant
                        i <= cs.len(),
                        acc@.len() == i,
                        forall|k: int|
                            0 <= k < i ==> valid_cut_path(
                                split_seq(#[trigger] cs.deep_view()[k], '.'),
                            ),
                        forall|k: int|
                            0 <= k < i ==> #[trigger] acc@[k]@ == cut_view_of(cs.deep_view()[k]),
                    decreases cs.len() - i,
                {
                    match Cut::parse(cs[i].as_str()) {
                        Ok(c) => acc.push(c),
                        Err(e) => {
                            proof {
                                assert(cs.deep_view()[i as int] == cs@[i as int]@);
                                assert(!cuts_ok(o.cuts));
                            }
                            return Err(e);
                        },
                    }
                    i += 1;
                }
                proof {
                    assert(acc@.map_values(|c: Cut| c@) =~~= cuts_of(o.cuts));
                }
                acc
            },
            None => Vec::new(),
        };

        let measures: Vec<Measure> = match &opt.measures {
            Some(ms) => {
                let mut acc: Vec<Measure> = Vec::new();
                let mut i: usize = 0;
                while i < ms.len()
                    invariant
                        i <= ms.len(),
                        acc@.len() == i,
                        forall|k: int| 0 <= k < i ==> #[trigger] acc@[k]@ == ms.deep_view()[k],
                    decreases ms.len() - i,
                {
                    acc.push(Measure::parse(ms[i].as_str()));
                    i += 1;
                }
                proof {
                    assert(acc@.map_values(|m: Measure| m@) =~~= measures_of(o.measures));
                }
                acc
            },
            None => Vec::new(),
        };

        let properties: Vec<Property> = match &opt.properties {
            Some(ps) => {
                let mut acc: Vec<Property> = Vec::new();
                let mut i: usize = 0;
                while i < ps.len()
                    invariant
                        i <= ps.len(),
                        acc@.len() == i,
                        forall|k: int|
                            0 <= k < i ==> valid_property_path(
                                split_seq(#[trigger] ps.deep_view()[k], '.'),
                            ),
                        forall|k: int|
                            0 <= k < i ==> #[trigger] acc@[k]@ == property_view_of(
                                ps.deep_view()[k],
                            ),
                    decreases ps.len() - i,
                {
                    match Property::parse(ps[i].as_str()) {
                        Ok(p) => acc.push(p),
                        Err(e) => {
                            proof {
                                assert(ps.deep_view()[i as int] == ps@[i as int]@);
                                assert(!props_ok(o.properties));
                            }
                            return Err(e);
                        },
                    }
                    i += 1;
                }
                proof {
                    assert(acc@.map_values(|p: Property| p@) =~~= props_of(o.properties));
                }
                acc
            },
            None => Vec::new(),
        };

        let filters: Vec<Filter> = match &opt.filters {
            Some(fs) => {
                let mut acc: Vec<Filter> = Vec::new();
                let mut i: usize = 0;
                while i < fs.len()
                    invariant
                        i <= fs.len(),
                        acc@.len() == i,
                        forall|k: int| 0 <= k < i ==> #[trigger] acc@[k]@ == fs.deep_view()[k],
                    decreases fs.len() - i,
                {
                    acc.push(Filter::parse(fs[i].as_str()));
                    i += 1;
                }
                proof {
                    assert(acc@.map_values(|f: Filter| f@) =~~= measures_of(o.filters));
                }
                acc
            },
            None => Vec::new(),
        };

        let captions: Vec<Property> = match &opt.captions {
            Some(ps) => {
                let mut acc: Vec<Property> = Vec::new();
                let mut i: usize = 0;
                while i < ps.len()
                    invariant
                        i <= ps.len(),
                        acc@.len() == i,
                        forall|k: int|
                            0 <= k < i ==> valid_property_path(
                                split_seq(#[trigger] ps.deep_view()[k], '.'),
                            ),
                        forall|k: int|
                            0 <= k < i ==> #[trigger] acc@[k]@ == property_view_of(
                                ps.deep_view()[k],
                            ),
                    decreases ps.len() - i,
                {
                    match Property::parse(ps[i].as_str()) {
                        Ok(p) => acc.push(p),
                        Err(e) => {
                            proof {
                                assert(ps.deep_view()[i as int] == ps@[i as int]@);
                                assert(!props_ok(o.captions));
                            }
                            return Err(e);
                        },
                    }
                    i += 1;
                }
                proof {
                    assert(acc@.map_values(|p: Property| p@) =~~= props_of(o.captions));
                }
                acc
            },
            None => Vec::new(),
        };

        let parents = match opt.parents {
            Some(b) => b,
            None => false,
        };

        let top = match &opt.top {
            Some(s) => match TopQuery::parse(s.as_str()) {
                Ok(t) => Some(t),
                Err(e) => { return Err(e) },
            },
            None => None,
        };
        let top_where = match &opt.top_where {
            Some(s) => Some(Filter::parse(s.as_str())),
            None => None,
        };
        let sort = match &opt.sort {
            Some(s) => match SortQuery::parse(s.as_str()) {
                Ok(t) => Some(t),
                Err(e) => { return Err(e) },
            },
            None => None,
        };
        let limit = match &opt.limit {
            Some(s) => match LimitQuery::parse(s.as_str()) {
                Ok(t) => Some(t),
                Err(e) => { return Err(e) },
            },
            None => None,
        };
        let growth = match &opt.growth {
            Some(s) => match GrowthQuery::parse(s.as_str()) {
                Ok(t) => Some(t),
                Err(e) => { return Err(e) },
            },
            None => None,
        };
        let rca = match &opt.rca {
            Some(s) => match RcaQuery::parse(s.as_str()) {
                Ok(t) => Some(t),
                Err(e) => { return Err(e) },
            },
            None => None,
        };
        let rate = match &opt.rate {
            Some(s) => match RateQuery::parse(s.as_str()) {
                Ok(t) => Some(t),
                Err(e) => { return Err(e) },
            },
            None => None,
        };

        let debug = match opt.debug {
            Some(b) => b,
            None => false,
        };
        let sparse = match opt.sparse {
            Some(b) => b,
            None => false,
        };
        let exclude_default_members = match opt.exclude_default_members {
            Some(b) => b,
            None => false,
        };

        let q = Query {
            drilldowns,
            cuts,
            measures,
            parents,
            properties,
            filters,
            captions,
            top,
            top_where,
            sort,
            limit,
            rca,
            growth,
            debug,
            rate,
            sparse,
            exclude_default_members,
        };
        proof {
            assert(q@ =~~= query_of(o));
        }
        Ok(q)
    }
}

} // verus!
