//! The identifier model: structured names parsed from dotted path strings.
//!
//! A `LevelName` is the canonical three-segment path
//! `dimension.hierarchy.level` identifying a level within a cube. Cut
//! strings carry a trailing member segment beyond the level path; the
//! member segment is a comma-separated, non-empty list of member ids,
//! optionally prefixed with `~` for exclusive (negated) semantics.
//! Measure names have no path structure and parse as themselves.

use vstd::prelude::*;
use vstd::string::*;

use crate::error::Error;
use crate::text::{
    has_no_char,
    join_seq,
    join_strs,
    lemma_split_append_free,
    lemma_split_append_sep,
    lemma_split_free,
    lemma_split_seq_len,
    split_seq,
    split_str,
};

verus! {

/// The abstract value of a [`LevelName`]: its three path segments.
#[verifier::ext_equal]
pub ghost struct LevelNameView {
    pub dimension: Seq<char>,
    pub hierarchy: Seq<char>,
    pub level: Seq<char>,
}

/// The abstract value of a [`Cut`].
#[verifier::ext_equal]
pub ghost struct CutView {
    pub level_name: LevelNameView,
    pub members: Seq<Seq<char>>,
    pub exclusive: bool,
}

/// The abstract value of a [`Property`].
#[verifier::ext_equal]
pub ghost struct PropertyView {
    pub level_name: LevelNameView,
    pub property: Seq<char>,
}

/// Exactly three segments, none of them empty: the shape a level path
/// must have after splitting on `.`.
pub open spec fn valid_level_path(parts: Seq<Seq<char>>) -> bool {
    parts.len() == 3 && parts[0].len() > 0 && parts[1].len() > 0 && parts[2].len() > 0
}

/// The level name formed from the first three segments of `parts`.
pub open spec fn level_name_of(parts: Seq<Seq<char>>) -> LevelNameView {
    LevelNameView { dimension: parts[0], hierarchy: parts[1], level: parts[2] }
}

/// Whether a cut's member segment asks for exclusive semantics.
pub open spec fn cut_exclusive(seg: Seq<char>) -> bool {
    seg.len() > 0 && seg[0] == '~'
}

/// The member segment with its `~` marker, if any, stripped.
pub open spec fn cut_member_body(seg: Seq<char>) -> Seq<char> {
    if cut_exclusive(seg) {
        seg.skip(1)
    } else {
        seg
    }
}

/// At least one member id, and no member id empty.
pub open spec fn valid_members(ms: Seq<Seq<char>>) -> bool {
    ms.len() >= 1 && forall|i: int| 0 <= i < ms.len() ==> #[trigger] ms[i].len() > 0
}

/// The shape a cut path must have: a level path plus one member segment
/// whose body splits into valid member ids.
pub open spec fn valid_cut_path(parts: Seq<Seq<char>>) -> bool {
    &&& parts.len() == 4
    &&& parts[0].len() > 0
    &&& parts[1].len() > 0
    &&& parts[2].len() > 0
    &&& valid_members(split_seq(cut_member_body(parts[3]), ','))
}

/// The shape a property path must have: a level path plus one non-empty
/// property-name segment.
pub open spec fn valid_property_path(parts: Seq<Seq<char>>) -> bool {
    parts.len() == 4 && parts[0].len() > 0 && parts[1].len() > 0 && parts[2].len() > 0
        && parts[3].len() > 0
}

/// The dotted rendering of a level name, used when an error must name
/// the identifier.
pub open spec fn level_path_text(ln: LevelNameView) -> Seq<char> {
    ln.dimension + "."@ + ln.hierarchy + "."@ + ln.level
}

/// The message a failed level-name parse carries: it names the
/// offending string.
pub open spec fn level_err_msg(s: Seq<char>) -> Seq<char> {
    "invalid level name: "@ + s
}

/// The message a failed segment-list parse carries: it names the
/// offending segments, joined back into their dotted form.
pub open spec fn vec_level_err_msg(parts: Seq<Seq<char>>) -> Seq<char> {
    if parts.len() != 3 {
        "level name needs exactly three segments: "@ + join_seq(parts, "."@)
    } else {
        "level name has an empty segment: "@ + join_seq(parts, "."@)
    }
}

/// The message a failed cut parse carries: it names the offending
/// string.
pub open spec fn cut_err_msg(s: Seq<char>) -> Seq<char> {
    let parts = split_seq(s, '.');
    if parts.len() != 4 {
        "cut needs a level path and a member segment: "@ + s
    } else if parts[0].len() == 0 || parts[1].len() == 0 || parts[2].len() == 0 {
        "cut has an empty level segment: "@ + s
    } else {
        "cut has an empty member id: "@ + s
    }
}

/// The message a failed property parse carries: it names the offending
/// string.
pub open spec fn prop_err_msg(s: Seq<char>) -> Seq<char> {
    let parts = split_seq(s, '.');
    if parts.len() != 4 {
        "property needs a level path and a property name: "@ + s
    } else {
        "property has an empty segment: "@ + s
    }
}

/// The canonical three-part path identifying a level within a cube.
pub struct LevelName {
    pub dimension: String,
    pub hierarchy: String,
    pub level: String,
}

impl View for LevelName {
    type V = LevelNameView;

    open spec fn view(&self) -> LevelNameView {
        LevelNameView {
            dimension: self.dimension@,
            hierarchy: self.hierarchy@,
            level: self.level@,
        }
    }
}

impl Clone for LevelName {
    fn clone(&self) -> (r: LevelName)
        ensures
            r@ == self@,
    {
        let r = LevelName {
            dimension: self.dimension.clone(),
            hierarchy: self.hierarchy.clone(),
            level: self.level.clone(),
        };
        proof {
            assert(r@ =~= self@);
        }
        r
    }
}

impl LevelName {
    /// Builds a level name from a list of already-split segments.
    ///
    /// Succeeds exactly when the list has three non-empty segments.
    pub fn from_vec(segments: &Vec<String>) -> (r: Result<LevelName, Error>)
        ensures
            r is Ok <==> valid_level_path(segments.deep_view()),
            r matches Ok(ln) ==> ln@ == level_name_of(segments.deep_view()),
            r matches Err(e) ==> e is Parse && e.spec_message() == vec_level_err_msg(
                segments.deep_view(),
            ),
    {
        if segments.len() != 3 {
            let joined = join_strs(segments, ".");
            return Err(Error::Parse(
                String::from_str("level name needs exactly three segments: ").concat(
                    joined.as_str(),
                ),
            ));
        }
        if segments[0].as_str().is_empty() || segments[1].as_str().is_empty()
            || segments[2].as_str().is_empty() {
            let joined = join_strs(segments, ".");
            return Err(Error::Parse(
                String::from_str("level name has an empty segment: ").concat(joined.as_str()),
            ));
        }
        let ln = LevelName {
            dimension: segments[0].clone(),
            hierarchy: segments[1].clone(),
            level: segments[2].clone(),
        };
        proof {
            assert(ln@ =~= level_name_of(segments.deep_view()));
        }
        Ok(ln)
    }

    /// Parses a dotted `dimension.hierarchy.level` string.
    pub fn parse(s: &str) -> (r: Result<LevelName, Error>)
        ensures
            r is Ok <==> valid_level_path(split_seq(s@, '.')),
            r matches Ok(ln) ==> ln@ == level_name_of(split_seq(s@, '.')),
            r matches Err(e) ==> e is Parse && e.spec_message() == level_err_msg(s@),
    {
        let parts = split_str(s, '.');
        match LevelName::from_vec(&parts) {
            Ok(ln) => Ok(ln),
            Err(_) => Err(Error::Parse(String::from_str("invalid level name: ").concat(s))),
        }
    }

    /// Renders the dotted `dimension.hierarchy.level` form, used when
    /// an error must name this identifier.
    pub fn path_text(&self) -> (r: String)
        ensures
            r@ == level_path_text(self@),
    {
        let r = self.dimension.clone().concat(".").concat(self.hierarchy.as_str()).concat(
            ".",
        ).concat(self.level.as_str());
        proof {
            assert(r@ =~= level_path_text(self@));
        }
        r
    }

    /// Whether two level names agree on all three segments.
    pub fn matches(&self, other: &LevelName) -> (r: bool)
        ensures
            r == (self@ == other@),
    {
        let r = self.dimension.eq(&other.dimension) && self.hierarchy.eq(&other.hierarchy)
            && self.level.eq(&other.level);
        proof {
            if r {
                assert(self@ =~= other@);
            }
        }
        r
    }
}

/// Splitting the dotted join of three separator-free, non-empty
/// segments recovers exactly those segments. Together with the
/// contracts of [`LevelName::from_vec`] and [`LevelName::parse`], this
/// says that parsing a three-segment list and parsing the dotted string
/// it joins to yield the same level name, and that any list with a
/// wrong segment count or an empty segment fails.
pub proof fn lemma_parse_of_joined(d: Seq<char>, h: Seq<char>, l: Seq<char>)
    requires
        d.len() > 0,
        h.len() > 0,
        l.len() > 0,
        has_no_char(d, '.'),
        has_no_char(h, '.'),
        has_no_char(l, '.'),
    ensures
        ({
            let parts = split_seq(d + seq!['.'] + h + seq!['.'] + l, '.');
            &&& valid_level_path(parts)
            &&& level_name_of(parts) == (LevelNameView { dimension: d, hierarchy: h, level: l })
        }),
{
    lemma_split_free(d, '.');
    lemma_split_append_sep(d, '.');
    lemma_split_append_free(d + seq!['.'], h, '.');
    assert(split_seq(d + seq!['.'] + h, '.') =~~= seq![d, h]);
    lemma_split_append_sep(d + seq!['.'] + h, '.');
    assert(split_seq(d + seq!['.'] + h + seq!['.'], '.') =~~= seq![d, h, Seq::<char>::empty()]);
    lemma_split_append_free(d + seq!['.'] + h + seq!['.'], l, '.');
    assert(split_seq(d + seq!['.'] + h + seq!['.'] + l, '.') =~~= seq![d, h, l]);
}

/// A request to group results by one level.
pub struct Drilldown(pub LevelName);

impl View for Drilldown {
    type V = LevelNameView;

    open spec fn view(&self) -> LevelNameView {
        self.0@
    }
}

impl Drilldown {
    /// Parses a dotted `dimension.hierarchy.level` string.
    pub fn parse(s: &str) -> (r: Result<Drilldown, Error>)
        ensures
            r is Ok <==> valid_level_path(split_seq(s@, '.')),
            r matches Ok(d) ==> d@ == level_name_of(split_seq(s@, '.')),
            r matches Err(e) ==> e is Parse && e.spec_message() == level_err_msg(s@),
    {
        match LevelName::parse(s) {
            Ok(ln) => Ok(Drilldown(ln)),
            Err(e) => Err(e),
        }
    }
}

/// A request to filter one level to specific members, inclusively or
/// exclusively.
pub struct Cut {
    pub level_name: LevelName,
    pub members: Vec<String>,
    pub exclusive: bool,
}

impl View for Cut {
    type V = CutView;

    open spec fn view(&self) -> CutView {
        CutView {
            level_name: self.level_name@,
            members: self.members.deep_view(),
            exclusive: self.exclusive,
        }
    }
}

impl Cut {
    /// Parses a `dimension.hierarchy.level.members` string, where
    /// `members` is a comma-separated, non-empty list of member ids,
    /// optionally prefixed with `~` to exclude instead of include.
    pub fn parse(s: &str) -> (r: Result<Cut, Error>)
        ensures
            r is Ok <==> valid_cut_path(split_seq(s@, '.')),
            r matches Ok(c) ==> {
                let parts = split_seq(s@, '.');
                &&& c@.level_name == level_name_of(parts)
                &&& c@.members == split_seq(cut_member_body(parts[3]), ',')
                &&& c@.exclusive == cut_exclusive(parts[3])
            },
            r matches Err(e) ==> e is Parse && e.spec_message() == cut_err_msg(s@),
    {
        let parts = split_str(s, '.');
        if parts.len() != 4 {
            return Err(Error::Parse(
                String::from_str("cut needs a level path and a member segment: ").concat(s),
            ));
        }
        if parts[0].as_str().is_empty() || parts[1].as_str().is_empty()
            || parts[2].as_str().is_empty() {
            return Err(Error::Parse(
                String::from_str("cut has an empty level segment: ").concat(s),
            ));
        }
        let level_name = LevelName {
            dimension: parts[0].clone(),
            hierarchy: parts[1].clone(),
            level: parts[2].clone(),
        };
        let seg = parts[3].as_str();
        let seg_len = seg.unicode_len();
        let exclusive = seg_len > 0 && seg.get_char(0) == '~';
        let body = if exclusive {
            seg.substring_char(1, seg_len)
        } else {
            seg
        };
        proof {
            assert(body@ =~= cut_member_body(split_seq(s@, '.')[3]));
        }
        let members = split_str(body, ',');
        let mut j: usize = 0;
        while j < members.len()
            invariant
                j <= members.len(),
                split_seq(s@, '.').len() == 4,
                split_seq(s@, '.')[0].len() > 0,
                split_seq(s@, '.')[1].len() > 0,
                split_seq(s@, '.')[2].len() > 0,
                members.deep_view() == split_seq(cut_member_body(split_seq(s@, '.')[3]), ','),
                forall|k: int| 0 <= k < j ==> #[trigger] members.deep_view()[k].len() > 0,
            decreases members.len() - j,
        {
            if members[j].as_str().is_empty() {
                proof {
                    assert(members.deep_view()[j as int] == members@[j as int]@);
                    assert(!valid_members(split_seq(cut_member_body(split_seq(s@, '.')[3]), ',')));
                }
                return Err(Error::Parse(
                    String::from_str("cut has an empty member id: ").concat(s),
                ));
            }
            j += 1;
        }
        proof {
            lemma_split_seq_len(cut_member_body(split_seq(s@, '.')[3]), ',');
            assert(level_name@ =~= level_name_of(split_seq(s@, '.')));
        }
        Ok(Cut { level_name, members, exclusive })
    }
}

/// A bare measure identifier, resolved later against a cube's measure
/// list. Parsing is a pass-through: any string is a measure name.
pub struct Measure(pub String);

impl View for Measure {
    type V = Seq<char>;

    open spec fn view(&self) -> Seq<char> {
        self.0@
    }
}

impl Measure {
    /// Wraps an owned measure name.
    pub fn new(name: String) -> (r: Measure)
        ensures
            r@ == name@,
    {
        Measure(name)
    }

    /// Parses a measure identifier: a pass-through with no path
    /// structure.
    pub fn parse(s: &str) -> (r: Measure)
        ensures
            r@ == s@,
    {
        Measure(s.to_owned())
    }
}

/// A request for one property column of a level:
/// `dimension.hierarchy.level.property`.
pub struct Property {
    pub level_name: LevelName,
    pub property: String,
}

impl View for Property {
    type V = PropertyView;

    open spec fn view(&self) -> PropertyView {
        PropertyView { level_name: self.level_name@, property: self.property@ }
    }
}

impl Property {
    /// Parses a `dimension.hierarchy.level.property` string.
    pub fn parse(s: &str) -> (r: Result<Property, Error>)
        ensures
            r is Ok <==> valid_property_path(split_seq(s@, '.')),
            r matches Ok(p) ==> {
                let parts = split_seq(s@, '.');
                &&& p@.level_name == level_name_of(parts)
                &&& p@.property == parts[3]
            },
            r matches Err(e) ==> e is Parse && e.spec_message() == prop_err_msg(s@),
    {
        let parts = split_str(s, '.');
        if parts.len() != 4 {
            return Err(Error::Parse(
                String::from_str("property needs a level path and a property name: ").concat(s),
            ));
        }
        if parts[0].as_str().is_empty() || parts[1].as_str().is_empty()
            || parts[2].as_str().is_empty() || parts[3].as_str().is_empty() {
            return Err(Error::Parse(
                String::from_str("property has an empty segment: ").concat(s),
            ));
        }
        let p = Property {
            level_name: LevelName {
                dimension: parts[0].clone(),
                hierarchy: parts[1].clone(),
                level: parts[2].clone(),
            },
            property: parts[3].clone(),
        };
        proof {
            assert(p@.level_name =~= level_name_of(split_seq(s@, '.')));
        }
        Ok(p)
    }
}

} // verus!
