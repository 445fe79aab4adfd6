//! Markers: where Frama-C's names for program points stood, and what a reload made of them.

use crate::goals::{identified, identify};
use crate::json::{lemma_take_next, models, opt_json, text_in, texts_of, Json, JsonView};
use crate::order::{keys, lemma_places, place_behind, upper_place};
use crate::text::{
    all_digits, begins, chars_of, decimal, digit, digits_value, opt_string, opt_text, owned,
    parse_up_to, same, starts_with, text_between,
};
use crate::verdicts::{marker_of, value_marker};
use vstd::prelude::*;
use vstd::string::*;

verus! {

// ---------------------------------------------------------------------------
// Kinds
// ---------------------------------------------------------------------------

/// The statement number inside a marker: the digits behind `#s`, where there is nothing else and
/// they write a number that fits.
pub open spec fn stmt_id(marker: Seq<char>) -> Option<int> {
    let digits = marker.subrange(2, marker.len() as int);
    if begins(marker, "#s"@) && digits.len() > 0 && all_digits(digits) && digits_value(digits)
        <= i64::MAX {
        Some(digits_value(digits) as int)
    } else {
        None
    }
}

/// The statement id inside a `#sN` marker, which is the statement an annotation attaches to.
/// Digits only, and shared with `marker_kind` so that the two cannot disagree.
pub fn marker_stmt_id(marker: &str) -> (r: Option<i64>)
    ensures
        match r {
            Some(n) => stmt_id(marker@) == Some(n as int),
            None => stmt_id(marker@) is None,
        },
{
    proof {
        reveal_strlit("#s");
    }
    if !starts_with(marker, "#s") {
        return None;
    }
    let cs = chars_of(marker);
    let ghost digits = marker@.subrange(2, marker@.len() as int);
    if cs.len() <= 2 {
        return None;
    }
    if !digit(cs[2]) {
        assert(digits[0] == cs@[2]);
        assert(!all_digits(digits));
        return None;
    }
    let text = text_between(&cs, 2, cs.len());
    assert(text@ == digits);
    assert(digits[0] == cs@[2]);
    assert(crate::text::strip_plus(digits) == digits);
    match parse_up_to(text.as_str(), i64::MAX as u64) {
        Some(n) => Some(n as i64),
        None => None,
    }
}

/// What a marker is.
pub open spec fn kind_of_marker(marker: Option<Seq<char>>) -> Seq<char> {
    match marker {
        None => "none"@,
        Some(m) => if stmt_id(m) is Some {
            "statement"@
        } else if begins(m, "#v"@) {
            "declaration"@
        } else {
            "other"@
        },
    }
}

/// What a Frama-C marker prefix says the marker is: a statement, a declaration, something else,
/// or that the position had nothing under it at all.
pub fn marker_kind(marker: Option<&str>) -> (r: &'static str)
    ensures
        r@ == kind_of_marker(opt_text(marker)),
{
    match marker {
        None => "none",
        Some(m) => if marker_stmt_id(m).is_some() {
            "statement"
        } else if starts_with(m, "#v") {
            "declaration"
        } else {
            "other"
        },
    }
}

/// A marker is called a statement exactly when it carries a statement id.
pub proof fn law_statement_markers_carry_an_id(marker: Seq<char>)
    ensures
        kind_of_marker(Some(marker)) == "statement"@ <==> stmt_id(marker) is Some,
{
    reveal_strlit("statement");
    reveal_strlit("declaration");
    reveal_strlit("other");
    assert("statement"@.len() == 9 && "declaration"@.len() == 11 && "other"@.len() == 5);
}

// ---------------------------------------------------------------------------
// Locations
// ---------------------------------------------------------------------------

/// Where a marker stands.
#[derive(Debug, PartialEq)]
pub struct MarkerLocation {
    pub marker_kind: String,
    pub marker: String,
    pub function_marker: Option<String>,
    pub function_name: Option<String>,
    pub kinstr_marker: Option<String>,
    pub source_file: Option<String>,
    pub source_line: Option<u64>,
}

/// Where a marker stands, as a mathematical object.
pub struct LocationView {
    pub marker_kind: Seq<char>,
    pub marker: Seq<char>,
    pub function_marker: Option<Seq<char>>,
    pub function_name: Option<Seq<char>>,
    pub kinstr_marker: Option<Seq<char>>,
    pub source_file: Option<Seq<char>>,
    pub source_line: Option<u64>,
}

impl View for MarkerLocation {
    type V = LocationView;

    open spec fn view(&self) -> LocationView {
        LocationView {
            marker_kind: self.marker_kind@,
            marker: self.marker@,
            function_marker: opt_string(self.function_marker),
            function_name: opt_string(self.function_name),
            kinstr_marker: opt_string(self.kinstr_marker),
            source_file: opt_string(self.source_file),
            source_line: self.source_line,
        }
    }
}

/// An owned copy of an optional text.
pub fn own_opt(o: Option<&str>) -> (r: Option<String>)
    ensures
        opt_string(r) == opt_text(o),
{
    match o {
        Some(s) => Some(owned(s)),
        None => None,
    }
}

/// A copy of an optional text.
pub fn copy_opt(o: &Option<String>) -> (r: Option<String>)
    ensures
        opt_string(r) == opt_string(*o),
{
    match o {
        Some(s) => Some(owned(s.as_str())),
        None => None,
    }
}

/// Whether two optional texts are the same.
pub fn same_opt(a: &Option<String>, b: &Option<String>) -> (r: bool)
    ensures
        r == (opt_string(*a) == opt_string(*b)),
{
    match (a, b) {
        (Some(x), Some(y)) => same(x.as_str(), y.as_str()),
        (None, None) => true,
        _ => false,
    }
}

impl MarkerLocation {
    /// A copy of a location.
    pub fn copy(&self) -> (r: MarkerLocation)
        ensures
            r@ == self@,
    {
        MarkerLocation {
            marker_kind: owned(self.marker_kind.as_str()),
            marker: owned(self.marker.as_str()),
            function_marker: copy_opt(&self.function_marker),
            function_name: copy_opt(&self.function_name),
            kinstr_marker: copy_opt(&self.kinstr_marker),
            source_file: copy_opt(&self.source_file),
            source_line: self.source_line,
        }
    }

    /// Whether two locations are the same.
    pub fn same(&self, other: &MarkerLocation) -> (r: bool)
        ensures
            r == (self@ == other@),
    {
        let lines: bool = match (self.source_line, other.source_line) {
            (Some(a), Some(b)) => a == b,
            (None, None) => true,
            _ => false,
        };
        lines && same(self.marker_kind.as_str(), other.marker_kind.as_str()) && same(
            self.marker.as_str(),
            other.marker.as_str(),
        ) && same_opt(&self.function_marker, &other.function_marker) && same_opt(
            &self.function_name,
            &other.function_name,
        ) && same_opt(&self.kinstr_marker, &other.kinstr_marker) && same_opt(
            &self.source_file,
            &other.source_file,
        )
    }
}

/// The locations of markers, each marker once.
#[derive(Debug, PartialEq)]
pub struct Locations {
    pub entries: Vec<(String, MarkerLocation)>,
}

/// The locations behind some entries.
pub open spec fn location_entries(v: Seq<(String, MarkerLocation)>) -> Seq<
    (Seq<char>, LocationView),
> {
    v.map_values(|e: (String, MarkerLocation)| (e.0@, e.1@))
}

/// The location that some entries, put one after the other, leave under each marker.
pub open spec fn location_map(s: Seq<(Seq<char>, LocationView)>) -> Map<Seq<char>, LocationView>
    decreases s.len(),
{
    if s.len() == 0 {
        Map::empty()
    } else {
        location_map(s.drop_last()).insert(s.last().0, s.last().1)
    }
}

/// Whether no two entries have the same marker.
pub open spec fn markers_differ(s: Seq<(Seq<char>, LocationView)>) -> bool {
    forall|i: int, j: int| 0 <= i < j < s.len() ==> (#[trigger] s[i]).0 != (#[trigger] s[j]).0
}

impl View for Locations {
    type V = Map<Seq<char>, LocationView>;

    open spec fn view(&self) -> Map<Seq<char>, LocationView> {
        location_map(location_entries(self.entries@))
    }
}

/// What the entries under different markers leave under each.
pub proof fn lemma_location_map(s: Seq<(Seq<char>, LocationView)>)
    requires
        markers_differ(s),
    ensures
        forall|i: int|
            0 <= i < s.len() ==> location_map(s).dom().contains((#[trigger] s[i]).0)
                && location_map(s)[s[i].0] == s[i].1,
        forall|m: Seq<char>|
            location_map(s).dom().contains(m) ==> exists|i: int|
                0 <= i < s.len() && (#[trigger] s[i]).0 == m,
    decreases s.len(),
{
    if s.len() > 0 {
        let t = s.drop_last();
        assert(markers_differ(t)) by {
            assert forall|i: int, j: int| 0 <= i < j < t.len() implies (#[trigger] t[i]).0 != (
            #[trigger] t[j]).0 by {
                assert(s[i].0 != s[j].0);
            }
        }
        lemma_location_map(t);
        assert forall|i: int| 0 <= i < s.len() implies location_map(s).dom().contains(
            (#[trigger] s[i]).0,
        ) && location_map(s)[s[i].0] == s[i].1 by {
            if i < t.len() {
                assert(t[i] == s[i]);
                assert(s[i].0 != s[s.len() - 1].0);
            }
        }
        assert forall|m: Seq<char>| location_map(s).dom().contains(m) implies exists|i: int|
            0 <= i < s.len() && (#[trigger] s[i]).0 == m by {
            if m == s.last().0 {
                assert(s[s.len() - 1].0 == m);
            } else {
                assert(location_map(t).dom().contains(m));
                let i = choose|i: int| 0 <= i < t.len() && (#[trigger] t[i]).0 == m;
                assert(s[i].0 == m);
            }
        }
    }
}

/// Replacing or adding an entry is inserting into what the entries leave.
proof fn lemma_location_update(s: Seq<(Seq<char>, LocationView)>, i: int, v: LocationView)
    requires
        markers_differ(s),
        0 <= i < s.len(),
    ensures
        markers_differ(s.update(i, (s[i].0, v))),
        location_map(s.update(i, (s[i].0, v))) == location_map(s).insert(s[i].0, v),
{
    let u = s.update(i, (s[i].0, v));
    assert(markers_differ(u)) by {
        assert forall|a: int, b: int| 0 <= a < b < u.len() implies (#[trigger] u[a]).0 != (
        #[trigger] u[b]).0 by {
            assert(s[a].0 != s[b].0);
        }
    }
    lemma_location_map(s);
    lemma_location_map(u);
    assert(location_map(u) =~= location_map(s).insert(s[i].0, v)) by {
        assert forall|m: Seq<char>| location_map(u).dom().contains(m) <==> location_map(s).insert(
            s[i].0,
            v,
        ).dom().contains(m) by {
            if location_map(u).dom().contains(m) {
                let k = choose|k: int| 0 <= k < u.len() && (#[trigger] u[k]).0 == m;
                assert(s[k].0 == m);
            }
            if location_map(s).dom().contains(m) {
                let k = choose|k: int| 0 <= k < s.len() && (#[trigger] s[k]).0 == m;
                assert(u[k].0 == m);
            }
            assert(u[i].0 == s[i].0);
        }
        assert forall|m: Seq<char>| location_map(u).dom().contains(m) implies location_map(u)[m]
            == location_map(s).insert(s[i].0, v)[m] by {
            let k = choose|k: int| 0 <= k < u.len() && (#[trigger] u[k]).0 == m;
            assert(u[k].0 == m);
            if k != i {
                assert(u[k] == s[k]);
                if k < i {
                    assert(s[k].0 != s[i].0);
                } else {
                    assert(s[i].0 != s[k].0);
                }
            }
        }
    }
}

impl Locations {
    /// Whether no two entries have the same marker.
    pub open spec fn wf(self) -> bool {
        markers_differ(location_entries(self.entries@))
    }

    /// No locations.
    pub fn new() -> (r: Locations)
        ensures
            r.wf(),
            r@ == Map::<Seq<char>, LocationView>::empty(),
    {
        let entries: Vec<(String, MarkerLocation)> = Vec::new();
        assert(location_entries(entries@) =~= Seq::empty());
        Locations { entries }
    }

    /// Where a marker stands.
    pub fn get(&self, marker: &str) -> (r: Option<&MarkerLocation>)
        requires
            self.wf(),
        ensures
            match r {
                Some(l) => self@.dom().contains(marker@) && self@[marker@] == l@,
                None => !self@.dom().contains(marker@),
            },
    {
        let ghost s = location_entries(self.entries@);
        proof {
            lemma_location_map(s);
        }
        let mut i: usize = 0;
        while i < self.entries.len()
            invariant
                i <= self.entries@.len(),
                s == location_entries(self.entries@),
                markers_differ(s),
                forall|k: int| 0 <= k < i ==> (#[trigger] s[k]).0 != marker@,
            decreases self.entries@.len() - i,
        {
            assert(s[i as int] == (self.entries@[i as int].0@, self.entries@[i as int].1@));
            if same(self.entries[i].0.as_str(), marker) {
                proof {
                    lemma_location_map(s);
                }
                return Some(&self.entries[i].1);
            }
            i = i + 1;
        }
        None
    }

    /// Puts a location under a marker.
    pub fn insert(&mut self, marker: &str, location: MarkerLocation)
        requires
            old(self).wf(),
        ensures
            final(self).wf(),
            final(self)@ == old(self)@.insert(marker@, location@),
    {
        let ghost s = location_entries(self.entries@);
        let mut i: usize = 0;
        while i < self.entries.len()
            invariant
                i <= self.entries@.len(),
                self.entries@ == old(self).entries@,
                s == location_entries(self.entries@),
                markers_differ(s),
                forall|k: int| 0 <= k < i ==> (#[trigger] s[k]).0 != marker@,
            decreases self.entries@.len() - i,
        {
            assert(s[i as int] == (self.entries@[i as int].0@, self.entries@[i as int].1@));
            if same(self.entries[i].0.as_str(), marker) {
                self.entries.set(i, (owned(marker), location));
                assert(location_entries(self.entries@) =~= s.update(
                    i as int,
                    (s[i as int].0, location@),
                ));
                proof {
                    lemma_location_update(s, i as int, location@);
                }
                return ;
            }
            i = i + 1;
        }
        self.entries.push((owned(marker), location));
        let ghost t = location_entries(self.entries@);
        assert(t =~= s.push((marker@, location@)));
        assert(t.drop_last() =~= s);
        assert(markers_differ(t)) by {
            assert forall|a: int, b: int| 0 <= a < b < t.len() implies (#[trigger] t[a]).0 != (
            #[trigger] t[b]).0 by {
                if b < s.len() {
                    assert(s[a].0 != s[b].0);
                }
            }
        }
    }
}

/// The file and line of a location, as far as it has them.
pub open spec fn file_line(location: Option<JsonView>) -> (Option<Seq<char>>, Option<int>) {
    match location {
        Some(loc) => (loc.text("file"@), loc.nat_at("line"@)),
        None => (None, None),
    }
}

/// A number that is an optional integer.
pub open spec fn line_view(line: Option<u64>) -> Option<int> {
    match line {
        Some(n) => Some(n as int),
        None => None,
    }
}

/// An optional integer as the number it is.
pub open spec fn as_line(line: Option<int>) -> Option<u64> {
    match line {
        Some(n) => Some(n as u64),
        None => None,
    }
}

/// The file and line of a location, as far as it has them.
pub fn marker_file_line(location: Option<&Json>) -> (r: (Option<String>, Option<u64>))
    ensures
        (opt_string(r.0), line_view(r.1)) == file_line(opt_json(location)),
        r.1 == as_line(file_line(opt_json(location)).1),
{
    match location {
        Some(loc) => (own_opt(loc.text("file")), loc.nat_at("line")),
        None => (None, None),
    }
}

/// The location of a function under one of its markers.
pub open spec fn function_location(entry: JsonView, marker: Seq<char>) -> LocationView {
    let at = file_line(entry.get("sloc"@));
    LocationView {
        marker_kind: "function"@,
        marker,
        function_marker: entry.text("decl"@),
        function_name: entry.text("name"@),
        kinstr_marker: None,
        source_file: at.0,
        source_line: as_line(at.1),
    }
}

/// The locations with those of a function, under its declaration and under its key.
pub open spec fn with_function(m: Map<Seq<char>, LocationView>, entry: JsonView) -> Map<
    Seq<char>,
    LocationView,
> {
    let declared = match entry.text("decl"@) {
        Some(d) => m.insert(d, function_location(entry, d)),
        None => m,
    };
    match entry.text("key"@) {
        Some(k) => declared.insert(k, function_location(entry, k)),
        None => declared,
    }
}

/// The locations of some functions.
pub open spec fn function_locations(entries: Seq<JsonView>) -> Map<Seq<char>, LocationView>
    decreases entries.len(),
{
    if entries.len() == 0 {
        Map::empty()
    } else {
        with_function(function_locations(entries.drop_last()), entries.last())
    }
}

fn locate_function(entry: &Json, marker: &str) -> (r: MarkerLocation)
    ensures
        r@ == function_location(entry@, marker@),
{
    let at = marker_file_line(entry.get("sloc"));
    MarkerLocation {
        marker_kind: owned("function"),
        marker: owned(marker),
        function_marker: own_opt(entry.text("decl")),
        function_name: own_opt(entry.text("name")),
        kinstr_marker: None,
        source_file: at.0,
        source_line: at.1,
    }
}

/// Where each function stands, under its declaration and under its key.
pub fn function_marker_locations(entries: &Vec<Json>) -> (r: Locations)
    ensures
        r.wf(),
        r@ == function_locations(models(entries@)),
{
    let ghost all = models(entries@);
    let mut out = Locations::new();
    let mut i: usize = 0;
    while i < entries.len()
        invariant
            i <= entries@.len(),
            all == models(entries@),
            out.wf(),
            out@ == function_locations(all.subrange(0, i as int)),
        decreases entries@.len() - i,
    {
        proof {
            lemma_take_next(all, i as int);
        }
        let entry = &entries[i];
        match entry.text("decl") {
            Some(d) => {
                let l = locate_function(entry, d);
                out.insert(d, l);
            },
            None => {},
        }
        match entry.text("key") {
            Some(k) => {
                let l = locate_function(entry, k);
                out.insert(k, l);
            },
            None => {},
        }
        i = i + 1;
    }
    assert(all.subrange(0, i as int) =~= all);
    out
}

/// The name of the function under a marker, as a table of names gives it.
pub open spec fn name_of(names: JsonView, function_marker: Option<Seq<char>>) -> Option<Seq<char>> {
    match function_marker {
        Some(m) => names.text(m),
        None => None,
    }
}

/// The names of functions under their declaration markers: those that have both as texts.
pub open spec fn function_names(functions: Seq<JsonView>) -> JsonView
    decreases functions.len(),
{
    if functions.len() == 0 {
        JsonView::object()
    } else {
        let rest = function_names(functions.drop_last());
        match (functions.last().text("decl"@), functions.last().text("name"@)) {
            (Some(d), Some(n)) => rest.with(d, JsonView::Str(n)),
            _ => rest,
        }
    }
}

/// The names of functions under their declaration markers.
pub fn function_name_table(functions: &Vec<Json>) -> (r: Json)
    ensures
        r@ == function_names(models(functions@)),
{
    let ghost all = models(functions@);
    let mut out = Json::object();
    let mut i: usize = 0;
    while i < functions.len()
        invariant
            i <= functions@.len(),
            all == models(functions@),
            out@ == function_names(all.subrange(0, i as int)),
        decreases functions@.len() - i,
    {
        proof {
            lemma_take_next(all, i as int);
        }
        match (functions[i].text("decl"), functions[i].text("name")) {
            (Some(d), Some(n)) => {
                out.insert(d, Json::str(n));
            },
            _ => {},
        }
        i = i + 1;
    }
    assert(all.subrange(0, i as int) =~= all);
    out
}

/// The location of a property under its marker.
pub open spec fn property_location(property: JsonView, names: JsonView, marker: Seq<char>) -> LocationView {
    let at = file_line(
        property.or_get(
            property.or_get(property.get("source_location"@), "source"@),
            "loc"@,
        ),
    );
    LocationView {
        marker_kind: "property"@,
        marker,
        function_marker: property.text("scope"@),
        function_name: name_of(names, property.text("scope"@)),
        kinstr_marker: texts_of(property.or_get(property.get("kinstr_marker"@), "kinstr"@)),
        source_file: at.0,
        source_line: as_line(at.1),
    }
}

/// The locations with those of some properties: those that have a marker.
pub open spec fn with_properties(
    m: Map<Seq<char>, LocationView>,
    properties: Seq<JsonView>,
    names: JsonView,
) -> Map<Seq<char>, LocationView>
    decreases properties.len(),
{
    if properties.len() == 0 {
        m
    } else {
        let rest = with_properties(m, properties.drop_last(), names);
        match marker_of(properties.last()) {
            Some(k) => rest.insert(k, property_location(properties.last(), names, k)),
            None => rest,
        }
    }
}

/// Adds where each property stands.
pub fn add_property_locations(locations: &mut Locations, properties: &Vec<Json>, names: &Json)
    requires
        old(locations).wf(),
    ensures
        final(locations).wf(),
        final(locations)@ == with_properties(old(locations)@, models(properties@), names@),
{
    let ghost all = models(properties@);
    let ghost start = locations@;
    let mut i: usize = 0;
    while i < properties.len()
        invariant
            i <= properties@.len(),
            all == models(properties@),
            locations.wf(),
            locations@ == with_properties(start, all.subrange(0, i as int), names@),
        decreases properties@.len() - i,
    {
        proof {
            lemma_take_next(all, i as int);
        }
        let p = &properties[i];
        match value_marker(p) {
            Some(marker) => {
                let at = marker_file_line(
                    p.or_get(p.or_get(p.get("source_location"), "source"), "loc"),
                );
                let function_marker = p.text("scope");
                let function_name = match function_marker {
                    Some(m) => own_opt(names.text(m)),
                    None => None,
                };
                let location = MarkerLocation {
                    marker_kind: owned("property"),
                    marker: owned(marker),
                    function_marker: own_opt(function_marker),
                    function_name,
                    kinstr_marker: own_opt(text_in(p.or_get(p.get("kinstr_marker"), "kinstr"))),
                    source_file: at.0,
                    source_line: at.1,
                };
                locations.insert(marker, location);
            },
            None => {},
        }
        i = i + 1;
    }
    assert(all.subrange(0, i as int) =~= all);
}

/// Where each property stands.
pub fn property_marker_locations(properties: &Vec<Json>, function_names: &Json) -> (r: Locations)
    ensures
        r.wf(),
        r@ == with_properties(
            Map::<Seq<char>, LocationView>::empty(),
            models(properties@),
            function_names@,
        ),
{
    let mut out = Locations::new();
    add_property_locations(&mut out, properties, function_names);
    out
}

/// Where everything stands: the functions and, over them, the properties with their identities.
pub fn marker_snapshot(functions: &Vec<Json>, properties: &Vec<Json>) -> (r: Locations)
    ensures
        r.wf(),
        r@ == with_properties(
            function_locations(models(functions@)),
            identified(models(properties@)),
            function_names(models(functions@)),
        ),
{
    let names = function_name_table(functions);
    let rows = identify(properties);
    let mut out = function_marker_locations(functions);
    add_property_locations(&mut out, &rows, &names);
    out
}

// ---------------------------------------------------------------------------
// Stale markers
// ---------------------------------------------------------------------------

/// A marker that no longer stands where it stood.
#[derive(Debug, PartialEq)]
pub struct StaleMarker {
    pub previous: MarkerLocation,
    pub current: MarkerLocation,
}

/// A marker that no longer stands where it stood.
pub struct StaleView {
    pub previous: LocationView,
    pub current: LocationView,
}

impl View for StaleMarker {
    type V = StaleView;

    open spec fn view(&self) -> StaleView {
        StaleView { previous: self.previous@, current: self.current@ }
    }
}

/// The location of a marker that stands nowhere any more.
pub open spec fn missing_location(marker: Seq<char>) -> LocationView {
    LocationView {
        marker_kind: "missing"@,
        marker,
        function_marker: None,
        function_name: None,
        kinstr_marker: None,
        source_file: None,
        source_line: None,
    }
}

/// Where a marker stands now.
pub open spec fn location_now(current: Map<Seq<char>, LocationView>, marker: Seq<char>) -> LocationView {
    if current.dom().contains(marker) {
        current[marker]
    } else {
        missing_location(marker)
    }
}

/// Whether a marker stood somewhere and no longer stands there.
pub open spec fn is_stale(
    previous: Map<Seq<char>, LocationView>,
    current: Map<Seq<char>, LocationView>,
    marker: Seq<char>,
) -> bool {
    previous.dom().contains(marker) && previous[marker] != location_now(current, marker)
}

/// The markers and what became of them.
pub open spec fn stale_entries(v: Seq<(String, StaleMarker)>) -> Seq<(Seq<char>, StaleView)> {
    v.map_values(|e: (String, StaleMarker)| (e.0@, e.1@))
}

/// Whether entries are exactly the stale markers, in order, each with where it stood and stands.
pub open spec fn lists_stale(
    s: Seq<(Seq<char>, StaleView)>,
    previous: Map<Seq<char>, LocationView>,
    current: Map<Seq<char>, LocationView>,
) -> bool {
    &&& crate::order::strictly_sorted(s.map_values(|e: (Seq<char>, StaleView)| e.0))
    &&& forall|i: int|
        0 <= i < s.len() ==> is_stale(previous, current, (#[trigger] s[i]).0) && s[i].1
            == (StaleView {
            previous: previous[s[i].0],
            current: location_now(current, s[i].0),
        })
    &&& forall|m: Seq<char>|
        is_stale(previous, current, m) ==> exists|i: int|
            0 <= i < s.len() && (#[trigger] s[i]).0 == m
}

/// Whether one of the first `i` entries has the marker `m`.
spec fn seen(s: Seq<(Seq<char>, LocationView)>, i: int, m: Seq<char>) -> bool {
    exists|j: int| 0 <= j < i && (#[trigger] s[j]).0 == m
}

/// Whether an entry is for a stale marker, with where it stood and stands.
spec fn is_stale_entry(
    e: (String, StaleMarker),
    previous: Map<Seq<char>, LocationView>,
    current: Map<Seq<char>, LocationView>,
) -> bool {
    &&& is_stale(previous, current, e.0@)
    &&& e.1@ == (StaleView { previous: previous[e.0@], current: location_now(current, e.0@) })
}

/// Whether some entry has the marker `m`.
spec fn among(v: Seq<(String, StaleMarker)>, m: Seq<char>) -> bool {
    exists|k: int| 0 <= k < v.len() && (#[trigger] v[k]).0@ == m
}

/// Whether entries are exactly the stale ones of the first `i` markers, in order.
spec fn stale_so_far(
    v: Seq<(String, StaleMarker)>,
    s: Seq<(Seq<char>, LocationView)>,
    i: int,
    previous: Map<Seq<char>, LocationView>,
    current: Map<Seq<char>, LocationView>,
) -> bool {
    &&& crate::order::strictly_sorted(keys(v))
    &&& forall|k: int|
        0 <= k < v.len() ==> is_stale_entry(#[trigger] v[k], previous, current) && seen(
            s,
            i,
            v[k].0@,
        )
    &&& forall|j: int|
        0 <= j < i && is_stale(previous, current, (#[trigger] s[j]).0) ==> among(v, s[j].0)
}

/// A stale marker is put in its place.
proof fn lemma_stale_step(
    prior: Seq<(String, StaleMarker)>,
    e: (String, StaleMarker),
    at: int,
    s: Seq<(Seq<char>, LocationView)>,
    i: int,
    previous: Map<Seq<char>, LocationView>,
    current: Map<Seq<char>, LocationView>,
)
    requires
        stale_so_far(prior, s, i, previous, current),
        markers_differ(s),
        0 <= i < s.len(),
        s[i].0 == e.0@,
        is_stale_entry(e, previous, current),
        at == upper_place(keys(prior), e.0@),
        0 <= at <= prior.len(),
    ensures
        stale_so_far(prior.insert(at, e), s, i + 1, previous, current),
{
    let marker = e.0@;
    let v = prior.insert(at, e);
    let ks = keys(prior);
    lemma_places(ks, marker);
    assert forall|k: int| 0 <= k < ks.len() implies #[trigger] ks[k] != marker by {
        assert(ks[k] == prior[k].0@);
        assert(seen(s, i, prior[k].0@));
        let j = choose|j: int| 0 <= j < i && (#[trigger] s[j]).0 == prior[k].0@;
        assert(s[j].0 != s[i].0);
    }
    let r = keys(v);
    assert(r =~= ks.insert(at, marker));
    assert forall|a: int, b: int| 0 <= a < b < r.len() implies crate::order::text_lt(
        #[trigger] r[a],
        #[trigger] r[b],
    ) by {
        if b < at {
            assert(r[a] == ks[a] && r[b] == ks[b]);
        } else if b == at {
            assert(r[a] == ks[a]);
            crate::order::law_text_lt_total(ks[a], marker);
        } else if a > at {
            assert(r[a] == ks[a - 1] && r[b] == ks[b - 1]);
        } else if a == at {
            assert(r[b] == ks[b - 1]);
            if b - 1 > at {
                crate::order::law_text_lt_transitive(marker, ks[at], ks[b - 1]);
            }
        } else {
            assert(r[a] == ks[a] && r[b] == ks[b - 1]);
        }
    }
    assert forall|k: int| 0 <= k < v.len() implies is_stale_entry(
        #[trigger] v[k],
        previous,
        current,
    ) && seen(s, i + 1, v[k].0@) by {
        if k == at {
            assert(s[i].0 == marker);
        } else {
            let o = if k < at {
                k
            } else {
                k - 1
            };
            assert(v[k] == prior[o]);
            assert(seen(s, i, prior[o].0@));
            let j = choose|j: int| 0 <= j < i && (#[trigger] s[j]).0 == prior[o].0@;
            assert(s[j].0 == v[k].0@);
        }
    }
    assert forall|j: int|
        0 <= j < i + 1 && is_stale(previous, current, (#[trigger] s[j]).0) implies among(
        v,
        s[j].0,
    ) by {
        if j < i {
            assert(among(prior, s[j].0));
            let k = choose|k: int| 0 <= k < prior.len() && (#[trigger] prior[k]).0@ == s[j].0;
            if k < at {
                assert(v[k] == prior[k]);
            } else {
                assert(v[k + 1] == prior[k]);
            }
        } else {
            assert(v[at].0@ == s[j].0);
        }
    }
}

/// A marker that is not stale changes nothing.
proof fn lemma_stale_skip(
    v: Seq<(String, StaleMarker)>,
    s: Seq<(Seq<char>, LocationView)>,
    i: int,
    previous: Map<Seq<char>, LocationView>,
    current: Map<Seq<char>, LocationView>,
)
    requires
        stale_so_far(v, s, i, previous, current),
        0 <= i < s.len(),
        !is_stale(previous, current, s[i].0),
    ensures
        stale_so_far(v, s, i + 1, previous, current),
{
    assert forall|k: int| 0 <= k < v.len() implies is_stale_entry(
        #[trigger] v[k],
        previous,
        current,
    ) && seen(s, i + 1, v[k].0@) by {
        assert(seen(s, i, v[k].0@));
        let j = choose|j: int| 0 <= j < i && (#[trigger] s[j]).0 == v[k].0@;
        assert(s[j].0 == v[k].0@);
    }
}

/// The markers that no longer stand where they stood, in order.
pub fn stale_marker_locations(previous: &Locations, current: &Locations) -> (r: Vec<
    (String, StaleMarker),
>)
    requires
        previous.wf(),
        current.wf(),
    ensures
        lists_stale(stale_entries(r@), previous@, current@),
{
    let ghost s = location_entries(previous.entries@);
    proof {
        lemma_location_map(s);
    }
    let mut out: Vec<(String, StaleMarker)> = Vec::new();
    let mut i: usize = 0;
    while i < previous.entries.len()
        invariant
            i <= previous.entries@.len(),
            current.wf(),
            s == location_entries(previous.entries@),
            markers_differ(s),
            forall|k: int|
                0 <= k < s.len() ==> previous@.dom().contains((#[trigger] s[k]).0)
                    && previous@[s[k].0] == s[k].1,
            stale_so_far(out@, s, i as int, previous@, current@),
        decreases previous.entries@.len() - i,
    {
        let marker = previous.entries[i].0.as_str();
        let before = &previous.entries[i].1;
        assert(s[i as int] == (marker@, before@));
        let now = match current.get(marker) {
            Some(l) => l.copy(),
            None => MarkerLocation {
                marker_kind: owned("missing"),
                marker: owned(marker),
                function_marker: None,
                function_name: None,
                kinstr_marker: None,
                source_file: None,
                source_line: None,
            },
        };
        assert(now@ == location_now(current@, marker@));
        if !before.same(&now) {
            let at = place_behind(&out, marker);
            let item = StaleMarker { previous: before.copy(), current: now };
            let entry = (owned(marker), item);
            proof {
                lemma_stale_step(out@, entry, at as int, s, i as int, previous@, current@);
            }
            out.insert(at, entry);
        } else {
            proof {
                lemma_stale_skip(out@, s, i as int, previous@, current@);
            }
        }
        i = i + 1;
    }
    proof {
        let e = stale_entries(out@);
        assert(e.map_values(|x: (Seq<char>, StaleView)| x.0) =~= keys(out@));
        assert forall|k: int| 0 <= k < e.len() implies is_stale(
            previous@,
            current@,
            (#[trigger] e[k]).0,
        ) && e[k].1 == (StaleView {
            previous: previous@[e[k].0],
            current: location_now(current@, e[k].0),
        }) by {
            assert(is_stale_entry(out@[k], previous@, current@));
        }
        assert forall|m: Seq<char>| is_stale(previous@, current@, m) implies exists|k: int|
            0 <= k < e.len() && (#[trigger] e[k]).0 == m by {
            lemma_location_map(s);
            let j = choose|j: int| 0 <= j < s.len() && (#[trigger] s[j]).0 == m;
            assert(among(out@, s[j].0));
            let k = choose|k: int| 0 <= k < out@.len() && (#[trigger] out@[k]).0@ == s[j].0;
            assert(e[k].0 == m);
        }
    }
    out
}

/// A reload that leaves every marker where it stood makes no marker stale.
pub proof fn law_unchanged_locations_are_not_stale(
    locations: Map<Seq<char>, LocationView>,
    marker: Seq<char>,
)
    ensures
        !is_stale(locations, locations, marker),
{
}

/// The marker of a statement is `#s` and its number; a variable's begins with `#v`; without a marker
/// there is no kind.
pub proof fn law_markers_tell_their_kind(n: nat, rest: Seq<char>)
    requires
        n <= i64::MAX,
    ensures
        stmt_id("#s"@ + decimal(n)) == Some(n as int),
        kind_of_marker(Some("#s"@ + decimal(n))) == "statement"@,
        kind_of_marker(Some("#v"@ + rest)) == "declaration"@,
        kind_of_marker(None) == "none"@,
        stmt_id("#v"@ + rest) is None,
{
    reveal_strlit("#s");
    reveal_strlit("#v");
    crate::text::lemma_decimal_digits(n);
    let m = "#s"@ + decimal(n);
    assert(m.subrange(0, 2) =~= "#s"@);
    assert(m.subrange(2, m.len() as int) =~= decimal(n));
    let v = "#v"@ + rest;
    assert(v.subrange(0, 2) =~= "#v"@);
    if begins(v, "#s"@) {
        assert(v.subrange(0, 2)[1] == 's');
    }
}

/// A marker that is gone, and one that now stands elsewhere, is stale; the list names where it stood
/// and where it stands, or that it is missing.
pub proof fn law_a_moved_marker_is_stale(
    previous: Map<Seq<char>, LocationView>,
    current: Map<Seq<char>, LocationView>,
    marker: Seq<char>,
    s: Seq<(Seq<char>, StaleView)>,
)
    requires
        previous.dom().contains(marker),
        previous[marker].marker_kind == "function"@ || previous[marker].marker_kind == "property"@,
    ensures
        !current.dom().contains(marker) ==> is_stale(previous, current, marker),
        current.dom().contains(marker) ==> (is_stale(previous, current, marker)
            <==> current[marker] != previous[marker]),
        !current.dom().contains(marker) ==> location_now(current, marker).marker_kind == "missing"@,
        current.dom().contains(marker) ==> location_now(current, marker) == current[marker],
{
    reveal_strlit("function");
    reveal_strlit("property");
    reveal_strlit("missing");
    assert("function"@.len() == 8 && "property"@.len() == 8);
    assert("missing"@.len() == 7);
    assert("function"@[0] != "property"@[0]);
}

/// A function is found under its declaration and under its key, with its name and where it stands;
/// a property under its marker, with the name of the function it belongs to.
pub proof fn law_markers_are_located(
    entry: JsonView,
    decl: Seq<char>,
    key: Seq<char>,
    name: Seq<char>,
    at: JsonView,
    file: Seq<char>,
    line: int,
    m: Map<Seq<char>, LocationView>,
    names: JsonView,
)
    requires
        at.text("file"@) == Some(file),
        at.nat_at("line"@) == Some(line),
    ensures
        entry.text("decl"@) == Some(decl) && entry.text("key"@) == Some(key) && entry.text("name"@)
            == Some(name) && entry.get("sloc"@) == Some(at) ==> {
            let found = with_function(m, entry);
            &&& found.dom().contains(decl) && found.dom().contains(key)
            &&& found[key].function_name == Some(name)
            &&& found[key].function_marker == Some(decl)
            &&& found[key].marker == key
            &&& found[key].marker_kind == "function"@
            &&& found[key].source_file == Some(file)
            &&& found[key].source_line == Some(line as u64)
        },
        entry.text("scope"@) == Some(decl) && names.text(decl) == Some(name) && entry.get(
            "source_location"@,
        ) == Some(at) ==> {
            let found = property_location(entry, names, key);
            &&& found.marker_kind == "property"@
            &&& found.marker == key
            &&& found.function_marker == Some(decl)
            &&& found.function_name == Some(name)
            &&& found.source_file == Some(file)
            &&& found.source_line == Some(line as u64)
        },
{
}

/// Every function of a load is named and located under its markers, later rows over earlier ones,
/// and every property under its own.
pub proof fn law_every_row_is_located(
    rows: Seq<JsonView>,
    row: JsonView,
    decl: Seq<char>,
    name: Seq<char>,
    marker: Seq<char>,
    m: Map<Seq<char>, LocationView>,
    names: JsonView,
)
    ensures
        function_locations(rows.push(row)) == with_function(function_locations(rows), row),
        row.text("decl"@) == Some(decl) && row.text("name"@) == Some(name) ==> function_names(
            rows.push(row),
        ).text(decl) == Some(name),
        row.text("decl"@) is None ==> function_names(rows.push(row)) == function_names(rows),
        marker_of(row) == Some(marker) ==> with_properties(m, rows.push(row), names)
            == with_properties(m, rows, names).insert(marker, property_location(row, names, marker)),
        marker_of(row) is None ==> with_properties(m, rows.push(row), names) == with_properties(
            m,
            rows,
            names,
        ),
        with_properties(m, Seq::empty(), names) == m,
{
    broadcast use crate::json::group_object_reads;

    assert(rows.push(row).drop_last() =~= rows);
    lemma_names_are_an_object(rows);
}

proof fn lemma_names_are_an_object(rows: Seq<JsonView>)
    ensures
        function_names(rows) is Object,
    decreases rows.len(),
{
    if rows.len() > 0 {
        lemma_names_are_an_object(rows.drop_last());
    }
}

} // verus!
