//! Coordinates, waypoints and restriction zones, and the bounding-box window
//! used to answer read queries.

use crate::time::Timestamp;
use vstd::prelude::*;

verus! {

/// A position on the globe, each axis held in units of 1e-7 degree.
#[derive(Clone, Copy, Debug, PartialEq, Eq, Structural)]
pub struct Coordinate {
    /// Latitude, in units of 1e-7 degree.
    pub latitude: i64,
    /// Longitude, in units of 1e-7 degree.
    pub longitude: i64,
}

impl View for Coordinate {
    type V = Coordinate;

    open spec fn view(&self) -> Coordinate {
        *self
    }
}

/// An axis-aligned window; a missing corner leaves that side unbounded.
#[derive(Clone, Copy, Debug, PartialEq, Eq, Structural)]
pub struct CoordinateFilter {
    /// The corner with the smallest latitude and longitude.
    pub min: Option<Coordinate>,
    /// The corner with the largest latitude and longitude.
    pub max: Option<Coordinate>,
}

/// A named point.
#[derive(Debug)]
pub struct Waypoint {
    /// The key of the waypoint.
    pub identifier: String,
    /// Where it lies.
    pub location: Coordinate,
}

impl View for Waypoint {
    type V = (Seq<char>, Coordinate);

    open spec fn view(&self) -> (Seq<char>, Coordinate) {
        (self.identifier@, self.location)
    }
}

impl DeepView for Waypoint {
    type V = (Seq<char>, Coordinate);

    open spec fn deep_view(&self) -> (Seq<char>, Coordinate) {
        self@
    }
}

impl Clone for Waypoint {
    fn clone(&self) -> (copy: Self)
        ensures
            copy@ == self@,
    {
        Waypoint { identifier: self.identifier.clone(), location: self.location }
    }
}

/// The kind of an airspace restriction.
#[derive(Clone, Copy, Debug, PartialEq, Eq, Structural)]
pub enum ZoneType {
    /// Flight is restricted inside the zone.
    Restriction,
    /// No flight may enter the zone.
    NoFly,
}

/// What is known of one restricted airspace: a polygon, an altitude band in
/// whole metres, and the time during which it holds.
#[derive(Debug)]
pub struct RestrictionDetails {
    /// The boundary vertices of the restriction.
    pub vertices: Vec<Coordinate>,
    /// When the restriction starts, if it has a start.
    pub timestamp_start: Option<Timestamp>,
    /// When the restriction ends, if it has an end.
    pub timestamp_end: Option<Timestamp>,
    /// The kind of restriction.
    pub zone_type: ZoneType,
    /// The upper altitude limit in metres.
    pub altitude_meters_max: i32,
    /// The lower altitude limit in metres.
    pub altitude_meters_min: i32,
}

/// The mathematical content of a [`RestrictionDetails`].
pub struct RestrictionModel {
    /// The boundary vertices.
    pub vertices: Seq<Coordinate>,
    /// The start time.
    pub timestamp_start: Option<Timestamp>,
    /// The end time.
    pub timestamp_end: Option<Timestamp>,
    /// The kind of restriction.
    pub zone_type: ZoneType,
    /// The upper altitude limit in metres.
    pub altitude_meters_max: i32,
    /// The lower altitude limit in metres.
    pub altitude_meters_min: i32,
}

impl View for RestrictionDetails {
    type V = RestrictionModel;

    open spec fn view(&self) -> RestrictionModel {
        RestrictionModel {
            vertices: self.vertices@,
            timestamp_start: self.timestamp_start,
            timestamp_end: self.timestamp_end,
            zone_type: self.zone_type,
            altitude_meters_max: self.altitude_meters_max,
            altitude_meters_min: self.altitude_meters_min,
        }
    }
}

/// Copies a list of vertices.
pub fn copy_vertices(vertices: &Vec<Coordinate>) -> (copy: Vec<Coordinate>)
    ensures
        copy@ == vertices@,
{
    let mut copy: Vec<Coordinate> = Vec::new();
    let mut i: usize = 0;
    while i < vertices.len()
        invariant
            0 <= i <= vertices@.len(),
            copy@ == vertices@.take(i as int),
        decreases vertices@.len() - i,
    {
        copy.push(vertices[i]);
        assert(vertices@.take(i + 1) =~= vertices@.take(i as int).push(vertices@[i as int]));
        i += 1;
    }
    assert(vertices@.take(i as int) =~= vertices@);
    copy
}

impl Clone for RestrictionDetails {
    fn clone(&self) -> (copy: Self)
        ensures
            copy@ == self@,
    {
        RestrictionDetails {
            vertices: copy_vertices(&self.vertices),
            timestamp_start: self.timestamp_start,
            timestamp_end: self.timestamp_end,
            zone_type: self.zone_type,
            altitude_meters_max: self.altitude_meters_max,
            altitude_meters_min: self.altitude_meters_min,
        }
    }
}

/// A restriction together with the key it is known by.
#[derive(Debug)]
pub struct Zone {
    /// The key of the zone.
    pub identifier: String,
    /// The restriction itself.
    pub details: RestrictionDetails,
}

impl View for Zone {
    type V = (Seq<char>, RestrictionModel);

    open spec fn view(&self) -> (Seq<char>, RestrictionModel) {
        (self.identifier@, self.details@)
    }
}

impl DeepView for Zone {
    type V = (Seq<char>, RestrictionModel);

    open spec fn deep_view(&self) -> (Seq<char>, RestrictionModel) {
        self@
    }
}

impl Clone for Zone {
    fn clone(&self) -> (copy: Self)
        ensures
            copy@ == self@,
    {
        Zone { identifier: self.identifier.clone(), details: self.details.clone() }
    }
}

impl CoordinateFilter {
    /// Whether `point` lies inside the window, bounds included.
    pub open spec fn admits(self, point: Coordinate) -> bool {
        &&& self.min matches Some(lo) ==> lo.latitude <= point.latitude && lo.longitude
            <= point.longitude
        &&& self.max matches Some(hi) ==> point.latitude <= hi.latitude && point.longitude
            <= hi.longitude
    }

    /// Whether at least one of `vertices` lies inside the window.
    pub open spec fn touches(self, vertices: Seq<Coordinate>) -> bool {
        exists|i: int| 0 <= i < vertices.len() && self.admits(#[trigger] vertices[i])
    }

    /// Tests one point against the window.
    pub fn contains(&self, point: &Coordinate) -> (inside: bool)
        ensures
            inside == self.admits(*point),
    {
        let above = match self.min {
            Some(lo) => lo.latitude <= point.latitude && lo.longitude <= point.longitude,
            None => true,
        };
        let below = match self.max {
            Some(hi) => point.latitude <= hi.latitude && point.longitude <= hi.longitude,
            None => true,
        };
        above && below
    }

    /// Tests whether a polygon has a vertex inside the window.
    pub fn contains_any(&self, vertices: &Vec<Coordinate>) -> (inside: bool)
        ensures
            inside == self.touches(vertices@),
    {
        let mut i: usize = 0;
        while i < vertices.len()
            invariant
                0 <= i <= vertices@.len(),
                forall|j: int| 0 <= j < i ==> !self.admits(#[trigger] vertices@[j]),
            decreases vertices@.len() - i,
        {
            if self.contains(&vertices[i]) {
                return true;
            }
            i += 1;
        }
        false
    }
}

/// Whether a waypoint at `point` is shown through `filter`: always when
/// there is no window, else when the point lies inside it.
pub open spec fn shows_point(filter: Option<CoordinateFilter>, point: Coordinate) -> bool {
    filter matches Some(window) ==> window.admits(point)
}

/// Whether a zone with these `vertices` is shown through `filter`: always
/// when there is no window, else when a vertex lies inside it.
pub open spec fn shows_polygon(
    filter: Option<CoordinateFilter>,
    vertices: Seq<Coordinate>,
) -> bool {
    filter matches Some(window) ==> window.touches(vertices)
}

/// The waypoints of `waypoints` that `filter` shows, in their order.
pub open spec fn shown_waypoints(
    waypoints: Seq<(Seq<char>, Coordinate)>,
    filter: Option<CoordinateFilter>,
) -> Seq<(Seq<char>, Coordinate)> {
    waypoints.filter(|w: (Seq<char>, Coordinate)| shows_point(filter, w.1))
}

/// The zones of `zones` that `filter` shows, in their order.
pub open spec fn shown_zones(
    zones: Seq<(Seq<char>, RestrictionModel)>,
    filter: Option<CoordinateFilter>,
) -> Seq<(Seq<char>, RestrictionModel)> {
    zones.filter(|z: (Seq<char>, RestrictionModel)| shows_polygon(filter, z.1.vertices))
}

/// A filter that every element passes hands the sequence back unchanged.
pub proof fn lemma_filter_keeps_all<A>(s: Seq<A>, pred: spec_fn(A) -> bool)
    requires
        forall|i: int| 0 <= i < s.len() ==> pred(#[trigger] s[i]),
    ensures
        s.filter(pred) == s,
    decreases s.len(),
{
    reveal(Seq::filter);
    if s.len() > 0 {
        lemma_filter_keeps_all(s.drop_last(), pred);
        assert(s.drop_last().push(s.last()) =~= s);
    }
}

/// Keeps the waypoints that lie inside the window; with no window, all.
pub fn filter_waypoints(waypoints: &Vec<Waypoint>, filter: &Option<CoordinateFilter>) -> (shown:
    Vec<Waypoint>)
    ensures
        shown.deep_view() == shown_waypoints(waypoints.deep_view(), *filter),
        (*filter matches Some(window) ==> window.min is None && window.max is None)
            ==> shown.deep_view() == waypoints.deep_view(),
{
    let ghost pred = |w: (Seq<char>, Coordinate)| shows_point(*filter, w.1);
    let ghost all = waypoints.deep_view();
    let mut shown: Vec<Waypoint> = Vec::new();
    let mut i: usize = 0;
    proof {
        reveal(Seq::filter);
        assert(shown.deep_view() =~= all.take(0).filter(pred));
    }
    while i < waypoints.len()
        invariant
            0 <= i <= waypoints@.len(),
            all == waypoints.deep_view(),
            all.len() == waypoints@.len(),
            pred == |w: (Seq<char>, Coordinate)| shows_point(*filter, w.1),
            shown.deep_view() == all.take(i as int).filter(pred),
        decreases waypoints@.len() - i,
    {
        let ghost before = shown.deep_view();
        let keep = match filter {
            Some(window) => window.contains(&waypoints[i].location),
            None => true,
        };
        assert(all[i as int] == waypoints@[i as int]@);
        assert(keep == pred(all[i as int]));
        proof {
            all.take(i as int).lemma_filter_push(all[i as int], pred);
            assert(all.take(i + 1) =~= all.take(i as int).push(all[i as int]));
        }
        if keep {
            shown.push(waypoints[i].clone());
            assert(shown.deep_view() =~= before.push(all[i as int]));
        }
        i += 1;
    }
    assert(all.take(i as int) =~= all);
    proof {
        if *filter matches Some(window) ==> window.min is None && window.max is None {
            lemma_filter_keeps_all(all, pred);
        }
    }
    shown
}

/// Keeps the zones that have a vertex inside the window; with no window,
/// all.
pub fn filter_zones(zones: &Vec<Zone>, filter: &Option<CoordinateFilter>) -> (shown: Vec<Zone>)
    ensures
        shown.deep_view() == shown_zones(zones.deep_view(), *filter),
        *filter is None ==> shown.deep_view() == zones.deep_view(),
{
    let ghost pred = |z: (Seq<char>, RestrictionModel)| shows_polygon(*filter, z.1.vertices);
    let ghost all = zones.deep_view();
    let mut shown: Vec<Zone> = Vec::new();
    let mut i: usize = 0;
    proof {
        reveal(Seq::filter);
        assert(shown.deep_view() =~= all.take(0).filter(pred));
    }
    while i < zones.len()
        invariant
            0 <= i <= zones@.len(),
            all == zones.deep_view(),
            all.len() == zones@.len(),
            pred == |z: (Seq<char>, RestrictionModel)| shows_polygon(*filter, z.1.vertices),
            shown.deep_view() == all.take(i as int).filter(pred),
        decreases zones@.len() - i,
    {
        let ghost before = shown.deep_view();
        let keep = match filter {
            Some(window) => window.contains_any(&zones[i].details.vertices),
            None => true,
        };
        assert(all[i as int] == zones@[i as int]@);
        assert(keep == pred(all[i as int]));
        proof {
            all.take(i as int).lemma_filter_push(all[i as int], pred);
            assert(all.take(i + 1) =~= all.take(i as int).push(all[i as int]));
        }
        if keep {
            shown.push(zones[i].clone());
            assert(shown.deep_view() =~= before.push(all[i as int]));
        }
        i += 1;
    }
    assert(all.take(i as int) =~= all);
    proof {
        if *filter is None {
            lemma_filter_keeps_all(all, pred);
        }
    }
    shown
}

/// A window without bounds shows every waypoint.
pub proof fn lemma_unbounded_shows_all_waypoints(waypoints: Seq<(Seq<char>, Coordinate)>)
    ensures
        shown_waypoints(waypoints, Some(CoordinateFilter { min: None, max: None })) == waypoints,
        shown_waypoints(waypoints, None) == waypoints,
{
    let bare = Some(CoordinateFilter { min: None, max: None });
    lemma_filter_keeps_all(waypoints, |w: (Seq<char>, Coordinate)| shows_point(bare, w.1));
    lemma_filter_keeps_all(waypoints, |w: (Seq<char>, Coordinate)| shows_point(None, w.1));
}

/// A window without bounds shows every zone that has a vertex, and a
/// missing window shows every zone.
pub proof fn lemma_unbounded_shows_all_zones(zones: Seq<(Seq<char>, RestrictionModel)>)
    ensures
        (forall|i: int| 0 <= i < zones.len() ==> (#[trigger] zones[i]).1.vertices.len() > 0)
            ==> shown_zones(zones, Some(CoordinateFilter { min: None, max: None })) == zones,
        shown_zones(zones, None) == zones,
{
    let bare = CoordinateFilter { min: None, max: None };
    if forall|i: int| 0 <= i < zones.len() ==> (#[trigger] zones[i]).1.vertices.len() > 0 {
        assert forall|i: int| 0 <= i < zones.len() implies shows_polygon(
            Some(bare),
            (#[trigger] zones[i]).1.vertices,
        ) by {
            assert(bare.admits(zones[i].1.vertices[0]));
        }
        lemma_filter_keeps_all(
            zones,
            |z: (Seq<char>, RestrictionModel)| shows_polygon(Some(bare), z.1.vertices),
        );
    }
    lemma_filter_keeps_all(
        zones,
        |z: (Seq<char>, RestrictionModel)| shows_polygon(None, z.1.vertices),
    );
}

/// The bounds of a window belong to it: a point on the `min` corner or on
/// the `max` corner is inside, as long as the window is not empty.
pub proof fn lemma_bounds_are_inclusive(window: CoordinateFilter, point: Coordinate)
    requires
        window.min matches Some(lo) ==> (window.max matches Some(hi) ==> lo.latitude
            <= hi.latitude && lo.longitude <= hi.longitude),
        window.min == Some(point) || window.max == Some(point),
    ensures
        window.admits(point),
        shows_point(Some(window), point),
{
}

/// On each axis the window is a closed interval: a point is inside exactly
/// when neither coordinate lies strictly beyond a bound that is present.
pub proof fn lemma_window_is_closed(window: CoordinateFilter, point: Coordinate)
    ensures
        window.admits(point) <==> !(window.min matches Some(lo) && (point.latitude < lo.latitude
            || point.longitude < lo.longitude)) && !(window.max matches Some(hi) && (
        point.latitude > hi.latitude || point.longitude > hi.longitude)),
{
}

} // verus!
