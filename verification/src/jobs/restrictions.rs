//! Brings the restrictions of the regional authority to the geospatial
//! service.

use crate::cache::KeyedCache;
use crate::geo::{RestrictionDetails, RestrictionModel, Zone};
use crate::region::RegionInterface;
use vstd::prelude::*;

verus! {

/// Results of updating restrictions.
#[derive(Clone, Copy, Debug, PartialEq, Eq, Structural)]
pub enum UpdateRestrictionsStatus {
    /// Restrictions were updated.
    Success,
    /// No restrictions were updated.
    NoRestrictions,
    /// The request to the geospatial service failed.
    RequestFailure,
}

/// What is sent to the geospatial service to update its zones.
#[derive(Debug)]
pub struct UpdateZonesRequest {
    /// The zones.
    pub zones: Vec<Zone>,
}

/// Lists the restrictions of a cache as zones, each with its key, in the
/// order of the cache.
pub fn restriction_zones(restrictions: &KeyedCache<RestrictionDetails>) -> (zones: Vec<Zone>)
    ensures
        zones.deep_view() == restrictions@,
{
    let mut zones: Vec<Zone> = Vec::new();
    let mut i: usize = 0;
    assert(zones.deep_view() =~= restrictions@.take(0));
    while i < restrictions.len()
        invariant
            0 <= i <= restrictions@.len(),
            zones.deep_view() == restrictions@.take(i as int),
        decreases restrictions@.len() - i,
    {
        let ghost before = zones.deep_view();
        zones.push(
            Zone {
                identifier: restrictions.key(i).clone(),
                details: restrictions.value(i).clone(),
            },
        );
        assert(zones.deep_view() =~= before.push(restrictions@[i as int]));
        assert(restrictions@.take(i + 1) =~= before.push(restrictions@[i as int]));
        i += 1;
    }
    assert(restrictions@.take(i as int) =~= restrictions@);
    zones
}

/// Says what is sent to the geospatial service for the restrictions of a
/// cache: all of them, or nothing at all when there are none.
pub fn update_restrictions(restrictions: &KeyedCache<RestrictionDetails>) -> (request: Option<
    UpdateZonesRequest,
>)
    ensures
        request is None <==> restrictions@.len() == 0,
        request matches Some(r) ==> r.zones.deep_view() == restrictions@,
{
    let zones = restriction_zones(restrictions);
    if zones.len() == 0 {
        return None;
    }
    Some(UpdateZonesRequest { zones })
}

/// Says how an update went: `sent` is `None` when nothing was to be sent,
/// and otherwise says whether the geospatial service took the request.
pub fn update_restrictions_status(sent: Option<bool>) -> (status: UpdateRestrictionsStatus)
    ensures
        sent is None <==> status == UpdateRestrictionsStatus::NoRestrictions,
        sent == Some(true) <==> status == UpdateRestrictionsStatus::Success,
        sent == Some(false) <==> status == UpdateRestrictionsStatus::RequestFailure,
{
    match sent {
        None => UpdateRestrictionsStatus::NoRestrictions,
        Some(true) => UpdateRestrictionsStatus::Success,
        Some(false) => UpdateRestrictionsStatus::RequestFailure,
    }
}

/// Takes in what was fetched from the authority: the cache is replaced by
/// it as a whole, also when nothing was fetched, and the fetched
/// restrictions are to be sent on unless there are none.
pub fn sync_restrictions(
    cache: &mut KeyedCache<RestrictionDetails>,
    fetched: KeyedCache<RestrictionDetails>,
) -> (request: Option<UpdateZonesRequest>)
    requires
        fetched.wf(),
    ensures
        final(cache).wf(),
        final(cache)@ == fetched@,
        request is None <==> fetched@.len() == 0,
        request matches Some(r) ==> r.zones.deep_view() == fetched@,
{
    *cache = fetched;
    update_restrictions(cache)
}

/// Fetches the restrictions of the authority: it is asked with nothing in
/// hand, so that what comes back is its current answer as a whole.
pub fn fetch_restrictions<R: RegionInterface>(region: &R) -> (fetched: KeyedCache<
    RestrictionDetails,
>)
    ensures
        fetched.wf(),
        exists|slot: &mut KeyedCache<RestrictionDetails>|
            slot@ == Seq::<(Seq<char>, RestrictionModel)>::empty() && #[trigger] call_ensures(
                R::acquire_restrictions,
                (region, slot),
                (),
            ) && final(slot)@ == fetched@,
{
    let mut fetched: KeyedCache<RestrictionDetails> = KeyedCache::new();
    region.acquire_restrictions(&mut fetched);
    fetched
}

/// One round of the restriction loop up to the sending: fetches the
/// restrictions from the authority, with nothing in hand, replaces the
/// cache by what the authority left and says what is to be sent to the
/// geospatial service, if anything.
pub fn refresh_restrictions<R: RegionInterface>(
    region: &R,
    cache: &mut KeyedCache<RestrictionDetails>,
) -> (request: Option<UpdateZonesRequest>)
    ensures
        final(cache).wf(),
        exists|slot: &mut KeyedCache<RestrictionDetails>|
            slot@ == Seq::<(Seq<char>, RestrictionModel)>::empty() && #[trigger] call_ensures(
                R::acquire_restrictions,
                (region, slot),
                (),
            ) && final(slot)@ == final(cache)@,
        request is None <==> final(cache)@.len() == 0,
        request matches Some(r) ==> r.zones.deep_view() == final(cache)@,
{
    let fetched = fetch_restrictions(region);
    sync_restrictions(cache, fetched)
}

} // verus!
