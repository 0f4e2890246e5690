//! The regional authority of the Netherlands (NL).

use crate::cache::{distinct_keys, lemma_upsert_next, KeyedCache};
use crate::geo::{Coordinate, RestrictionDetails, RestrictionModel, Zone, ZoneType};
use crate::grpc::{
    FlightPlanRequest, FlightPlanResponse, FlightReleaseRequest, FlightReleaseResponse,
};
use crate::region::utils::{numbered_cache, numbered_points, polygon, polygon_of, prefixed_label};
use crate::region::{
    accept_flight_plan, accept_flight_release, RegionError, RegionInterface, RequestStatus,
    StatusResponse,
};
use crate::time::utc_now;
use vstd::prelude::*;

verus! {

/// The boundary of the zone `schiphol`, as latitude and longitude.
pub const NL_SCHIPHOL: [(i64, i64); 5] = [
    (523_827_247, 47_091_866),
    (523_294_647, 46_507_947),
    (522_572_307, 47_560_834),
    (523_214_912, 48_234_058),
    (523_827_247, 47_091_866),
];

/// The boundary of the zone `hoorn`, as latitude and longitude.
pub const NL_HOORN: [(i64, i64); 10] = [
    (526_317_085, 50_232_724),
    (526_347_298, 51_069_102),
    (526_459_798, 51_036_471),
    (526_501_458, 51_227_104),
    (526_829_387, 50_948_883),
    (526_710_736, 50_306_572),
    (526_534_782, 50_358_094),
    (526_393_135, 50_102_200),
    (526_317_085, 50_229_289),
    (526_317_085, 50_232_724),
];

/// The boundary of the zone `enkuizen`, as latitude and longitude.
pub const NL_ENKUIZEN: [(i64, i64); 7] = [
    (526_962_570, 52_790_303),
    (526_928_238, 52_867_586),
    (527_067_632, 53_121_763),
    (527_253_768, 52_864_152),
    (527_204_902, 52_604_823),
    (527_089_473, 52_611_692),
    (526_962_570, 52_790_303),
];

/// The boundary of the zone `paleis`, as latitude and longitude.
pub const NL_PALEIS: [(i64, i64); 5] = [
    (523_688_393, 48_822_724),
    (523_781_666, 48_832_170),
    (523_777_998, 49_007_345),
    (523_680_532, 49_001_335),
    (523_688_393, 48_822_724),
];

/// The boundary of the zone `lelystad`, as latitude and longitude.
pub const NL_LELYSTAD: [(i64, i64); 5] = [
    (525_337_670, 54_339_886),
    (524_942_783, 54_030_752),
    (524_806_893, 55_226_069),
    (525_329_316, 55_325_679),
    (525_337_670, 54_339_886),
];

/// The boundary of the zone `almere`, as latitude and longitude.
pub const NL_ALMERE: [(i64, i64); 10] = [
    (523_818_865, 51_146_438),
    (523_447_783, 51_273_526),
    (523_240_093, 51_541_442),
    (523_269_469, 52_294_815),
    (524_038_851, 53_468_376),
    (524_350_834, 52_664_628),
    (524_262_914, 52_279_928),
    (523_672_147, 51_551_747),
    (523_869_157, 51_359_397),
    (523_818_865, 51_146_438),
];

/// The boundary of the zone `volendam`, as latitude and longitude.
pub const NL_VOLENDAM: [(i64, i64); 6] = [
    (524_928_151, 50_379_751),
    (524_842_438, 50_702_624),
    (525_071_317, 50_912_148),
    (525_225_926, 50_742_124),
    (525_207_125, 50_465_621),
    (524_928_151, 50_379_751),
];

/// The boundary of the zone `monnickendam`, as latitude and longitude.
pub const NL_MONNICKENDAM: [(i64, i64); 6] = [
    (524_649_000, 50_302_965),
    (524_491_049, 50_241_138),
    (524_423_563, 50_486_728),
    (524_547_018, 50_503_902),
    (524_629_128, 50_423_184),
    (524_649_000, 50_302_965),
];

/// The boundary of the zone `marken`, as latitude and longitude.
pub const NL_MARKEN: [(i64, i64); 7] = [
    (524_568_985, 50_982_680),
    (524_545_449, 51_042_360),
    (524_564_540, 51_099_464),
    (524_619_715, 51_135_959),
    (524_657_889, 51_092_594),
    (524_612_655, 51_006_295),
    (524_568_985, 50_982_680),
];

/// The waypoints, as latitude and longitude.
pub const NL_WAYPOINTS: [(i64, i64); 76] = [
    (523_745_000, 49_160_000),
    (523_749_000, 49_156_000),
    (523_752_000, 49_153_000),
    (523_753_000, 49_156_000),
    (523_750_000, 49_161_000),
    (529_635_294, 52_021_015),
    (528_691_297, 52_570_586),
    (527_878_146, 53_724_685),
    (526_780_473, 54_164_342),
    (526_047_156, 53_559_814),
    (525_513_062, 52_735_457),
    (524_944_873, 52_021_015),
    (524_174_978, 51_361_530),
    (523_638_604, 50_784_480),
    (522_858_024, 50_234_941),
    (522_542_885, 49_699_542),
    (522_742_499, 49_095_214),
    (523_103_678, 49_075_041),
    (526_672_220, 52_844_417),
    (526_122_211, 52_133_705),
    (525_930_378, 51_309_348),
    (525_796_880, 50_732_299),
    (525_550_636, 50_057_699),
    (525_341_847, 49_314_804),
    (525_015_937, 48_697_511),
    (524_677_236, 48_566_987),
    (525_329_316, 48_148_570),
    (525_742_635, 47_921_165),
    (526_038_816, 48_375_440),
    (526_330_629, 48_918_141),
    (526_701_368, 49_550_148),
    (526_959_449, 50_051_632),
    (527_092_593, 50_553_115),
    (527_421_118, 51_189_528),
    (528_060_822, 51_892_695),
    (527_703_701, 55_227_080),
    (527_080_113, 55_213_340),
    (526_380_634, 55_309_515),
    (525_888_665, 55_007_251),
    (525_270_836, 53_784_456),
    (524_727_431, 53_399_756),
    (524_258_727, 53_866_891),
    (523_630_218, 54_457_680),
    (524_091_213, 56_862_054),
    (524_568_462, 57_865_021),
    (525_496_361, 58_538_245),
    (530_230_443, 50_791_343),
    (530_519_455, 49_870_812),
    (531_030_944, 49_280_023),
    (531_739_423, 49_664_723),
    (532_380_987, 50_502_818),
    (533_103_651, 52_357_621),
    (533_513_711, 53_621_634),
    (533_857_856, 55_023_041),
    (534_005_262, 56_026_008),
    (534_136_247, 57_606_025),
    (523_661_141, 48_892_276),
    (523_793_717, 48_931_777),
    (523_742_892, 48_784_938),
    (523_718_788, 49_035_680),
    (522_700_483, 47_266_651),
    (523_481_340, 48_111_616),
    (523_676_339, 46_383_902),
    (522_631_146, 48_558_143),
    (523_166_644, 48_805_450),
    (522_286_406, 47_946_745),
    (523_109_975, 46_164_074),
    (524_068_174, 47_022_778),
    (526_132_634, 50_968_408),
    (526_491_043, 51_521_414),
    (526_751_331, 51_342_804),
    (526_969_853, 50_985_582),
    (526_903_267, 50_456_620),
    (526_645_152, 50_034_138),
    (526_330_629, 49_955_137),
    (526_134_719, 50_463_490),
];

/// Processes for submission to the Dutch (Netherlands) authorities.
#[derive(Debug, Clone, Copy)]
pub struct NLImpl {}

/// The standing restriction called `name` with the boundary `points`: it
/// has no start and no end and reaches from the ground to 1000 metres.
pub open spec fn nl_zone(name: Seq<char>, points: Seq<(i64, i64)>) -> (
    Seq<char>,
    RestrictionModel,
) {
    (
        "ARROW-NL-NOFLY-"@ + name,
        RestrictionModel {
            vertices: polygon(points),
            timestamp_start: None,
            timestamp_end: None,
            zone_type: ZoneType::Restriction,
            altitude_meters_max: 1000,
            altitude_meters_min: 0,
        },
    )
}

/// The restrictions of the region.
pub open spec fn nl_restrictions() -> Seq<(Seq<char>, RestrictionModel)> {
    seq![
        nl_zone("schiphol"@, NL_SCHIPHOL@),
        nl_zone("hoorn"@, NL_HOORN@),
        nl_zone("enkuizen"@, NL_ENKUIZEN@),
        nl_zone("paleis"@, NL_PALEIS@),
        nl_zone("lelystad"@, NL_LELYSTAD@),
        nl_zone("almere"@, NL_ALMERE@),
        nl_zone("volendam"@, NL_VOLENDAM@),
        nl_zone("monnickendam"@, NL_MONNICKENDAM@),
        nl_zone("marken"@, NL_MARKEN@),
    ]
}

/// The waypoints of the region, numbered from zero.
pub open spec fn nl_waypoints() -> Seq<(Seq<char>, Coordinate)> {
    numbered_points("ARROW-WEG-"@, NL_WAYPOINTS@)
}

/// The restrictions of the region go by different names.
pub proof fn lemma_nl_restrictions_distinct()
    ensures
        distinct_keys(nl_restrictions()),
{
    reveal_strlit("ARROW-NL-NOFLY-");
    reveal_strlit("schiphol");
    reveal_strlit("hoorn");
    reveal_strlit("enkuizen");
    reveal_strlit("paleis");
    reveal_strlit("lelystad");
    reveal_strlit("almere");
    reveal_strlit("volendam");
    reveal_strlit("monnickendam");
    reveal_strlit("marken");
    let all = nl_restrictions();
    assert(all[0].0[15] == 's' && all[0].0[16] == 'c');
    assert(all[1].0[15] == 'h' && all[1].0[16] == 'o');
    assert(all[2].0[15] == 'e' && all[2].0[16] == 'n');
    assert(all[3].0[15] == 'p' && all[3].0[16] == 'a');
    assert(all[4].0[15] == 'l' && all[4].0[16] == 'e');
    assert(all[5].0[15] == 'a' && all[5].0[16] == 'l');
    assert(all[6].0[15] == 'v' && all[6].0[16] == 'o');
    assert(all[7].0[15] == 'm' && all[7].0[16] == 'o');
    assert(all[8].0[15] == 'm' && all[8].0[16] == 'a');
}

/// Builds the standing restriction called `name` with the boundary `points`.
pub fn zone_of<const N: usize>(name: &str, points: &[(i64, i64); N]) -> (zone: Zone)
    ensures
        zone@ == nl_zone(name@, points@),
{
    Zone {
        identifier: prefixed_label("ARROW-NL-NOFLY-", name),
        details: RestrictionDetails {
            vertices: polygon_of(points),
            timestamp_start: None,
            timestamp_end: None,
            zone_type: ZoneType::Restriction,
            altitude_meters_max: 1000,
            altitude_meters_min: 0,
        },
    }
}

/// Builds the restrictions of the region.
pub fn restrictions_fresh() -> (cache: KeyedCache<RestrictionDetails>)
    ensures
        cache.wf(),
        cache@ == nl_restrictions(),
{
    let ghost all = nl_restrictions();
    let mut cache: KeyedCache<RestrictionDetails> = KeyedCache::new();
    assert(cache@ =~= all.take(0));
    proof {
        lemma_nl_restrictions_distinct();
        lemma_upsert_next(all, 0);
        lemma_upsert_next(all, 1);
        lemma_upsert_next(all, 2);
        lemma_upsert_next(all, 3);
        lemma_upsert_next(all, 4);
        lemma_upsert_next(all, 5);
        lemma_upsert_next(all, 6);
        lemma_upsert_next(all, 7);
        lemma_upsert_next(all, 8);
    }
    let zone = zone_of("schiphol", &NL_SCHIPHOL);
    cache.insert(zone.identifier, zone.details);
    let zone = zone_of("hoorn", &NL_HOORN);
    cache.insert(zone.identifier, zone.details);
    let zone = zone_of("enkuizen", &NL_ENKUIZEN);
    cache.insert(zone.identifier, zone.details);
    let zone = zone_of("paleis", &NL_PALEIS);
    cache.insert(zone.identifier, zone.details);
    let zone = zone_of("lelystad", &NL_LELYSTAD);
    cache.insert(zone.identifier, zone.details);
    let zone = zone_of("almere", &NL_ALMERE);
    cache.insert(zone.identifier, zone.details);
    let zone = zone_of("volendam", &NL_VOLENDAM);
    cache.insert(zone.identifier, zone.details);
    let zone = zone_of("monnickendam", &NL_MONNICKENDAM);
    cache.insert(zone.identifier, zone.details);
    let zone = zone_of("marken", &NL_MARKEN);
    cache.insert(zone.identifier, zone.details);
    assert(all.take(9) =~= all);
    cache
}

/// Builds the waypoints of the region.
pub fn waypoints_fresh() -> (cache: KeyedCache<Coordinate>)
    ensures
        cache.wf(),
        cache@ == nl_waypoints(),
{
    numbered_cache("ARROW-WEG-", &NL_WAYPOINTS)
}

impl RegionInterface for NLImpl {
    fn get_region(&self) -> (code: &str)
        ensures
            code@ == "nl"@,
    {
        "nl"
    }

    fn submit_flight_plan(&self, request: FlightPlanRequest) -> (response: Result<
        FlightPlanResponse,
        RegionError,
    >)
        ensures
            response matches Ok(answer) && answer.flight_plan_id@ == request.flight_plan_id@
                && answer.submitted && answer.result is None,
    {
        Ok(accept_flight_plan(request))
    }

    fn request_flight_release(&self, request: FlightReleaseRequest) -> (response: Result<
        FlightReleaseResponse,
        RegionError,
    >)
        ensures
            response matches Ok(answer) && answer.flight_plan_id@ == request.flight_plan_id@
                && answer.released && answer.result is None,
    {
        Ok(accept_flight_release(request))
    }

    fn get_flight_plan_status(&self, flight_plan_id: &String) -> (response: Result<
        StatusResponse,
        RegionError,
    >)
        ensures
            response matches Ok(answer) && answer.status == RequestStatus::Approved,
    {
        Ok(StatusResponse { status: RequestStatus::Approved, timestamp: utc_now() })
    }

    fn get_flight_release_status(&self, flight_plan_id: &String) -> (response: Result<
        StatusResponse,
        RegionError,
    >)
        ensures
            response matches Ok(answer) && answer.status == RequestStatus::Approved,
    {
        Ok(StatusResponse { status: RequestStatus::Approved, timestamp: utc_now() })
    }

    fn acquire_restrictions(&self, restrictions: &mut KeyedCache<RestrictionDetails>)
        ensures
            final(restrictions)@ == nl_restrictions(),
    {
        *restrictions = restrictions_fresh();
    }

    fn acquire_waypoints(&self, waypoints: &mut KeyedCache<Coordinate>)
        ensures
            final(waypoints)@ == nl_waypoints(),
    {
        *waypoints = waypoints_fresh();
    }
}

} // verus!
