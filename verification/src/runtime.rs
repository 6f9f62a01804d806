use vstd::prelude::*;
use crate::director::spawn::{parse_weather, weather_from_name};
use crate::economy::types::{Pp, Weather};

verus! {

/// Parameters of a recorded or replayed leg.
#[derive(Debug, Clone)]
pub struct LegParameters {
    pub world_seed: String,
    pub link_label: String,
    pub rng_salt: String,
    pub rulepack: String,
    pub weather: Weather,
    pub pp: Pp,
    pub prior_enemies: Option<u32>,
    pub prior_danger_score: Option<i32>,
    pub mission_minutes: u32,
    pub density_per_10k: u32,
    pub cadence_per_min: u32,
    pub player_rating: u8,
    pub mission_sequence: Vec<String>,
}

/// The overrides a golden-manifest case makes to a leg's parameters.
#[derive(Debug, Clone)]
pub struct GoldenCase {
    pub file: String,
    pub world_seed: Option<String>,
    pub link_id: Option<String>,
    pub weather: Option<String>,
    pub rng_salt: Option<String>,
    pub rulepack: Option<String>,
    pub pp: Option<u16>,
    pub prior_enemies: Option<u32>,
    pub prior_danger_score: Option<i32>,
    pub mission_minutes: Option<u32>,
    pub density_per_10k: Option<u32>,
    pub cadence_per_min: Option<u32>,
    pub player_rating: Option<u8>,
    pub mission_sequence: Option<Vec<String>>,
    pub max_ticks: Option<u32>,
}

/// A manifest names a weather that does not exist.
#[derive(Debug, Clone)]
pub struct UnknownWeather {
    pub label: String,
}

/// `current` replaced by the view of `new`, if given.
pub open spec fn override_text(current: Seq<char>, new: Option<String>) -> Seq<char> {
    match new {
        Some(s) => s@,
        None => current,
    }
}

/// `current` replaced by `new`, if given.
pub open spec fn override_value<T>(current: T, new: Option<T>) -> T {
    match new {
        Some(v) => v,
        None => current,
    }
}

/// The case's weather label names no weather.
pub open spec fn case_weather_unknown(case: GoldenCase) -> bool {
    case.weather matches Some(w) && weather_from_name(w@).is_none()
}

fn copy_strings(v: &Vec<String>) -> (r: Vec<String>)
    ensures
        r@.map_values(|s: String| s@) == v@.map_values(|s: String| s@),
{
    let mut out: Vec<String> = Vec::new();
    let mut i: usize = 0;
    while i < v.len()
        invariant
            i <= v@.len(),
            out@.map_values(|s: String| s@) == v@.take(i as int).map_values(|s: String| s@),
        decreases v.len() - i,
    {
        let s = v[i].clone();
        let ghost before = out@;
        out.push(s);
        assert(out@.map_values(|s: String| s@) =~= before.map_values(|s: String| s@).push(s@));
        assert(v@.take(i + 1).map_values(|s: String| s@) =~= v@.take(i as int).map_values(|s: String| s@).push(v@[i as int]@));
        i = i + 1;
    }
    assert(v@.take(v@.len() as int) =~= v@);
    out
}

/// Applies a golden case to the leg parameters: every given text, number and mission
/// list replaces the current one; the prior enemies and prior danger are taken from the
/// case even when it leaves them out. An unknown weather label is an error, reported
/// after the texts before it have been applied, as the manifest reader does.
pub fn apply_case(params: &mut LegParameters, case: &GoldenCase) -> (r: Result<(), UnknownWeather>)
    ensures
        final(params).world_seed@ == override_text(old(params).world_seed@, case.world_seed),
        final(params).link_label@ == override_text(old(params).link_label@, case.link_id),
        final(params).rng_salt@ == override_text(old(params).rng_salt@, case.rng_salt),
        final(params).rulepack@ == override_text(old(params).rulepack@, case.rulepack),
        r is Err <==> case_weather_unknown(*case),
        r matches Err(e) ==> case.weather matches Some(w) && e.label@ == w@,
        r is Err ==> {
            &&& final(params).weather == old(params).weather
            &&& final(params).pp == old(params).pp
            &&& final(params).prior_enemies == old(params).prior_enemies
            &&& final(params).prior_danger_score == old(params).prior_danger_score
            &&& final(params).mission_minutes == old(params).mission_minutes
            &&& final(params).density_per_10k == old(params).density_per_10k
            &&& final(params).cadence_per_min == old(params).cadence_per_min
            &&& final(params).player_rating == old(params).player_rating
            &&& final(params).mission_sequence == old(params).mission_sequence
        },
        r is Ok ==> {
            &&& final(params).weather == (match case.weather {
                Some(w) => weather_from_name(w@).unwrap(),
                None => old(params).weather,
            })
            &&& final(params).pp == (match case.pp {
                Some(p) => Pp(p),
                None => old(params).pp,
            })
            &&& final(params).prior_enemies == case.prior_enemies
            &&& final(params).prior_danger_score == case.prior_danger_score
            &&& final(params).mission_minutes == override_value(old(params).mission_minutes, case.mission_minutes)
            &&& final(params).density_per_10k == override_value(old(params).density_per_10k, case.density_per_10k)
            &&& final(params).cadence_per_min == override_value(old(params).cadence_per_min, case.cadence_per_min)
            &&& final(params).player_rating == override_value(old(params).player_rating, case.player_rating)
            &&& final(params).mission_sequence@.map_values(|s: String| s@) == (match case.mission_sequence {
                Some(seq) => seq@.map_values(|s: String| s@),
                None => old(params).mission_sequence@.map_values(|s: String| s@),
            })
        },
{
    match &case.world_seed {
        Some(s) => params.world_seed = s.clone(),
        None => {},
    }
    match &case.link_id {
        Some(s) => params.link_label = s.clone(),
        None => {},
    }
    match &case.rng_salt {
        Some(s) => params.rng_salt = s.clone(),
        None => {},
    }
    match &case.rulepack {
        Some(s) => params.rulepack = s.clone(),
        None => {},
    }
    match &case.weather {
        Some(label) => match parse_weather(label.as_str()) {
            Some(w) => params.weather = w,
            None => return Err(UnknownWeather { label: label.clone() }),
        },
        None => {},
    }
    match case.pp {
        Some(p) => params.pp = Pp(p),
        None => {},
    }
    params.prior_enemies = case.prior_enemies;
    params.prior_danger_score = case.prior_danger_score;
    match case.mission_minutes {
        Some(m) => params.mission_minutes = m,
        None => {},
    }
    match case.density_per_10k {
        Some(d) => params.density_per_10k = d,
        None => {},
    }
    match case.cadence_per_min {
        Some(c) => params.cadence_per_min = c,
        None => {},
    }
    match case.player_rating {
        Some(r) => params.player_rating = r,
        None => {},
    }
    match &case.mission_sequence {
        Some(seq) => params.mission_sequence = copy_strings(seq),
        None => {},
    }
    Ok(())
}

/// The case for a recording file: the first whose `file` is the file's name.
pub open spec fn case_index_for(cases: Seq<GoldenCase>, file_name: Seq<char>) -> Option<int>
    decreases cases.len(),
{
    if cases.len() == 0 {
        None
    } else if cases[0].file@ == file_name {
        Some(0)
    } else {
        match case_index_for(cases.drop_first(), file_name) {
            Some(i) => Some(i + 1),
            None => None,
        }
    }
}

/// The index of the manifest case for a recording file name, if any.
pub fn case_for_path(cases: &Vec<GoldenCase>, file_name: &str) -> (r: Option<usize>)
    ensures
        match r {
            Some(i) => case_index_for(cases@, file_name@) == Some(i as int),
            None => case_index_for(cases@, file_name@).is_none(),
        },
{
    let target = file_name.to_owned();
    let mut i: usize = 0;
    while i < cases.len()
        invariant
            i <= cases@.len(),
            target@ == file_name@,
            forall|j: int| 0 <= j < i ==> cases@[j].file@ != file_name@,
        decreases cases.len() - i,
    {
        if cases[i].file == target {
            proof {
                lemma_case_index(cases@, file_name@, i as int);
            }
            return Some(i);
        }
        i = i + 1;
    }
    proof {
        lemma_case_absent(cases@, file_name@);
    }
    None
}

proof fn lemma_case_index(cases: Seq<GoldenCase>, name: Seq<char>, k: int)
    requires
        0 <= k < cases.len(),
        cases[k].file@ == name,
        forall|j: int| 0 <= j < k ==> cases[j].file@ != name,
    ensures
        case_index_for(cases, name) == Some(k),
    decreases k,
{
    if k > 0 {
        let rest = cases.drop_first();
        assert forall|j: int| 0 <= j < k - 1 implies rest[j].file@ != name by {
            assert(rest[j] == cases[j + 1]);
        }
        lemma_case_index(rest, name, k - 1);
    }
}

proof fn lemma_case_absent(cases: Seq<GoldenCase>, name: Seq<char>)
    requires
        forall|j: int| 0 <= j < cases.len() ==> cases[j].file@ != name,
    ensures
        case_index_for(cases, name).is_none(),
    decreases cases.len(),
{
    if cases.len() > 0 {
        let rest = cases.drop_first();
        assert forall|j: int| 0 <= j < rest.len() implies rest[j].file@ != name by {
            assert(rest[j] == cases[j + 1]);
        }
        lemma_case_absent(rest, name);
    }
}

} // verus!
