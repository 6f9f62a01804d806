use detterot::command_queue::{Command, CommandQueue};
use detterot::director::config::MissionCfg;
use detterot::director::econ_intent::EconIntent;
use detterot::director::input::{apply_wheel_inputs, WheelInputAction, WheelInputQueue, WheelKeys};
use detterot::director::missions::{
    apply_mission_result, ActiveMissions, BreakTheChain, Mission, MissionResult, MissionRuntime, RainFlagUplink,
    WayleaveDefault,
};
use detterot::director::spawn::SpawnBudget;
use detterot::director::state::{missions_system, LegProgress};
use detterot::logs::m2::LogSwitch;
use detterot::director::pause_wheel::{PauseState, Stance, ToolSlot, WheelState};
use detterot::director::rng::{hash_mission_name, mission_seed};
use detterot::economy::types::RouteId;

fn cfg() -> MissionCfg {
    MissionCfg { pp_success: 3, pp_fail: -2, basis_bp_success: 10, basis_bp_fail: -5 }
}

fn meters(queue: &CommandQueue) -> Vec<(String, i32)> {
    queue
        .buf
        .iter()
        .filter_map(|c| match c {
            Command::Meter { key, value } => Some((key.clone(), *value)),
            _ => None,
        })
        .collect()
}

#[test]
fn rain_flag_resolves_once_within_window() {
    let mut mission = RainFlagUplink::default();
    mission.init(1234, &cfg());
    assert!((90..=120).contains(&mission.resolve_at));
    let mut resolved_at = None;
    let mut outcomes = 0;
    for tick in 1..=200u32 {
        if let Some(result) = mission.tick(1) {
            outcomes += 1;
            resolved_at = Some(tick);
            match result {
                MissionResult::Success { pp_delta, basis_bp_overlay } => {
                    assert_eq!((pp_delta, basis_bp_overlay), (3, 10));
                    assert!(mission.success);
                }
                MissionResult::Fail { pp_delta, basis_bp_overlay } => {
                    assert_eq!((pp_delta, basis_bp_overlay), (-2, -5));
                    assert!(!mission.success);
                }
            }
        }
    }
    assert_eq!(outcomes, 1);
    assert_eq!(resolved_at, Some(mission.resolve_at));
}

#[test]
fn break_the_chain_succeeds_after_targets() {
    let mut mission = BreakTheChain::default();
    mission.init(99, &cfg());
    assert!((3..=7).contains(&mission.targets));
    let mut ticks = 0;
    loop {
        ticks += 1;
        if let Some(result) = mission.tick(1) {
            assert_eq!(result, MissionResult::Success { pp_delta: 3, basis_bp_overlay: 10 });
            break;
        }
    }
    assert_eq!(ticks, mission.targets);
    assert_eq!(mission.tick(1), None);
}

#[test]
fn wayleave_reaches_checkpoints_on_multiples_of_forty() {
    let mut mission = WayleaveDefault::default();
    mission.init(7, &cfg());
    assert!((2..=5).contains(&mission.checkpoints));
    assert!((150..=200).contains(&mission.deadline));
    let mut result = None;
    let mut tick = 0u32;
    while result.is_none() {
        tick += 1;
        result = mission.tick(1);
    }
    if mission.checkpoints * 40 <= mission.deadline {
        assert_eq!(tick, mission.checkpoints * 40);
        assert_eq!(result, Some(MissionResult::Success { pp_delta: 3, basis_bp_overlay: 10 }));
    } else {
        assert_eq!(tick, mission.deadline);
        assert_eq!(result, Some(MissionResult::Fail { pp_delta: -2, basis_bp_overlay: -5 }));
    }
}

#[test]
fn init_all_seeds_named_missions_only() {
    let mut runtime = MissionRuntime::default();
    let cfgs = vec![("rain_flag".to_string(), cfg()), ("unknown".to_string(), cfg())];
    runtime.init_all(5, RouteId(2), 3, &cfgs);
    let mut expected = RainFlagUplink::default();
    expected.init(mission_seed(5, RouteId(2), 3, hash_mission_name("rain_flag")), &cfg());
    assert_eq!(runtime.rain_flag, expected);
    assert_eq!(runtime.sourvault.hazard_budget, 0);
    assert_eq!(runtime.break_chain.targets, 0);
}

#[test]
fn tick_all_meters_resolutions() {
    let mut runtime = MissionRuntime::default();
    let cfgs = vec![("break_chain".to_string(), cfg())];
    runtime.init_all(1, RouteId(1), 1, &cfgs);
    let mut queue = CommandQueue::new();
    let mut econ = EconIntent::default();
    // Untouched missions have a zero deadline and resolve on the first tick.
    runtime.tick_all(1, 1, &mut queue, &mut econ);
    let first = meters(&queue);
    assert_eq!(first.len(), 4 * 5);
    assert_eq!(first[0], ("pp_delta".to_string(), 0));
    assert_eq!(first[2], ("mission_result".to_string(), 0));
    assert_eq!(first[3], ("mission_id".to_string(), (hash_mission_name("rain_flag") & 0x7FFF_FFFF) as i32));
    assert_eq!(first[4], ("mission_resolve_tick".to_string(), 1));
    let mut queue = CommandQueue::new();
    let mut tick = 1;
    while !runtime.break_chain.done {
        tick += 1;
        runtime.tick_all(tick, 1, &mut queue, &mut econ);
    }
    assert_eq!(econ, EconIntent { pending_pp_delta: 3, pending_basis_overlay_bp: 10 });
    let last = meters(&queue);
    assert_eq!(last.len(), 5);
    assert_eq!(last[2], ("mission_result".to_string(), 1));
    assert_eq!(last[4], ("mission_resolve_tick".to_string(), tick as i32));
    econ.clear();
    assert_eq!(econ, EconIntent::default());
}

#[test]
fn wheel_setters_meter_only_changes() {
    let mut wheel = WheelState::default();
    let mut pause = PauseState::default();
    let mut queue = CommandQueue::new();
    wheel.set_stance(&mut queue, Stance::Brace);
    wheel.set_stance(&mut queue, Stance::Vault);
    wheel.set_tool(&mut queue, ToolSlot::B);
    wheel.set_overwatch(&mut queue, true);
    wheel.set_move_mode(&mut queue, false);
    wheel.set_slowmo(&mut queue, true);
    pause.set_hard_pause(&mut queue, true);
    assert_eq!(
        meters(&queue),
        vec![
            ("wheel_stance".to_string(), 1),
            ("wheel_tool".to_string(), 1),
            ("wheel_overwatch".to_string(), 1),
            ("wheel_hard_pause".to_string(), 1),
        ]
    );
    assert!(wheel.slowmo_enabled);
    assert!(pause.hard_paused_sp);
}

#[test]
fn wheel_inputs_respect_multiplayer() {
    let mut wheel = WheelState::default();
    let mut pause = PauseState::default();
    let mut queue = CommandQueue::new();
    let mut inputs = WheelInputQueue::new();
    inputs.push(WheelInputAction::SetHardPause(true));
    inputs.extend(vec![WheelInputAction::SetTool(ToolSlot::B), WheelInputAction::SetMoveMode(true)]);
    apply_wheel_inputs(&mut wheel, &mut pause, &mut queue, &mut inputs, Some(true), None);
    assert!(!pause.hard_paused_sp);
    assert_eq!(wheel.tool, ToolSlot::B);
    assert!(wheel.move_mode);
    assert!(inputs.take().is_empty());

    let keys = WheelKeys {
        digit1: true,
        digit2: true,
        digit3: true,
        digit4: false,
        key_o: true,
        key_m: false,
        key_l: true,
        space: true,
    };
    let mut queue = CommandQueue::new();
    apply_wheel_inputs(&mut wheel, &mut pause, &mut queue, &mut inputs, None, Some(keys));
    assert_eq!(wheel.stance, Stance::Vault);
    assert_eq!(wheel.tool, ToolSlot::A);
    assert!(wheel.overwatch && !wheel.move_mode && wheel.slowmo_enabled);
    assert!(pause.hard_paused_sp);
    assert_eq!(
        meters(&queue),
        vec![
            ("wheel_stance".to_string(), 1),
            ("wheel_tool".to_string(), 0),
            ("wheel_overwatch".to_string(), 1),
            ("wheel_move".to_string(), 0),
            ("wheel_hard_pause".to_string(), 1),
        ]
    );
}

#[test]
fn command_queue_drains_in_order() {
    let mut queue = CommandQueue::new();
    queue.spawn("bandit", 1, 2, 3);
    queue.meter("k", 4);
    let drained = queue.drain();
    assert_eq!(drained.len(), 2);
    assert!(drained[0].same_as(&Command::spawn("bandit", 1, 2, 3)));
    assert!(drained[1].same_as(&Command::meter("k", 4)));
    assert!(!drained[1].same_as(&Command::meter("k", 5)));
    assert!(queue.buf.is_empty());
}

#[test]
fn mission_results_saturate_and_meter() {
    let mut econ = EconIntent { pending_pp_delta: i16::MAX - 1, pending_basis_overlay_bp: -3 };
    let mut queue = CommandQueue::new();
    let logs = LogSwitch { enabled: true };
    let line = apply_mission_result("wayleave", MissionResult::Success { pp_delta: 5, basis_bp_overlay: 2 }, &mut econ, &mut queue, &logs)
        .expect("logged");
    assert_eq!(econ, EconIntent { pending_pp_delta: i16::MAX, pending_basis_overlay_bp: -1 });
    assert_eq!(meters(&queue), vec![("pp_delta".to_string(), 5), ("basis_bp_overlay".to_string(), 2)]);
    assert_eq!((line.name.as_str(), line.outcome.as_str()), ("wayleave", "success"));
    let quiet = LogSwitch { enabled: false };
    assert!(apply_mission_result("x", MissionResult::Fail { pp_delta: 0, basis_bp_overlay: 0 }, &mut econ, &mut queue, &quiet).is_none());
}

#[test]
fn missions_system_counts_resolutions() {
    let mut runtime = MissionRuntime::default();
    runtime.init_all(3, RouteId(1), 2, &vec![("break_chain".to_string(), cfg()), ("rain_flag".to_string(), cfg())]);
    let mut active = ActiveMissions { rain_flag: true, sourvault: false, break_chain: true, wayleave: false, anchor_audit: false };
    let mut progress = LegProgress {
        missions_ready: true,
        missions_total: 2,
        missions_resolved: 0,
        any_failure: false,
        current_danger_score: 0,
        has_prior_danger: false,
        spawns_emitted: false,
        needs_budget_refresh: false,
        spawn_budget: Some(SpawnBudget::new(1, 0)),
        prior_enemies: None,
        last_link_id: None,
        spawn_seed: 0,
    };
    let mut econ = EconIntent::default();
    let mut queue = CommandQueue::new();
    let logs = LogSwitch { enabled: false };
    assert!(missions_system(&mut runtime, &mut active, &mut progress, &mut econ, &mut queue, &logs, true, true).is_empty());
    assert_eq!(progress.missions_resolved, 0);
    let mut ticks = 0;
    while progress.missions_resolved < 2 {
        missions_system(&mut runtime, &mut active, &mut progress, &mut econ, &mut queue, &logs, false, true);
        ticks += 1;
        assert!(ticks <= 200);
    }
    assert!(!active.rain_flag && !active.break_chain);
    assert_eq!(progress.any_failure, !runtime.rain_flag.success);
    let expected_pp = 3 + if runtime.rain_flag.success { 3 } else { -2 };
    assert_eq!(econ.pending_pp_delta, expected_pp);
}

#[test]
fn init_all_forgets_earlier_mission_state() {
    let cfgs = vec![("rain_flag".to_string(), cfg()), ("break_chain".to_string(), cfg())];
    let mut fresh = MissionRuntime::default();
    fresh.init_all(8, RouteId(4), 2, &cfgs);
    let mut used = MissionRuntime::default();
    used.init_all(1, RouteId(9), 7, &vec![("rain_flag".to_string(), cfg()), ("wayleave".to_string(), cfg())]);
    for _ in 0..50 {
        used.rain_flag.tick(3);
        used.wayleave.tick(3);
    }
    let wayleave_before = used.wayleave;
    used.init_all(8, RouteId(4), 2, &cfgs);
    assert_eq!(used.rain_flag, fresh.rain_flag);
    assert_eq!(used.break_chain, fresh.break_chain);
    assert_eq!(used.wayleave, wayleave_before);
}
