use gated_proxy::clock::elapsed_secs;
use gated_proxy::config::{idle_limits, Config};
use gated_proxy::monitor::{
    unload_answered, Action, Event, GpuReading, Model, ModelStatus, ModelStatusValue, ModelsResponse,
    Phase, ResourceMonitor, Slot,
};

const SEC: u64 = 1_000_000_000;

fn settings(limits: &[(&str, u64)], default: Option<u64>) -> Config {
    Config {
        host: "0.0.0.0".to_string(),
        port: 80,
        target_host: "server".to_string(),
        target_port: 8080,
        gpu: "card".to_string(),
        load_average_window: 3,
        model_loaded_grace: 60,
        haywire_detection_enabled: false,
        haywire_char_repeats: 40,
        idle_unload_timeouts: idle_limits(
            limits.iter().map(|(model, limit)| (model.to_string(), *limit)).collect(),
        ),
        default_unload_timeout: default,
    }
}

fn monitor(limits: &[(&str, u64)], default: Option<u64>) -> ResourceMonitor<f64> {
    ResourceMonitor::new(settings(limits, default), 0.0, 0)
}

fn model(id: &str, value: ModelStatusValue) -> Model {
    Model { id: id.to_string(), status: ModelStatus { value } }
}

fn listing(models: Vec<Model>) -> Event {
    Event::Models(ModelsResponse { data: models })
}

fn slots(processing: &[bool]) -> Event {
    Event::Slots(processing.iter().map(|is_processing| Slot { is_processing: *is_processing }).collect())
}

fn slots_url(action: &Action) -> String {
    match action {
        Action::ListSlots(call) => {
            assert_eq!(call.timeout_secs, 3600);
            call.url.clone()
        }
        _ => panic!("no call for slots"),
    }
}

#[test]
fn windows_start_full_of_the_idle_sample() {
    let monitor = monitor(&[], None);
    assert_eq!(monitor.cpu_load_samples.samples, vec![(0, 0.0), (0, 0.0), (0, 0.0)]);
    assert_eq!(monitor.gpu_load_samples.samples, vec![(0, 0.0), (0, 0.0), (0, 0.0)]);
    assert_eq!(monitor.cpu_load_samples.size, 3);
    assert_eq!(monitor.gpu_load_samples.size, 3);
    assert_eq!(monitor.last_model_loaded, None);
    assert!(monitor.models_last_active.is_empty());
}

#[test]
fn refresh_takes_the_named_gpu_and_the_last_cpu() {
    let mut monitor = monitor(&[], None);
    let gpus = vec![
        GpuReading { name: "other".to_string(), utilization: 9.0 },
        GpuReading { name: "card".to_string(), utilization: 1.0 },
        GpuReading { name: "card".to_string(), utilization: 2.0 },
    ];
    let (found, phase, action) = monitor.refresh(&gpus, &vec![5.0, 6.0], 2 * SEC);
    assert!(found);
    assert!(matches!(phase, Phase::Listing));
    match action {
        Action::ListModels(call) => {
            assert_eq!(call.url, "http://server:8080/v1/models");
            assert_eq!(call.timeout_secs, 3600);
        }
        _ => panic!("no call for models"),
    }
    assert_eq!(
        monitor.gpu_load_samples.samples,
        vec![(0, 0.0), (0, 0.0), (0, 0.0), (2 * SEC, 1.0)]
    );
    assert_eq!(
        monitor.cpu_load_samples.samples,
        vec![(0, 0.0), (0, 0.0), (0, 0.0), (2 * SEC, 6.0)]
    );
}

#[test]
fn missing_gpu_leaves_its_window_alone() {
    let mut monitor = monitor(&[], None);
    let (found, _, _) = monitor.refresh(&vec![], &vec![5.0], 100 * SEC);
    assert!(!found);
    assert_eq!(monitor.gpu_load_samples.samples, vec![(0, 0.0), (0, 0.0), (0, 0.0)]);
    assert_eq!(monitor.cpu_load_samples.samples, vec![(100 * SEC, 5.0)]);
}

#[test]
fn windows_hold_the_readings_of_the_last_seconds() {
    let config = Config { load_average_window: 60, ..settings(&[], None) };
    let mut monitor = ResourceMonitor::new(config, 0, 0);
    for reading in 1..=70 {
        let gpus = vec![GpuReading { name: "card".to_string(), utilization: 1000 + reading }];
        let (found, _, _) = monitor.refresh(&gpus, &vec![reading], 5 * reading * SEC);
        assert!(found);
    }
    let cpu: Vec<(u64, u64)> = (59..=70).map(|reading| (5 * reading * SEC, reading)).collect();
    let gpu: Vec<(u64, u64)> =
        (59..=70).map(|reading| (5 * reading * SEC, 1000 + reading)).collect();
    assert_eq!(monitor.cpu_load_samples.samples, cpu);
    assert_eq!(monitor.gpu_load_samples.samples, gpu);
}

#[test]
fn only_loaded_models_with_a_limit_are_asked_for_slots() {
    let mut monitor = monitor(&[("c", 10), ("d", 10), ("e", 10), ("f", 10)], None);
    let (phase, action) = monitor.refresh_step(
        Phase::Listing,
        listing(vec![
            model("a", ModelStatusValue::Loaded),
            model("c", ModelStatusValue::Sleeping),
            model("d", ModelStatusValue::Unloaded),
            model("e", ModelStatusValue::Loading),
            model("f", ModelStatusValue::Loaded),
        ]),
        7,
    );
    assert_eq!(slots_url(&action), "http://server:8080/slots?model=f");
    assert_eq!(monitor.last_model_loaded, Some(7));
    let (phase, action) = monitor.refresh_step(phase, slots(&[false]), 8);
    assert!(matches!(phase, Phase::Closed));
    assert!(matches!(action, Action::Done));
    assert_eq!(monitor.models_last_active.get("f"), Some(&8));
    assert_eq!(monitor.models_last_active.len(), 1);
}

#[test]
fn each_model_is_asked_once_in_order() {
    let mut monitor = monitor(&[], Some(100));
    let (phase, action) = monitor.refresh_step(
        Phase::Listing,
        listing(vec![
            model("a", ModelStatusValue::Loaded),
            model("b", ModelStatusValue::Unloaded),
            model("c", ModelStatusValue::Loaded),
        ]),
        1,
    );
    assert_eq!(slots_url(&action), "http://server:8080/slots?model=a");
    let (phase, action) = monitor.refresh_step(phase, Event::SlotsUnreadable, 2);
    assert_eq!(slots_url(&action), "http://server:8080/slots?model=c");
    assert_eq!(monitor.last_model_loaded, Some(2));
    let (_, action) = monitor.refresh_step(phase, slots(&[true]), 3);
    assert!(matches!(action, Action::Done));
    assert_eq!(monitor.models_last_active.get("a"), None);
    assert_eq!(monitor.models_last_active.get("c"), Some(&3));
}

#[test]
fn sleeping_models_open_no_grace_period() {
    let mut monitor = monitor(&[], None);
    let (_, action) = monitor.refresh_step(
        Phase::Listing,
        listing(vec![model("a", ModelStatusValue::Sleeping), model("b", ModelStatusValue::Unloaded)]),
        5,
    );
    assert!(matches!(action, Action::Done));
    assert_eq!(monitor.last_model_loaded, None);
    let (_, _) = monitor.refresh_step(
        Phase::Listing,
        listing(vec![model("a", ModelStatusValue::Loading)]),
        6,
    );
    assert_eq!(monitor.last_model_loaded, Some(6));
}

fn probe(monitor: &mut ResourceMonitor<f64>, event: Event, now: u64) -> (Phase, Action) {
    let (phase, action) = monitor.refresh_step(
        Phase::Listing,
        listing(vec![model("m", ModelStatusValue::Loaded)]),
        now,
    );
    assert_eq!(slots_url(&action), "http://server:8080/slots?model=m");
    monitor.refresh_step(phase, event, now)
}

#[test]
fn idle_model_is_unloaded_after_its_limit() {
    let mut monitor = monitor(&[("m", 10)], Some(1));
    let (_, action) = probe(&mut monitor, slots(&[false, false]), SEC);
    assert!(matches!(action, Action::Done));
    // Ten whole seconds are not more than ten.
    let (_, action) = probe(&mut monitor, slots(&[false]), 12 * SEC - 1);
    assert!(matches!(action, Action::Done));
    let (phase, action) = probe(&mut monitor, slots(&[]), 12 * SEC);
    match action {
        Action::Unload(call) => {
            assert_eq!(call.url, "http://server:8080/models/unload");
            assert_eq!(call.model, "m");
            assert_eq!(call.timeout_secs, 30);
        }
        _ => panic!("not unloaded"),
    }
    assert!(matches!(&phase, Phase::Unloading { id, rest } if id == "m" && rest.is_empty()));
    let (_, action) = monitor.refresh_step(phase, Event::Unloaded, 13 * SEC);
    assert!(matches!(action, Action::Done));
    assert_eq!(monitor.models_last_active.get("m"), None);
}

#[test]
fn reloaded_model_is_not_unloaded_at_once() {
    let mut monitor = monitor(&[("m", 10)], None);
    probe(&mut monitor, slots(&[false]), SEC);
    let (phase, action) = probe(&mut monitor, slots(&[false]), 100 * SEC);
    assert!(matches!(action, Action::Unload(_)));
    let (_, action) = monitor.refresh_step(phase, Event::Unloaded, 101 * SEC);
    assert!(matches!(action, Action::Done));
    monitor.refresh_step(
        Phase::Listing,
        listing(vec![model("m", ModelStatusValue::Unloaded)]),
        200 * SEC,
    );
    let (_, action) = probe(&mut monitor, slots(&[false, false]), 300 * SEC);
    assert!(matches!(action, Action::Done));
    assert_eq!(monitor.models_last_active.get("m"), Some(&(300 * SEC)));
    let (_, action) = probe(&mut monitor, slots(&[false]), 311 * SEC);
    assert!(matches!(action, Action::Unload(_)));
}

#[test]
fn model_that_left_memory_by_itself_is_forgotten() {
    for status in [ModelStatusValue::Unloaded, ModelStatusValue::Loading] {
        let mut monitor = monitor(&[("m", 10)], None);
        monitor.models_last_active.insert("n".to_string(), 7);
        probe(&mut monitor, slots(&[false]), SEC);
        monitor.refresh_step(Phase::Listing, listing(vec![model("m", status)]), 50 * SEC);
        assert_eq!(monitor.models_last_active.get("m"), None);
        assert_eq!(monitor.models_last_active.get("n"), Some(&7));
        let (_, action) = probe(&mut monitor, slots(&[false]), 60 * SEC);
        assert!(matches!(action, Action::Done));
        assert_eq!(monitor.models_last_active.get("m"), Some(&(60 * SEC)));
    }
}

#[test]
fn sleeping_model_is_remembered() {
    let mut monitor = monitor(&[("m", 10)], None);
    probe(&mut monitor, slots(&[false]), SEC);
    monitor.refresh_step(
        Phase::Listing,
        listing(vec![model("m", ModelStatusValue::Sleeping)]),
        50 * SEC,
    );
    assert_eq!(monitor.models_last_active.get("m"), Some(&SEC));
}

#[test]
fn unload_that_the_server_refuses_is_repeated() {
    let mut monitor = monitor(&[("m", 10)], Some(10));
    probe(&mut monitor, slots(&[false]), SEC);
    let (phase, _) = monitor.refresh_step(
        Phase::Listing,
        listing(vec![model("m", ModelStatusValue::Loaded), model("n", ModelStatusValue::Loaded)]),
        12 * SEC,
    );
    let (phase, action) = monitor.refresh_step(phase, slots(&[false]), 12 * SEC);
    assert!(matches!(action, Action::Unload(_)));
    let (phase, action) = monitor.refresh_step(phase, unload_answered(500), 13 * SEC);
    assert_eq!(slots_url(&action), "http://server:8080/slots?model=n");
    let (_, action) = monitor.refresh_step(phase, slots(&[true]), 13 * SEC);
    assert!(matches!(action, Action::Done));
    assert_eq!(monitor.models_last_active.get("m"), Some(&SEC));
    let (phase, action) = probe(&mut monitor, slots(&[false]), 18 * SEC);
    assert!(matches!(action, Action::Unload(_)));
    let (_, action) = monitor.refresh_step(phase, unload_answered(200), 19 * SEC);
    assert!(matches!(action, Action::Done));
    assert_eq!(monitor.models_last_active.get("m"), None);
}

#[test]
fn only_success_means_unloaded() {
    for status in [200, 204, 299] {
        assert!(matches!(unload_answered(status), Event::Unloaded));
    }
    for status in [0, 100, 199, 300, 302, 400, 404, 500, 503, u16::MAX] {
        assert!(matches!(unload_answered(status), Event::NotUnloaded));
    }
}

#[test]
fn failed_unload_is_tried_again() {
    let mut monitor = monitor(&[("m", 10)], None);
    probe(&mut monitor, slots(&[false]), SEC);
    let (phase, _) = probe(&mut monitor, slots(&[false]), 12 * SEC);
    let (_, action) = monitor.refresh_step(phase, Event::Failed, 13 * SEC);
    assert!(matches!(action, Action::Fail));
    assert_eq!(monitor.models_last_active.get("m"), Some(&SEC));
    let (_, action) = probe(&mut monitor, slots(&[false]), 14 * SEC);
    assert!(matches!(action, Action::Unload(_)));
}

#[test]
fn model_listed_again_as_unloaded_is_forgotten() {
    let mut monitor = monitor(&[("m", 10)], None);
    let (phase, _) = monitor.refresh_step(
        Phase::Listing,
        listing(vec![model("m", ModelStatusValue::Loaded), model("m", ModelStatusValue::Unloaded)]),
        SEC,
    );
    let (_, action) = monitor.refresh_step(phase, slots(&[true]), 2 * SEC);
    assert!(matches!(action, Action::Done));
    assert_eq!(monitor.models_last_active.get("m"), None);
}

#[test]
fn busy_model_is_never_unloaded() {
    let mut monitor = monitor(&[("m", 0)], None);
    let (_, action) = probe(&mut monitor, slots(&[false]), 0);
    assert!(matches!(action, Action::Done));
    let (_, action) = probe(&mut monitor, slots(&[false, true]), 1000 * SEC);
    assert!(matches!(action, Action::Done));
    assert_eq!(monitor.models_last_active.get("m"), Some(&(1000 * SEC)));
    let (_, action) = probe(&mut monitor, slots(&[false]), 1001 * SEC);
    assert!(matches!(action, Action::Unload(_)));
}

#[test]
fn new_model_is_not_unloaded_at_once() {
    let mut monitor = monitor(&[], Some(0));
    let (_, action) = probe(&mut monitor, slots(&[false]), 500 * SEC);
    assert!(matches!(action, Action::Done));
    assert_eq!(monitor.models_last_active.get("m"), Some(&(500 * SEC)));
}

#[test]
fn refresh_goes_on_after_an_unload() {
    let mut monitor = monitor(&[], Some(5));
    monitor.models_last_active.insert("a".to_string(), 0);
    let (phase, _) = monitor.refresh_step(
        Phase::Listing,
        listing(vec![model("a", ModelStatusValue::Loaded), model("b", ModelStatusValue::Loaded)]),
        100 * SEC,
    );
    let (phase, action) = monitor.refresh_step(phase, slots(&[false]), 100 * SEC);
    assert!(matches!(action, Action::Unload(_)));
    let (phase, action) = monitor.refresh_step(phase, Event::Unloaded, 101 * SEC);
    assert_eq!(slots_url(&action), "http://server:8080/slots?model=b");
    let (phase, action) = monitor.refresh_step(phase, slots(&[false]), 102 * SEC);
    assert!(matches!(phase, Phase::Closed));
    assert!(matches!(action, Action::Done));
    assert_eq!(monitor.models_last_active.get("a"), None);
    assert_eq!(monitor.models_last_active.get("b"), Some(&(102 * SEC)));
}

#[test]
fn failure_ends_a_refresh() {
    let mut monitor = monitor(&[], Some(5));
    let (phase, action) = monitor.refresh_step(Phase::Listing, Event::Failed, 1);
    assert!(matches!(phase, Phase::Closed));
    assert!(matches!(action, Action::Fail));
    let (phase, action) = probe(&mut monitor, Event::Failed, 2);
    assert!(matches!(phase, Phase::Closed));
    assert!(matches!(action, Action::Fail));
    assert!(monitor.models_last_active.is_empty());
    assert_eq!(monitor.last_model_loaded, Some(2));
    let unloading = Phase::Unloading { id: "m".to_string(), rest: vec![] };
    let (_, action) = monitor.refresh_step(unloading, Event::Failed, 3);
    assert!(matches!(action, Action::Fail));
    let (_, action) = monitor.refresh_step(Phase::Closed, Event::Unloaded, 4);
    assert!(matches!(action, Action::Fail));
    let (_, action) = monitor.refresh_step(Phase::Listing, Event::NotUnloaded, 4);
    assert!(matches!(action, Action::Fail));
    let (_, action) = monitor.refresh_step(Phase::Listing, Event::Unloaded, 5);
    assert!(matches!(action, Action::Fail));
}

#[test]
fn empty_listing_is_done() {
    let mut monitor = monitor(&[], Some(5));
    let (phase, action) = monitor.refresh_step(Phase::Listing, listing(vec![]), 1);
    assert!(matches!(phase, Phase::Closed));
    assert!(matches!(action, Action::Done));
}

#[test]
fn own_limit_overrides_the_default() {
    let config = settings(&[("a", 3), ("b", 4), ("a", 5)], Some(9));
    assert_eq!(config.idle_unload_timeout("a"), Some(5));
    assert_eq!(config.idle_unload_timeout("b"), Some(4));
    assert_eq!(config.idle_unload_timeout("c"), Some(9));
    assert_eq!(settings(&[], None).idle_unload_timeout("c"), None);
}

#[test]
fn low_load_passes() {
    let monitor = monitor(&[], None);
    assert!(monitor.api_allowed(true, true, 0));
    assert!(!monitor.api_allowed(false, true, 0));
    assert!(!monitor.api_allowed(true, false, 0));
    assert!(!monitor.api_allowed(false, false, u64::MAX));
}

#[test]
fn grace_period_passes_under_load() {
    let mut monitor = monitor(&[], None);
    monitor.last_model_loaded = Some(10 * SEC);
    assert!(monitor.api_allowed(false, false, 10 * SEC));
    assert!(monitor.api_allowed(false, false, 70 * SEC - 1));
    assert!(!monitor.api_allowed(false, false, 70 * SEC));
    assert!(monitor.api_allowed(true, true, 70 * SEC));
}

#[test]
fn elapsed_time_is_in_whole_seconds() {
    assert_eq!(elapsed_secs(0, SEC - 1), 0);
    assert_eq!(elapsed_secs(5, SEC + 5), 1);
    assert_eq!(elapsed_secs(10, 3), 0);
    assert_eq!(elapsed_secs(0, u64::MAX), 18_446_744_073);
}
