use wifitify::catalog::Catalog;
use wifitify::config::{Config, verbosity, Verbosity};
use wifitify::mac::MacAddress;
use wifitify::models::Station;
use wifitify::state::AppState;

fn station(mac: u8, channel: i32) -> Station {
    Station {
        id: 0,
        mac_address: MacAddress([0xaa, 0xbb, 0xcc, 0xdd, 0xee, mac]),
        ssid: None,
        channel,
        power_level: None,
        nickname: None,
        description: None,
        watch: false,
    }
}

fn catalog_with(channels: &[(i32, bool)]) -> Catalog {
    let mut catalog = Catalog::new();
    for (i, (channel, watch)) in channels.iter().enumerate() {
        catalog.persist_station(station(i as u8, *channel)).unwrap();
        catalog.stations[i].watch = *watch;
    }
    catalog
}

fn quiet_config() -> Config {
    let mut config = Config::default_settings();
    config.collector.sweep_on_startup = false;
    config
}

#[test]
fn watched_channels_sorted_unique_supported() {
    let mut state = AppState::new(quiet_config(), 1_000_000);
    let catalog = catalog_with(&[(11, true), (1, true), (6, false), (11, true), (36, true), (1, true)]);
    state.init_state(catalog, &[1, 6, 11, 13]);
    assert_eq!(state.watched_channels, vec![1, 11]);
    assert_eq!(state.last_full_sweep, Some(1_000_000));
}

#[test]
fn empty_watch_list_schedules_sweep() {
    let mut state = AppState::new(quiet_config(), 1_000_000);
    assert!(!state.should_sweep(1_000_000));
    let catalog = catalog_with(&[(1, false), (6, false)]);
    state.init_state(catalog, &[1, 6, 11]);
    assert_eq!(state.watched_channels, Vec::<i32>::new());
    assert_eq!(state.last_full_sweep, None);
    assert!(state.should_sweep(1_000_000));
    assert_eq!(state.get_next_watched_channel(), None);
}

#[test]
fn fixed_channel_always_returned() {
    let mut config = quiet_config();
    config.collector.fixed_channel = Some(9);
    let mut state = AppState::new(config, 0);
    for _ in 0..5 {
        assert_eq!(state.get_next_watched_channel(), Some(9));
    }
    state.init_state(catalog_with(&[(1, true), (6, true)]), &[1, 6]);
    for _ in 0..5 {
        assert_eq!(state.get_next_watched_channel(), Some(9));
    }
}

#[test]
fn watched_channels_cycle() {
    let mut state = AppState::new(quiet_config(), 0);
    state.init_state(catalog_with(&[(1, true), (6, true), (11, true)]), &[1, 6, 11]);
    let got: Vec<i32> = (0..7).map(|_| state.get_next_watched_channel().unwrap()).collect();
    assert_eq!(got, vec![6, 11, 1, 6, 11, 1, 6]);
}

#[test]
fn switch_timing() {
    let mut state = AppState::new(quiet_config(), 10_000_000);
    state.last_channel_switch = 10_000_000;
    assert!(!state.should_switch_channel(10_000_000));
    assert!(!state.should_switch_channel(10_000_250));
    assert!(state.should_switch_channel(10_000_251));
    state.schedule_sweep();
    assert!(!state.should_switch_channel(10_005_000));
    assert!(state.should_switch_channel(10_005_001));
}

#[test]
fn sweep_due_after_interval() {
    let state = AppState::new(quiet_config(), 0);
    assert!(!state.should_sweep(7_200_000));
    assert!(state.should_sweep(7_200_001));
    let eager = AppState::new(Config::default_settings(), 0);
    assert!(eager.should_sweep(0));
}

#[test]
fn channel_hop_under_silence() {
    let mut config = quiet_config();
    config.collector.sweep_channel_switch_timeout = 250;
    let mut state = AppState::new(config, 0);
    state.schedule_sweep();
    state.last_channel_switch = 1_000;
    let supported = [1, 6, 11];
    assert_eq!(state.channel_step(1_100, &supported, true), None);
    assert_eq!(state.channel_step(1_260, &supported, true), Some(1));
    assert_eq!(state.last_channel_switch, 1_260);
    assert_eq!(state.channel_step(1_300, &supported, true), None);
    assert_eq!(state.channel_step(1_520, &supported, true), Some(6));
    assert_eq!(state.channel_step(1_780, &supported, true), Some(11));
    assert_eq!(state.channel_step(2_040, &supported, true), None);
    assert_eq!(state.sweep_position, 0);
    assert_eq!(state.last_channel_switch, 1_780);
    assert_eq!(state.last_full_sweep, Some(2_040));
    assert_eq!(state.watched_channels, Vec::<i32>::new());
    // Nothing is watched: the next watched step asks for a new sweep.
    assert_eq!(state.channel_step(2_300, &supported, false), None);
    assert_eq!(state.last_full_sweep, None);
}

#[test]
fn always_sweep_restarts_at_once() {
    let mut config = quiet_config();
    config.collector.always_sweep = true;
    let mut state = AppState::new(config, 0);
    state.init_state(catalog_with(&[(6, true)]), &[6]);
    state.schedule_sweep();
    assert_eq!(state.channel_step(10_000_000, &[6], true), Some(6));
    assert_eq!(state.channel_step(10_006_000, &[6], true), None);
    assert_eq!(state.last_full_sweep, None);
    assert_eq!(state.sweep_position, 0);
}

#[test]
fn sweep_end_stamps_when_something_is_watched() {
    let mut state = AppState::new(quiet_config(), 0);
    state.init_state(catalog_with(&[(6, true)]), &[1, 6]);
    state.schedule_sweep();
    state.sweep_position = 2;
    assert_eq!(state.channel_step(10_000_000, &[1, 6], true), None);
    assert_eq!(state.last_full_sweep, Some(10_000_000));
    assert_eq!(state.watched_channels, vec![6]);
    assert_eq!(state.channel_step(10_000_300, &[1, 6], false), Some(6));
}

#[test]
fn verbosity_levels() {
    assert_eq!(verbosity(0), Verbosity::Error);
    assert_eq!(verbosity(1), Verbosity::Warn);
    assert_eq!(verbosity(2), Verbosity::Info);
    assert_eq!(verbosity(7), Verbosity::Debug);
}
