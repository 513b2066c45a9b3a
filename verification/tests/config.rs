use hps_ble::config::Config;
use hps_ble::constants::MTU_OVERHEAD;
use std::time::Duration;

fn config(timeout: u64, mtu: usize) -> Config {
    Config { name: String::from("Logbot-HPS"), timeout, mtu }
}

#[test]
fn timeout_duration_is_in_seconds() {
    assert_eq!(config(60, 0).timeout_duration(), Duration::from_secs(60));
    assert_eq!(config(0, 0).timeout_duration(), Duration::from_secs(0));
    assert_eq!(config(u64::MAX, 0).timeout_duration(), Duration::from_secs(u64::MAX));
}

#[test]
fn effective_mtu_without_override_takes_the_overhead_off() {
    assert_eq!(MTU_OVERHEAD, 3);
    assert_eq!(config(60, 0).effective_mtu(23), 20);
    assert_eq!(config(60, 0).effective_mtu(3), 0);
    assert_eq!(config(60, 0).effective_mtu(517), 514);
}

#[test]
fn effective_mtu_takes_a_smaller_override() {
    assert_eq!(config(60, 10).effective_mtu(23), 10);
    assert_eq!(config(60, 22).effective_mtu(23), 22);
    assert_eq!(config(60, 1).effective_mtu(2), 1);
}

#[test]
fn effective_mtu_passes_over_an_override_that_is_not_smaller() {
    assert_eq!(config(60, 23).effective_mtu(23), 20);
    assert_eq!(config(60, 100).effective_mtu(23), 20);
}
