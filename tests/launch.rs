use cmn_topology::args::{Commands, LaunchArgs, LaunchMultiArgs, NUMAConfig};
use cmn_topology::digits::{decimal_string, hex_string};
use cmn_topology::launch::{env_pair, launch_program, perf_stat_args, taskset_args};

fn strings(v: &[&str]) -> Vec<String> {
    v.iter().map(|s| s.to_string()).collect()
}

#[test]
fn perf_stat_command() {
    let args = perf_stat_args(&strings(&["-e", "p"]), &strings(&["sleep", ".01"]));
    assert_eq!(args, strings(&["stat", "--field-separator", ";", "-e", "p", "sleep", ".01"]));
}

#[test]
fn taskset_command() {
    let prog = strings(&["app", "x"]);
    assert_eq!(
        taskset_args(&None, 80, &None, &prog),
        strings(&["--cpu-list", "0-79", "app", "x"])
    );
    assert_eq!(
        taskset_args(&Some("2-3".to_string()), 80, &Some("/bin/sh".to_string()), &prog),
        strings(&["--cpu-list", "2-3", "/bin/sh", "-c", "app", "x"])
    );
}

#[test]
fn launch_command() {
    let args = LaunchArgs {
        core_map: None,
        shell: None,
        env: None,
        pwd: None,
        binary: "app".to_string(),
        args: Some(strings(&["-n", "1"])),
    };
    assert_eq!(launch_program(&args, &Vec::new()), strings(&["app", "-n", "1"]));
    assert_eq!(
        launch_program(&args, &strings(&["-e", "p"])),
        strings(&["perf", "stat", "--field-separator", ";", "-e", "p", "app", "-n", "1"])
    );
    let prefix = Commands::Launch(args).prefix();
    assert_eq!(prefix, "launch");
    assert_eq!(Commands::LaunchMulti(LaunchMultiArgs { config: String::new() }).prefix(), "launch_multi");
}

#[test]
fn environment_entries() {
    assert_eq!(env_pair("A=b"), Some(("A".to_string(), "b".to_string())));
    assert_eq!(env_pair("A=b=c"), Some(("A".to_string(), "b".to_string())));
    assert_eq!(env_pair("A="), Some(("A".to_string(), String::new())));
    assert_eq!(env_pair("A"), None);
}

#[test]
fn numerals() {
    assert_eq!(decimal_string(0), "0");
    assert_eq!(decimal_string(1234567890), "1234567890");
    assert_eq!(decimal_string(u64::MAX), "18446744073709551615");
    assert_eq!(hex_string(0), "0x0");
    assert_eq!(hex_string(0x7fc), "0x7fc");
    assert_eq!(hex_string(u64::MAX), "0xffffffffffffffff");
    assert_eq!(NUMAConfig::default(), NUMAConfig::Monolithic);
}
