use pstate_monitor::config::{
    is_allowed, ConfigError, Configuration, EnergyPerformancePreference, ScalingGovernor,
};
use pstate_monitor::model::CpuId;
use pstate_monitor::sysfs::{
    cpu_range, first_cpu, get_cpus, is_amd_pstate_enabled, read_int_range_value, read_int_value,
    read_string_list_value, read_string_value, EPP_GETSET, SCALING_GETSET,
};

/// What the kernel's `present` attribute holds on a machine with four cores.
const CPU_PRESENT: &[u8] = b"0-3\n";

#[test]
fn read_int_range() {
    let cpus = read_int_range_value(CPU_PRESENT).unwrap();
    assert_eq!(cpus.0, 0);
    assert!(cpus.1 >= 1);
}

#[test]
fn int_range_values() {
    assert_eq!(read_int_range_value(b"0-7\n"), Some((0, 7)));
    assert_eq!(read_int_range_value(b"  3-12 "), Some((3, 12)));
    assert_eq!(read_int_range_value(b"+0-+255"), Some((0, 255)));
    assert_eq!(read_int_range_value(b"0"), None);
    assert_eq!(read_int_range_value(b"0-256"), None);
    assert_eq!(read_int_range_value(b"0--3"), None);
    assert_eq!(read_int_range_value(b"a-3"), None);
    assert_eq!(read_int_range_value(b"-3"), None);
    assert_eq!(read_int_range_value(b""), None);
}

#[test]
fn int_values() {
    assert_eq!(read_int_value(b"2500000\n"), Some(2500000));
    assert_eq!(read_int_value(b" 42 "), Some(42));
    assert_eq!(read_int_value(b"+7"), Some(7));
    assert_eq!(read_int_value(b"4294967295"), Some(u32::MAX));
    assert_eq!(read_int_value(b"4294967296"), None);
    assert_eq!(read_int_value(b"99999999999999999999"), None);
    assert_eq!(read_int_value(b"-1"), None);
    assert_eq!(read_int_value(b"12a"), None);
    assert_eq!(read_int_value(b"+"), None);
    assert_eq!(read_int_value(b"\n"), None);
}

#[test]
fn string_lists() {
    let words = read_string_list_value(b"performance powersave\n");
    assert_eq!(words, vec![b"performance".to_vec(), b"powersave".to_vec()]);
    assert_eq!(read_string_list_value(b"a  b"), vec![b"a".to_vec(), Vec::new(), b"b".to_vec()]);
    assert_eq!(read_string_list_value(b"  \n"), vec![Vec::<u8>::new()]);
}

#[test]
fn cores_of_a_range() {
    assert_eq!(cpu_range(0, 3), vec![CpuId(0), CpuId(1), CpuId(2), CpuId(3)]);
    assert_eq!(cpu_range(5, 5), vec![CpuId(5)]);
    assert_eq!(cpu_range(4, 2), Vec::<CpuId>::new());
    assert_eq!(cpu_range(254, 255), vec![CpuId(254), CpuId(255)]);
}

#[test]
fn paths_name_the_core() {
    let path = "/sys/devices/system/cpu/cpu{}/cpufreq/scaling_cur_freq";
    assert_eq!(
        CpuId(12).path_for(path),
        "/sys/devices/system/cpu/cpu12/cpufreq/scaling_cur_freq"
    );
    assert_eq!(CpuId(0).path_for("{}-{}"), "0-0");
    assert_eq!(CpuId(3).path_for("none"), "none");
    assert_eq!(CpuId(255).path_for("cpu{}"), "cpu255");
    assert_eq!(CpuId(100).path_for("cpu{}"), "cpu100");
    assert_eq!(CpuId(9).path_for("cpu{}"), "cpu9");
}

#[test]
fn allowed_values() {
    let allowed = vec!["performance".to_string(), "powersave".to_string()];
    assert!(is_allowed(&"powersave".to_string(), &allowed));
    assert!(!is_allowed(&"ondemand".to_string(), &allowed));
    let g = ScalingGovernor::new("performance".to_string(), &allowed).unwrap();
    assert_eq!(g.0, "performance");
    assert_eq!(
        ScalingGovernor::new("turbo".to_string(), &allowed).err(),
        Some(ConfigError::Unsupported)
    );
    let prefs = vec!["balance_power".to_string()];
    assert!(EnergyPerformancePreference::new("balance_power".to_string(), &prefs).is_ok());
    assert_eq!(
        EnergyPerformancePreference::new("power".to_string(), &prefs).err(),
        Some(ConfigError::Unsupported)
    );
}

#[test]
fn configuration_changes() {
    let allowed = vec!["a".to_string(), "b".to_string()];
    let make = |g: &str, p: &str| Configuration {
        scaling_governor: ScalingGovernor::new(g.to_string(), &allowed).unwrap(),
        epp_preference: EnergyPerformancePreference::new(p.to_string(), &allowed).unwrap(),
    };
    assert!(!make("a", "b").differs_from(&make("a", "b")));
    assert!(make("a", "b").differs_from(&make("b", "b")));
    assert!(make("a", "b").differs_from(&make("a", "a")));
}

#[test]
fn string_values_are_trimmed() {
    assert_eq!(read_string_value(b"  powersave\n"), b"powersave".to_vec());
    assert_eq!(read_string_value(b"\t\r\n "), Vec::<u8>::new());
    assert_eq!(read_string_value(b"a b"), b"a b".to_vec());
}

#[test]
fn driver_status() {
    assert!(is_amd_pstate_enabled(b"active\n"));
    assert!(!is_amd_pstate_enabled(b"passive\n"));
    assert!(!is_amd_pstate_enabled(b"activex"));
    assert!(!is_amd_pstate_enabled(b""));
}

#[test]
fn present_cores() {
    assert_eq!(get_cpus(b"0-2\n"), Some(vec![CpuId(0), CpuId(1), CpuId(2)]));
    assert_eq!(get_cpus(b"0"), None);
    assert_eq!(first_cpu(&vec![CpuId(4), CpuId(5)]), Some(CpuId(4)));
    assert_eq!(first_cpu(&vec![]), None);
}

#[test]
fn configuration_read_and_save() {
    let govs = vec!["performance".to_string(), "powersave".to_string()];
    let epps = vec!["balance_power".to_string(), "power".to_string()];
    let cfg = Configuration::read("powersave".to_string(), &govs, "power".to_string(), &epps)
        .unwrap();
    assert_eq!(cfg.scaling_governor.0, "powersave");
    assert_eq!(cfg.epp_preference.0, "power");
    assert_eq!(
        Configuration::read("ondemand".to_string(), &govs, "power".to_string(), &epps).err(),
        Some(ConfigError::Unsupported)
    );
    assert_eq!(
        Configuration::read("powersave".to_string(), &govs, "x".to_string(), &epps).err(),
        Some(ConfigError::Unsupported)
    );
    assert_eq!(cfg.save(false, &vec![CpuId(0)]).err(), Some(ConfigError::PermissionDenied));
    let writes = cfg.save(true, &vec![CpuId(0), CpuId(1)]).unwrap();
    assert_eq!(writes.len(), 4);
    assert_eq!(writes[0], (SCALING_GETSET.replace("{}", "0"), "powersave".to_string()));
    assert_eq!(writes[1], (EPP_GETSET.replace("{}", "0"), "power".to_string()));
    assert_eq!(
        writes[2].0,
        "/sys/devices/system/cpu/cpu1/cpufreq/scaling_governor"
    );
    assert_eq!(writes[3].1, "power");
    assert_eq!(cfg.save(true, &vec![]).unwrap(), Vec::<(String, String)>::new());
}

#[test]
fn unicode_whitespace_is_trimmed() {
    let nbsp = "\u{a0}";
    assert_eq!(read_int_range_value(format!("0-7{nbsp}").as_bytes()), Some((0, 7)));
    assert_eq!(read_int_value(format!("{nbsp}5").as_bytes()), Some(5));
    assert_eq!(read_string_value(format!("x{nbsp}").as_bytes()), b"x".to_vec());
    assert_eq!(read_string_list_value(format!("a{nbsp}").as_bytes()), vec![b"a".to_vec()]);
    assert!(is_amd_pstate_enabled(format!("active{nbsp}").as_bytes()));
    for ws in [
        "\u{85}", "\u{1680}", "\u{2000}", "\u{200a}", "\u{2028}", "\u{2029}", "\u{202f}",
        "\u{205f}", "\u{3000}", "\u{b}", "\u{c}",
    ] {
        let text = format!("{ws} performance{ws}\n{ws}");
        assert_eq!(read_string_value(text.as_bytes()), text.trim().as_bytes().to_vec());
    }
    let kept = "\u{200b}x\u{feff}";
    assert_eq!(read_string_value(kept.as_bytes()), kept.trim().as_bytes().to_vec());
    assert_eq!(read_string_value(kept.as_bytes()), kept.as_bytes().to_vec());
}
