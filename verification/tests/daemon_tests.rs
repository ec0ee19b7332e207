use std::collections::HashMap;

use osc::daemon::{
    build_daemon, keep_daemon, parse_desired_daemons, parse_substate, plan_action, render_daemons,
    scan_unit_files, trim, wants_unit, AutoStartStatus, Daemon, DaemonAction, DaemonConfiguration,
    State, SystemctlInfo, DAEMON_INFO,
};
use osc::error::MmiError;

const COMPONENT_NAME: &str = "SystemdDaemonConfiguration";
const REPORTED_OBJECT_NAME: &str = "daemonConfiguration";
const DESIRED_OBJECT_NAME: &str = "desiredDaemonConfiguration";

const MAX_PAYLOAD_BYTES: u32 = 0;

type Result<T> = std::result::Result<T, MmiError>;

fn json_strings_eq(json_str_one: &str, json_str_two: &str) -> bool {
    let json_one: serde_json::Value = serde_json::from_str(json_str_one).unwrap();
    let json_two: serde_json::Value = serde_json::from_str(json_str_two).unwrap();
    json_one == json_two
}

struct SystemctlTest {
    auto_start_statuses: HashMap<String, String>,
    states: HashMap<String, String>,
}

impl SystemctlInfo for SystemctlTest {
    fn new() -> Self {
        let auto_start_statuses = HashMap::from([
            (String::from("alsa-restore"), String::from("static")),
            (String::from("alsa-utils"), String::from("masked")),
            (String::from("apport-forward@"), String::from("static")),
            (String::from("apport"), String::from("enabled")),
            (String::from("netplan-ovs-cleanup"), String::from("enabled-runtime")),
            (String::from("osconfig"), String::from("disabled")),
            (String::from("rtkit-daemon"), String::from("enabled")),
            (String::from("saned"), String::from("enabled")),
            (String::from("spice-vdagent"), String::from("indirect")),
        ]);
        let states = HashMap::from([
            (String::from("alsa-restore"), String::from("dead")),
            (String::from("alsa-utils"), String::from("running")),
            (String::from("apport-forward@"), String::from("")),
            (String::from("apport"), String::from("failed")),
            (String::from("netplan-ovs-cleanup"), String::from("exited")),
            (String::from("osconfig"), String::from("dead")),
            (String::from("rtkit-daemon"), String::from("exited")),
            (String::from("saned"), String::from("running")),
            (String::from("spice-vdagent"), String::from("dead")),
        ]);
        SystemctlTest {
            auto_start_statuses,
            states,
        }
    }

    fn booted(&self) -> bool {
        libsystemd::daemon::booted()
    }

    fn list_unit_files(&self) -> Result<String> {
        let list_unit_output = format!(
            "UNIT FILE                                  STATE           VENDOR PRESET
            alsa-restore.service                       {}          enabled
            alsa-utils.service                         {}          enabled
            apport-forward@.service                    {}          enabled
            apport.service                             {}         enabled
            netplan-ovs-cleanup.service                {} enabled
            osconfig.service                           {}        enabled
            rtkit-daemon.service                       {}         enabled
            saned.service                              {}         enabled
            spice-vdagent.service                      {}        enabled

            9 unit files listed.",
            self.auto_start_statuses["alsa-restore"],
            self.auto_start_statuses["alsa-utils"],
            self.auto_start_statuses["apport-forward@"],
            self.auto_start_statuses["apport"],
            self.auto_start_statuses["netplan-ovs-cleanup"],
            self.auto_start_statuses["osconfig"],
            self.auto_start_statuses["rtkit-daemon"],
            self.auto_start_statuses["saned"],
            self.auto_start_statuses["spice-vdagent"]
        );
        Ok(list_unit_output)
    }

    fn get_daemons(&self) -> Result<Vec<Daemon>> {
        let systemctl_output = self.list_unit_files()?;
        let mut services = Vec::new();
        for (name, status) in scan_unit_files(&systemctl_output) {
            if !wants_unit(&name) {
                continue;
            }
            let daemon = self.create_daemon(&name, &status)?;
            // Only report enabled daemons whose state is recognized and live
            if keep_daemon(&daemon) {
                services.push(daemon);
            }
        }
        Ok(services)
    }

    fn create_daemon(&self, name: &str, auto_start_status: &str) -> Result<Daemon> {
        let substate = self.show_substate_property(name)?;
        build_daemon(name, &substate, auto_start_status)
    }

    fn show_substate_property(&self, name: &str) -> Result<String> {
        let substate_output = format!("SubState={}", self.states[name]);
        Ok(substate_output)
    }

    fn unit_exists(&self, name: &str) -> Result<bool> {
        systemctl::SystemCtl::default()
            .exists(name)
            .map_err(|_| MmiError::SystemctlError)
    }

    fn start(&mut self, name: &str) -> Result<bool> {
        self.states
            .insert(String::from(name), String::from("running"));
        Ok(true)
    }

    fn stop(&mut self, name: &str) -> Result<bool> {
        self.states.insert(String::from(name), String::from("dead"));
        Ok(true)
    }

    fn enable(&mut self, name: &str) -> Result<bool> {
        self.auto_start_statuses
            .insert(String::from(name), String::from("enabled"));
        Ok(true)
    }

    fn disable(&mut self, name: &str) -> Result<bool> {
        self.auto_start_statuses
            .insert(String::from(name), String::from("disabled"));
        Ok(true)
    }
}

#[test]
fn build_daemon_config() {
    let daemon_config =
        DaemonConfiguration::<SystemctlTest>::new(MAX_PAYLOAD_BYTES, SystemctlTest::new());
    assert_eq!(
        daemon_config.get_max_payload_size_bytes(),
        MAX_PAYLOAD_BYTES
    );
}

#[test]
fn daemonconfiguration_info_size() {
    let daemon_config_info: Result<&str> =
        DaemonConfiguration::<SystemctlTest>::get_info("Test_client_name");
    assert!(daemon_config_info.is_ok());
    let daemon_config_info: &str = daemon_config_info.unwrap();
    assert_eq!(DAEMON_INFO, daemon_config_info);
    assert_eq!(DAEMON_INFO.len() as i32, daemon_config_info.len() as i32);
}

#[test]
fn daemonconfiguration_invalid_get() {
    let daemon_config =
        DaemonConfiguration::<SystemctlTest>::new(MAX_PAYLOAD_BYTES, SystemctlTest::new());
    if libsystemd::daemon::booted() {
        let invalid_component_result: Result<String> =
            daemon_config.get("Invalid component", REPORTED_OBJECT_NAME);
        assert!(invalid_component_result.is_err());
        if let Err(e) = invalid_component_result {
            assert_eq!(e, MmiError::InvalidArgument);
        }
        let invalid_object_result: Result<String> =
            daemon_config.get(COMPONENT_NAME, "Invalid object");
        assert!(invalid_object_result.is_err());
        if let Err(e) = invalid_object_result {
            assert_eq!(e, MmiError::InvalidArgument);
        }
    } else {
        let systemd_result: Result<String> =
            daemon_config.get(COMPONENT_NAME, REPORTED_OBJECT_NAME);
        assert!(systemd_result.is_err());
        if let Err(e) = systemd_result {
            assert_eq!(e, MmiError::SystemdError);
        }
    }
}

#[test]
fn daemonconfiguration_invalid_set() {
    let mut daemon_config =
        DaemonConfiguration::<SystemctlTest>::new(MAX_PAYLOAD_BYTES, SystemctlTest::new());
    let valid_json_payload = r#"[{name: "osconfig", started:true, enabled:true}]"#;
    let invalid_json_payload = r#"Invalid payload"#;
    if libsystemd::daemon::booted() {
        let invalid_component_result: Result<i32> =
            daemon_config.set("Invalid component", DESIRED_OBJECT_NAME, valid_json_payload);
        assert!(invalid_component_result.is_err());
        if let Err(e) = invalid_component_result {
            assert_eq!(e, MmiError::InvalidArgument);
        }
        let invalid_object_result: Result<i32> =
            daemon_config.set(COMPONENT_NAME, "Invalid object", valid_json_payload);
        assert!(invalid_object_result.is_err());
        if let Err(e) = invalid_object_result {
            assert_eq!(e, MmiError::InvalidArgument);
        }
        let invalid_payload_result: Result<i32> =
            daemon_config.set(COMPONENT_NAME, DESIRED_OBJECT_NAME, invalid_json_payload);
        assert!(invalid_payload_result.is_err());
        if let Err(e) = invalid_payload_result {
            assert_eq!(e, MmiError::SerdeError);
        }
    } else {
        let systemd_result: Result<i32> =
            daemon_config.set(COMPONENT_NAME, REPORTED_OBJECT_NAME, valid_json_payload);
        assert!(systemd_result.is_err());
        if let Err(e) = systemd_result {
            assert_eq!(e, MmiError::SystemdError);
        }
    }
}

#[test]
fn get_set() {
    let mut daemon_config =
        DaemonConfiguration::<SystemctlTest>::new(MAX_PAYLOAD_BYTES, SystemctlTest::new());
    if libsystemd::daemon::booted() {
        let payload = daemon_config.get(COMPONENT_NAME, REPORTED_OBJECT_NAME);
        assert!(payload.is_ok());
        let payload = payload.unwrap();
        let expected = "[\
            {\
                \"name\":\"apport\",\
                \"state\":\"failed\",\
                \"autoStartStatus\":\"enabled\"\
            },\
            {\
                \"name\":\"rtkit-daemon\",\
                \"state\":\"exited\",\
                \"autoStartStatus\":\"enabled\"\
            },\
            {\
                \"name\":\"saned\",\
                \"state\":\"running\",\
                \"autoStartStatus\":\"enabled\"\
            }\
        ]";
        assert!(json_strings_eq(payload.as_str(), expected));
        let set_payload = r#"[{"name": "osconfig", "started": true, "enabled": true}, {"name": "saned", "started": false, "enabled": false}]"#;
        let set_result = daemon_config.set(COMPONENT_NAME, DESIRED_OBJECT_NAME, set_payload);
        assert!(set_result.is_ok());
        assert_eq!(0, set_result.unwrap());
        let expected = "[\
            {\
                \"name\":\"apport\",\
                \"state\":\"failed\",\
                \"autoStartStatus\":\"enabled\"\
            },\
            {\
                \"name\":\"osconfig\",\
                \"state\":\"running\",\
                \"autoStartStatus\":\"enabled\"\
            },\
            {\
                \"name\":\"rtkit-daemon\",\
                \"state\":\"exited\",\
                \"autoStartStatus\":\"enabled\"\
            }\
        ]";
        let payload: String = daemon_config
            .get(COMPONENT_NAME, REPORTED_OBJECT_NAME)
            .unwrap();
        assert!(json_strings_eq(payload.as_str(), expected));
    }
}

#[test]
fn get_truncated_payload() {
    let daemon_config = DaemonConfiguration::new(16, SystemctlTest::new());
    if libsystemd::daemon::booted() {
        let payload = daemon_config.get(COMPONENT_NAME, REPORTED_OBJECT_NAME);
        assert!(payload.is_ok());
        let payload = payload.unwrap();
        println!("{}", payload);
        let expected = "[\
            {\
                \"name\":\"appor";
        assert!(json_strings_eq(payload.as_str(), expected));
    }
}

#[test]
fn scanner_reads_the_unit_table() {
    let caller = SystemctlTest::new();
    let listing = caller.list_unit_files().unwrap();
    let entries = scan_unit_files(&listing);
    assert_eq!(entries.len(), 9);
    assert_eq!(entries[0], ("alsa-restore".to_string(), "static".to_string()));
    assert_eq!(entries[2], ("apport-forward@".to_string(), "static".to_string()));
    assert_eq!(entries[3], ("apport".to_string(), "enabled".to_string()));
    assert_eq!(entries[8], ("spice-vdagent".to_string(), "indirect".to_string()));
    assert!(!wants_unit("apport-forward@"));
    assert!(wants_unit("apport"));
}

#[test]
fn mock_reports_only_live_enabled_daemons() {
    let caller = SystemctlTest::new();
    let daemons = caller.get_daemons().unwrap();
    let rendered = render_daemons(&daemons);
    assert_eq!(
        rendered,
        "[{\"name\":\"apport\",\"state\":\"failed\",\"autoStartStatus\":\"enabled\"},\
         {\"name\":\"rtkit-daemon\",\"state\":\"exited\",\"autoStartStatus\":\"enabled\"},\
         {\"name\":\"saned\",\"state\":\"running\",\"autoStartStatus\":\"enabled\"}]"
    );
}

#[test]
fn substate_parsing() {
    assert_eq!(parse_substate("SubState=running\n").unwrap(), State::Running);
    assert_eq!(parse_substate("SubState=failed").unwrap(), State::Failed);
    assert_eq!(parse_substate("SubState=exited").unwrap(), State::Exited);
    assert_eq!(parse_substate("SubState=dead").unwrap(), State::Dead);
    assert_eq!(parse_substate("SubState=plugged").unwrap(), State::Other);
    assert_eq!(parse_substate("nonsense").unwrap_err(), MmiError::SystemctlError);
}

#[test]
fn daemon_building() {
    let d = build_daemon("saned", "SubState=running\n", "enabled").unwrap();
    assert_eq!(d.name, "saned");
    assert_eq!(d.state, State::Running);
    assert_eq!(d.auto_start_status, AutoStartStatus::Enabled);
    assert!(keep_daemon(&d));
    let d = build_daemon("x", "SubState=dead", "enabled").unwrap();
    assert!(!keep_daemon(&d));
    let d = build_daemon("x", "SubState=running", "static").unwrap();
    assert_eq!(d.auto_start_status, AutoStartStatus::Other);
    assert!(!keep_daemon(&d));
}

#[test]
fn trimming() {
    assert_eq!(trim("  a b \n"), "a b");
    assert_eq!(trim("\t\n"), "");
    assert_eq!(trim("x"), "x");
}

#[test]
fn desired_payload_decoding() {
    let list = parse_desired_daemons(
        r#"[{"name": "osconfig", "started": true, "enabled": false}]"#,
    )
    .unwrap();
    assert_eq!(list.len(), 1);
    assert_eq!(list[0].name, "osconfig");
    assert!(list[0].started);
    assert!(!list[0].enabled);
    // unknown extra fields are ignored, missing or mistyped ones are not
    assert!(parse_desired_daemons(r#"[{"name": "a", "started": true, "enabled": true, "extra": 1}]"#).is_some());
    assert!(parse_desired_daemons(r#"[{"name": "a", "started": true}]"#).is_none());
    assert!(parse_desired_daemons(r#"[{"name": 3, "started": true, "enabled": true}]"#).is_none());
    assert!(parse_desired_daemons(r#"{"name": "a"}"#).is_none());
    assert!(parse_desired_daemons("not json").is_none());
}

#[test]
fn action_planning() {
    assert_eq!(plan_action(false, true, true), DaemonAction::Skip);
    assert_eq!(plan_action(true, true, false), DaemonAction::Skip);
    assert_eq!(plan_action(true, true, true), DaemonAction::EnableStart);
    assert_eq!(plan_action(true, false, true), DaemonAction::StopEnable);
    assert_eq!(plan_action(true, false, false), DaemonAction::StopDisable);
}
