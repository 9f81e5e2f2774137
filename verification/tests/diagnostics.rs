use backup_freshness::diagnostics::{
    automount, data_directory, fields, os_name, strip_escapes, usb_device, usb_devices,
};
use regex::Regex;

#[test]
fn usb_devices_of_a_table() {
    let table = "NAME TRAN\nsda  sata\nsdb  usb\nsr0  sata\nsdc  usb\n";
    assert_eq!(usb_devices(table), Some(vec!["sdb".to_string(), "sdc".to_string()]));
}

#[test]
fn table_without_usb_devices() {
    assert_eq!(usb_devices("NAME TRAN\nsda  sata\n"), None);
    assert_eq!(usb_devices(""), None);
    assert_eq!(usb_devices("\n\n"), None);
    assert_eq!(usb_devices("usbdisk sata\nsdb usb3\n"), None);
}

#[test]
fn usb_device_lines() {
    assert_eq!(usb_device("sdb  usb"), Some("sdb".to_string()));
    assert_eq!(usb_device("  sdb   1:0:0:0  usb  "), Some("sdb".to_string()));
    assert_eq!(usb_device("usb"), Some("usb".to_string()));
    assert_eq!(usb_device("sdb usb sata"), None);
    assert_eq!(usb_device("sdb\tusb"), None);
    assert_eq!(usb_device(""), None);
    assert_eq!(usb_device("   "), None);
}

#[test]
fn last_line_without_a_line_end_counts() {
    assert_eq!(usb_devices("sda sata\nsdb usb"), Some(vec!["sdb".to_string()]));
}

#[test]
fn fields_are_runs_between_spaces() {
    assert_eq!(fields("a bb  ccc"), vec!["a", "bb", "ccc"]);
    assert_eq!(fields("  a  "), vec!["a"]);
    assert_eq!(fields(""), Vec::<String>::new());
    assert_eq!(fields("    "), Vec::<String>::new());
    assert_eq!(fields("a\tb c"), vec!["a\tb", "c"]);
}

#[test]
fn usb_devices_agree_with_split_and_filter() {
    for table in ["NAME TRAN\nsda  sata\nsdb  usb\n", "usb\n usb \nx usb y\n\nz  usb", "a usb\n"] {
        let expected: Vec<String> = table
            .split("\n")
            .filter_map(|line| {
                let cols: Vec<&str> = line.split(" ").filter(|c| !c.is_empty()).collect();
                if cols.last().copied() == Some("usb") {
                    Some(cols[0].to_string())
                } else {
                    None
                }
            })
            .collect();
        assert_eq!(usb_devices(table).unwrap_or_default(), expected);
    }
}

#[test]
fn issue_text_loses_escapes_and_line_ends() {
    assert_eq!(strip_escapes("Debian GNU/Linux 11 \\n \\l\n\n"), "Debian GNU/Linux 11  ");
    assert_eq!(strip_escapes("Ubuntu 22.04 LTS \\n \\l\n"), "Ubuntu 22.04 LTS  ");
    assert_eq!(strip_escapes(""), "");
    assert_eq!(strip_escapes("plain"), "plain");
    assert_eq!(strip_escapes("\\"), "\\");
    assert_eq!(strip_escapes("a\\\nb"), "a\\b");
    assert_eq!(strip_escapes("\\\\x"), "x");
    assert_eq!(strip_escapes("a\\\\\\b"), "a");
}

#[test]
fn issue_text_agrees_with_the_pattern() {
    let pattern = Regex::new("\\\\.|\n").unwrap();
    for text in ["Debian GNU/Linux 11 \\n \\l\n\n", "\\", "a\\\nb", "\\\\\\", "\n\\\n\\x\\", "x\\\u{e9}y"] {
        assert_eq!(strip_escapes(text), pattern.replace_all(text, "").to_string());
    }
}

#[test]
fn os_name_prefers_the_issue_file() {
    assert_eq!(os_name(Some("Raspbian GNU/Linux 10 \\n \\l\n"), "Linux"), "Raspbian GNU/Linux 10  ");
    assert_eq!(os_name(None, "Linux"), "Linux");
    assert_eq!(os_name(Some(""), "Linux"), "");
}

#[test]
fn data_directory_of_a_configuration() {
    let config = "<?php\n$CONFIG = array (\n  'datadirectory' => '/media/USBdrive/ncdata',\n  \"dbtype\" => 'mysql',\n);\n";
    assert_eq!(data_directory(config), Some("/media/USBdrive/ncdata".to_string()));
    assert_eq!(data_directory("  \"datadirectory\"=>\"/data\""), Some("/data".to_string()));
    assert_eq!(data_directory("'dbtype' => 'mysql'"), None);
    assert_eq!(data_directory(""), None);
}

#[test]
fn automount_of_a_configuration() {
    let on = r#"{"id": "nc-automount", "params": [{"id": "ACTIVE", "value": "true"}]}"#;
    let off = r#"{"id": "nc-automount", "params": [{"id": "ACTIVE", "value": "false"}]}"#;
    assert_eq!(automount(on), Some(true));
    assert_eq!(automount(off), Some(false));
}

#[test]
fn automount_looks_at_the_first_parameter_only() {
    let config = r#"{"params": [{"value": "no"}, {"value": "true"}]}"#;
    assert_eq!(automount(config), Some(false));
    let config = r#"{"params": [{"value": "true"}, {"value": "no"}]}"#;
    assert_eq!(automount(config), Some(true));
}

#[test]
fn automount_value_that_is_not_the_text_true() {
    assert_eq!(automount(r#"{"params": [{"value": true}]}"#), Some(false));
    assert_eq!(automount(r#"{"params": [{"value": "True"}]}"#), Some(false));
    assert_eq!(automount(r#"{"params": [{"value": " true"}]}"#), Some(false));
    assert_eq!(automount(r#"{"params": [{"id": "ACTIVE"}]}"#), Some(false));
    assert_eq!(automount(r#"{"params": ["true"]}"#), Some(false));
    assert_eq!(automount(r#"{"params": [null]}"#), Some(false));
}

#[test]
fn automount_without_a_first_parameter() {
    assert_eq!(automount(r#"{"params": []}"#), None);
    assert_eq!(automount(r#"{"params": {"value": "true"}}"#), None);
    assert_eq!(automount(r#"{"id": "nc-automount"}"#), None);
    assert_eq!(automount(r#"["params"]"#), None);
    assert_eq!(automount("not json"), None);
    assert_eq!(automount(""), None);
}
