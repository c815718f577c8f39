use pradb::errors::{AdbShellError, InstallError, PackagesError, PradbErrors, PropertiesErrors, Response};
use pradb::properties::{parse_properties, properties_from_response, PropertyTable};
use pradb::replies::{
    devices_from_response, install_outcome, install_request, packages_from_response, parse_devices,
    parse_packages, shell_output,
};

#[test]
fn no_devices_sentinel_is_an_empty_list() {
    assert!(parse_devices("0000").unwrap().is_empty());
}

#[test]
fn two_devices_in_input_order() {
    let v = parse_devices("serial1\tmodel1\nserial2\tmodel2\n").unwrap();
    assert_eq!(v.len(), 2);
    assert_eq!(v[0].serial_no, "serial1");
    assert_eq!(v[0].model, "model1");
    assert_eq!(v[1].serial_no, "serial2");
    assert_eq!(v[1].model, "model2");
}

#[test]
fn device_listing_keeps_fields_after_the_second() {
    let v = parse_devices("emulator-5554\tdevice\textra\n\n").unwrap();
    assert_eq!(v.len(), 1);
    assert_eq!(v[0].serial_no, "emulator-5554");
    assert_eq!(v[0].model, "device");
}

#[test]
fn empty_device_listing_is_an_empty_list() {
    assert!(parse_devices("").unwrap().is_empty());
    assert!(parse_devices("\n\n").unwrap().is_empty());
}

#[test]
fn device_line_without_tab_is_unknown_error() {
    match parse_devices("serial1\tmodel1\nbroken\n") {
        Err(PradbErrors::Unknown(Some(t))) => assert_eq!(t, "serial1\tmodel1\nbroken\n"),
        other => panic!("unexpected {:?}", other),
    }
}

#[test]
fn device_reply_outcomes() {
    let v = devices_from_response(Response::Okay("abc\tpixel\n".to_string())).unwrap();
    assert_eq!(v[0].serial_no, "abc");
    assert!(devices_from_response(Response::Okay("0000".to_string())).unwrap().is_empty());
    match devices_from_response(Response::Fail("no".to_string())) {
        Err(PradbErrors::ResponseRelated(Response::Fail(t))) => assert_eq!(t, "no"),
        other => panic!("unexpected {:?}", other),
    }
    match devices_from_response(Response::Unknown("??".to_string())) {
        Err(PradbErrors::Unknown(Some(t))) => assert_eq!(t, "??"),
        other => panic!("unexpected {:?}", other),
    }
}

#[test]
fn property_line_gives_an_entry() {
    let t = parse_properties("[ro.build.version]: [14]");
    assert_eq!(t.get("ro.build.version"), Some("14".to_string()));
}

#[test]
fn non_matching_property_lines_are_skipped() {
    let t = parse_properties("banner text\n[a]: [1]\r\nnot [a]: [2]\n[b]: [2]x\n[c] [3]\n");
    assert_eq!(t.get("a"), Some("1".to_string()));
    assert_eq!(t.get("b"), None);
    assert_eq!(t.get("c"), None);
    assert_eq!(t.get("banner text"), None);
    assert_eq!(t.into_pairs().len(), 1);
}

#[test]
fn property_key_ends_at_first_separator() {
    let t = parse_properties("[k]: [v]: [w]\n[]: []\n");
    assert_eq!(t.get("k"), Some("v]: [w".to_string()));
    assert_eq!(t.get(""), Some("".to_string()));
}

#[test]
fn later_property_line_wins() {
    let t = parse_properties("[x]: [old]\n[y]: [é]\n[x]: [new]\n");
    assert_eq!(t.get("x"), Some("new".to_string()));
    assert_eq!(t.get("y"), Some("é".to_string()));
}

#[test]
fn property_table_insert_and_get() {
    let mut t = PropertyTable::new();
    assert_eq!(t.get("k"), None);
    t.insert("k".to_string(), "1".to_string());
    t.insert("k".to_string(), "2".to_string());
    assert_eq!(t.get("k"), Some("2".to_string()));
}

#[test]
fn property_reply_outcomes() {
    let t = properties_from_response(Response::Okay("[a]: [b]\n".to_string())).unwrap();
    assert_eq!(t.get("a"), Some("b".to_string()));
    assert!(matches!(
        properties_from_response(Response::Fail("f".to_string())),
        Err(PropertiesErrors::ResponseError(s)) if s == "f"
    ));
    assert!(matches!(
        properties_from_response(Response::Unknown("u".to_string())),
        Err(PropertiesErrors::ResponseError(s)) if s == "u"
    ));
}

#[test]
fn package_list_in_order() {
    let v = parse_packages("package:com.example.app\npackage:com.other\n").unwrap();
    assert_eq!(v, vec!["com.example.app".to_string(), "com.other".to_string()]);
}

#[test]
fn package_list_keeps_duplicates_and_skips_empty_lines() {
    let v = parse_packages("\npackage:a\n\npackage:a\npackage:\n").unwrap();
    assert_eq!(v, vec!["a".to_string(), "a".to_string(), "".to_string()]);
    assert!(parse_packages("").unwrap().is_empty());
}

#[test]
fn package_line_without_prefix_is_a_response_error() {
    match parse_packages("package:a\nwarning: oops\n") {
        Err(PackagesError::ResponseError(t)) => assert_eq!(t, "package:a\nwarning: oops\n"),
        other => panic!("unexpected {:?}", other),
    }
    assert!(parse_packages("pkg\n").is_err());
}

#[test]
fn package_reply_outcomes() {
    let v = packages_from_response(Response::Okay("package:x\n".to_string())).unwrap();
    assert_eq!(v, vec!["x".to_string()]);
    assert!(matches!(
        packages_from_response(Response::Fail("f".to_string())),
        Err(PackagesError::ResponseError(s)) if s == "f"
    ));
    assert!(matches!(
        packages_from_response(Response::Unknown("u".to_string())),
        Err(PackagesError::ResponseError(s)) if s == "u"
    ));
}

#[test]
fn shell_reply_outcomes() {
    assert_eq!(shell_output(Response::Okay("out".to_string())).unwrap(), "out");
    assert!(matches!(
        shell_output(Response::Fail("f".to_string())),
        Err(AdbShellError::ResponseError(s)) if s == "f"
    ));
    assert!(matches!(
        shell_output(Response::Unknown("u".to_string())),
        Err(AdbShellError::ResponseError(s)) if s == "u"
    ));
}

#[test]
fn missing_package_file_is_file_not_found_and_sends_nothing() {
    assert!(matches!(install_request(false, "/no/such.apk"), Err(InstallError::FileNotFound)));
}

#[test]
fn install_request_runs_pm_install() {
    let r = install_request(true, "/tmp/a.apk").unwrap();
    assert_eq!(r.payload, b"001Bshell:pm install /tmp/a.apk".to_vec());
}

#[test]
fn installer_error_output_is_package_not_installed() {
    let out = "Performing Streamed Install\nError: INSTALL_FAILED_VERSION_DOWNGRADE".to_string();
    match install_outcome(Ok(out.clone())) {
        Err(InstallError::PackageNotInstalled(t)) => assert_eq!(t, out),
        other => panic!("unexpected {:?}", other),
    }
    assert!(matches!(
        install_outcome(Ok("Error:".to_string())),
        Err(InstallError::PackageNotInstalled(_))
    ));
}

#[test]
fn installer_output_without_error_is_success() {
    assert!(install_outcome(Ok("Success\n".to_string())).is_ok());
    assert!(install_outcome(Ok("error: lower case".to_string())).is_ok());
    assert!(install_outcome(Ok("".to_string())).is_ok());
}

#[test]
fn failed_install_shell_is_server_error() {
    let r = install_outcome(Err(AdbShellError::ResponseError("closed".to_string())));
    assert!(matches!(r, Err(InstallError::ServerError(AdbShellError::ResponseError(s))) if s == "closed"));
}
