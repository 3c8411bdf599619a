use femeter::at_parser::AtError;
use femeter::quectel::{iccid_of, CellularType, Feature, QuectelControl, QuectelModel, ReplyKind};

#[test]
fn quectel_identify_models() {
    assert_eq!(QuectelModel::from_ident_response("Quectel EC800N"), QuectelModel::Ec800N);
    assert_eq!(QuectelModel::from_ident_response("bc260y-cn"), QuectelModel::Bc260Y);
    assert_eq!(QuectelModel::from_ident_response("m26fbr03a01"), QuectelModel::M26);
    assert_eq!(QuectelModel::from_ident_response("SIM800"), QuectelModel::Unknown);
    // the EC200 names are tested before "EC20", which they contain
    assert_eq!(QuectelModel::from_ident_response("EC200T"), QuectelModel::Ec200T);
    assert_eq!(QuectelModel::from_ident_response("EC200U"), QuectelModel::Ec200U);
    assert_eq!(QuectelModel::from_ident_response("ec25"), QuectelModel::Ec25);
    assert_eq!(QuectelModel::from_ident_response("EC20F"), QuectelModel::Ec20);
    assert_eq!(QuectelModel::from_ident_response(""), QuectelModel::Unknown);
}

#[test]
fn quectel_capabilities() {
    let c = QuectelModel::Ec25.capabilities();
    assert_eq!(c.cellular_type, CellularType::LteCat4);
    assert!(c.gnss);
    assert_eq!(c.max_baud, 460800);
    let c = QuectelModel::Bc95.capabilities();
    assert_eq!(c.cellular_type, CellularType::NbIoT);
    assert!(c.coap && !c.voice);
    let c = QuectelModel::Mc60.capabilities();
    assert_eq!(c.cellular_type, CellularType::Gprs);
    assert!(c.gnss && !c.mqtt);
    assert_eq!(c.max_baud, 115200);
    let c = QuectelModel::Unknown.capabilities();
    assert!(!c.socket);
}

#[test]
fn quectel_power_key_timing() {
    assert_eq!(QuectelModel::M66.pwrkey_on_ms(), 1000);
    assert_eq!(QuectelModel::Ec20.pwrkey_on_ms(), 500);
    assert_eq!(QuectelModel::M35.pwrkey_off_ms(), 1500);
    assert_eq!(QuectelModel::Bc28F.pwrkey_off_ms(), 650);
    assert_eq!(QuectelModel::Bc28F.boot_ready_timeout_ms(), 15000);
    assert_eq!(QuectelModel::Ec800G.boot_ready_timeout_ms(), 10000);
}

#[test]
fn quectel_detect_from_first_naming_line() {
    let mut c = QuectelControl::new_auto_detect();
    assert!(c.needs_detection());
    let lines = vec![b"Quectel".to_vec(), b"EC200U".to_vec(), b"EC25".to_vec()];
    assert_eq!(c.detect_from_lines(&lines), QuectelModel::Ec200U);
    assert_eq!(c.model, QuectelModel::Ec200U);
    assert!(c.auto_detected);
    assert!(!c.needs_detection());
    let mut d = QuectelControl::new_auto_detect();
    assert_eq!(d.detect_from_lines(&[b"SIMCOM".to_vec()]), QuectelModel::Unknown);
    assert_eq!(d.model, QuectelModel::Unknown);
    assert!(!d.auto_detected);
}

#[test]
fn quectel_sim_check_outcomes() {
    assert_eq!(QuectelControl::sim_check(ReplyKind::OkWithLines, &[b"+CPIN: READY".to_vec()]), Ok(()));
    assert_eq!(
        QuectelControl::sim_check(ReplyKind::OkWithLines, &[b"+CPIN: SIM PIN".to_vec()]),
        Err(AtError::SimError)
    );
    assert_eq!(QuectelControl::sim_check(ReplyKind::OkWithLines, &[b"+CPIN: x".to_vec()]), Ok(()));
    assert_eq!(QuectelControl::sim_check(ReplyKind::Error, &[]), Err(AtError::SimError));
    assert_eq!(QuectelControl::sim_check(ReplyKind::NoResponse, &[]), Err(AtError::Timeout));
    assert_eq!(QuectelControl::sim_check(ReplyKind::OkOnly, &[]), Err(AtError::Timeout));
}

#[test]
fn quectel_commands_by_radio() {
    assert_eq!(QuectelControl::new_known(QuectelModel::Bc260Y).band_command(), Some("AT+QBAND=1,8"));
    assert_eq!(QuectelControl::new_known(QuectelModel::Ec800N).band_command(), Some("AT+QBAND=1,B3,B8"));
    assert_eq!(QuectelControl::new_known(QuectelModel::M26).band_command(), None);
    assert_eq!(QuectelControl::new_known(QuectelModel::M26).sleep_command(), ("AT+CFUN=0", 5000));
    assert_eq!(QuectelControl::new_known(QuectelModel::Ec25).sleep_command(), ("AT+QSCLK=0", 3000));
    assert!(QuectelControl::new_known(QuectelModel::Bc95).checks_eps_registration());
    assert!(!QuectelControl::new_known(QuectelModel::Ec25).checks_eps_registration());
}

#[test]
fn quectel_feature_gating_and_mqtt_setup() {
    let ec25 = QuectelControl::new_known(QuectelModel::Ec25);
    assert_eq!(ec25.require(Feature::Gnss), Ok(()));
    assert_eq!(ec25.require(Feature::Psm), Err(AtError::NotSupported));
    assert_eq!(
        ec25.mqtt_setup_commands(8883).unwrap(),
        vec!["AT+QMTCFG=\"version\",0,4", "AT+QMTCFG=\"ssl\",0,1,2"]
    );
    assert_eq!(ec25.mqtt_setup_commands(1883).unwrap(), vec!["AT+QMTCFG=\"version\",0,4"]);
    let mc60 = QuectelControl::new_known(QuectelModel::Mc60);
    assert_eq!(mc60.mqtt_setup_commands(1883), Err(AtError::NotSupported));
    assert_eq!(QuectelControl::new_known(QuectelModel::Bc95).require(Feature::Psm), Ok(()));
}

#[test]
fn quectel_iccid_from_line() {
    assert_eq!(iccid_of(b"+QCCID: 89860012345678901234 "), Some(b"89860012345678901234".to_vec()));
    assert_eq!(iccid_of(b"89860012345678901234"), None);
}
