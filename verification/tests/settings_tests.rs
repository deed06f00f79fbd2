use loramesh::settings::{Settings, SettingsError, SettingsOverlay};

#[test]
fn settings_load() {
    let opt: Settings = Settings::new().expect("Error loading settings");

    assert_eq!(&opt.nodeid, &0);
    assert_eq!(&opt.isgateway, &false);
    assert_eq!(&opt.radioport.as_str(), &"/dev/ttyUSB0");
    assert_eq!(&opt.maxpacketsize, &200usize);
    assert_eq!(&opt.maxhops, &2);
    assert_eq!(&opt.radiocfg, &None);
}

#[test]
fn settings_defaults_hold_every_value() {
    let opt = Settings::defaults();
    assert_eq!(opt.nodeid, 0);
    assert!(!opt.debug);
    assert!(!opt.isgateway);
    assert_eq!(opt.radioport, "/dev/ttyUSB0");
    assert_eq!(opt.radiocfg, None);
    assert_eq!(opt.maxpacketsize, 200);
    assert_eq!(opt.txslot, 200);
    assert_eq!(opt.eotwait, 1000);
    assert_eq!(opt.chunktimeout, 10000);
    assert_eq!(opt.maxhops, 2);
    assert!(opt.validate().is_ok());
}

#[test]
fn settings_overlays_apply_in_order() {
    let mut file = SettingsOverlay::none();
    file.nodeid = Some(3);
    file.maxpacketsize = Some(45);
    file.radiocfg = Some(String::from("/etc/loramesh/radio.txt"));
    let mut env = SettingsOverlay::none();
    env.nodeid = Some(7);
    env.isgateway = Some(true);
    let opt = Settings::load(&vec![file, env]).expect("Error loading settings");
    assert_eq!(opt.nodeid, 7);
    assert!(opt.isgateway);
    assert_eq!(opt.maxpacketsize, 45);
    assert_eq!(opt.radiocfg, Some(String::from("/etc/loramesh/radio.txt")));
    assert_eq!(opt.radioport, "/dev/ttyUSB0");
    assert_eq!(opt.txslot, 200);
}

#[test]
fn settings_packet_size_bounds() {
    for (size, ok) in [(9usize, false), (10, true), (250, true), (251, false)] {
        let mut over = SettingsOverlay::none();
        over.maxpacketsize = Some(size);
        let loaded = Settings::load(&vec![over]);
        assert_eq!(loaded.is_ok(), ok, "maxpacketsize {}", size);
        if !ok {
            assert_eq!(loaded.unwrap_err(), SettingsError::PacketSizeOutOfRange);
        }
    }
}

#[test]
fn settings_clone_keeps_values() {
    let mut over = SettingsOverlay::none();
    over.radioport = Some(String::from("/dev/ttyACM1"));
    over.maxhops = Some(5);
    let opt = Settings::defaults().merge(&over);
    let copy = opt.clone();
    assert_eq!(copy.radioport, "/dev/ttyACM1");
    assert_eq!(copy.maxhops, 5);
    assert_eq!(copy.eotwait, 1000);
}
