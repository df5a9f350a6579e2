use bletchmame::devimageconfig::DevicesImagesConfig;
use bletchmame::devimageconfig::Entry;
use bletchmame::devimageconfig::EntryDetails;
use bletchmame::mconfig::MachineConfig;
use bletchmame::mconfig::Slot;
use bletchmame::mconfig::SlotOption;
use bletchmame::status::MameVersion;
use bletchmame::status::Running;
use bletchmame::status::Status;
use bletchmame::status::StatusImage;
use bletchmame::status::StatusSlot;
use bletchmame::status::StatusSlotOption;

fn option(name: &str, description: &str) -> SlotOption {
    SlotOption { name: name.to_string(), description: description.to_string() }
}

fn coco() -> MachineConfig {
    MachineConfig {
        machine_name: "coco2b".to_string(),
        slots: vec![
            Slot {
                indent: 0,
                base_tag: String::new(),
                name: "ext".to_string(),
                options: vec![option("fdc", "CoCo Disk Controller"), option("multi", "Multi-Pak Interface")],
                current_option_index: Some(0),
            },
            Slot {
                indent: 1,
                base_tag: "ext:fdc:".to_string(),
                name: "wd17xx:0".to_string(),
                options: vec![option("qd", "Quad drive"), option("525dd", "5.25 double density")],
                current_option_index: Some(1),
            },
        ],
    }
}

fn machines() -> Vec<MachineConfig> {
    vec![
        MachineConfig { machine_name: "other".to_string(), slots: vec![] },
        coco(),
    ]
}

fn status_slot(name: &str, options: &[&str], current: Option<usize>) -> StatusSlot {
    StatusSlot {
        name: name.to_string(),
        has_selectable_options: true,
        current_option: current,
        options: options.iter().map(|o| StatusSlotOption { name: o.to_string() }).collect(),
    }
}

fn running_status(ext_option: usize) -> Status {
    Status {
        running: Some(Running {
            machine_name: "coco2b".to_string(),
            slots: vec![
                status_slot("ext", &["fdc", "multi"], Some(ext_option)),
                status_slot("ext:fdc:wd17xx:0", &["qd", "525dd"], Some(1)),
            ],
            images: vec![
                StatusImage { tag: "ext:fdc:wd17xx:0:525dd".to_string(), filename: Some("disk.dsk".to_string()) },
                StatusImage { tag: "cassette".to_string(), filename: None },
                StatusImage { tag: "cart".to_string(), filename: Some("game.ccc".to_string()) },
            ],
            is_paused: false,
            is_throttled: true,
            is_recording: false,
            frameskip: None,
            system_mute: None,
            sound_attenuation: None,
            inputs: vec![],
            cheats: vec![],
        }),
        build: MameVersion { major: 0, minor: 280 },
    }
}

fn tags(config: &DevicesImagesConfig) -> Vec<String> {
    (0..config.entry_count()).map(|i| config.entry(i).unwrap().tag).collect()
}

fn slot_details(entry: &Entry) -> (Vec<(Option<String>, Option<String>)>, usize) {
    match &entry.details {
        EntryDetails::Slot { options, current_option_index } => (
            options.iter().map(|o| (o.name.clone(), o.description.clone())).collect(),
            *current_option_index,
        ),
        EntryDetails::Image { .. } => panic!("not a slot"),
    }
}

#[test]
fn devimageconfig_new_is_empty() {
    let config = DevicesImagesConfig::new();
    assert_eq!(0, config.entry_count());
    assert!(config.entry(0).is_none());
    assert!(!config.is_dirty());
    assert!(config.changed_slots().is_empty());
}

#[test]
fn devimageconfig_with_machine_name_lists_slots() {
    let config = DevicesImagesConfig::with_machine_name(&machines(), Some("coco2b"));
    assert_eq!(vec!["ext".to_string(), "ext:fdc:wd17xx:0".to_string()], tags(&config));
    let ext = config.entry(0).unwrap();
    assert_eq!("ext", ext.subtag);
    assert_eq!(0, ext.indent);
    let (options, current) = slot_details(&ext);
    assert_eq!(
        vec![
            (None, None),
            (Some("fdc".to_string()), Some("CoCo Disk Controller".to_string())),
            (Some("multi".to_string()), Some("Multi-Pak Interface".to_string())),
        ],
        options
    );
    assert_eq!(1, current);
    let drive = config.entry(1).unwrap();
    assert_eq!("wd17xx:0", drive.subtag);
    assert_eq!(1, drive.indent);
    assert_eq!(2, slot_details(&drive).1);
    assert!(config.entry(2).is_none());

    let nothing = DevicesImagesConfig::with_machine_name(&machines(), None);
    assert_eq!(0, nothing.entry_count());
}

#[test]
fn update_status() {
    let config = DevicesImagesConfig::new();
    let config = config.update_status(&running_status(0), &machines());
    assert_eq!(
        vec![
            "cart".to_string(),
            "cassette".to_string(),
            "ext".to_string(),
            "ext:fdc:wd17xx:0".to_string(),
            "ext:fdc:wd17xx:0:525dd".to_string(),
        ],
        tags(&config)
    );
    let disk = config.entry(4).unwrap();
    assert_eq!("525dd", disk.subtag);
    assert_eq!(2, disk.indent);
    match disk.details {
        EntryDetails::Image { filename } => assert_eq!(Some("disk.dsk".to_string()), filename),
        EntryDetails::Slot { .. } => panic!("expected an image"),
    }
    let cart = config.entry(0).unwrap();
    assert_eq!("cart", cart.subtag);
    assert_eq!(0, cart.indent);
    assert!(!config.is_dirty());

    // a report that changes a slot makes a new clean configuration
    let changed = config.update_status(&running_status(1), &machines());
    assert!(!changed.is_dirty());
    assert_eq!(2, slot_details(&changed.entry(2).unwrap()).1);
    assert_eq!(Some(vec![2]), config.identify_changed_rows(&changed));

    // no machine running: nothing configured
    let stopped = changed.update_status(&Status { build: MameVersion { major: 0, minor: 280 }, running: None }, &machines());
    assert_eq!(0, stopped.entry_count());
}

#[test]
fn set_slot_option() {
    let config = DevicesImagesConfig::with_machine_name(&machines(), Some("coco2b"));
    let config = config.set_slot_option("ext", Some("multi"));
    assert!(config.is_dirty());
    assert_eq!(2, slot_details(&config.entry(0).unwrap()).1);
    assert_eq!(vec![("ext".to_string(), Some("multi".to_string()))], config.changed_slots());

    let cleared = config.set_slot_option("ext", None);
    assert_eq!(0, slot_details(&cleared.entry(0).unwrap()).1);
    assert_eq!(vec![("ext".to_string(), None)], cleared.changed_slots());

    let back = cleared.set_slot_option("ext", Some("fdc"));
    assert!(back.is_dirty());
    assert!(back.changed_slots().is_empty());
}

#[test]
fn identify_changed_rows_cases() {
    let a = DevicesImagesConfig::with_machine_name(&machines(), Some("coco2b"));
    let b = DevicesImagesConfig::with_machine_name(&machines(), Some("coco2b"));
    assert_eq!(Some(vec![]), a.identify_changed_rows(&b));
    let c = b.set_slot_option("ext:fdc:wd17xx:0", Some("qd"));
    assert_eq!(Some(vec![1]), a.identify_changed_rows(&c));
    let empty = DevicesImagesConfig::new();
    assert_eq!(None, a.identify_changed_rows(&empty));
    assert_eq!(Some(vec![]), empty.identify_changed_rows(&DevicesImagesConfig::new()));
}

#[test]
fn set_slot_option_keeps_images() {
    let config = DevicesImagesConfig::new().update_status(&running_status(0), &machines());
    let changed = config.set_slot_option("ext", Some("multi"));
    assert_eq!(tags(&config), tags(&changed));
    assert_eq!(Some(vec![2]), config.identify_changed_rows(&changed));
}

#[test]
fn devimageconfig_entries_are_well_shaped() {
    let config = DevicesImagesConfig::with_machine_name(&machines(), Some("coco2b"));
    assert_eq!(2, config.entry_count());
    for i in 0..config.entry_count() {
        let e = config.entry(i).unwrap();
        assert!(e.tag.ends_with(e.subtag.as_str()));
        if let EntryDetails::Slot { options, current_option_index } = &e.details {
            assert!(!options.is_empty());
            assert!(options[0].name.is_none() && options[0].description.is_none());
            assert!(*current_option_index < options.len());
        }
    }
}
