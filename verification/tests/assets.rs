use bletchmame::assethash::AssetHash;
use bletchmame::audit::Asset;
use bletchmame::audit::AssetKind;
use bletchmame::audit::AssetLocation;
use bletchmame::audit::AssetStatus;
use bletchmame::audit::DeviceType;
use bletchmame::audit::DiskInfo;
use bletchmame::audit::ImageFileInfo;
use bletchmame::audit::MachineInfo;
use bletchmame::audit::RomInfo;

const NO_HASH: AssetHash = AssetHash { crc: None, sha1: None };

fn rom(name: &str, bios: Option<&str>, size: u64) -> RomInfo {
    RomInfo {
        name: name.to_string(),
        bios: bios.map(|b| b.to_string()),
        size,
        asset_hash: AssetHash { crc: Some(size as u32), sha1: None },
        status: AssetStatus::Good,
        is_optional: false,
    }
}

fn machine(name: &str, rom_of: Option<usize>, roms: Vec<RomInfo>, device_refs: Vec<Option<usize>>) -> MachineInfo {
    MachineInfo {
        name: name.to_string(),
        rom_of,
        biossets: vec![],
        default_biosset_index: None,
        roms,
        disks: vec![],
        samples: vec![],
        device_refs,
    }
}

fn database() -> Vec<MachineInfo> {
    let mut neogeo = machine(
        "neogeo",
        None,
        vec![rom("sp-s2.sp1", Some("euro"), 131072), rom("japan-j3.bin", Some("japan"), 131072), rom("sm1.sm1", None, 131072)],
        vec![Some(2)],
    );
    neogeo.biossets = vec!["euro".to_string(), "japan".to_string()];
    neogeo.default_biosset_index = Some(0);
    let mut mslug = machine("mslug", Some(0), vec![rom("201-p1.p1", None, 2097152)], vec![Some(2), None]);
    mslug.samples = vec!["shot".to_string()];
    mslug.disks = vec![DiskInfo { name: "mslugcd".to_string(), asset_hash: NO_HASH, status: AssetStatus::BadDump, is_optional: true }];
    let ym = machine("ym2610", None, vec![rom("ym.bin", None, 256)], vec![]);
    vec![neogeo, mslug, ym]
}

fn paths(names: &[&str]) -> AssetLocation {
    AssetLocation::MachinePaths(names.iter().map(|n| n.to_string()).collect())
}

fn rom_asset(name: &str, size: u64, location: AssetLocation) -> Asset {
    Asset {
        kind: AssetKind::Rom,
        name: name.to_string(),
        size: Some(size),
        location,
        asset_hash: AssetHash { crc: Some(size as u32), sha1: None },
        status: AssetStatus::Good,
        is_optional: false,
    }
}

fn mslug_assets() -> Vec<Asset> {
    vec![
        rom_asset("201-p1.p1", 2097152, paths(&["mslug", "neogeo"])),
        Asset {
            kind: AssetKind::Disk,
            name: "mslugcd.chd".to_string(),
            size: None,
            location: paths(&["mslug", "neogeo"]),
            asset_hash: NO_HASH,
            status: AssetStatus::BadDump,
            is_optional: true,
        },
        Asset {
            kind: AssetKind::Sample,
            name: "shot.wav".to_string(),
            size: None,
            location: paths(&["mslug", "neogeo"]),
            asset_hash: NO_HASH,
            status: AssetStatus::Good,
            is_optional: true,
        },
        rom_asset("ym.bin", 256, paths(&["ym2610"])),
    ]
}

#[test]
fn assets_of_a_machine_follow_rom_parents_and_devices() {
    assert_eq!(mslug_assets(), Asset::from_machine(&database(), 1));
}

#[test]
fn assets_of_a_bios_machine_use_the_default_bios() {
    assert_eq!(
        vec![
            rom_asset("sp-s2.sp1", 131072, paths(&["neogeo"])),
            rom_asset("sm1.sm1", 131072, paths(&["neogeo"])),
            rom_asset("ym.bin", 256, paths(&["ym2610"])),
        ],
        Asset::from_machine(&database(), 0)
    );
}

#[test]
fn assets_of_a_configuration_and_images() {
    let images = vec![
        ImageFileInfo {
            tag: "cart".to_string(),
            filename: "/roms/game.bin".to_string(),
            name: "game.bin".to_string(),
            device_type: DeviceType::Cartridge,
        },
        ImageFileInfo { tag: "serial".to_string(), filename: "COM1".to_string(), name: "COM1".to_string(), device_type: DeviceType::Serial },
    ];
    let mut expected = mslug_assets();
    expected.push(Asset {
        kind: AssetKind::ImageFile(DeviceType::Cartridge),
        name: "game.bin".to_string(),
        size: None,
        location: AssetLocation::Absolute("/roms/game.bin".to_string()),
        asset_hash: NO_HASH,
        status: AssetStatus::Good,
        is_optional: false,
    });
    // the slot machine's assets are those already listed, so they are not repeated
    let assets = Asset::from_machine_config_and_images(&database(), 1, &vec![2], &images, &vec!["COM1".to_string()]);
    assert_eq!(expected, assets);
    assert_eq!(mslug_assets(), Asset::from_machine_config(&database(), 1, &vec![2]));
}
