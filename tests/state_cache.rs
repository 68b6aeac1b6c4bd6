use cscp::{AudioType, AudioWidth, DeskInfo, Fader, StateCache, DB};

fn desk(version: u16, name: &str) -> DeskInfo {
    DeskInfo { cscpVersion: version, numFaders: 48, numMains: 4, name: name.to_string() }
}

#[test]
fn fader_new_is_default() {
    let f = Fader::new(9);
    assert_eq!(f.index, 9);
    assert_eq!(f.label, "");
    assert_eq!(f.level, 0);
    assert!(!f.isCut);
    assert!(!f.isPfl);
    assert_eq!(f.pathType, AudioType::U);
    assert_eq!(f.format, AudioWidth::NP);
}

#[test]
fn defaults_are_zero() {
    let d = DeskInfo::default();
    assert_eq!((d.cscpVersion, d.numFaders, d.numMains, d.name.as_str()), (0, 0, 0, ""));
    let db = DB::default();
    assert_eq!(db.deskInfo, DeskInfo::default());
    assert!(db.faders.is_empty());
}

#[test]
fn get_or_create_twice_gives_equal_defaults() {
    let mut cache = StateCache::new();
    let a = cache.get_or_create_fader(3);
    let b = cache.get_or_create_fader(3);
    assert_eq!(a, b);
    assert_eq!(a, Fader::new(3));
    assert_eq!(cache.snapshot().faders, vec![Fader::new(3)]);
}

#[test]
fn update_then_get_or_create_returns_stored_fader() {
    let mut cache = StateCache::new();
    let _ = cache.get_or_create_fader(3);
    let mut f = Fader::new(3);
    f.level = 512;
    f.label = "Vox".to_string();
    cache.update_fader(f.clone());
    assert_eq!(cache.get_or_create_fader(3), f);
    assert_eq!(cache.snapshot().faders, vec![f]);
}

#[test]
fn update_keeps_one_entry_per_index() {
    let mut cache = StateCache::new();
    for level in [1u16, 2, 3] {
        let mut f = Fader::new(7);
        f.level = level;
        cache.update_fader(f);
    }
    let faders = cache.snapshot().faders;
    assert_eq!(faders.len(), 1);
    assert_eq!(faders[0].level, 3);
}

#[test]
fn snapshot_lists_faders_by_index() {
    let mut cache = StateCache::new();
    for index in [5u16, 1, 3, 65535, 0] {
        let _ = cache.get_or_create_fader(index);
    }
    let mut f = Fader::new(1);
    f.isCut = true;
    cache.update_fader(f);
    let indices: Vec<u16> = cache.snapshot().faders.iter().map(|f| f.index).collect();
    assert_eq!(indices, vec![0, 1, 3, 5, 65535]);
    assert!(cache.snapshot().faders[1].isCut);
}

#[test]
fn snapshot_without_desk_info_is_zero() {
    let cache = StateCache::new();
    let db = cache.snapshot();
    assert_eq!(db.deskInfo, DeskInfo::default());
    assert!(db.faders.is_empty());
}

#[test]
fn newer_desk_info_replaces_older() {
    let mut cache = StateCache::new();
    cache.update_desk_info(desk(1, "Old desk"));
    cache.update_desk_info(desk(2, "New"));
    assert_eq!(cache.snapshot().deskInfo, desk(2, "New"));
}

#[test]
fn wire_numbers_map_to_path_types_and_widths() {
    assert_eq!(AudioType::from_code(0), Some(AudioType::U));
    assert_eq!(AudioType::from_code(2), Some(AudioType::GP));
    assert_eq!(AudioType::from_code(11), Some(AudioType::VCA_MASTER_AUX));
    assert_eq!(AudioType::from_code(12), None);
    assert_eq!(AudioWidth::from_code(1), Some(AudioWidth::M));
    assert_eq!(AudioWidth::from_code(6), Some(AudioWidth::SU));
    assert_eq!(AudioWidth::from_code(7), None);
}
