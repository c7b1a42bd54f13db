use asr_dotnet::game::{
    format_digits, format_level_into, game_manager_desc, game_manager_desc_dlc, read_string,
    stage, timer_desc, timer_instance_field, GameManagerBinding, LevelOrScene, Timer,
    TimerBinding, GAME_STATE_RESULTS, LEVEL_7_X,
};
use asr_dotnet::memory::{MemRegion, ProcessMemory};
use asr_dotnet::metadata::MonoImage;
use asr_dotnet::ptr::Ptr;

const BASE: u64 = 0x200000;

fn gw64(buf: &mut [u8], off: usize, v: u64) {
    buf[off..off + 8].copy_from_slice(&v.to_le_bytes());
}

fn gw32(buf: &mut [u8], off: usize, v: u32) {
    buf[off..off + 4].copy_from_slice(&v.to_le_bytes());
}

fn gstr(buf: &mut [u8], off: usize, s: &[u8]) {
    buf[off..off + s.len()].copy_from_slice(s);
    buf[off + s.len()] = 0;
}

/// A legacy image holding one class with the given name and fields, and an
/// instance at +0x9000.
fn game_image(class: &[u8], fields: &[(&[u8], u32)], instance: &[u8]) -> ProcessMemory {
    let mut buf = vec![0u8; 0xA000];
    gw32(&mut buf, 1240, 1);
    gw64(&mut buf, 1248, BASE + 0x2000);
    gw64(&mut buf, 0x2000, BASE + 0x3000);
    gw32(&mut buf, 0x3000 + 28, instance.len() as u32);
    gw64(&mut buf, 0x3000 + 72, BASE + 0x4000);
    gw64(&mut buf, 0x3000 + 80, BASE + 0x4100);
    gw64(&mut buf, 0x3000 + 152, BASE + 0x5000);
    gw32(&mut buf, 0x3000 + 256, fields.len() as u32);
    gstr(&mut buf, 0x4000, class);
    gstr(&mut buf, 0x4100, b"");
    for (i, (name, off)) in fields.iter().enumerate() {
        let name_at = 0x4200 + 0x80 * i;
        gstr(&mut buf, name_at, name);
        gw64(&mut buf, 0x5000 + 32 * i + 8, BASE + name_at as u64);
        gw32(&mut buf, 0x5000 + 32 * i + 24, *off);
    }
    buf[0x9000..0x9000 + instance.len()].copy_from_slice(instance);
    ProcessMemory { regions: vec![MemRegion { base: BASE, bytes: buf }] }
}

#[test]
fn digits_format_with_zero_padding() {
    assert_eq!(format_digits(0, 0, 0), b"0:00.00".to_vec());
    assert_eq!(format_digits(12, 3, 45), b"12:03.45".to_vec());
    assert_eq!(format_digits(1, 59, 9), b"1:59.09".to_vec());
    assert_eq!(format_digits(100, 255, 255), b"100:255.255".to_vec());
}

#[test]
fn stage_and_act_format_levels() {
    assert_eq!(stage(0), 1);
    assert_eq!(stage(1), 1);
    assert_eq!(stage(2), 2);
    assert_eq!(stage(13), 7);
    assert_eq!(stage(14), 7);
    assert_eq!(stage(100), 7);
    assert_eq!(format_level_into(0), b"1-1".to_vec());
    assert_eq!(format_level_into(1), b"1-2".to_vec());
    assert_eq!(format_level_into(13), b"7-2".to_vec());
    assert_eq!(format_level_into(LEVEL_7_X), b"7-X".to_vec());
}

#[test]
fn level_predicates() {
    assert!(LevelOrScene::Level(0).is_in_first_level());
    assert!(!LevelOrScene::Level(1).is_in_first_level());
    let shrine: Vec<u16> = "Shrine01".encode_utf16().collect();
    assert!(LevelOrScene::Scene(shrine).is_in_first_level());
    let other: Vec<u16> = "Shrine02".encode_utf16().collect();
    assert!(!LevelOrScene::Scene(other).is_in_first_level());
    assert!(LevelOrScene::Level(13).is_in_final_level());
    assert!(LevelOrScene::Level(14).is_in_final_level());
    assert!(!LevelOrScene::Level(12).is_in_final_level());
    assert!(LevelOrScene::Level(2).is_in_credits());
    assert!(!LevelOrScene::Level(3).is_in_credits());
    assert_eq!(GAME_STATE_RESULTS, 6);
}

#[test]
fn character_names() {
    let t = |c: u32| Timer {
        level_time_bits: 0,
        minutes_bits: 0,
        seconds_bits: 0,
        hundredths_bits: 0,
        timer_stopped: false,
        character: c,
    };
    assert_eq!(t(0).character(), "Hana");
    assert_eq!(t(1).character(), "Toree");
    assert_eq!(t(2).character(), "Toukie");
    assert_eq!(t(3).character(), "Accel");
    assert_eq!(t(9).character(), "Unknown");
}

#[test]
fn managed_string_reads_capped_utf16() {
    let mut buf = vec![0u8; 0x100];
    gw32(&mut buf, 16, 5);
    for (i, u) in "Hello".encode_utf16().enumerate() {
        buf[20 + 2 * i..22 + 2 * i].copy_from_slice(&u.to_le_bytes());
    }
    let mem = ProcessMemory { regions: vec![MemRegion { base: BASE, bytes: buf }] };
    let units = read_string(&mem, Ptr::new(BASE)).unwrap();
    let s: String = String::from_utf16(&units).unwrap();
    assert_eq!(s, "Hello");
    // The declared length is capped at 16 units.
    let mut buf2 = vec![0u8; 0x100];
    gw32(&mut buf2, 16, 400);
    let mem2 = ProcessMemory { regions: vec![MemRegion { base: BASE, bytes: buf2 }] };
    assert_eq!(read_string(&mem2, Ptr::new(BASE)).unwrap().len(), 16);
    assert!(read_string(&mem2, Ptr::new(0)).is_none());
}

#[test]
fn descriptors_declare_expected_fields() {
    let d = game_manager_desc();
    assert_eq!(d.class_name, b"GameManager".to_vec());
    assert_eq!(d.name_space, Vec::<u8>::new());
    let names: Vec<&[u8]> = d.fields.iter().map(|f| f.name.as_slice()).collect();
    assert_eq!(
        names,
        vec![
            b"gameState".as_slice(),
            b"_points".as_slice(),
            b"_deaths".as_slice(),
            b"currentLevel".as_slice(),
        ]
    );
    let d2 = game_manager_desc_dlc();
    assert_eq!(d2.fields[0].name, b"<GameState>k__BackingField".to_vec());
    assert_eq!(d2.fields[3].name, b"_currentScene".to_vec());
    assert_eq!(d2.fields[3].size, 8);
    let t = timer_desc();
    assert_eq!(t.class_name, b"Timer".to_vec());
    assert_eq!(t.fields[1].name, b"currentLevelTimeVector".to_vec());
    assert_eq!(t.fields[1].size, 12);
    assert_eq!(timer_instance_field(true), b"<Instance>k__BackingField".to_vec());
    assert_eq!(timer_instance_field(false), b"_instance".to_vec());
}

#[test]
fn game_manager_binds_base_layout_and_reads() {
    let mut instance = vec![0u8; 16];
    instance[0..4].copy_from_slice(&6i32.to_le_bytes());
    instance[4..8].copy_from_slice(&1234i32.to_le_bytes());
    instance[8..12].copy_from_slice(&(-2i32).to_le_bytes());
    instance[12..16].copy_from_slice(&13i32.to_le_bytes());
    let mem = game_image(
        b"GameManager",
        &[(b"gameState", 0), (b"_points", 4), (b"_deaths", 8), (b"currentLevel", 12)],
        &instance,
    );
    let image = MonoImage::read_legacy(&mem, Ptr::new(BASE)).unwrap();
    let gb = GameManagerBinding::bind(&image, &mem).unwrap();
    assert!(!gb.is_dlc());
    let g = gb.read(&mem, Ptr::new(BASE + 0x9000)).unwrap();
    assert_eq!(g.game_state, 6);
    assert_eq!(g.points, 1234);
    assert_eq!(g.deaths, -2);
    match g.level_or_scene {
        LevelOrScene::Level(l) => assert_eq!(l, 13),
        _ => panic!("expected a level"),
    }
}

#[test]
fn game_manager_binds_expanded_layout_and_reads_scene() {
    let mut instance = vec![0u8; 24];
    instance[0..4].copy_from_slice(&1i32.to_le_bytes());
    instance[4..8].copy_from_slice(&7i32.to_le_bytes());
    instance[8..12].copy_from_slice(&3i32.to_le_bytes());
    instance[16..24].copy_from_slice(&(BASE + 0x9800u64).to_le_bytes());
    let mut mem = game_image(
        b"GameManager",
        &[
            (b"<GameState>k__BackingField", 0),
            (b"_points", 4),
            (b"_deaths", 8),
            (b"_currentScene", 16),
        ],
        &instance,
    );
    {
        let buf = &mut mem.regions[0].bytes;
        gw32(buf, 0x9800 + 16, 8);
        for (i, u) in "Shrine01".encode_utf16().enumerate() {
            buf[0x9800 + 20 + 2 * i..0x9800 + 22 + 2 * i].copy_from_slice(&u.to_le_bytes());
        }
    }
    let image = MonoImage::read_legacy(&mem, Ptr::new(BASE)).unwrap();
    let gb = GameManagerBinding::bind(&image, &mem).unwrap();
    assert!(gb.is_dlc());
    let g = gb.read(&mem, Ptr::new(BASE + 0x9000)).unwrap();
    assert_eq!(g.game_state, 1);
    assert_eq!(g.points, 7);
    assert_eq!(g.deaths, 3);
    match g.level_or_scene {
        LevelOrScene::Scene(s) => {
            assert!(LevelOrScene::Scene(s).is_in_first_level());
        },
        _ => panic!("expected a scene"),
    }
}

#[test]
fn timer_binding_reads_bit_patterns() {
    let mut instance = vec![0u8; 24];
    instance[0..4].copy_from_slice(&12.5f32.to_le_bytes());
    instance[4..8].copy_from_slice(&2.0f32.to_le_bytes());
    instance[8..12].copy_from_slice(&3.0f32.to_le_bytes());
    instance[12..16].copy_from_slice(&45.0f32.to_le_bytes());
    instance[16] = 1;
    instance[20..24].copy_from_slice(&1u32.to_le_bytes());
    let mem = game_image(
        b"Timer",
        &[
            (b"currentLevelTime", 0),
            (b"currentLevelTimeVector", 4),
            (b"timerStopped", 16),
            (b"character", 20),
        ],
        &instance,
    );
    let image = MonoImage::read_legacy(&mem, Ptr::new(BASE)).unwrap();
    let tb = TimerBinding::bind(&image, &mem).unwrap();
    let t = tb.read(&mem, Ptr::new(BASE + 0x9000)).unwrap();
    assert_eq!(f32::from_bits(t.level_time_bits), 12.5);
    assert_eq!(f32::from_bits(t.minutes_bits), 2.0);
    assert_eq!(f32::from_bits(t.seconds_bits), 3.0);
    assert_eq!(f32::from_bits(t.hundredths_bits), 45.0);
    assert!(t.timer_stopped);
    assert_eq!(t.character, 1);
    assert_eq!(t.character(), "Toree");
    let digits = format_digits(
        f32::from_bits(t.minutes_bits) as u32,
        f32::from_bits(t.seconds_bits) as u8,
        f32::from_bits(t.hundredths_bits) as u8,
    );
    assert_eq!(digits, b"2:03.45".to_vec());
}

#[test]
fn game_manager_bind_reports_missing_class() {
    let mem = game_image(b"SomethingElse", &[(b"gameState", 0)], &[0u8; 4]);
    let image = MonoImage::read_legacy(&mem, Ptr::new(BASE)).unwrap();
    assert!(matches!(
        GameManagerBinding::bind(&image, &mem),
        Err(asr_dotnet::BindFailure::ClassNotFound)
    ));
}
