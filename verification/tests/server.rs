use vistream::protocol::camera::{CameraListing, PixelFormat};
use vistream::protocol::fs::{parse_table, Table};
use vistream::server::parser::FourCC;
use vistream::server::{
    accept_validation, admission, check, find_camera, full_resolve_name, get_closest_size,
    listing, stack_code_of, stop_target, translate_pixel_format, Admission, Failure, Size,
    Validation,
};

fn cam(name: &str, id: &str) -> CameraListing {
    CameraListing { name: name.to_string(), id: id.to_string(), acquired: false }
}

fn sizes(list: &[(u32, u32)]) -> Vec<Size> {
    list.iter().map(|(width, height)| Size { width: *width, height: *height }).collect()
}

fn strings(list: &[&str]) -> Vec<String> {
    list.iter().map(|s| s.to_string()).collect()
}

#[test]
fn exit_codes() {
    assert_eq!(Failure::Registry.code(), 1);
    assert_eq!(Failure::HomeUnusable.code(), 2);
    assert_eq!(Failure::AliasFile.code(), 3);
    assert_eq!(Failure::CameraManager.code(), 4);
    assert_eq!(Failure::AliasConflict.code(), 5);
    assert_eq!(Failure::CameraAcquire.code(), 6);
    assert_eq!(Failure::Socket.code(), 7);
    assert_eq!(Failure::Configure.code(), 8);
    assert_eq!(Failure::IncompatibleFormat.code(), 8);
    assert_eq!(Failure::CameraDisconnected.code(), 9);
    assert_eq!(Failure::SignalHandler.code(), 10);
    assert_eq!(Failure::Serialization.code(), 11);
    assert_eq!(Failure::NameUnresolved.code(), 12);
    assert_eq!(Failure::NameAmbiguous.code(), 12);
    assert_eq!(Failure::StopFailed.code(), 20);
    assert_eq!(Failure::AlreadyAcquired.code(), 255);
}

#[test]
fn a_camera_is_found_by_model_or_id() {
    let cameras = vec![cam("LifeCam", "ABC123"), cam("Brio", "DEF456"), cam("Brio", "GHI789")];
    assert_eq!(find_camera(&cameras, "LifeCam"), Ok(0));
    assert_eq!(find_camera(&cameras, "ABC123"), Ok(0));
    assert_eq!(find_camera(&cameras, "GHI789"), Ok(2));
    assert_eq!(find_camera(&cameras, "Brio"), Err(Failure::NameAmbiguous));
    assert_eq!(find_camera(&cameras, "Nope"), Err(Failure::NameUnresolved));
    assert_eq!(find_camera(&cameras, "lifecam"), Err(Failure::NameUnresolved));
    assert_eq!(find_camera(&Vec::new(), "LifeCam"), Err(Failure::NameUnresolved));
    let twin = vec![cam("X", "X")];
    assert_eq!(find_camera(&twin, "X"), Ok(0));
    let crossed = vec![cam("A", "B"), cam("B", "C")];
    assert_eq!(find_camera(&crossed, "B"), Err(Failure::NameAmbiguous));
}

#[test]
fn names_resolve_through_aliases() {
    let cameras = vec![cam("LifeCam", "ABC123"), cam("Brio", "DEF456")];
    let aliases = parse_table(&strings(&["desk=Brio", "door=ABC123", "lost=Gone", "Brio=LifeCam"]));
    assert_eq!(full_resolve_name(&aliases, &cameras, "desk"), Ok("DEF456".to_string()));
    assert_eq!(full_resolve_name(&aliases, &cameras, "door"), Ok("ABC123".to_string()));
    assert_eq!(full_resolve_name(&aliases, &cameras, "LifeCam"), Ok("ABC123".to_string()));
    assert_eq!(full_resolve_name(&aliases, &cameras, "Brio"), Ok("ABC123".to_string()));
    assert_eq!(full_resolve_name(&aliases, &cameras, "lost"), Err(Failure::NameUnresolved));
    assert_eq!(full_resolve_name(&Table::new(), &cameras, "desk"), Err(Failure::NameUnresolved));
}

#[test]
fn listings_are_marked() {
    let used = strings(&["ABC123"]);
    let held = listing("LifeCam".to_string(), "ABC123".to_string(), &used);
    assert!(held.acquired);
    assert_eq!(held.label(), "LifeCam (ABC123) (acquired)");
    let free = listing("Brio".to_string(), "DEF456".to_string(), &used);
    assert!(!free.acquired);
    assert_eq!((free.name.as_str(), free.id.as_str()), ("Brio", "DEF456"));
}

#[test]
fn a_held_camera_is_not_acquired_again() {
    let used = strings(&["ABC123"]);
    assert_eq!(admission(&used, "DEF456", false), Admission::Acquire);
    assert_eq!(admission(&used, "DEF456", true), Admission::Acquire);
    assert_eq!(admission(&used, "ABC123", true), Admission::Quit);
    assert_eq!(admission(&used, "ABC123", false), Admission::Refuse);
}

#[test]
fn check_answers() {
    let used = strings(&["ABC123"]);
    assert_eq!(check(&used, "DEF456", false), Ok("DEF456 is free".to_string()));
    assert_eq!(check(&used, "DEF456", true), Ok(String::new()));
    assert_eq!(
        check(&used, "ABC123", false),
        Err((Failure::AlreadyAcquired, "ABC123 is already acquired".to_string()))
    );
    assert_eq!(check(&used, "ABC123", true), Err((Failure::AlreadyAcquired, String::new())));
    assert_eq!(check(&used, "ABC123", true).unwrap_err().0.code(), 255);
}

#[test]
fn the_server_to_stop() {
    let pids = parse_table(&strings(&["ABC123=4711", "DEF456=12"]));
    assert_eq!(stop_target(&pids, "ABC123"), Ok("4711".to_string()));
    assert_eq!(stop_target(&pids, "XYZ"), Err(Failure::StopFailed));
    assert_eq!(stop_target(&pids, "XYZ").unwrap_err().code(), 20);
}

#[test]
fn the_closest_size_by_both_extents() {
    let offered = sizes(&[(320, 240), (640, 480), (1280, 720), (1920, 1080)]);
    let pick = |w, h| get_closest_size(&offered, w, h);
    assert_eq!(pick(Some(640), Some(480)), Some(Size { width: 640, height: 480 }));
    assert_eq!(pick(Some(600), Some(500)), Some(Size { width: 640, height: 480 }));
    assert_eq!(pick(Some(0), Some(0)), Some(Size { width: 320, height: 240 }));
    assert_eq!(pick(Some(u32::MAX), Some(u32::MAX)), Some(Size { width: 1920, height: 1080 }));
    assert_eq!(pick(Some(1000), Some(600)), Some(Size { width: 1280, height: 720 }));
}

#[test]
fn the_closest_size_by_one_extent() {
    let offered = sizes(&[(320, 1080), (640, 480), (1280, 720), (1920, 240)]);
    let pick = |w, h| get_closest_size(&offered, w, h);
    assert_eq!(pick(None, Some(250)), Some(Size { width: 1920, height: 240 }));
    assert_eq!(pick(None, Some(1000)), Some(Size { width: 320, height: 1080 }));
    assert_eq!(pick(Some(1900), None), Some(Size { width: 1920, height: 240 }));
    assert_eq!(pick(Some(500), None), Some(Size { width: 640, height: 480 }));
}

#[test]
fn the_first_size_where_nothing_is_asked_for() {
    let offered = sizes(&[(1280, 720), (320, 240), (640, 480)]);
    assert_eq!(get_closest_size(&offered, None, None), Some(Size { width: 1280, height: 720 }));
    assert_eq!(get_closest_size(&Vec::new(), None, None), None);
    assert_eq!(get_closest_size(&Vec::new(), Some(640), Some(480)), None);
}

#[test]
fn ties_go_to_the_size_listed_first() {
    let offered = sizes(&[(600, 480), (680, 480), (640, 440), (640, 520)]);
    assert_eq!(
        get_closest_size(&offered, Some(640), Some(480)),
        Some(Size { width: 600, height: 480 })
    );
    let turned = sizes(&[(640, 520), (680, 480), (600, 480)]);
    assert_eq!(
        get_closest_size(&turned, Some(640), Some(480)),
        Some(Size { width: 640, height: 520 })
    );
    assert_eq!(get_closest_size(&turned, Some(640), None), Some(Size { width: 640, height: 520 }));
    assert_eq!(get_closest_size(&turned, None, Some(480)), Some(Size { width: 680, height: 480 }));
    let far = sizes(&[(0, 0), (u32::MAX, u32::MAX)]);
    assert_eq!(
        get_closest_size(&far, Some(u32::MAX), Some(u32::MAX)),
        Some(Size { width: u32::MAX, height: u32::MAX })
    );
    assert_eq!(get_closest_size(&far, Some(0), Some(1)), Some(Size { width: 0, height: 0 }));
}

#[test]
fn validated_configurations() {
    assert_eq!(accept_validation(Validation::Valid, true), Ok(()));
    assert_eq!(accept_validation(Validation::Valid, false), Ok(()));
    assert_eq!(accept_validation(Validation::Adjusted, true), Ok(()));
    assert_eq!(accept_validation(Validation::Adjusted, false), Err(Failure::IncompatibleFormat));
    assert_eq!(accept_validation(Validation::Invalid, true), Err(Failure::Configure));
    assert_eq!(accept_validation(Validation::Invalid, false), Err(Failure::Configure));
    assert_eq!(Failure::Configure.code(), 8);
}

#[test]
fn codes_on_the_command_line() {
    let all = [FourCC::RG24, FourCC::BG24, FourCC::RA24, FourCC::BA24, FourCC::YUYV, FourCC::MJPG];
    let names = ["RG24", "BG24", "RA24", "BA24", "YUYV", "MJPG"];
    for (code, name) in all.iter().zip(names) {
        assert_eq!(code.name(), name);
        assert_eq!(FourCC::for_format(code.format()), *code);
    }
    assert_eq!(FourCC::for_format(PixelFormat::RGB), FourCC::RG24);
    assert_eq!(FourCC::for_format(PixelFormat::BGR), FourCC::BG24);
    assert_eq!(FourCC::for_format(PixelFormat::RGBA), FourCC::RA24);
    assert_eq!(FourCC::for_format(PixelFormat::BGRA), FourCC::BA24);
    assert_eq!(FourCC::for_format(PixelFormat::YUYV), FourCC::YUYV);
    assert_eq!(FourCC::for_format(PixelFormat::MJPEG), FourCC::MJPG);
    assert_eq!(FourCC::RG24.format(), PixelFormat::RGB);
    assert_eq!(FourCC::BG24.format(), PixelFormat::BGR);
    assert_eq!(FourCC::RA24.format(), PixelFormat::RGBA);
    assert_eq!(FourCC::BA24.format(), PixelFormat::BGRA);
    assert_eq!(FourCC::YUYV.format(), PixelFormat::YUYV);
    assert_eq!(FourCC::MJPG.format(), PixelFormat::MJPEG);
}

#[test]
fn formats_as_the_camera_stack_numbers_them() {
    assert_eq!(translate_pixel_format(FourCC::RG24), u32::from_le_bytes(*b"BG24"));
    assert_eq!(translate_pixel_format(FourCC::BG24), u32::from_le_bytes(*b"RG24"));
    assert_eq!(translate_pixel_format(FourCC::RA24), u32::from_le_bytes(*b"BA24"));
    assert_eq!(translate_pixel_format(FourCC::BA24), u32::from_le_bytes(*b"RA24"));
    assert_eq!(translate_pixel_format(FourCC::YUYV), u32::from_le_bytes(*b"YUYV"));
    assert_eq!(translate_pixel_format(FourCC::MJPG), u32::from_le_bytes(*b"MJPG"));
    assert_eq!(translate_pixel_format(FourCC::MJPG), 0x4750_4a4d);
    assert_eq!(stack_code_of(PixelFormat::RGB), u32::from_le_bytes(*b"BG24"));
    assert_eq!(stack_code_of(PixelFormat::YUYV), 0x5659_5559);
}

#[test]
fn the_status_of_a_server_that_was_just_launched() {
    let cameras = vec![cam("LifeCam", "ABC123")];
    let id = full_resolve_name(&Table::new(), &cameras, "ABC123").unwrap();
    assert_eq!(id, "ABC123");
    assert_eq!(admission(&Vec::new(), &id, false), Admission::Acquire);
    let format = FourCC::RG24.format();
    assert_eq!(format, PixelFormat::RGB);
    let offered = sizes(&[(320, 240), (640, 480), (1280, 720)]);
    let size = get_closest_size(&offered, Some(640), Some(480)).unwrap();
    let mut hub = vistream::stream::Hub::new();
    let client = hub.accept();
    let reply = hub.on_read(client, vistream::stream::Read::Opcode(3)).unwrap();
    let status = vistream::protocol::camera::Status {
        enabled: reply.enabled,
        healthy: reply.healthy,
        format,
        width: size.width,
        height: size.height,
    };
    assert!(!status.enabled);
    assert!(status.healthy);
    assert_eq!(status.format, PixelFormat::RGB);
    assert_eq!((status.width, status.height), (640, 480));
}
