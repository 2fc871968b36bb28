use bcd_clock::display::{landscape_size, landscape_to_panel};
use bcd_clock::time::{SetMode, Time};
use bcd_clock::time_sync::ConnectionState;
use bcd_clock::ui::{Info, UiType};
use bcd_clock::ui_arc::{arc_rings, arc_time_string, ArcRing};
use bcd_clock::ui_bcd::{bcd_cells, glowing_square_shapes, BcdCell, SquarePaint, SquareShape};

fn name(text: &str) -> heapless::String<32> {
    let mut s = heapless::String::<32>::new();
    s.push_str(text).unwrap();
    s
}

#[test]
fn ui_type_cycles() {
    assert_eq!(UiType::BcdTime.next(), UiType::RegularTime);
    assert_eq!(UiType::RegularTime.next(), UiType::Info);
    assert_eq!(UiType::Info.next(), UiType::BcdTime);
}

#[test]
fn new_info_knows_nothing() {
    let info = Info::new("home");
    assert_eq!(info.ssid, "home");
    assert_eq!(info.state, ConnectionState::Disconnected);
    assert_eq!(info.ip_address, None);
    assert!(info.timezone_name.is_none());
    assert_eq!(info.sync_time, None);
    assert_eq!(
        info.info_text(),
        "SSID: home\nState: Disconnected\nIP: N/A\nTZ: N/A\nSync Time: N/A"
    );
}

#[test]
fn info_text_with_everything() {
    let mut info = Info::new("home");
    info.set_state(ConnectionState::Connected);
    info.set_ip_address([192, 168, 1, 7]);
    info.set_timezone(name("Europe/Berlin"));
    info.set_sync_time(Time::new(9, 5, 0));
    assert_eq!(
        info.info_text(),
        "SSID: home\nState: Connected\nIP: 192.168.1.7\nTZ: Europe/Berlin\nSync Time: 09:05:00"
    );
    info.clear_ip_address();
    info.set_state(ConnectionState::Sleeping);
    assert_eq!(
        info.info_text(),
        "SSID: home\nState: Sleeping\nIP: N/A\nTZ: Europe/Berlin\nSync Time: 09:05:00"
    );
}

#[test]
fn info_text_stops_at_first_piece_that_does_not_fit() {
    let ssid: &'static str = "a-network-with-a-name-of-32-byte";
    assert_eq!(ssid.len(), 32);
    let mut info = Info::new(ssid);
    info.set_state(ConnectionState::Disconnected);
    info.set_ip_address([255, 255, 255, 255]);
    info.set_timezone(name("America/Argentina/ComodRivadavia"));
    info.set_sync_time(Time::new(12, 0, 0));
    // 6 + 32 + 8 + 12 + 5 + 15 + 5 + 32 + 12 = 127 bytes; the time (8 more) no longer fits
    let text = info.info_text();
    assert_eq!(
        text,
        format!(
            "SSID: {}\nState: Disconnected\nIP: 255.255.255.255\nTZ: America/Argentina/ComodRivadavia\nSync Time: ",
            ssid
        )
    );
    assert!(text.len() <= 128);
}

#[test]
fn same_as_compares_contents() {
    let mut a = Info::new("home");
    a.set_timezone(name("UTC"));
    let b = a.clone();
    assert!(a.same_as(&b));
    assert!(b.same_as(&a));
    assert_eq!(b.timezone_name.as_ref().unwrap().as_str(), "UTC");
    let mut c = a.clone();
    c.set_timezone(name("GMT"));
    assert!(!a.same_as(&c));
    let mut d = a.clone();
    d.set_ip_address([1, 1, 1, 1]);
    assert!(!a.same_as(&d));
    let mut e = a.clone();
    e.set_state(ConnectionState::Connecting);
    assert!(!a.same_as(&e));
    let f = Info::new("other");
    assert!(!Info::new("home").same_as(&f));
}

#[test]
fn landscape_pixels_land_on_the_panel() {
    assert_eq!(landscape_to_panel(0, 0), (205, 0));
    assert_eq!(landscape_to_panel(319, 171), (34, 319));
    assert_eq!(landscape_to_panel(10, 20), (185, 10));
    assert_eq!(landscape_size(), (320, 172));
}

#[test]
fn binary_face_for_12_34_56() {
    let cells = bcd_cells(&Time::new(12, 34, 56));
    assert_eq!(cells.len(), 20);
    // tens of hours: rows 2 and 3 only, digit 1
    assert_eq!(cells[0], BcdCell { column: 0, row: 2, left: 19, top: 86, is_on: false });
    assert_eq!(cells[1], BcdCell { column: 0, row: 3, left: 19, top: 129, is_on: true });
    // hours: digit 2 = 0010
    let hours: Vec<bool> = cells[2..6].iter().map(|c| c.is_on).collect();
    assert_eq!(hours, vec![false, false, true, false]);
    assert_eq!(cells[2].left, 62);
    assert_eq!(cells[2].top, 0);
    // tens of minutes: digit 3, rows 1 to 3, after the first section gap
    assert_eq!(cells[6], BcdCell { column: 2, row: 1, left: 19 + 86 + 12, top: 43, is_on: false });
    assert!(cells[7].is_on && cells[8].is_on);
    // minutes: 4 = 0100
    let minutes: Vec<bool> = cells[9..13].iter().map(|c| c.is_on).collect();
    assert_eq!(minutes, vec![false, true, false, false]);
    // tens of seconds: 5 = 101 over rows 1 to 3
    let tens: Vec<bool> = cells[13..16].iter().map(|c| c.is_on).collect();
    assert_eq!(tens, vec![true, false, true]);
    assert_eq!(cells[13].left, 19 + 4 * 43 + 24);
    // seconds: 6 = 0110
    let secs: Vec<bool> = cells[16..20].iter().map(|c| c.is_on).collect();
    assert_eq!(secs, vec![false, true, true, false]);
    assert_eq!(cells[19], BcdCell { column: 5, row: 3, left: 19 + 5 * 43 + 24, top: 129, is_on: false });
}

#[test]
fn binary_face_at_midnight_is_dark() {
    let cells = bcd_cells(&Time::new(0, 0, 0));
    assert!(cells.iter().all(|c| !c.is_on));
}

#[test]
fn lit_and_unlit_squares() {
    assert_eq!(
        glowing_square_shapes(19, 0, true),
        vec![
            SquareShape { left: 21, top: 2, size: 39, corner_radius: 8, paint: SquarePaint::Glow },
            SquareShape { left: 26, top: 7, size: 29, corner_radius: 0, paint: SquarePaint::Core },
        ]
    );
    assert_eq!(
        glowing_square_shapes(19, 0, false),
        vec![
            SquareShape { left: 19, top: 0, size: 43, corner_radius: 8, paint: SquarePaint::Background },
            SquareShape { left: 26, top: 7, size: 29, corner_radius: 8, paint: SquarePaint::InactiveOutline },
        ]
    );
}

#[test]
fn rings_for_a_time() {
    let rings = arc_rings(&Time::new(6, 30, 15));
    assert_eq!(
        rings,
        vec![
            ArcRing { left: 6, top: 6, width: 308, height: 160, radius: 60, thickness: 18, progress: 6, full_scale: 24 },
            ArcRing { left: 27, top: 27, width: 266, height: 118, radius: 39, thickness: 18, progress: 30, full_scale: 60 },
            ArcRing { left: 48, top: 48, width: 224, height: 76, radius: 18, thickness: 18, progress: 15, full_scale: 60 },
        ]
    );
}

#[test]
fn ring_text_blinks_the_field_being_set() {
    let shown = Time { hours: 7, minutes: 8, seconds: 9, milliseconds: 100 };
    let hidden = Time { hours: 7, minutes: 8, seconds: 9, milliseconds: 300 };
    assert_eq!(arc_time_string(&shown, SetMode::Idle), "07:08:09");
    assert_eq!(arc_time_string(&hidden, SetMode::Idle), "07:08:09");
    assert_eq!(arc_time_string(&shown, SetMode::SetHours), "07:08:09");
    assert_eq!(arc_time_string(&hidden, SetMode::SetHours), "  :08:09");
    assert_eq!(arc_time_string(&hidden, SetMode::SetMinutes), "07:  :09");
}

#[test]
fn ring_text_of_the_widest_time_fits_twelve_bytes() {
    let t = Time { hours: 255, minutes: 255, seconds: 255, milliseconds: 0 };
    let text = arc_time_string(&t, SetMode::Idle);
    assert_eq!(text, "255:255:255");
    assert!(text.len() <= 12);
}
