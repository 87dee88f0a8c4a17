use capture_resources::registry::{
    bounding_rect, error_message, Bounds, CaptureRegistry, DisplayRegion, Enumeration,
    OpenedDisplay, RegistryError,
};
use std::cell::Cell;
use std::rc::Rc;

fn display(x: i32, y: i32, width: usize, height: usize, tag: u32) -> OpenedDisplay<u32> {
    OpenedDisplay { origin: (x, y), width, height, capturer: tag }
}

fn two_displays() -> Enumeration<u32> {
    Enumeration {
        primary: 1,
        displays: vec![display(0, 0, 1920, 1080, 10), display(1920, 0, 1280, 1024, 11)],
    }
}

#[test]
fn bounds_span_two_displays_side_by_side() {
    let e = two_displays();
    assert_eq!(
        bounding_rect(&e.displays),
        Some(Bounds { min_x: 0, max_x: 3200, min_y: 0, max_y: 1080 })
    );
}

#[test]
fn bounds_follow_negative_origins() {
    let displays = vec![
        display(-1280, 200, 1280, 1024, 0),
        display(0, 0, 2560, 1440, 1),
        display(2560, -300, 1080, 1920, 2),
    ];
    assert_eq!(
        bounding_rect(&displays),
        Some(Bounds { min_x: -1280, max_x: 3640, min_y: -300, max_y: 1620 })
    );
}

#[test]
fn bounds_of_one_display_are_its_edges() {
    let displays = vec![display(5, 7, 100, 50, 0)];
    assert_eq!(bounding_rect(&displays), Some(Bounds { min_x: 5, max_x: 105, min_y: 7, max_y: 57 }));
}

#[test]
fn no_displays_have_no_bounds() {
    let displays: Vec<OpenedDisplay<u32>> = Vec::new();
    assert_eq!(bounding_rect(&displays), None);
}

#[test]
fn a_display_beyond_the_coordinates_has_no_bounds() {
    assert_eq!(bounding_rect(&vec![display(i32::MAX, 0, 1, 1, 0)]), None);
    assert_eq!(bounding_rect(&vec![display(0, 0, 1, usize::MAX, 0)]), None);
    assert_eq!(bounding_rect(&vec![display(0, 0, 10, 10, 0), display(1, i32::MAX, 1, 1, 1)]), None);
    assert_eq!(
        bounding_rect(&vec![display(i32::MAX, i32::MAX, 0, 0, 0)]),
        Some(Bounds { min_x: i32::MAX, max_x: i32::MAX, min_y: i32::MAX, max_y: i32::MAX })
    );
    assert_eq!(
        bounding_rect(&vec![display(i32::MIN, 0, 0x8000_0000, 1, 0)]),
        Some(Bounds { min_x: i32::MIN, max_x: 0, min_y: 0, max_y: 1 })
    );
}

#[test]
fn a_new_registry_is_empty() {
    let r: CaptureRegistry<u32> = CaptureRegistry::new();
    assert!(!r.is_populated());
    assert!(r.needs_enumeration(false));
    assert!(!r.needs_enumeration(true));
    assert!(r.has_pending_selection(false));
    assert!(!r.has_pending_selection(true));
    assert_eq!(r.get_displays(), Err(RegistryError::NotInitialized));
    assert_eq!(r.get_primary(), Err(RegistryError::NotInitialized));
    assert!(matches!(r.get_capturer(false, 0), Err(RegistryError::NotInitialized)));
}

#[test]
fn the_first_initialization_takes_the_enumeration_in() {
    let mut r: CaptureRegistry<u32> = CaptureRegistry::new();
    let out = r.ensure_inited(false, Some(two_displays()));
    assert_eq!(out, Ok(Some(Bounds { min_x: 0, max_x: 3200, min_y: 0, max_y: 1080 })));
    assert!(r.is_populated());
    assert!(!r.needs_enumeration(false));
    assert!(!r.has_pending_selection(false));
    assert_eq!(r.get_primary(), Ok(1));
    assert_eq!(
        r.get_displays(),
        Ok(vec![
            DisplayRegion { x: 0, y: 0, width: 1920, height: 1080, index: 0 },
            DisplayRegion { x: 1920, y: 0, width: 1280, height: 1024, index: 1 },
        ])
    );
}

#[test]
fn a_second_initialization_changes_nothing() {
    let mut r: CaptureRegistry<u32> = CaptureRegistry::new();
    assert!(r.check_init(false, Some(two_displays())).is_ok());
    let other = Enumeration { primary: 0, displays: vec![display(0, 0, 800, 600, 99)] };
    assert_eq!(r.check_init(false, Some(other)), Ok(None));
    assert_eq!(r.check_init(false, None), Ok(None));
    assert_eq!(r.get_primary(), Ok(1));
    match r.get_capturer(false, 0) {
        Ok(info) => assert_eq!(*info.capturer, 10),
        Err(_) => panic!("the first display lost its capturer"),
    }
    match r.get_capturer(false, 1) {
        Ok(info) => assert_eq!(*info.capturer, 11),
        Err(_) => panic!("the second display lost its capturer"),
    }
}

#[test]
fn a_failed_initialization_leaves_the_registry_empty() {
    let mut r: CaptureRegistry<u32> = CaptureRegistry::new();
    assert_eq!(r.check_init(false, None), Err(RegistryError::CaptureUnavailable));
    assert!(!r.is_populated());
    let mut bad = two_displays();
    bad.primary = 2;
    assert_eq!(r.check_init(false, Some(bad)), Err(RegistryError::InvalidPrimary));
    assert!(!r.is_populated());
    assert!(r.needs_enumeration(false));
    assert_eq!(r.get_primary(), Err(RegistryError::NotInitialized));
    assert!(r.check_init(false, Some(two_displays())).is_ok());
    assert!(r.is_populated());
}

#[test]
fn the_primary_display_has_a_capturer() {
    for primary in [0usize, 1] {
        let mut r: CaptureRegistry<u32> = CaptureRegistry::new();
        let mut e = two_displays();
        e.primary = primary;
        assert!(r.check_init(false, Some(e)).is_ok());
        assert_eq!(r.get_primary(), Ok(primary));
        assert!(r.get_capturer(false, primary).is_ok());
    }
    let mut r: CaptureRegistry<u32> = CaptureRegistry::new();
    let mut e = two_displays();
    e.primary = usize::MAX;
    assert_eq!(r.check_init(false, Some(e)), Err(RegistryError::InvalidPrimary));
}

#[test]
fn displays_beyond_the_coordinates_populate_without_bounds() {
    let mut r: CaptureRegistry<u32> = CaptureRegistry::new();
    let wide = Enumeration {
        primary: 1,
        displays: vec![display(0, 0, 800, 600, 1), display(i32::MAX, 0, 800, 600, 2)],
    };
    assert_eq!(r.check_init(false, Some(wide)), Ok(None));
    assert!(r.is_populated());
    assert_eq!(r.get_primary(), Ok(1));
    match r.get_capturer(false, 1) {
        Ok(info) => {
            assert_eq!(info.origin, (i32::MAX, 0));
            assert_eq!(*info.capturer, 2);
        },
        Err(_) => panic!("display 1 has a capturer"),
    }
}

#[test]
fn an_enumeration_without_displays_populates_without_bounds() {
    let mut r: CaptureRegistry<u32> = CaptureRegistry::new();
    let none = Enumeration { primary: 0, displays: Vec::new() };
    assert_eq!(r.check_init(false, Some(none)), Ok(None));
    assert!(r.is_populated());
    assert_eq!(r.get_primary(), Ok(0));
    assert_eq!(r.get_displays(), Ok(Vec::new()));
    assert!(matches!(r.get_capturer(false, 0), Err(RegistryError::InvalidIndex)));
}

#[test]
fn under_the_legacy_server_nothing_is_initialized() {
    let mut r: CaptureRegistry<u32> = CaptureRegistry::new();
    assert_eq!(r.check_init(true, Some(two_displays())), Ok(None));
    assert_eq!(r.check_init(true, None), Ok(None));
    assert!(!r.is_populated());
    assert!(r.is_inited(true).is_none());
    assert!(matches!(r.get_capturer(true, 0), Err(RegistryError::WrongDisplayServer)));
}

#[test]
fn a_capturer_comes_with_the_place_of_its_display() {
    let mut r: CaptureRegistry<u32> = CaptureRegistry::new();
    assert!(r.check_init(false, Some(two_displays())).is_ok());
    match r.get_capturer(false, 1) {
        Ok(info) => {
            assert_eq!(info.origin, (1920, 0));
            assert_eq!(info.width, 1280);
            assert_eq!(info.height, 1024);
            assert_eq!(info.ndisplay, 2);
            assert_eq!(info.current, 1);
            assert_eq!(info.privacy_mode_id, 0);
            assert_eq!(*info.capturer, 11);
        },
        Err(_) => panic!("display 1 has a capturer"),
    }
}

#[test]
fn an_index_beyond_the_displays_is_invalid() {
    let mut r: CaptureRegistry<u32> = CaptureRegistry::new();
    assert!(r.check_init(false, Some(two_displays())).is_ok());
    assert!(matches!(r.get_capturer(false, 2), Err(RegistryError::InvalidIndex)));
    assert!(matches!(r.get_capturer(false, usize::MAX), Err(RegistryError::InvalidIndex)));
    assert!(matches!(r.get_capturer(true, 2), Err(RegistryError::WrongDisplayServer)));
    assert!(r.is_populated());
    assert!(r.get_capturer(false, 1).is_ok());
}

#[test]
fn two_requests_for_one_index_reach_the_same_capturer() {
    let e = Enumeration {
        primary: 0,
        displays: vec![
            OpenedDisplay { origin: (0, 0), width: 10, height: 10, capturer: Rc::new(Cell::new(0u32)) },
            OpenedDisplay { origin: (10, 0), width: 10, height: 10, capturer: Rc::new(Cell::new(0u32)) },
        ],
    };
    let mut r: CaptureRegistry<Rc<Cell<u32>>> = CaptureRegistry::new();
    assert!(r.check_init(false, Some(e)).is_ok());
    let first = match r.get_capturer(false, 1) {
        Ok(info) => info.capturer.clone(),
        Err(_) => panic!("display 1 has a capturer"),
    };
    let second = match r.get_capturer(false, 1) {
        Ok(info) => info.capturer.clone(),
        Err(_) => panic!("display 1 has a capturer"),
    };
    let other = match r.get_capturer(false, 0) {
        Ok(info) => info.capturer.clone(),
        Err(_) => panic!("display 0 has a capturer"),
    };
    assert!(Rc::ptr_eq(&first, &second));
    assert!(!Rc::ptr_eq(&first, &other));
    first.set(42);
    assert_eq!(second.get(), 42);
    assert_eq!(other.get(), 0);
}

#[test]
fn clearing_takes_every_capturer_away_until_the_next_initialization() {
    let handle = Rc::new(Cell::new(0u32));
    let e = Enumeration {
        primary: 0,
        displays: vec![OpenedDisplay { origin: (0, 0), width: 10, height: 10, capturer: handle.clone() }],
    };
    let mut r: CaptureRegistry<Rc<Cell<u32>>> = CaptureRegistry::new();
    assert!(r.check_init(false, Some(e)).is_ok());
    assert_eq!(Rc::strong_count(&handle), 2);
    assert!(r.get_capturer(false, 0).is_ok());
    r.clear(false);
    assert_eq!(Rc::strong_count(&handle), 1);
    assert!(!r.is_populated());
    assert!(matches!(r.get_capturer(false, 0), Err(RegistryError::NotInitialized)));
    assert_eq!(r.get_primary(), Err(RegistryError::NotInitialized));
    assert!(r.has_pending_selection(false));
    let again = Enumeration {
        primary: 0,
        displays: vec![OpenedDisplay { origin: (0, 0), width: 10, height: 10, capturer: handle.clone() }],
    };
    assert!(r.ensure_inited(false, Some(again)).is_ok());
    assert!(r.get_capturer(false, 0).is_ok());
}

#[test]
fn clearing_under_the_legacy_server_does_nothing() {
    let mut r: CaptureRegistry<u32> = CaptureRegistry::new();
    assert!(r.check_init(false, Some(two_displays())).is_ok());
    r.clear(true);
    assert!(r.is_populated());
    assert!(r.get_capturer(false, 0).is_ok());
    r.clear(false);
    assert!(!r.is_populated());
    r.clear(false);
    assert!(!r.is_populated());
}

#[test]
fn the_prompt_asks_for_a_screen_while_none_is_shared() {
    let mut r: CaptureRegistry<u32> = CaptureRegistry::new();
    match r.is_inited(false) {
        Some(p) => {
            assert_eq!(p.msgtype, "nook-nocancel-hasclose");
            assert_eq!(p.title, "Wayland");
            assert_eq!(p.text, "Please Select the screen to be shared(Operate on the peer side).");
            assert_eq!(p.link, "");
        },
        None => panic!("an empty registry asks for a screen"),
    }
    assert!(r.is_inited(true).is_none());
    assert!(r.check_init(false, Some(two_displays())).is_ok());
    assert!(r.is_inited(false).is_none());
}

#[test]
fn every_refusal_has_its_words() {
    assert_eq!(error_message(RegistryError::InvalidIndex), "Invalid capturer index");
    assert_eq!(error_message(RegistryError::NotInitialized), "Failed to get capturer display info");
    assert_eq!(
        error_message(RegistryError::WrongDisplayServer),
        "Do not call this function if not wayland"
    );
    assert_eq!(error_message(RegistryError::CaptureUnavailable), "Failed to open the displays");
    assert_eq!(error_message(RegistryError::InvalidPrimary), "Invalid primary display index");
}

#[test]
fn many_initializations_keep_the_first_enumeration() {
    let mut r: CaptureRegistry<u32> = CaptureRegistry::new();
    let mut enumerations = 0;
    for call in 0..5u32 {
        let enumeration = if r.needs_enumeration(false) {
            enumerations += 1;
            Some(Enumeration { primary: 0, displays: vec![display(0, 0, 640, 480, 100 + call)] })
        } else {
            None
        };
        assert!(r.ensure_inited(false, enumeration).is_ok());
        match r.get_capturer(false, 0) {
            Ok(info) => assert_eq!(*info.capturer, 100),
            Err(_) => panic!("display 0 has a capturer"),
        }
    }
    assert_eq!(enumerations, 1);
}
