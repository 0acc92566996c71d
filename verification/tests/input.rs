use pdb_tui::gpu::camera::CameraController;
use pdb_tui::gpu::input::{UnifiedEvent, UnifiedKeyCode, UnifiedKeyKind};
use pdb_tui::gpu::state_windowless::{
    alpha_chars, pad_bytes_to_256, pad_width_to_64, unpad_rows, ValidGridSize,
};
use pdb_tui::rasterizer::{Color, ColoredChar};
use pdb_tui::scalar::Scalar;
use pdb_tui::tui::event::{Event, KeyCode, KeyEvent, KeyEventKind};

fn is_space(event: UnifiedEvent) -> bool {
    matches!(event.keycode, UnifiedKeyCode::Space)
}

fn key(code: KeyCode, kind: KeyEventKind) -> Event {
    Event::Key(KeyEvent { code, kind })
}

fn pressed(keycode: UnifiedKeyCode) -> UnifiedEvent {
    UnifiedEvent { keycode, kind: UnifiedKeyKind::Press }
}

#[test]
pub fn input_test_tui_event_conversion() {
    let space_event = key(KeyCode::Char(' '), KeyEventKind::Press);
    assert!(is_space((&space_event).into()));

    let random_event = key(KeyCode::Char('q'), KeyEventKind::Press);
    assert!(!is_space((&random_event).into()));
}

#[test]
fn every_known_key_is_unified() {
    let table = [
        (KeyCode::Char('q'), UnifiedKeyCode::Q),
        (KeyCode::Char('h'), UnifiedKeyCode::H),
        (KeyCode::Char('j'), UnifiedKeyCode::J),
        (KeyCode::Char('k'), UnifiedKeyCode::K),
        (KeyCode::Char('l'), UnifiedKeyCode::L),
        (KeyCode::Char('u'), UnifiedKeyCode::U),
        (KeyCode::Char('d'), UnifiedKeyCode::D),
        (KeyCode::Char(' '), UnifiedKeyCode::Space),
        (KeyCode::Esc, UnifiedKeyCode::Esc),
        (KeyCode::Up, UnifiedKeyCode::Up),
        (KeyCode::Down, UnifiedKeyCode::Down),
        (KeyCode::Left, UnifiedKeyCode::Left),
        (KeyCode::Right, UnifiedKeyCode::Right),
        (KeyCode::Char('Q'), UnifiedKeyCode::Unknown),
        (KeyCode::Char('x'), UnifiedKeyCode::Unknown),
        (KeyCode::Other, UnifiedKeyCode::Unknown),
    ];
    for (code, expected) in table {
        let event = UnifiedEvent::from(&key(code, KeyEventKind::Release));
        assert_eq!(event, UnifiedEvent { keycode: expected, kind: UnifiedKeyKind::Release });
    }
    assert_eq!(UnifiedEvent::from(&key(KeyCode::Up, KeyEventKind::Press)).kind, UnifiedKeyKind::Press);
    assert_eq!(
        UnifiedEvent::from(&key(KeyCode::Up, KeyEventKind::Repeat)).kind,
        UnifiedKeyKind::Unknown
    );
    assert_eq!(
        UnifiedEvent::from(&Event::Other),
        UnifiedEvent { keycode: UnifiedKeyCode::Unknown, kind: UnifiedKeyKind::Unknown }
    );
}

#[test]
fn keys_hold_and_release_the_directions_of_the_camera() {
    let speed = Scalar::from_bits(0.2f32.to_bits());
    let mut controller = CameraController::new(speed, speed);
    assert!(controller.process_events(pressed(UnifiedKeyCode::K)));
    assert!(controller.process_events(pressed(UnifiedKeyCode::Left)));
    assert!(controller.process_events(pressed(UnifiedKeyCode::U)));
    assert!(controller.is_up_pressed && controller.is_left_pressed && controller.is_forward_pressed);
    assert!(!controller.is_down_pressed && !controller.is_right_pressed);
    assert!(!controller.process_events(pressed(UnifiedKeyCode::Q)));
    assert!(!controller.process_events(pressed(UnifiedKeyCode::Space)));
    assert!(controller
        .process_events(UnifiedEvent { keycode: UnifiedKeyCode::Up, kind: UnifiedKeyKind::Release }));
    assert!(!controller.is_up_pressed);
    assert!(controller.process_events(pressed(UnifiedKeyCode::J)));
    assert!(controller.process_events(pressed(UnifiedKeyCode::L)));
    assert!(controller.process_events(pressed(UnifiedKeyCode::D)));
    assert!(controller.is_down_pressed && controller.is_right_pressed && controller.is_backward_pressed);
    controller.reset_velocity();
    assert_eq!(controller, CameraController::new(speed, speed));
}

#[test]
fn grids_are_powers_of_two_twice_as_high_as_wide() {
    let grid = ValidGridSize::new(16, 32);
    assert_eq!((grid.width(), grid.height()), (16, 32));
    let grid = ValidGridSize::new(1, 2);
    assert_eq!((grid.width(), grid.height()), (1, 2));
    let grid = ValidGridSize::new(1, 1);
    assert_eq!((grid.width(), grid.height()), (1, 1));
    for (width, height) in [(16, 16), (3, 6), (12, 24), (0, 0), (2, 1), (0x8000_0000, 0), (5, 7)] {
        let grid = ValidGridSize::new(width, height);
        assert_eq!((grid.width(), grid.height()), (1, 1), "{width} {height}");
    }
    let grid = ValidGridSize::new(0x4000_0000, 0x8000_0000);
    assert_eq!((grid.width(), grid.height()), (0x4000_0000, 0x8000_0000));
}

#[test]
fn buffers_are_padded_to_whole_rows() {
    assert_eq!(pad_bytes_to_256(0), 0);
    assert_eq!(pad_bytes_to_256(1), 256);
    assert_eq!(pad_bytes_to_256(256), 256);
    assert_eq!(pad_bytes_to_256(257), 512);
    assert_eq!(pad_bytes_to_256(0xffff_ff00), 0xffff_ff00);
    assert_eq!(pad_width_to_64(0), 0);
    assert_eq!(pad_width_to_64(63), 64);
    assert_eq!(pad_width_to_64(64), 64);
    assert_eq!(pad_width_to_64(65), 128);
    assert_eq!(pad_width_to_64(320), 320);
}

#[test]
fn only_pressed_keys_have_a_code() {
    assert_eq!(UnifiedKeyCode::from(key(KeyCode::Char(' '), KeyEventKind::Press)), UnifiedKeyCode::Space);
    assert_eq!(UnifiedKeyCode::from(key(KeyCode::Left, KeyEventKind::Press)), UnifiedKeyCode::Left);
    assert_eq!(UnifiedKeyCode::from(key(KeyCode::Char('d'), KeyEventKind::Press)), UnifiedKeyCode::D);
    assert_eq!(UnifiedKeyCode::from(key(KeyCode::Esc, KeyEventKind::Press)), UnifiedKeyCode::Unknown);
    assert_eq!(UnifiedKeyCode::from(key(KeyCode::Char('q'), KeyEventKind::Release)), UnifiedKeyCode::Unknown);
    assert_eq!(UnifiedKeyCode::from(key(KeyCode::Char('q'), KeyEventKind::Repeat)), UnifiedKeyCode::Unknown);
    assert_eq!(UnifiedKeyCode::from(Event::Other), UnifiedKeyCode::Unknown);
}

#[test]
fn padding_is_taken_off_the_rows_that_are_read_back() {
    // Two rows of three pixels, each padded to 64 pixels of four bytes.
    let mut image = vec![0u8; 2 * 256];
    for k in 0..12 {
        image[k] = 10 + k as u8;
        image[256 + k] = 50 + k as u8;
    }
    let pixels = unpad_rows(&image, 3);
    let expected: Vec<u8> = (10..22).chain(50..62).collect();
    assert_eq!(pixels, expected);
    assert!(unpad_rows(&[], 3).is_empty());
    let wide = vec![7u8; 512];
    assert_eq!(unpad_rows(&wide, 65).len(), 260);

    let chars = alpha_chars(&[0, 0, 0, b'a', 0, 0, 0, b'#']);
    assert_eq!(
        chars,
        vec![
            ColoredChar { symbol: 'a', color: Color::Red },
            ColoredChar { symbol: '#', color: Color::Red }
        ]
    );
    let grid = ValidGridSize::new(2, 4);
    assert_eq!(grid.render_size(80, 24), (160, 96));
}
