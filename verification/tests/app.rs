use osnip::app::{key_to_action, App, AppEvent, Command, Content, Message, PIN_APP_ID};
use osnip::ipc::PinActionKind;
use osnip::pin_id::PinId;
use osnip::pixels::RgbaImage;
use osnip::registry::PinRegistry;
use std::sync::Arc;

fn fixture_image() -> Arc<RgbaImage> {
    let raw = vec![1, 0, 0, 255, 2, 0, 0, 255];
    Arc::new(RgbaImage::from_raw(2, 1, raw).expect("fixture"))
}

fn with_window() -> (App, PinRegistry, PinId) {
    let mut app = App::new();
    let mut registry = PinRegistry::new();
    let id = registry.insert(fixture_image(), Some((20, 10)), 0, false);
    app.update(&mut registry, Message::WindowOpened { window: 5, pin_id: id });
    (app, registry, id)
}

fn act(app: &mut App, registry: &mut PinRegistry, message: Message) -> Vec<Command> {
    let mut done = Vec::new();
    for command in app.update(registry, message) {
        match command {
            Command::Transform { pin_id, image, swap_logical } => {
                let ready = Message::TransformReady {
                    pin_id,
                    image,
                    swap_logical,
                    thumbnail_written: false,
                };
                done.extend(app.update(registry, ready));
            }
            other => done.push(other),
        }
    }
    done
}

#[test]
fn a_new_pin_gets_a_window() {
    let mut app = App::default();
    let mut registry = PinRegistry::new();
    let id = registry.insert(fixture_image(), Some((20, 10)), 0, false);
    let commands = app.update(&mut registry, Message::Event(AppEvent::OpenPin(id)));
    assert_eq!(commands.len(), 1);
    assert!(matches!(
        commands[0],
        Command::OpenWindow { pin_id, width: 20, height: 10 } if pin_id == id
    ));
    let unknown = Message::Event(AppEvent::OpenPin(PinId::new(99)));
    let commands = app.update(&mut registry, unknown);
    assert_eq!(commands.len(), 1);
    assert!(matches!(commands[0], Command::Settled { pin_id } if pin_id == PinId::new(99)));
    assert_eq!(app.title(), "osnip");
    assert_eq!(PIN_APP_ID, "osnip-pin");
}

#[test]
fn a_pin_with_a_window_gets_no_second_one() {
    let (mut app, mut registry, id) = with_window();
    let commands = app.update(&mut registry, Message::Event(AppEvent::OpenPin(id)));
    assert_eq!(commands.len(), 1);
    assert!(matches!(commands[0], Command::Settled { pin_id } if pin_id == id));
}

#[test]
fn an_open_window_shows_its_pin() {
    let mut app = App::new();
    let mut registry = PinRegistry::new();
    let id = registry.insert(fixture_image(), None, 0, false);
    assert!(matches!(app.view(5), Content::NoPin));
    let commands = app.update(&mut registry, Message::WindowOpened { window: 5, pin_id: id });
    assert_eq!(commands.len(), 3);
    assert!(matches!(&commands[0], Command::ShowImage { pin_id, .. } if *pin_id == id));
    assert!(matches!(commands[1], Command::WatchWindow { window: 5, width: 2, height: 1 }));
    assert!(matches!(commands[2], Command::Settled { pin_id } if pin_id == id));
    match app.view(5) {
        Content::Image { pin_id, image } => {
            assert_eq!(pin_id, id);
            assert_eq!(image.as_raw(), fixture_image().as_raw());
        }
        other => panic!("unexpected: {other:?}"),
    }
}

#[test]
fn a_window_of_a_pin_that_is_gone_is_one_unit_in_size() {
    let mut app = App::new();
    let mut registry = PinRegistry::new();
    let message = Message::WindowOpened { window: 5, pin_id: PinId::new(3) };
    let commands = app.update(&mut registry, message);
    assert_eq!(commands.len(), 2);
    assert!(matches!(commands[0], Command::WatchWindow { window: 5, width: 1, height: 1 }));
    assert!(matches!(commands[1], Command::Settled { pin_id } if pin_id == PinId::new(3)));
    assert!(matches!(app.view(5), Content::PinGone));
}

#[test]
fn closing_a_window_closes_its_pin() {
    let (mut app, mut registry, id) = with_window();
    let commands = app.update(&mut registry, Message::WindowClosed(5));
    assert!(matches!(commands[0], Command::ForgetWindow { window: 5 }));
    assert!(matches!(commands[1], Command::DropImage { pin_id } if pin_id == id));
    assert!(registry.image(id).is_none());
    assert!(matches!(app.view(5), Content::NoPin));
    let commands = app.update(&mut registry, Message::WindowClosed(5));
    assert_eq!(commands.len(), 1);
}

#[test]
fn closing_a_pin_closes_its_window() {
    let (mut app, mut registry, id) = with_window();
    let commands = app.update(&mut registry, Message::Event(AppEvent::ClosePin(id)));
    assert_eq!(commands.len(), 3);
    assert!(matches!(commands[2], Command::CloseWindow { window: 5 }));
    assert!(app.update(&mut registry, Message::Event(AppEvent::ClosePin(id))).is_empty());
}

#[test]
fn closing_all_pins_closes_every_window() {
    let (mut app, mut registry, _) = with_window();
    let id = registry.insert(fixture_image(), None, 0, false);
    app.update(&mut registry, Message::WindowOpened { window: 3, pin_id: id });
    let commands = app.update(&mut registry, Message::Event(AppEvent::CloseAllPins));
    assert!(matches!(commands[0], Command::ForgetAllWindows));
    assert!(matches!(commands[1], Command::DropAllImages));
    assert!(matches!(commands[2], Command::CloseWindow { window: 3 }));
    assert!(matches!(commands[3], Command::CloseWindow { window: 5 }));
    assert_eq!(commands.len(), 4);
    assert!(matches!(app.view(3), Content::NoPin));
}

#[test]
fn copy_and_save_hand_out_the_pixels() {
    let (mut app, mut registry, id) = with_window();
    let copy = Message::Action { window: 5, action: PinActionKind::Copy };
    match app.update(&mut registry, copy).remove(0) {
        Command::Copy { pin_id, image } => {
            assert_eq!(pin_id, id);
            assert_eq!(image.as_raw(), fixture_image().as_raw());
        }
        other => panic!("unexpected: {other:?}"),
    }
    let save = AppEvent::PinAction { pin_id: id, action: PinActionKind::Save };
    let commands = app.update(&mut registry, Message::Event(save));
    assert!(matches!(&commands[0], Command::Save { pin_id, .. } if *pin_id == id));
}

#[test]
fn rotating_turns_the_pixels_and_the_window() {
    let (mut app, mut registry, id) = with_window();
    let rotate = Message::Action { window: 5, action: PinActionKind::RotateRight };
    let commands = act(&mut app, &mut registry, rotate);
    assert!(matches!(&commands[0], Command::ShowImage { image, .. } if image.height() == 2));
    assert!(matches!(commands[1], Command::TurnWindow { window: 5 }));
    assert_eq!(registry.logical_size(id), Some((10, 20)));
    let image = registry.image(id).expect("image");
    assert_eq!((image.width(), image.height()), (1, 2));
    assert_eq!(registry.list()[0].revision, 1);
}

#[test]
fn flipping_leaves_the_window_alone() {
    let (mut app, mut registry, id) = with_window();
    let flip = AppEvent::PinAction { pin_id: id, action: PinActionKind::FlipH };
    let commands = act(&mut app, &mut registry, Message::Event(flip));
    assert_eq!(commands.len(), 1);
    let image = registry.image(id).expect("image");
    assert_eq!(image.as_raw()[0], 2);
    let flip = AppEvent::PinAction { pin_id: id, action: PinActionKind::FlipV };
    act(&mut app, &mut registry, Message::Event(flip));
    assert_eq!(registry.list()[0].revision, 2);
}

#[test]
fn four_turns_restore_a_pin() {
    let (mut app, mut registry, id) = with_window();
    for _ in 0..4 {
        let rotate = Message::Action { window: 5, action: PinActionKind::RotateLeft };
        act(&mut app, &mut registry, rotate);
    }
    assert_eq!(registry.image(id).expect("image").as_raw(), fixture_image().as_raw());
    assert_eq!(registry.logical_size(id), Some((20, 10)));
}

#[test]
fn actions_on_nothing_do_nothing() {
    let (mut app, mut registry, id) = with_window();
    let elsewhere = Message::Action { window: 6, action: PinActionKind::Copy };
    assert!(app.update(&mut registry, elsewhere).is_empty());
    registry.close(id);
    let gone = Message::Action { window: 5, action: PinActionKind::RotateLeft };
    assert!(app.update(&mut registry, gone).is_empty());
    let late = Message::TransformReady {
        pin_id: id,
        image: fixture_image(),
        swap_logical: true,
        thumbnail_written: true,
    };
    assert!(app.update(&mut registry, late).is_empty());
    assert!(app.update(&mut registry, Message::AsyncDone).is_empty());
}

#[test]
fn keys_stand_for_actions() {
    assert_eq!(key_to_action("c", true, false), Some(PinActionKind::Copy));
    assert_eq!(key_to_action("C", true, false), Some(PinActionKind::Copy));
    assert_eq!(key_to_action("s", true, false), Some(PinActionKind::Save));
    assert_eq!(key_to_action("S", true, false), Some(PinActionKind::Save));
    assert_eq!(key_to_action("]", false, false), Some(PinActionKind::RotateRight));
    assert_eq!(key_to_action("[", false, false), Some(PinActionKind::RotateLeft));
    assert_eq!(key_to_action("h", false, false), Some(PinActionKind::FlipH));
    assert_eq!(key_to_action("H", false, false), Some(PinActionKind::FlipH));
    assert_eq!(key_to_action("v", false, false), Some(PinActionKind::FlipV));
    assert_eq!(key_to_action("V", false, false), Some(PinActionKind::FlipV));
    assert_eq!(key_to_action("c", false, false), None);
    assert_eq!(key_to_action("c", true, true), None);
    assert_eq!(key_to_action("h", true, false), None);
    assert_eq!(key_to_action("]", false, true), None);
    assert_eq!(key_to_action("cc", true, false), None);
}
