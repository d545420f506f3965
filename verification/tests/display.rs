//! The rules of the display layer.

use oxrdp::client::event::ClientEvent;
use oxrdp::client::model::{ModelChange, WindowModel};
use oxrdp::display::headless::{HeadlessBackend, HeadlessCall};
use oxrdp::display::input::{
    key_flags, keycode_to_scancode, locks, modifiers, update_buttons, ElementState, KeyCode,
    ModifiersState, MouseButton, Pointer, Scancode, SurfaceAction, WindowInput,
};
use oxrdp::display::pixels::{
    bgra_premul_to_rgba, bgra_to_rgba, cursor_rgba, frame_len, unpremul,
};
use oxrdp::display::presenter::{blit, nonzero, PresentError, Surfaces};
use oxrdp::display::windows::{NativeWindow, NativeWindows};
use oxrdp::display::{
    agent_error_event, apply_model_change, command_for_change, native_attributes, screen_outputs,
    window_spec, DisplayCommand, DisplayError, DisplayEvent,
};
use oxrdp::proto::message::input::{cursor_format, key_flag, modifier, pointer_button};
use oxrdp::proto::message::window::window_flag;
use oxrdp::proto::message::{codec, CursorShape, FrameData, WindowOpened};

fn model_with(window_id: u32, flags: u32) -> WindowModel {
    let mut model = WindowModel::new();
    model.apply(ClientEvent::WindowOpened(WindowOpened {
        window_id,
        video_channel: 16,
        pid: 1,
        app_id: "app.exe".into(),
        title: "app".into(),
        x: 10,
        y: 20,
        width: 640,
        height: 480,
        dpi: 96,
        flags,
        owner_id: 3,
    }));
    model
}

#[test]
fn changes_become_commands() {
    let model = model_with(1, window_flag::RESIZABLE);
    match command_for_change(&model, ModelChange::Created(1)) {
        Some(DisplayCommand::CreateWindow(window)) => {
            assert_eq!(window, window_spec(model.get(1).expect("window 1")));
            assert_eq!(window.owner_id, 3);
            assert!(window.resizable && !window.topmost);
        }
        other => panic!("expected a window, got {other:?}"),
    }
    assert_eq!(command_for_change(&model, ModelChange::Created(2)), None);
    assert_eq!(
        command_for_change(&model, ModelChange::Destroyed(2)),
        Some(DisplayCommand::DestroyWindow(2))
    );
    assert_eq!(
        command_for_change(&model, ModelChange::Restacked),
        Some(DisplayCommand::Restack(vec![1]))
    );
    assert_eq!(
        command_for_change(&model, ModelChange::Closed),
        Some(DisplayCommand::Shutdown)
    );
}

#[test]
fn changes_drive_a_backend() {
    let model = model_with(1, 0);
    let mut backend = HeadlessBackend::new();
    apply_model_change(&mut backend, &model, ModelChange::Created(1)).unwrap();
    apply_model_change(&mut backend, &model, ModelChange::Retitled(9)).unwrap();
    apply_model_change(&mut backend, &model, ModelChange::Closed).unwrap();
    let calls = backend.take_calls();
    assert!(matches!(
        calls.as_slice(),
        [
            HeadlessCall::Created { window_id: 1, .. },
            HeadlessCall::Closed
        ]
    ));
}

#[test]
fn a_native_window_is_what_the_guest_says() {
    let resizable = model_with(1, window_flag::RESIZABLE);
    let window = window_spec(resizable.get(1).expect("window 1"));
    let attributes = native_attributes(&window, true);
    assert!(attributes.resizable && !attributes.always_on_top);
    assert_eq!((attributes.width, attributes.height), (640, 480));
    assert_eq!(attributes.position, Some((10, 20)));

    let topmost = model_with(1, window_flag::TOPMOST);
    let window = window_spec(topmost.get(1).expect("window 1"));
    let attributes = native_attributes(&window, false);
    assert!(!attributes.resizable && attributes.always_on_top);
    assert_eq!(attributes.position, None, "only X11 lets a client say");
}

#[test]
fn screens_are_outputs() {
    let outputs = screen_outputs(&[(1920, 1080), (1280, 1024)]);
    assert_eq!(outputs.len(), 2);
    assert_eq!(
        (outputs[1].id, outputs[1].width, outputs[1].height),
        (1, 1280, 1024)
    );
    assert_eq!(outputs[1].refresh_mhz, 60_000);
    // An output's id is a byte.
    let many = screen_outputs(&[(1, 1); 300]);
    assert_eq!(many.len(), 256);
    assert_eq!(many[255].id, 255);
}

#[test]
fn errors_reach_the_session_in_words() {
    assert_eq!(
        agent_error_event(6, "capture failed"),
        DisplayEvent::BackendError {
            message: "agent error 6: capture failed".to_string(),
        }
    );
    assert_eq!(DisplayError::new("lost".to_string()).message(), "lost");
}

#[test]
fn keys_have_scancodes() {
    assert_eq!(
        keycode_to_scancode(KeyCode::KeyA),
        Some(Scancode {
            code: 0x1e,
            extended: false
        })
    );
    assert_eq!(
        keycode_to_scancode(KeyCode::ControlRight),
        Some(Scancode {
            code: 0x1d,
            extended: true
        })
    );
    // The two logo keys are told apart.
    assert_eq!(
        keycode_to_scancode(KeyCode::SuperLeft),
        Some(Scancode {
            code: 0x5b,
            extended: true
        })
    );
    assert_eq!(
        keycode_to_scancode(KeyCode::SuperRight),
        Some(Scancode {
            code: 0x5c,
            extended: true
        })
    );
    assert_eq!(keycode_to_scancode(KeyCode::Other), None);
    assert_eq!(
        key_flags(ElementState::Pressed, true),
        key_flag::PRESSED | key_flag::EXTENDED
    );
    assert_eq!(key_flags(ElementState::Released, false), 0);
}

#[test]
fn buttons_are_held_and_let_go() {
    let held = update_buttons(0, MouseButton::Left, ElementState::Pressed);
    assert_eq!(held, pointer_button::LEFT);
    let both = update_buttons(held, MouseButton::Forward, ElementState::Pressed);
    assert_eq!(both, pointer_button::LEFT | pointer_button::X2);
    assert_eq!(
        update_buttons(both, MouseButton::Left, ElementState::Released),
        pointer_button::X2
    );
    // A button the protocol does not know changes nothing.
    assert_eq!(
        update_buttons(both, MouseButton::Other(9), ElementState::Pressed),
        both
    );
}

#[test]
fn modifiers_are_a_mask() {
    assert_eq!(
        modifiers(ModifiersState {
            shift_key: true,
            control_key: false,
            alt_key: true,
            super_key: false,
        }),
        modifier::SHIFT | modifier::ALT
    );
    assert_eq!(locks(), 0);
}

#[test]
fn window_events_are_reported() {
    let mut pointer = Pointer::new();
    let moved = pointer.handle_window_event(true, 7, WindowInput::CursorMoved { x: 4, y: 5 });
    assert_eq!(
        moved,
        (
            vec![DisplayEvent::Pointer {
                window_id: 7,
                x: 4,
                y: 5,
                buttons: 0,
                wheel_x: 0,
                wheel_y: 0,
            }],
            SurfaceAction::Keep
        )
    );
    // A click happens where the pointer was last seen over that window.
    let (clicked, _) = pointer.handle_window_event(
        true,
        7,
        WindowInput::MouseInput {
            button: MouseButton::Left,
            state: ElementState::Pressed,
        },
    );
    assert_eq!(
        clicked,
        vec![DisplayEvent::Pointer {
            window_id: 7,
            x: 4,
            y: 5,
            buttons: pointer_button::LEFT,
            wheel_x: 0,
            wheel_y: 0,
        }]
    );
    // The wheel keeps the held button, and an unseen window starts at its corner.
    let (wheel, _) = pointer.handle_window_event(
        true,
        8,
        WindowInput::Wheel {
            wheel_x: 0,
            wheel_y: -120,
        },
    );
    assert_eq!(
        wheel,
        vec![DisplayEvent::Pointer {
            window_id: 8,
            x: 0,
            y: 0,
            buttons: pointer_button::LEFT,
            wheel_x: 0,
            wheel_y: -120,
        }]
    );

    // Sizes saturate, and the surface follows.
    assert_eq!(
        pointer.handle_window_event(
            true,
            7,
            WindowInput::Resized {
                width: 100_000,
                height: 50,
            }
        ),
        (
            vec![DisplayEvent::ResizeRequested {
                window_id: 7,
                width: u16::MAX,
                height: 50,
            }],
            SurfaceAction::Resize {
                width: u16::MAX,
                height: 50,
            }
        )
    );
    // Wayland has no positions to report.
    assert_eq!(
        pointer.handle_window_event(false, 7, WindowInput::Moved { x: 1, y: 2 }),
        (vec![], SurfaceAction::Keep)
    );
    assert_eq!(
        pointer
            .handle_window_event(true, 7, WindowInput::Moved { x: 1, y: 2 })
            .0,
        vec![DisplayEvent::MoveRequested {
            window_id: 7,
            x: 1,
            y: 2,
        }]
    );
    // Focus comes with the modifiers let go.
    assert_eq!(
        pointer
            .handle_window_event(true, 7, WindowInput::Focused(true))
            .0,
        vec![
            DisplayEvent::Focused {
                window_id: 7,
                focused: true,
            },
            DisplayEvent::Modifiers {
                modifiers: 0,
                locks: 0,
            }
        ]
    );
    // A key without a scancode is silent.
    assert_eq!(
        pointer
            .handle_window_event(
                true,
                7,
                WindowInput::Key {
                    code: KeyCode::Other,
                    state: ElementState::Pressed,
                }
            )
            .0,
        vec![]
    );
    assert_eq!(
        pointer.handle_window_event(true, 7, WindowInput::RedrawRequested),
        (vec![], SurfaceAction::Refresh)
    );
    assert_eq!(
        pointer
            .handle_window_event(true, 7, WindowInput::Text("a".to_string()))
            .0,
        vec![DisplayEvent::Text {
            text: "a".to_string(),
        }]
    );
    assert_eq!(
        pointer
            .handle_window_event(true, 7, WindowInput::CloseRequested)
            .0,
        vec![DisplayEvent::CloseRequested { window_id: 7 }]
    );
}

#[test]
fn pixels_change_their_format() {
    assert_eq!(frame_len(1920, 1080), Some(1920 * 1080 * 4));
    assert_eq!(
        bgra_to_rgba(&[1, 2, 3, 4], 1, 1),
        Some(vec![3, 2, 1, 4])
    );
    assert_eq!(bgra_to_rgba(&[1, 2, 3, 4], 2, 1), None);
    // Half-transparent red, premultiplied: 128 * 255 / 128.
    assert_eq!(
        bgra_premul_to_rgba(&[0, 0, 128, 128], 1, 1),
        Some(vec![255, 0, 0, 128])
    );
    assert_eq!(unpremul(10, 0), 0);
    assert_eq!(unpremul(64, 128), 127);
    assert_eq!(unpremul(200, 100), 255, "clamped");
}

#[test]
fn cursors_come_in_one_format() {
    let mut shape = CursorShape {
        cursor_id: 1,
        width: 1,
        height: 1,
        hotspot_x: 0,
        hotspot_y: 0,
        format: cursor_format::BGRA_PREMUL,
        data: vec![1, 2, 3, 255],
    };
    assert_eq!(cursor_rgba(&shape), Some(vec![3, 2, 1, 255]));
    shape.data.pop();
    assert_eq!(cursor_rgba(&shape), None);
    shape.data.push(255);
    shape.format = cursor_format::BGRA_PREMUL + 1;
    assert_eq!(cursor_rgba(&shape), None);
}

fn raw(width: u16, height: u16, data: Vec<u8>) -> FrameData {
    FrameData {
        window_id: 1,
        frame_id: 2,
        codec: codec::RAW_BGRA,
        flags: 0,
        width,
        height,
        captured_us: 0,
        encoded_us: 0,
        data,
    }
}

#[test]
fn a_frame_is_drawn_from_the_top_left() {
    let frame = raw(2, 1, vec![1, 2, 3, 4, 5, 6, 7, 8]);
    let mut surface = [9u8; 8];
    blit(&mut surface, 2, 1, &frame);
    assert_eq!(surface, [1, 2, 3, 4, 5, 6, 7, 8], "byte for byte");

    // A larger surface is black where the frame does not reach.
    let mut surface = [9u8; 24];
    blit(&mut surface, 3, 2, &frame);
    assert_eq!(surface[..8], [1, 2, 3, 4, 5, 6, 7, 8]);
    assert_eq!(surface[8..], [0; 16]);

    // A smaller one shows what fits.
    let mut surface = [9u8; 4];
    blit(&mut surface, 1, 1, &frame);
    assert_eq!(surface, [1, 2, 3, 4]);
}

#[test]
fn only_frames_that_fit_are_presented() {
    let mut surfaces = Surfaces::new();
    assert_eq!(
        surfaces.check(1, &raw(1, 1, vec![0; 4])),
        Err(PresentError::UnknownWindow(1))
    );
    surfaces.attach(1, 0, 20);
    assert_eq!(surfaces.size(1), Ok((1, 20)), "a surface is never empty");
    assert_eq!(surfaces.check(1, &raw(1, 1, vec![0; 4])), Ok((1, 20)));
    assert_eq!(
        surfaces.check(1, &raw(2, 1, vec![0; 4])),
        Err(PresentError::DroppedFrame {
            window_id: 1,
            expected: 8,
            actual: 4
        })
    );
    let mut encoded = raw(1, 1, vec![0; 4]);
    encoded.codec = codec::H264;
    assert_eq!(
        surfaces.check(1, &encoded),
        Err(PresentError::UnsupportedCodec(codec::H264))
    );

    assert_eq!(surfaces.last_frame(1), Ok(None));
    surfaces.on_presented(1, raw(1, 1, vec![7; 4]));
    assert_eq!(surfaces.last_frame(1), Ok(Some(&raw(1, 1, vec![7; 4]))));
    assert_eq!(surfaces.resize(1, 5, 6), Ok(()));
    assert_eq!(surfaces.size(1), Ok((5, 6)));
    assert_eq!(
        surfaces.resize(2, 5, 6),
        Err(PresentError::UnknownWindow(2))
    );
    surfaces.detach(1);
    assert_eq!(surfaces.last_frame(1), Err(PresentError::UnknownWindow(1)));
    assert_eq!(nonzero(0), 1);
}

#[test]
fn present_errors_read_well() {
    assert_eq!(
        PresentError::UnknownWindow(3).message(),
        "unknown display window 3"
    );
    assert_eq!(
        PresentError::UnsupportedCodec(2).message(),
        "unsupported frame codec 2"
    );
    assert_eq!(
        PresentError::DroppedFrame {
            window_id: 1,
            expected: 8,
            actual: 4
        }
        .message(),
        "dropped malformed frame for window 1: expected 8 bytes, got 4"
    );
    assert_eq!(PresentError::Platform("x".to_string()).message(), "x");
}

#[test]
fn native_windows_are_found_by_either_id() {
    let mut windows = NativeWindows::new();
    let owner = NativeWindow {
        native_id: 100,
        xid: Some(1000),
        owner_id: 0,
    };
    let child = NativeWindow {
        native_id: 200,
        xid: Some(2000),
        owner_id: 1,
    };
    assert!(windows.insert(1, owner));
    assert!(windows.insert(2, child));
    assert!(!windows.insert(2, owner), "it has one already");
    assert!(!windows.insert(3, owner), "it stands for another");
    assert_eq!(windows.find(200), Some(2));
    assert_eq!(windows.find(300), None);
    assert_eq!(windows.transient_for(2), Some((2000, 1000)));
    assert_eq!(windows.transient_for(1), None, "nobody owns it");
    assert_eq!(windows.remove(1), Some(owner));
    assert_eq!(windows.remove(1), None);
    assert_eq!(windows.find(100), None);
    assert_eq!(windows.transient_for(2), None, "its owner is gone");
    assert!(windows.contains(2) && !windows.contains(1));
}
