use metronome::controller::{
    get_binding, init_keybindings, BindingState, ControllerMsg, ControllerState,
};

#[test]
fn controller_multichar_binding_test() {
    let bindings = init_keybindings();

    // Type in the left arrow key, character by character.
    let mut left = vec![];
    assert_eq!(get_binding(&left, &bindings), BindingState::Start);
    left.push(0x1B as u8);
    assert_eq!(get_binding(&left, &bindings), BindingState::Start);
    left.push(91 as u8);
    assert_eq!(get_binding(&left, &bindings), BindingState::Start);
    left.push('X' as u8);
    assert_eq!(get_binding(&left, &bindings), BindingState::Invalid);
    left.pop();
    left.push('D' as u8);
    match get_binding(&left, &bindings) {
        BindingState::Complete(_) => (),
        _ => panic!("Didn't recognize binding"),
    };
}

#[test]
fn met_controller_multichar_binding_test() {
    let bindings = init_keybindings();

    // Type in the left arrow key, character by character.
    let mut left = vec![];
    assert_eq!(get_binding(&left, &bindings), BindingState::Start);
    left.push(0x1B as u8);
    assert_eq!(get_binding(&left, &bindings), BindingState::Start);
    left.push(91 as u8);
    assert_eq!(get_binding(&left, &bindings), BindingState::Start);
    left.push('X' as u8);
    assert_eq!(get_binding(&left, &bindings), BindingState::Invalid);
    left.pop();
    left.push('D' as u8);
    match get_binding(&left, &bindings) {
        BindingState::Complete(_) => (),
        _ => panic!("Didn't recognize binding"),
    };
}

#[test]
fn escape_sequence_send_test() {
    // Left arrow, byte by byte: two partial matches, then the command;
    // then a dead end resets the buffer, so a plain `q` still quits.
    let mut ctl = ControllerState::new();
    assert_eq!(ctl.send(0x1B), None);
    assert_eq!(ctl.send(b'['), None);
    assert_eq!(ctl.send(b'D'), Some(ControllerMsg::AdjustTempo(-1)));

    assert_eq!(ctl.send(0x1B), None);
    assert_eq!(ctl.send(b'['), None);
    assert_eq!(ctl.send(b'X'), None);
    assert_eq!(ctl.send(b'q'), Some(ControllerMsg::Quit));
}

#[test]
fn single_byte_send_test() {
    let mut ctl = ControllerState::new();
    assert_eq!(ctl.send(b'p'), Some(ControllerMsg::Pause));
    assert_eq!(ctl.send(b'P'), Some(ControllerMsg::Play));
    assert_eq!(ctl.send(b' '), Some(ControllerMsg::Toggle));
    assert_eq!(ctl.send(b'.'), Some(ControllerMsg::Sync));
    assert_eq!(ctl.send(b','), Some(ControllerMsg::TapMode));
    assert_eq!(ctl.send(b'\''), Some(ControllerMsg::SetMode(None)));
    assert_eq!(ctl.send(b'7'), Some(ControllerMsg::SetMode(Some(7))));
    assert_eq!(ctl.send(b'k'), Some(ControllerMsg::AdjustVolume(1)));
    assert_eq!(ctl.send(0x03), Some(ControllerMsg::Quit));
    // An unbound byte matches nothing and emits nothing.
    assert_eq!(ctl.send(b'z'), None);
}
