use vstd::prelude::*;
use vstd::string::StringSliceAdditionalSpecFns;
use crate::joypad::JoypadButton;

verus! {

/// The button that a keyboard key name stands for, given the name's UTF-8
/// bytes: "a"/"z" → A, "b"/"x" → B, "select"/"Shift" → Select,
/// "start"/"Enter" → Start, "right"/"ArrowRight", "left"/"ArrowLeft",
/// "up"/"ArrowUp", "down"/"ArrowDown" → the directions; anything else none.
pub open spec fn key_button(key: Seq<u8>) -> Option<JoypadButton> {
    if key == seq![0x61u8] || key == seq![0x7Au8] {
        Some(JoypadButton::A)
    } else if key == seq![0x62u8] || key == seq![0x78u8] {
        Some(JoypadButton::B)
    } else if key == seq![0x73u8, 0x65, 0x6C, 0x65, 0x63, 0x74] || key == seq![0x53u8, 0x68, 0x69, 0x66, 0x74] {
        Some(JoypadButton::Select)
    } else if key == seq![0x73u8, 0x74, 0x61, 0x72, 0x74] || key == seq![0x45u8, 0x6E, 0x74, 0x65, 0x72] {
        Some(JoypadButton::Start)
    } else if key == seq![0x72u8, 0x69, 0x67, 0x68, 0x74] || key == seq![
        0x41u8,
        0x72,
        0x72,
        0x6F,
        0x77,
        0x52,
        0x69,
        0x67,
        0x68,
        0x74,
    ] {
        Some(JoypadButton::Right)
    } else if key == seq![0x6Cu8, 0x65, 0x66, 0x74] || key == seq![
        0x41u8,
        0x72,
        0x72,
        0x6F,
        0x77,
        0x4C,
        0x65,
        0x66,
        0x74,
    ] {
        Some(JoypadButton::Left)
    } else if key == seq![0x75u8, 0x70] || key == seq![0x41u8, 0x72, 0x72, 0x6F, 0x77, 0x55, 0x70] {
        Some(JoypadButton::Up)
    } else if key == seq![0x64u8, 0x6F, 0x77, 0x6E] || key == seq![
        0x41u8,
        0x72,
        0x72,
        0x6F,
        0x77,
        0x44,
        0x6F,
        0x77,
        0x6E,
    ] {
        Some(JoypadButton::Down)
    } else {
        None
    }
}

/// Whether two byte strings are equal.
fn bytes_eq(a: &[u8], b: &[u8]) -> (r: bool)
    ensures
        r == (a@ == b@),
{
    if a.len() != b.len() {
        return false;
    }
    let mut i: usize = 0;
    while i < a.len()
        invariant
            a@.len() == b@.len(),
            i <= a@.len(),
            forall|j: int| 0 <= j < i ==> a@[j] == b@[j],
        decreases a@.len() - i,
    {
        if a[i] != b[i] {
            return false;
        }
        i = i + 1;
    }
    assert(a@ =~= b@);
    true
}

/// Maps a keyboard key name to the button it controls.
pub fn str_to_button(key: &str) -> (b: Option<JoypadButton>)
    ensures
        b == key_button(key.spec_bytes()),
{
    let k = key.as_bytes();
    let a: [u8; 1] = [0x61];
    let z: [u8; 1] = [0x7A];
    let bb: [u8; 1] = [0x62];
    let x: [u8; 1] = [0x78];
    let select: [u8; 6] = [0x73, 0x65, 0x6C, 0x65, 0x63, 0x74];
    let shift: [u8; 5] = [0x53, 0x68, 0x69, 0x66, 0x74];
    let start: [u8; 5] = [0x73, 0x74, 0x61, 0x72, 0x74];
    let enter: [u8; 5] = [0x45, 0x6E, 0x74, 0x65, 0x72];
    let right: [u8; 5] = [0x72, 0x69, 0x67, 0x68, 0x74];
    let arrow_right: [u8; 10] = [0x41, 0x72, 0x72, 0x6F, 0x77, 0x52, 0x69, 0x67, 0x68, 0x74];
    let left: [u8; 4] = [0x6C, 0x65, 0x66, 0x74];
    let arrow_left: [u8; 9] = [0x41, 0x72, 0x72, 0x6F, 0x77, 0x4C, 0x65, 0x66, 0x74];
    let up: [u8; 2] = [0x75, 0x70];
    let arrow_up: [u8; 7] = [0x41, 0x72, 0x72, 0x6F, 0x77, 0x55, 0x70];
    let down: [u8; 4] = [0x64, 0x6F, 0x77, 0x6E];
    let arrow_down: [u8; 9] = [0x41, 0x72, 0x72, 0x6F, 0x77, 0x44, 0x6F, 0x77, 0x6E];
    proof {
        assert(a@ =~= seq![0x61u8]);
        assert(z@ =~= seq![0x7Au8]);
        assert(bb@ =~= seq![0x62u8]);
        assert(x@ =~= seq![0x78u8]);
        assert(select@ =~= seq![0x73u8, 0x65, 0x6C, 0x65, 0x63, 0x74]);
        assert(shift@ =~= seq![0x53u8, 0x68, 0x69, 0x66, 0x74]);
        assert(start@ =~= seq![0x73u8, 0x74, 0x61, 0x72, 0x74]);
        assert(enter@ =~= seq![0x45u8, 0x6E, 0x74, 0x65, 0x72]);
        assert(right@ =~= seq![0x72u8, 0x69, 0x67, 0x68, 0x74]);
        assert(arrow_right@ =~= seq![0x41u8, 0x72, 0x72, 0x6F, 0x77, 0x52, 0x69, 0x67, 0x68, 0x74]);
        assert(left@ =~= seq![0x6Cu8, 0x65, 0x66, 0x74]);
        assert(arrow_left@ =~= seq![0x41u8, 0x72, 0x72, 0x6F, 0x77, 0x4C, 0x65, 0x66, 0x74]);
        assert(up@ =~= seq![0x75u8, 0x70]);
        assert(arrow_up@ =~= seq![0x41u8, 0x72, 0x72, 0x6F, 0x77, 0x55, 0x70]);
        assert(down@ =~= seq![0x64u8, 0x6F, 0x77, 0x6E]);
        assert(arrow_down@ =~= seq![0x41u8, 0x72, 0x72, 0x6F, 0x77, 0x44, 0x6F, 0x77, 0x6E]);
    }
    if bytes_eq(k, &a) || bytes_eq(k, &z) {
        Some(JoypadButton::A)
    } else if bytes_eq(k, &bb) || bytes_eq(k, &x) {
        Some(JoypadButton::B)
    } else if bytes_eq(k, &select) || bytes_eq(k, &shift) {
        Some(JoypadButton::Select)
    } else if bytes_eq(k, &start) || bytes_eq(k, &enter) {
        Some(JoypadButton::Start)
    } else if bytes_eq(k, &right) || bytes_eq(k, &arrow_right) {
        Some(JoypadButton::Right)
    } else if bytes_eq(k, &left) || bytes_eq(k, &arrow_left) {
        Some(JoypadButton::Left)
    } else if bytes_eq(k, &up) || bytes_eq(k, &arrow_up) {
        Some(JoypadButton::Up)
    } else if bytes_eq(k, &down) || bytes_eq(k, &arrow_down) {
        Some(JoypadButton::Down)
    } else {
        None
    }
}

} // verus!
