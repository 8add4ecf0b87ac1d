use lessbad::gdt::{build_gdt, build_tss, ist_stack_end, IST_STACK_SIZE, KERNEL_CODE64};
use lessbad::interrupts::{InterruptIdx, KeyInput, KeyMotion, KeyboardDecoder, ScannedKey, PIC_1_OFFSET, PIC_2_OFFSET};
use pc_keyboard::KeyCode;
use lessbad::testing::{test_failure_code, test_runner, QemuExitCode, RunnerAction};

#[test]
fn interrupt_vectors() {
    assert_eq!(InterruptIdx::Timer.as_u8(), 32);
    assert_eq!(InterruptIdx::Keyboard.as_u8(), 33);
    assert_eq!(InterruptIdx::Keyboard.as_usize(), 33);
    assert_eq!(PIC_1_OFFSET, 32);
    assert_eq!(PIC_2_OFFSET, 40);
}

#[test]
fn exit_codes() {
    assert_eq!(QemuExitCode::Success.value(), 0x22);
    assert_eq!(QemuExitCode::Failed.value(), 0x33472);
    assert_eq!(test_failure_code(), QemuExitCode::Failed);
}

fn all_actions(count: usize) -> Vec<RunnerAction> {
    let mut run = test_runner(count);
    let mut v = Vec::new();
    while let Some(a) = run.next_action() {
        v.push(a);
    }
    assert_eq!(run.next_action(), None);
    v
}

#[test]
fn runner_runs_each_test_once() {
    assert_eq!(
        all_actions(3),
        vec![
            RunnerAction::Announce { count: 3 },
            RunnerAction::Run { index: 0 },
            RunnerAction::Run { index: 1 },
            RunnerAction::Run { index: 2 },
            RunnerAction::Exit(QemuExitCode::Success),
        ]
    );
    assert_eq!(
        all_actions(0),
        vec![RunnerAction::Announce { count: 0 }, RunnerAction::Exit(QemuExitCode::Success)]
    );
}

#[test]
fn double_fault_stack_top() {
    assert_eq!(IST_STACK_SIZE, 20480);
    assert_eq!(ist_stack_end(0x20_0000), 0x20_5000);
    let tss = build_tss(0x20_0000);
    let ist = tss.interrupt_stack_table;
    assert_eq!(ist[0].as_u64(), 0x20_5000);
    for slot in ist.iter().skip(1) {
        assert_eq!(slot.as_u64(), 0);
    }
}

#[test]
fn descriptor_table_layout() {
    let tss: &'static x86_64::structures::tss::TaskStateSegment = Box::leak(Box::new(build_tss(0x20_0000)));
    let w = build_gdt(tss);
    assert_eq!(w.selectors.code_selector, 0x08);
    assert_eq!(w.selectors.tss_selector, 0x10);
    let raw = w.gdt.as_raw_slice();
    assert_eq!(raw.len(), 4);
    assert_eq!(raw[0], 0);
    assert_eq!(raw[1], KERNEL_CODE64);
    assert_eq!(raw[2] & 0x00ff_ff00_0000_ffff, 0x0000_8900_0000_0067);
}

#[test]
fn keyboard_decodes_letters_and_raw_keys() {
    let mut kb = KeyboardDecoder::new();
    // 0x1E: 'A' pressed.
    match kb.decode(0x1e) {
        Some(KeyInput::Unicode(c)) => assert_eq!(c, 'a'),
        other => panic!("unexpected {:?}", other),
    }
    // 0x9E: 'A' released.
    assert!(kb.decode(0x9e).is_none());
    // 0x3B: F1 pressed.
    match kb.decode(0x3b) {
        Some(KeyInput::RawKey(k)) => assert_eq!(k, pc_keyboard::KeyCode::F1),
        other => panic!("unexpected {:?}", other),
    }
}

#[test]
fn keyboard_release_codes_and_prefix_give_no_key() {
    let mut kb = KeyboardDecoder::new();
    assert!(kb.decode(0xe0).is_none());
    assert!(kb.decode(0xc8).is_none());
    for code in 0x80u8..=0xff {
        assert!(kb.decode(code).is_none());
    }
    // A press after all that still decodes.
    match kb.decode(0x1e) {
        Some(KeyInput::Unicode(c)) => assert_eq!(c, 'a'),
        other => panic!("unexpected {:?}", other),
    }
}

fn unicode(k: Option<KeyInput>) -> char {
    match k {
        Some(KeyInput::Unicode(c)) => c,
        other => panic!("unexpected {:?}", other),
    }
}

fn raw_text(k: Option<KeyInput>) -> String {
    match k {
        Some(KeyInput::RawKey(code)) => format!("{:?}", code),
        other => panic!("unexpected {:?}", other),
    }
}

#[test]
fn keyboard_shift_carries_over() {
    let mut kb = KeyboardDecoder::new();
    assert!(kb.decode(0x2a).is_none());
    assert_eq!(unicode(kb.decode(0x1e)), 'A');
    assert!(kb.decode(0xaa).is_none());
    assert_eq!(unicode(kb.decode(0x1e)), 'a');
}

#[test]
fn keyboard_ctrl_is_ignored() {
    let mut kb = KeyboardDecoder::new();
    assert!(kb.decode(0x1d).is_none());
    assert_eq!(unicode(kb.decode(0x1e)), 'a');
}

#[test]
fn keyboard_function_key_is_raw() {
    let mut kb = KeyboardDecoder::new();
    assert_eq!(raw_text(kb.decode(0x3b)), "F1");
}

#[test]
fn keyboard_extended_prefix_selects_arrow() {
    let mut kb = KeyboardDecoder::new();
    assert!(kb.decode(0xe0).is_none());
    assert_eq!(raw_text(kb.decode(0x48)), "ArrowUp");
}

#[test]
fn keyboard_unknown_code_is_discarded() {
    let mut kb = KeyboardDecoder::new();
    assert!(kb.decode(0x00).is_none());
    assert_eq!(unicode(kb.decode(0x1e)), 'a');
}

#[test]
fn keyboard_caps_lock_toggles() {
    let mut kb = KeyboardDecoder::new();
    let press_caps = ScannedKey { code: KeyCode::CapsLock, motion: KeyMotion::Pressed };
    assert!(kb.process_key_event(press_caps).is_none());
    let press_a = ScannedKey { code: KeyCode::A, motion: KeyMotion::Pressed };
    assert_eq!(unicode(kb.process_key_event(press_a)), 'A');
    let release_a = ScannedKey { code: KeyCode::A, motion: KeyMotion::Released };
    assert!(kb.process_key_event(release_a).is_none());
    assert!(kb.process_key_event(press_caps).is_none());
    assert_eq!(unicode(kb.process_key_event(press_a)), 'a');
}
