use gaminal::drive::{
    command_for, elapsed_millis, frame_interval, frames_per_second, wait_before_frame, Command,
};

fn key(byte: u8) -> Option<Result<u8, std::io::Error>> {
    Some(Ok(byte))
}

#[test]
fn quit_start_and_pause_are_always_honoured() {
    for started in [false, true] {
        assert_eq!(command_for(&key(b'q'), started), Command::Quit);
        assert_eq!(command_for(&key(b's'), started), Command::Start);
        assert_eq!(command_for(&key(b'p'), started), Command::TogglePause);
    }
}

#[test]
fn restart_and_no_are_honoured_only_while_running() {
    assert_eq!(command_for(&key(b'y'), true), Command::Restart);
    assert_eq!(command_for(&key(b'r'), true), Command::Restart);
    assert_eq!(command_for(&key(b'n'), true), Command::Quit);
    assert_eq!(command_for(&key(b'y'), false), Command::Nothing);
    assert_eq!(command_for(&key(b'r'), false), Command::Nothing);
    assert_eq!(command_for(&key(b'n'), false), Command::Nothing);
}

#[test]
fn steering_keys_and_strangers_ask_nothing_of_the_loop() {
    for started in [false, true] {
        for byte in [b'z', b'x', b'Q', b'S', b' ', 0u8, 27u8, 255u8] {
            assert_eq!(command_for(&key(byte), started), Command::Nothing);
        }
        assert_eq!(command_for(&None, started), Command::Nothing);
        let failed = Some(Err(std::io::Error::new(std::io::ErrorKind::Other, "q")));
        assert_eq!(command_for(&failed, started), Command::Nothing);
    }
}

#[test]
fn frame_interval_is_a_thousand_over_the_speed() {
    assert_eq!(frame_interval(120), 8);
    assert_eq!(frame_interval(1), 1000);
    assert_eq!(frame_interval(1000), 1);
    assert_eq!(frame_interval(1001), 0);
    assert_eq!(frame_interval(u64::MAX), 0);
}

#[test]
fn wait_is_the_rest_of_the_interval() {
    assert_eq!(wait_before_frame(0, 8), 8);
    assert_eq!(wait_before_frame(3, 8), 5);
    assert_eq!(wait_before_frame(7, 8), 1);
    assert_eq!(wait_before_frame(8, 8), 0);
    assert_eq!(wait_before_frame(900, 8), 0);
    assert_eq!(wait_before_frame(0, 0), 0);
}

#[test]
fn milliseconds_are_counted_whole() {
    assert_eq!(elapsed_millis(0), 0);
    assert_eq!(elapsed_millis(999_999), 0);
    assert_eq!(elapsed_millis(1_000_000), 1);
    assert_eq!(elapsed_millis(8_400_000), 8);
    assert_eq!(elapsed_millis(u32::MAX), 4294);
}

#[test]
fn frames_per_second_is_a_second_over_the_frame() {
    assert_eq!(frames_per_second(1), 1_000_000_000);
    assert_eq!(frames_per_second(8_333_333), 120);
    assert_eq!(frames_per_second(16_000_000), 62);
    assert_eq!(frames_per_second(1_000_000_001), 0);
}
