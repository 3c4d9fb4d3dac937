use link_metronome::control_channel::Command;
use link_metronome::control_channel::ControlChannel;
use link_metronome::control_channel::quantum_or_cached;

#[test]
fn receive_on_empty_returns_none() {
    let mut ch = ControlChannel::new();
    assert_eq!(ch.try_receive(), None);
    assert_eq!(ch.len(), 0);
}

#[test]
fn commands_come_out_in_fifo_order() {
    let mut ch = ControlChannel::new();
    ch.try_send(Command::TempoIncrease);
    ch.try_send(Command::TempoDecrease);
    ch.try_send(Command::TogglePlaying);
    assert_eq!(ch.len(), 3);
    assert_eq!(ch.try_receive(), Some(Command::TempoIncrease));
    assert_eq!(ch.try_receive(), Some(Command::TempoDecrease));
    assert_eq!(ch.try_receive(), Some(Command::TogglePlaying));
    assert_eq!(ch.try_receive(), None);
}

#[test]
fn interleaved_sends_and_receives_keep_order() {
    let mut ch = ControlChannel::new();
    ch.try_send(Command::TogglePlaying);
    assert_eq!(ch.try_receive(), Some(Command::TogglePlaying));
    ch.try_send(Command::TempoIncrease);
    ch.try_send(Command::TempoIncrease);
    assert_eq!(ch.try_receive(), Some(Command::TempoIncrease));
    ch.try_send(Command::TempoDecrease);
    assert_eq!(ch.try_receive(), Some(Command::TempoIncrease));
    assert_eq!(ch.try_receive(), Some(Command::TempoDecrease));
    assert_eq!(ch.try_receive(), None);
}

#[test]
fn quantum_read_falls_back_to_cache() {
    assert_eq!(quantum_or_cached(Some(8), 4), 8);
    assert_eq!(quantum_or_cached(None, 4), 4);
}
