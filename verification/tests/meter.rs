use auto_volume::error::MeterError;
use auto_volume::level::Level;
use auto_volume::meter::{measure, meter_line};
use auto_volume::pcm::{frame_byte_len, FRAME_SAMPLES};
use auto_volume::session::{Action, ConnectionState, Event, Session, SinkSlot};
use auto_volume::stream::{BufferPolicy, StreamSpec};

fn frame_of(samples: &[i32]) -> Vec<u8> {
    samples.iter().flat_map(|s| s.to_le_bytes()).collect()
}

#[test]
fn silent_stream_renders_an_empty_bar() {
    // the handshake
    let mut session = Session::new();
    let mut slot = SinkSlot::new();
    let (next, action) = session.step(Event::Iterated(ConnectionState::Connecting));
    assert_eq!(action, Action::Iterate);
    session = next;
    let (next, action) = session.step(Event::Iterated(ConnectionState::Ready));
    assert_eq!(action, Action::RequestServerInfo);
    session = next;
    assert_eq!(slot.poll(), None);
    let (next, action) = session.step(Event::Iterated(ConnectionState::Ready));
    assert_eq!(action, Action::Iterate);
    session = next;
    slot.deliver(Some("alsa_output.pci-0000_00_1f.3.analog-stereo".to_string()));
    let (_, action) = session.step(slot.poll().unwrap());
    assert_eq!(
        action,
        Action::OpenStream {
            source: "alsa_output.pci-0000_00_1f.3.analog-stereo.monitor".to_string()
        }
    );
    // the stream
    let spec = StreamSpec::capture();
    assert_eq!((spec.rate, spec.channels), (48000, 2));
    let policy = BufferPolicy::low_latency();
    let size = frame_byte_len(FRAME_SAMPLES).unwrap();
    assert_eq!(size, 2048);
    assert_eq!(policy.target_length as usize, size);
    // the frames
    let frame = vec![0u8; size];
    for _ in 0..3 {
        assert_eq!(
            meter_line(&frame).unwrap(),
            "\r[                                                  ] 0%"
        );
    }
}

#[test]
fn measure_decodes_then_takes_the_level() {
    assert_eq!(measure(&[]), Ok(Level { raw: 0 }));
    assert_eq!(measure(&frame_of(&[3, 4])), Ok(Level { raw: 3 }));
    assert_eq!(measure(&frame_of(&[-1000; 64])), Ok(Level { raw: 1000 }));
    assert_eq!(measure(&frame_of(&[i32::MAX; 512])), Ok(Level { raw: 2_147_483_647 }));
    assert_eq!(measure(&[0, 0, 0, 0x80]), Ok(Level { raw: 2_147_483_648 }));
}

#[test]
fn measure_reads_bytes_least_significant_first() {
    // 0x00000100 = 256, not 0x00010000
    assert_eq!(measure(&[0, 1, 0, 0]), Ok(Level { raw: 256 }));
}

#[test]
fn measure_refuses_a_short_read() {
    assert_eq!(measure(&[0, 0, 0]), Err(MeterError::Read));
    assert_eq!(measure(&vec![0u8; 2047]), Err(MeterError::Read));
}

#[test]
fn meter_line_refuses_a_short_read() {
    assert_eq!(meter_line(&[1, 2, 3, 4, 5]), Err(MeterError::Read));
}

#[test]
fn full_scale_stream_renders_a_full_bar() {
    let frame = frame_of(&[i32::MAX; 512]);
    let bar = "█".repeat(50);
    assert_eq!(meter_line(&frame).unwrap(), format!("\r[{}] 100%", bar));
}

#[test]
fn loudest_frame_still_fits_the_bar() {
    let frame = frame_of(&[i32::MIN; 512]);
    let bar = "█".repeat(50);
    assert_eq!(meter_line(&frame).unwrap(), format!("\r[{}] 100%", bar));
}

#[test]
fn half_scale_stream_renders_half_a_bar() {
    let frame = frame_of(&[1 << 30; 512]);
    let bar = "█".repeat(25);
    assert_eq!(meter_line(&frame).unwrap(), format!("\r[{:<50}] 50%", bar));
}

#[test]
fn quiet_frame_rounds_to_the_nearest_cell() {
    // 3% of full scale: 1.5 cells, shown as 2
    let frame = frame_of(&[64_424_510; 8]);
    let bar = "█".repeat(2);
    assert_eq!(meter_line(&frame).unwrap(), format!("\r[{:<50}] 3%", bar));
}
