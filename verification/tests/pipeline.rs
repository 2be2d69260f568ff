use midiplot::EventTracker;
use midiplot::GeometryConfig;
use midiplot::LinkCommand;
use midiplot::Rect;
use midiplot::chunk_commands;
use midiplot::compile_rect;
use midiplot::map_note;
use midiplot::plan_transmission;

#[test]
fn one_note_end_to_end() {
    // A pitch opens at 1000 ms and closes at 1500 ms; the process started at
    // 1000 ms, so the onset offset is 0 and the duration 500.
    let mut tracker = EventTracker::new(1000);
    assert_eq!(tracker.on_message(&[0x90, 60, 64], 1000), None);
    let note = tracker.on_message(&[0x80, 60, 0], 1500).expect("the pair closes");

    let cfg = GeometryConfig {
        scale_num: 16,
        scale_den: 100,
        row_base: 160,
        row_height: 84,
        pitch_min: 20,
    };
    let rect = map_note(&cfg, &note);
    assert_eq!(rect, Rect { x: 0, y: 3520, width: 80, height: 84 });

    let cmds = compile_rect(&rect);

    // Command byte lengths: 4, 9, 3, 10, 10, 9, 9, 3. The greedy rule under
    // a 57-byte threshold takes the first seven (54 bytes), flushes when the
    // closing `PU;` would make exactly 57, and leaves it in the final flush.
    let chunks = chunk_commands(&cmds, 57);
    assert_eq!(chunks.len(), 2);
    assert_eq!(chunks[0].commands.len(), 7);
    assert_eq!(chunks[1].commands.len(), 1);

    // Each chunk is written, probed and acknowledged before the next.
    let mut t = plan_transmission(&cmds, 57);
    let mut writes: Vec<Vec<u8>> = Vec::new();
    loop {
        match t.next_command() {
            LinkCommand::Write(bytes) => {
                writes.push(bytes);
                t.write_done();
            }
            LinkCommand::ReadByte => t.byte_received(13),
            LinkCommand::Done => break,
        }
    }
    assert_eq!(writes.len(), 4);
    assert_eq!(
        [writes[0].clone(), writes[2].clone()].concat(),
        cmds.concat(),
        "the two payloads carry every command byte in order"
    );
    assert_eq!(writes[1], b"OA;".to_vec());
    assert_eq!(writes[3], b"OA;".to_vec());
}
