use midiplot::LinkCommand;
use midiplot::Transport;
use midiplot::plan_transmission;

/// A simulated device with a small input buffer: it answers the position
/// probe with a numeric reply and echoes the terminator byte only after it
/// has received a full chunk followed by the probe command.
struct EchoDevice {
    received: Vec<u8>,
    reply: Vec<u8>,
}

impl EchoDevice {
    fn new() -> EchoDevice {
        EchoDevice { received: Vec::new(), reply: Vec::new() }
    }

    fn receive(&mut self, bytes: &[u8]) {
        self.received.extend_from_slice(bytes);
        // Only once the probe arrives does the device answer: some position
        // digits, then the carriage-return terminator.
        if self.received.ends_with(b"OA;") {
            self.reply = b"120,4056\r".to_vec();
        }
    }

    fn read_byte(&mut self) -> u8 {
        assert!(
            !self.reply.is_empty(),
            "the transport asked for a byte before the device had received a full chunk plus the probe"
        );
        self.reply.remove(0)
    }
}

fn drive(cmds: &Vec<Vec<u8>>, cap: usize) -> (Vec<Vec<u8>>, Vec<u8>) {
    let mut t = plan_transmission(cmds, cap);
    let mut device = EchoDevice::new();
    let mut writes: Vec<Vec<u8>> = Vec::new();
    let mut steps = 0;
    loop {
        steps += 1;
        assert!(steps < 100_000, "the handshake did not finish");
        match t.next_command() {
            LinkCommand::Write(bytes) => {
                device.receive(&bytes);
                writes.push(bytes);
                t.write_done();
            }
            LinkCommand::ReadByte => {
                let b = device.read_byte();
                t.byte_received(b);
            }
            LinkCommand::Done => break,
        }
    }
    assert!(t.is_done());
    (writes, device.received)
}

fn five_byte_commands(n: usize) -> Vec<Vec<u8>> {
    (0..n).map(|i| vec![80, 65, 48 + (i as u8 % 10), 48, 59]).collect()
}

#[test]
fn one_chunk_one_probe_then_wait_then_done() {
    // Ten commands of 5 bytes pack into a single 50-byte chunk under a
    // 57-byte threshold: the transport writes that chunk, then the probe,
    // blocks through the numeric reply, and proceeds only on the terminator.
    let cmds = five_byte_commands(10);
    let (writes, received) = drive(&cmds, 57);
    assert_eq!(writes.len(), 2);
    assert_eq!(writes[0], cmds.concat());
    assert_eq!(writes[1], b"OA;".to_vec());
    assert_eq!(received, [cmds.concat(), b"OA;".to_vec()].concat());
}

#[test]
fn chunk_count_matches_the_bin_packing() {
    // Thirteen commands of 5 bytes split 11 + 2 under a 57-byte threshold:
    // two chunks, each followed by its own probe, strictly sequentially.
    let cmds = five_byte_commands(13);
    let (writes, _) = drive(&cmds, 57);
    assert_eq!(writes.len(), 4);
    assert_eq!(writes[0].len(), 55);
    assert_eq!(writes[1], b"OA;".to_vec());
    assert_eq!(writes[2].len(), 10);
    assert_eq!(writes[3], b"OA;".to_vec());
    assert_eq!([writes[0].clone(), writes[2].clone()].concat(), cmds.concat());
}

#[test]
fn junk_bytes_never_release_the_next_chunk() {
    let payloads = vec![vec![1u8, 2, 3], vec![4u8, 5]];
    let mut t = Transport::new(payloads);
    match t.next_command() {
        LinkCommand::Write(b) => assert_eq!(b, vec![1, 2, 3]),
        _ => panic!("expected the first chunk"),
    }
    t.write_done();
    match t.next_command() {
        LinkCommand::Write(b) => assert_eq!(b, b"OA;".to_vec()),
        _ => panic!("expected the probe"),
    }
    t.write_done();
    // Everything before the terminator is discarded without progress.
    for junk in [0u8, 7, 49, 50, 51, 255] {
        t.byte_received(junk);
        assert!(matches!(t.next_command(), LinkCommand::ReadByte));
    }
    t.byte_received(13);
    match t.next_command() {
        LinkCommand::Write(b) => assert_eq!(b, vec![4, 5]),
        _ => panic!("expected the second chunk"),
    }
}
