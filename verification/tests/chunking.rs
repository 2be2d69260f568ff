use midiplot::chunk_bytes;
use midiplot::chunk_commands;

fn five_byte_commands(n: usize) -> Vec<Vec<u8>> {
    // Shaped like real plotter commands: four payload bytes and a terminator.
    (0..n).map(|i| vec![80, 65, 48 + (i as u8 % 10), 48, 59]).collect()
}

fn chunk_shapes(cmds: &Vec<Vec<u8>>, cap: usize) -> Vec<Vec<Vec<u8>>> {
    chunk_commands(cmds, cap).into_iter().map(|c| c.commands).collect()
}

#[test]
fn ten_small_commands_fit_one_chunk() {
    // Ten commands of 5 bytes = 50 bytes: the running total never reaches
    // the 57-byte threshold, so everything lands in the single final flush.
    let cmds = five_byte_commands(10);
    let chunks = chunk_shapes(&cmds, 57);
    assert_eq!(chunks.len(), 1);
    assert_eq!(chunks[0], cmds);
}

#[test]
fn flush_happens_when_the_total_would_reach_the_threshold() {
    // Eleven commands of 5 bytes = 55 bytes still fit: 55 < 57. Appending a
    // twelfth would make 60 >= 57, so it opens the second chunk.
    let cmds = five_byte_commands(13);
    let chunks = chunk_shapes(&cmds, 57);
    assert_eq!(chunks.len(), 2);
    assert_eq!(chunks[0].len(), 11);
    assert_eq!(chunks[1].len(), 2);
    let rejoined: Vec<Vec<u8>> = chunks.concat();
    assert_eq!(rejoined, cmds);
}

#[test]
fn concatenation_restores_the_input_exactly() {
    let cmds: Vec<Vec<u8>> = vec![
        vec![83, 80, 49, 59],
        vec![80, 65, 48, 44, 48, 59],
        vec![80, 68, 59],
        vec![80, 85, 59],
    ];
    for cap in 1..20usize {
        let chunks = chunk_shapes(&cmds, cap);
        let rejoined: Vec<Vec<u8>> = chunks.concat();
        assert_eq!(rejoined, cmds, "capacity {}", cap);
    }
}

#[test]
fn no_chunk_reaches_the_threshold_unless_oversized_alone() {
    let cmds = five_byte_commands(40);
    for cap in 1..80usize {
        for chunk in chunk_shapes(&cmds, cap) {
            let bytes: usize = chunk.iter().map(|c| c.len()).sum();
            assert!(
                bytes < cap || (chunk.len() == 1 && chunk[0].len() >= cap),
                "capacity {} broken by a chunk of {} bytes",
                cap,
                bytes
            );
        }
    }
}

#[test]
fn empty_command_list_yields_one_empty_chunk() {
    let cmds: Vec<Vec<u8>> = Vec::new();
    let chunks = chunk_shapes(&cmds, 57);
    assert_eq!(chunks.len(), 1);
    assert!(chunks[0].is_empty());
}

#[test]
fn oversized_command_is_emitted_alone_never_split() {
    let big = vec![7u8; 60];
    let cmds = vec![big.clone()];
    let chunks = chunk_shapes(&cmds, 57);
    // The oversized command overflows even an empty buffer, so that buffer
    // is flushed (empty) and the command travels alone, whole.
    assert_eq!(chunks.len(), 2);
    assert!(chunks[0].is_empty());
    assert_eq!(chunks[1], vec![big]);
}

#[test]
fn chunk_bytes_concatenates_in_order() {
    let cmds: Vec<Vec<u8>> = vec![vec![1, 2], vec![], vec![3], vec![4, 5, 6]];
    let chunks = chunk_commands(&cmds, 100);
    assert_eq!(chunks.len(), 1);
    assert_eq!(chunk_bytes(&chunks[0]), vec![1, 2, 3, 4, 5, 6]);
}
