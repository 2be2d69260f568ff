//! Greedy bin-packing of an ordered command list into bounded-size chunks.
//!
//! A chunk is the atomic unit of transmission: an ordered list of commands
//! whose concatenated byte length stays below a fixed capacity threshold. A
//! command is never split across two chunks; a single command whose own
//! length reaches the threshold is emitted alone, oversized.

use vstd::prelude::*;
use vstd::seq_lib::lemma_flatten_concat;

verus! {

/// An ordered list of commands transmitted as one unit.
#[derive(Debug)]
pub struct CommandChunk {
    pub commands: Vec<Vec<u8>>,
}

impl View for CommandChunk {
    type V = Seq<Seq<u8>>;

    open spec fn view(&self) -> Seq<Seq<u8>> {
        self.commands.deep_view()
    }
}

/// Total byte length of a list of commands.
pub open spec fn total_len(cmds: Seq<Seq<u8>>) -> nat
    decreases cmds.len(),
{
    if cmds.len() == 0 {
        0
    } else {
        cmds.first().len() + total_len(cmds.drop_first())
    }
}

/// The greedy, single-pass, left-to-right packing rule: starting from the
/// partial chunk `acc`, append each command whose bytes keep the running
/// total strictly below `cap`; otherwise flush `acc` and start a fresh chunk
/// holding just that command. The last partial chunk is always flushed, so
/// an empty command list yields one empty chunk.
pub open spec fn greedy_chunks(cmds: Seq<Seq<u8>>, cap: nat, acc: Seq<Seq<u8>>) -> Seq<
    Seq<Seq<u8>>,
>
    decreases cmds.len(),
{
    if cmds.len() == 0 {
        seq![acc]
    } else if total_len(acc) + cmds.first().len() < cap {
        greedy_chunks(cmds.drop_first(), cap, acc.push(cmds.first()))
    } else {
        seq![acc] + greedy_chunks(cmds.drop_first(), cap, seq![cmds.first()])
    }
}

/// The chunking of a whole command list.
pub open spec fn chunking(cmds: Seq<Seq<u8>>, cap: nat) -> Seq<Seq<Seq<u8>>> {
    greedy_chunks(cmds, cap, Seq::empty())
}

/// The view of a produced chunk sequence: each chunk as its command list.
pub open spec fn chunks_view(chunks: Seq<CommandChunk>) -> Seq<Seq<Seq<u8>>> {
    chunks.map_values(|c: CommandChunk| c@)
}

proof fn lemma_total_len_push(cmds: Seq<Seq<u8>>, cmd: Seq<u8>)
    ensures
        total_len(cmds.push(cmd)) == total_len(cmds) + cmd.len(),
    decreases cmds.len(),
{
    if cmds.len() == 0 {
        assert(cmds.push(cmd).drop_first() =~= Seq::<Seq<u8>>::empty());
        assert(total_len(Seq::<Seq<u8>>::empty()) == 0);
    } else {
        assert(cmds.push(cmd).drop_first() =~= cmds.drop_first().push(cmd));
        lemma_total_len_push(cmds.drop_first(), cmd);
    }
}

/// Splits the input command list into chunks by the greedy rule, using `cap`
/// as the capacity threshold in bytes.
pub fn chunk_commands(cmds: &Vec<Vec<u8>>, cap: usize) -> (chunks: Vec<CommandChunk>)
    ensures
        chunks_view(chunks@) == chunking(cmds.deep_view(), cap as nat),
{
    let ghost all: Seq<Seq<u8>> = cmds.deep_view();
    let mut done: Vec<CommandChunk> = Vec::new();
    let mut cur: Vec<Vec<u8>> = Vec::new();
    let mut cur_len: usize = 0;
    let mut i: usize = 0;
    proof {
        assert(all.skip(0) =~= all);
        assert(cur.deep_view() =~= Seq::<Seq<u8>>::empty());
        assert(chunks_view(done@) + greedy_chunks(all, cap as nat, Seq::empty()) =~= chunking(
            all,
            cap as nat,
        ));
    }
    while i < cmds.len()
        invariant
            i <= cmds.len(),
            all == cmds.deep_view(),
            all.len() == cmds.len(),
            cur_len == total_len(cur.deep_view()),
            chunking(all, cap as nat) == chunks_view(done@) + greedy_chunks(
                all.skip(i as int),
                cap as nat,
                cur.deep_view(),
            ),
        decreases cmds.len() - i,
    {
        let cmd = &cmds[i];
        assert(cmd.deep_view() == all[i as int]);
        let ghost rest = all.skip(i as int);
        assert(rest.first() == all[i as int]);
        assert(rest.drop_first() =~= all.skip(i as int + 1));
        let ghost cur0 = cur.deep_view();
        let ghost done0 = done@;
        let fits = cmd.len() < cap && cur_len < cap - cmd.len();
        assert(fits == (total_len(cur0) + all[i as int].len() < cap as nat));
        let copy = cmd.clone();
        assert(copy.deep_view() =~= all[i as int]);
        if fits {
            proof {
                lemma_total_len_push(cur0, all[i as int]);
            }
            cur_len = cur_len + copy.len();
            cur.push(copy);
            assert(cur.deep_view() =~= cur0.push(all[i as int]));
        } else {
            let flushed = CommandChunk { commands: cur };
            done.push(flushed);
            cur = Vec::new();
            cur.push(copy);
            cur_len = cmd.len();
            proof {
                lemma_total_len_push(Seq::<Seq<u8>>::empty(), all[i as int]);
                assert(flushed@ == cur0);
                assert(cur.deep_view() =~= seq![all[i as int]]);
                assert(chunks_view(done@) =~= chunks_view(done0) + seq![cur0]);
                assert(greedy_chunks(rest, cap as nat, cur0) == seq![cur0] + greedy_chunks(
                    rest.drop_first(),
                    cap as nat,
                    seq![rest.first()],
                ));
                assert(chunks_view(done0) + greedy_chunks(rest, cap as nat, cur0) =~= chunks_view(
                    done@,
                ) + greedy_chunks(rest.drop_first(), cap as nat, seq![rest.first()]));
            }
        }
        i = i + 1;
    }
    assert(all.skip(i as int) =~= Seq::<Seq<u8>>::empty());
    let ghost done0 = done@;
    let ghost cur0 = cur.deep_view();
    let last = CommandChunk { commands: cur };
    done.push(last);
    proof {
        assert(chunks_view(done@) =~= chunks_view(done0) + seq![cur0]);
        assert(chunks_view(done@) =~= chunking(all, cap as nat));
    }
    done
}

/// The packing is lossless and order-preserving: concatenating the command
/// lists of all chunks produced from `acc` onward restores `acc` followed by
/// the remaining input.
proof fn lemma_greedy_lossless(cmds: Seq<Seq<u8>>, cap: nat, acc: Seq<Seq<u8>>)
    ensures
        greedy_chunks(cmds, cap, acc).flatten() == acc + cmds,
    decreases cmds.len(),
{
    if cmds.len() == 0 {
        Seq::<Seq<Seq<u8>>>::lemma_flatten_singleton(seq![acc]);
        assert(seq![acc].flatten() =~= acc + cmds);
    } else if total_len(acc) + cmds.first().len() < cap {
        lemma_greedy_lossless(cmds.drop_first(), cap, acc.push(cmds.first()));
        assert(acc.push(cmds.first()) + cmds.drop_first() =~= acc + cmds);
    } else {
        lemma_greedy_lossless(cmds.drop_first(), cap, seq![cmds.first()]);
        lemma_flatten_concat(seq![acc], greedy_chunks(cmds.drop_first(), cap, seq![cmds.first()]));
        Seq::<Seq<Seq<u8>>>::lemma_flatten_singleton(seq![acc]);
        assert(acc + (seq![cmds.first()] + cmds.drop_first()) =~= acc + cmds);
    }
}

/// Chunking loses nothing and reorders nothing: concatenating the command
/// lists of all produced chunks, in chunk order, reproduces the original
/// command list exactly.
pub proof fn lemma_chunking_lossless(cmds: Seq<Seq<u8>>, cap: nat)
    ensures
        chunking(cmds, cap).flatten() == cmds,
{
    lemma_greedy_lossless(cmds, cap, Seq::empty());
    assert(Seq::<Seq<u8>>::empty() + cmds =~= cmds);
}

/// Concatenates a chunk's commands into the flat byte payload that goes on
/// the wire as one transmission unit.
pub fn chunk_bytes(chunk: &CommandChunk) -> (r: Vec<u8>)
    ensures
        r@ == chunk@.flatten(),
{
    let mut r: Vec<u8> = Vec::new();
    let mut i: usize = 0;
    proof {
        assert(chunk@.skip(0) =~= chunk@);
        assert(r@ + chunk@.flatten() =~= chunk@.flatten());
    }
    while i < chunk.commands.len()
        invariant
            i <= chunk.commands.len(),
            chunk@.len() == chunk.commands.len(),
            chunk@.flatten() == r@ + chunk@.skip(i as int).flatten(),
        decreases chunk.commands.len() - i,
    {
        let ghost rest = chunk@.skip(i as int);
        let ghost r0 = r@;
        assert(rest.first() == chunk@[i as int]);
        assert(rest.drop_first() =~= chunk@.skip(i as int + 1));
        let cmd = &chunk.commands[i];
        assert(cmd.deep_view() == chunk@[i as int]);
        r.extend_from_slice(cmd.as_slice());
        proof {
            assert forall|j: int| 0 <= j < r@.len() implies r@[j] == (r0 + chunk@[i as int])[j] by {
                if j >= r0.len() {
                    assert(vstd::pervasive::cloned::<u8>(cmd@[j - r0.len()], r@[j]));
                }
            }
            assert(r@ =~= r0 + chunk@[i as int]);
            assert(r0 + rest.flatten() =~= r@ + rest.drop_first().flatten());
        }
        i = i + 1;
    }
    assert(chunk@.skip(i as int) =~= Seq::<Seq<u8>>::empty());
    assert(r@ + chunk@.skip(i as int).flatten() =~= r@);
    r
}

/// A chunk is within bounds when its bytes are below the threshold, and
/// excused only when it is a single command that is itself oversized.
pub open spec fn chunk_bounded(chunk: Seq<Seq<u8>>, cap: nat) -> bool {
    total_len(chunk) < cap || (chunk.len() == 1 && chunk.first().len() >= cap)
}

proof fn lemma_greedy_bounded(cmds: Seq<Seq<u8>>, cap: nat, acc: Seq<Seq<u8>>)
    requires
        chunk_bounded(acc, cap),
    ensures
        forall|i: int|
            0 <= i < greedy_chunks(cmds, cap, acc).len() ==> chunk_bounded(
                #[trigger] greedy_chunks(cmds, cap, acc)[i],
                cap,
            ),
    decreases cmds.len(),
{
    let g = greedy_chunks(cmds, cap, acc);
    if cmds.len() == 0 {
        assert(g =~= seq![acc]);
        assert forall|i: int| 0 <= i < g.len() implies chunk_bounded(#[trigger] g[i], cap) by {
            assert(g[i] == acc);
        }
    } else if total_len(acc) + cmds.first().len() < cap {
        lemma_total_len_push(acc, cmds.first());
        lemma_greedy_bounded(cmds.drop_first(), cap, acc.push(cmds.first()));
        let rec = greedy_chunks(cmds.drop_first(), cap, acc.push(cmds.first()));
        assert forall|i: int| 0 <= i < g.len() implies chunk_bounded(#[trigger] g[i], cap) by {
            assert(g[i] == rec[i]);
        }
    } else {
        assert(seq![cmds.first()].drop_first() =~= Seq::<Seq<u8>>::empty());
        assert(total_len(Seq::<Seq<u8>>::empty()) == 0);
        assert(total_len(seq![cmds.first()]) == cmds.first().len());
        lemma_greedy_bounded(cmds.drop_first(), cap, seq![cmds.first()]);
        let rec = greedy_chunks(cmds.drop_first(), cap, seq![cmds.first()]);
        assert forall|i: int| 0 <= i < g.len() implies chunk_bounded(#[trigger] g[i], cap) by {
            if i == 0 {
                assert(g[i] == acc);
            } else {
                assert(g[i] == rec[i - 1]);
            }
        }
    }
}

/// No produced chunk's byte length reaches the capacity threshold, except a
/// chunk holding exactly one command that is itself oversized. A threshold
/// of zero is excluded: there every command would overflow an empty buffer.
pub proof fn lemma_chunking_bounded(cmds: Seq<Seq<u8>>, cap: nat)
    requires
        cap >= 1,
    ensures
        forall|i: int|
            0 <= i < chunking(cmds, cap).len() ==> chunk_bounded(
                #[trigger] chunking(cmds, cap)[i],
                cap,
            ),
{
    lemma_greedy_bounded(cmds, cap, Seq::empty());
}

} // verus!
