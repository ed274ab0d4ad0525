//! The append-only journal of probe payloads: one line per payload.

use vstd::prelude::*;

verus! {

/// Why a payload could not be journaled.
#[derive(Debug)]
pub enum WriterError {
    SerializationError,
    FileIOError,
}

/// The journal line of a serialized payload.
pub open spec fn journal_line(probe_id: Seq<char>, serialized: Seq<char>) -> Seq<char> {
    probe_id + ":::"@ + serialized + seq!['\n']
}

/// A journal line holds the whole payload, whatever its length: the probe
/// id, then `:::`, then every character of the serialized payload, then one
/// line break, and nothing else.
pub proof fn lemma_journal_line_parts(probe_id: Seq<char>, serialized: Seq<char>)
    ensures
        ({
            let line = journal_line(probe_id, serialized);
            let n = probe_id.len() as int;
            &&& line.len() == n + serialized.len() + 4
            &&& line.subrange(0, n) == probe_id
            &&& line.subrange(n, n + 3) == seq![':', ':', ':']
            &&& line.subrange(n + 3, line.len() - 1) == serialized
            &&& line[line.len() - 1] == '\n'
        }),
{
    reveal_strlit(":::");
    let line = journal_line(probe_id, serialized);
    let n = probe_id.len() as int;
    assert(line.subrange(0, n) =~= probe_id);
    assert(line.subrange(n, n + 3) =~= seq![':', ':', ':']);
    assert(line.subrange(n + 3, line.len() - 1) =~= serialized);
}

/// The line that records `serialized` for `probe_id`: the probe id, `:::`,
/// the payload, and a line break.
pub fn log_line(probe_id: &String, serialized: &String) -> (r: String)
    ensures
        r@ == journal_line(probe_id@, serialized@),
{
    let mut line = probe_id.clone();
    line.append(":::");
    line.append(serialized.as_str());
    line.append("\n");
    proof {
        reveal_strlit("\n");
    }
    line
}

} // verus!
