//! Replaying the body command stream of a trace into per-signal timelines.
//!
//! The body of a trace is a sequence of commands: advance simulation time,
//! or change one signal's value. Replaying folds them, in order, into the
//! mapping from signal identifier to timeline, canonicalizing each changed
//! value to its text form.

use crate::errors::VCDFileError;
use crate::valuemap::{ValueMap, record};
use vstd::prelude::*;

verus! {

/// A four-state logic value of a single wire.
#[derive(Debug, Clone, Copy, PartialEq, Eq, Structural)]
pub enum Bit {
    /// Logic low.
    B0,
    /// Logic high.
    B1,
    /// Unknown.
    BX,
    /// High impedance.
    BZ,
}

/// The canonical one-character text of a bit.
pub open spec fn bit_text(b: Bit) -> Seq<char> {
    match b {
        Bit::B0 => seq!['0'],
        Bit::B1 => seq!['1'],
        Bit::BX => seq!['x'],
        Bit::BZ => seq!['z'],
    }
}

/// The canonical text of a bit vector: the text of each bit, most
/// significant first, concatenated.
pub open spec fn bits_text(bits: Seq<Bit>) -> Seq<char>
    decreases bits.len(),
{
    if bits.len() == 0 {
        Seq::empty()
    } else {
        bit_text(bits[0]) + bits_text(bits.drop_first())
    }
}

/// Returns the canonical one-character text of a bit.
pub fn bit_str(b: Bit) -> (r: &'static str)
    ensures
        r@ == bit_text(b),
{
    match b {
        Bit::B0 => {
            proof {
                reveal_strlit("0");
                assert("0"@ =~= seq!['0']);
            }
            "0"
        },
        Bit::B1 => {
            proof {
                reveal_strlit("1");
                assert("1"@ =~= seq!['1']);
            }
            "1"
        },
        Bit::BX => {
            proof {
                reveal_strlit("x");
                assert("x"@ =~= seq!['x']);
            }
            "x"
        },
        Bit::BZ => {
            proof {
                reveal_strlit("z");
                assert("z"@ =~= seq!['z']);
            }
            "z"
        },
    }
}

/// Canonicalizes a bit vector: concatenates the text of each bit, most
/// significant (first element) first.
pub fn vector_text(bits: &Vec<Bit>) -> (r: String)
    ensures
        r@ == bits_text(bits@),
{
    let n = bits.len();
    let mut out = String::new();
    let mut i: usize = 0;
    proof {
        assert(bits@.subrange(0, n as int) =~= bits@);
        assert(Seq::<char>::empty() + bits_text(bits@) =~= bits_text(bits@));
    }
    while i < n
        invariant
            i <= n,
            n == bits@.len(),
            bits_text(bits@) == out@ + bits_text(bits@.subrange(i as int, n as int)),
        decreases n - i,
    {
        proof {
            let suf = bits@.subrange(i as int, n as int);
            assert(suf[0] == bits@[i as int]);
            assert(suf.drop_first() =~= bits@.subrange(i + 1, n as int));
            assert(out@ + (bit_text(bits@[i as int]) + bits_text(bits@.subrange(i + 1, n as int)))
                =~= (out@ + bit_text(bits@[i as int])) + bits_text(
                bits@.subrange(i + 1, n as int),
            ));
        }
        out.append(bit_str(bits[i]));
        i += 1;
    }
    proof {
        assert(bits@.subrange(n as int, n as int) =~= Seq::<Bit>::empty());
        assert(out@ + Seq::<char>::empty() =~= out@);
    }
    out
}

/// One decoded command of the trace body.
#[derive(Debug)]
pub enum BodyCommand {
    /// Simulation time moves to the given value.
    Timestamp(u64),
    /// A single-bit change of the signal with the given identifier.
    ChangeScalar(String, Bit),
    /// A multi-bit change, most significant bit first.
    ChangeVector(String, Vec<Bit>),
    /// A real-number change, already canonicalized to its text form with
    /// six digits after the decimal point.
    ChangeReal(String, String),
    /// A string-valued change; the text is recorded verbatim.
    ChangeString(String, String),
    /// A comment in the body; no timeline effect.
    Comment(String),
    /// The beginning of a simulation section; no timeline effect.
    SectionBegin,
    /// The end of a simulation section; no timeline effect.
    SectionEnd,
    /// A command of a kind this library does not read; no timeline effect.
    Other,
}

/// One step of the body stream: either a decoded command, or a token the
/// tokenizer could not interpret as any command.
#[derive(Debug)]
pub enum Step {
    /// A successfully decoded command.
    Decoded(BodyCommand),
    /// An undecodable token; it aborts the whole replay.
    Invalid,
}

/// The simulation time after a command: a timestamp sets it, every other
/// command leaves it.
pub open spec fn step_time(c: BodyCommand, time: u64) -> u64 {
    match c {
        BodyCommand::Timestamp(t) => t,
        _ => time,
    }
}

/// The index after a command: a change command records its canonical value
/// text for its signal at the current time; every other command leaves the
/// index unchanged.
pub open spec fn step_map(
    c: BodyCommand,
    time: u64,
    m: Map<Seq<char>, Map<u64, Seq<char>>>,
) -> Map<Seq<char>, Map<u64, Seq<char>>> {
    match c {
        BodyCommand::ChangeScalar(id, b) => record(m, id@, time, bit_text(b)),
        BodyCommand::ChangeVector(id, bits) => record(m, id@, time, bits_text(bits@)),
        BodyCommand::ChangeReal(id, text) => record(m, id@, time, text@),
        BodyCommand::ChangeString(id, text) => record(m, id@, time, text@),
        _ => m,
    }
}

/// The index after replaying a whole command sequence in order, starting
/// from time `time` and index `m`.
pub open spec fn replay(
    cmds: Seq<BodyCommand>,
    time: u64,
    m: Map<Seq<char>, Map<u64, Seq<char>>>,
) -> Map<Seq<char>, Map<u64, Seq<char>>>
    decreases cmds.len(),
{
    if cmds.len() == 0 {
        m
    } else {
        replay(
            cmds.subrange(1, cmds.len() as int),
            step_time(cmds[0], time),
            step_map(cmds[0], time, m),
        )
    }
}

/// The command a step carries; an undecodable step reads as a command
/// without timeline effect (replay never reaches one: it aborts first).
pub open spec fn step_command(s: Step) -> BodyCommand {
    match s {
        Step::Decoded(c) => c,
        Step::Invalid => BodyCommand::Other,
    }
}

/// The commands carried by a stream of steps.
pub open spec fn commands_of(steps: Seq<Step>) -> Seq<BodyCommand> {
    steps.map_values(|s: Step| step_command(s))
}

/// Whether some step of the stream is undecodable.
pub open spec fn has_invalid(steps: Seq<Step>) -> bool {
    exists|i: int| 0 <= i < steps.len() && steps[i] is Invalid
}

/// Replays the body stream into the index from signal identifier to
/// timeline. Succeeds exactly when every step decoded; the first
/// undecodable step aborts the whole replay with a command-invalid error
/// and no partial index.
pub fn value_map_from_steps(steps: &Vec<Step>) -> (r: Result<ValueMap, VCDFileError>)
    ensures
        match r {
            Ok(m) => !has_invalid(steps@) && m.wf() && m@ == replay(
                commands_of(steps@),
                0,
                Map::empty(),
            ),
            Err(e) => has_invalid(steps@) && e == VCDFileError::ParsingFailCommandInvalid,
        },
{
    let n = steps.len();
    let mut map = ValueMap::new();
    let mut time: u64 = 0;
    let mut i: usize = 0;
    proof {
        assert(steps@.subrange(0, n as int) =~= steps@);
    }
    while i < n
        invariant
            i <= n,
            n == steps@.len(),
            map.wf(),
            forall|k: int| 0 <= k < i ==> !(steps@[k] is Invalid),
            replay(commands_of(steps@), 0, Map::empty()) == replay(
                commands_of(steps@.subrange(i as int, n as int)),
                time,
                map@,
            ),
        decreases n - i,
    {
        proof {
            let suffix = steps@.subrange(i as int, n as int);
            let rest = steps@.subrange(i + 1, n as int);
            assert(commands_of(suffix)[0] == step_command(steps@[i as int]));
            assert(commands_of(suffix).subrange(1, commands_of(suffix).len() as int)
                =~= commands_of(rest));
        }
        match &steps[i] {
            Step::Invalid => {
                proof {
                    assert(steps@[i as int] is Invalid);
                }
                return Err(VCDFileError::ParsingFailCommandInvalid);
            },
            Step::Decoded(c) => {
                match c {
                    BodyCommand::Timestamp(t) => {
                        time = *t;
                    },
                    BodyCommand::ChangeScalar(id, b) => {
                        map.record(id, time, bit_str(*b).to_owned());
                    },
                    BodyCommand::ChangeVector(id, bits) => {
                        map.record(id, time, vector_text(bits));
                    },
                    BodyCommand::ChangeReal(id, text) => {
                        map.record(id, time, text.clone());
                    },
                    BodyCommand::ChangeString(id, text) => {
                        map.record(id, time, text.clone());
                    },
                    BodyCommand::Comment(_) => {},
                    BodyCommand::SectionBegin => {},
                    BodyCommand::SectionEnd => {},
                    BodyCommand::Other => {},
                }
            },
        }
        i += 1;
    }
    proof {
        assert(steps@.subrange(n as int, n as int) =~= Seq::<Step>::empty());
        assert(commands_of(steps@.subrange(n as int, n as int)) =~= Seq::<BodyCommand>::empty());
    }
    Ok(map)
}

/// A later write for the same signal at the same timestamp overwrites the
/// earlier one: only the last value stands.
pub proof fn lemma_record_overwrites(
    m: Map<Seq<char>, Map<u64, Seq<char>>>,
    id: Seq<char>,
    time: u64,
    v1: Seq<char>,
    v2: Seq<char>,
)
    ensures
        record(record(m, id, time, v1), id, time, v2) == record(m, id, time, v2),
{
    let m1 = record(m, id, time, v1);
    let tl = if m.contains_key(id) {
        m[id]
    } else {
        Map::<u64, Seq<char>>::empty()
    };
    assert(m1[id] == tl.insert(time, v1));
    assert(tl.insert(time, v1).insert(time, v2) =~= tl.insert(time, v2));
    assert(record(m1, id, time, v2) =~= record(m, id, time, v2));
}

/// Recording keeps every timeline of the index non-empty.
pub proof fn lemma_record_timelines_nonempty(
    m: Map<Seq<char>, Map<u64, Seq<char>>>,
    id: Seq<char>,
    time: u64,
    v: Seq<char>,
)
    requires
        forall|k: Seq<char>| #[trigger] m.contains_key(k) ==> exists|u: u64| m[k].contains_key(u),
    ensures
        forall|k: Seq<char>| #[trigger]
            record(m, id, time, v).contains_key(k) ==> exists|u: u64|
                record(m, id, time, v)[k].contains_key(u),
{
    let r = record(m, id, time, v);
    assert forall|k: Seq<char>| #[trigger] r.contains_key(k) implies exists|u: u64|
        r[k].contains_key(u) by {
        if k == id {
            assert(r[k].contains_key(time));
        } else {
            assert(m.contains_key(k));
            assert(r[k] == m[k]);
        }
    }
}

/// Every signal listed in a replayed index received at least one change:
/// no timeline in the result is empty.
pub proof fn lemma_replay_timelines_nonempty(
    cmds: Seq<BodyCommand>,
    time: u64,
    m: Map<Seq<char>, Map<u64, Seq<char>>>,
)
    requires
        forall|k: Seq<char>| #[trigger] m.contains_key(k) ==> exists|u: u64| m[k].contains_key(u),
    ensures
        forall|k: Seq<char>| #[trigger]
            replay(cmds, time, m).contains_key(k) ==> exists|u: u64|
                replay(cmds, time, m)[k].contains_key(u),
    decreases cmds.len(),
{
    if cmds.len() > 0 {
        let m1 = step_map(cmds[0], time, m);
        match cmds[0] {
            BodyCommand::ChangeScalar(id, b) => {
                lemma_record_timelines_nonempty(m, id@, time, bit_text(b));
                assert(m1 == record(m, id@, time, bit_text(b)));
            },
            BodyCommand::ChangeVector(id, bits) => {
                lemma_record_timelines_nonempty(m, id@, time, bits_text(bits@));
                assert(m1 == record(m, id@, time, bits_text(bits@)));
            },
            BodyCommand::ChangeReal(id, text) => {
                lemma_record_timelines_nonempty(m, id@, time, text@);
                assert(m1 == record(m, id@, time, text@));
            },
            BodyCommand::ChangeString(id, text) => {
                lemma_record_timelines_nonempty(m, id@, time, text@);
                assert(m1 == record(m, id@, time, text@));
            },
            _ => {
                assert(m1 == m);
            },
        }
        lemma_replay_timelines_nonempty(
            cmds.subrange(1, cmds.len() as int),
            step_time(cmds[0], time),
            m1,
        );
        assert(replay(cmds, time, m) == replay(
            cmds.subrange(1, cmds.len() as int),
            step_time(cmds[0], time),
            m1,
        ));
    }
}

} // verus!
