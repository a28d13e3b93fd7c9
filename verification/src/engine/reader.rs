//! Reading one process in a poll.

use vstd::prelude::*;

use crate::engine::monitor::{ProcessReading, ProcessReadingView, ProcessTimes};
use crate::text::opt_text;

verus! {

/// How far the reading of a process has come.
#[derive(Debug, Clone, Copy, PartialEq, Eq, Structural)]
pub enum ReadPhase {
    Start,
    Opening,
    ReadingImagePath,
    ReadingWin32Path,
    ReadingMemory,
    ReadingTimes,
    /// The process is being closed; whether the reading is kept.
    Closing(bool),
    /// The reading is over; whether it is kept.
    Returned(bool),
}

/// What to do next.
#[derive(Debug, Clone, Copy, PartialEq, Eq, Structural)]
pub enum ReadAction {
    /// Open the process for querying.
    Open,
    /// Read the path of its image.
    ReadImagePath,
    /// Read the path of its executable.
    ReadWin32Path,
    /// Read its private working set.
    ReadMemory,
    /// Read its processor times.
    ReadTimes,
    /// Close it.
    Close,
    /// Done; the process is left out of the poll.
    Skip,
    /// Done; the reading is part of the poll.
    Keep,
}

/// What came of the last action.
#[derive(Debug)]
pub enum ReadReply {
    /// Nothing was done yet.
    Begin,
    /// Whether the process could be opened.
    Opened(bool),
    /// A path, where it could be read.
    Path(Option<String>),
    /// The private working set in bytes, where it could be read.
    Memory(Option<u64>),
    /// The processor times, where they could be read.
    Times(Option<ProcessTimes>),
    /// The process was closed.
    Closed,
}

/// The reading of a process that is under way, with what is known so far.
#[derive(Debug)]
pub struct ProcessReader {
    pub pid: u32,
    pub phase: ReadPhase,
    pub image_path: String,
    pub win32_path: Option<String>,
    pub private_bytes: u64,
    pub times: Option<ProcessTimes>,
}

/// The reply answers what the phase asked for.
pub open spec fn read_reply_fits(phase: ReadPhase, reply: ReadReply) -> bool {
    match phase {
        ReadPhase::Start => reply is Begin,
        ReadPhase::Opening => reply is Opened,
        ReadPhase::ReadingImagePath => reply is Path,
        ReadPhase::ReadingWin32Path => reply is Path,
        ReadPhase::ReadingMemory => reply is Memory,
        ReadPhase::ReadingTimes => reply is Times,
        ReadPhase::Closing(_) => reply is Closed,
        ReadPhase::Returned(_) => false,
    }
}

/// What the machine makes of a reply: the next phase and the next action. The
/// lowest ids are not looked at; a process without a name or without a known
/// working set is left out; one without a path or without times is not.
pub open spec fn read_step(pid: u32, phase: ReadPhase, reply: ReadReply) -> (ReadPhase, ReadAction) {
    match (phase, reply) {
        (ReadPhase::Start, _) => if pid >= 8 {
            (ReadPhase::Opening, ReadAction::Open)
        } else {
            (ReadPhase::Returned(false), ReadAction::Skip)
        },
        (ReadPhase::Opening, ReadReply::Opened(true)) => (
            ReadPhase::ReadingImagePath,
            ReadAction::ReadImagePath,
        ),
        (ReadPhase::Opening, _) => (ReadPhase::Returned(false), ReadAction::Skip),
        (ReadPhase::ReadingImagePath, ReadReply::Path(Some(_))) => (
            ReadPhase::ReadingWin32Path,
            ReadAction::ReadWin32Path,
        ),
        (ReadPhase::ReadingImagePath, _) => (ReadPhase::Closing(false), ReadAction::Close),
        (ReadPhase::ReadingWin32Path, _) => (ReadPhase::ReadingMemory, ReadAction::ReadMemory),
        (ReadPhase::ReadingMemory, ReadReply::Memory(Some(_))) => (
            ReadPhase::ReadingTimes,
            ReadAction::ReadTimes,
        ),
        (ReadPhase::ReadingMemory, _) => (ReadPhase::Closing(false), ReadAction::Close),
        (ReadPhase::ReadingTimes, _) => (ReadPhase::Closing(true), ReadAction::Close),
        (ReadPhase::Closing(keep), _) => (
            ReadPhase::Returned(keep),
            if keep {
                ReadAction::Keep
            } else {
                ReadAction::Skip
            },
        ),
        (ReadPhase::Returned(kept), _) => (ReadPhase::Returned(kept), ReadAction::Skip),
    }
}

/// The reading once a reply was taken in: each phase fills in what it asked for.
pub open spec fn told(reader: ProcessReader, reply: ReadReply) -> ProcessReader {
    ProcessReader {
        pid: reader.pid,
        phase: read_step(reader.pid, reader.phase, reply).0,
        image_path: match (reader.phase, reply) {
            (ReadPhase::ReadingImagePath, ReadReply::Path(Some(path))) => path,
            (_, _) => reader.image_path,
        },
        win32_path: match (reader.phase, reply) {
            (ReadPhase::ReadingWin32Path, ReadReply::Path(path)) => path,
            (_, _) => reader.win32_path,
        },
        private_bytes: match (reader.phase, reply) {
            (ReadPhase::ReadingMemory, ReadReply::Memory(Some(bytes))) => bytes,
            (_, _) => reader.private_bytes,
        },
        times: match (reader.phase, reply) {
            (ReadPhase::ReadingTimes, ReadReply::Times(times)) => times,
            (_, _) => reader.times,
        },
    }
}

impl ProcessReader {
    /// The reading of a process that is yet to start.
    pub fn new(pid: u32) -> (r: Self)
        ensures
            r.pid == pid,
            r.phase == ReadPhase::Start,
            r.image_path@ == Seq::<char>::empty(),
            r.win32_path is None,
            r.private_bytes == 0,
            r.times is None,
    {
        ProcessReader {
            pid,
            phase: ReadPhase::Start,
            image_path: String::new(),
            win32_path: None,
            private_bytes: 0,
            times: None,
        }
    }
}

/// One step of reading a process: takes what came of the last action and says
/// what to do next.
pub fn read_process(reader: &mut ProcessReader, reply: ReadReply) -> (r: ReadAction)
    requires
        read_reply_fits(old(reader).phase, reply),
    ensures
        r == read_step(old(reader).pid, old(reader).phase, reply).1,
        *final(reader) == told(*old(reader), reply),
{
    match reader.phase {
        ReadPhase::Start => {
            if reader.pid >= 8 {
                reader.phase = ReadPhase::Opening;
                ReadAction::Open
            } else {
                reader.phase = ReadPhase::Returned(false);
                ReadAction::Skip
            }
        },
        ReadPhase::Opening => match reply {
            ReadReply::Opened(true) => {
                reader.phase = ReadPhase::ReadingImagePath;
                ReadAction::ReadImagePath
            },
            _ => {
                reader.phase = ReadPhase::Returned(false);
                ReadAction::Skip
            },
        },
        ReadPhase::ReadingImagePath => match reply {
            ReadReply::Path(Some(path)) => {
                reader.image_path = path;
                reader.phase = ReadPhase::ReadingWin32Path;
                ReadAction::ReadWin32Path
            },
            _ => {
                reader.phase = ReadPhase::Closing(false);
                ReadAction::Close
            },
        },
        ReadPhase::ReadingWin32Path => {
            if let ReadReply::Path(path) = reply {
                reader.win32_path = path;
            }
            reader.phase = ReadPhase::ReadingMemory;
            ReadAction::ReadMemory
        },
        ReadPhase::ReadingMemory => match reply {
            ReadReply::Memory(Some(bytes)) => {
                reader.private_bytes = bytes;
                reader.phase = ReadPhase::ReadingTimes;
                ReadAction::ReadTimes
            },
            _ => {
                reader.phase = ReadPhase::Closing(false);
                ReadAction::Close
            },
        },
        ReadPhase::ReadingTimes => {
            if let ReadReply::Times(times) = reply {
                reader.times = times;
            }
            reader.phase = ReadPhase::Closing(true);
            ReadAction::Close
        },
        ReadPhase::Closing(keep) => {
            reader.phase = ReadPhase::Returned(keep);
            if keep {
                ReadAction::Keep
            } else {
                ReadAction::Skip
            }
        },
        ReadPhase::Returned(_) => ReadAction::Skip,
    }
}

/// The reading that was kept, with the icon of the process and the time.
pub fn finish_reading(reader: ProcessReader, icon_data_url: Option<String>, read_at: u64) -> (r:
    ProcessReading)
    ensures
        r@ == (ProcessReadingView {
            pid: reader.pid,
            image_path: reader.image_path@,
            win32_path: opt_text(reader.win32_path),
            private_bytes: reader.private_bytes,
            times: reader.times,
            icon_data_url: opt_text(icon_data_url),
            read_at,
        }),
{
    ProcessReading {
        pid: reader.pid,
        image_path: reader.image_path,
        win32_path: reader.win32_path,
        private_bytes: reader.private_bytes,
        times: reader.times,
        icon_data_url,
        read_at,
    }
}

/// How the operating system answers the reading of one process.
pub struct ReadAnswers {
    pub opened: bool,
    pub image_path: Option<String>,
    pub win32_path: Option<String>,
    pub memory: Option<u64>,
    pub times: Option<ProcessTimes>,
}

/// The reply to the action that led into `phase`.
pub open spec fn read_answer(phase: ReadPhase, answers: ReadAnswers) -> ReadReply {
    match phase {
        ReadPhase::Start => ReadReply::Begin,
        ReadPhase::Opening => ReadReply::Opened(answers.opened),
        ReadPhase::ReadingImagePath => ReadReply::Path(answers.image_path),
        ReadPhase::ReadingWin32Path => ReadReply::Path(answers.win32_path),
        ReadPhase::ReadingMemory => ReadReply::Memory(answers.memory),
        ReadPhase::ReadingTimes => ReadReply::Times(answers.times),
        _ => ReadReply::Closed,
    }
}

/// How many actions are left at most.
pub open spec fn read_steps_left(phase: ReadPhase) -> nat {
    match phase {
        ReadPhase::Start => 7,
        ReadPhase::Opening => 6,
        ReadPhase::ReadingImagePath => 5,
        ReadPhase::ReadingWin32Path => 4,
        ReadPhase::ReadingMemory => 3,
        ReadPhase::ReadingTimes => 2,
        ReadPhase::Closing(_) => 1,
        ReadPhase::Returned(_) => 0,
    }
}

/// All actions of a reading from `phase` on.
pub open spec fn read_run(pid: u32, phase: ReadPhase, answers: ReadAnswers) -> Seq<ReadAction>
    decreases read_steps_left(phase),
{
    if phase is Returned {
        Seq::empty()
    } else {
        let (next, action) = read_step(pid, phase, read_answer(phase, answers));
        seq![action] + read_run(pid, next, answers)
    }
}

/// The reading as it is left in the end.
pub open spec fn read_to_the_end(reader: ProcessReader, answers: ReadAnswers) -> ProcessReader
    decreases read_steps_left(reader.phase),
{
    if reader.phase is Returned {
        reader
    } else {
        read_to_the_end(told(reader, read_answer(reader.phase, answers)), answers)
    }
}

/// A reading that is kept holds what the operating system answered: the paths, the
/// working set and the times.
pub proof fn a_kept_reading_holds_the_answers(reader: ProcessReader, answers: ReadAnswers)
    requires
        reader.phase == ReadPhase::Start,
    ensures
        ({
            let end = read_to_the_end(reader, answers);
            let kept = reader.pid >= 8 && answers.opened && answers.image_path is Some
                && answers.memory is Some;
            &&& end.phase == ReadPhase::Returned(kept)
            &&& end.pid == reader.pid
            &&& kept ==> {
                &&& Some(end.image_path) == answers.image_path
                &&& end.win32_path == answers.win32_path
                &&& Some(end.private_bytes) == answers.memory
                &&& end.times == answers.times
            }
        }),
{
    reveal_with_fuel(read_to_the_end, 8);
}

/// However the operating system answers, a reading ends, a process that was
/// opened is closed, and it is part of the poll just where it has a name and a
/// known working set and is none of the system's own.
pub proof fn a_reading_ends_and_closes(pid: u32, answers: ReadAnswers)
    ensures
        ({
            let run = read_run(pid, ReadPhase::Start, answers);
            let kept = pid >= 8 && answers.opened && answers.image_path is Some
                && answers.memory is Some;
            &&& run.len() > 0
            &&& run.last() == (if kept {
                ReadAction::Keep
            } else {
                ReadAction::Skip
            })
            &&& run.contains(ReadAction::Open) <==> pid >= 8
            &&& run.contains(ReadAction::Close) <==> pid >= 8 && answers.opened
        }),
{
    reveal_with_fuel(read_run, 8);
    let run = read_run(pid, ReadPhase::Start, answers);
    if pid < 8 {
        assert(run.len() == 1);
    } else {
        assert(run[0] == ReadAction::Open);
        if !answers.opened {
            assert(run.len() == 2);
        } else {
            assert(run[1] == ReadAction::ReadImagePath);
            if answers.image_path is None {
                assert(run[2] == ReadAction::Close);
                assert(run.len() == 4);
            } else {
                assert(run[2] == ReadAction::ReadWin32Path);
                assert(run[3] == ReadAction::ReadMemory);
                if answers.memory is None {
                    assert(run[4] == ReadAction::Close);
                    assert(run.len() == 6);
                } else {
                    assert(run[4] == ReadAction::ReadTimes);
                    assert(run[5] == ReadAction::Close);
                    assert(run.len() == 7);
                }
            }
        }
    }
}

/// A reading opens the process, reads its image path, its executable path, its memory
/// and its times, as far as it gets, and closes it behind that.
pub proof fn a_reading_takes_its_steps(pid: u32, answers: ReadAnswers)
    ensures
        ({
            let run = read_run(pid, ReadPhase::Start, answers);
            &&& pid < 8 ==> run == seq![
                ReadAction::Skip,
            ]
            &&& pid >= 8 && !answers.opened ==> run == seq![
                ReadAction::Open,
                ReadAction::Skip,
            ]
            &&& pid >= 8 && answers.opened && answers.image_path is None ==> run == seq![
                ReadAction::Open,
                ReadAction::ReadImagePath,
                ReadAction::Close,
                ReadAction::Skip,
            ]
            &&& pid >= 8 && answers.opened && answers.image_path is Some && answers.memory is None ==> run == seq![
                ReadAction::Open,
                ReadAction::ReadImagePath,
                ReadAction::ReadWin32Path,
                ReadAction::ReadMemory,
                ReadAction::Close,
                ReadAction::Skip,
            ]
            &&& pid >= 8 && answers.opened && answers.image_path is Some && answers.memory is Some ==> run == seq![
                ReadAction::Open,
                ReadAction::ReadImagePath,
                ReadAction::ReadWin32Path,
                ReadAction::ReadMemory,
                ReadAction::ReadTimes,
                ReadAction::Close,
                ReadAction::Keep,
            ]
        }),
{
    reveal_with_fuel(read_run, 8);
    let run = read_run(pid, ReadPhase::Start, answers);
    if pid < 8 {
        assert(run =~= seq![
            ReadAction::Skip,
        ]);
    }
    if pid >= 8 && !answers.opened {
        assert(run =~= seq![
            ReadAction::Open,
            ReadAction::Skip,
        ]);
    }
    if pid >= 8 && answers.opened && answers.image_path is None {
        assert(run =~= seq![
            ReadAction::Open,
            ReadAction::ReadImagePath,
            ReadAction::Close,
            ReadAction::Skip,
        ]);
    }
    if pid >= 8 && answers.opened && answers.image_path is Some && answers.memory is None {
        assert(run =~= seq![
            ReadAction::Open,
            ReadAction::ReadImagePath,
            ReadAction::ReadWin32Path,
            ReadAction::ReadMemory,
            ReadAction::Close,
            ReadAction::Skip,
        ]);
    }
    if pid >= 8 && answers.opened && answers.image_path is Some && answers.memory is Some {
        assert(run =~= seq![
            ReadAction::Open,
            ReadAction::ReadImagePath,
            ReadAction::ReadWin32Path,
            ReadAction::ReadMemory,
            ReadAction::ReadTimes,
            ReadAction::Close,
            ReadAction::Keep,
        ]);
    }
}

} // verus!
