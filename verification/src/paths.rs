//! Which form of a file's path is handed to the TLS library that picoquic uses,
//! and where its temporary files stand.

use vstd::prelude::*;

verus! {

/// What to do next to find the path to hand on.
#[derive(Clone, Copy, Debug, PartialEq, Eq, Structural)]
pub enum PathStep {
    /// Hand on the path as it was given.
    Given,
    /// Ask the file system for the canonical path.
    Canonicalize,
    /// Hand on the canonical path.
    Canonical,
    /// Ask Windows how long the short path is.
    MeasureShort,
    /// Ask Windows for the short path, with a buffer for `room` code units.
    ReadShort { room: u32 },
    /// Hand on the short path, which is as many code units long as Windows said.
    Short { written: u32 },
}

/// The first step for a path.
pub open spec fn path_start(windows: bool, temporary: bool) -> PathStep {
    if !windows {
        PathStep::Given
    } else if temporary {
        PathStep::Canonicalize
    } else {
        PathStep::MeasureShort
    }
}

/// The step after the canonical path was asked for and `found` or not.
pub open spec fn path_after_canonicalize(found: bool) -> PathStep {
    if found {
        PathStep::Canonical
    } else {
        PathStep::Given
    }
}

/// The step after Windows said how long the short path is, 0 if there is none.
pub open spec fn path_after_measure(len: u32) -> PathStep {
    if len == 0 {
        PathStep::Given
    } else {
        PathStep::ReadShort { room: (len + 1) as u32 }
    }
}

/// The step after Windows wrote the short path, 0 code units if it failed.
pub open spec fn path_after_read(written: u32) -> PathStep {
    if written == 0 {
        PathStep::Given
    } else {
        PathStep::Short { written }
    }
}

impl PathStep {
    /// The first step for a path: on Windows, where the file may be one of the
    /// temporary files of this program, or elsewhere.
    pub fn start(windows: bool, temporary: bool) -> (step: PathStep)
        ensures
            step == path_start(windows, temporary),
    {
        if !windows {
            PathStep::Given
        } else if temporary {
            PathStep::Canonicalize
        } else {
            PathStep::MeasureShort
        }
    }

    /// The step after `Canonicalize`, whether a canonical path was `found` or
    /// not.
    pub fn after_canonicalize(found: bool) -> (step: PathStep)
        ensures
            step == path_after_canonicalize(found),
    {
        if found {
            PathStep::Canonical
        } else {
            PathStep::Given
        }
    }

    /// The step after `MeasureShort`, with the length that Windows gave.
    pub fn after_measure(len: u32) -> (step: PathStep)
        requires
            len < u32::MAX,
        ensures
            step == path_after_measure(len),
    {
        if len == 0 {
            PathStep::Given
        } else {
            PathStep::ReadShort { room: len + 1 }
        }
    }

    /// The step after `ReadShort`, with the number of code units that Windows
    /// wrote.
    pub fn after_read(written: u32) -> (step: PathStep)
        ensures
            step == path_after_read(written),
    {
        if written == 0 {
            PathStep::Given
        } else {
            PathStep::Short { written }
        }
    }
}

/// The front of `buffer` that is `written` code units long, or all of it.
pub open spec fn cut(buffer: Seq<u16>, written: nat) -> Seq<u16> {
    if written < buffer.len() {
        buffer.take(written as int)
    } else {
        buffer
    }
}

/// The short path in a buffer that Windows wrote `written` code units to.
pub fn short_path(buffer: Vec<u16>, written: u32) -> (path: Vec<u16>)
    ensures
        path@ == if written < buffer@.len() {
            buffer@.take(written as int)
        } else {
            buffer@
        },
        path@ == cut(buffer@, written as nat),
{
    let mut path = buffer;
    let keep: usize = written as usize;
    if keep < path.len() {
        path.truncate(keep);
    }
    path
}

/// The name of the directory that holds the temporary certificates and keys: on
/// Windows one in the current directory, elsewhere one in the system's directory
/// for temporary files.
pub fn temp_dir_name(windows: bool) -> (name: &'static str)
    ensures
        name@ == if windows {
            "proxy_server_picoquic_temp"@
        } else {
            "proxy_server_picoquic"@
        },
{
    if windows {
        "proxy_server_picoquic_temp"
    } else {
        "proxy_server_picoquic"
    }
}

/// The short path is asked for only on Windows and only for files that are not
/// temporary files of this program, and a buffer for it has room for as many
/// code units as Windows said, and one more.
pub proof fn law_short_paths(windows: bool, temporary: bool, len: u32)
    requires
        len < u32::MAX,
    ensures
        path_start(windows, temporary) is MeasureShort <==> windows && !temporary,
        path_after_measure(len) matches PathStep::ReadShort { room } ==> room == len + 1,
{
}

/// Whatever fails on the way, the path as it was given is handed on.
pub proof fn law_path_falls_back(temporary: bool)
    ensures
        path_start(false, temporary) == PathStep::Given,
        path_after_canonicalize(false) == PathStep::Given,
        path_after_measure(0) == PathStep::Given,
        path_after_read(0) == PathStep::Given,
{
}

/// What the file system and Windows give is used: a canonical path that was found
/// is handed on; a short path of any length is asked for with room for it; and a
/// short path that was written is handed on in the length that was written. A
/// temporary file's path is made canonical, on Windows alone.
pub proof fn law_path_is_found(windows: bool, temporary: bool, len: u32, written: u32)
    requires
        len < u32::MAX,
    ensures
        path_start(windows, temporary) is Canonicalize <==> windows && temporary,
        path_start(windows, temporary) is Given <==> !windows,
        path_after_canonicalize(true) is Canonical,
        len > 0 ==> (path_after_measure(len) matches PathStep::ReadShort { room } && room > len),
        written > 0 ==> path_after_read(written) == (PathStep::Short { written }),
{
}

/// A path that is cut is the front of its buffer: as long as what was written, or
/// as the buffer if that is shorter, and the same code units up to there.
pub proof fn law_cut(buffer: Seq<u16>, written: nat, i: int)
    ensures
        cut(buffer, written).len() == if written <= buffer.len() {
            written
        } else {
            buffer.len()
        },
        0 <= i < cut(buffer, written).len() ==> cut(buffer, written)[i] == buffer[i],
{
}

} // verus!
