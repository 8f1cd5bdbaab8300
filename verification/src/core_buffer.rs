use vstd::prelude::*;
use vstd::string::*;

use crate::error::Error;

verus! {

/// The buffer first offered to MaaCore for an image or a uuid (4 MiB).
pub const INITIAL_BUFFER: usize = 4194304;

/// The largest buffer offered before giving up (64 MiB).
pub const MAX_BUFFER: usize = 67108864;

/// What to do after MaaCore answered a read into a buffer of some size.
pub enum ReadStep {
    /// The buffer was too small: offer one of this size.
    Retry { size: usize },
    /// The buffer was too small and may not grow further.
    TooLarge(Error),
    /// There was nothing to read.
    Empty,
    /// This many bytes were written.
    Filled { len: u64 },
}

/// The message when MaaCore's answer does not fit the largest buffer.
pub open spec fn too_large_text() -> Seq<char> {
    "MaaCore returned a frame larger than 67108864 bytes"@
}

/// Decides a read's next step from MaaCore's reply: `null_size` means the buffer of
/// `buf_size` bytes was too small, so it doubles until it reaches `MAX_BUFFER`; 0 means
/// nothing was there; any other reply is the number of bytes written.
pub fn read_step(buf_size: usize, reply: u64, null_size: u64) -> (r: ReadStep)
    ensures
        reply == null_size && buf_size >= MAX_BUFFER ==> (r matches ReadStep::TooLarge(
            Error::CoreLoad(m),
        ) && m@ == too_large_text()),
        reply == null_size && buf_size < MAX_BUFFER ==> r == (ReadStep::Retry {
            size: (buf_size * 2) as usize,
        }),
        reply != null_size && reply == 0 ==> r is Empty,
        reply != null_size && reply != 0 ==> r == (ReadStep::Filled { len: reply }),
{
    if reply == null_size {
        if buf_size >= MAX_BUFFER {
            return ReadStep::TooLarge(
                Error::CoreLoad(String::from_str("MaaCore returned a frame larger than 67108864 bytes")),
            );
        }
        return ReadStep::Retry { size: buf_size * 2 };
    }
    if reply == 0 {
        return ReadStep::Empty;
    }
    ReadStep::Filled { len: reply }
}

} // verus!
