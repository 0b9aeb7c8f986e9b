//! What the files on disk hold, and what the requests of the agent's
//! operations do to it: the model the laws over whole operations are
//! stated in.

use vstd::prelude::*;
use crate::fsproto::{reply_done, reply_made, FsReplyV, FsRequestV, MakeReply};

verus! {

/// The bytes of `c` after `d` is written at `off`: what lay before `off`
/// is kept (a gap past the end filled with zeros), `d` follows, and what
/// lay beyond its end is kept.
pub open spec fn write_at(c: Seq<u8>, off: int, d: Seq<u8>) -> Seq<u8> {
    let head = if off <= c.len() {
        c.take(off)
    } else {
        c + Seq::new((off - c.len()) as nat, |i: int| 0u8)
    };
    let tail = if off + d.len() < c.len() {
        c.skip(off + d.len())
    } else {
        Seq::empty()
    };
    head + d + tail
}

/// What the files on disk hold, by path, after a request was answered `r`:
/// a file made anew starts empty, a file written whole holds what was
/// written, a removed file is gone, a renamed file moves with its bytes, a
/// write lands at its offset; the other requests
/// leave the contents of the files as they were.
pub open spec fn disk_after(disk: Map<Seq<char>, Seq<u8>>, q: FsRequestV, r: FsReplyV) -> Map<
    Seq<char>,
    Seq<u8>,
> {
    match q {
        FsRequestV::MakeNewFile(p) => if reply_made(r) is Made {
            disk.insert(p, Seq::empty())
        } else {
            disk
        },
        FsRequestV::RemoveFile(p) => if reply_done(r) {
            disk.remove(p)
        } else {
            disk
        },
        FsRequestV::Rename(a, b) => if reply_done(r) && disk.contains_key(a) {
            disk.remove(a).insert(b, disk[a])
        } else {
            disk
        },
        FsRequestV::WriteFile(p, d) => if reply_done(r) {
            disk.insert(p, d)
        } else {
            disk
        },
        FsRequestV::WriteAt(p, off, d) => if reply_done(r) && disk.contains_key(p) {
            disk.insert(p, write_at(disk[p], off as int, d))
        } else {
            disk
        },
        _ => disk,
    }
}

/// Whether a request leaves what every file holds as it was.
pub open spec fn keeps_contents(q: FsRequestV) -> bool {
    !(q is MakeNewFile || q is RemoveFile || q is Rename || q is WriteAt || q is WriteFile)
}

/// The bytes a read of at most `n` bytes at `off` gets from a file holding
/// `c`: those from `off` up to `n` bytes on, or to the end.
pub open spec fn read_at(c: Seq<u8>, off: int, n: int) -> Seq<u8> {
    c.subrange(off, if off + n <= c.len() { off + n } else { c.len() as int })
}

/// A read at the offset of a write gets back what was written: after `d`
/// is written at `off` (at most the file's length), the file is at least
/// `off + d.len()` long and its bytes from `off` are `d`; bytes before
/// `off` are as they were.
pub proof fn lemma_read_after_write(c: Seq<u8>, off: int, d: Seq<u8>)
    requires
        0 <= off <= c.len(),
    ensures
        write_at(c, off, d).len() >= off + d.len(),
        read_at(write_at(c, off, d), off, d.len() as int) == d,
        write_at(c, off, d).take(off) == c.take(off),
{
    let w = write_at(c, off, d);
    assert(w.subrange(off, off + d.len()) =~= d);
    assert(w.take(off) =~= c.take(off));
}

} // verus!
