//! The access log buffer: request lines are kept in memory and written out
//! in chunks, so that frequent polling does not cost one write per request.
use vstd::prelude::*;

use crate::text::push_all;

verus! {

/// A full buffer holds this many lines; the line that fills it hands the
/// whole buffer out at once.
pub const FLUSH_LINES: usize = 1024;

/// The text of a run of lines, one after the other.
pub open spec fn joined(lines: Seq<String>) -> Seq<char>
    decreases lines.len(),
{
    if lines.len() == 0 {
        Seq::empty()
    } else {
        joined(lines.drop_last()) + lines.last()@
    }
}

/// One line of the log: `{stamp} {method} {url}` and a line break.
pub open spec fn log_line(stamp: Seq<char>, method: Seq<char>, url: Seq<char>) -> Seq<char> {
    stamp + " "@ + method + " "@ + url + "\n"@
}

/// The text of an optional chunk, empty when there is none.
pub open spec fn chunk_text(c: Option<String>) -> Seq<char> {
    match c {
        Some(s) => s@,
        None => Seq::empty(),
    }
}

/// The log file and the lines not yet written to it.
#[derive(Debug)]
pub struct AccessLog {
    path: String,
    buffer: Vec<String>,
}

impl AccessLog {
    /// The log file.
    pub closed spec fn path_view(&self) -> Seq<char> {
        self.path@
    }

    /// The text waiting to be written, in the order it was logged.
    pub closed spec fn pending(&self) -> Seq<char> {
        joined(self.buffer@)
    }

    /// Lines waiting to be written.
    pub closed spec fn lines(&self) -> nat {
        self.buffer@.len()
    }

    /// A log that writes to the file `path`, with nothing waiting.
    pub fn new(path: &str) -> (l: AccessLog)
        ensures
            l.path_view() == path@,
            l.pending().len() == 0,
            l.lines() == 0,
    {
        AccessLog { path: path.to_owned(), buffer: Vec::new() }
    }

    /// The log file.
    pub fn path(&self) -> (p: &str)
        ensures
            p@ == self.path_view(),
    {
        self.path.as_str()
    }

    fn take_all(&mut self) -> (chunk: String)
        ensures
            chunk@ == old(self).pending(),
            final(self).lines() == 0,
            final(self).pending().len() == 0,
            final(self).path_view() == old(self).path_view(),
    {
        let mut chunk = String::new();
        let mut i: usize = 0;
        while i < self.buffer.len()
            invariant
                i <= self.buffer.len(),
                chunk@ == joined(self.buffer@.take(i as int)),
            decreases self.buffer.len() - i,
        {
            push_all(&mut chunk, self.buffer[i].as_str());
            assert(self.buffer@.take(i + 1).drop_last() =~= self.buffer@.take(i as int));
            i = i + 1;
        }
        assert(self.buffer@.take(self.buffer.len() as int) =~= self.buffer@);
        self.buffer = Vec::new();
        chunk
    }

    /// Logs a request with the given time stamp.  The line that fills the
    /// buffer hands out everything waiting, itself included, as one chunk to
    /// append to the file.
    pub fn push_line(&mut self, stamp: &str, method: &str, url: &str) -> (chunk: Option<String>)
        ensures
            old(self).pending() + log_line(stamp@, method@, url@) == chunk_text(chunk)
                + final(self).pending(),
            chunk is Some <==> old(self).lines() + 1 >= FLUSH_LINES,
            chunk is Some ==> final(self).lines() == 0 && final(self).pending().len() == 0,
            chunk is Some ==> chunk_text(chunk) == old(self).pending() + log_line(stamp@, method@, url@),
            chunk is None ==> final(self).lines() == old(self).lines() + 1,
            final(self).path_view() == old(self).path_view(),
    {
        let mut line = stamp.to_owned();
        push_all(&mut line, " ");
        push_all(&mut line, method);
        push_all(&mut line, " ");
        push_all(&mut line, url);
        push_all(&mut line, "\n");
        let ghost before = self.buffer@;
        self.buffer.push(line);
        assert(self.buffer@.drop_last() =~= before);
        if self.buffer.len() >= FLUSH_LINES {
            let chunk = self.take_all();
            assert(chunk_text(Some(chunk)) + Seq::<char>::empty() =~= chunk@);
            Some(chunk)
        } else {
            assert(Seq::<char>::empty() + joined(self.buffer@) =~= joined(self.buffer@));
            None
        }
    }

    /// Logs a request stamped with the current time (see [`AccessLog::push_line`]).
    pub fn push(&mut self, method: &str, url: &str) -> (chunk: Option<String>)
        ensures
            exists|stamp: Seq<char>|
                old(self).pending() + log_line(stamp, method@, url@) == chunk_text(chunk)
                    + final(self).pending(),
            chunk is Some <==> old(self).lines() + 1 >= FLUSH_LINES,
            chunk is Some ==> final(self).lines() == 0 && final(self).pending().len() == 0,
            chunk is Some ==> exists|stamp: Seq<char>|
                chunk_text(chunk) == old(self).pending() + log_line(stamp, method@, url@),
            chunk is None ==> final(self).lines() == old(self).lines() + 1,
            final(self).path_view() == old(self).path_view(),
    {
        let stamp = crate::clock::now_iso();
        self.push_line(stamp.as_str(), method, url)
    }

    /// Hands out everything waiting as one chunk to append to the file;
    /// nothing when nothing waits.
    pub fn flush(&mut self) -> (chunk: Option<String>)
        ensures
            chunk_text(chunk) == old(self).pending(),
            final(self).pending().len() == 0,
            final(self).lines() == 0,
            chunk is None <==> old(self).lines() == 0,
            final(self).path_view() == old(self).path_view(),
    {
        if self.buffer.len() == 0 {
            return None;
        }
        Some(self.take_all())
    }
}

} // verus!
