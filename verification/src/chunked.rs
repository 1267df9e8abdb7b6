//! Reading a chunked body: a decoder that tells the reader what to read next (a size
//! line, so many data bytes, a trailer line) and collects the data. The reader does the
//! stream I/O; every decision and limit is here.
//!
//! The decoded body never exceeds [`MAX_BODY_BYTES`], and no chunk exceeds
//! [`MAX_CHUNK_BYTES`]: a size line announcing more is an error.
use vstd::prelude::*;
use crate::error::ProxyError;
use crate::http1::{
    check_chunk_limits, chunk_size_text, crlf, ends_with_bytes, ends_with_bytes_exec,
    int_error_text, parse_chunk_size, parse_hex, IntErrorKind, MAX_BODY_BYTES, MAX_CHUNK_BYTES,
};
use crate::text::{from_utf8_lossy, utf8_lossy};

verus! {

/// What the reader has to read next.
#[derive(Debug, Clone, Copy, PartialEq, Eq)]
pub enum ChunkRead {
    /// A chunk-size line, up to and including its `\r\n` (the end of the stream is an
    /// error, and so is a line longer than the head limit).
    SizeLine,
    /// This many data bytes, then the two bytes that end the chunk (which are skipped).
    Data(usize),
    /// A trailer line, up to and including its `\r\n`, or up to the end of the stream.
    TrailerLine,
    /// The body is complete.
    Done,
}

/// The state of reading one chunked body.
pub struct ChunkedBody {
    body: Vec<u8>,
    next: ChunkRead,
}

/// The size announced by a size line (read as bytes, decoded leniently).
pub open spec fn announced_size(line: Seq<u8>) -> Result<nat, IntErrorKind> {
    parse_hex(chunk_size_text(utf8_lossy(line)), usize::MAX as nat)
}

/// A chunk of `n` bytes after `len` bytes of body breaks a limit.
pub open spec fn over_limit(len: nat, n: nat) -> bool {
    n > MAX_CHUNK_BYTES || len + n > MAX_BODY_BYTES
}

/// Whether a line read so far is complete (ends with `\r\n`).
pub fn line_complete(line: &Vec<u8>) -> (r: bool)
    ensures
        r == ends_with_bytes(line@, crlf()),
{
    let t: Vec<u8> = vec![13u8, 10u8];
    assert(t@ =~= crlf());
    ends_with_bytes_exec(line, &t)
}

impl ChunkedBody {
    #[verifier::type_invariant]
    spec fn within_limits(self) -> bool {
        &&& self.body.len() <= MAX_BODY_BYTES
        &&& self.next matches ChunkRead::Data(n) ==> n <= MAX_CHUNK_BYTES && self.body.len() + n
            <= MAX_BODY_BYTES
    }

    /// The data decoded so far.
    pub closed spec fn decoded(&self) -> Seq<u8> {
        self.body@
    }

    /// What is to be read next.
    pub closed spec fn expects(&self) -> ChunkRead {
        self.next
    }

    /// A decoder at the start of a body: it expects a size line.
    pub fn new() -> (r: Self)
        ensures
            r.decoded() == Seq::<u8>::empty(),
            r.expects() == ChunkRead::SizeLine,
    {
        ChunkedBody { body: Vec::new(), next: ChunkRead::SizeLine }
    }

    pub fn next_read(&self) -> (r: ChunkRead)
        ensures
            r == self.expects(),
    {
        self.next
    }

    /// Takes a size line. A size of 0 ends the data and trailer lines follow; another
    /// size within the limits announces that many data bytes. An unreadable size is
    /// `HttpParse("invalid chunk size '<text>': <reason>")`, a size over a limit is
    /// `HttpParse("chunked body exceeds 67108864 bytes limit")`; on an error nothing
    /// changes.
    pub fn size_line(&mut self, line: &[u8]) -> (r: Result<(), ProxyError>)
        requires
            old(self).expects() == ChunkRead::SizeLine,
        ensures
            final(self).decoded() == old(self).decoded(),
            final(self).decoded().len() <= MAX_BODY_BYTES,
            r is Err ==> final(self).expects() == old(self).expects(),
            match announced_size(line@) {
                Err(k) => r matches Err(ProxyError::HttpParse(m)) && m@ == "invalid chunk size '"@
                    + chunk_size_text(utf8_lossy(line@)) + "': "@ + int_error_text(k),
                Ok(n) => if n == 0 {
                    r is Ok && final(self).expects() == ChunkRead::TrailerLine
                } else if over_limit(old(self).decoded().len(), n) {
                    r matches Err(ProxyError::HttpParse(m)) && m@
                        == "chunked body exceeds 67108864 bytes limit"@
                } else {
                    r is Ok && final(self).expects() == ChunkRead::Data(n as usize)
                },
            },
    {
        proof {
            use_type_invariant(&*self);
        }
        let text = from_utf8_lossy(line);
        let size = match parse_chunk_size(text.as_str()) {
            Ok(n) => n,
            Err(e) => return Err(e),
        };
        if size == 0 {
            self.next = ChunkRead::TrailerLine;
            return Ok(());
        }
        match check_chunk_limits(self.body.len(), size) {
            Ok(()) => {},
            Err(e) => return Err(e),
        }
        self.next = ChunkRead::Data(size);
        Ok(())
    }

    /// Takes the data of the announced chunk; a size line is next.
    pub fn data(&mut self, chunk: Vec<u8>)
        requires
            old(self).expects() == ChunkRead::Data(chunk.len()),
        ensures
            final(self).decoded() == old(self).decoded() + chunk@,
            final(self).decoded().len() <= MAX_BODY_BYTES,
            final(self).expects() == ChunkRead::SizeLine,
    {
        proof {
            use_type_invariant(&*self);
        }
        let mut cur = ChunkedBody { body: Vec::new(), next: ChunkRead::Done };
        std::mem::swap(self, &mut cur);
        let ChunkedBody { mut body, next: _ } = cur;
        let mut chunk = chunk;
        body.append(&mut chunk);
        *self = ChunkedBody { body, next: ChunkRead::SizeLine };
    }

    /// Takes a trailer line, or `None` for the end of the stream: the end of the stream
    /// or an empty line completes the body; other trailer lines are skipped.
    pub fn trailer_line(&mut self, line: Option<&Vec<u8>>)
        requires
            old(self).expects() == ChunkRead::TrailerLine,
        ensures
            final(self).decoded() == old(self).decoded(),
            final(self).decoded().len() <= MAX_BODY_BYTES,
            final(self).expects() == (if line is None || line.unwrap()@ == crlf() {
                ChunkRead::Done
            } else {
                ChunkRead::TrailerLine
            }),
    {
        proof {
            use_type_invariant(&*self);
        }
        let end = match line {
            None => true,
            Some(l) => {
                let e = l.len() == 2 && l[0] == 13u8 && l[1] == 10u8;
                proof {
                    if e {
                        assert(l@ =~= crlf());
                    }
                }
                e
            },
        };
        if end {
            self.next = ChunkRead::Done;
        }
    }

    /// The decoded body.
    pub fn into_body(self) -> (r: Vec<u8>)
        ensures
            r@ == self.decoded(),
            r@.len() <= MAX_BODY_BYTES,
    {
        proof {
            use_type_invariant(&self);
        }
        let ChunkedBody { body, next: _ } = self;
        body
    }
}

} // verus!
