//! Chunked file transfer: the accounting of an upload and of a download.
//!
//! The engines decide and count; the caller performs each read and write they
//! ask for and reports how many bytes it got.
use vstd::prelude::*;
use crate::error::SessionError;
use crate::frame::{
    decode_metadata, encode_metadata, lemma_metadata_colon_in_name, lemma_metadata_text,
    TransferMetadata,
};
use crate::text::{lacks, trim};

verus! {

/// The most bytes moved by one read or write of a transfer.
pub const CHUNK_SIZE: usize = 1024;

/// The number of chunks of at most `chunk` bytes that `size` bytes take.
pub open spec fn chunk_count_spec(size: nat, chunk: nat) -> nat
    recommends
        chunk > 0,
{
    size / chunk + if size % chunk > 0 {
        1nat
    } else {
        0nat
    }
}

/// The number of chunks of at most `chunk_size` bytes that `size` bytes take.
pub fn chunk_count(size: u64, chunk_size: u64) -> (r: u64)
    requires
        chunk_size > 0,
    ensures
        r == chunk_count_spec(size as nat, chunk_size as nat),
{
    let q = size / chunk_size;
    if size % chunk_size > 0 {
        assert(q < u64::MAX) by {
            if chunk_size == 1 {
                assert(size % chunk_size == 0);
            } else {
                assert(size / chunk_size <= size / 2) by {
                    vstd::arithmetic::div_mod::lemma_div_is_ordered_by_denominator(
                        size as int,
                        2,
                        chunk_size as int,
                    );
                }
            }
        }
        q + 1
    } else {
        q
    }
}

/// The state of an upload, as numbers.
pub struct UploadView {
    /// The size announced in the metadata frame.
    pub size: nat,
    /// The number of chunks the upload makes at most.
    pub chunks: nat,
    pub chunks_sent: nat,
    pub bytes_sent: nat,
    /// A read came back empty: the file ended early.
    pub stopped: bool,
}

/// The accounting of one upload.
pub struct Upload {
    size: u64,
    chunks: u64,
    chunks_sent: u64,
    bytes_sent: u64,
    stopped: bool,
}

impl View for Upload {
    type V = UploadView;

    closed spec fn view(&self) -> UploadView {
        UploadView {
            size: self.size as nat,
            chunks: self.chunks as nat,
            chunks_sent: self.chunks_sent as nat,
            bytes_sent: self.bytes_sent as nat,
            stopped: self.stopped,
        }
    }
}

/// What holds of an upload at every step: it makes the chunks that its size
/// takes, and never sends more bytes than it announced.
pub open spec fn upload_inv(u: UploadView) -> bool {
    &&& u.chunks == chunk_count_spec(u.size, CHUNK_SIZE as nat)
    &&& u.chunks_sent <= u.chunks
    &&& u.bytes_sent <= u.size
    &&& u.bytes_sent <= u.chunks_sent * CHUNK_SIZE
}

/// An upload ends after its chunks, or at the first empty read.
pub open spec fn upload_done(u: UploadView) -> bool {
    u.stopped || u.chunks_sent == u.chunks
}

/// The bytes the next chunk reads at most: a chunk, or what is left to send.
pub open spec fn upload_want(u: UploadView) -> nat {
    if u.size - u.bytes_sent < CHUNK_SIZE {
        (u.size - u.bytes_sent) as nat
    } else {
        CHUNK_SIZE as nat
    }
}

impl Upload {
    /// An upload of a file of `size` bytes, nothing sent yet.
    pub fn new(size: u64) -> (r: Upload)
        ensures
            r@ == (UploadView {
                size: size as nat,
                chunks: chunk_count_spec(size as nat, CHUNK_SIZE as nat),
                chunks_sent: 0,
                bytes_sent: 0,
                stopped: false,
            }),
            upload_inv(r@),
    {
        Upload {
            size,
            chunks: chunk_count(size, CHUNK_SIZE as u64),
            chunks_sent: 0,
            bytes_sent: 0,
            stopped: false,
        }
    }

    pub fn size(&self) -> (r: u64)
        ensures
            r == self@.size,
    {
        self.size
    }

    pub fn chunk_count(&self) -> (r: u64)
        ensures
            r == self@.chunks,
    {
        self.chunks
    }

    pub fn chunks_sent(&self) -> (r: u64)
        ensures
            r == self@.chunks_sent,
    {
        self.chunks_sent
    }

    pub fn bytes_sent(&self) -> (r: u64)
        ensures
            r == self@.bytes_sent,
    {
        self.bytes_sent
    }

    pub fn is_done(&self) -> (r: bool)
        ensures
            r == upload_done(self@),
    {
        self.stopped || self.chunks_sent == self.chunks
    }

    /// How many bytes to read from the file for the next chunk.
    pub fn next_read_len(&self) -> (r: usize)
        requires
            upload_inv(self@),
            !upload_done(self@),
        ensures
            r == upload_want(self@),
            0 < r <= CHUNK_SIZE,
    {
        let left = self.size - self.bytes_sent;
        if left < CHUNK_SIZE as u64 {
            left as usize
        } else {
            CHUNK_SIZE
        }
    }

    /// Records that the read for the next chunk gave `n` bytes. Where `n` is not
    /// zero, those bytes are to be sent and the progress to report is returned;
    /// an empty read ends the upload short, without an error.
    pub fn record_read(&mut self, n: usize) -> (r: Option<(u64, u64)>)
        requires
            upload_inv(old(self)@),
            !upload_done(old(self)@),
            n <= upload_want(old(self)@),
        ensures
            upload_inv(final(self)@),
            final(self)@.size == old(self)@.size,
            final(self)@.chunks == old(self)@.chunks,
            n == 0 ==> r is None && final(self)@ == (UploadView {
                stopped: true,
                ..old(self)@
            }),
            n > 0 ==> r == Some(((old(self)@.chunks_sent + 1) as u64, old(self)@.chunks as u64))
                && final(self)@ == (UploadView {
                chunks_sent: old(self)@.chunks_sent + 1,
                bytes_sent: old(self)@.bytes_sent + n as nat,
                ..old(self)@
            }),
    {
        if n == 0 {
            self.stopped = true;
            return None;
        }
        self.chunks_sent = self.chunks_sent + 1;
        self.bytes_sent = self.bytes_sent + n as u64;
        Some((self.chunks_sent, self.chunks))
    }
}

/// The state of a download, as numbers.
pub struct DownloadView {
    /// The size announced in the metadata frame.
    pub size: nat,
    pub received: nat,
}

/// The accounting of one download.
pub struct Download {
    size: u64,
    received: u64,
}

impl View for Download {
    type V = DownloadView;

    closed spec fn view(&self) -> DownloadView {
        DownloadView { size: self.size as nat, received: self.received as nat }
    }
}

/// A download never takes more bytes than were announced.
pub open spec fn download_inv(d: DownloadView) -> bool {
    d.received <= d.size
}

/// The bytes the next read takes at most: a chunk, or what is left to come.
pub open spec fn download_want(d: DownloadView) -> nat {
    if d.size - d.received < CHUNK_SIZE {
        (d.size - d.received) as nat
    } else {
        CHUNK_SIZE as nat
    }
}

impl Download {
    /// A download of the `size` bytes that a metadata frame announced.
    pub fn new(size: u64) -> (r: Download)
        ensures
            r@ == (DownloadView { size: size as nat, received: 0 }),
            download_inv(r@),
    {
        Download { size, received: 0 }
    }

    pub fn size(&self) -> (r: u64)
        ensures
            r == self@.size,
    {
        self.size
    }

    pub fn received(&self) -> (r: u64)
        ensures
            r == self@.received,
    {
        self.received
    }

    /// All announced bytes have come.
    pub fn is_done(&self) -> (r: bool)
        ensures
            r == (self@.received >= self@.size),
    {
        self.received >= self.size
    }

    /// How many bytes to read from the connection next.
    pub fn next_read_len(&self) -> (r: usize)
        requires
            download_inv(self@),
            self@.received < self@.size,
        ensures
            r == download_want(self@),
            0 < r <= CHUNK_SIZE,
    {
        let left = self.size - self.received;
        if left < CHUNK_SIZE as u64 {
            left as usize
        } else {
            CHUNK_SIZE
        }
    }

    /// Records that a read gave `n` bytes, to be appended to the file. Returns the
    /// progress `(received, size)`, or `ConnectionClosed` where the read was empty
    /// before all bytes came: the file then stays short.
    pub fn record_read(&mut self, n: usize) -> (r: Result<(u64, u64), SessionError>)
        requires
            download_inv(old(self)@),
            old(self)@.received < old(self)@.size,
            n <= download_want(old(self)@),
        ensures
            download_inv(final(self)@),
            n == 0 ==> r == Err::<(u64, u64), SessionError>(SessionError::ConnectionClosed)
                && final(self)@ == old(self)@ && final(self)@.received < final(self)@.size,
            n > 0 ==> r == Ok::<(u64, u64), SessionError>(
                ((old(self)@.received + n) as u64, old(self)@.size as u64),
            ) && final(self)@ == (DownloadView {
                received: old(self)@.received + n as nat,
                ..old(self)@
            }),
    {
        if n == 0 {
            return Err(SessionError::ConnectionClosed);
        }
        self.received = self.received + n as u64;
        Ok((self.received, self.size))
    }
}

/// Appends `src[from..from + n]` to `dst`.
fn copy_range(src: &Vec<u8>, from: usize, n: usize, dst: &mut Vec<u8>)
    requires
        from + n <= src.len(),
    ensures
        final(dst)@ == old(dst)@ + src@.subrange(from as int, from + n),
{
    let mut k: usize = 0;
    while k < n
        invariant
            from + n <= src.len(),
            k <= n,
            dst@ == old(dst)@ + src@.subrange(from as int, from + k),
        decreases n - k,
    {
        dst.push(src[from + k]);
        assert(src@.subrange(from as int, from + k + 1) == src@.subrange(from as int, from + k).push(
            src@[from + k],
        ));
        k = k + 1;
    }
}

/// Sends the file `data`, named `name`, through an upload into an in-memory
/// connection, followed there by the bytes `next` of the peer's next frame, and
/// reads it back through a download. A name with no `':'` arrives without the
/// whitespace at its ends, the bytes received are the file's, all of them, and
/// what is left on the connection is the next frame, whole. A name with a
/// `':'` makes the metadata frame malformed.
pub fn loopback(name: &str, data: &Vec<u8>, next: &Vec<u8>) -> (r: Result<
    (TransferMetadata, Vec<u8>, Vec<u8>),
    SessionError,
>)
    requires
        data.len() <= u64::MAX,
    ensures
        lacks(name@, ':') ==> (r matches Ok((m, got, rest)) && m@.filename == trim(name@)
            && m@.size == data.len() && got@ == data@ && rest@ == next@),
        !lacks(name@, ':') ==> (r matches Err(e) && e == SessionError::MalformedFrame),
{
    let size = data.len() as u64;
    let meta = TransferMetadata { filename: String::from_str(name), size };
    let frame = encode_metadata(&meta);
    proof {
        vstd::utf8::encode_utf8_valid_utf8(frame@);
        vstd::utf8::encode_utf8_decode_utf8(frame@);
        if lacks(name@, ':') {
            lemma_metadata_text(meta@);
        } else {
            lemma_metadata_colon_in_name(meta@);
        }
    }
    let received_meta = match decode_metadata(frame.as_str().as_bytes()) {
        Ok(m) => m,
        Err(e) => {
            return Err(e);
        },
    };
    let mut up = Upload::new(size);
    let mut wire: Vec<u8> = Vec::new();
    while !up.is_done()
        invariant
            upload_inv(up@),
            up@.size == size == data.len(),
            !up@.stopped,
            wire@ == data@.subrange(0, up@.bytes_sent as int),
            up@.bytes_sent == up@.chunks_sent * CHUNK_SIZE || up@.bytes_sent == up@.size,
        decreases up@.chunks - up@.chunks_sent,
    {
        let want = up.next_read_len();
        let pos = up.bytes_sent() as usize;
        copy_range(data, pos, want, &mut wire);
        up.record_read(want);
    }
    assert(up@.bytes_sent == size);
    assert(wire@ == data@);
    copy_range(next, 0, next.len(), &mut wire);
    assert(next@.subrange(0, next.len() as int) == next@);
    let mut down = Download::new(received_meta.size);
    let mut got: Vec<u8> = Vec::new();
    while !down.is_done()
        invariant
            download_inv(down@),
            down@.size == size == data.len(),
            wire@ == data@ + next@,
            got@ == wire@.subrange(0, down@.received as int),
        decreases down@.size - down@.received,
    {
        let want = down.next_read_len();
        let pos = down.received() as usize;
        copy_range(&wire, pos, want, &mut got);
        match down.record_read(want) {
            Ok(_) => {},
            Err(e) => {
                return Err(e);
            },
        }
    }
    let pos = down.received() as usize;
    let mut rest: Vec<u8> = Vec::new();
    copy_range(&wire, pos, wire.len() - pos, &mut rest);
    assert(got@ == data@);
    assert(rest@ == next@);
    Ok((received_meta, got, rest))
}

} // verus!
