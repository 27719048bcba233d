use vstd::prelude::*;
use vstd::utf8::*;

use crate::p2p::text::{bytes_to_string, string_bytes};

verus! {

broadcast use encode_utf8_valid_utf8, encode_utf8_decode_utf8;

/// The request-response protocol over which files are exchanged.
#[derive(Debug, Clone)]
pub struct FileExchangeProtocol();

/// Encodes and decodes file requests and responses on a substream.
#[derive(Clone)]
pub struct FileExchangeCodec();

/// A request for the file with the given name.
#[derive(Debug, Clone, PartialEq, Eq)]
pub struct FileRequest(pub String);

/// A file sent back in answer to a [`FileRequest`].
#[derive(Debug, Clone, PartialEq, Eq)]
pub struct FileResponse {
    pub file_name: String,
    pub file: Vec<u8>,
}

/// A [`FileResponse`] as mathematical values.
pub struct FileResponseView {
    pub file_name: Seq<char>,
    pub file: Seq<u8>,
}

impl View for FileRequest {
    type V = Seq<char>;

    open spec fn view(&self) -> Seq<char> {
        self.0@
    }
}

impl View for FileResponse {
    type V = FileResponseView;

    open spec fn view(&self) -> FileResponseView {
        FileResponseView { file_name: self.file_name@, file: self.file@ }
    }
}

/// The largest file name, in bytes, that a request or response may carry.
pub const MAX_NAME_SIZE: usize = 1_000_000;

/// The largest file, in bytes, that a response may carry.
pub const MAX_FILE_SIZE: usize = 536_870_912;

/// Why a frame could not be read or written.
#[derive(Debug, Clone, Copy, PartialEq, Eq)]
pub enum FrameError {
    /// The input ended too early, or a frame that must not be empty was.
    UnexpectedEof,
    /// A length was malformed or above the limit.
    InvalidData,
    /// Any other input or output error.
    Other,
}

/// One frame read from the start of some bytes: its contents and how many bytes it used.
pub struct Frame {
    pub contents: Vec<u8>,
    pub used: usize,
}

/// A [`Frame`] as mathematical values.
pub struct FrameView {
    pub contents: Seq<u8>,
    pub used: nat,
}

impl View for Frame {
    type V = FrameView;

    open spec fn view(&self) -> FrameView {
        FrameView { contents: self.contents@, used: self.used as nat }
    }
}

/// The outcome of reading a frame, as mathematical values.
pub open spec fn frame_result_view(r: Result<Frame, FrameError>) -> Result<FrameView, FrameError> {
    match r {
        Ok(f) => Ok(f@),
        Err(e) => Err(e),
    }
}

/// The name under which the protocol is negotiated, `/jiri-file-exchange/1`.
pub open spec fn spec_protocol_name() -> Seq<u8> {
    seq![47u8, 106, 105, 114, 105, 45, 102, 105, 108, 101, 45, 101, 120, 99, 104, 97, 110, 103, 101, 47, 49]
}

/// The unsigned variable-length encoding of `n`: seven bits per byte, least significant
/// first, the high bit set on every byte but the last.
pub open spec fn varint(n: nat) -> Seq<u8>
    decreases n,
{
    if n < 128 {
        seq![n as u8]
    } else {
        seq![((n % 128) + 128) as u8] + varint(n / 128)
    }
}

/// A length-prefixed frame: the length of `data`, then `data`.
pub open spec fn frame(data: Seq<u8>) -> Seq<u8> {
    varint(data.len()) + data
}

/// `input` begins with `prefix`.
pub open spec fn begins_with(input: Seq<u8>, prefix: Seq<u8>) -> bool {
    &&& prefix.len() <= input.len()
    &&& input.take(prefix.len() as int) == prefix
}

/// `input` begins with the frame of `data`.
pub open spec fn starts_with_frame(input: Seq<u8>, data: Seq<u8>) -> bool {
    begins_with(input, frame(data))
}

/// How many bytes the reader of a length prefix takes at most: ten where `usize` has 64
/// bits, five where it has 32.
pub open spec fn length_buffer_len() -> int {
    if usize::BITS == 64 {
        10
    } else {
        5
    }
}

/// `input` begins with a length prefix whose end byte is zero after one or more
/// continuation bytes, and is long enough for the reader of the prefix to fill its buffer.
/// Such a prefix is not minimal, the reader goes on reading past it, and it runs out of
/// room (libp2p's `read_varint` panics there).
pub open spec fn length_prefix_overruns(input: Seq<u8>) -> bool {
    &&& input.len() >= length_buffer_len()
    &&& exists|j: int|
        1 <= j < length_buffer_len() && #[trigger] input[j] == 0 && forall|i: int|
            0 <= i < j ==> input[i] >= 128
}

/// Whether `input` begins with a length prefix on which the reader overruns its buffer.
pub fn length_prefix_overruns_buffer(input: &[u8]) -> (b: bool)
    ensures
        b == length_prefix_overruns(input@),
{
    let limit: usize = if usize::BITS == 64 {
        10
    } else {
        5
    };
    if input.len() < limit {
        return false;
    }
    let mut i: usize = 0;
    while i < limit
        invariant
            limit == length_buffer_len(),
            i <= limit <= input@.len(),
            forall|k: int| 0 <= k < i ==> input@[k] >= 128,
        decreases limit - i,
    {
        if input[i] < 128 {
            let b = i > 0 && input[i] == 0;
            proof {
                if b {
                    assert(1 <= i < length_buffer_len() && input@[i as int] == 0 && forall|k: int|
                        0 <= k < i ==> input@[k] >= 128);
                } else {
                    assert forall|j: int|
                        1 <= j < length_buffer_len() && #[trigger] input@[j] == 0 implies !(
                        forall|k: int| 0 <= k < j ==> input@[k] >= 128) by {
                        if j < i {
                        } else if j == i {
                        } else {
                            assert(input@[i as int] < 128);
                        }
                    }
                }
            }
            return b;
        }
        i = i + 1;
    }
    proof {
        assert forall|j: int| 1 <= j < length_buffer_len() implies #[trigger] input@[j] != 0 by {
            assert(input@[j] >= 128);
        }
    }
    false
}

/// Every byte of the encoding of `n` but the last has its high bit set, the last has it
/// clear, and the last is not zero where `n` is not.
proof fn lemma_varint_shape(n: nat)
    ensures
        varint(n).len() >= 1,
        forall|i: int| 0 <= i < varint(n).len() - 1 ==> #[trigger] varint(n)[i] >= 128,
        varint(n)[varint(n).len() - 1] < 128,
        n > 0 ==> varint(n)[varint(n).len() - 1] != 0,
        varint(n).len() > 1 ==> n > 0,
    decreases n,
{
    if n >= 128 {
        lemma_varint_shape(n / 128);
        let head = seq![((n % 128) + 128) as u8];
        assert(varint(n) == head + varint(n / 128));
        assert forall|i: int| 0 <= i < varint(n).len() - 1 implies #[trigger] varint(n)[i] >= 128 by {
            if i > 0 {
                assert(varint(n)[i] == varint(n / 128)[i - 1]);
            }
        }
    }
}

/// An input that begins with the encoding of a length does not overrun the reader.
proof fn lemma_varint_does_not_overrun(input: Seq<u8>, n: nat)
    requires
        begins_with(input, varint(n)),
    ensures
        !length_prefix_overruns(input),
{
    lemma_varint_shape(n);
    let v = varint(n);
    let last = v.len() - 1;
    assert forall|j: int|
        1 <= j < length_buffer_len() && #[trigger] input[j] == 0 implies !(forall|i: int|
        0 <= i < j ==> input[i] >= 128) by {
        assert(input[last] == v.take(v.len() as int)[last]);
        if j < last {
            assert(input[j] == v[j]);
            assert(v[j] >= 128);
        } else if j == last {
            assert(input[j] == v[j]);
        } else {
            assert(input[last] < 128);
        }
    }
}

/// `input` ends inside a frame of at most `max_size` bytes: inside its length, where every
/// byte so far says that more follow and there are fewer than the reader takes at most;
/// or inside its data, where a length of at most `max_size` is followed by fewer bytes.
pub open spec fn ends_inside_frame(input: Seq<u8>, max_size: nat) -> bool {
    ||| (0 < input.len() < length_buffer_len() && forall|i: int|
        0 <= i < input.len() ==> #[trigger] input[i] >= 128)
    ||| exists|k: nat|
        k <= max_size && #[trigger] begins_with(input, varint(k)) && input.len() < varint(k).len() + k
}

/// What follows the name of a response holds no file: it is empty, is an empty frame, or
/// ends inside the file's frame.
pub open spec fn file_frame_missing(rest: Seq<u8>) -> bool {
    ||| rest.len() == 0
    ||| begins_with(rest, frame(Seq::empty()))
    ||| ends_inside_frame(rest, MAX_FILE_SIZE as nat)
}

/// An input that ends inside a frame does not overrun the reader.
proof fn lemma_ends_inside_frame_does_not_overrun(input: Seq<u8>, max_size: nat)
    requires
        ends_inside_frame(input, max_size),
    ensures
        !length_prefix_overruns(input),
{
    if exists|k: nat|
        k <= max_size && #[trigger] begins_with(input, varint(k)) && input.len() < varint(k).len() + k {
        let k = choose|k: nat|
            k <= max_size && #[trigger] begins_with(input, varint(k)) && input.len() < varint(k).len() + k;
        lemma_varint_does_not_overrun(input, k);
    }
}

/// An input that begins with `a + b` begins with `a`.
proof fn lemma_begins_with_prefix(input: Seq<u8>, a: Seq<u8>, b: Seq<u8>)
    requires
        begins_with(input, a + b),
    ensures
        begins_with(input, a),
{
    assert forall|i: int| 0 <= i < a.len() implies input.take(a.len() as int)[i] == a[i] by {
        assert(input.take((a + b).len() as int)[i] == (a + b)[i]);
    }
    assert(input.take(a.len() as int) =~= a);
}

/// What follows `a` in an input that begins with `a + b` begins with `b`.
proof fn lemma_begins_with_rest(input: Seq<u8>, a: Seq<u8>, b: Seq<u8>)
    requires
        begins_with(input, a + b),
    ensures
        begins_with(input.skip(a.len() as int), b),
{
    let rest = input.skip(a.len() as int);
    assert forall|i: int| 0 <= i < b.len() implies rest.take(b.len() as int)[i] == b[i] by {
        assert(rest[i] == input[a.len() + i]);
        assert(input.take((a + b).len() as int)[a.len() + i] == (a + b)[a.len() + i]);
    }
    assert(rest.take(b.len() as int) =~= b);
}

/// An input that begins with the frame of `data` does not overrun the reader.
proof fn lemma_begins_with_frame_prefix(input: Seq<u8>, data: Seq<u8>)
    requires
        begins_with(input, frame(data)),
    ensures
        !length_prefix_overruns(input),
{
    lemma_begins_with_prefix(input, varint(data.len()), data);
    lemma_varint_does_not_overrun(input, data.len());
}

/// What reading one length-prefixed frame of at most `max_size` bytes from `input` gives:
/// the frame's contents and how many bytes of `input` were used, or the error.
pub uninterp spec fn length_prefixed_read(input: Seq<u8>, max_size: usize) -> Result<FrameView, FrameError>;

/// Reads one frame with `libp2p::core::upgrade::read_length_prefixed` from the start of
/// `input`, returning its contents and the number of bytes read.
///
/// Trusted: the result is named by `length_prefixed_read`. As the source shows, an empty
/// input reads as an empty frame; a frame uses no more bytes than there are and holds at
/// most `max_size` bytes; an input that begins with the encoding of a length above
/// `max_size` is refused as invalid data; an input that ends inside a frame, in its length
/// or in its data, gives an unexpected end; and an input that begins with the frame of some
/// `data` of at most `max_size` bytes reads as `data`. The other outcomes are not stated.
/// The reader of the length panics where the length prefix overruns its buffer, so such
/// inputs are left out.
#[verifier::external_body]
fn read_length_prefixed_bytes(input: &[u8], max_size: usize) -> (r: Result<Frame, FrameError>)
    requires
        !length_prefix_overruns(input@),
    ensures
        length_prefixed_read(input@, max_size) == frame_result_view(r),
        r is Ok ==> r->Ok_0.used <= input@.len() && r->Ok_0.contents@.len() <= max_size,
        input@.len() == 0 ==> r is Ok && r->Ok_0.contents@.len() == 0 && r->Ok_0.used == 0,
        forall|k: nat|
            max_size < k <= usize::MAX && #[trigger] begins_with(input@, varint(k))
                ==> r is Err && r->Err_0 == FrameError::InvalidData,
        ends_inside_frame(input@, max_size as nat) ==> r is Err && r->Err_0 == FrameError::UnexpectedEof,
        forall|data: Seq<u8>|
            data.len() <= max_size && #[trigger] starts_with_frame(input@, data) ==> r is Ok
                && r->Ok_0.contents@ == data && r->Ok_0.used == frame(data).len(),
{
    let mut cursor = futures::io::Cursor::new(input);
    let r = futures::executor::block_on(
        libp2p::core::upgrade::read_length_prefixed(&mut cursor, max_size),
    );
    match r {
        Ok(v) => Ok(Frame { contents: v, used: cursor.position() as usize }),
        Err(e) => Err(
            match e.kind() {
                std::io::ErrorKind::UnexpectedEof => FrameError::UnexpectedEof,
                std::io::ErrorKind::InvalidData => FrameError::InvalidData,
                _ => FrameError::Other,
            },
        ),
    }
}

/// Writes `data` as one frame with `libp2p::core::upgrade::write_length_prefixed`.
///
/// Trusted: it succeeds and writes the frame of `data` (the length in the unsigned
/// variable-length encoding, then the data), as the source shows: the writer is a vector
/// in memory, whose asynchronous writes are the standard `Write` of `Vec<u8>`, documented
/// as appending to the vector and growing it as needed.
#[verifier::external_body]
fn write_length_prefixed_bytes(data: &[u8]) -> (r: Result<Vec<u8>, FrameError>)
    ensures
        r is Ok && r->Ok_0@ == frame(data@),
{
    let mut out: Vec<u8> = Vec::new();
    match futures::executor::block_on(libp2p::core::upgrade::write_length_prefixed(&mut out, data)) {
        Ok(()) => Ok(out),
        Err(e) => Err(
            match e.kind() {
                std::io::ErrorKind::UnexpectedEof => FrameError::UnexpectedEof,
                std::io::ErrorKind::InvalidData => FrameError::InvalidData,
                _ => FrameError::Other,
            },
        ),
    }
}

/// A frame whose contents are not empty and not UTF-8: reading a name from it fails
/// outright.
pub open spec fn frame_not_text(frame: Result<FrameView, FrameError>) -> bool {
    frame matches Ok(f) && f.contents.len() > 0 && !valid_utf8(f.contents)
}

/// The request that a frame holds: its contents as a name, unless the frame failed or
/// was empty.
pub open spec fn spec_request_from_frame(frame: Result<FrameView, FrameError>) -> Result<
    Seq<char>,
    FrameError,
> {
    match frame {
        Err(e) => Err(e),
        Ok(f) => if f.contents.len() == 0 {
            Err(FrameError::UnexpectedEof)
        } else {
            Ok(decode_utf8(f.contents))
        },
    }
}

/// The response that its two frames hold, the name frame first.
pub open spec fn spec_response_from_frames(
    name_frame: Result<FrameView, FrameError>,
    file_frame: Result<FrameView, FrameError>,
) -> Result<FileResponseView, FrameError> {
    match name_frame {
        Err(e) => Err(e),
        Ok(n) => if n.contents.len() == 0 {
            Err(FrameError::UnexpectedEof)
        } else {
            match file_frame {
                Err(e) => Err(e),
                Ok(f) => if f.contents.len() == 0 {
                    Err(FrameError::UnexpectedEof)
                } else {
                    Ok(FileResponseView { file_name: decode_utf8(n.contents), file: f.contents })
                },
            }
        },
    }
}

/// What reading a request from `input` gives; `None` where the length prefix overruns
/// the reader or the name is not text.
pub open spec fn spec_read_request(input: Seq<u8>) -> Option<Result<Seq<char>, FrameError>> {
    if length_prefix_overruns(input) {
        None
    } else {
        let name_frame = length_prefixed_read(input, MAX_NAME_SIZE);
        if frame_not_text(name_frame) {
            None
        } else {
            Some(spec_request_from_frame(name_frame))
        }
    }
}

/// What reading a response from `input` gives; `None` where a length prefix overruns the
/// reader or the name is not text.
pub open spec fn spec_read_response(input: Seq<u8>) -> Option<Result<FileResponseView, FrameError>> {
    if length_prefix_overruns(input) {
        None
    } else {
        let name_frame = length_prefixed_read(input, MAX_NAME_SIZE);
        if frame_not_text(name_frame) {
            None
        } else {
            match name_frame {
                Ok(n) => if n.contents.len() == 0 {
                    Some(Err(FrameError::UnexpectedEof))
                } else if length_prefix_overruns(input.skip(n.used as int)) {
                    None
                } else {
                    Some(
                        spec_response_from_frames(
                            name_frame,
                            length_prefixed_read(input.skip(n.used as int), MAX_FILE_SIZE),
                        ),
                    )
                },
                Err(e) => Some(Err(e)),
            }
        }
    }
}

/// The bytes of a request for `file_name`.
pub open spec fn request_bytes(file_name: Seq<char>) -> Seq<u8> {
    frame(encode_utf8(file_name))
}

/// The bytes of a response carrying `response`.
pub open spec fn response_bytes(response: FileResponseView) -> Seq<u8> {
    frame(encode_utf8(response.file_name)) + frame(response.file)
}

/// Turns a frame read for a request into the request.
pub fn request_from_frame(frame: Result<Frame, FrameError>) -> (r: Result<FileRequest, FrameError>)
    requires
        frame matches Ok(f) ==> f.contents@.len() == 0 || valid_utf8(f.contents@),
    ensures
        match r {
            Ok(req) => spec_request_from_frame(frame_result_view(frame)) == Ok::<
                Seq<char>,
                FrameError,
            >(req@),
            Err(e) => spec_request_from_frame(frame_result_view(frame)) == Err::<
                Seq<char>,
                FrameError,
            >(e),
        },
        r matches Ok(req) ==> frame matches Ok(f) && encode_utf8(req@) == f.contents@,
{
    match frame {
        Err(e) => Err(e),
        Ok(f) => {
            if f.contents.len() == 0 {
                Err(FrameError::UnexpectedEof)
            } else {
                match bytes_to_string(f.contents) {
                    Some(name) => Ok(FileRequest(name)),
                    None => Err(FrameError::InvalidData),
                }
            }
        },
    }
}

/// Turns the two frames read for a response, the name frame first, into the response.
pub fn response_from_frames(
    name_frame: Result<Frame, FrameError>,
    file_frame: Result<Frame, FrameError>,
) -> (r: Result<FileResponse, FrameError>)
    requires
        name_frame matches Ok(f) ==> f.contents@.len() == 0 || valid_utf8(f.contents@),
    ensures
        match r {
            Ok(resp) => spec_response_from_frames(
                frame_result_view(name_frame),
                frame_result_view(file_frame),
            ) == Ok::<FileResponseView, FrameError>(resp@),
            Err(e) => spec_response_from_frames(
                frame_result_view(name_frame),
                frame_result_view(file_frame),
            ) == Err::<FileResponseView, FrameError>(e),
        },
        r matches Ok(resp) ==> name_frame matches Ok(n) && file_frame matches Ok(f)
            && encode_utf8(resp.file_name@) == n.contents@ && resp.file@ == f.contents@,
{
    match name_frame {
        Err(e) => Err(e),
        Ok(name) => {
            if name.contents.len() == 0 {
                return Err(FrameError::UnexpectedEof);
            }
            match file_frame {
                Err(e) => Err(e),
                Ok(file) => {
                    if file.contents.len() == 0 {
                        Err(FrameError::UnexpectedEof)
                    } else {
                        match bytes_to_string(name.contents) {
                            Some(file_name) => Ok(FileResponse { file_name, file: file.contents }),
                            None => Err(FrameError::InvalidData),
                        }
                    }
                },
            }
        },
    }
}

impl FileExchangeProtocol {
    /// The protocol name, `/jiri-file-exchange/1`, as bytes.
    pub fn protocol_name(&self) -> (name: Vec<u8>)
        ensures
            name@ == spec_protocol_name(),
    {
        vec![47u8, 106, 105, 114, 105, 45, 102, 105, 108, 101, 45, 101, 120, 99, 104, 97, 110, 103, 101, 47, 49]
    }
}

impl FileExchangeCodec {
    /// Reads a request from the bytes of a substream: one frame holding the file name.
    ///
    /// `None` where the length prefix is one on which the reader overruns its buffer, or
    /// the frame holds bytes that are not a UTF-8 name: on those inputs reading a request
    /// gives up altogether. A name read holds one to [`MAX_NAME_SIZE`] bytes, a longer
    /// declared length is refused as invalid data, and bytes that end inside the frame give
    /// an unexpected end. Reading back what
    /// [`Self::write_request`] wrote gives the request back, for any name of one to
    /// [`MAX_NAME_SIZE`] bytes.
    pub fn read_request(&mut self, protocol: &FileExchangeProtocol, io: &[u8]) -> (r: Option<
        Result<FileRequest, FrameError>,
    >)
        ensures
            match r {
                None => spec_read_request(io@) is None,
                Some(Ok(req)) => spec_read_request(io@) == Some(
                    Ok::<Seq<char>, FrameError>(req@),
                ),
                Some(Err(e)) => spec_read_request(io@) == Some(Err::<Seq<char>, FrameError>(e)),
            },
            r matches Some(Ok(req)) ==> 0 < encode_utf8(req@).len() <= MAX_NAME_SIZE,
            forall|k: nat|
                MAX_NAME_SIZE < k <= usize::MAX && #[trigger] begins_with(io@, varint(k)) ==> r
                    == Some(Err::<FileRequest, FrameError>(FrameError::InvalidData)),
            ends_inside_frame(io@, MAX_NAME_SIZE as nat) ==> r == Some(
                Err::<FileRequest, FrameError>(FrameError::UnexpectedEof),
            ),
            forall|name: Seq<char>|
                0 < encode_utf8(name).len() <= MAX_NAME_SIZE && #[trigger] begins_with(
                    io@,
                    request_bytes(name),
                ) ==> (r matches Some(Ok(req)) && req@ == name),
            io@.len() == 0 || begins_with(io@, request_bytes(Seq::empty())) ==> r == Some(
                Err::<FileRequest, FrameError>(FrameError::UnexpectedEof),
            ),
    {
        proof {
            if begins_with(io@, request_bytes(Seq::empty())) {
                assert(encode_utf8(Seq::<char>::empty()) =~= Seq::<u8>::empty());
                assert(starts_with_frame(io@, Seq::<u8>::empty()));
                lemma_varint_does_not_overrun(io@, 0);
            }
            assert forall|k: nat|
                MAX_NAME_SIZE < k <= usize::MAX && #[trigger] begins_with(
                    io@,
                    varint(k),
                ) implies !length_prefix_overruns(io@) by {
                lemma_varint_does_not_overrun(io@, k);
            }
            assert forall|name: Seq<char>|
                0 < encode_utf8(name).len() <= MAX_NAME_SIZE && #[trigger] begins_with(
                    io@,
                    request_bytes(name),
                ) implies !length_prefix_overruns(io@) by {
                let data = encode_utf8(name);
                assert(io@.take(varint(data.len()).len() as int) =~= frame(data).take(
                    varint(data.len()).len() as int,
                ));
                assert(frame(data).take(varint(data.len()).len() as int) =~= varint(data.len()));
                lemma_varint_does_not_overrun(io@, data.len());
            }
        }
        proof {
            if ends_inside_frame(io@, MAX_NAME_SIZE as nat) {
                lemma_ends_inside_frame_does_not_overrun(io@, MAX_NAME_SIZE as nat);
            }
        }
        if length_prefix_overruns_buffer(io) {
            return None;
        }
        let name_frame = read_length_prefixed_bytes(io, MAX_NAME_SIZE);
        proof {
            assert forall|name: Seq<char>|
                0 < encode_utf8(name).len() <= MAX_NAME_SIZE && #[trigger] begins_with(
                    io@,
                    request_bytes(name),
                ) implies name_frame matches Ok(f) && f.contents@ == encode_utf8(name) by {
                assert(starts_with_frame(io@, encode_utf8(name)));
            }
        }
        match &name_frame {
            Ok(f) => {
                if f.contents.len() > 0 && bytes_to_string(f.contents.clone()).is_none() {
                    return None;
                }
            },
            Err(_) => {},
        }
        Some(request_from_frame(name_frame))
    }

    /// Reads a response from the bytes of a substream: a frame holding the file name, then
    /// a frame holding the file.
    ///
    /// `None` where a length prefix is one on which the reader overruns its buffer, or the
    /// first frame holds bytes that are not a UTF-8 name: on those inputs reading a response
    /// gives up altogether. A response read holds a name of one to [`MAX_NAME_SIZE`] bytes
    /// and a file of one to [`MAX_FILE_SIZE`] bytes, and a longer declared length is
    /// refused as invalid data. Bytes that end inside the name's frame, or a name followed by
    /// no file (nothing, an empty frame, or the end inside the file's frame), give an
    /// unexpected end. Reading back what [`Self::write_response`] wrote gives the
    /// response back, for a name of one to [`MAX_NAME_SIZE`] bytes and a file of one to
    /// [`MAX_FILE_SIZE`] bytes.
    pub fn read_response(&mut self, protocol: &FileExchangeProtocol, io: &[u8]) -> (r: Option<
        Result<FileResponse, FrameError>,
    >)
        ensures
            match r {
                None => spec_read_response(io@) is None,
                Some(Ok(resp)) => spec_read_response(io@) == Some(
                    Ok::<FileResponseView, FrameError>(resp@),
                ),
                Some(Err(e)) => spec_read_response(io@) == Some(
                    Err::<FileResponseView, FrameError>(e),
                ),
            },
            r matches Some(Ok(resp)) ==> 0 < encode_utf8(resp.file_name@).len() <= MAX_NAME_SIZE
                && 0 < resp.file@.len() <= MAX_FILE_SIZE,
            forall|k: nat|
                MAX_NAME_SIZE < k <= usize::MAX && #[trigger] begins_with(io@, varint(k)) ==> r
                    == Some(Err::<FileResponse, FrameError>(FrameError::InvalidData)),
            forall|name: Seq<char>, k: nat|
                0 < encode_utf8(name).len() <= MAX_NAME_SIZE && MAX_FILE_SIZE < k <= usize::MAX
                    && #[trigger] begins_with(io@, frame(encode_utf8(name)) + varint(k)) ==> r
                    == Some(Err::<FileResponse, FrameError>(FrameError::InvalidData)),
            ends_inside_frame(io@, MAX_NAME_SIZE as nat) ==> r == Some(
                Err::<FileResponse, FrameError>(FrameError::UnexpectedEof),
            ),
            forall|name: Seq<char>|
                0 < encode_utf8(name).len() <= MAX_NAME_SIZE && #[trigger] begins_with(
                    io@,
                    frame(encode_utf8(name)),
                ) && file_frame_missing(io@.skip(frame(encode_utf8(name)).len() as int)) ==> r
                    == Some(Err::<FileResponse, FrameError>(FrameError::UnexpectedEof)),
            forall|response: FileResponseView|
                0 < encode_utf8(response.file_name).len() <= MAX_NAME_SIZE && 0
                    < response.file.len() <= MAX_FILE_SIZE && #[trigger] begins_with(
                    io@,
                    response_bytes(response),
                ) ==> (r matches Some(Ok(resp)) && resp@ == response),
            io@.len() == 0 || begins_with(io@, frame(Seq::empty())) ==> r == Some(
                Err::<FileResponse, FrameError>(FrameError::UnexpectedEof),
            ),
    {
        proof {
            if begins_with(io@, frame(Seq::empty())) {
                assert(starts_with_frame(io@, Seq::<u8>::empty()));
                lemma_varint_does_not_overrun(io@, 0);
            }
            assert forall|k: nat|
                MAX_NAME_SIZE < k <= usize::MAX && #[trigger] begins_with(
                    io@,
                    varint(k),
                ) implies !length_prefix_overruns(io@) by {
                lemma_varint_does_not_overrun(io@, k);
            }
            assert forall|name: Seq<char>, k: nat|
                0 < encode_utf8(name).len() <= MAX_NAME_SIZE && MAX_FILE_SIZE < k <= usize::MAX
                    && #[trigger] begins_with(io@, frame(encode_utf8(name)) + varint(k))
                implies !length_prefix_overruns(io@) by {
                lemma_begins_with_prefix(io@, frame(encode_utf8(name)), varint(k));
                lemma_begins_with_frame_prefix(io@, encode_utf8(name));
            }
            assert forall|response: FileResponseView|
                0 < encode_utf8(response.file_name).len() <= MAX_NAME_SIZE && 0
                    < response.file.len() <= MAX_FILE_SIZE && #[trigger] begins_with(
                    io@,
                    response_bytes(response),
                ) implies !length_prefix_overruns(io@) by {
                lemma_begins_with_prefix(io@, frame(encode_utf8(response.file_name)), frame(response.file));
                lemma_begins_with_frame_prefix(io@, encode_utf8(response.file_name));
            }
        }
        proof {
            if ends_inside_frame(io@, MAX_NAME_SIZE as nat) {
                lemma_ends_inside_frame_does_not_overrun(io@, MAX_NAME_SIZE as nat);
            }
            assert forall|name: Seq<char>|
                0 < encode_utf8(name).len() <= MAX_NAME_SIZE && #[trigger] begins_with(
                    io@,
                    frame(encode_utf8(name)),
                ) implies !length_prefix_overruns(io@) by {
                lemma_begins_with_frame_prefix(io@, encode_utf8(name));
            }
        }
        if length_prefix_overruns_buffer(io) {
            return None;
        }
        let name_frame = read_length_prefixed_bytes(io, MAX_NAME_SIZE);
        proof {
            assert forall|name: Seq<char>|
                0 < encode_utf8(name).len() <= MAX_NAME_SIZE && #[trigger] begins_with(
                    io@,
                    frame(encode_utf8(name)),
                ) implies name_frame matches Ok(f) && f.contents@ == encode_utf8(name) && f.used
                == frame(encode_utf8(name)).len() by {
                assert(starts_with_frame(io@, encode_utf8(name)));
            }
            assert forall|name: Seq<char>, k: nat|
                0 < encode_utf8(name).len() <= MAX_NAME_SIZE && MAX_FILE_SIZE < k <= usize::MAX
                    && #[trigger] begins_with(io@, frame(encode_utf8(name)) + varint(k))
                implies name_frame matches Ok(f) && f.contents@ == encode_utf8(name) && f.used
                == frame(encode_utf8(name)).len() by {
                lemma_begins_with_prefix(io@, frame(encode_utf8(name)), varint(k));
                assert(starts_with_frame(io@, encode_utf8(name)));
            }
            assert forall|response: FileResponseView|
                0 < encode_utf8(response.file_name).len() <= MAX_NAME_SIZE && 0
                    < response.file.len() <= MAX_FILE_SIZE && #[trigger] begins_with(
                    io@,
                    response_bytes(response),
                ) implies name_frame matches Ok(f) && f.contents@ == encode_utf8(
                response.file_name,
            ) && f.used == frame(encode_utf8(response.file_name)).len() by {
                lemma_begins_with_prefix(io@, frame(encode_utf8(response.file_name)), frame(response.file));
                assert(starts_with_frame(io@, encode_utf8(response.file_name)));
            }
        }
        let consumed = match &name_frame {
            Err(e) => {
                return Some(Err(*e));
            },
            Ok(f) => {
                if f.contents.len() == 0 {
                    return Some(Err(FrameError::UnexpectedEof));
                }
                if bytes_to_string(f.contents.clone()).is_none() {
                    return None;
                }
                f.used
            },
        };
        let rest = vstd::slice::slice_subrange(io, consumed, io.len());
        assert(rest@ =~= io@.skip(consumed as int));
        proof {
            assert forall|name: Seq<char>, k: nat|
                0 < encode_utf8(name).len() <= MAX_NAME_SIZE && MAX_FILE_SIZE < k <= usize::MAX
                    && #[trigger] begins_with(io@, frame(encode_utf8(name)) + varint(k))
                implies begins_with(rest@, varint(k)) && !length_prefix_overruns(rest@) by {
                lemma_begins_with_rest(io@, frame(encode_utf8(name)), varint(k));
                lemma_varint_does_not_overrun(rest@, k);
            }
            assert forall|response: FileResponseView|
                0 < encode_utf8(response.file_name).len() <= MAX_NAME_SIZE && 0
                    < response.file.len() <= MAX_FILE_SIZE && #[trigger] begins_with(
                    io@,
                    response_bytes(response),
                ) implies starts_with_frame(rest@, response.file) && !length_prefix_overruns(
                rest@,
            ) by {
                lemma_begins_with_rest(io@, frame(encode_utf8(response.file_name)), frame(response.file));
                lemma_begins_with_frame_prefix(rest@, response.file);
            }
        }
        proof {
            assert forall|name: Seq<char>|
                0 < encode_utf8(name).len() <= MAX_NAME_SIZE && #[trigger] begins_with(
                    io@,
                    frame(encode_utf8(name)),
                ) && file_frame_missing(io@.skip(frame(encode_utf8(name)).len() as int))
                implies !length_prefix_overruns(rest@) by {
                if ends_inside_frame(rest@, MAX_FILE_SIZE as nat) {
                    lemma_ends_inside_frame_does_not_overrun(rest@, MAX_FILE_SIZE as nat);
                } else if begins_with(rest@, frame(Seq::empty())) {
                    lemma_begins_with_frame_prefix(rest@, Seq::empty());
                }
            }
        }
        if length_prefix_overruns_buffer(rest) {
            return None;
        }
        let file_frame = read_length_prefixed_bytes(rest, MAX_FILE_SIZE);
        proof {
            assert forall|name: Seq<char>|
                0 < encode_utf8(name).len() <= MAX_NAME_SIZE && #[trigger] begins_with(
                    io@,
                    frame(encode_utf8(name)),
                ) && file_frame_missing(io@.skip(frame(encode_utf8(name)).len() as int))
                implies (file_frame matches Ok(f) && f.contents@.len() == 0) || file_frame
                == Err::<Frame, FrameError>(FrameError::UnexpectedEof) by {
                if begins_with(rest@, frame(Seq::empty())) {
                    assert(starts_with_frame(rest@, Seq::<u8>::empty()));
                }
            }
        }
        Some(response_from_frames(name_frame, file_frame))
    }

    /// Writes a request: one frame holding the file name. Writing always succeeds.
    pub fn write_request(&mut self, protocol: &FileExchangeProtocol, request: FileRequest) -> (r:
        Result<Vec<u8>, FrameError>)
        ensures
            r matches Ok(out) && out@ == request_bytes(request@),
    {
        let FileRequest(file_name) = request;
        let bytes = string_bytes(&file_name);
        write_length_prefixed_bytes(bytes.as_slice())
    }

    /// Writes a response: a frame holding the file name, then a frame holding the file.
    /// Writing always succeeds.
    pub fn write_response(&mut self, protocol: &FileExchangeProtocol, response: FileResponse) -> (r:
        Result<Vec<u8>, FrameError>)
        ensures
            r matches Ok(out) && out@ == response_bytes(response@),
    {
        let FileResponse { file_name, file } = response;
        let name_bytes = string_bytes(&file_name);
        let mut out = write_length_prefixed_bytes(name_bytes.as_slice())?;
        let mut file_out = write_length_prefixed_bytes(file.as_slice())?;
        let ghost name_frame = out@;
        let ghost file_frame = file_out@;
        out.append(&mut file_out);
        assert(out@ =~= name_frame + file_frame);
        Ok(out)
    }
}

} // verus!
