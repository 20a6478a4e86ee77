//! The decoder session: the order in which the native decoder is called for
//! one image, what is done with each of its answers, and the release of the
//! native instance and of its image buffer on every path.
//!
//! The session makes no native call itself. It names the next call
//! ([`Action`]), the driver performs it and reports the answer ([`Event`]),
//! and [`DecoderSession::step`] decides what follows.

use vstd::prelude::*;
use crate::raster::{byte_len, Channels, TransformedImage};
use crate::codec::decode_payload;

verus! {

/// Kind tag of a native image that holds a compressed payload.
pub const COMPRESSED_KIND: i32 = 1;

/// Bit depth that the decoder is configured for.
pub const OUTPUT_BITS: i32 = 8;

/// Colour space that the decoder is configured for (sRGB).
pub const OUTPUT_COLOR: i32 = 1;

/// What the native decoder reports of an image that it made: the header that
/// precedes the image's bytes.
#[derive(Clone, Copy, Debug, PartialEq, Eq)]
pub struct LibRawProcessedImage {
    pub type_: i32,
    pub height: u16,
    pub width: u16,
    pub colors: u16,
    pub bits: u16,
    pub data_size: u32,
}

impl LibRawProcessedImage {
    /// Bytes that a pixel grid of the reported dimensions occupies.
    pub open spec fn expected_len(&self) -> int {
        byte_len(self.width as int, self.height as int, self.colors as int)
    }
}

/// Options of one decode.
#[derive(Clone, Copy, Debug, PartialEq, Eq)]
pub struct DecodeOptions {
    pub use_preview: bool,
    pub auto_brightness: bool,
}

/// Why a decode failed.
#[derive(Clone, Debug, PartialEq, Eq)]
pub enum DecodeError {
    /// The library handed out no decoder instance.
    InitError,
    /// Handing over the raw bytes failed with this status.
    OpenError(i32),
    /// Unpacking failed with this status.
    UnpackError(i32),
    /// Developing the image failed with this status.
    ProcessError(i32),
    /// The library made no image: its error code and the text for it.
    NullImageError(i32, String),
    /// The pixel grid has this many bits per channel, not 8.
    UnsupportedBitDepthError(u16),
    /// The pixel grid has this many channels, neither 3 nor 4.
    UnsupportedChannelCountError(u16),
    /// The buffer is shorter than its dimensions ask for.
    TruncatedBufferError { actual: u32, expected: u64 },
    /// The compressed payload could not be decoded.
    CorruptPayloadError(String),
}

/// How far the native decoder has come.
#[derive(Clone, Copy, Debug, PartialEq, Eq)]
pub enum SessionState {
    Created,
    BufferLoaded,
    Unpacked,
    Processed,
    Closed,
}

/// A call into the native library that the driver is asked to make.
#[derive(Clone, Copy, Debug, PartialEq, Eq)]
pub enum Action {
    /// Request a decoder instance.
    Init,
    /// Hand the raw bytes to the instance.
    OpenBuffer,
    /// Parse the RAW structure.
    Unpack,
    /// Set the output bit depth.
    SetOutputBps(i32),
    /// Set the output colour space.
    SetOutputColor(i32),
    /// Switch the decoder's automatic brightness off (1) or on (0).
    SetNoAutoBright(i32),
    /// Request the memory image.
    MakeMemImage,
    /// Fetch the library's text for an error code.
    ErrorText(i32),
    /// Develop the image.
    Process,
    /// Copy this many bytes from the start of the image's data.
    CopyBytes(usize),
    /// Free the image buffer.
    FreeImage,
    /// Close the instance.
    Close,
    /// Nothing is left to do: the result is ready.
    Finish,
}

/// The answer to an [`Action`].
#[derive(Clone, Debug, PartialEq, Eq)]
pub enum Event {
    /// To `Init`: whether an instance was handed out.
    Handle(bool),
    /// To a call that returns a status code.
    Status(i32),
    /// To `MakeMemImage`: the header of the image, if there is one, and the
    /// error code that the call left.
    Image(Option<LibRawProcessedImage>, i32),
    /// To `ErrorText`.
    Text(String),
    /// To `CopyBytes`.
    Bytes(Vec<u8>),
    /// To `FreeImage`.
    Released,
    /// To `Close`.
    Closed,
}

/// What the image buffer that is being copied holds.
#[derive(Clone, Copy, Debug, PartialEq, Eq)]
pub enum Layout {
    /// A compressed image file.
    Compressed,
    /// Rows of 8-bit pixels.
    Grid(u16, u16, Channels),
}

/// Where in the protocol a session stands. Each phase but `Done` waits for
/// the answer to one call.
#[derive(Debug, PartialEq, Eq)]
pub enum Phase {
    Init,
    Open,
    Unpack,
    ConfigureDepth,
    ConfigureColor,
    ConfigureBrightness,
    /// The preview image was requested.
    Preview,
    /// An empty preview buffer is being freed.
    PreviewDiscard(i32),
    /// The text for the preview's error code was requested.
    PreviewNotice(i32),
    Process,
    /// The developed image was requested.
    Extract,
    /// The text for the error code of a missing image was requested.
    ExtractNotice(i32),
    /// Bytes of the image buffer are being copied.
    Copy(Layout, usize),
    /// The image buffer is being freed; the result is settled.
    Release(Result<TransformedImage, DecodeError>),
    /// The instance is being closed; the result is settled.
    Close(Result<TransformedImage, DecodeError>),
    Done(Result<TransformedImage, DecodeError>),
}

/// One decode of one image.
#[derive(Debug, PartialEq, Eq)]
pub struct DecoderSession {
    pub options: DecodeOptions,
    pub phase: Phase,
    pub state: SessionState,
    /// The library's text for why it had no preview, once that is known.
    pub notice: Option<String>,
}

/// The result of checking the header of a pixel grid.
pub open spec fn grid_check(header: LibRawProcessedImage) -> Result<(Channels, usize), DecodeError> {
    if header.bits != 8 {
        Err(DecodeError::UnsupportedBitDepthError(header.bits))
    } else if header.data_size < header.expected_len() {
        Err(
            DecodeError::TruncatedBufferError {
                actual: header.data_size,
                expected: header.expected_len() as u64,
            },
        )
    } else if header.colors == 3 {
        Ok((Channels::Rgb, header.expected_len() as usize))
    } else if header.colors == 4 {
        Ok((Channels::Rgba, header.expected_len() as usize))
    } else {
        Err(DecodeError::UnsupportedChannelCountError(header.colors))
    }
}

/// Checks the header of a pixel grid: 8 bits per channel, a buffer that is
/// long enough, and three or four channels, in this order. Returns the
/// channel layout and the number of bytes to copy.
pub fn check_pixel_grid(header: &LibRawProcessedImage) -> (r: Result<(Channels, usize), DecodeError>)
    ensures
        r == grid_check(*header),
        r matches Ok((c, n)) ==> n == byte_len(
            header.width as int,
            header.height as int,
            c.spec_count(),
        ) && n <= header.data_size,
{
    if header.bits != 8 {
        return Err(DecodeError::UnsupportedBitDepthError(header.bits));
    }
    assert(header.width * header.height <= 0xffff * 0xffff) by (nonlinear_arith)
        requires
            0 <= header.width <= 0xffff,
            0 <= header.height <= 0xffff,
    ;
    let area: u64 = (header.width as u64) * (header.height as u64);
    assert(area * header.colors <= 0xffff * 0xffff * 0xffff) by (nonlinear_arith)
        requires
            0 <= area <= 0xffff * 0xffff,
            0 <= header.colors <= 0xffff,
    ;
    let expected: u64 = area * (header.colors as u64);
    if (header.data_size as u64) < expected {
        return Err(
            DecodeError::TruncatedBufferError { actual: header.data_size, expected },
        );
    }
    match Channels::from_count(header.colors) {
        Some(c) => Ok((c, expected as usize)),
        None => Err(DecodeError::UnsupportedChannelCountError(header.colors)),
    }
}

/// What follows when the library has made an image with this header.
pub open spec fn phase_for_image(header: LibRawProcessedImage) -> Phase {
    if header.type_ == COMPRESSED_KIND {
        Phase::Copy(Layout::Compressed, header.data_size as usize)
    } else {
        match grid_check(header) {
            Ok((c, n)) => Phase::Copy(Layout::Grid(header.width, header.height, c), n),
            Err(e) => Phase::Release(Err(e)),
        }
    }
}

/// Whether `event` is an answer to `action`.
pub open spec fn answers(action: Action, event: Event) -> bool {
    match action {
        Action::Init => event is Handle,
        Action::OpenBuffer | Action::Unpack | Action::Process => event is Status,
        Action::SetOutputBps(_) | Action::SetOutputColor(_) | Action::SetNoAutoBright(_) => event
            is Status,
        Action::MakeMemImage => event is Image,
        Action::ErrorText(_) => event is Text,
        Action::CopyBytes(n) => event matches Event::Bytes(v) && v@.len() == n,
        Action::FreeImage => event is Released,
        Action::Close => event is Closed,
        Action::Finish => false,
    }
}

impl Phase {
    /// The call that this phase waits for.
    pub open spec fn action(self, options: DecodeOptions) -> Action {
        match self {
            Phase::Init => Action::Init,
            Phase::Open => Action::OpenBuffer,
            Phase::Unpack => Action::Unpack,
            Phase::ConfigureDepth => Action::SetOutputBps(OUTPUT_BITS),
            Phase::ConfigureColor => Action::SetOutputColor(OUTPUT_COLOR),
            Phase::ConfigureBrightness => Action::SetNoAutoBright(
                if options.auto_brightness {
                    0
                } else {
                    1
                },
            ),
            Phase::Preview | Phase::Extract => Action::MakeMemImage,
            Phase::PreviewDiscard(_) => Action::FreeImage,
            Phase::PreviewNotice(code) | Phase::ExtractNotice(code) => Action::ErrorText(code),
            Phase::Process => Action::Process,
            Phase::Copy(_, n) => Action::CopyBytes(n),
            Phase::Release(_) => Action::FreeImage,
            Phase::Close(_) => Action::Close,
            Phase::Done(_) => Action::Finish,
        }
    }

    /// Whether a native instance is open in this phase.
    pub open spec fn holds_handle(self) -> bool {
        !(self is Init || self is Done)
    }

    /// Whether a native image buffer is held in this phase.
    pub open spec fn holds_buffer(self) -> bool {
        self is PreviewDiscard || self is Copy || self is Release
    }

    /// An upper bound on the number of calls that are still to be made.
    pub open spec fn calls_left(self) -> nat {
        match self {
            Phase::Init => 15,
            Phase::Open => 14,
            Phase::Unpack => 13,
            Phase::ConfigureDepth => 12,
            Phase::ConfigureColor => 11,
            Phase::ConfigureBrightness => 10,
            Phase::Preview => 9,
            Phase::PreviewDiscard(_) => 8,
            Phase::PreviewNotice(_) => 7,
            Phase::Process => 6,
            Phase::Extract => 5,
            Phase::ExtractNotice(_) => 4,
            Phase::Copy(_, _) => 3,
            Phase::Release(_) => 2,
            Phase::Close(_) => 1,
            Phase::Done(_) => 0,
        }
    }

    /// The settled result, in the phases that have one.
    pub open spec fn settled(self) -> Option<Result<TransformedImage, DecodeError>> {
        match self {
            Phase::Release(r) | Phase::Close(r) | Phase::Done(r) => Some(r),
            _ => None,
        }
    }

    /// The data that the phase carries is consistent.
    pub open spec fn wf(self) -> bool {
        match self {
            Phase::Copy(Layout::Grid(w, h, c), n) => n == byte_len(
                w as int,
                h as int,
                c.spec_count(),
            ),
            Phase::Release(Ok(img)) | Phase::Close(Ok(img)) | Phase::Done(Ok(img)) => img.wf(),
            _ => true,
        }
    }
}

impl DecoderSession {
    /// The recorded state is the one that the phase belongs to.
    pub open spec fn state_fits(&self) -> bool {
        match self.phase {
            Phase::Init | Phase::Open => self.state is Created,
            Phase::Unpack => self.state is BufferLoaded,
            Phase::ConfigureDepth
            | Phase::ConfigureColor
            | Phase::ConfigureBrightness
            | Phase::Preview
            | Phase::PreviewDiscard(_)
            | Phase::PreviewNotice(_)
            | Phase::Process => self.state is Unpacked,
            Phase::Extract | Phase::ExtractNotice(_) => self.state is Processed,
            Phase::Copy(_, _) | Phase::Release(_) => self.state is Unpacked
                || self.state is Processed,
            Phase::Close(_) => !(self.state is Closed),
            Phase::Done(_) => self.state is Closed,
        }
    }

    /// The session is consistent: its state fits its phase, and an image that
    /// it holds is well formed.
    pub open spec fn wf(&self) -> bool {
        self.phase.wf() && self.state_fits()
    }

    /// The call that the session waits for.
    pub open spec fn pending_spec(&self) -> Action {
        self.phase.action(self.options)
    }

    /// The decode is over: the result is ready and nothing native is held.
    pub open spec fn finished(&self) -> bool {
        self.phase is Done
    }

    /// The session after `event`. `decoded` is what decoding the bytes of the
    /// event gave; it is read only where those bytes are a compressed payload.
    /// An event that does not answer the pending call changes nothing.
    pub open spec fn next(
        self,
        event: Event,
        decoded: Result<TransformedImage, String>,
    ) -> DecoderSession {
        if !answers(self.pending_spec(), event) {
            self
        } else {
            match (self.phase, event) {
                (Phase::Init, Event::Handle(valid)) => if valid {
                    DecoderSession { phase: Phase::Open, ..self }
                } else {
                    DecoderSession {
                        phase: Phase::Done(Err(DecodeError::InitError)),
                        state: SessionState::Closed,
                        ..self
                    }
                },
                (Phase::Open, Event::Status(code)) => if code == 0 {
                    DecoderSession {
                        phase: Phase::Unpack,
                        state: SessionState::BufferLoaded,
                        ..self
                    }
                } else {
                    DecoderSession { phase: Phase::Close(Err(DecodeError::OpenError(code))), ..self }
                },
                (Phase::Unpack, Event::Status(code)) => if code == 0 {
                    DecoderSession {
                        phase: Phase::ConfigureDepth,
                        state: SessionState::Unpacked,
                        ..self
                    }
                } else {
                    DecoderSession {
                        phase: Phase::Close(Err(DecodeError::UnpackError(code))),
                        ..self
                    }
                },
                (Phase::ConfigureDepth, Event::Status(_)) => DecoderSession {
                    phase: Phase::ConfigureColor,
                    ..self
                },
                (Phase::ConfigureColor, Event::Status(_)) => DecoderSession {
                    phase: Phase::ConfigureBrightness,
                    ..self
                },
                (Phase::ConfigureBrightness, Event::Status(_)) => DecoderSession {
                    phase: if self.options.use_preview {
                        Phase::Preview
                    } else {
                        Phase::Process
                    },
                    ..self
                },
                (Phase::Preview, Event::Image(None, code)) => DecoderSession {
                    phase: Phase::PreviewNotice(code),
                    ..self
                },
                (Phase::Preview, Event::Image(Some(header), code)) => DecoderSession {
                    phase: if header.data_size == 0 {
                        Phase::PreviewDiscard(code)
                    } else {
                        phase_for_image(header)
                    },
                    ..self
                },
                (Phase::PreviewDiscard(code), Event::Released) => DecoderSession {
                    phase: Phase::PreviewNotice(code),
                    ..self
                },
                (Phase::PreviewNotice(_), Event::Text(text)) => DecoderSession {
                    phase: Phase::Process,
                    notice: Some(text),
                    ..self
                },
                (Phase::Process, Event::Status(code)) => if code == 0 {
                    DecoderSession {
                        phase: Phase::Extract,
                        state: SessionState::Processed,
                        ..self
                    }
                } else {
                    DecoderSession {
                        phase: Phase::Close(Err(DecodeError::ProcessError(code))),
                        ..self
                    }
                },
                (Phase::Extract, Event::Image(None, code)) => DecoderSession {
                    phase: Phase::ExtractNotice(code),
                    ..self
                },
                (Phase::Extract, Event::Image(Some(header), _)) => DecoderSession {
                    phase: phase_for_image(header),
                    ..self
                },
                (Phase::ExtractNotice(code), Event::Text(text)) => DecoderSession {
                    phase: Phase::Close(Err(DecodeError::NullImageError(code, text))),
                    ..self
                },
                (Phase::Copy(Layout::Compressed, _), Event::Bytes(_)) => DecoderSession {
                    phase: Phase::Release(
                        match decoded {
                            Ok(img) => Ok(img),
                            Err(why) => Err(DecodeError::CorruptPayloadError(why)),
                        },
                    ),
                    ..self
                },
                (Phase::Copy(Layout::Grid(w, h, c), _), Event::Bytes(bytes)) => DecoderSession {
                    phase: Phase::Release(
                        Ok(
                            TransformedImage {
                                width: w as u32,
                                height: h as u32,
                                channels: c,
                                pixels: bytes,
                            },
                        ),
                    ),
                    ..self
                },
                (Phase::Release(result), Event::Released) => DecoderSession {
                    phase: Phase::Close(result),
                    ..self
                },
                (Phase::Close(result), Event::Closed) => DecoderSession {
                    phase: Phase::Done(result),
                    state: SessionState::Closed,
                    ..self
                },
                _ => self,
            }
        }
    }

    /// A session that has made no call yet.
    pub fn new(options: DecodeOptions) -> (s: DecoderSession)
        ensures
            s == (DecoderSession {
                options,
                phase: Phase::Init,
                state: SessionState::Created,
                notice: None,
            }),
            s.wf(),
    {
        DecoderSession { options, phase: Phase::Init, state: SessionState::Created, notice: None }
    }

    /// The call that the driver is to make now.
    pub fn pending(&self) -> (a: Action)
        ensures
            a == self.pending_spec(),
    {
        match &self.phase {
            Phase::Init => Action::Init,
            Phase::Open => Action::OpenBuffer,
            Phase::Unpack => Action::Unpack,
            Phase::ConfigureDepth => Action::SetOutputBps(OUTPUT_BITS),
            Phase::ConfigureColor => Action::SetOutputColor(OUTPUT_COLOR),
            Phase::ConfigureBrightness => Action::SetNoAutoBright(
                if self.options.auto_brightness {
                    0
                } else {
                    1
                },
            ),
            Phase::Preview => Action::MakeMemImage,
            Phase::Extract => Action::MakeMemImage,
            Phase::PreviewDiscard(_) => Action::FreeImage,
            Phase::PreviewNotice(code) => Action::ErrorText(*code),
            Phase::ExtractNotice(code) => Action::ErrorText(*code),
            Phase::Process => Action::Process,
            Phase::Copy(_, n) => Action::CopyBytes(*n),
            Phase::Release(_) => Action::FreeImage,
            Phase::Close(_) => Action::Close,
            Phase::Done(_) => Action::Finish,
        }
    }

    /// How far the native decoder has come.
    pub fn state(&self) -> (s: SessionState)
        ensures
            s == self.state,
    {
        self.state
    }

    /// Whether the decode is over.
    pub fn is_finished(&self) -> (b: bool)
        ensures
            b == self.finished(),
    {
        match &self.phase {
            Phase::Done(_) => true,
            _ => false,
        }
    }

    /// The result of a finished decode; `None` while the decode is running.
    pub fn into_result(self) -> (r: Option<Result<TransformedImage, DecodeError>>)
        requires
            self.wf(),
        ensures
            self.phase matches Phase::Done(result) ==> r == Some(result),
            !self.finished() ==> r.is_none(),
            r matches Some(Ok(img)) ==> img.wf(),
    {
        match self.phase {
            Phase::Done(result) => Some(result),
            _ => None,
        }
    }

    fn phase_after_image(header: LibRawProcessedImage) -> (p: Phase)
        ensures
            p == phase_for_image(header),
            p.wf(),
    {
        if header.type_ == COMPRESSED_KIND {
            Phase::Copy(Layout::Compressed, header.data_size as usize)
        } else {
            match check_pixel_grid(&header) {
                Ok((c, n)) => Phase::Copy(Layout::Grid(header.width, header.height, c), n),
                Err(e) => Phase::Release(Err(e)),
            }
        }
    }

    /// Takes the answer to the pending call and returns the session after it
    /// with the call that is to be made next. `decoded` is what decoding the
    /// bytes of `event` gave; it is read only where the session copied a
    /// compressed payload.
    pub fn advance(self, event: Event, decoded: Result<TransformedImage, String>) -> (r: (
        DecoderSession,
        Action,
    ))
        requires
            self.wf(),
            decoded matches Ok(img) ==> img.wf(),
        ensures
            r.0 == self.next(event, decoded),
            r.1 == r.0.pending_spec(),
            r.0.wf(),
    {
        let DecoderSession { options, phase, state, notice } = self;
        let after = match (phase, event) {
            (Phase::Init, Event::Handle(valid)) => {
                if valid {
                    DecoderSession { options, phase: Phase::Open, state, notice }
                } else {
                    DecoderSession {
                        options,
                        phase: Phase::Done(Err(DecodeError::InitError)),
                        state: SessionState::Closed,
                        notice,
                    }
                }
            },
            (Phase::Open, Event::Status(code)) => {
                if code == 0 {
                    DecoderSession {
                        options,
                        phase: Phase::Unpack,
                        state: SessionState::BufferLoaded,
                        notice,
                    }
                } else {
                    DecoderSession {
                        options,
                        phase: Phase::Close(Err(DecodeError::OpenError(code))),
                        state,
                        notice,
                    }
                }
            },
            (Phase::Unpack, Event::Status(code)) => {
                if code == 0 {
                    DecoderSession {
                        options,
                        phase: Phase::ConfigureDepth,
                        state: SessionState::Unpacked,
                        notice,
                    }
                } else {
                    DecoderSession {
                        options,
                        phase: Phase::Close(Err(DecodeError::UnpackError(code))),
                        state,
                        notice,
                    }
                }
            },
            (Phase::ConfigureDepth, Event::Status(_)) => DecoderSession {
                options,
                phase: Phase::ConfigureColor,
                state,
                notice,
            },
            (Phase::ConfigureColor, Event::Status(_)) => DecoderSession {
                options,
                phase: Phase::ConfigureBrightness,
                state,
                notice,
            },
            (Phase::ConfigureBrightness, Event::Status(_)) => DecoderSession {
                options,
                phase: if options.use_preview {
                    Phase::Preview
                } else {
                    Phase::Process
                },
                state,
                notice,
            },
            (Phase::Preview, Event::Image(None, code)) => DecoderSession {
                options,
                phase: Phase::PreviewNotice(code),
                state,
                notice,
            },
            (Phase::Preview, Event::Image(Some(header), code)) => DecoderSession {
                options,
                phase: if header.data_size == 0 {
                    Phase::PreviewDiscard(code)
                } else {
                    Self::phase_after_image(header)
                },
                state,
                notice,
            },
            (Phase::PreviewDiscard(code), Event::Released) => DecoderSession {
                options,
                phase: Phase::PreviewNotice(code),
                state,
                notice,
            },
            (Phase::PreviewNotice(_), Event::Text(text)) => DecoderSession {
                options,
                phase: Phase::Process,
                state,
                notice: Some(text),
            },
            (Phase::Process, Event::Status(code)) => {
                if code == 0 {
                    DecoderSession {
                        options,
                        phase: Phase::Extract,
                        state: SessionState::Processed,
                        notice,
                    }
                } else {
                    DecoderSession {
                        options,
                        phase: Phase::Close(Err(DecodeError::ProcessError(code))),
                        state,
                        notice,
                    }
                }
            },
            (Phase::Extract, Event::Image(None, code)) => DecoderSession {
                options,
                phase: Phase::ExtractNotice(code),
                state,
                notice,
            },
            (Phase::Extract, Event::Image(Some(header), _)) => DecoderSession {
                options,
                phase: Self::phase_after_image(header),
                state,
                notice,
            },
            (Phase::ExtractNotice(code), Event::Text(text)) => DecoderSession {
                options,
                phase: Phase::Close(Err(DecodeError::NullImageError(code, text))),
                state,
                notice,
            },
            (Phase::Copy(Layout::Compressed, n), Event::Bytes(bytes)) => {
                if bytes.len() == n {
                    DecoderSession {
                        options,
                        phase: Phase::Release(
                            match decoded {
                                Ok(img) => Ok(img),
                                Err(why) => Err(DecodeError::CorruptPayloadError(why)),
                            },
                        ),
                        state,
                        notice,
                    }
                } else {
                    DecoderSession {
                        options,
                        phase: Phase::Copy(Layout::Compressed, n),
                        state,
                        notice,
                    }
                }
            },
            (Phase::Copy(Layout::Grid(w, h, c), n), Event::Bytes(bytes)) => {
                if bytes.len() == n {
                    DecoderSession {
                        options,
                        phase: Phase::Release(
                            Ok(
                                TransformedImage {
                                    width: w as u32,
                                    height: h as u32,
                                    channels: c,
                                    pixels: bytes,
                                },
                            ),
                        ),
                        state,
                        notice,
                    }
                } else {
                    DecoderSession {
                        options,
                        phase: Phase::Copy(Layout::Grid(w, h, c), n),
                        state,
                        notice,
                    }
                }
            },
            (Phase::Release(result), Event::Released) => DecoderSession {
                options,
                phase: Phase::Close(result),
                state,
                notice,
            },
            (Phase::Close(result), Event::Closed) => DecoderSession {
                options,
                phase: Phase::Done(result),
                state: SessionState::Closed,
                notice,
            },
            (phase, _) => DecoderSession { options, phase, state, notice },
        };
        let action = after.pending();
        (after, action)
    }

    /// Whether the session waits for the bytes of a compressed payload.
    pub open spec fn awaits_payload(&self) -> bool {
        self.phase matches Phase::Copy(Layout::Compressed, _)
    }

    /// Takes the answer to the pending call and returns the session after it
    /// with the call that is to be made next. Where the answer holds the bytes
    /// of a compressed payload, they are decoded here.
    pub fn step(self, event: Event) -> (r: (DecoderSession, Action))
        requires
            self.wf(),
        ensures
            r.0.wf(),
            r.1 == r.0.pending_spec(),
            exists|decoded: Result<TransformedImage, String>|
                (decoded matches Ok(img) ==> img.wf()) && r.0 == #[trigger] self.next(
                    event,
                    decoded,
                ),
            !self.awaits_payload() ==> forall|decoded: Result<TransformedImage, String>|
                r.0 == #[trigger] self.next(event, decoded),
    {
        let decoded = match (&self.phase, &event) {
            (Phase::Copy(Layout::Compressed, _), Event::Bytes(bytes)) => decode_payload(bytes),
            _ => Err(String::new()),
        };
        let r = self.advance(event, decoded);
        r
    }
}

} // verus!
