//! The application-level message and its mapping to and from frames.

use crate::dataframe::DataFrame;
use crate::dataframe::DataFrameView;
use crate::encoding::append_bytes;
use crate::encoding::bytes_from;
use crate::encoding::is_valid_utf8;
use crate::encoding::read_status_code;
use crate::encoding::status_code_bytes;
use crate::encoding::status_code_of;
use crate::encoding::write_status_code;
use crate::error::ErrorView;
use crate::error::WebSocketError;
use crate::opcode::Opcode;
use vstd::prelude::*;
use vstd::slice::slice_to_vec;
use vstd::utf8::encode_utf8;
use vstd::utf8::encode_utf8_valid_utf8;
use vstd::utf8::valid_utf8;

verus! {

broadcast use vstd::string::to_string_from_display_ensures_for_str;

/// A message: an opcode, an optional close status code, and payload
/// bytes.
///
/// The payload holds the application bytes themselves: for a text
/// message its UTF-8 bytes, for a close message with a status code the
/// UTF-8 bytes of the reason (the status code is kept apart and joins
/// the payload only on the wire), for the rest the raw bytes.
///
/// A message never gives random access to its wire payload; it only
/// writes it, through [`Message::write_payload`], or hands it out
/// materialized in the frame that [`Message::dataframes`] builds.
#[derive(Debug)]
pub struct Message {
    /// The message's opcode; always one of Text, Binary, Close, Ping,
    /// Pong.
    pub opcode: Opcode,
    /// The close status code, present only on a close message built
    /// with a reason.
    pub cd_status_code: Option<u16>,
    /// The application payload bytes.
    pub payload: Vec<u8>,
}

/// The mathematical model of a [`Message`].
pub ghost struct MessageView {
    pub opcode: Opcode,
    pub cd_status_code: Option<u16>,
    pub payload: Seq<u8>,
}

impl View for Message {
    type V = MessageView;

    open spec fn view(&self) -> MessageView {
        MessageView {
            opcode: self.opcode,
            cd_status_code: self.cd_status_code,
            payload: self.payload@,
        }
    }
}

impl MessageView {
    /// Well-formedness: what every constructor establishes and
    /// reassembly preserves.
    pub open spec fn wf(self) -> bool {
        &&& self.opcode.is_message_opcode()
        &&& self.cd_status_code is Some ==> self.opcode == Opcode::Close
        &&& self.opcode == Opcode::Text ==> valid_utf8(self.payload)
        &&& self.opcode == Opcode::Close && self.cd_status_code is Some ==> valid_utf8(
            self.payload,
        )
        &&& self.opcode == Opcode::Close && self.cd_status_code is None
            ==> self.payload.len() == 0
    }

    /// The bytes the message puts on the wire: for a close message with
    /// a status code, the two-byte big-endian code followed by the
    /// payload; otherwise the payload alone.
    pub open spec fn wire_payload(self) -> Seq<u8> {
        match self.cd_status_code {
            Option::Some(code) => status_code_bytes(code) + self.payload,
            Option::None => self.payload,
        }
    }

    /// The single, final frame that carries the message: last-frame
    /// flag set, reserved bits clear, the message's opcode, and the
    /// wire payload.
    pub open spec fn as_frame(self) -> DataFrameView {
        DataFrameView {
            finished: true,
            reserved: seq![false, false, false],
            opcode: self.opcode,
            data: self.wire_payload(),
        }
    }
}

impl Message {
    /// Builds a message from its three parts.
    fn new(code: Opcode, status: Option<u16>, payload: Vec<u8>) -> (message: Message)
        ensures
            message.opcode == code,
            message.cd_status_code == status,
            message.payload == payload,
    {
        Message { opcode: code, cd_status_code: status, payload }
    }

    /// Builds a text message; the payload is the UTF-8 encoding of
    /// `data`.
    pub fn text(data: String) -> (message: Message)
        ensures
            message.opcode == Opcode::Text,
            message.cd_status_code is None,
            message.payload@ == encode_utf8(data@),
            message@.wf(),
    {
        proof {
            encode_utf8_valid_utf8(data@);
        }
        Message::new(Opcode::Text, None, slice_to_vec(data.as_str().as_bytes()))
    }

    /// Builds a binary message; the payload is `data` as it stands.
    pub fn binary(data: Vec<u8>) -> (message: Message)
        ensures
            message.opcode == Opcode::Binary,
            message.cd_status_code is None,
            message.payload@ == data@,
            message@.wf(),
    {
        Message::new(Opcode::Binary, None, data)
    }

    /// Builds a bare close message: no status code, empty payload.
    pub fn close() -> (message: Message)
        ensures
            message.opcode == Opcode::Close,
            message.cd_status_code is None,
            message.payload@ == Seq::<u8>::empty(),
            message@.wf(),
    {
        Message::new(Opcode::Close, None, Vec::new())
    }

    /// Builds a close message with a status code; the payload is the
    /// UTF-8 encoding of `reason`.
    pub fn close_because(code: u16, reason: String) -> (message: Message)
        ensures
            message.opcode == Opcode::Close,
            message.cd_status_code == Some(code),
            message.payload@ == encode_utf8(reason@),
            message@.wf(),
    {
        proof {
            encode_utf8_valid_utf8(reason@);
        }
        Message::new(Opcode::Close, Some(code), slice_to_vec(reason.as_str().as_bytes()))
    }

    /// Builds a ping message; the payload is `data` as it stands.
    pub fn ping(data: Vec<u8>) -> (message: Message)
        ensures
            message.opcode == Opcode::Ping,
            message.cd_status_code is None,
            message.payload@ == data@,
            message@.wf(),
    {
        Message::new(Opcode::Ping, None, data)
    }

    /// Builds a pong message; the payload is `data` as it stands.
    pub fn pong(data: Vec<u8>) -> (message: Message)
        ensures
            message.opcode == Opcode::Pong,
            message.cd_status_code is None,
            message.payload@ == data@,
            message@.wf(),
    {
        Message::new(Opcode::Pong, None, data)
    }

    /// As a frame, a message is always the last one of its sequence.
    pub fn is_last(&self) -> (last: bool)
        ensures
            last,
    {
        true
    }

    /// The message's opcode.
    pub fn opcode(&self) -> (opcode: Opcode)
        ensures
            opcode == self.opcode,
    {
        self.opcode
    }

    /// As a frame, a message always reports clear reserved bits.
    pub fn reserved(&self) -> (reserved: [bool; 3])
        ensures
            reserved@ == seq![false, false, false],
    {
        let reserved = [false, false, false];
        proof {
            assert(reserved@ =~= seq![false, false, false]);
        }
        reserved
    }

    /// Appends the message's wire payload to `sink`: the status code in
    /// two big-endian bytes when one is present, then the payload
    /// bytes.
    ///
    /// The sink is a byte buffer, so the write itself cannot fail;
    /// handing the buffer to a fallible transport is the caller's
    /// affair.
    pub fn write_payload(&self, sink: &mut Vec<u8>)
        ensures
            final(sink)@ == old(sink)@ + self@.wire_payload(),
    {
        if let Some(code) = self.cd_status_code {
            write_status_code(sink, code);
        }
        append_bytes(sink, &self.payload);
        proof {
            if self.cd_status_code is Some {
                assert(final(sink)@ =~= old(sink)@ + self@.wire_payload());
            }
        }
    }

    /// The sequence of frames that transmits the message: exactly one,
    /// the message as its own single final frame.  Producing it does
    /// not change the message, so the sequence can be derived again at
    /// will.
    ///
    /// The frame carries the wire payload materialized, so its `data`
    /// field is well-defined even for a close message with a status
    /// code.
    pub fn dataframes(&self) -> (frames: Vec<DataFrame>)
        ensures
            frames@.len() == 1,
            frames@[0]@ == self@.as_frame(),
    {
        let mut data: Vec<u8> = Vec::new();
        self.write_payload(&mut data);
        let frame = DataFrame {
            finished: true,
            reserved: [false, false, false],
            opcode: self.opcode,
            data,
        };
        proof {
            assert(frame@.reserved =~= seq![false, false, false]);
            assert(frame@.data =~= self@.wire_payload());
        }
        let mut frames: Vec<DataFrame> = Vec::new();
        frames.push(frame);
        frames
    }
}

impl PartialEq for Message {
    /// Structural equality: same opcode, same status code, same
    /// payload bytes.
    fn eq(&self, other: &Self) -> (equal: bool) {
        let opcode_eq = self.opcode == other.opcode;
        let status_eq = match (self.cd_status_code, other.cd_status_code) {
            (Some(left), Some(right)) => left == right,
            (None, None) => true,
            _ => false,
        };
        let payload_eq = crate::encoding::bytes_eq(&self.payload, &other.payload);
        opcode_eq && status_eq && payload_eq
    }
}

impl vstd::std_specs::cmp::PartialEqSpecImpl for Message {
    open spec fn obeys_eq_spec() -> bool {
        true
    }

    open spec fn eq_spec(&self, other: &Self) -> bool {
        self@ == other@
    }
}

/// The models of a sequence of frames.
pub open spec fn frame_views(frames: Seq<DataFrame>) -> Seq<DataFrameView> {
    frames.map_values(|frame: DataFrame| frame@)
}

/// The payload bytes of all frames, concatenated in sequence order.
pub open spec fn frames_data(frames: Seq<DataFrameView>) -> Seq<u8>
    decreases frames.len(),
{
    if frames.len() == 0 {
        Seq::empty()
    } else {
        frames_data(frames.drop_last()) + frames.last().data
    }
}

/// The reason the frame at position `i` is rejected, if it is: every
/// frame after the first must be a continuation frame, and every frame
/// must report clear reserved bits.  The first frame is exempt from the
/// continuation check — it carries the message's opcode.
pub open spec fn frame_failure(frames: Seq<DataFrameView>, i: int) -> Option<Seq<char>> {
    if i >= 1 && frames[i].opcode != Opcode::Continuation {
        Some("Unexpected non-continuation data frame"@)
    } else if !frames[i].reserved_clear() {
        Some("Unsupported reserved bits received"@)
    } else {
        None
    }
}

/// The reason of the first rejected frame at position `i` or later, if
/// any frame from there on is rejected.
pub open spec fn first_frame_failure_from(frames: Seq<DataFrameView>, i: int) -> Option<Seq<char>>
    decreases frames.len() - i,
{
    if 0 <= i < frames.len() {
        if frame_failure(frames, i) is Some {
            frame_failure(frames, i)
        } else {
            first_frame_failure_from(frames, i + 1)
        }
    } else {
        None
    }
}

/// The reason of the first rejected frame, if any frame is rejected.
pub open spec fn first_frame_failure(frames: Seq<DataFrameView>) -> Option<Seq<char>> {
    first_frame_failure_from(frames, 0)
}

/// The message built from the concatenated payload `data` of a frame
/// sequence whose first frame carried `opcode`.
pub open spec fn reassemble_payload(opcode: Opcode, data: Seq<u8>) -> Result<
    MessageView,
    ErrorView,
> {
    match opcode {
        Opcode::Text => if valid_utf8(data) {
            Ok(MessageView { opcode: Opcode::Text, cd_status_code: None, payload: data })
        } else {
            Err(ErrorView::Utf8Error)
        },
        Opcode::Binary => Ok(
            MessageView { opcode: Opcode::Binary, cd_status_code: None, payload: data },
        ),
        Opcode::Close => if data.len() == 0 {
            Ok(MessageView { opcode: Opcode::Close, cd_status_code: None, payload: data })
        } else if data.len() < 2 {
            Err(ErrorView::IoError)
        } else if valid_utf8(data.skip(2)) {
            Ok(
                MessageView {
                    opcode: Opcode::Close,
                    cd_status_code: Some(status_code_of(data)),
                    payload: data.skip(2),
                },
            )
        } else {
            Err(ErrorView::Utf8Error)
        },
        Opcode::Ping => Ok(
            MessageView { opcode: Opcode::Ping, cd_status_code: None, payload: data },
        ),
        Opcode::Pong => Ok(
            MessageView { opcode: Opcode::Pong, cd_status_code: None, payload: data },
        ),
        _ => Err(ErrorView::ProtocolError("Unsupported opcode received"@)),
    }
}

/// What reassembling a frame sequence yields: the full mathematical
/// statement of the reassembler, of which [`Message::from_dataframes`]
/// is the executable form.
pub open spec fn reassemble(frames: Seq<DataFrameView>) -> Result<MessageView, ErrorView> {
    if frames.len() == 0 {
        Err(ErrorView::ProtocolError("No dataframes provided"@))
    } else {
        match first_frame_failure(frames) {
            Some(reason) => Err(ErrorView::ProtocolError(reason)),
            None => reassemble_payload(frames[0].opcode, frames_data(frames)),
        }
    }
}

/// When no frame before position `i` is rejected and the frame at `i`
/// is, the first failure is the one at `i`.
proof fn lemma_first_failure_at(frames: Seq<DataFrameView>, i: int, k: int)
    requires
        0 <= k <= i < frames.len(),
        forall|j: int| k <= j < i ==> frame_failure(frames, j) is None,
        frame_failure(frames, i) is Some,
    ensures
        first_frame_failure_from(frames, k) == frame_failure(frames, i),
    decreases i - k,
{
    if k < i {
        lemma_first_failure_at(frames, i, k + 1);
    }
}

/// When no frame at position `k` or later is rejected, there is no
/// failure from `k` on.
proof fn lemma_no_failure_from(frames: Seq<DataFrameView>, k: int)
    requires
        0 <= k <= frames.len(),
        forall|j: int| k <= j < frames.len() ==> frame_failure(frames, j) is None,
    ensures
        first_frame_failure_from(frames, k) is None,
    decreases frames.len() - k,
{
    if k < frames.len() {
        lemma_no_failure_from(frames, k + 1);
    }
}

/// A well-formed message is rebuilt exactly from its own opcode and
/// wire payload.
proof fn lemma_wire_payload_round_trip(m: MessageView)
    requires
        m.wf(),
    ensures
        reassemble_payload(m.opcode, m.wire_payload()) == Ok::<MessageView, ErrorView>(m),
{
    let data = m.wire_payload();
    match m.cd_status_code {
        Some(code) => {
            assert(m.opcode == Opcode::Close);
            crate::encoding::lemma_status_code_round_trip(code, m.payload);
            assert(data.len() >= 2);
            assert(data.skip(2) =~= m.payload);
        },
        None => {
            assert(data == m.payload);
        },
    }
}

/// Law: a well-formed message, sent as the single frame it exposes,
/// reassembles to the very same message.  For a text message this says
/// that for every valid UTF-8 payload, reassembling the frame produced
/// for it yields an equal text message.
pub proof fn lemma_single_frame_round_trip(m: MessageView)
    requires
        m.wf(),
    ensures
        reassemble(seq![m.as_frame()]) == Ok::<MessageView, ErrorView>(m),
{
    let f = m.as_frame();
    let frames = seq![f];
    assert(frames.drop_last() =~= Seq::<DataFrameView>::empty());
    assert(frames_data(Seq::<DataFrameView>::empty()) == Seq::<u8>::empty());
    assert(frames_data(frames) =~= f.data);
    lemma_fragmented_round_trip(m, frames);
}

/// Law: however a message's wire payload is cut into a first frame
/// that carries the message's opcode and following continuation
/// frames, all with clear reserved bits, reassembling the sequence
/// yields the message itself.
pub proof fn lemma_fragmented_round_trip(m: MessageView, frames: Seq<DataFrameView>)
    requires
        m.wf(),
        frames.len() >= 1,
        frames[0].opcode == m.opcode,
        forall|i: int| 1 <= i < frames.len() ==> frames[i].opcode == Opcode::Continuation,
        forall|i: int| 0 <= i < frames.len() ==> frames[i].reserved_clear(),
        frames_data(frames) == m.wire_payload(),
    ensures
        reassemble(frames) == Ok::<MessageView, ErrorView>(m),
{
    assert forall|i: int| 0 <= i < frames.len() implies frame_failure(frames, i) is None by {
        if i >= 1 {
            assert(frames[i].opcode == Opcode::Continuation);
        }
        assert(frames[i].reserved_clear());
    }
    lemma_no_failure_from(frames, 0);
    lemma_wire_payload_round_trip(m);
}

/// Law: the single frame that carries a binary message holds the
/// binary bytes themselves as its payload, so writing that frame's
/// payload reproduces them exactly.
pub proof fn lemma_binary_frame_data(m: MessageView)
    requires
        m.opcode == Opcode::Binary,
        m.cd_status_code is None,
    ensures
        m.as_frame().data == m.payload,
{
}

impl Message {
    /// Validates an ordered sequence of received frames and folds it
    /// into one message, all or nothing: [`reassemble`] applied to the
    /// frames' models says exactly which message or which error comes
    /// back.
    pub fn from_dataframes(frames: Vec<DataFrame>) -> (message: Result<Message, WebSocketError>)
        ensures
            match message {
                Ok(m) => reassemble(frame_views(frames@)) == Ok::<MessageView, ErrorView>(m@)
                    && m@.wf(),
                Err(e) => reassemble(frame_views(frames@)) == Err::<MessageView, ErrorView>(e@),
            },
    {
        let ghost views = frame_views(frames@);
        let n = frames.len();
        if n == 0 {
            return Err(
                WebSocketError::ProtocolError("No dataframes provided".to_string()),
            );
        }
        let opcode = frames[0].opcode;
        let mut data: Vec<u8> = Vec::new();
        let mut i: usize = 0;
        while i < n
            invariant
                views == frame_views(frames@),
                n == frames@.len(),
                0 < n,
                i <= n,
                opcode == views[0].opcode,
                forall|j: int| 0 <= j < i ==> frame_failure(views, j) is None,
                data@ == frames_data(views.take(i as int)),
            decreases n - i,
        {
            let frame = &frames[i];
            proof {
                assert(views[i as int] == frame@);
            }
            if i > 0 && !matches!(frame.opcode, Opcode::Continuation) {
                proof {
                    lemma_first_failure_at(views, i as int, 0);
                }
                return Err(
                    WebSocketError::ProtocolError(
                        "Unexpected non-continuation data frame".to_string(),
                    ),
                );
            }
            if !frame.reserved_clear() {
                proof {
                    lemma_first_failure_at(views, i as int, 0);
                }
                return Err(
                    WebSocketError::ProtocolError(
                        "Unsupported reserved bits received".to_string(),
                    ),
                );
            }
            append_bytes(&mut data, &frame.data);
            proof {
                assert(views.take(i + 1).drop_last() =~= views.take(i as int));
                assert(views.take(i + 1).last() == views[i as int]);
                assert(data@ == frames_data(views.take(i + 1)));
            }
            i = i + 1;
        }
        proof {
            lemma_no_failure_from(views, 0);
            assert(views.take(n as int) =~= views);
        }
        match opcode {
            Opcode::Text => {
                if is_valid_utf8(&data) {
                    Ok(Message::new(Opcode::Text, None, data))
                } else {
                    Err(WebSocketError::Utf8Error)
                }
            },
            Opcode::Binary => Ok(Message::new(Opcode::Binary, None, data)),
            Opcode::Close => {
                if data.len() == 0 {
                    Ok(Message::new(Opcode::Close, None, data))
                } else if data.len() < 2 {
                    Err(WebSocketError::IoError)
                } else {
                    let code = read_status_code(&data);
                    let reason = bytes_from(&data, 2);
                    if is_valid_utf8(&reason) {
                        Ok(Message::new(Opcode::Close, Some(code), reason))
                    } else {
                        Err(WebSocketError::Utf8Error)
                    }
                }
            },
            Opcode::Ping => Ok(Message::new(Opcode::Ping, None, data)),
            Opcode::Pong => Ok(Message::new(Opcode::Pong, None, data)),
            _ => Err(
                WebSocketError::ProtocolError("Unsupported opcode received".to_string()),
            ),
        }
    }
}

} // verus!
