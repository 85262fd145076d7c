use vstd::prelude::*;
use vstd::string::StringSliceAdditionalSpecFns;
use vstd::string::StringExecFns;
use vstd::utf8::encode_utf8;
use crate::metadata::{MetadataEntryView, MetadataMap, insert_view};

verus! {

/// A gRPC status code, one of the seventeen values the protocol defines.
/// `Okay` stands for the protocol's `OK` code, number zero.
#[derive(Clone, Copy, Debug, PartialEq, Eq, Structural)]
pub enum Code {
    Okay,
    Cancelled,
    Unknown,
    InvalidArgument,
    DeadlineExceeded,
    NotFound,
    AlreadyExists,
    PermissionDenied,
    ResourceExhausted,
    FailedPrecondition,
    Aborted,
    OutOfRange,
    Unimplemented,
    Internal,
    Unavailable,
    DataLoss,
    Unauthenticated,
}

/// The number under which a code travels in the `grpc-status` header.
pub open spec fn code_number(c: Code) -> int {
    match c {
        Code::Okay => 0,
        Code::Cancelled => 1,
        Code::Unknown => 2,
        Code::InvalidArgument => 3,
        Code::DeadlineExceeded => 4,
        Code::NotFound => 5,
        Code::AlreadyExists => 6,
        Code::PermissionDenied => 7,
        Code::ResourceExhausted => 8,
        Code::FailedPrecondition => 9,
        Code::Aborted => 10,
        Code::OutOfRange => 11,
        Code::Unimplemented => 12,
        Code::Internal => 13,
        Code::Unavailable => 14,
        Code::DataLoss => 15,
        Code::Unauthenticated => 16,
    }
}

/// The decimal ASCII digits of a code's number.
pub open spec fn code_digits(c: Code) -> Seq<u8> {
    let n = code_number(c);
    if n < 10 {
        seq![(48 + n) as u8]
    } else {
        seq![49u8, (48 + (n - 10)) as u8]
    }
}

impl Code {
    /// The code's number: `0` for `Okay` up to `16` for `Unauthenticated`.
    pub fn number(&self) -> (n: u32)
        ensures
            n == code_number(*self),
    {
        match *self {
            Code::Okay => 0,
            Code::Cancelled => 1,
            Code::Unknown => 2,
            Code::InvalidArgument => 3,
            Code::DeadlineExceeded => 4,
            Code::NotFound => 5,
            Code::AlreadyExists => 6,
            Code::PermissionDenied => 7,
            Code::ResourceExhausted => 8,
            Code::FailedPrecondition => 9,
            Code::Aborted => 10,
            Code::OutOfRange => 11,
            Code::Unimplemented => 12,
            Code::Internal => 13,
            Code::Unavailable => 14,
            Code::DataLoss => 15,
            Code::Unauthenticated => 16,
        }
    }

    /// The decimal digits of the code's number, as header value bytes.
    pub fn digits(&self) -> (v: Vec<u8>)
        ensures
            v@ == code_digits(*self),
    {
        let n = self.number();
        let mut v: Vec<u8> = Vec::new();
        if n < 10 {
            v.push((48 + n) as u8);
        } else {
            v.push(49u8);
            v.push((48 + (n - 10)) as u8);
        }
        proof {
            assert(v@ =~= code_digits(*self));
        }
        v
    }
}

/// Abstract value of a [`Status`]: its code and its message text.
pub struct StatusView {
    pub code: Code,
    pub message: Seq<char>,
}

/// A terminal gRPC status: the value with which a call is concluded without
/// (or in spite of) a payload, carrying a [`Code`] and a human-readable
/// message.
#[derive(Debug)]
pub struct Status {
    pub code: Code,
    pub message: String,
}

impl View for Status {
    type V = StatusView;

    open spec fn view(&self) -> StatusView {
        StatusView { code: self.code, message: self.message@ }
    }
}

/// Whether a byte must be escaped before it may appear in the
/// `grpc-message` header: control bytes, the byte `%` itself, a handful of
/// delimiters, and every non-ASCII byte.
pub open spec fn byte_needs_escape(b: u8) -> bool {
    ||| b < 0x20
    ||| b >= 0x7f
    ||| b == ' ' as u8
    ||| b == '"' as u8
    ||| b == '#' as u8
    ||| b == '%' as u8
    ||| b == '<' as u8
    ||| b == '>' as u8
    ||| b == '`' as u8
    ||| b == '?' as u8
    ||| b == '{' as u8
    ||| b == '}' as u8
}

/// The ASCII digit for a value below sixteen, upper case above nine.
pub open spec fn hex_digit(n: u8) -> u8 {
    if n < 10 {
        (48 + n) as u8
    } else {
        (55 + n) as u8
    }
}

/// How one byte appears after escaping: kept as itself, or replaced by a
/// percent sign and two upper-case hex digits.
pub open spec fn escape_byte(b: u8) -> Seq<u8> {
    if byte_needs_escape(b) {
        seq![('%' as u8), hex_digit(b / 16), hex_digit(b % 16)]
    } else {
        seq![b]
    }
}

/// Percent-escaping of a whole byte string, byte by byte.
pub open spec fn percent_escape(s: Seq<u8>) -> Seq<u8>
    decreases s.len(),
{
    if s.len() == 0 {
        Seq::empty()
    } else {
        percent_escape(s.drop_last()) + escape_byte(s.last())
    }
}

fn hex_digit_of(n: u8) -> (r: u8)
    requires
        n < 16,
    ensures
        r == hex_digit(n),
{
    if n < 10 {
        48 + n
    } else {
        55 + n
    }
}

/// Percent-escape a byte string for use as a `grpc-message` header value.
fn escape_bytes(bytes: &[u8]) -> (out: Vec<u8>)
    ensures
        out@ == percent_escape(bytes@),
{
    let mut out: Vec<u8> = Vec::new();
    let mut i: usize = 0;
    proof {
        assert(bytes@.subrange(0, 0) =~= Seq::<u8>::empty());
    }
    while i < bytes.len()
        invariant
            0 <= i <= bytes@.len(),
            out@ == percent_escape(bytes@.subrange(0, i as int)),
        decreases bytes@.len() - i,
    {
        let b = bytes[i];
        proof {
            assert(bytes@.subrange(0, i as int + 1).drop_last() =~= bytes@.subrange(
                0,
                i as int,
            ));
            assert(bytes@.subrange(0, i as int + 1).last() == b);
        }
        if b < 0x20 || b >= 0x7f || b == ' ' as u8 || b == '"' as u8 || b == '#' as u8 || b
            == '%' as u8 || b == '<' as u8 || b == '>' as u8 || b == '`' as u8 || b
            == '?' as u8 || b == '{' as u8 || b == '}' as u8 {
            out.push('%' as u8);
            out.push(hex_digit_of(b / 16));
            out.push(hex_digit_of(b % 16));
        } else {
            out.push(b);
        }
        proof {
            assert(out@ =~= percent_escape(bytes@.subrange(0, i as int + 1)));
        }
        i = i + 1;
    }
    proof {
        assert(bytes@.subrange(0, bytes@.len() as int) =~= bytes@);
    }
    out
}

/// The key of the header that carries a status code.
pub open spec fn grpc_status_key() -> Seq<u8> {
    "grpc-status".spec_bytes()
}

/// The key of the header that carries a status message.
pub open spec fn grpc_message_key() -> Seq<u8> {
    "grpc-message".spec_bytes()
}

/// The headers a status serializes itself into: `grpc-status` holds the
/// decimal code; when the message is non-empty, `grpc-message` holds the
/// percent-escaped message bytes.
pub open spec fn with_status_headers(
    s: Seq<MetadataEntryView>,
    st: StatusView,
) -> Seq<MetadataEntryView> {
    let with_code = insert_view(s, grpc_status_key(), code_digits(st.code), false);
    if st.message.len() == 0 {
        with_code
    } else {
        insert_view(
            with_code,
            grpc_message_key(),
            percent_escape(encode_utf8(st.message)),
            false,
        )
    }
}

/// The `grpc-status` header entry for a code.
pub open spec fn grpc_status_entry(c: Code) -> MetadataEntryView {
    MetadataEntryView { key: grpc_status_key(), value: code_digits(c), binary: false }
}

/// The `grpc-message` header entry for a message.
pub open spec fn grpc_message_entry(message: Seq<char>) -> MetadataEntryView {
    MetadataEntryView {
        key: grpc_message_key(),
        value: percent_escape(encode_utf8(message)),
        binary: false,
    }
}

/// Every byte of an escaped message is visible ASCII, fit for a header
/// value: rendering a status message into headers cannot fail, whatever
/// the message holds.
pub proof fn lemma_percent_escape_header_safe(s: Seq<u8>)
    ensures
        forall|i: int|
            0 <= i < percent_escape(s).len() ==> 0x20 <= #[trigger] percent_escape(s)[i]
                < 0x7f,
    decreases s.len(),
{
    if s.len() == 0 {
    } else {
        lemma_percent_escape_header_safe(s.drop_last());
        let b = s.last();
        assert(('%' as u8) == 37);
        assert forall|i: int|
            0 <= i < escape_byte(b).len() implies 0x20 <= #[trigger] escape_byte(b)[i]
            < 0x7f by {
            if byte_needs_escape(b) {
                assert(escape_byte(b)[0] == ('%' as u8));
                assert(escape_byte(b)[1] == hex_digit(b / 16));
                assert(escape_byte(b)[2] == hex_digit(b % 16));
            } else {
                assert(escape_byte(b)[0] == b);
            }
        }
        assert forall|i: int|
            0 <= i < percent_escape(s).len() implies 0x20 <= #[trigger] percent_escape(s)[i]
            < 0x7f by {
            let pre = percent_escape(s.drop_last());
            if i < pre.len() {
                assert(percent_escape(s)[i] == pre[i]);
            } else {
                assert(percent_escape(s)[i] == escape_byte(b)[i - pre.len()]);
            }
        }
    }
}

impl Status {
    /// A status with the given code and message.
    pub fn new(code: Code, message: String) -> (s: Self)
        ensures
            s@ == (StatusView { code, message: message@ }),
    {
        Status { code, message }
    }

    /// A `PermissionDenied` status with the given message.
    pub fn permission_denied(message: &str) -> (s: Self)
        ensures
            s@ == (StatusView { code: Code::PermissionDenied, message: message@ }),
    {
        Status { code: Code::PermissionDenied, message: String::from_str(message) }
    }

    /// The status code.
    pub fn code(&self) -> (c: Code)
        ensures
            c == self@.code,
    {
        self.code
    }

    /// The status message.
    pub fn message(&self) -> (m: &str)
        ensures
            m@ == self@.message,
    {
        self.message.as_str()
    }

    /// Serialize this status into response headers, following the gRPC
    /// status-propagation convention mirrored by [`with_status_headers`].
    pub fn add_header(&self, headers: &mut MetadataMap)
        ensures
            final(headers)@ == with_status_headers(old(headers)@, self@),
    {
        let digits = self.code.digits();
        headers.insert("grpc-status", digits);
        let msg = self.message.as_str();
        if !msg.is_empty() {
            let encoded = escape_bytes(msg.as_bytes());
            headers.insert("grpc-message", encoded);
        }
    }
}

impl Clone for Status {
    fn clone(&self) -> (r: Self)
        ensures
            r == *self,
    {
        Status { code: self.code, message: self.message.clone() }
    }
}

impl PartialEq for Status {
    fn eq(&self, other: &Self) -> (r: bool) {
        let r = self.code == other.code && self.message == other.message;
        r
    }
}

impl Eq for Status {}

impl vstd::std_specs::cmp::PartialEqSpecImpl for Status {
    open spec fn obeys_eq_spec() -> bool {
        true
    }

    open spec fn eq_spec(&self, other: &Self) -> bool {
        self@ == other@
    }
}

} // verus!
