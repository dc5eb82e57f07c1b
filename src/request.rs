//! The requests of the protocol, decoded, and the enums they carry.
use vstd::prelude::*;
use crate::wire::Attribute;

verus! {

/// The error codes of the protocol.
#[derive(Clone, Copy, Debug, PartialEq, Eq)]
pub enum ErrorCode {
    BadAlloc,
    BadStyle,
    BadClientWindow,
    BadFocusWindow,
    BadArea,
    BadSpotLocation,
    BadColormap,
    BadAtom,
    BadPixel,
    BadPixmap,
    BadName,
    BadCursor,
    BadProtocol,
    BadForeground,
    BadBackground,
    LocaleNotSupported,
    BadSomething,
}

/// The wire value of each error code.
pub open spec fn error_code_value(c: ErrorCode) -> u16 {
    match c {
        ErrorCode::BadAlloc => 1,
        ErrorCode::BadStyle => 2,
        ErrorCode::BadClientWindow => 3,
        ErrorCode::BadFocusWindow => 4,
        ErrorCode::BadArea => 5,
        ErrorCode::BadSpotLocation => 6,
        ErrorCode::BadColormap => 7,
        ErrorCode::BadAtom => 8,
        ErrorCode::BadPixel => 9,
        ErrorCode::BadPixmap => 10,
        ErrorCode::BadName => 11,
        ErrorCode::BadCursor => 12,
        ErrorCode::BadProtocol => 13,
        ErrorCode::BadForeground => 14,
        ErrorCode::BadBackground => 15,
        ErrorCode::LocaleNotSupported => 16,
        ErrorCode::BadSomething => 999,
    }
}

/// Whether `v` is the wire value of some error code.
pub open spec fn is_error_code_value(v: u16) -> bool {
    1 <= v <= 16 || v == 999
}

impl ErrorCode {
    /// The wire value of this code.
    pub fn to_u16(self) -> (r: u16)
        ensures
            r == error_code_value(self),
    {
        match self {
            ErrorCode::BadAlloc => 1,
            ErrorCode::BadStyle => 2,
            ErrorCode::BadClientWindow => 3,
            ErrorCode::BadFocusWindow => 4,
            ErrorCode::BadArea => 5,
            ErrorCode::BadSpotLocation => 6,
            ErrorCode::BadColormap => 7,
            ErrorCode::BadAtom => 8,
            ErrorCode::BadPixel => 9,
            ErrorCode::BadPixmap => 10,
            ErrorCode::BadName => 11,
            ErrorCode::BadCursor => 12,
            ErrorCode::BadProtocol => 13,
            ErrorCode::BadForeground => 14,
            ErrorCode::BadBackground => 15,
            ErrorCode::LocaleNotSupported => 16,
            ErrorCode::BadSomething => 999,
        }
    }

    /// The code whose wire value is `v`; `None` for a value that names none.
    pub fn from_u16(v: u16) -> (r: Option<ErrorCode>)
        ensures
            match r {
                Some(c) => error_code_value(c) == v,
                None => !is_error_code_value(v),
            },
    {
        match v {
            1 => Some(ErrorCode::BadAlloc),
            2 => Some(ErrorCode::BadStyle),
            3 => Some(ErrorCode::BadClientWindow),
            4 => Some(ErrorCode::BadFocusWindow),
            5 => Some(ErrorCode::BadArea),
            6 => Some(ErrorCode::BadSpotLocation),
            7 => Some(ErrorCode::BadColormap),
            8 => Some(ErrorCode::BadAtom),
            9 => Some(ErrorCode::BadPixel),
            10 => Some(ErrorCode::BadPixmap),
            11 => Some(ErrorCode::BadName),
            12 => Some(ErrorCode::BadCursor),
            13 => Some(ErrorCode::BadProtocol),
            14 => Some(ErrorCode::BadForeground),
            15 => Some(ErrorCode::BadBackground),
            16 => Some(ErrorCode::LocaleNotSupported),
            999 => Some(ErrorCode::BadSomething),
            _ => None,
        }
    }
}

/// Every code reads back from its wire value, and each value that is read
/// names exactly one code.
pub proof fn lemma_error_code_round_trip(c: ErrorCode, d: ErrorCode)
    ensures
        is_error_code_value(error_code_value(c)),
        error_code_value(c) == error_code_value(d) ==> c == d,
{
}

/// The error flag: the input-method id of an error is valid.
pub const ERROR_FLAG_IM_VALID: u16 = 1;
/// The error flag: the input-context id of an error is valid.
pub const ERROR_FLAG_IC_VALID: u16 = 2;
/// The forward-event flag: the client waits for a sync reply.
pub const FORWARD_SYNCHRONOUS: u16 = 1;

/// The kind of value an advertised attribute holds.
#[derive(Clone, Copy, Debug, PartialEq, Eq)]
pub enum AttrType {
    Separator,
    Long,
    Style,
    Window,
    XPoint,
    NestedList,
}

/// The names of the attributes this server advertises.
#[derive(Clone, Copy, Debug, PartialEq, Eq)]
pub enum AttributeName {
    QueryInputStyle,
    InputStyle,
    ClientWindow,
    FocusWindow,
    PreeditAttributes,
    SpotLocation,
    SeparatorofNestedList,
}

/// An advertised attribute: its id, name and value kind.
#[derive(Clone, Copy, Debug, PartialEq, Eq)]
pub struct Attr {
    pub id: u16,
    pub name: AttributeName,
    pub ty: AttrType,
}

/// A decoded request of the protocol.
#[allow(inconsistent_fields)]
#[derive(Debug)]
pub enum Request {
    Error {
        input_method_id: u16,
        input_context_id: u16,
        flag: u16,
        code: ErrorCode,
        detail: Vec<u8>,
    },
    Connect {
        endian: u8,
        client_major_protocol_version: u16,
        client_minor_protocol_version: u16,
        client_auth_protocol_names: Vec<Vec<u8>>,
    },
    ConnectReply { server_major_protocol_version: u16, server_minor_protocol_version: u16 },
    Disconnect {},
    DisconnectReply {},
    Open { locale: Vec<u8> },
    OpenReply { input_method_id: u16, im_attrs: Vec<Attr>, ic_attrs: Vec<Attr> },
    Close { input_method_id: u16 },
    CloseReply { input_method_id: u16 },
    CreateIc { input_method_id: u16, ic_attributes: Vec<Attribute> },
    CreateIcReply { input_method_id: u16, input_context_id: u16 },
    DestroyIc { input_method_id: u16, input_context_id: u16 },
    DestroyIcReply { input_method_id: u16, input_context_id: u16 },
    QueryExtension { input_method_id: u16, extensions: Vec<Vec<u8>> },
    QueryExtensionReply { input_method_id: u16, extensions: Vec<Vec<u8>> },
    EncodingNegotiation {
        input_method_id: u16,
        encodings: Vec<Vec<u8>>,
        encoding_infos: Vec<Vec<u8>>,
    },
    EncodingNegotiationReply { input_method_id: u16, category: u16, index: u16 },
    GetImValues { input_method_id: u16, im_attributes: Vec<u16> },
    GetImValuesReply { input_method_id: u16, im_attributes: Vec<Attribute> },
    SetIcValues { input_method_id: u16, input_context_id: u16, ic_attributes: Vec<Attribute> },
    SetIcValuesReply { input_method_id: u16, input_context_id: u16 },
    SetIcFocus { input_method_id: u16, input_context_id: u16 },
    UnsetIcFocus { input_method_id: u16, input_context_id: u16 },
    PreeditStartReply { input_method_id: u16, input_context_id: u16, return_value: i32 },
    PreeditCaretReply { input_method_id: u16, input_context_id: u16, position: i32 },
    ForwardEvent {
        input_method_id: u16,
        input_context_id: u16,
        flag: u16,
        serial_number: u16,
        xev: Vec<u8>,
    },
    SyncReply { input_method_id: u16, input_context_id: u16 },
}

} // verus!
