//! The per-client state machine: input methods, their input contexts, and
//! what each request does to them and answers.
use vstd::prelude::*;
use vstd::string::StringSliceAdditionalSpecFns;
use crate::context::{
    apply_attrs, set_ic_attrs, InputContext, IC_CLIENTWIN, IC_FOCUSWIN, IC_INPUTSTYLE,
    IC_NESTED_SEP, IC_PREEDITATTRS, IC_SPOTLOCATION,
};
use crate::request::{
    Attr, AttrType, AttributeName, ErrorCode, Request, ERROR_FLAG_IM_VALID, FORWARD_SYNCHRONOUS,
};
use crate::slab::Slab;
use crate::wire::{u16_bytes, u32_bytes, write_u16, write_u32, Attribute, Endian, Point};

verus! {

/// A failure of a request that names no live input method or context.
#[derive(Clone, Copy, Debug, PartialEq, Eq)]
pub enum ServerError {
    ClientNotExists,
}

/// A session of a client under one locale, holding its input contexts.
pub struct InputMethod<T> {
    pub locale: Vec<u8>,
    pub input_contexts: Slab<InputContext<T>>,
}

/// Whether the contexts of the input method `m` are stored under their own ids.
pub open spec fn im_wf<T>(im: InputMethod<T>, m: u16) -> bool {
    &&& im.input_contexts.wf()
    &&& forall|c: u16|
        #[trigger] im.input_contexts@.contains_key(c) ==> im.input_contexts@[c].input_method_id
            == m && im.input_contexts@[c].input_context_id == c
}

impl<T> InputMethod<T> {
    pub fn new(locale: Vec<u8>) -> (r: Self)
        ensures
            r.locale == locale,
            r.input_contexts.wf(),
            r.input_contexts@ == Map::<u16, InputContext<T>>::empty(),
    {
        InputMethod { locale, input_contexts: Slab::new() }
    }

    pub fn clone_locale(&self) -> (r: Vec<u8>)
        ensures
            r@ == self.locale@,
    {
        let mut out: Vec<u8> = Vec::new();
        let mut i: usize = 0;
        while i < self.locale.len()
            invariant
                i <= self.locale@.len(),
                out@ == self.locale@.subrange(0, i as int),
            decreases self.locale@.len() - i,
        {
            out.push(self.locale[i]);
            i = i + 1;
            assert(out@ =~= self.locale@.subrange(0, i as int));
        }
        assert(out@ =~= self.locale@);
        out
    }

    /// Stores `ic` under the smallest free id, stamped with that id; hands
    /// `ic` back when every id is taken.
    pub fn new_ic(&mut self, ic: InputContext<T>) -> (r: Result<u16, InputContext<T>>)
        requires
            old(self).input_contexts.wf(),
        ensures
            final(self).input_contexts.wf(),
            final(self).locale == old(self).locale,
            match r {
                Ok(id) => {
                    &&& 1 <= id
                    &&& !old(self).input_contexts@.contains_key(id)
                    &&& forall|j: u16| 1 <= j < id ==> old(self).input_contexts@.contains_key(j)
                    &&& final(self).input_contexts@ == old(self).input_contexts@.insert(
                        id,
                        InputContext { input_context_id: id, ..ic },
                    )
                },
                Err(back) => back == ic && final(self).input_contexts@
                    == old(self).input_contexts@ && forall|j: u16|
                    1 <= j ==> old(self).input_contexts@.contains_key(j),
            },
    {
        match self.input_contexts.vacant_id() {
            Some(id) => {
                let mut ic = ic;
                ic.input_context_id = id;
                self.input_contexts.restore_item(id, ic);
                Ok(id)
            },
            None => Err(ic),
        }
    }

    pub fn remove_input_context(&mut self, ic_id: u16) -> (r: Result<
        InputContext<T>,
        ServerError,
    >)
        requires
            old(self).input_contexts.wf(),
        ensures
            final(self).input_contexts.wf(),
            final(self).locale == old(self).locale,
            final(self).input_contexts@ == old(self).input_contexts@.remove(ic_id),
            match r {
                Ok(ic) => old(self).input_contexts@.contains_key(ic_id) && ic
                    == old(self).input_contexts@[ic_id],
                Err(e) => !old(self).input_contexts@.contains_key(ic_id) && e
                    == ServerError::ClientNotExists,
            },
    {
        match self.input_contexts.remove_item(ic_id) {
            Some(ic) => Ok(ic),
            None => Err(ServerError::ClientNotExists),
        }
    }

    pub fn get_input_context(&self, ic_id: u16) -> (r: Result<&InputContext<T>, ServerError>)
        ensures
            match r {
                Ok(ic) => self.input_contexts@.contains_key(ic_id) && *ic
                    == self.input_contexts@[ic_id],
                Err(e) => !self.input_contexts@.contains_key(ic_id) && e
                    == ServerError::ClientNotExists,
            },
    {
        match self.input_contexts.get_item(ic_id) {
            Some(ic) => Ok(ic),
            None => Err(ServerError::ClientNotExists),
        }
    }
}

/// The styles of a style list, one after another.
pub open spec fn styles_bytes(styles: Seq<u32>, e: Endian) -> Seq<u8>
    decreases styles.len(),
{
    if styles.len() == 0 {
        Seq::empty()
    } else {
        styles_bytes(styles.drop_last(), e) + u32_bytes(styles.last(), e)
    }
}

/// The value of the input-style list attribute: a count, two unused bytes,
/// then each style.
pub open spec fn style_list_value(styles: Seq<u32>, e: Endian) -> Seq<u8> {
    u16_bytes(styles.len() as u16, e) + u16_bytes(0, e) + styles_bytes(styles, e)
}

/// Encodes the input-style list: see `style_list_value`.
pub fn write_style_list(styles: &Vec<u32>, e: Endian) -> (r: Vec<u8>)
    requires
        styles@.len() <= 65535,
    ensures
        r@ == style_list_value(styles@, e),
{
    let mut out: Vec<u8> = Vec::new();
    write_u16(&mut out, styles.len() as u16, e);
    write_u16(&mut out, 0, e);
    let ghost head = out@;
    assert(head =~= u16_bytes(styles@.len() as u16, e) + u16_bytes(0, e));
    let mut i: usize = 0;
    while i < styles.len()
        invariant
            i <= styles@.len(),
            out@ == head + styles_bytes(styles@.subrange(0, i as int), e),
        decreases styles@.len() - i,
    {
        write_u32(&mut out, styles[i], e);
        assert(styles@.subrange(0, i + 1).drop_last() =~= styles@.subrange(0, i as int));
        assert(out@ =~= head + styles_bytes(styles@.subrange(0, i + 1), e));
        i = i + 1;
    }
    assert(styles@.subrange(0, styles@.len() as int) =~= styles@);
    out
}

/// The reply to a query of input-method values `ids`: the style list for
/// each id `0`, or an error at the first other id.
pub open spec fn im_values_reply(m: u16, ids: Seq<u16>, styles: Seq<u32>, e: Endian, r: Request) -> bool {
        if forall|i: int| 0 <= i < ids.len() ==> #[trigger] ids[i] == 0 {
            r matches Request::GetImValuesReply { input_method_id, im_attributes } && input_method_id
                == m && im_attributes@.len() == ids.len() && forall|i: int|
                0 <= i < im_attributes@.len() ==> (#[trigger] im_attributes@[i]).id == 0
                    && im_attributes@[i].value@ == style_list_value(styles, e)
        } else {
            r matches Request::Error { input_method_id, input_context_id, flag, code, detail }
                && input_method_id == m && input_context_id == 0 && flag == (if m != 0 {
                ERROR_FLAG_IM_VALID
            } else {
                0
            }) && code == ErrorCode::BadName && detail@ == "Unknown im attribute id".spec_bytes()
        }
}

/// One destroy action per context of `ics`, the last first.
pub open spec fn destroy_actions_of<T>(ics: Seq<InputContext<T>>) -> Seq<Action<T>> {
    Seq::new(ics.len(), |i: int| Action::IcDestroyed(ics[ics.len() - 1 - i]))
}

/// A destroy action for each context of `ics`: see `destroy_actions_of`.
fn destroy_actions<T>(ics: Vec<InputContext<T>>) -> (r: Vec<Action<T>>)
    ensures
        r@ == destroy_actions_of(ics@),
{
    let ghost all = ics@;
    let mut ics = ics;
    let mut out: Vec<Action<T>> = Vec::new();
    while ics.len() > 0
        invariant
            ics@ == all.subrange(0, ics@.len() as int),
            out@ == Seq::new(out@.len(), |i: int| Action::IcDestroyed(all[all.len() - 1 - i])),
            ics@.len() + out@.len() == all.len(),
        decreases ics@.len(),
    {
        let ic = ics.pop().unwrap();
        out.push(Action::IcDestroyed(ic));
        assert(out@ =~= Seq::new(out@.len(), |i: int| Action::IcDestroyed(all[all.len() - 1 - i])));
    }
    assert(out@ =~= destroy_actions_of(all));
    out
}

/// The reply to a query of input-method values: see `im_values_reply`.
pub fn get_im_values(m: u16, ids: &Vec<u16>, styles: &Vec<u32>, e: Endian) -> (r: Request)
    requires
        styles@.len() <= 65535,
    ensures
        im_values_reply(m, ids@, styles@, e, r),
{
    let mut out: Vec<Attribute> = Vec::new();
    let mut i: usize = 0;
    while i < ids.len()
        invariant
            i <= ids@.len(),
            styles@.len() <= 65535,
            out@.len() == i,
            forall|j: int| 0 <= j < i ==> #[trigger] ids@[j] == 0,
            forall|j: int|
                0 <= j < i ==> (#[trigger] out@[j]).id == 0 && out@[j].value@ == style_list_value(styles@, e),
        decreases ids@.len() - i,
    {
        if ids[i] != 0 {
            let flag: u16 = if m != 0 { ERROR_FLAG_IM_VALID } else { 0 };
            return Request::Error {
                input_method_id: m,
                input_context_id: 0,
                flag,
                code: ErrorCode::BadName,
                detail: bytes_of("Unknown im attribute id"),
            };
        }
        out.push(Attribute { id: 0, value: write_style_list(styles, e) });
        i = i + 1;
    }
    Request::GetImValuesReply { input_method_id: m, im_attributes: out }
}

/// The ids under which a context is stored: its input method's and its own.
pub open spec fn ic_key<T>(ic: InputContext<T>) -> (u16, u16) {
    (ic.input_method_id, ic.input_context_id)
}

/// The contexts of a drained input method `m`, each once, without their ids.
fn contexts_of<T>(pairs: Vec<(u16, InputContext<T>)>, Ghost(ics): Ghost<Map<u16, InputContext<T>>>, Ghost(m): Ghost<u16>) -> (r: Vec<InputContext<T>>)
    requires
        forall|c: u16| #[trigger] ics.contains_key(c) ==> ics[c].input_method_id == m && ics[c].input_context_id == c,
        forall|i: int|
            0 <= i < pairs@.len() ==> ics.contains_key(#[trigger] pairs@[i].0) && pairs@[i].1
                == ics[pairs@[i].0],
        forall|c: u16|
            ics.contains_key(c) ==> exists|i: int| 0 <= i < pairs@.len() && #[trigger] pairs@[i].0 == c,
        forall|i: int, j: int| 0 <= i < j < pairs@.len() ==> pairs@[i].0 != pairs@[j].0,
    ensures
        forall|i: int|
            0 <= i < r@.len() ==> ics.contains_key((#[trigger] r@[i]).input_context_id) && r@[i]
                == ics[r@[i].input_context_id] && r@[i].input_method_id == m,
        forall|c: u16|
            ics.contains_key(c) ==> exists|i: int| 0 <= i < r@.len() && #[trigger] r@[i].input_context_id == c,
        forall|i: int, j: int| 0 <= i < j < r@.len() ==> r@[i].input_context_id != r@[j].input_context_id,
{
    let mut pairs = pairs;
    let ghost all = pairs@;
    let mut out: Vec<InputContext<T>> = Vec::new();
    while pairs.len() > 0
        invariant
            pairs@ == all.subrange(0, pairs@.len() as int),
            pairs@.len() + out@.len() == all.len(),
            forall|i: int|
                0 <= i < out@.len() ==> (#[trigger] out@[i]) == all[all.len() - 1 - i].1,
            forall|i: int|
                0 <= i < all.len() ==> ics.contains_key(#[trigger] all[i].0) && all[i].1 == ics[all[i].0],
            forall|c: u16| #[trigger] ics.contains_key(c) ==> ics[c].input_method_id == m && ics[c].input_context_id == c,
            forall|i: int, j: int| 0 <= i < j < all.len() ==> all[i].0 != all[j].0,
        decreases pairs@.len(),
    {
        let (_id, ic) = pairs.pop().unwrap();
        out.push(ic);
    }
    assert forall|i: int| 0 <= i < out@.len() implies ics.contains_key((#[trigger] out@[i]).input_context_id)
        && out@[i] == ics[out@[i].input_context_id] && out@[i].input_method_id == m by {
        let k = all.len() - 1 - i;
        assert(out@[i] == all[k].1);
        assert(ics.contains_key(all[k].0));
    }
    assert forall|c: u16| ics.contains_key(c) implies exists|i: int| 0 <= i < out@.len() && #[trigger] out@[i].input_context_id == c by {
        let k = choose|k: int| 0 <= k < all.len() && #[trigger] all[k].0 == c;
        let i = all.len() - 1 - k;
        assert(out@[i] == all[k].1);
    }
    assert forall|i: int, j: int| 0 <= i < j < out@.len() implies out@[i].input_context_id != out@[j].input_context_id by {
        assert(out@[i] == all[all.len() - 1 - i].1);
        assert(out@[j] == all[all.len() - 1 - j].1);
    }
    out
}

/// What the embedding program does after a request: send a reply to the
/// client, or run one of its handler's callbacks.
pub enum Action<T> {
    /// Send the request to the client window.
    Send(Request),
    /// The client has connected.
    Connected,
    /// The context was created.
    IcCreated { input_method_id: u16, input_context_id: u16 },
    /// The context is gone; the handler gets it back to release its data.
    IcDestroyed(InputContext<T>),
    /// The client has started preedit in the context.
    PreeditStart { input_method_id: u16, input_context_id: u16 },
    /// The client has moved the preedit caret.
    Caret { input_method_id: u16, input_context_id: u16, position: i32 },
    /// An event for the handler to judge; `forward_event_replies` then says
    /// what to send for its verdict.
    ForwardEvent {
        input_method_id: u16,
        input_context_id: u16,
        flag: u16,
        serial_number: u16,
        xev: Vec<u8>,
    },
}

/// The state of one client connection.
pub struct XimConnection<T> {
    pub client_win: u32,
    pub disconnected: bool,
    pub last_focused: Option<(u16, u16)>,
    pub endian: Endian,
    pub input_methods: Slab<InputMethod<T>>,
}

/// The prefix `COMPOUND_TEXT`, as bytes.
pub open spec fn compound_text() -> Seq<u8> {
    seq![67u8, 79, 77, 80, 79, 85, 78, 68, 95, 84, 69, 88, 84]
}

/// Whether the encoding name `e` starts with `COMPOUND_TEXT`.
pub open spec fn is_compound_text(e: Seq<u8>) -> bool {
    e.len() >= 13 && e.subrange(0, 13) == compound_text()
}

/// The reply to an encoding negotiation: the first `COMPOUND_TEXT` encoding,
/// or an error when there is none.
pub open spec fn negotiation_reply(im_id: u16, encodings: Seq<Vec<u8>>, r: Request) -> bool {
    if exists|i: int| 0 <= i < encodings.len() && is_compound_text(#[trigger] encodings[i]@) {
        exists|i: int|
            0 <= i < encodings.len() && is_compound_text(#[trigger] encodings[i]@) && (forall|j: int|
                0 <= j < i ==> !is_compound_text(#[trigger] encodings[j]@)) && r
                == (Request::EncodingNegotiationReply {
                input_method_id: im_id,
                category: 0,
                index: i as u16,
            })
    } else {
        (r matches Request::Error { input_method_id, input_context_id, flag, code, detail }
            && input_method_id == im_id && input_context_id == 0 && flag == ERROR_FLAG_IM_VALID
            && code == ErrorCode::BadName && detail@ == "Only COMPOUND_TEXT encoding is supported".spec_bytes())
    }
}

/// What to send once the handler has judged a forwarded event: the event
/// itself, flag cleared, unless it was consumed; then a sync reply where the
/// client asked for one.
pub open spec fn forward_replies(
    im: u16,
    ic: u16,
    serial: u16,
    flag: u16,
    xev: Seq<u8>,
    consumed: bool,
    r: Seq<Request>,
) -> bool {
    let sync = flag & FORWARD_SYNCHRONOUS != 0;
    &&& r.len() == (if consumed { 0int } else { 1int }) + (if sync { 1int } else { 0int })
    &&& !consumed ==> (r[0] matches Request::ForwardEvent {
        input_method_id,
        input_context_id,
        flag,
        serial_number,
        xev: x,
    } && input_method_id == im && input_context_id == ic && flag == 0 && serial_number == serial
        && x@ == xev)
    &&& sync ==> r.last() == (Request::SyncReply { input_method_id: im, input_context_id: ic })
}

/// A consumed event that the client sent synchronously is answered by
/// exactly one sync reply, and is not passed back.
pub proof fn lemma_consumed_sync_event(im: u16, ic: u16, serial: u16, flag: u16, xev: Seq<u8>, r: Seq<Request>)
    requires
        forward_replies(im, ic, serial, flag, xev, true, r),
        flag & FORWARD_SYNCHRONOUS != 0,
    ensures
        r.len() == 1,
        r[0] == (Request::SyncReply { input_method_id: im, input_context_id: ic }),
{
}

/// Whether `s` starts with `COMPOUND_TEXT`.
fn starts_with_compound_text(s: &Vec<u8>) -> (r: bool)
    ensures
        r == is_compound_text(s@),
{
    let pat: [u8; 13] = [67u8, 79, 77, 80, 79, 85, 78, 68, 95, 84, 69, 88, 84];
    assert(pat@ =~= compound_text());
    if s.len() < 13 {
        return false;
    }
    let mut i: usize = 0;
    while i < 13
        invariant
            i <= 13,
            s@.len() >= 13,
            pat@ == compound_text(),
            forall|j: int| 0 <= j < i ==> s@[j] == compound_text()[j],
        decreases 13 - i,
    {
        if s[i] != pat[i] {
            assert(s@.subrange(0, 13)[i as int] != compound_text()[i as int]);
            return false;
        }
        i = i + 1;
    }
    assert(s@.subrange(0, 13) =~= compound_text());
    true
}

/// The byte string of a text literal.
fn bytes_of(s: &str) -> (r: Vec<u8>)
    ensures
        r@ == s.spec_bytes(),
{
    let mut out: Vec<u8> = Vec::new();
    out.extend_from_slice(s.as_bytes());
    out
}

/// The attributes advertised for input methods.
pub open spec fn im_attr_list() -> Seq<Attr> {
    seq![Attr { id: 0, name: AttributeName::QueryInputStyle, ty: AttrType::Style }]
}

/// The attributes advertised for input methods.
pub fn im_attrs() -> (r: Vec<Attr>)
    ensures
        r@ == im_attr_list(),
{
    let r = vec![Attr { id: 0, name: AttributeName::QueryInputStyle, ty: AttrType::Style }];
    assert(r@ =~= seq![Attr { id: 0, name: AttributeName::QueryInputStyle, ty: AttrType::Style }]);
    r
}

/// The attributes advertised for input contexts, in the order of their ids.
pub open spec fn ic_attr_list() -> Seq<Attr> {
    seq![
        Attr { id: IC_INPUTSTYLE, name: AttributeName::InputStyle, ty: AttrType::Long },
        Attr { id: IC_CLIENTWIN, name: AttributeName::ClientWindow, ty: AttrType::Window },
        Attr { id: IC_FOCUSWIN, name: AttributeName::FocusWindow, ty: AttrType::Window },
        Attr { id: IC_PREEDITATTRS, name: AttributeName::PreeditAttributes, ty: AttrType::NestedList },
        Attr { id: IC_SPOTLOCATION, name: AttributeName::SpotLocation, ty: AttrType::XPoint },
        Attr {
            id: IC_NESTED_SEP,
            name: AttributeName::SeparatorofNestedList,
            ty: AttrType::Separator,
        },
    ]
}

/// The attributes advertised for input contexts, in the order of their ids.
pub fn ic_attrs() -> (r: Vec<Attr>)
    ensures
        r@ == ic_attr_list(),
{
    let r = vec![
        Attr { id: IC_INPUTSTYLE, name: AttributeName::InputStyle, ty: AttrType::Long },
        Attr { id: IC_CLIENTWIN, name: AttributeName::ClientWindow, ty: AttrType::Window },
        Attr { id: IC_FOCUSWIN, name: AttributeName::FocusWindow, ty: AttrType::Window },
        Attr { id: IC_PREEDITATTRS, name: AttributeName::PreeditAttributes, ty: AttrType::NestedList },
        Attr { id: IC_SPOTLOCATION, name: AttributeName::SpotLocation, ty: AttrType::XPoint },
        Attr {
            id: IC_NESTED_SEP,
            name: AttributeName::SeparatorofNestedList,
            ty: AttrType::Separator,
        },
    ];
    assert(r@ =~= ic_attr_list());
    r
}

/// The replies for a judged forwarded event: see `forward_replies`.
pub fn forward_event_replies(
    input_method_id: u16,
    input_context_id: u16,
    serial_number: u16,
    flag: u16,
    xev: Vec<u8>,
    consumed: bool,
) -> (r: Vec<Request>)
    ensures
        forward_replies(
            input_method_id,
            input_context_id,
            serial_number,
            flag,
            xev@,
            consumed,
            r@,
        ),
{
    let mut out: Vec<Request> = Vec::new();
    if !consumed {
        out.push(
            Request::ForwardEvent { input_method_id, input_context_id, flag: 0, serial_number, xev },
        );
    }
    if flag & FORWARD_SYNCHRONOUS != 0 {
        out.push(Request::SyncReply { input_method_id, input_context_id });
    }
    out
}

/// The reply to an encoding negotiation: see `negotiation_reply`.
pub fn encoding_negotiation(input_method_id: u16, encodings: &Vec<Vec<u8>>) -> (r: Request)
    requires
        encodings@.len() <= 65535,
    ensures
        negotiation_reply(input_method_id, encodings@, r),
{
    let mut i: usize = 0;
    while i < encodings.len()
        invariant
            i <= encodings@.len() <= 65535,
            forall|j: int| 0 <= j < i ==> !is_compound_text(#[trigger] encodings@[j]@),
        decreases encodings@.len() - i,
    {
        if starts_with_compound_text(&encodings[i]) {
            return Request::EncodingNegotiationReply { input_method_id, category: 0, index: i as u16 };
        }
        i = i + 1;
    }
    Request::Error {
        input_method_id,
        input_context_id: 0,
        flag: ERROR_FLAG_IM_VALID,
        code: ErrorCode::BadName,
        detail: bytes_of("Only COMPOUND_TEXT encoding is supported"),
    }
}

impl<T> XimConnection<T> {
    /// Whether `(m, c)` names a live input context.
    pub open spec fn has_ic(&self, m: u16, c: u16) -> bool {
        self.input_methods@.contains_key(m) && self.input_methods@[m].input_contexts@.contains_key(c)
    }

    /// Every context is stored under its own ids, and the focused context,
    /// if any, is live.
    pub open spec fn wf(&self) -> bool {
        &&& self.input_methods.wf()
        &&& forall|m: u16| #[trigger]
            self.input_methods@.contains_key(m) ==> im_wf(self.input_methods@[m], m)
        &&& self.last_focused matches Some((m, c)) ==> self.has_ic(m, c)
    }

    pub fn new(client_win: u32) -> (r: Self)
        ensures
            r.wf(),
            r.client_win == client_win,
            !r.disconnected,
            r.last_focused is None,
            r.endian == Endian::Little,
            r.input_methods@ == Map::<u16, InputMethod<T>>::empty(),
    {
        XimConnection {
            client_win,
            disconnected: false,
            last_focused: None,
            endian: Endian::Little,
            input_methods: Slab::new(),
        }
    }

    /// The context `(m, c)`, or `ClientNotExists`.
    pub fn get_input_context(&self, m: u16, c: u16) -> (r: Result<&InputContext<T>, ServerError>)
        ensures
            match r {
                Ok(ic) => self.has_ic(m, c) && *ic == self.input_methods@[m].input_contexts@[c],
                Err(e) => !self.has_ic(m, c) && e == ServerError::ClientNotExists,
            },
    {
        match self.input_methods.get_item(m) {
            Some(im) => im.get_input_context(c),
            None => Err(ServerError::ClientNotExists),
        }
    }

    /// `self` after the attributes `attrs` were set on `(m, c)` of `old`, with the answer `r`.
    pub open spec fn values_set(&self, old: &Self, m: u16, c: u16, attrs: Seq<Attribute>, r: Result<Request, ServerError>) -> bool {
            match r {
                Ok(req) => {
                    &&& old.has_ic(m, c)
                    &&& req == (Request::SetIcValuesReply {
                        input_method_id: m,
                        input_context_id: c,
                    })
                    &&& self.same_but_ic(old, m, c)
                    &&& self.input_methods@[m].input_contexts@[c].attrs() == apply_attrs(
                        old.input_methods@[m].input_contexts@[c].attrs(),
                        attrs,
                        old.endian,
                    )
                },
                Err(e) => !old.has_ic(m, c) && e == ServerError::ClientNotExists
                    && self.same_as(old),
            }
    }

    /// `self` after an input method with `locale` was opened in `old`, under the id `r`.
    pub open spec fn opened(&self, old: &Self, locale: Vec<u8>, r: Option<u16>) -> bool {
            match r {
                Some(id) => {
                    &&& 1 <= id
                    &&& !old.input_methods@.contains_key(id)
                    &&& forall|j: u16| 1 <= j < id ==> old.input_methods@.contains_key(j)
                    &&& self.input_methods@.dom() == old.input_methods@.dom().insert(id)
                    &&& forall|m2: u16|
                        #[trigger] old.input_methods@.contains_key(m2) ==> self.input_methods@[m2] == old.input_methods@[m2]
                    &&& self.input_methods@[id].locale == locale
                    &&& self.input_methods@[id].input_contexts@ == Map::<
                        u16,
                        InputContext<T>,
                    >::empty()
                    &&& self.client_win == old.client_win
                    &&& self.disconnected == old.disconnected
                    &&& self.last_focused == old.last_focused
                    &&& self.endian == old.endian
                },
                None => self.same_as(old) && forall|j: u16|
                    1 <= j ==> old.input_methods@.contains_key(j),
            }
    }

    /// `self` after a context was made in `m` of `old` from `attrs`, holding `data`, under the id `r`.
    pub open spec fn ic_created(&self, old: &Self, m: u16, attrs: Seq<Attribute>, data: T, r: Result<Option<u16>, ServerError>) -> bool {
            match r {
                Ok(Some(id)) => {
                    &&& old.input_methods@.contains_key(m)
                    &&& 1 <= id
                    &&& !old.has_ic(m, id)
                    &&& forall|j: u16| 1 <= j < id ==> old.has_ic(m, j)
                    &&& self.same_but_im(old, m)
                    &&& self.last_focused == old.last_focused
                    &&& self.input_methods@[m].input_contexts@.dom() == old.input_methods@[m].input_contexts@.dom().insert(id)
                    &&& forall|c: u16|
                        #[trigger] old.input_methods@[m].input_contexts@.contains_key(c)
                            ==> self.input_methods@[m].input_contexts@[c] == old.input_methods@[m].input_contexts@[c]
                    &&& self.input_methods@[m].input_contexts@[id].input_context_id == id
                    &&& self.input_methods@[m].input_contexts@[id].input_method_id == m
                    &&& self.input_methods@[m].input_contexts@[id].client_win
                        == old.client_win
                    &&& self.input_methods@[m].input_contexts@[id].locale@ == old.input_methods@[m].locale@
                    &&& self.input_methods@[m].input_contexts@[id].user_data == data
                    &&& self.input_methods@[m].input_contexts@[id].attrs() == apply_attrs(
                        (0u32, None::<u32>, None::<u32>, Point { x: 0, y: 0 }),
                        attrs,
                        old.endian,
                    )
                },
                Ok(None) => {
                    &&& old.input_methods@.contains_key(m)
                    &&& forall|j: u16| 1 <= j ==> old.has_ic(m, j)
                    &&& self.same_as(old)
                },
                Err(e) => !old.input_methods@.contains_key(m) && e
                    == ServerError::ClientNotExists && self.same_as(old),
            }
    }

    /// `self` after the context `(m, c)` of `old` was taken out as `r`.
    pub open spec fn ic_destroyed(&self, old: &Self, m: u16, c: u16, r: Result<InputContext<T>, ServerError>) -> bool {
            match r {
                Ok(ic) => {
                    &&& old.has_ic(m, c)
                    &&& ic == old.input_methods@[m].input_contexts@[c]
                    &&& self.same_but_im(old, m)
                    &&& self.input_methods@[m].input_contexts@ == old.input_methods@[m].input_contexts@.remove(c)
                    &&& self.last_focused == if old.last_focused == Some((m, c)) {
                        None
                    } else {
                        old.last_focused
                    }
                },
                Err(e) => !old.has_ic(m, c) && e == ServerError::ClientNotExists
                    && self.same_as(old),
            }
    }

    /// `self` after the input method `m` of `old` was closed, its contexts handed back as `r`.
    pub open spec fn im_closed(&self, old: &Self, m: u16, r: Result<Seq<InputContext<T>>, ServerError>) -> bool {
            match r {
                Ok(ics) => {
                    &&& old.input_methods@.contains_key(m)
                    &&& self.input_methods@ == old.input_methods@.remove(m)
                    &&& self.client_win == old.client_win
                    &&& self.disconnected == old.disconnected
                    &&& self.endian == old.endian
                    &&& self.last_focused == match old.last_focused {
                        Some((fm, fc)) => if fm == m { None } else { old.last_focused },
                        None => None,
                    }
                    &&& forall|i: int| 0 <= i < ics.len() ==> old.has_ic(m, (#[trigger] ics[i]).input_context_id)
                        && ics[i] == old.input_methods@[m].input_contexts@[ics[i].input_context_id]
                    &&& forall|c: u16| old.has_ic(m, c) ==> exists|i: int| 0 <= i < ics.len() && #[trigger] ics[i].input_context_id == c
                    &&& forall|i: int, j: int| 0 <= i < j < ics.len() ==> ics[i].input_context_id != ics[j].input_context_id
                },
                Err(e) => !old.input_methods@.contains_key(m) && e
                    == ServerError::ClientNotExists && self.same_as(old),
            }
    }

    /// `self` after `old` was disconnected: nothing is left, and `r` holds
    /// each context that was live, once.
    pub open spec fn disconnected_from(&self, old: &Self, r: Seq<InputContext<T>>) -> bool {
        &&& self.disconnected
        &&& self.last_focused is None
        &&& self.input_methods@ == Map::<u16, InputMethod<T>>::empty()
        &&& self.client_win == old.client_win
        &&& self.endian == old.endian
        &&& forall|i: int|
            0 <= i < r.len() ==> old.has_ic(ic_key(#[trigger] r[i]).0, ic_key(r[i]).1)
                && r[i] == old.input_methods@[ic_key(r[i]).0].input_contexts@[ic_key(r[i]).1]
        &&& forall|m: u16, c: u16|
            old.has_ic(m, c) ==> exists|i: int| 0 <= i < r.len() && #[trigger] ic_key(r[i]) == (m, c)
        &&& forall|i: int, j: int| 0 <= i < j < r.len() ==> ic_key(r[i]) != ic_key(r[j])
    }

    /// `self` holds what `old` holds.
    pub open spec fn same_as(&self, old: &Self) -> bool {
        &&& self.client_win == old.client_win
        &&& self.disconnected == old.disconnected
        &&& self.last_focused == old.last_focused
        &&& self.endian == old.endian
        &&& self.input_methods@ == old.input_methods@
    }

    /// `self` is `old` but for the context `(m, c)`, whose other fields stay.
    pub open spec fn same_but_ic(&self, old: &Self, m: u16, c: u16) -> bool {
        &&& self.client_win == old.client_win
        &&& self.disconnected == old.disconnected
        &&& self.last_focused == old.last_focused
        &&& self.endian == old.endian
        &&& self.input_methods@.dom() == old.input_methods@.dom()
        &&& forall|m2: u16|
            #[trigger] self.input_methods@.contains_key(m2) && m2 != m ==> self.input_methods@[m2]
                == old.input_methods@[m2]
        &&& self.input_methods@[m].locale == old.input_methods@[m].locale
        &&& self.input_methods@[m].input_contexts@.dom() == old.input_methods@[m].input_contexts@.dom()
        &&& forall|c2: u16|
            #[trigger] self.input_methods@[m].input_contexts@.contains_key(c2) && c2 != c
                ==> self.input_methods@[m].input_contexts@[c2]
                == old.input_methods@[m].input_contexts@[c2]
        &&& self.input_methods@[m].input_contexts@[c].client_win == old.input_methods@[m].input_contexts@[c].client_win
        &&& self.input_methods@[m].input_contexts@[c].input_method_id == old.input_methods@[m].input_contexts@[c].input_method_id
        &&& self.input_methods@[m].input_contexts@[c].input_context_id == old.input_methods@[m].input_contexts@[c].input_context_id
        &&& self.input_methods@[m].input_contexts@[c].locale == old.input_methods@[m].input_contexts@[c].locale
        &&& self.input_methods@[m].input_contexts@[c].user_data == old.input_methods@[m].input_contexts@[c].user_data
    }

    /// Applies `attrs` to the context `(m, c)` and answers with a reply.
    pub fn set_ic_values(&mut self, m: u16, c: u16, attrs: &Vec<crate::wire::Attribute>) -> (r: Result<
        Request,
        ServerError,
    >)
        requires
            old(self).wf(),
        ensures
            final(self).wf(),
            final(self).values_set(old(self), m, c, attrs@, r),
    {
        if self.get_input_context(m, c).is_err() {
            return Err(ServerError::ClientNotExists);
        }
        let mut im = match self.input_methods.remove_item(m) {
            Some(im) => im,
            None => return Err(ServerError::ClientNotExists),
        };
        assert(im_wf(im, m));
        proof {
            crate::slab::lemma_live_ids_positive(&old(self).input_methods, m);
        }
        let mut ic = match im.input_contexts.remove_item(c) {
            Some(ic) => ic,
            None => return Err(ServerError::ClientNotExists),
        };
        proof {
            crate::slab::lemma_live_ids_positive(&old(self).input_methods@[m].input_contexts, c);
        }
        set_ic_attrs(&mut ic, attrs, self.endian);
        im.input_contexts.restore_item(c, ic);
        self.input_methods.restore_item(m, im);
        proof {
            assert(self.input_methods@.dom() =~= old(self).input_methods@.dom());
            assert(self.input_methods@[m].input_contexts@.dom() =~= old(self).input_methods@[m].input_contexts@.dom());
            assert(im_wf(self.input_methods@[m], m));
        }
        Ok(Request::SetIcValuesReply { input_method_id: m, input_context_id: c })
    }

    /// Focuses the context `(m, c)`.
    pub fn set_ic_focus(&mut self, m: u16, c: u16) -> (r: Result<(), ServerError>)
        requires
            old(self).wf(),
        ensures
            final(self).wf(),
            match r {
                Ok(_) => old(self).has_ic(m, c) && *final(self) == (XimConnection::<T> {
                    last_focused: Some((m, c)),
                    ..*old(self)
                }),
                Err(e) => !old(self).has_ic(m, c) && e == ServerError::ClientNotExists
                    && *final(self) == *old(self),
            },
    {
        let found = match self.get_input_context(m, c) {
            Ok(ic) => (ic.input_method_id, ic.input_context_id),
            Err(e) => return Err(e),
        };
        self.last_focused = Some(found);
        Ok(())
    }

    /// Clears the focus, given a live context `(m, c)`.
    pub fn unset_ic_focus(&mut self, m: u16, c: u16) -> (r: Result<(), ServerError>)
        requires
            old(self).wf(),
        ensures
            final(self).wf(),
            match r {
                Ok(_) => old(self).has_ic(m, c) && *final(self) == (XimConnection::<T> {
                    last_focused: None,
                    ..*old(self)
                }),
                Err(e) => !old(self).has_ic(m, c) && e == ServerError::ClientNotExists
                    && *final(self) == *old(self),
            },
    {
        match self.get_input_context(m, c) {
            Ok(_) => {},
            Err(e) => return Err(e),
        }
        self.last_focused = None;
        Ok(())
    }

    /// `self` is `old` but for the contexts of the input method `m`.
    pub open spec fn same_but_im(&self, old: &Self, m: u16) -> bool {
        &&& self.client_win == old.client_win
        &&& self.disconnected == old.disconnected
        &&& self.endian == old.endian
        &&& self.input_methods@.dom() == old.input_methods@.dom()
        &&& forall|m2: u16|
            #[trigger] self.input_methods@.contains_key(m2) && m2 != m ==> self.input_methods@[m2]
                == old.input_methods@[m2]
        &&& self.input_methods@[m].locale == old.input_methods@[m].locale
    }

    /// Opens an input method under the smallest free id; `None` when every
    /// id is taken, and then nothing changes.
    pub fn open(&mut self, locale: Vec<u8>) -> (r: Option<u16>)
        requires
            old(self).wf(),
        ensures
            final(self).wf(),
            final(self).opened(old(self), locale, r),
    {
        let im = InputMethod::new(locale);
        match self.input_methods.new_item(im) {
            Ok(id) => {
                assert(self.input_methods@.dom() =~= old(self).input_methods@.dom().insert(id));
                Some(id)
            },
            Err(_) => None,
        }
    }

    /// Creates a context in the input method `m` from `attrs`, holding
    /// `data`, under the smallest free id. `Ok(None)` when every id is taken,
    /// and then nothing changes.
    pub fn create_ic(&mut self, m: u16, attrs: &Vec<crate::wire::Attribute>, data: T) -> (r: Result<
        Option<u16>,
        ServerError,
    >)
        requires
            old(self).wf(),
        ensures
            final(self).wf(),
            final(self).ic_created(old(self), m, attrs@, data, r),
    {
        if !self.input_methods.is_live(m) {
            return Err(ServerError::ClientNotExists);
        }
        let mut im = match self.input_methods.remove_item(m) {
            Some(im) => im,
            None => return Err(ServerError::ClientNotExists),
        };
        proof {
            crate::slab::lemma_live_ids_positive(&old(self).input_methods, m);
        }
        assert(im_wf(im, m));
        match im.input_contexts.vacant_id() {
            None => {
                self.input_methods.restore_item(m, im);
                assert(self.input_methods@ =~= old(self).input_methods@);
                Ok(None)
            },
            Some(id) => {
                let locale = im.clone_locale();
                let mut ic = InputContext::new(self.client_win, m, id, locale, data);
                set_ic_attrs(&mut ic, attrs, self.endian);
                im.input_contexts.restore_item(id, ic);
                self.input_methods.restore_item(m, im);
                proof {
                    assert(self.input_methods@.dom() =~= old(self).input_methods@.dom());
                    assert(self.input_methods@[m].input_contexts@.dom() =~= old(self).input_methods@[m].input_contexts@.dom().insert(id));
                    assert(im_wf(self.input_methods@[m], m));
                }
                Ok(Some(id))
            },
        }
    }

    /// Removes the context `(m, c)` and hands it back; the focus is cleared
    /// if it was on that context.
    pub fn destroy_ic(&mut self, m: u16, c: u16) -> (r: Result<InputContext<T>, ServerError>)
        requires
            old(self).wf(),
        ensures
            final(self).wf(),
            final(self).ic_destroyed(old(self), m, c, r),
    {
        if self.get_input_context(m, c).is_err() {
            return Err(ServerError::ClientNotExists);
        }
        let mut im = match self.input_methods.remove_item(m) {
            Some(im) => im,
            None => return Err(ServerError::ClientNotExists),
        };
        proof {
            crate::slab::lemma_live_ids_positive(&old(self).input_methods, m);
        }
        assert(im_wf(im, m));
        let ic = match im.input_contexts.remove_item(c) {
            Some(ic) => ic,
            None => return Err(ServerError::ClientNotExists),
        };
        self.input_methods.restore_item(m, im);
        if self.last_focused == Some((m, c)) {
            self.last_focused = None;
        }
        proof {
            assert(self.input_methods@.dom() =~= old(self).input_methods@.dom());
            assert(im_wf(self.input_methods@[m], m));
        }
        Ok(ic)
    }

    /// Closes the input method `m` and hands back each of its contexts once;
    /// the focus is cleared if it was in `m`.
    pub fn close(&mut self, m: u16) -> (r: Result<Vec<InputContext<T>>, ServerError>)
        requires
            old(self).wf(),
        ensures
            final(self).wf(),
            final(self).im_closed(old(self), m, match r { Ok(v) => Ok(v@), Err(e) => Err(e) }),
    {
        let mut im = match self.input_methods.remove_item(m) {
            Some(im) => im,
            None => {
                assert(self.input_methods@ =~= old(self).input_methods@);
                return Err(ServerError::ClientNotExists);
            },
        };
        assert(im_wf(im, m));
        let ghost ics = im.input_contexts@;
        let pairs = im.input_contexts.drain();
        let out = contexts_of(pairs, Ghost(ics), Ghost(m));
        match self.last_focused {
            Some((fm, _)) => {
                if fm == m {
                    self.last_focused = None;
                }
            },
            None => {},
        }
        Ok(out)
    }

    /// Closes every input method, hands back each live context once, and
    /// marks the connection as disconnected.
    pub fn disconnect(&mut self) -> (r: Vec<InputContext<T>>)
        requires
            old(self).wf(),
        ensures
            final(self).wf(),
            final(self).disconnected_from(old(self), r@),
    {
        let mut rem = self.input_methods.drain();
        let mut out: Vec<InputContext<T>> = Vec::new();
        let ghost o = old(self).input_methods@;
        while rem.len() > 0
            invariant
                forall|m: u16| #[trigger] o.contains_key(m) ==> im_wf(o[m], m),
                forall|k: int| 0 <= k < rem@.len() ==> o.contains_key(#[trigger] rem@[k].0) && rem@[k].1 == o[rem@[k].0],
                forall|k: int, l: int| 0 <= k < l < rem@.len() ==> rem@[k].0 != rem@[l].0,
                forall|i: int|
                    0 <= i < out@.len() ==> old(self).has_ic(ic_key(#[trigger] out@[i]).0, ic_key(out@[i]).1)
                        && out@[i] == o[ic_key(out@[i]).0].input_contexts@[ic_key(out@[i]).1]
                        && forall|k: int| 0 <= k < rem@.len() ==> rem@[k].0 != ic_key(out@[i]).0,
                forall|m: u16, c: u16|
                    old(self).has_ic(m, c) ==> (exists|k: int| 0 <= k < rem@.len() && #[trigger] rem@[k].0 == m)
                        || exists|i: int| 0 <= i < out@.len() && #[trigger] ic_key(out@[i]) == (m, c),
                forall|i: int, j: int| 0 <= i < j < out@.len() ==> ic_key(out@[i]) != ic_key(out@[j]),
                o == old(self).input_methods@,
            decreases rem@.len(),
        {
            let ghost rem0 = rem@;
            let ghost out0 = out@;
            let (m, mut im) = rem.pop().unwrap();
            assert(rem0[rem0.len() - 1] == (m, im));
            assert(im_wf(im, m));
            let ghost ics = im.input_contexts@;
            let pairs = im.input_contexts.drain();
            let mut list = contexts_of(pairs, Ghost(ics), Ghost(m));
            let ghost l = list@;
            out.append(&mut list);
            proof {
                assert(out@ == out0 + l);
                assert forall|i: int|
                    0 <= i < out@.len() implies old(self).has_ic(ic_key(#[trigger] out@[i]).0, ic_key(out@[i]).1)
                        && out@[i] == o[ic_key(out@[i]).0].input_contexts@[ic_key(out@[i]).1]
                        && forall|k: int| 0 <= k < rem@.len() ==> rem@[k].0 != ic_key(out@[i]).0 by {
                    if i < out0.len() {
                        assert(out@[i] == out0[i]);
                        assert forall|k: int| 0 <= k < rem@.len() implies rem@[k].0 != ic_key(out@[i]).0 by {
                            assert(rem@[k] == rem0[k]);
                        }
                    } else {
                        assert(out@[i] == l[i - out0.len()]);
                        assert forall|k: int| 0 <= k < rem@.len() implies rem@[k].0 != ic_key(out@[i]).0 by {
                            assert(rem@[k] == rem0[k]);
                        }
                    }
                }
                assert forall|mm: u16, c: u16|
                    old(self).has_ic(mm, c) implies (exists|k: int| 0 <= k < rem@.len() && #[trigger] rem@[k].0 == mm)
                        || exists|i: int| 0 <= i < out@.len() && #[trigger] ic_key(out@[i]) == (mm, c) by {
                    if exists|i: int| 0 <= i < out0.len() && #[trigger] ic_key(out0[i]) == (mm, c) {
                        let i = choose|i: int| 0 <= i < out0.len() && #[trigger] ic_key(out0[i]) == (mm, c);
                        assert(out@[i] == out0[i]);
                    } else {
                        let k = choose|k: int| 0 <= k < rem0.len() && #[trigger] rem0[k].0 == mm;
                        if k == rem0.len() - 1 {
                            assert(ics.contains_key(c));
                            let j = choose|j: int| 0 <= j < l.len() && #[trigger] l[j].input_context_id == c;
                            assert(out@[out0.len() + j] == l[j]);
                            assert(ic_key(out@[out0.len() + j]) == (mm, c));
                        } else {
                            assert(rem@[k] == rem0[k]);
                        }
                    }
                }
                assert forall|i: int, j: int| 0 <= i < j < out@.len() implies ic_key(out@[i]) != ic_key(out@[j]) by {
                    if j < out0.len() {
                        assert(out@[i] == out0[i]);
                        assert(out@[j] == out0[j]);
                    } else if i < out0.len() {
                        assert(out@[i] == out0[i]);
                        assert(out@[j] == l[j - out0.len()]);
                        assert(rem0[rem0.len() - 1].0 != ic_key(out0[i]).0);
                    } else {
                        assert(out@[i] == l[i - out0.len()]);
                        assert(out@[j] == l[j - out0.len()]);
                    }
                }
            }
        }
        self.last_focused = None;
        self.disconnected = true;
        out
    }

    /// The byte order that a connecting client names: `l` for little endian,
    /// anything else for big endian.
    pub open spec fn endian_of(b: u8) -> Endian {
        if b == 0x6c { Endian::Little } else { Endian::Big }
    }

    /// Whether a lookup in `req` names an input method or context that
    /// `self` does not hold.
    pub open spec fn lookup_fails(&self, req: Request) -> bool {
        match req {
            Request::CreateIc { input_method_id, .. } => !self.input_methods@.contains_key(input_method_id),
            Request::Close { input_method_id } => !self.input_methods@.contains_key(input_method_id),
            Request::DestroyIc { input_method_id, input_context_id } => !self.has_ic(input_method_id, input_context_id),
            Request::SetIcValues { input_method_id, input_context_id, .. } => !self.has_ic(input_method_id, input_context_id),
            Request::SetIcFocus { input_method_id, input_context_id } => !self.has_ic(input_method_id, input_context_id),
            Request::UnsetIcFocus { input_method_id, input_context_id } => !self.has_ic(input_method_id, input_context_id),
            Request::PreeditStartReply { input_method_id, input_context_id, .. } => !self.has_ic(input_method_id, input_context_id),
            Request::PreeditCaretReply { input_method_id, input_context_id, .. } => !self.has_ic(input_method_id, input_context_id),
            Request::ForwardEvent { input_method_id, input_context_id, .. } => !self.has_ic(input_method_id, input_context_id),
            _ => false,
        }
    }

    /// `self` after `old` handled `req`, with the actions or error `r`.
    /// A request that names a missing input method or context fails with
    /// `ClientNotExists` and changes nothing; every other request succeeds.
    pub open spec fn handled(
        &self,
        old: &Self,
        req: Request,
        ic_data: Option<T>,
        styles: Seq<u32>,
        r: Result<Seq<Action<T>>, ServerError>,
    ) -> bool {
        match r {
            Err(e) => e == ServerError::ClientNotExists && old.lookup_fails(req) && self.same_as(old),
            Ok(acts) => !old.lookup_fails(req) && match req {
                Request::Connect { endian, .. } => acts == seq![
                    Action::<T>::Send(Request::ConnectReply {
                        server_major_protocol_version: 1,
                        server_minor_protocol_version: 0,
                    }),
                    Action::<T>::Connected,
                ] && *self == (XimConnection::<T> { endian: Self::endian_of(endian), ..*old }),
                Request::Disconnect {} => exists|ics: Seq<InputContext<T>>|
                    self.disconnected_from(old, ics) && acts == destroy_actions_of(ics).push(
                        Action::Send(Request::DisconnectReply {}),
                    ),
                Request::Open { locale } => acts.len() == 1 && match acts[0] {
                    Action::Send(Request::OpenReply { input_method_id, im_attrs, ic_attrs }) => im_attrs@
                        == im_attr_list() && ic_attrs@ == ic_attr_list() && self.opened(
                        old,
                        locale,
                        Some(input_method_id),
                    ),
                    Action::Send(Request::Error { code, .. }) => code == ErrorCode::BadAlloc
                        && self.opened(old, locale, None),
                    _ => false,
                },
                Request::CreateIc { input_method_id, ic_attributes } => (exists|id: u16|
                    acts == seq![
                        Action::<T>::Send(Request::CreateIcReply { input_method_id, input_context_id: id }),
                        Action::<T>::IcCreated { input_method_id, input_context_id: id },
                    ] && self.ic_created(old, input_method_id, ic_attributes@, ic_data->Some_0, Ok(Some(id))))
                    || (acts.len() == 1 && (acts[0] matches Action::Send(Request::Error { code, .. })
                    && code == ErrorCode::BadAlloc) && self.ic_created(
                    old,
                    input_method_id,
                    ic_attributes@,
                    ic_data->Some_0,
                    Ok(None),
                )),
                Request::DestroyIc { input_method_id, input_context_id } => exists|ic: InputContext<T>|
                    self.ic_destroyed(old, input_method_id, input_context_id, Ok(ic)) && acts == seq![
                        Action::IcDestroyed(ic),
                        Action::Send(Request::DestroyIcReply { input_method_id, input_context_id }),
                    ],
                Request::Close { input_method_id } => exists|ics: Seq<InputContext<T>>|
                    self.im_closed(old, input_method_id, Ok(ics)) && acts == destroy_actions_of(
                        ics,
                    ).push(Action::Send(Request::CloseReply { input_method_id })),
                Request::QueryExtension { input_method_id, .. } => acts.len() == 1 && (acts[0] matches Action::Send(
                    Request::QueryExtensionReply { input_method_id: m, extensions },
                ) && m == input_method_id && extensions@.len() == 0) && self.same_as(old),
                Request::EncodingNegotiation { input_method_id, encodings, .. } => acts.len() == 1
                    && (acts[0] matches Action::Send(x) && negotiation_reply(input_method_id, encodings@, x))
                    && self.same_as(old),
                Request::GetImValues { input_method_id, im_attributes } => acts.len() == 1
                    && (acts[0] matches Action::Send(x) && im_values_reply(
                    input_method_id,
                    im_attributes@,
                    styles,
                    old.endian,
                    x,
                )) && self.same_as(old),
                Request::SetIcValues { input_method_id, input_context_id, ic_attributes } => self.values_set(
                    old,
                    input_method_id,
                    input_context_id,
                    ic_attributes@,
                    Ok(Request::SetIcValuesReply { input_method_id, input_context_id }),
                ) && acts == seq![
                    Action::<T>::Send(Request::SetIcValuesReply { input_method_id, input_context_id }),
                ],
                Request::SetIcFocus { input_method_id, input_context_id } => acts.len() == 0 && *self
                    == (XimConnection::<T> {
                    last_focused: Some((input_method_id, input_context_id)),
                    ..*old
                }),
                Request::UnsetIcFocus { .. } => acts.len() == 0 && *self == (XimConnection::<T> {
                    last_focused: None,
                    ..*old
                }),
                Request::PreeditStartReply { input_method_id, input_context_id, .. } => acts == seq![
                    Action::<T>::PreeditStart { input_method_id, input_context_id },
                ] && self.same_as(old),
                Request::PreeditCaretReply { input_method_id, input_context_id, position } => acts == seq![
                    Action::<T>::Caret { input_method_id, input_context_id, position },
                ] && self.same_as(old),
                Request::ForwardEvent { input_method_id, input_context_id, flag, serial_number, xev } => acts
                    == seq![
                    Action::<T>::ForwardEvent {
                        input_method_id,
                        input_context_id,
                        flag,
                        serial_number,
                        xev,
                    },
                ] && self.same_as(old),
                _ => acts.len() == 0 && self.same_as(old),
            },
        }
    }

    /// Handles one request of the client: updates the state and says what to
    /// send and which callbacks to run, in order. `ic_data` is the data of
    /// the context that a `CreateIc` makes; `input_styles` the styles that
    /// the handler offers.
    pub fn handle_request(&mut self, req: Request, ic_data: Option<T>, input_styles: &Vec<u32>) -> (r: Result<
        Vec<Action<T>>,
        ServerError,
    >)
        requires
            old(self).wf(),
            input_styles@.len() <= 65535,
            req is CreateIc ==> ic_data is Some,
            req matches Request::EncodingNegotiation { encodings, .. } ==> encodings@.len() <= 65535,
        ensures
            final(self).wf(),
            final(self).handled(old(self), req, ic_data, input_styles@, match r {
                Ok(v) => Ok(v@),
                Err(e) => Err(e),
            }),
    {
        match req {
            Request::Connect { endian, .. } => {
                self.endian = if endian == 0x6c { Endian::Little } else { Endian::Big };
                Ok(vec![
                    Action::Send(Request::ConnectReply {
                        server_major_protocol_version: 1,
                        server_minor_protocol_version: 0,
                    }),
                    Action::Connected,
                ])
            },
            Request::Disconnect {} => {
                let ics = self.disconnect();
                let ghost gone = ics@;
                let mut out = destroy_actions(ics);
                out.push(Action::Send(Request::DisconnectReply {}));
                assert(self.disconnected_from(old(self), gone));
                Ok(out)
            },
            Request::Open { locale } => {
                match self.open(locale) {
                    Some(id) => Ok(vec![
                        Action::Send(Request::OpenReply {
                            input_method_id: id,
                            im_attrs: im_attrs(),
                            ic_attrs: ic_attrs(),
                        }),
                    ]),
                    None => Ok(vec![
                        Action::Send(Request::Error {
                            input_method_id: 0,
                            input_context_id: 0,
                            flag: 0,
                            code: ErrorCode::BadAlloc,
                            detail: bytes_of("Too many input methods"),
                        }),
                    ]),
                }
            },
            Request::CreateIc { input_method_id, ic_attributes } => {
                let data = ic_data.unwrap();
                match self.create_ic(input_method_id, &ic_attributes, data) {
                    Ok(Some(id)) => Ok(vec![
                        Action::Send(Request::CreateIcReply { input_method_id, input_context_id: id }),
                        Action::IcCreated { input_method_id, input_context_id: id },
                    ]),
                    Ok(None) => Ok(vec![
                        Action::Send(Request::Error {
                            input_method_id,
                            input_context_id: 0,
                            flag: ERROR_FLAG_IM_VALID,
                            code: ErrorCode::BadAlloc,
                            detail: bytes_of("Too many input contexts"),
                        }),
                    ]),
                    Err(e) => Err(e),
                }
            },
            Request::DestroyIc { input_method_id, input_context_id } => {
                let ic = match self.destroy_ic(input_method_id, input_context_id) {
                    Ok(ic) => ic,
                    Err(e) => return Err(e),
                };
                assert(self.ic_destroyed(old(self), input_method_id, input_context_id, Ok(ic)));
                Ok(vec![
                    Action::IcDestroyed(ic),
                    Action::Send(Request::DestroyIcReply { input_method_id, input_context_id }),
                ])
            },
            Request::Close { input_method_id } => {
                let ics = match self.close(input_method_id) {
                    Ok(ics) => ics,
                    Err(e) => return Err(e),
                };
                let ghost gone = ics@;
                let mut out = destroy_actions(ics);
                out.push(Action::Send(Request::CloseReply { input_method_id }));
                assert(self.im_closed(old(self), input_method_id, Ok(gone)));
                Ok(out)
            },
            Request::QueryExtension { input_method_id, .. } => {
                Ok(vec![
                    Action::Send(Request::QueryExtensionReply { input_method_id, extensions: Vec::new() }),
                ])
            },
            Request::EncodingNegotiation { input_method_id, encodings, .. } => {
                Ok(vec![Action::Send(encoding_negotiation(input_method_id, &encodings))])
            },
            Request::GetImValues { input_method_id, im_attributes } => {
                Ok(vec![
                    Action::Send(get_im_values(input_method_id, &im_attributes, input_styles, self.endian)),
                ])
            },
            Request::SetIcValues { input_method_id, input_context_id, ic_attributes } => {
                let reply = match self.set_ic_values(input_method_id, input_context_id, &ic_attributes) {
                    Ok(reply) => reply,
                    Err(e) => return Err(e),
                };
                let mut out: Vec<Action<T>> = Vec::new();
                out.push(Action::Send(reply));
                assert(out@ =~= seq![
                    Action::<T>::Send(Request::SetIcValuesReply { input_method_id, input_context_id }),
                ]);
                Ok(out)
            },
            Request::SetIcFocus { input_method_id, input_context_id } => {
                match self.set_ic_focus(input_method_id, input_context_id) {
                    Ok(()) => {},
                    Err(e) => return Err(e),
                }
                Ok(Vec::new())
            },
            Request::UnsetIcFocus { input_method_id, input_context_id } => {
                match self.unset_ic_focus(input_method_id, input_context_id) {
                    Ok(()) => {},
                    Err(e) => return Err(e),
                }
                Ok(Vec::new())
            },
            Request::PreeditStartReply { input_method_id, input_context_id, .. } => {
                if self.get_input_context(input_method_id, input_context_id).is_err() {
                    return Err(ServerError::ClientNotExists);
                }
                let mut out: Vec<Action<T>> = Vec::new();
                out.push(Action::PreeditStart { input_method_id, input_context_id });
                assert(out@ =~= seq![Action::<T>::PreeditStart { input_method_id, input_context_id }]);
                Ok(out)
            },
            Request::PreeditCaretReply { input_method_id, input_context_id, position } => {
                if self.get_input_context(input_method_id, input_context_id).is_err() {
                    return Err(ServerError::ClientNotExists);
                }
                let mut out: Vec<Action<T>> = Vec::new();
                out.push(Action::Caret { input_method_id, input_context_id, position });
                assert(out@ =~= seq![Action::<T>::Caret { input_method_id, input_context_id, position }]);
                Ok(out)
            },
            Request::ForwardEvent { input_method_id, input_context_id, flag, serial_number, xev } => {
                if self.get_input_context(input_method_id, input_context_id).is_err() {
                    return Err(ServerError::ClientNotExists);
                }
                let mut out: Vec<Action<T>> = Vec::new();
                out.push(Action::ForwardEvent { input_method_id, input_context_id, flag, serial_number, xev });
                assert(out@ =~= seq![
                    Action::<T>::ForwardEvent { input_method_id, input_context_id, flag, serial_number, xev },
                ]);
                Ok(out)
            },
            _ => Ok(Vec::new()),
        }
    }

    /// Puts `data` into the context `(m, c)` and hands back what it held;
    /// nothing else changes.
    pub fn replace_user_data(&mut self, m: u16, c: u16, data: T) -> (r: Result<T, ServerError>)
        requires
            old(self).wf(),
        ensures
            final(self).wf(),
            match r {
                Ok(prev) => {
                    &&& old(self).has_ic(m, c)
                    &&& prev == old(self).input_methods@[m].input_contexts@[c].user_data
                    &&& final(self).input_methods@.dom() == old(self).input_methods@.dom()
                    &&& final(self).client_win == old(self).client_win
                    &&& final(self).disconnected == old(self).disconnected
                    &&& final(self).last_focused == old(self).last_focused
                    &&& final(self).endian == old(self).endian
                    &&& forall|m2: u16|
                        #[trigger] final(self).input_methods@.contains_key(m2) && m2 != m
                            ==> final(self).input_methods@[m2] == old(self).input_methods@[m2]
                    &&& final(self).input_methods@[m].locale == old(self).input_methods@[m].locale
                    &&& final(self).input_methods@[m].input_contexts@ == old(self).input_methods@[m].input_contexts@.insert(
                        c,
                        InputContext { user_data: data, ..old(self).input_methods@[m].input_contexts@[c] },
                    )
                },
                Err(e) => !old(self).has_ic(m, c) && e == ServerError::ClientNotExists
                    && final(self).same_as(old(self)),
            },
    {
        if self.get_input_context(m, c).is_err() {
            return Err(ServerError::ClientNotExists);
        }
        let mut im = match self.input_methods.remove_item(m) {
            Some(im) => im,
            None => return Err(ServerError::ClientNotExists),
        };
        assert(im_wf(im, m));
        proof {
            crate::slab::lemma_live_ids_positive(&old(self).input_methods, m);
            crate::slab::lemma_live_ids_positive(&old(self).input_methods@[m].input_contexts, c);
        }
        let mut ic = match im.input_contexts.remove_item(c) {
            Some(ic) => ic,
            None => return Err(ServerError::ClientNotExists),
        };
        let mut data = data;
        std::mem::swap(&mut ic.user_data, &mut data);
        im.input_contexts.restore_item(c, ic);
        self.input_methods.restore_item(m, im);
        proof {
            assert(self.input_methods@.dom() =~= old(self).input_methods@.dom());
            assert(self.input_methods@[m].input_contexts@ =~= old(self).input_methods@[m].input_contexts@.insert(
                c,
                InputContext { user_data: self.input_methods@[m].input_contexts@[c].user_data, ..old(self).input_methods@[m].input_contexts@[c] },
            ));
            assert(im_wf(self.input_methods@[m], m));
        }
        Ok(data)
    }
}

} // verus!
