use xim_core::connection::{
    encoding_negotiation, forward_event_replies, get_im_values, Action, ServerError, XimConnection,
};
use xim_core::context::{set_ic_attrs, InputContext};
use xim_core::registry::XimConnections;
use xim_core::request::{ErrorCode, Request, ERROR_FLAG_IM_VALID, FORWARD_SYNCHRONOUS};
use xim_core::wire::{Attribute, Endian, Point};

fn le32(v: u32) -> Vec<u8> {
    v.to_le_bytes().to_vec()
}

fn nested(id: u16, value: &[u8]) -> Vec<u8> {
    let mut out = Vec::new();
    Attribute { id, value: value.to_vec() }.write(&mut out, Endian::Little);
    out
}

fn point_bytes(x: i16, y: i16) -> Vec<u8> {
    let mut v = x.to_le_bytes().to_vec();
    v.extend_from_slice(&y.to_le_bytes());
    v
}

fn open_im(conn: &mut XimConnection<u32>) -> u16 {
    let acts = conn
        .handle_request(Request::Open { locale: b"en_US".to_vec() }, None, &vec![])
        .unwrap();
    match &acts[0] {
        Action::Send(Request::OpenReply { input_method_id, im_attrs, ic_attrs }) => {
            assert_eq!(im_attrs.len(), 1);
            assert_eq!(ic_attrs.len(), 6);
            *input_method_id
        }
        _ => panic!("expected an open reply"),
    }
}

fn create_ic(conn: &mut XimConnection<u32>, im: u16, attrs: Vec<Attribute>, data: u32) -> u16 {
    let acts = conn
        .handle_request(
            Request::CreateIc { input_method_id: im, ic_attributes: attrs },
            Some(data),
            &vec![],
        )
        .unwrap();
    assert_eq!(acts.len(), 2);
    match (&acts[0], &acts[1]) {
        (
            Action::Send(Request::CreateIcReply { input_method_id, input_context_id }),
            Action::IcCreated { input_method_id: m2, input_context_id: c2 },
        ) => {
            assert_eq!(*input_method_id, im);
            assert_eq!(m2, input_method_id);
            assert_eq!(c2, input_context_id);
            *input_context_id
        }
        _ => panic!("expected a create reply"),
    }
}

#[test]
fn handshake_replies_and_connects() {
    let mut conn: XimConnection<u32> = XimConnection::new(7);
    let acts = conn
        .handle_request(
            Request::Connect {
                endian: 0x6c,
                client_major_protocol_version: 1,
                client_minor_protocol_version: 0,
                client_auth_protocol_names: vec![],
            },
            None,
            &vec![],
        )
        .unwrap();
    assert_eq!(acts.len(), 2);
    assert!(matches!(
        acts[0],
        Action::Send(Request::ConnectReply {
            server_major_protocol_version: 1,
            server_minor_protocol_version: 0
        })
    ));
    assert!(matches!(acts[1], Action::Connected));
    assert_eq!(conn.endian, Endian::Little);
}

#[test]
fn open_create_focus() {
    let mut conn: XimConnection<u32> = XimConnection::new(7);
    let im = open_im(&mut conn);
    assert_eq!(im, 1);
    let attrs = vec![
        Attribute { id: 0, value: le32(1) },
        Attribute { id: 1, value: le32(0xCAFEBABE) },
    ];
    let ic = create_ic(&mut conn, 1, attrs, 99);
    assert_eq!(ic, 1);
    {
        let c = conn.get_input_context(1, 1).unwrap();
        assert_eq!(c.input_style(), 1);
        assert_eq!(c.app_win(), Some(0xCAFEBABE));
        assert_eq!(c.app_focus_win(), None);
        assert_eq!(c.input_context_id(), 1);
        assert_eq!(c.input_method_id(), 1);
        assert_eq!(c.locale(), b"en_US");
        assert_eq!(c.client_win(), 7);
        assert_eq!(c.user_data, 99);
    }
    let acts = conn
        .handle_request(Request::SetIcFocus { input_method_id: 1, input_context_id: 1 }, None, &vec![])
        .unwrap();
    assert!(acts.is_empty());
    assert_eq!(conn.last_focused, Some((1, 1)));
    conn.handle_request(Request::UnsetIcFocus { input_method_id: 1, input_context_id: 1 }, None, &vec![])
        .unwrap();
    assert_eq!(conn.last_focused, None);
}

#[test]
fn created_ids_are_discoverable() {
    let mut conn: XimConnection<u32> = XimConnection::new(7);
    let im = open_im(&mut conn);
    let a = create_ic(&mut conn, im, vec![], 1);
    let b = create_ic(&mut conn, im, vec![], 2);
    assert_eq!((a, b), (1, 2));
    assert_eq!(conn.get_input_context(im, b).unwrap().input_context_id(), b);
    assert_eq!(conn.get_input_context(im, b).unwrap().user_data, 2);
}

#[test]
fn encoding_miss_sends_bad_name() {
    let r = encoding_negotiation(1, &vec![b"UTF-8".to_vec(), b"LATIN-1".to_vec()]);
    match r {
        Request::Error { input_method_id, input_context_id, flag, code, detail } => {
            assert_eq!(input_method_id, 1);
            assert_eq!(input_context_id, 0);
            assert_eq!(flag, ERROR_FLAG_IM_VALID);
            assert_eq!(code, ErrorCode::BadName);
            assert_eq!(detail, b"Only COMPOUND_TEXT encoding is supported".to_vec());
        }
        _ => panic!("expected an error"),
    }
}

#[test]
fn encoding_picks_first_compound_text() {
    let r = encoding_negotiation(
        3,
        &vec![b"UTF-8".to_vec(), b"COMPOUND_TEXT".to_vec(), b"COMPOUND_TEXT2".to_vec()],
    );
    assert!(matches!(
        r,
        Request::EncodingNegotiationReply { input_method_id: 3, category: 0, index: 1 }
    ));
    let r = encoding_negotiation(3, &vec![b"COMPOUND_TEX".to_vec()]);
    assert!(matches!(r, Request::Error { .. }));
}

#[test]
fn forward_event_pass_through_with_sync() {
    let r = forward_event_replies(1, 1, 42, FORWARD_SYNCHRONOUS, vec![9, 8, 7], false);
    assert_eq!(r.len(), 2);
    match &r[0] {
        Request::ForwardEvent { input_method_id, input_context_id, flag, serial_number, xev } => {
            assert_eq!((*input_method_id, *input_context_id), (1, 1));
            assert_eq!(*flag, 0);
            assert_eq!(*serial_number, 42);
            assert_eq!(xev, &vec![9, 8, 7]);
        }
        _ => panic!("expected the event back"),
    }
    assert!(matches!(r[1], Request::SyncReply { input_method_id: 1, input_context_id: 1 }));
}

#[test]
fn forward_event_consumed_sync_only() {
    let r = forward_event_replies(1, 1, 42, FORWARD_SYNCHRONOUS, vec![1], true);
    assert_eq!(r.len(), 1);
    assert!(matches!(r[0], Request::SyncReply { input_method_id: 1, input_context_id: 1 }));
    let r = forward_event_replies(1, 1, 42, 0, vec![1], true);
    assert!(r.is_empty());
}

#[test]
fn forward_event_request_needs_live_context() {
    let mut conn: XimConnection<u32> = XimConnection::new(7);
    let r = conn.handle_request(
        Request::ForwardEvent { input_method_id: 1, input_context_id: 1, flag: 1, serial_number: 5, xev: vec![] },
        None,
        &vec![],
    );
    assert!(matches!(r, Err(ServerError::ClientNotExists)));
}

#[test]
fn close_destroys_every_context() {
    let mut conn: XimConnection<u32> = XimConnection::new(7);
    let im = open_im(&mut conn);
    for d in 0..3u32 {
        create_ic(&mut conn, im, vec![], d);
    }
    let acts = conn.handle_request(Request::Close { input_method_id: 1 }, None, &vec![]).unwrap();
    assert_eq!(acts.len(), 4);
    let mut ids: Vec<u16> = acts[..3]
        .iter()
        .map(|a| match a {
            Action::IcDestroyed(ic) => ic.input_context_id(),
            _ => panic!("expected a destroyed context"),
        })
        .collect();
    ids.sort();
    assert_eq!(ids, vec![1, 2, 3]);
    assert!(matches!(acts[3], Action::Send(Request::CloseReply { input_method_id: 1 })));
    let r = conn.handle_request(
        Request::SetIcValues { input_method_id: 1, input_context_id: 1, ic_attributes: vec![] },
        None,
        &vec![],
    );
    assert!(matches!(r, Err(ServerError::ClientNotExists)));
}

#[test]
fn disconnect_destroys_all() {
    let mut conn: XimConnection<u32> = XimConnection::new(7);
    let a = open_im(&mut conn);
    let b = open_im(&mut conn);
    create_ic(&mut conn, a, vec![], 1);
    create_ic(&mut conn, b, vec![], 2);
    create_ic(&mut conn, b, vec![], 3);
    let acts = conn.handle_request(Request::Disconnect {}, None, &vec![]).unwrap();
    let mut keys: Vec<(u16, u16)> = acts
        .iter()
        .filter_map(|a| match a {
            Action::IcDestroyed(ic) => Some((ic.input_method_id(), ic.input_context_id())),
            _ => None,
        })
        .collect();
    keys.sort();
    assert_eq!(keys, vec![(1, 1), (2, 1), (2, 2)]);
    assert!(matches!(acts.last(), Some(Action::Send(Request::DisconnectReply {}))));
    assert!(conn.disconnected);
    assert!(conn.get_input_context(1, 1).is_err());
}

#[test]
fn destroy_ic_then_missing() {
    let mut conn: XimConnection<u32> = XimConnection::new(7);
    let im = open_im(&mut conn);
    let ic = create_ic(&mut conn, im, vec![], 5);
    conn.handle_request(Request::SetIcFocus { input_method_id: im, input_context_id: ic }, None, &vec![])
        .unwrap();
    let acts = conn
        .handle_request(Request::DestroyIc { input_method_id: im, input_context_id: ic }, None, &vec![])
        .unwrap();
    assert!(matches!(&acts[0], Action::IcDestroyed(c) if c.user_data == 5));
    assert!(matches!(acts[1], Action::Send(Request::DestroyIcReply { input_method_id: 1, input_context_id: 1 })));
    assert_eq!(conn.last_focused, None);
    let again = conn.handle_request(Request::DestroyIc { input_method_id: im, input_context_id: ic }, None, &vec![]);
    assert!(matches!(again, Err(ServerError::ClientNotExists)));
    // the freed id is handed out again
    assert_eq!(create_ic(&mut conn, im, vec![], 6), 1);
}

#[test]
fn nested_preedit_spot() {
    let mut ic: InputContext<()> = InputContext::new(7, 1, 1, b"C".to_vec(), ());
    let list = nested(4, &point_bytes(10, 20));
    set_ic_attrs(&mut ic, &vec![Attribute { id: 3, value: list }], Endian::Little);
    assert_eq!(ic.preedit_spot(), Point { x: 10, y: 20 });
    set_ic_attrs(&mut ic, &vec![Attribute { id: 4, value: point_bytes(1, 2) }], Endian::Little);
    assert_eq!(ic.preedit_spot(), Point { x: 10, y: 20 });
}

#[test]
fn malformed_values_keep_prior() {
    let mut ic: InputContext<()> = InputContext::new(7, 1, 1, b"C".to_vec(), ());
    set_ic_attrs(
        &mut ic,
        &vec![Attribute { id: 0, value: le32(5) }, Attribute { id: 2, value: le32(33) }],
        Endian::Little,
    );
    set_ic_attrs(
        &mut ic,
        &vec![
            Attribute { id: 0, value: vec![1, 2] },
            Attribute { id: 2, value: le32(0) },
            Attribute { id: 77, value: le32(1) },
        ],
        Endian::Little,
    );
    assert_eq!(ic.input_style(), 5);
    assert_eq!(ic.app_focus_win(), Some(33));
    assert_eq!(ic.app_win(), None);
}

#[test]
fn big_endian_attributes() {
    let mut ic: InputContext<()> = InputContext::new(7, 1, 1, b"C".to_vec(), ());
    set_ic_attrs(&mut ic, &vec![Attribute { id: 1, value: vec![0, 0, 1, 2] }], Endian::Big);
    assert_eq!(ic.app_win(), Some(0x0102));
}

#[test]
fn get_im_values_styles_and_errors() {
    let r = get_im_values(1, &vec![0], &vec![1, 0x404], Endian::Little);
    match r {
        Request::GetImValuesReply { input_method_id, im_attributes } => {
            assert_eq!(input_method_id, 1);
            assert_eq!(im_attributes.len(), 1);
            assert_eq!(im_attributes[0].id, 0);
            assert_eq!(im_attributes[0].value, vec![2, 0, 0, 0, 1, 0, 0, 0, 4, 4, 0, 0]);
        }
        _ => panic!("expected a reply"),
    }
    let r = get_im_values(1, &vec![0, 5], &vec![1], Endian::Little);
    assert!(matches!(r, Request::Error { code: ErrorCode::BadName, flag: 1, input_method_id: 1, .. }));
}

#[test]
fn registry_routes_by_window() {
    let mut reg: XimConnections<u32> = XimConnections::new();
    assert!(reg.new_connection(100, 7));
    assert!(reg.new_connection(200, 8));
    assert_eq!(reg.get_connection(100).unwrap().client_win, 7);
    assert_eq!(reg.get_connection(200).unwrap().client_win, 8);
    assert!(reg.get_connection(300).is_none());
    let c = reg.remove_connection(100).unwrap();
    assert_eq!(c.client_win, 7);
    assert!(reg.get_connection(100).is_none());
    assert!(reg.remove_connection(100).is_none());
    assert!(reg.new_connection(200, 9));
    assert_eq!(reg.get_connection(200).unwrap().client_win, 9);
}

#[test]
fn user_data_is_replaced() {
    let mut conn: XimConnection<u32> = XimConnection::new(7);
    let im = open_im(&mut conn);
    let ic = create_ic(&mut conn, im, vec![], 10);
    assert_eq!(conn.replace_user_data(im, ic, 11), Ok(10));
    assert_eq!(conn.get_input_context(im, ic).unwrap().user_data, 11);
    assert_eq!(conn.replace_user_data(im, 9, 12), Err(ServerError::ClientNotExists));
}

#[test]
fn replies_through_dispatch() {
    let mut conn: XimConnection<u32> = XimConnection::new(7);
    let im = open_im(&mut conn);
    let acts = conn
        .handle_request(Request::QueryExtension { input_method_id: im, extensions: vec![] }, None, &vec![])
        .unwrap();
    assert!(matches!(&acts[..], [Action::Send(Request::QueryExtensionReply { input_method_id: 1, extensions })] if extensions.is_empty()));
    let acts = conn
        .handle_request(
            Request::EncodingNegotiation {
                input_method_id: im,
                encodings: vec![b"COMPOUND_TEXT".to_vec()],
                encoding_infos: vec![],
            },
            None,
            &vec![],
        )
        .unwrap();
    assert!(matches!(&acts[..], [Action::Send(Request::EncodingNegotiationReply { input_method_id: 1, category: 0, index: 0 })]));
    let acts = conn
        .handle_request(Request::GetImValues { input_method_id: im, im_attributes: vec![0] }, None, &vec![3])
        .unwrap();
    assert!(matches!(&acts[..], [Action::Send(Request::GetImValuesReply { input_method_id: 1, .. })]));
    let ic = create_ic(&mut conn, im, vec![], 0);
    let acts = conn
        .handle_request(
            Request::ForwardEvent { input_method_id: im, input_context_id: ic, flag: 1, serial_number: 42, xev: vec![5] },
            None,
            &vec![],
        )
        .unwrap();
    assert!(matches!(&acts[..], [Action::ForwardEvent { input_method_id: 1, input_context_id: 1, flag: 1, serial_number: 42, xev }] if xev == &vec![5]));
}

#[test]
fn second_disconnect_changes_nothing() {
    let mut conn: XimConnection<u32> = XimConnection::new(7);
    let im = open_im(&mut conn);
    create_ic(&mut conn, im, vec![], 1);
    assert_eq!(conn.disconnect().len(), 1);
    assert!(conn.disconnect().is_empty());
    assert!(conn.disconnected);
    assert_eq!(conn.client_win, 7);
    assert_eq!(conn.endian, Endian::Little);
}
