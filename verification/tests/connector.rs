//! The RDP connection sequence.

use oxrdp::proto::pdu::{DecodeError, EncodeError};
use oxrdp::rdp::config::{
    address, client_name, default_config, server_name, ChannelDef, ClientCoreData,
    ClientNetworkData, ClientSecurityData, ConnectorConfig,
};
use oxrdp::rdp::connector::{
    after_negotiation, after_tls, ClientConnector, ConnectFailure, ConnectorState, CoreError,
    CoreOutput, Established, Reply, Request, ServerNetwork, PROTOCOL_RDP, PROTOCOL_SSL,
};

fn cfg() -> ConnectorConfig {
    let mut name = [0u8; 32];
    name[..5].copy_from_slice(b"oxrdp");
    ConnectorConfig {
        cookie: None,
        requested_protocols: PROTOCOL_SSL,
        core: ClientCoreData {
            version: 0x0008_0004,
            desktop_width: 1024,
            desktop_height: 768,
            color_depth: 0xCA01,
            sas_sequence: 0xAA03,
            keyboard_layout: 0x0409,
            client_build: 2600,
            client_name: name,
            keyboard_type: 4,
            keyboard_subtype: 0,
            keyboard_function_key: 12,
            ime_file_name: [0u8; 64],
        },
        security: ClientSecurityData {
            encryption_methods: 0,
            ext_encryption_methods: 0,
        },
        network: ClientNetworkData {
            channels: vec![ChannelDef {
                name: *b"rdpdr\0\0\0",
                options: 0,
            }],
        },
    }
}

fn cc_tls() -> Reply {
    Reply::Selected(PROTOCOL_SSL)
}

/// A Connect-Response with the I/O channel 1003 and no virtual channels.
fn connect_response() -> Reply {
    Reply::ConnectResponse {
        result: 0,
        network: Some(ServerNetwork {
            mcs_channel_id: 1003,
            channel_ids: vec![],
        }),
    }
}

fn attach_confirm() -> Reply {
    Reply::AttachUserConfirm {
        result: 0,
        user_id: 1007,
    }
}

fn join_confirm(ch: u16) -> Reply {
    Reply::ChannelJoinConfirm {
        result: 0,
        channel_id: ch,
    }
}

#[test]
fn full_sequence_to_connected() {
    let mut c = ClientConnector::new(cfg());
    assert!(matches!(
        c.start().unwrap().as_slice(),
        [CoreOutput::SendData(_)]
    ));
    assert_eq!(c.state(), ConnectorState::SentConnectionRequest);

    assert_eq!(c.step(cc_tls()).unwrap(), vec![CoreOutput::UpgradeToTls]);
    assert_eq!(c.state(), ConnectorState::NeedTls);

    assert!(matches!(
        c.resume_after_tls().unwrap().as_slice(),
        [CoreOutput::SendData(_)]
    ));
    assert_eq!(c.state(), ConnectorState::SentConnectInitial);

    // Connect-Response -> sends Erect Domain + Attach User
    let out = c.step(connect_response()).unwrap();
    assert_eq!(out.len(), 2);
    assert_eq!(c.state(), ConnectorState::SentErectAttach);

    // Attach User Confirm -> first channel join (user channel 1007)
    assert!(matches!(
        c.step(attach_confirm()).unwrap().as_slice(),
        [CoreOutput::SendData(_)]
    ));
    assert_eq!(c.state(), ConnectorState::JoiningChannels);

    // join confirm for user channel 1007 -> next join (io channel 1003)
    assert!(matches!(
        c.step(join_confirm(1007)).unwrap().as_slice(),
        [CoreOutput::SendData(_)]
    ));
    // join confirm for io channel 1003 -> Connected (queue was [1007, 1003])
    let done = c.step(join_confirm(1003)).unwrap();
    assert_eq!(
        done,
        vec![CoreOutput::Connected {
            selected_protocol: PROTOCOL_SSL,
            user_channel: 1007,
            io_channel: 1003
        }]
    );
    assert!(c.is_connected());
}

#[test]
fn step_before_start_is_unexpected() {
    let mut c = ClientConnector::new(cfg());
    assert!(matches!(
        c.step(Reply::Confirmed),
        Err(CoreError::UnexpectedState)
    ));
}

#[test]
fn the_requests_say_what_the_config_says() {
    let mut config = cfg();
    config.cookie = Some("someone".to_string());
    let mut c = ClientConnector::new(config);
    assert_eq!(
        c.start().unwrap(),
        vec![CoreOutput::SendData(Request::Connection {
            cookie: Some("someone".to_string()),
            requested_protocols: PROTOCOL_SSL,
        })]
    );
    assert_eq!(c.start(), Err(CoreError::UnexpectedState));
    c.step(cc_tls()).unwrap();
    assert_eq!(
        c.resume_after_tls().unwrap(),
        vec![CoreOutput::SendData(Request::ConnectInitial {
            core: cfg().core,
            security: cfg().security,
            network: cfg().network,
        })]
    );
    assert_eq!(c.resume_after_tls(), Err(CoreError::UnexpectedState));
}

#[test]
fn virtual_channels_are_joined_after_the_servers_own() {
    let mut c = ClientConnector::new(cfg());
    c.start().unwrap();
    c.step(cc_tls()).unwrap();
    c.resume_after_tls().unwrap();
    c.step(Reply::ConnectResponse {
        result: 0,
        network: Some(ServerNetwork {
            mcs_channel_id: 1003,
            channel_ids: vec![1004, 1005],
        }),
    })
    .unwrap();
    let mut joined = Vec::new();
    let mut outputs = c.step(attach_confirm()).unwrap();
    loop {
        match outputs.as_slice() {
            [CoreOutput::SendData(Request::ChannelJoin {
                user_id,
                channel_id,
            })] => {
                assert_eq!(*user_id, 1007);
                joined.push(*channel_id);
                outputs = c.step(join_confirm(*channel_id)).unwrap();
            }
            [CoreOutput::Connected { .. }] => break,
            other => panic!("expected a join, got {other:?}"),
        }
    }
    assert_eq!(joined, vec![1007, 1003, 1004, 1005]);
}

#[test]
fn refusals_are_reported() {
    let mut c = ClientConnector::new(cfg());
    c.start().unwrap();
    assert_eq!(
        c.step(Reply::Refused(5)),
        Err(CoreError::NegotiationFailed(5))
    );

    let mut c = ClientConnector::new(cfg());
    c.start().unwrap();
    c.step(cc_tls()).unwrap();
    c.resume_after_tls().unwrap();
    assert_eq!(
        c.step(Reply::ConnectResponse {
            result: 14,
            network: None
        }),
        Err(CoreError::ConnectResponseFailed(14))
    );

    let mut c = ClientConnector::new(cfg());
    c.start().unwrap();
    c.step(cc_tls()).unwrap();
    c.resume_after_tls().unwrap();
    c.step(connect_response()).unwrap();
    c.step(attach_confirm()).unwrap();
    assert_eq!(
        c.step(Reply::ChannelJoinConfirm {
            result: 1,
            channel_id: 1007
        }),
        Err(CoreError::ChannelJoinFailed(1007))
    );
}

#[test]
fn standard_rdp_security_is_rejected() {
    let mut c = ClientConnector::new(cfg());
    c.start().unwrap();
    let outputs = c.step(Reply::Selected(PROTOCOL_RDP)).unwrap();
    let (requests, verdict) = after_negotiation(outputs);
    assert_eq!(requests.len(), 1, "the Connect Initial goes out in the clear");
    assert_eq!(verdict, Err(ConnectFailure::NoTls));

    let (requests, verdict) = after_negotiation(vec![CoreOutput::UpgradeToTls]);
    assert!(requests.is_empty());
    assert_eq!(verdict, Ok(()));
}

#[test]
fn what_follows_the_upgrade_ends_in_one_way() {
    let join = Request::ChannelJoin {
        user_id: 1,
        channel_id: 2,
    };
    assert_eq!(
        after_tls(vec![CoreOutput::SendData(join.clone())]),
        (vec![join.clone()], None)
    );
    assert_eq!(
        after_tls(vec![
            CoreOutput::SendData(join.clone()),
            CoreOutput::UpgradeToTls,
            CoreOutput::SendData(Request::ErectDomain),
        ]),
        (vec![join], Some(Err(ConnectFailure::SecondUpgrade)))
    );
    assert_eq!(
        after_tls(vec![CoreOutput::Connected {
            selected_protocol: 1,
            user_channel: 2,
            io_channel: 3,
        }]),
        (
            vec![],
            Some(Ok(Established {
                selected_protocol: 1,
                user_channel: 2,
                io_channel: 3,
            }))
        )
    );
}

#[test]
fn a_client_name_is_utf16_and_null_padded() {
    let name = client_name("oxrdp");
    assert_eq!(&name[..10], b"o\0x\0r\0d\0p\0");
    assert!(name[10..].iter().all(|b| *b == 0));

    // Fifteen units at most: the last two bytes stay a terminator.
    let long = client_name("abcdefghijklmnopqrstuvwxyz");
    assert_eq!(&long[28..], b"o\0\0\0");

    // A character outside the basic plane is a surrogate pair.
    assert_eq!(&client_name("\u{1F600}")[..4], &[0x3D, 0xD8, 0x00, 0xDE]);
}

#[test]
fn the_default_configuration_asks_for_tls() {
    let config = default_config("");
    assert_eq!(config.cookie, None);
    assert_eq!(config.requested_protocols, PROTOCOL_SSL);
    assert_eq!(
        (config.core.desktop_width, config.core.desktop_height),
        (1024, 768)
    );
    assert_eq!(config.network.channels[0].name, *b"rdpdr\0\0\0");
    assert_eq!(
        default_config("someone").cookie,
        Some("someone".to_string())
    );
}

#[test]
fn a_host_may_name_its_port() {
    assert_eq!(address("host"), "host:3389");
    assert_eq!(address("host:3390"), "host:3390");
    assert_eq!(server_name("host"), "host");
    assert_eq!(server_name("host:3390"), "host");
}

#[test]
fn connector_errors_in_words() {
    assert_eq!(CoreError::UnexpectedState.message(), "unexpected connector state");
    assert_eq!(CoreError::NegotiationFailed(5).message(), "negotiation failed: 5");
    assert_eq!(CoreError::ConnectResponseFailed(14).message(), "connect response failed: 14");
    assert_eq!(CoreError::ChannelJoinFailed(1004).message(), "channel join failed: 1004");
    let short = DecodeError::NotEnoughBytes { context: "header" };
    assert_eq!(CoreError::from(short), CoreError::Decode(short));
    assert_eq!(
        CoreError::from(short).message(),
        "decode error: not enough bytes in header"
    );
    let long = EncodeError::FieldTooLarge { context: "hello", field: "name" };
    assert_eq!(CoreError::from(long), CoreError::Encode(long));
    assert_eq!(
        CoreError::from(long).message(),
        "encode error: field name of hello is too large"
    );
}
