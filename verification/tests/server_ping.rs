use segestria_core::server_status::{
    frame_packet, handshake_body, packet_len, parse_status_body, read_string_from_bytes, read_varint_from_bytes, split_packet,
    status_from_response, status_request_bytes, varint_accumulate, write_string, write_varint, Description,
    PlayersInfo, ServerStatus, StatusResponse, VarintStep, PROTOCOL_VERSION,
};
use segestria_core::Error;

fn varint(v: i32) -> Vec<u8> {
    let mut b = Vec::new();
    write_varint(&mut b, v);
    b
}

#[test]
fn varint_encodings() {
    assert_eq!(varint(0), vec![0x00]);
    assert_eq!(varint(1), vec![0x01]);
    assert_eq!(varint(127), vec![0x7f]);
    assert_eq!(varint(128), vec![0x80, 0x01]);
    assert_eq!(varint(255), vec![0xff, 0x01]);
    assert_eq!(varint(763), vec![0xfb, 0x05]);
    assert_eq!(varint(25565), vec![0xdd, 0xc7, 0x01]);
    assert_eq!(varint(2097151), vec![0xff, 0xff, 0x7f]);
    assert_eq!(varint(i32::MAX), vec![0xff, 0xff, 0xff, 0xff, 0x07]);
    assert_eq!(varint(-1), vec![0xff, 0xff, 0xff, 0xff, 0x0f]);
    assert_eq!(varint(i32::MIN), vec![0x80, 0x80, 0x80, 0x80, 0x08]);
}

#[test]
fn varint_round_trip() {
    for v in [0, 1, 2, 127, 128, 300, 763, 25565, 1 << 21, 1 << 28, i32::MAX, -1, -2, i32::MIN] {
        let mut buf = vec![0xaa, 0xbb];
        write_varint(&mut buf, v);
        buf.push(0x42);
        let mut pos = 2usize;
        assert_eq!(read_varint_from_bytes(&buf, &mut pos), Ok(v));
        assert_eq!(buf[pos], 0x42);
    }
}

#[test]
fn varint_faults() {
    let mut pos = 0usize;
    assert_eq!(read_varint_from_bytes(&[], &mut pos), Err(Error::Other("varint truncado".to_string())));
    assert_eq!(pos, 0);
    let mut pos = 0usize;
    assert_eq!(read_varint_from_bytes(&[0x80, 0x80], &mut pos), Err(Error::Other("varint truncado".to_string())));
    assert_eq!(pos, 2);
    let mut pos = 0usize;
    assert_eq!(
        read_varint_from_bytes(&[0x80, 0x80, 0x80, 0x80, 0x80, 0x01], &mut pos),
        Err(Error::Other("varint demasiado largo".to_string()))
    );
    assert_eq!(pos, 5);
}

#[test]
fn varint_steps() {
    assert_eq!(varint_accumulate(0, 0, 0x05), VarintStep::Done(5));
    assert_eq!(varint_accumulate(0, 0, 0xfb), VarintStep::More(0x7b, 7));
    assert_eq!(varint_accumulate(0x7b, 7, 0x05), VarintStep::Done(763));
}

#[test]
fn string_round_trip() {
    for s in ["", "localhost", "mc.example.org", "ñandú ☃ 🎮"] {
        let mut buf = Vec::new();
        write_string(&mut buf, s);
        assert_eq!(buf[0] as usize, s.len());
        buf.extend_from_slice(b"tail");
        let mut pos = 0usize;
        assert_eq!(read_string_from_bytes(&buf, &mut pos), Ok(s.to_string()));
        assert_eq!(&buf[pos..], b"tail");
    }
}

#[test]
fn string_faults() {
    let mut pos = 0usize;
    assert_eq!(
        read_string_from_bytes(&[0x05, b'a', b'b'], &mut pos),
        Err(Error::Other("string truncado en la respuesta del server".to_string()))
    );
    assert_eq!(pos, 1);
    let mut pos = 0usize;
    assert_eq!(
        read_string_from_bytes(&[0x02, 0xc3, 0x28], &mut pos),
        Err(Error::Other("utf8 inválido en la respuesta del server".to_string()))
    );
    assert_eq!(pos, 1);
    let mut pos = 0usize;
    assert_eq!(read_string_from_bytes(&[0x80], &mut pos), Err(Error::Other("varint truncado".to_string())));
}

#[test]
fn packets() {
    assert_eq!(frame_packet(0, &[]), vec![0x01, 0x00]);
    assert_eq!(frame_packet(0x10, &[1, 2, 3]), vec![0x04, 0x10, 1, 2, 3]);
    assert_eq!(split_packet(&[0x00, 9, 8]), Ok((0, vec![9, 8])));
    assert_eq!(split_packet(&[0x81, 0x01]), Ok((129, vec![])));
    assert_eq!(split_packet(&[]), Err(Error::Other("varint truncado".to_string())));
}

#[test]
fn handshake_and_status_request() {
    assert_eq!(PROTOCOL_VERSION, 763);
    let hs = handshake_body("localhost", 25565);
    let mut expected = vec![0xfb, 0x05, 9];
    expected.extend_from_slice(b"localhost");
    expected.extend_from_slice(&[0x63, 0xdd, 0x01]);
    assert_eq!(hs, expected);

    let req = status_request_bytes("localhost", 25565);
    let mut framed = vec![(expected.len() + 1) as u8, 0x00];
    framed.extend_from_slice(&expected);
    framed.extend_from_slice(&[0x01, 0x00]);
    assert_eq!(req, framed);
}

#[test]
fn status_body() {
    let mut body = Vec::new();
    write_string(&mut body, "{\"players\":{\"max\":20,\"online\":3}}");
    assert_eq!(parse_status_body(0, &body), Ok("{\"players\":{\"max\":20,\"online\":3}}".to_string()));
    assert_eq!(
        parse_status_body(1, &body),
        Err(Error::Other("respuesta inesperada del server (packet 1)".to_string()))
    );
    assert_eq!(
        parse_status_body(-3, &body),
        Err(Error::Other("respuesta inesperada del server (packet -3)".to_string()))
    );
}

#[test]
fn message_of_the_day() {
    assert_eq!(Description::Text("Hola".to_string()).to_plain_text(), "Hola");
    let d = Description::Component {
        text: "Segestria ".to_string(),
        extra_texts: vec![Some("survival".to_string()), None, Some(" 1.20.1".to_string())],
    };
    assert_eq!(d.to_plain_text(), "Segestria survival 1.20.1");
    let d = Description::Component { text: String::new(), extra_texts: vec![] };
    assert_eq!(d.to_plain_text(), "");
}

#[test]
fn status_of_an_answering_server() {
    let s = status_from_response(StatusResponse {
        players: PlayersInfo { max: 20, online: 3 },
        description: Some(Description::Text("Hola".to_string())),
        favicon: Some("data:image/png;base64,AAAA".to_string()),
    });
    assert!(s.online);
    assert_eq!(s.players_online, Some(3));
    assert_eq!(s.players_max, Some(20));
    assert_eq!(s.motd.as_deref(), Some("Hola"));
    assert_eq!(s.favicon.as_deref(), Some("data:image/png;base64,AAAA"));

    let s = status_from_response(StatusResponse { players: PlayersInfo { max: 0, online: 0 }, description: None, favicon: None });
    assert!(s.motd.is_none());
    assert!(s.favicon.is_none());
}

#[test]
fn offline_status() {
    let s = ServerStatus::offline();
    assert!(!s.online);
    assert!(s.players_online.is_none());
    assert!(s.players_max.is_none());
    assert!(s.motd.is_none());
    assert!(s.favicon.is_none());
}

#[test]
fn announced_packet_lengths() {
    assert_eq!(packet_len(0, 2097151), Some(0));
    assert_eq!(packet_len(120, 2097151), Some(120));
    assert_eq!(packet_len(2097151, 2097151), Some(2097151));
    assert_eq!(packet_len(2097152, 2097151), None);
    assert_eq!(packet_len(2097152, usize::MAX), Some(2097152));
    assert_eq!(packet_len(-1, usize::MAX), None);
    assert_eq!(packet_len(i32::MIN, usize::MAX), None);
    assert_eq!(packet_len(i32::MAX, usize::MAX), Some(i32::MAX as usize));
}
