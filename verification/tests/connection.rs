use http_server::server::connection::{advance, Action, Event, Phase};
use http_server::server::{failure_bytes, reply_bytes};
use http_server::{Headers, Response};

fn text_reply(body: &str) -> Response {
    Response::ok(Headers::new(), body.as_bytes().to_vec())
}

fn sent(action: &Action) -> Vec<u8> {
    match action {
        Action::Send(b) => b.clone(),
        other => panic!("expected bytes to send, got {:?}", other),
    }
}

#[test]
fn keep_alive_answers_each_request_until_close() {
    let mut phase = Phase::Reading;
    let mut written = Vec::new();
    let bodies = ["one", "two", "three"];
    for (i, body) in bodies.iter().enumerate() {
        let close = i == bodies.len() - 1;
        let (next, action) = advance(phase, Event::Received { close, response: text_reply(body) });
        assert_eq!(next, Phase::Writing { close });
        written.extend(sent(&action));
        let (next, action) = advance(next, Event::Written { ok: true });
        phase = next;
        if close {
            assert_eq!(phase, Phase::Closed);
            assert!(matches!(action, Action::Stop));
        } else {
            assert_eq!(phase, Phase::Reading);
            assert!(matches!(action, Action::ReadNext));
        }
    }
    let mut expected = Vec::new();
    expected.extend(b"HTTP/1.1 200 OK\r\ncontent-length: 3\r\n\r\none");
    expected.extend(b"HTTP/1.1 200 OK\r\ncontent-length: 3\r\n\r\ntwo");
    expected.extend(b"HTTP/1.1 200 OK\r\nconnection: close\r\ncontent-length: 5\r\n\r\nthree");
    assert_eq!(written, expected);
    assert_eq!(written.len(), reply_bytes(text_reply("one"), false).len() * 2 + reply_bytes(text_reply("three"), true).len());

    let (after, action) = advance(phase, Event::Received { close: false, response: text_reply("x") });
    assert_eq!(after, Phase::Closed);
    assert!(matches!(action, Action::Stop));
}

#[test]
fn failed_read_sends_failure_and_closes() {
    let (phase, action) = advance(Phase::Reading, Event::ReadFailed);
    assert_eq!(phase, Phase::Closed);
    assert_eq!(sent(&action), b"HTTP/1.1 400 Bad Request\r\n\r\n".to_vec());
}

#[test]
fn failed_write_sends_failure_and_closes() {
    let (phase, _) = advance(Phase::Reading, Event::Received { close: false, response: text_reply("a") });
    let (phase, action) = advance(phase, Event::Written { ok: false });
    assert_eq!(phase, Phase::Closed);
    assert_eq!(sent(&action), failure_bytes());
}
