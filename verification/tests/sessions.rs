use movethebytes::address::{AddressError, Interface, IpAddress};
use movethebytes::announcement::announcement;
use movethebytes::network::{InstanceParams, Setting, SettingError};
use movethebytes::plan::{Plan, Role};
use movethebytes::protocol::Failure;
use movethebytes::session::{Action, Event, Session};

const ROOT: &str = "bafyreibjo4xmgaevkgud7mbifn3dzp4v4lyaui4yvqp3f2bqwtxcjrdqg4";
const OLD_ROOT: &str = "QmdfTbBqBPQ7VNxZEYEj14VmRuZBkqFbiwReogJgS1zR1n";

fn cid(text: &str) -> cid::Cid {
    text.parse().unwrap()
}

fn eth1() -> Event {
    Event::Interfaces(vec![
        Interface { name: "lo".to_string(), ip: IpAddress::V4(127, 0, 0, 1) },
        Interface { name: "eth1".to_string(), ip: IpAddress::V4(16, 0, 0, 9) },
    ])
}

fn shaped() -> InstanceParams {
    InstanceParams::new()
        .with("latency".to_string(), "10".to_string())
        .with("bandwidth".to_string(), "1000".to_string())
}

fn announced(addr: &str, cid: Option<&str>) -> Event {
    Event::Announced(announcement(2, addr.to_string(), cid.map(|c| c.to_string())))
}

fn show(action: Action) -> String {
    match action {
        Action::ShapeNetwork(s) => format!(
            "shape {} {} {} {} {} {} {}",
            s.network,
            s.enable,
            s.latency,
            s.jitter,
            s.bandwidth,
            s.callback_state,
            s.callback_target
        ),
        Action::ListInterfaces => "interfaces".to_string(),
        Action::ImportFixture(path) => format!("import {}", path),
        Action::Listen(addr) => format!("listen {}", addr),
        Action::OpenEndpoint(addr) => format!("open {}", addr),
        Action::Publish(topic, payload) => format!("publish {} {}", topic, payload),
        Action::Subscribe(topic, room) => format!("subscribe {} {}", topic, room),
        Action::NextAnnouncement => "next announcement".to_string(),
        Action::Dial(addr, None) => format!("dial {}", addr),
        Action::Dial(addr, Some(name)) => format!("dial {} as {}", addr, name),
        Action::Unsubscribe => "unsubscribe".to_string(),
        Action::Fetch(cid) => format!("fetch {}", cid),
        Action::NextUpdate => "next update".to_string(),
        Action::Report(text) => format!("report {}", text),
        Action::Signal(state) => format!("signal {}", state),
        Action::SignalAndWait(state, target) => format!("signal {} and wait for {}", state, target),
        Action::StopListening => "stop".to_string(),
        Action::RecordSuccess => "success".to_string(),
        Action::Finish => "finish".to_string(),
        Action::GiveUp(failure, message) => format!("give up {:?}: {}", failure, message),
    }
}

fn give_up(failure: Failure) -> String {
    format!("give up {:?}: {}", failure, failure.message())
}

fn run(mut session: Session, events: Vec<Event>) -> Vec<String> {
    let mut shown = vec![show(session.action())];
    for event in events {
        session = session.handle(event);
        shown.push(show(session.action()));
    }
    shown
}

fn last(session: Session, events: Vec<Event>) -> String {
    run(session, events).pop().unwrap()
}

fn begin(plan: Plan, seq: u64, instances: u64) -> Session {
    Session::begin(plan, seq, instances, &InstanceParams::new())
}

#[test]
fn tcp_listener_run() {
    let session = begin(Plan::Tcp, 1, 2);
    assert_eq!(session.role(), Role::Listener);
    let events = vec![eth1(), Event::Done, Event::Done, Event::Done, Event::Done, Event::Done];
    assert_eq!(
        run(session, events),
        vec![
            "interfaces",
            "listen 16.0.0.9:1234",
            "publish server {\"Addrs\":[\"16.0.0.9:1234\"],\"ID\":1}",
            "signal done and wait for 2",
            "stop",
            "success",
            "finish",
        ]
    );
}

#[test]
fn tcp_dialer_run() {
    let session = begin(Plan::Tcp, 2, 4);
    assert_eq!(session.role(), Role::Dialer);
    let events = vec![
        Event::Done,
        announced("16.0.0.1:1234", None),
        Event::Done,
        announced("16.0.0.3:1234", None),
        Event::Done,
        Event::Done,
        Event::Done,
        Event::Done,
    ];
    assert_eq!(
        run(session, events),
        vec![
            "subscribe server 2",
            "next announcement",
            "dial 16.0.0.1:1234",
            "next announcement",
            "dial 16.0.0.3:1234",
            "unsubscribe",
            "signal done",
            "success",
            "finish",
        ]
    );
}

#[test]
fn quic_runs() {
    let events = vec![eth1(), Event::Done, Event::Done, Event::Done, Event::Done, Event::Done];
    assert_eq!(
        run(begin(Plan::Quic, 2, 2), events),
        vec![
            "interfaces",
            "listen 16.0.0.9:4000",
            "publish server {\"Addrs\":[\"16.0.0.9:4000\"],\"ID\":2}",
            "signal done and wait for 2",
            "stop",
            "success",
            "finish",
        ]
    );
    let events = vec![
        eth1(),
        Event::Done,
        Event::Done,
        announced("16.0.0.1:4000", None),
        Event::Done,
        Event::Done,
        Event::Done,
        Event::Done,
    ];
    assert_eq!(
        run(begin(Plan::Quic, 1, 2), events),
        vec![
            "interfaces",
            "open 16.0.0.9:4000",
            "subscribe server 1",
            "next announcement",
            "dial 16.0.0.1:4000 as localhost",
            "unsubscribe",
            "signal done and wait for 2",
            "success",
            "finish",
        ]
    );
}

#[test]
fn krakensync_listener_run() {
    let events = vec![
        eth1(),
        Event::Roots(vec![cid(ROOT)]),
        Event::Done,
        Event::Done,
        Event::Done,
        Event::Done,
    ];
    assert_eq!(
        run(begin(Plan::Krakensync, 4, 6), events),
        vec![
            "interfaces".to_string(),
            "import ../../../fixtures/10MiB.car".to_string(),
            "listen 16.0.0.9:31131".to_string(),
            format!(
                "publish responders {{\"Addrs\":[\"16.0.0.9:31131\"],\"Cid\":\"{}\",\"ID\":4}}",
                ROOT
            ),
            "signal done and wait for 6".to_string(),
            "success".to_string(),
            "finish".to_string(),
        ]
    );
}

#[test]
fn krakensync_dialer_run() {
    let events = vec![
        eth1(),
        Event::Done,
        Event::Done,
        announced("16.0.0.2:31131", Some(ROOT)),
        Event::Done,
        announced("16.0.0.4:31131", Some(OLD_ROOT)),
        Event::Done,
        Event::Done,
        // The first fetch has news.
        Event::Done,
        Event::Updated(5),
        Event::Done,
        Event::Updated(8),
        Event::NoUpdate(10),
        Event::Done,
        // The second has none.
        Event::Done,
        Event::NoUpdate(3),
        Event::NoUpdate(4),
        Event::Done,
        Event::Done,
        Event::Done,
    ];
    assert_eq!(
        run(begin(Plan::Krakensync, 1, 4), events),
        vec![
            "interfaces".to_string(),
            "open 16.0.0.9:31131".to_string(),
            "subscribe responders 2".to_string(),
            "next announcement".to_string(),
            "dial 16.0.0.2:31131".to_string(),
            "next announcement".to_string(),
            "dial 16.0.0.4:31131".to_string(),
            "unsubscribe".to_string(),
            format!("fetch {}", ROOT),
            "next update".to_string(),
            "report REQUESTER_TTFB=5".to_string(),
            "next update".to_string(),
            "next update".to_string(),
            "report REQUESTER_FETCH_DURATION=10".to_string(),
            format!("fetch {}", OLD_ROOT),
            "next update".to_string(),
            "next update".to_string(),
            "report REQUESTER_FETCH_DURATION=4".to_string(),
            "signal done and wait for 4".to_string(),
            "success".to_string(),
            "finish".to_string(),
        ]
    );
}

#[test]
fn shaped_runs_shape_the_network_first() {
    let session = Session::begin(Plan::KrakensyncShaped, 2, 2, &shaped());
    let events = vec![
        Event::Done,
        eth1(),
        Event::Roots(vec![cid(ROOT)]),
        Event::Done,
        Event::Done,
        Event::Done,
        Event::Done,
    ];
    let actions = run(session, events);
    assert_eq!(actions[0], "shape default true 10000000 0 1000 network-configured 2");
    assert_eq!(actions[1], "interfaces");
    assert_eq!(actions[2], "import /fixtures/10MiB.car");
    assert_eq!(actions[7], "finish");

    let session = Session::begin(Plan::KrakensyncShaped, 1, 2, &shaped());
    let events = vec![
        Event::Done,
        eth1(),
        Event::Done,
        Event::Done,
        announced("16.0.0.2:31131", Some(ROOT)),
        Event::Done,
        Event::Done,
        Event::Done,
        Event::Updated(5),
        Event::NoUpdate(6),
        Event::Done,
        Event::Done,
    ];
    assert_eq!(
        run(session, events)[7..].to_vec(),
        vec![
            format!("fetch {}", ROOT),
            "next update".to_string(),
            "next update".to_string(),
            "signal done and wait for 2".to_string(),
            "success".to_string(),
            "finish".to_string(),
        ]
    );
}

#[test]
fn shaped_runs_need_their_settings() {
    let session = begin(Plan::KrakensyncShaped, 1, 2);
    assert!(session.is_over());
    assert_eq!(
        show(session.action()),
        give_up(Failure::Setting(SettingError::Missing(Setting::Latency)))
    );
}

#[test]
fn an_instance_without_an_address_gives_up() {
    let none = Event::Interfaces(Vec::new());
    assert_eq!(
        last(begin(Plan::Tcp, 1, 2), vec![none]),
        give_up(Failure::Address(AddressError::NoDataInterface))
    );
    let six = Event::Interfaces(vec![Interface { name: "eth1".to_string(), ip: IpAddress::V6 }]);
    assert_eq!(
        last(begin(Plan::Quic, 1, 2), vec![six]),
        give_up(Failure::Address(AddressError::Ipv6Unsupported))
    );
}

#[test]
fn an_archive_has_one_root() {
    for roots in [vec![], vec![cid(ROOT), cid(OLD_ROOT)]] {
        assert_eq!(
            last(begin(Plan::Krakensync, 2, 2), vec![eth1(), Event::Roots(roots)]),
            give_up(Failure::Roots)
        );
    }
}

#[test]
fn an_announcement_has_an_address_and_where_needed_content() {
    let nothing = Event::Announced("{}".parse().unwrap());
    assert_eq!(last(begin(Plan::Tcp, 2, 2), vec![Event::Done, nothing]), give_up(Failure::Announcement));
    let no_content = announced("16.0.0.2:31131", None);
    assert_eq!(
        last(begin(Plan::Krakensync, 1, 2), vec![eth1(), Event::Done, Event::Done, no_content]),
        give_up(Failure::Announcement)
    );
    let no_address = Event::Announced("{\"Cid\":\"x\"}".parse().unwrap());
    assert_eq!(
        last(begin(Plan::Krakensync, 1, 2), vec![eth1(), Event::Done, Event::Done, no_address]),
        give_up(Failure::Announcement)
    );
}

#[test]
fn announced_content_has_to_be_identified() {
    let texts = ["no such thing", "", "b", "Qm", "bafy", "bafyreib", "zzz", "bae", "QmQQ"];
    for text in texts {
        let events = vec![
            eth1(),
            Event::Done,
            Event::Done,
            announced("16.0.0.2:31131", Some(text)),
            Event::Done,
            Event::Done,
        ];
        let error = text.parse::<cid::Cid>().unwrap_err();
        assert_eq!(
            last(begin(Plan::Krakensync, 1, 2), events),
            format!("give up Cid: {}", error)
        );
    }
}

#[test]
fn a_read_identifier_is_fetched_next() {
    let ready = || {
        begin(Plan::Krakensync, 1, 2)
            .handle(eth1())
            .handle(Event::Done)
            .handle(Event::Done)
            .handle(announced("16.0.0.2:31131", Some(ROOT)))
            .handle(Event::Done)
    };
    let session = ready().fetching_read(Ok(cid(OLD_ROOT)));
    assert_eq!(show(session.action()), format!("fetch {}", OLD_ROOT));
    let session = session.fetching_read(Ok(cid(ROOT)));
    assert_eq!(show(session.action()), "signal done and wait for 2");
    let session = ready().fetching_read(Err("unreadable".to_string()));
    assert_eq!(show(session.action()), "give up Cid: unreadable");
}

#[test]
fn a_failed_step_ends_the_run() {
    let mut session = begin(Plan::Tcp, 1, 2);
    session = session.handle(eth1()).handle(Event::Failed);
    assert!(session.is_over());
    assert_eq!(show(session.action()), give_up(Failure::Step));
    session = session.handle(Event::Done);
    assert_eq!(show(session.action()), give_up(Failure::Step));
}

#[test]
fn a_finished_run_stays_finished() {
    let mut session = begin(Plan::Tcp, 1, 2);
    session = session.handle(eth1());
    for _ in 0..5 {
        assert!(!session.is_over());
        session = session.handle(Event::Done);
    }
    assert!(session.is_over());
    assert_eq!(show(session.handle(Event::Failed).action()), "finish");
}

#[test]
fn outcomes_come_in_turn() {
    assert_eq!(last(begin(Plan::Tcp, 1, 2), vec![Event::Done]), give_up(Failure::OutOfTurn));
    assert_eq!(last(begin(Plan::Tcp, 2, 2), vec![eth1()]), give_up(Failure::OutOfTurn));
    assert_eq!(
        last(begin(Plan::Tcp, 2, 2), vec![Event::Done, Event::Updated(1)]),
        give_up(Failure::OutOfTurn)
    );
}

#[test]
fn listeners_stop_after_the_last_dialer_is_done() {
    // Two listeners and two dialers, each a step at a time in turn; a wait
    // returns once all four have come to signal.
    let mut sessions: Vec<Option<Session>> =
        (1..=4).map(|seq| Some(begin(Plan::Quic, seq, 4))).collect();
    let mut published: Vec<serde_json::Value> = Vec::new();
    let mut read = [0usize; 4];
    let mut signalled = [0usize; 4];
    let mut stopped = 0;
    let mut dialed = 0;
    for _ in 0..100 {
        for i in 0..4 {
            let session = sessions[i].take().unwrap();
            let event = match session.action() {
                Action::ListInterfaces => Some(eth1()),
                Action::Publish(_, payload) => {
                    published.push(payload);
                    Some(Event::Done)
                }
                Action::NextAnnouncement => {
                    let next = published.get(read[i]).cloned().map(Event::Announced);
                    read[i] += if next.is_some() { 1 } else { 0 };
                    next
                }
                Action::Dial(_, _) => {
                    assert_eq!(stopped, 0);
                    dialed += 1;
                    Some(Event::Done)
                }
                Action::SignalAndWait(state, target) => {
                    assert_eq!((state.as_str(), target), ("done", 4));
                    signalled[i] = 1;
                    if signalled.iter().sum::<usize>() == 4 {
                        Some(Event::Done)
                    } else {
                        None
                    }
                }
                Action::StopListening => {
                    assert_eq!((signalled, dialed), ([1; 4], 4));
                    stopped += 1;
                    Some(Event::Done)
                }
                Action::GiveUp(failure, _) => panic!("{:?}", failure),
                _ => Some(Event::Done),
            };
            sessions[i] = Some(match event {
                Some(event) => session.handle(event),
                None => session,
            });
        }
    }
    for session in sessions {
        assert_eq!(show(session.unwrap().action()), "finish");
    }
    assert_eq!((stopped, dialed), (2, 4));
}

#[test]
fn a_subscription_may_end_early() {
    let events = vec![
        Event::Done,
        announced("16.0.0.1:1234", None),
        Event::Done,
        Event::NoAnnouncement,
        Event::Done,
    ];
    assert_eq!(last(begin(Plan::Tcp, 2, 6), events), "signal done");
}

#[test]
fn a_lone_dialer_dials_nobody() {
    let actions = run(begin(Plan::Tcp, 2, 1), vec![Event::Done, Event::Done, Event::Done]);
    assert_eq!(actions, vec!["subscribe server 0", "unsubscribe", "signal done", "success"]);
}

#[test]
fn what_a_listener_publishes_makes_a_dialer_come_and_fetch() {
    let listener = begin(Plan::Krakensync, 2, 2)
        .handle(eth1())
        .handle(Event::Roots(vec![cid(ROOT)]))
        .handle(Event::Done);
    let payload = match listener.action() {
        Action::Publish(_, payload) => payload,
        _ => panic!("nothing published"),
    };
    let mut dialer = begin(Plan::Krakensync, 1, 2)
        .handle(eth1())
        .handle(Event::Done)
        .handle(Event::Done)
        .handle(Event::Announced(payload));
    assert_eq!(show(dialer.action()), "dial 16.0.0.9:31131");
    dialer = dialer.handle(Event::Done).handle(Event::Done);
    match dialer.action() {
        Action::Fetch(fetched) => assert_eq!(fetched, cid(ROOT)),
        _ => panic!("nothing fetched"),
    }
}
