use rust_in_action::cubesat::{fetch_satellite_ids, CubeSat, GroundStation, MailBox, StatusMessage};

#[test]
fn post_numbers_messages() {
    let mut mb = MailBox::new();
    mb.post(1, "a".to_string());
    mb.post(2, "b".to_string());
    assert_eq!(mb.len(), 2);
    assert_eq!(mb.sent_count, 2);
    assert_eq!(mb.messages[0].id, 0);
    assert_eq!(mb.messages[1].id, 1);
    assert_eq!(mb.messages[1].to, 2);
}

#[test]
fn deliver_partitions_in_order() {
    let mut mb = MailBox::new();
    mb.post(1, "a".to_string());
    mb.post(2, "b".to_string());
    mb.post(1, "c".to_string());
    let got = mb.deliver(1);
    let texts: Vec<&str> = got.iter().map(|m| m.message.as_str()).collect();
    assert_eq!(texts, vec!["a", "c"]);
    assert_eq!(mb.len(), 1);
    assert_eq!(mb.messages[0].message, "b");
    assert_eq!(mb.sent_count, 3);
    assert!(mb.deliver(7).is_empty());
    assert_eq!(mb.len(), 1);
}

#[test]
fn store_bulk_appends() {
    let mut mb = MailBox::new();
    mb.post(1, "a".to_string());
    let mut other = MailBox::new();
    other.post(2, "b".to_string());
    let mut msgs = other.deliver(2);
    mb.store_bulk(&mut msgs);
    assert!(msgs.is_empty());
    assert_eq!(mb.len(), 2);
    assert_eq!(mb.messages[1].message, "b");
}

#[test]
fn ground_station_round_trip() {
    let mut base = GroundStation::new();
    let mut ids = vec![];
    for id in fetch_satellite_ids() {
        ids.push(base.connect(id));
    }
    assert_eq!(ids, vec![1, 2, 3]);
    for id in &ids {
        base.send(*id, format!("hello {}", id));
    }
    base.send(2, "again".to_string());
    let mut mailbox = base.mailbox;
    let mut counts = vec![];
    for mut sat in base.live_satellites {
        sat.recv(&mut mailbox);
        counts.push(sat.unread_messages());
        if sat.id == 2 {
            let taken = sat.take_messages();
            assert_eq!(taken[0].message, "again");
            assert_eq!(taken[1].message, "hello 2");
            assert_eq!(sat.unread_messages(), 0);
        }
    }
    assert_eq!(counts, vec![1, 2, 1]);
    assert_eq!(mailbox.len(), 0);
}

#[test]
fn status_is_ok() {
    let mut sat = CubeSat::new(9);
    assert_eq!(sat.check_status(), StatusMessage::Okay);
    assert_eq!(sat.unread_messages(), 0);
}
