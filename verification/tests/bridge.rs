use chat::bridge::Bridge;
use chat::frame::InboundFrame;
use chat::listener::Listener;
use chat::listener::ReceiveError;

fn text(s: &str) -> Result<InboundFrame, ReceiveError> {
    Ok(InboundFrame::Text(String::from(s)))
}

fn shown(bridge: &Bridge, index: usize) -> String {
    bridge.view_at(index).unwrap().render()
}

#[test]
fn a_new_bridge_is_empty() {
    let bridge = Bridge::new();
    assert_eq!(bridge.view_count(), 0);
    assert_eq!(bridge.pending(), 0);
    assert_eq!(bridge.model().current_text(), None);
    assert!(bridge.view_at(0).is_none());
}

#[test]
fn the_last_of_a_burst_of_texts_is_displayed() {
    let mut bridge = Bridge::new();
    let mut listener = Listener::new(100);
    assert_eq!(bridge.open_view(), 0);
    assert!(bridge.receive(&mut listener, vec![text("one"), text("two"), text("three")]));
    assert_eq!(bridge.pending(), 3);
    assert_eq!(bridge.run_pending(), 3);
    assert_eq!(bridge.model().current_text(), Some(&String::from("three")));
    assert_eq!(shown(&bridge, 0), "Message, three!");
}

#[test]
fn the_last_of_spaced_texts_is_displayed() {
    let mut bridge = Bridge::new();
    let mut listener = Listener::new(100);
    bridge.open_view();
    for payload in ["one", "two", "three"] {
        assert!(bridge.receive(&mut listener, vec![text(payload)]));
        assert_eq!(bridge.run_pending(), 1);
        assert_eq!(shown(&bridge, 0), format!("Message, {}!", payload));
    }
    assert_eq!(bridge.model().current_text(), Some(&String::from("three")));
    assert_eq!(shown(&bridge, 0), "Message, three!");
}

#[test]
fn receiving_touches_neither_the_model_nor_the_views() {
    let mut bridge = Bridge::new();
    let mut listener = Listener::new(100);
    bridge.open_view();
    assert_eq!(bridge.render(), vec![Some(String::from("Message, !"))]);
    assert!(bridge.receive(&mut listener, vec![text("one"), text("two")]));
    bridge.forward(String::from("three"));
    assert_eq!(bridge.model().current_text(), None);
    assert_eq!(shown(&bridge, 0), "Message, !");
    assert!(!bridge.view_at(0).unwrap().needs_redraw());
    assert_eq!(bridge.pending(), 3);
    assert!(bridge.run_next());
    assert_eq!(bridge.model().current_text(), Some(&String::from("one")));
    assert_eq!(shown(&bridge, 0), "Message, one!");
    assert!(bridge.run_next());
    assert!(bridge.run_next());
    assert!(!bridge.run_next());
    assert_eq!(bridge.model().current_text(), Some(&String::from("three")));
}

#[test]
fn a_close_frame_ends_the_loop_and_the_last_text_stays() {
    let mut bridge = Bridge::new();
    let mut listener = Listener::new(100);
    bridge.open_view();
    let frames = vec![
        text("first"),
        Ok(InboundFrame::Ping(Vec::new())),
        text("last"),
        Ok(InboundFrame::Binary(vec![1])),
        Ok(InboundFrame::Close(None)),
    ];
    assert!(!bridge.receive(&mut listener, frames));
    assert_eq!(listener.outcome(), Some(Ok(())));
    assert_eq!(bridge.run_pending(), 2);
    assert_eq!(bridge.model().current_text(), Some(&String::from("last")));
    assert_eq!(shown(&bridge, 0), "Message, last!");
    assert!(!bridge.receive(&mut listener, vec![text("too late")]));
    assert_eq!(bridge.run_pending(), 0);
    assert_eq!(bridge.model().current_text(), Some(&String::from("last")));
}

#[test]
fn a_close_frame_alone_changes_nothing() {
    let mut bridge = Bridge::new();
    let mut listener = Listener::new(100);
    bridge.open_view();
    assert!(!bridge.receive(&mut listener, vec![Ok(InboundFrame::Close(None))]));
    assert_eq!(listener.outcome(), Some(Ok(())));
    assert_eq!(bridge.run_pending(), 0);
    assert_eq!(bridge.model().current_text(), None);
    assert_eq!(shown(&bridge, 0), "Message, !");
}

#[test]
fn a_failure_ends_the_loop_and_the_text_stops_changing() {
    let mut bridge = Bridge::new();
    let mut listener = Listener::new(100);
    bridge.open_view();
    assert!(!bridge.receive(&mut listener, vec![text("seen"), Err(ReceiveError::Io), text("unseen")]));
    assert_eq!(listener.outcome(), Some(Err(ReceiveError::Io)));
    assert_eq!(bridge.run_pending(), 1);
    assert_eq!(shown(&bridge, 0), "Message, seen!");
}

#[test]
fn a_render_step_draws_each_dirty_view_once() {
    let mut bridge = Bridge::new();
    bridge.open_view();
    bridge.open_view();
    assert_eq!(
        bridge.render(),
        vec![Some(String::from("Message, !")), Some(String::from("Message, !"))]
    );
    assert_eq!(bridge.render(), vec![None, None]);
    bridge.forward(String::from("a"));
    bridge.forward(String::from("b"));
    bridge.forward(String::from("c"));
    assert_eq!(bridge.run_pending(), 3);
    assert_eq!(
        bridge.render(),
        vec![Some(String::from("Message, c!")), Some(String::from("Message, c!"))]
    );
    assert_eq!(bridge.render(), vec![None, None]);
}

#[test]
fn a_closed_view_is_gone_and_the_others_go_on() {
    let mut bridge = Bridge::new();
    bridge.open_view();
    bridge.open_view();
    bridge.forward(String::from("both"));
    bridge.run_pending();
    assert!(bridge.close_view(0));
    assert_eq!(bridge.view_count(), 1);
    assert_eq!(bridge.model().subscriber_count(), 1);
    assert!(bridge.view_at(0).unwrap().subscribed_as(1));
    bridge.forward(String::from("one left"));
    assert_eq!(bridge.run_pending(), 1);
    assert_eq!(shown(&bridge, 0), "Message, one left!");
    assert!(!bridge.close_view(1));
    assert!(bridge.close_view(0));
    assert_eq!(bridge.view_count(), 0);
    assert_eq!(bridge.model().subscriber_count(), 0);
    bridge.forward(String::from("nobody"));
    assert_eq!(bridge.run_pending(), 1);
    assert_eq!(bridge.model().current_text(), Some(&String::from("nobody")));
    assert_eq!(bridge.render(), Vec::<Option<String>>::new());
}

#[test]
fn a_view_opened_later_sees_only_later_texts() {
    let mut bridge = Bridge::new();
    bridge.forward(String::from("early"));
    bridge.run_pending();
    assert_eq!(bridge.open_view(), 0);
    assert_eq!(shown(&bridge, 0), "Message, !");
    bridge.forward(String::from("late"));
    bridge.run_pending();
    assert_eq!(shown(&bridge, 0), "Message, late!");
}
