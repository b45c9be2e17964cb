use chat::chat::Chat;
use chat::model::Model;
use chat::window::Bounds;
use chat::window::Point;
use chat::window::Size;
use chat::window::WindowKind;
use chat::window::WindowOptions;

fn display(x: i32, y: i32, width: i32, height: i32) -> Bounds {
    Bounds { origin: Point { x, y }, size: Size { width, height } }
}

#[test]
fn a_new_model_has_no_text_and_no_subscriber() {
    let model = Chat::build_model();
    assert_eq!(model.current_text(), None);
    assert_eq!(model.subscriber_count(), 0);
}

#[test]
fn a_new_view_subscribes_and_draws_the_empty_text() {
    let mut model = Chat::build_model();
    let mut view = Chat::build_view(&mut model);
    assert_eq!(model.subscriber_count(), 1);
    assert!(view.subscribed_as(0));
    assert_eq!(view.render(), "Message, !");
    assert!(view.needs_redraw());
    assert_eq!(view.redraw(), Some(String::from("Message, !")));
    assert_eq!(view.redraw(), None);
}

#[test]
fn a_notified_view_draws_the_text() {
    let mut model = Chat::build_model();
    let mut view = Chat::build_view(&mut model);
    assert!(view.redraw().is_some());
    view.notify(&String::from("hello"));
    assert!(view.needs_redraw());
    assert_eq!(view.render(), "Message, hello!");
    assert_eq!(view.render(), "Message, hello!");
    assert!(view.needs_redraw());
}

#[test]
fn redraw_requests_collapse_into_one_render() {
    let mut model = Chat::build_model();
    let mut view = Chat::build_view(&mut model);
    assert!(view.redraw().is_some());
    assert_eq!(view.redraw(), None);
    view.request_redraw();
    view.request_redraw();
    view.request_redraw();
    assert_eq!(view.redraw(), Some(String::from("Message, !")));
    assert_eq!(view.redraw(), None);
    view.notify(&String::from("a"));
    view.notify(&String::from("b"));
    assert_eq!(view.redraw(), Some(String::from("Message, b!")));
    assert_eq!(view.redraw(), None);
}

#[test]
fn publish_updates_the_model_and_every_subscribed_view() {
    let mut model = Chat::build_model();
    let mut views = vec![Chat::build_view(&mut model), Chat::build_view(&mut model)];
    model.publish(String::from("one"), &mut views);
    assert_eq!(model.current_text(), Some(&String::from("one")));
    assert_eq!(views[0].render(), "Message, one!");
    assert_eq!(views[1].render(), "Message, one!");
    model.publish(String::from("two"), &mut views);
    assert_eq!(model.current_text(), Some(&String::from("two")));
    assert_eq!(views[0].render(), "Message, two!");
    assert_eq!(views[1].render(), "Message, two!");
}

#[test]
fn publish_without_views_only_sets_the_text() {
    let mut model = Chat::build_model();
    let mut views: Vec<Chat> = Vec::new();
    model.publish(String::from("x"), &mut views);
    assert_eq!(model.current_text(), Some(&String::from("x")));
    assert!(views.is_empty());
    assert_eq!(model.subscriber_count(), 0);
}

#[test]
fn a_closed_view_ends_its_subscription() {
    let mut model = Chat::build_model();
    let stays = Chat::build_view(&mut model);
    let goes = Chat::build_view(&mut model);
    assert_eq!(model.subscriber_count(), 2);
    assert_eq!(model.issued(), 2);
    assert!(goes.close(&mut model));
    assert_eq!(model.issued(), 2);
    assert_eq!(model.subscriber_count(), 1);
    let mut views = vec![stays];
    model.publish(String::from("after"), &mut views);
    assert_eq!(views[0].render(), "Message, after!");
    let last = views.pop().unwrap();
    assert!(last.close(&mut model));
    assert_eq!(model.subscriber_count(), 0);
    model.publish(String::from("nobody"), &mut views);
    assert_eq!(model.current_text(), Some(&String::from("nobody")));
}

#[test]
fn a_view_whose_subscription_is_not_listed_is_left_alone() {
    let mut watched = Chat::build_model();
    let mut other = Model::new();
    let mut views = vec![Chat::build_view(&mut watched)];
    assert!(views[0].redraw().is_some());
    other.publish(String::from("elsewhere"), &mut views);
    assert_eq!(other.current_text(), Some(&String::from("elsewhere")));
    assert_eq!(views[0].render(), "Message, !");
    assert!(!views[0].needs_redraw());
    assert_eq!(watched.current_text(), None);
}

#[test]
fn the_window_is_centred_on_the_display() {
    let options = Chat::options(display(0, 0, 1920, 1080));
    assert_eq!(
        options,
        WindowOptions {
            bounds: display(560, 315, 800, 450),
            focus: true,
            titlebar: false,
            is_movable: true,
            kind: WindowKind::PopUp,
        }
    );
}

#[test]
fn the_window_is_centred_on_a_display_that_is_not_at_the_origin() {
    let options = Chat::options(display(-1920, 100, 1921, 1081));
    assert_eq!(options.bounds, display(-1920 + 960 - 400, 100 + 540 - 225, 800, 450));
    let small = Chat::options(display(10, 20, 100, 50));
    assert_eq!(small.bounds, display(10 + 50 - 400, 20 + 25 - 225, 800, 450));
}

#[test]
fn halving_rounds_towards_zero() {
    let options = Chat::options(display(0, 0, -3, -1));
    assert_eq!(options.bounds.origin, Point { x: -1 - 400, y: -225 });
}

#[test]
fn a_display_at_the_edge_of_the_pixel_range_cannot_hold_the_window() {
    assert!(display(0, 0, 1920, 1080).can_place());
    assert!(!display(i32::MIN, 0, 0, 0).can_place());
    assert!(!display(0, i32::MIN + 224, 0, 0).can_place());
    assert!(display(i32::MIN + 400, i32::MIN + 225, 0, 0).can_place());
    assert_eq!(
        display(i32::MIN + 400, i32::MIN + 225, 0, 0).place(),
        display(i32::MIN, i32::MIN, 800, 450)
    );
    assert!(display(i32::MAX, i32::MAX, i32::MAX, i32::MAX).can_place() == false);
}
