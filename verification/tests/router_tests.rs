use awesome_bot::event::{Event, EventKind, GeneralSound};
use awesome_bot::router::{Firing, Invocation, Route, Router};

fn event(kind: EventKind) -> Event {
    Event {
        chat_id: 10,
        sender_id: 20,
        message_id: 30,
        date: 40,
        kind,
    }
}

fn text_event(text: &str) -> Event {
    event(EventKind::Text(text.to_string()))
}

#[test]
fn two_matching_text_routes_both_fire() {
    let mut router: Router<i32> = Router::new("usernamebot");
    router.simple_regex("ello", 1);
    router.simple_regex("Hello", 2);
    let plan = router.plan(&text_event("Hello"));
    assert_eq!(
        plan,
        vec![
            Invocation {
                route: 0,
                firing: Firing::Text(String::from("Hello")),
            },
            Invocation {
                route: 1,
                firing: Firing::Text(String::from("Hello")),
            },
        ]
    );
}

#[test]
fn observer_and_photo_route_fire_once_each_observer_first() {
    let mut router: Router<i32> = Router::new("usernamebot");
    router.photo_fn(1);
    router.any_fn(2);
    let plan = router.plan(&event(EventKind::Photo));
    assert_eq!(
        plan,
        vec![
            Invocation {
                route: 1,
                firing: Firing::Observe,
            },
            Invocation {
                route: 0,
                firing: Firing::Payload,
            },
        ]
    );
}

#[test]
fn invalid_free_regex_leaves_registry_unchanged() {
    let mut router: Router<i32> = Router::new("usernamebot");
    router.regex("(", 1);
    assert_eq!(router.route_count(), 0);
    router.simple_regex("(", 2);
    assert_eq!(router.route_count(), 0);
}

#[test]
fn invalid_compiled_command_leaves_registry_unchanged() {
    let mut router: Router<i32> = Router::new("usernamebot");
    router.command("test(", 1);
    assert_eq!(router.route_count(), 0);
    router.simple_command("test(", 2);
    assert_eq!(router.route_count(), 0);
    router.command("test", 3);
    assert_eq!(router.route_count(), 1);
}

#[test]
fn command_plan_carries_text_and_captures() {
    let mut router: Router<i32> = Router::new("rock");
    router.command("echo (.+)", 7);
    let plan = router.plan(&text_event("/echo hello"));
    assert_eq!(
        plan,
        vec![Invocation {
            route: 0,
            firing: Firing::Captures(
                String::from("/echo hello"),
                vec![String::from("/echo hello"), String::from("hello")],
            ),
        }]
    );
}

#[test]
fn missing_capture_group_becomes_empty_string() {
    let mut router: Router<i32> = Router::new("usernamebot");
    router.regex("(a)|(b)", 1);
    let plan = router.plan(&text_event("b"));
    assert_eq!(
        plan,
        vec![Invocation {
            route: 0,
            firing: Firing::Captures(
                String::from("b"),
                vec![String::from("b"), String::new(), String::from("b")],
            ),
        }]
    );
}

#[test]
fn non_matching_text_routes_stay_silent() {
    let mut router: Router<i32> = Router::new("usernamebot");
    router.command("start", 1);
    router.simple_regex("bye", 2);
    let plan = router.plan(&text_event("hello there"));
    assert_eq!(plan, vec![]);
}

#[test]
fn media_routes_fire_only_for_their_category() {
    let mut router: Router<i32> = Router::new("usernamebot");
    router.photo_fn(1);
    router.video_fn(2);
    router.document_fn(3);
    router.sticker_fn(4);
    router.contact_fn(5);
    router.location_fn(6);
    router.new_participant_fn(7);
    router.left_participant_fn(8);
    router.new_title_fn(9);
    router.new_chat_photo_fn(10);
    router.delete_chat_photo_fn(11);
    router.group_chat_created_fn(12);
    let plan = router.plan(&event(EventKind::Sticker));
    assert_eq!(
        plan,
        vec![Invocation {
            route: 3,
            firing: Firing::Payload,
        }]
    );
    let plan = router.plan(&event(EventKind::GroupChatCreated));
    assert_eq!(
        plan,
        vec![Invocation {
            route: 11,
            firing: Firing::Payload,
        }]
    );
}

#[test]
fn audio_fires_audio_route_and_tagged_any_sound_route() {
    let mut router: Router<i32> = Router::new("usernamebot");
    router.audio_fn(1);
    router.voice_fn(2);
    router.all_music_fn(3);
    let plan = router.plan(&event(EventKind::Audio));
    assert_eq!(
        plan,
        vec![
            Invocation {
                route: 0,
                firing: Firing::Payload,
            },
            Invocation {
                route: 2,
                firing: Firing::Sound(GeneralSound::Audio),
            },
        ]
    );
    let plan = router.plan(&event(EventKind::Voice));
    assert_eq!(
        plan,
        vec![
            Invocation {
                route: 1,
                firing: Firing::Payload,
            },
            Invocation {
                route: 2,
                firing: Firing::Sound(GeneralSound::Voice),
            },
        ]
    );
}

#[test]
fn registered_routes_keep_registration_order_and_handlers() {
    let mut router: Router<&'static str> = Router::new("usernamebot");
    router.any_fn("log");
    router.command("start", "start-handler");
    router.photo_fn("photo-handler");
    assert_eq!(router.route_count(), 3);
    assert!(matches!(router.route_at(0), Route::Observer(h) if *h == "log"));
    assert!(matches!(router.route_at(1), Route::Pattern(_, h) if *h == "start-handler"));
    assert!(matches!(router.route_at(2), Route::Photo(h) if *h == "photo-handler"));
    assert_eq!(router.username().as_str(), "usernamebot");
}

#[test]
fn observers_fire_for_every_category() {
    let mut router: Router<i32> = Router::new("usernamebot");
    router.any_fn(1);
    for kind in [
        EventKind::Text(String::from("hi")),
        EventKind::Photo,
        EventKind::Video,
        EventKind::Document,
        EventKind::Sticker,
        EventKind::Audio,
        EventKind::Voice,
        EventKind::Contact,
        EventKind::Location,
        EventKind::NewParticipant,
        EventKind::LeftParticipant,
        EventKind::NewTitle,
        EventKind::NewChatPhoto,
        EventKind::DeleteChatPhoto,
        EventKind::GroupChatCreated,
    ] {
        let plan = router.plan(&event(kind));
        assert_eq!(plan.len(), 1);
        assert_eq!(plan[0].route, 0);
        assert_eq!(plan[0].firing, Firing::Observe);
    }
}
