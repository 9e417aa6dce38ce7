use std::sync::atomic::{AtomicUsize, Ordering};
use std::sync::Arc;
use std::time::{Duration, Instant};

use awesome_bot::event::{Event, EventKind};
use awesome_bot::router::{Route, Router};
use scoped_threadpool::Pool;

type Handler = Arc<dyn Fn(&Event) -> Result<(), String> + Send + Sync>;

fn event(kind: EventKind) -> Event {
    Event {
        chat_id: 10,
        sender_id: 20,
        message_id: 30,
        date: 40,
        kind,
    }
}

fn text_event(text: &str) -> Event {
    event(EventKind::Text(text.to_string()))
}

/// Executes one event's dispatch as the embedding application does: plan
/// the invocations, then run each handler, collecting failures instead of
/// letting one abort the rest.
fn dispatch(router: &Router<Handler>, ev: &Event) -> Vec<Result<(), String>> {
    let plan = router.plan(ev);
    let mut results = Vec::new();
    for inv in &plan {
        let handler: &Handler = match router.route_at(inv.route) {
            Route::Pattern(_, h) | Route::SimpleText(_, h) => h,
            Route::Photo(h)
            | Route::Video(h)
            | Route::Document(h)
            | Route::Sticker(h)
            | Route::Audio(h)
            | Route::Voice(h)
            | Route::AnySound(h)
            | Route::Contact(h)
            | Route::Location(h)
            | Route::NewParticipant(h)
            | Route::LeftParticipant(h)
            | Route::NewTitle(h)
            | Route::NewChatPhoto(h)
            | Route::DeleteChatPhoto(h)
            | Route::GroupChatCreated(h)
            | Route::Observer(h) => h,
        };
        results.push(handler(ev));
    }
    results
}

#[test]
fn pool_runs_at_most_worker_count_dispatches_concurrently() {
    let mut router: Router<Handler> = Router::new("usernamebot");
    let current = Arc::new(AtomicUsize::new(0));
    let max_seen = Arc::new(AtomicUsize::new(0));
    let completed = Arc::new(AtomicUsize::new(0));
    {
        let current = Arc::clone(&current);
        let max_seen = Arc::clone(&max_seen);
        let completed = Arc::clone(&completed);
        router.any_fn(Arc::new(move |_ev: &Event| {
            let now = current.fetch_add(1, Ordering::SeqCst) + 1;
            max_seen.fetch_max(now, Ordering::SeqCst);
            let start = Instant::now();
            while start.elapsed() < Duration::from_millis(60) {
                // the handler blocks its worker until released by time
            }
            current.fetch_sub(1, Ordering::SeqCst);
            completed.fetch_add(1, Ordering::SeqCst);
            Ok(())
        }) as Handler);
    }
    let mut pool = Pool::new(2);
    pool.scoped(|scope| {
        for _ in 0..5 {
            let router = &router;
            scope.execute(move || {
                for result in dispatch(router, &event(EventKind::Photo)) {
                    let _ = result;
                }
            });
        }
        scope.join_all();
    });
    assert_eq!(completed.load(Ordering::SeqCst), 5);
    assert!(max_seen.load(Ordering::SeqCst) >= 1);
    assert!(max_seen.load(Ordering::SeqCst) <= 2);
}

#[test]
fn failing_handler_does_not_prevent_other_dispatches() {
    let mut router: Router<Handler> = Router::new("usernamebot");
    let failures = Arc::new(AtomicUsize::new(0));
    let ok_runs = Arc::new(AtomicUsize::new(0));
    {
        let failures = Arc::clone(&failures);
        router.simple_regex("boom", Arc::new(move |_ev: &Event| {
            failures.fetch_add(1, Ordering::SeqCst);
            Err(String::from("handler failed"))
        }) as Handler);
    }
    {
        let ok_runs = Arc::clone(&ok_runs);
        router.simple_regex("fine", Arc::new(move |_ev: &Event| {
            ok_runs.fetch_add(1, Ordering::SeqCst);
            Ok(())
        }) as Handler);
    }
    let mut pool = Pool::new(2);
    pool.scoped(|scope| {
        let first = &router;
        scope.execute(move || {
            let results = dispatch(first, &text_event("boom"));
            assert_eq!(results.len(), 1);
            assert!(results[0].is_err());
        });
        let second = &router;
        scope.execute(move || {
            let results = dispatch(second, &text_event("fine"));
            assert_eq!(results.len(), 1);
            assert!(results[0].is_ok());
        });
        scope.join_all();
    });
    assert_eq!(failures.load(Ordering::SeqCst), 1);
    assert_eq!(ok_runs.load(Ordering::SeqCst), 1);
}

#[test]
fn failed_dispatch_does_not_block_later_submissions() {
    let mut router: Router<Handler> = Router::new("usernamebot");
    let ok_runs = Arc::new(AtomicUsize::new(0));
    {
        router.simple_regex("boom", Arc::new(move |_ev: &Event| {
            Err(String::from("handler failed"))
        }) as Handler);
    }
    {
        let ok_runs = Arc::clone(&ok_runs);
        router.simple_regex("fine", Arc::new(move |_ev: &Event| {
            ok_runs.fetch_add(1, Ordering::SeqCst);
            Ok(())
        }) as Handler);
    }
    let mut pool = Pool::new(1);
    pool.scoped(|scope| {
        let r = &router;
        scope.execute(move || {
            for result in dispatch(r, &text_event("boom")) {
                let _ = result;
            }
        });
        scope.join_all();
    });
    pool.scoped(|scope| {
        let r = &router;
        scope.execute(move || {
            for result in dispatch(r, &text_event("fine")) {
                assert!(result.is_ok());
            }
        });
        scope.join_all();
    });
    assert_eq!(ok_runs.load(Ordering::SeqCst), 1);
}
