use std::{
    future::Future,
    pin::Pin,
    sync::{
        mpsc::{channel, Sender},
        Arc, Condvar, Mutex,
    },
    task::{Context, Poll, Wake, Waker},
    time::Duration,
};

use futures::executor::ThreadPool;
use posh::block_on::{block_on_step, Next};

/// Parks one thread, and lets others unpark it.
struct Parker {
    unparked: Mutex<bool>,
    changed: Condvar,
}

impl Parker {
    fn new() -> Arc<Parker> {
        Arc::new(Parker {
            unparked: Mutex::new(false),
            changed: Condvar::new(),
        })
    }

    fn park(&self) {
        let mut unparked = self.unparked.lock().unwrap();
        while !*unparked {
            unparked = self.changed.wait(unparked).unwrap();
        }
        *unparked = false;
    }

    /// Parks for `dur`, whoever unparks the thread.
    fn sleep(&self, dur: Duration) {
        let unparked = self.unparked.lock().unwrap();
        let _ = self.changed.wait_timeout_while(unparked, dur, |_| true);
    }
}

impl Wake for Parker {
    fn wake(self: Arc<Self>) {
        *self.unparked.lock().unwrap() = true;
        self.changed.notify_all();
    }
}

fn block_on<F: Future>(f: F) -> F::Output {
    let parker = Parker::new();
    let waker = Waker::from(parker.clone());
    let mut cx = Context::from_waker(&waker);
    let mut f = Box::pin(f);
    loop {
        let polled = match f.as_mut().poll(&mut cx) {
            Poll::Ready(output) => Some(output),
            Poll::Pending => None,
        };
        match block_on_step(polled) {
            Next::Return(output) => return output,
            Next::Park => parker.park(),
        }
    }
}

struct TimerState {
    fired: bool,
    waker: Option<Waker>,
}

struct Timer {
    state: Arc<Mutex<TimerState>>,
}

impl Future for Timer {
    type Output = ();

    fn poll(self: Pin<&mut Self>, cx: &mut Context) -> Poll<Self::Output> {
        let mut state = self.state.lock().unwrap();
        if state.fired {
            return Poll::Ready(());
        }

        state.waker = Some(cx.waker().clone());
        Poll::Pending
    }
}

fn start_timer(dur: Duration, notify: Option<Sender<()>>) -> Timer {
    let state = Arc::new(Mutex::new(TimerState {
        fired: false,
        waker: None,
    }));

    let thread_state = Arc::clone(&state);
    let pool = ThreadPool::builder().pool_size(1).create().unwrap();
    pool.spawn_ok(async move {
        Parker::new().sleep(dur);
        let mut ts = thread_state.lock().unwrap();
        ts.fired = true;
        if let Some(waker) = ts.waker.take() {
            waker.wake();
        }
        drop(ts);

        if let Some(tx) = notify {
            tx.send(()).expect("Failed to send completion notification");
        }
    });

    Timer { state }
}

#[test]
fn it_works() {
    block_on(start_timer(Duration::from_millis(100), None));
}

#[test]
fn nested() {
    async fn inner() {
        block_on(start_timer(Duration::from_millis(100), None));
    }

    block_on(inner());
}

#[test]
fn ready_before_poll() {
    let (tx, rx) = channel();

    let timer = start_timer(Duration::from_millis(50), Some(tx));

    rx.recv()
        .expect("Failed to receive completion notification");

    // We know the timer has already fired so the poll should complete immediately.
    block_on(timer);
}

#[test]
fn returns_what_the_future_gives() {
    assert!(matches!(block_on_step(Some(7u8)), Next::Return(7)));
    assert_eq!(block_on(async { 41 + 1 }), 42);
}

#[test]
fn parks_while_the_future_is_pending() {
    assert!(matches!(block_on_step::<u8>(None), Next::Park));
}

#[test]
fn parks_once_for_each_pending_poll() {
    let mut parks = 0;
    let mut output = None;
    for polled in [None, None, Some('x'), Some('y')] {
        match block_on_step(polled) {
            Next::Return(c) => {
                output = Some(c);
                break;
            }
            Next::Park => parks += 1,
        }
    }
    assert_eq!((parks, output), (2, Some('x')));
}
