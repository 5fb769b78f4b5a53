use sprite_engine::{JobQueue, MakeTransparent};
use sprite_engine::queue::JobRequest;

type Queue = JobQueue<MakeTransparent>;

fn white_pixel() -> Vec<u8> {
    vec![255, 255, 255, 255]
}

#[test]
fn tokens_are_distinct_and_strictly_increasing() {
    let mut queue = Queue::new();
    let mut ids = Vec::new();
    for i in 0..8 {
        let token = if i % 2 == 0 {
            queue.load_texture_from_rgba(white_pixel(), 1, 1, Vec::new())
        } else {
            queue.load_texture_from_file(format!("sprite_{}.png", i), Vec::new())
        };
        ids.push(token.id());
    }
    for i in 1..ids.len() {
        assert!(ids[i - 1] < ids[i]);
    }
    for i in 0..ids.len() {
        for j in 0..i {
            assert_ne!(ids[i], ids[j]);
        }
    }
}

#[test]
fn mismatched_rgba_buffer_is_rejected_before_any_work() {
    let mut queue = Queue::new();
    // 3 bytes cannot be a 1x1 RGBA texture.
    let rejected = queue.try_load_texture_from_rgba(vec![0, 0, 0], 1, 1, Vec::new());
    assert!(rejected.is_none());
    // Nothing was dispatched and no token was consumed.
    assert!(queue.take_next().is_none());
    let accepted = queue.try_load_texture_from_rgba(white_pixel(), 1, 1, Vec::new());
    assert_eq!(accepted.unwrap().id(), 0);
}

#[test]
fn requests_leave_the_queue_in_submission_order() {
    let mut queue = Queue::new();
    let t0 = queue.load_texture_from_rgba(white_pixel(), 1, 1, Vec::new());
    let t1 = queue.load_texture_from_file(String::from("a.png"), Vec::new());
    let t2 = queue.load_texture_from_rgba(vec![0; 16], 2, 2, Vec::new());
    let mut order = Vec::new();
    while let Some(request) = queue.take_next() {
        match request {
            JobRequest::LoadTextureFromRgba { token, .. } => order.push(token),
            JobRequest::LoadTextureFromFile { token, .. } => order.push(token),
            JobRequest::Quit => panic!("no shutdown was requested"),
        }
    }
    assert_eq!(order, vec![t0, t1, t2]);
}

#[test]
fn quit_is_terminal_and_drops_later_submissions() {
    let mut queue = Queue::new();
    let before = queue.load_texture_from_rgba(white_pixel(), 1, 1, Vec::new());
    queue.quit();
    let after = queue.load_texture_from_rgba(white_pixel(), 1, 1, Vec::new());
    // A token is still issued, but the request is dropped.
    assert!(before.id() < after.id());
    let first = queue.take_next();
    assert!(matches!(first, Some(JobRequest::LoadTextureFromRgba { .. })));
    let second = queue.take_next();
    assert!(matches!(second, Some(JobRequest::Quit)));
    assert!(queue.take_next().is_none());
}

#[test]
fn request_payload_is_carried_unchanged() {
    let mut queue = Queue::new();
    let token = queue.load_texture_from_rgba(vec![1, 2, 3, 4], 1, 1, vec![MakeTransparent(9, 8, 7)]);
    match queue.take_next() {
        Some(JobRequest::LoadTextureFromRgba { token: t, rgba, width, height, processors }) => {
            assert_eq!(t, token);
            assert_eq!(rgba, vec![1, 2, 3, 4]);
            assert_eq!(width, 1);
            assert_eq!(height, 1);
            assert_eq!(processors.len(), 1);
            let MakeTransparent(r, g, b) = &processors[0];
            assert_eq!((*r, *g, *b), (9, 8, 7));
        }
        other => panic!("unexpected request: {:?}", other.is_some()),
    }
}
