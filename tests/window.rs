use apz::window::SampleWindow;

fn contents(w: &SampleWindow<f32>) -> Vec<f32> {
    w.snapshot_first(w.len()).unwrap()
}

#[test]
fn window_keeps_the_most_recent_samples() {
    for capacity in [0usize, 1, 3, 8] {
        let mut w: SampleWindow<f32> = SampleWindow::new(capacity);
        let mut pushed: Vec<f32> = Vec::new();
        for k in 0..20 {
            let x = k as f32 * 0.5;
            w.push(x);
            pushed.push(x);
            assert!(w.len() <= capacity);
            let keep = pushed.len().min(capacity);
            assert_eq!(contents(&w), pushed[pushed.len() - keep..].to_vec());
        }
    }
}

#[test]
fn window_with_fewer_pushes_than_capacity_holds_them_all() {
    let mut w: SampleWindow<i32> = SampleWindow::new(2048);
    w.push(7);
    w.push(-3);
    assert_eq!(w.len(), 2);
    assert_eq!(w.capacity(), 2048);
    assert_eq!(w.snapshot_first(2), Some(vec![7, -3]));
}

#[test]
fn tap_hands_samples_back_unchanged() {
    let mut w: SampleWindow<f32> = SampleWindow::new(2);
    assert_eq!(w.tap(Some(0.25)), Some(0.25));
    assert_eq!(w.tap(Some(-1.0)), Some(-1.0));
    assert_eq!(w.tap(Some(0.75)), Some(0.75));
    assert_eq!(contents(&w), vec![-1.0, 0.75]);
}

#[test]
fn tap_at_end_of_stream_writes_nothing() {
    let mut w: SampleWindow<f32> = SampleWindow::new(4);
    w.tap(Some(1.0));
    assert_eq!(w.tap(None), None);
    assert_eq!(w.len(), 1);
    assert_eq!(contents(&w), vec![1.0]);
}

#[test]
fn snapshot_with_too_few_samples_is_none() {
    let mut w: SampleWindow<f32> = SampleWindow::new(2048);
    for _ in 0..2047 {
        w.push(0.0);
    }
    assert_eq!(w.snapshot_first(2048), None);
    w.push(1.0);
    let snap = w.snapshot_first(2048).unwrap();
    assert_eq!(snap.len(), 2048);
    assert_eq!(snap[2047], 1.0);
}

#[test]
fn snapshot_takes_the_oldest_samples() {
    let mut w: SampleWindow<u8> = SampleWindow::new(5);
    for x in 1..=7u8 {
        w.push(x);
    }
    assert_eq!(w.snapshot_first(3), Some(vec![3, 4, 5]));
    assert_eq!(w.snapshot_first(0), Some(vec![]));
}
