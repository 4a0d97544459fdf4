use crossbeam::channel::bounded;
use soapy_spec_acc::daq::{
    accept_spectrum, all_positive, average, average_and_forward, averaging_cycle, center,
    forward_averaged, offer, pull_batch, Cycle, Forwarded, Handoff, Meter, PullError,
    REPORT_EVERY,
};
use soapy_spec_acc::display::{request_repaint, smooth, DisplayState, Waterfall};

fn plus(a: f32, b: f32) -> f32 {
    a + b
}

fn mean(total: f32, n: usize) -> f32 {
    total / n as f32
}

fn positive(x: f32) -> bool {
    x > 0.0
}

#[test]
fn centering_rotation_of_eight_channels() {
    let raw: Vec<f32> = vec![0.0, 1.0, 2.0, 3.0, 4.0, 5.0, 6.0, 7.0];
    assert_eq!(center(&raw), vec![4.0, 5.0, 6.0, 7.0, 0.0, 1.0, 2.0, 3.0]);
}

#[test]
fn centering_twice_gives_back_even_spectrum() {
    let raw: Vec<u32> = vec![10, 11, 12, 13, 14, 15];
    assert_eq!(center(&center(&raw)), raw);
}

#[test]
fn centering_odd_and_empty() {
    let raw: Vec<u32> = vec![0, 1, 2, 3, 4];
    assert_eq!(center(&raw), vec![2, 3, 4, 0, 1]);
    let none: Vec<u32> = vec![];
    assert_eq!(center(&none), none);
    assert_eq!(center(&[7u32]), vec![7]);
}

#[test]
fn averaging_two_spectra() {
    let spectra = vec![vec![1.0f32, 2.0, 3.0, 4.0], vec![5.0f32, 6.0, 7.0, 8.0]];
    let out = average(&spectra, 4, 0.0f32, &plus, &mean);
    assert_eq!(out, vec![3.0, 4.0, 5.0, 6.0]);
}

#[test]
fn averaging_one_spectrum_is_that_spectrum() {
    let spectra = vec![vec![1.5f32, 2.5, 0.25]];
    let out = average(&spectra, 3, 0.0f32, &plus, &mean);
    assert_eq!(out, vec![1.5, 2.5, 0.25]);
}

#[test]
fn averaging_adds_in_order_and_hands_count_to_mean() {
    let spectra = vec![vec![1u64, 2], vec![3u64, 4], vec![5u64, 6]];
    let out = average(&spectra, 2, 0u64, &|a: u64, b: u64| a * 10 + b, &|t: u64, n: usize| {
        t * 1000 + n as u64
    });
    assert_eq!(out, vec![135_003, 246_003]);
}

#[test]
fn positivity_guard() {
    assert!(all_positive(&[3.0f32, 4.0, 5.0, 6.0], &positive));
    assert!(!all_positive(&[3.0f32, 0.0, 5.0, 6.0], &positive));
    assert!(!all_positive(&[3.0f32, 4.0, 5.0, -6.0], &positive));
    assert!(!all_positive(&[f32::NAN], &positive));
    let none: Vec<f32> = vec![];
    assert!(all_positive(&none, &positive));
}

#[test]
fn non_positive_spectrum_is_never_forwarded() {
    let (tx, rx) = bounded::<Vec<f32>>(4);
    match forward_averaged(&tx, vec![1.0, 0.0, 2.0], &positive) {
        Forwarded::NotPositive(back) => assert_eq!(back, vec![1.0, 0.0, 2.0]),
        _ => panic!("a spectrum with a zero was forwarded"),
    }
    match forward_averaged(&tx, vec![1.0, -3.0], &positive) {
        Forwarded::NotPositive(back) => assert_eq!(back, vec![1.0, -3.0]),
        _ => panic!("a spectrum with a negative component was forwarded"),
    }
    assert!(rx.try_recv().is_err());
    assert!(matches!(forward_averaged(&tx, vec![1.0, 2.0], &positive), Forwarded::Sent));
    assert_eq!(rx.try_recv().unwrap(), vec![1.0, 2.0]);
}

#[test]
fn positive_spectrum_is_dropped_when_inbox_full() {
    let (tx, rx) = bounded::<Vec<f32>>(1);
    assert!(matches!(forward_averaged(&tx, vec![1.0], &positive), Forwarded::Sent));
    match forward_averaged(&tx, vec![2.0], &positive) {
        Forwarded::Full(back) => assert_eq!(back, vec![2.0]),
        _ => panic!("the second spectrum was not refused"),
    }
    assert_eq!(rx.try_recv().unwrap(), vec![1.0]);
    drop(rx);
    match forward_averaged(&tx, vec![3.0], &positive) {
        Forwarded::Closed(back) => assert_eq!(back, vec![3.0]),
        _ => panic!("a closed inbox took a spectrum"),
    }
}

#[test]
fn lossy_handoff_keeps_first_item_only() {
    let (tx, rx) = bounded::<u32>(1);
    assert!(matches!(offer(&tx, 1), Handoff::Delivered));
    match offer(&tx, 2) {
        Handoff::Full(back) => assert_eq!(back, 2),
        _ => panic!("the second item was not refused"),
    }
    assert_eq!(rx.try_recv().unwrap(), 1);
    assert!(rx.try_recv().is_err());
}

#[test]
fn handoff_keeps_fifo_order_of_what_fits() {
    let (tx, rx) = bounded::<u32>(2);
    assert!(matches!(offer(&tx, 1), Handoff::Delivered));
    assert!(matches!(offer(&tx, 2), Handoff::Delivered));
    assert!(matches!(offer(&tx, 3), Handoff::Full(3)));
    assert_eq!(rx.try_recv().unwrap(), 1);
    assert!(matches!(offer(&tx, 4), Handoff::Delivered));
    assert_eq!(rx.try_recv().unwrap(), 2);
    assert_eq!(rx.try_recv().unwrap(), 4);
}

#[test]
fn handoff_to_closed_inbox_gives_item_back() {
    let (tx, rx) = bounded::<String>(1);
    drop(rx);
    match offer(&tx, "block".to_string()) {
        Handoff::Closed(back) => assert_eq!(back, "block"),
        _ => panic!("a closed inbox took an item"),
    }
}

#[test]
fn repaint_requests_coalesce() {
    let (tx, rx) = bounded::<()>(1);
    assert!(request_repaint(&tx));
    assert!(!request_repaint(&tx));
    assert!(!request_repaint(&tx));
    assert_eq!(rx.len(), 1);
    rx.try_recv().unwrap();
    assert!(rx.try_recv().is_err());
    assert!(request_repaint(&tx));
    drop(rx);
    assert!(!request_repaint(&tx));
}

#[test]
fn smoothing_recurrence() {
    let k: f32 = 0.5;
    let blend = |f: f32, a: f32| f * k + a * (1.0 - k);
    let mut filtered = vec![0.0f32; 4];
    let averaged = vec![3.0f32, 4.0, 5.0, 6.0];
    smooth(&mut filtered, &averaged, &blend);
    assert_eq!(filtered, vec![1.5, 2.0, 2.5, 3.0]);
    smooth(&mut filtered, &averaged, &blend);
    assert_eq!(filtered, vec![2.25, 3.0, 3.75, 4.5]);
}

#[test]
fn smoothing_pairs_each_component_with_its_own() {
    let mut filtered = vec![1u32, 2, 3];
    smooth(&mut filtered, &[10, 20, 30], &|f: u32, a: u32| f * 100 + a);
    assert_eq!(filtered, vec![110, 220, 330]);
}

#[test]
fn waterfall_sliding_window() {
    let mut w: Waterfall<f32> = Waterfall::new(3, 2, 0.0);
    assert_eq!(w.rows, vec![vec![0.0, 0.0]; 3]);
    assert_eq!(w.nch, 2);
    for r in 1..=5 {
        w.push(&[r as f32, 10.0 * r as f32]);
    }
    assert_eq!(w.rows, vec![vec![3.0, 30.0], vec![4.0, 40.0], vec![5.0, 50.0]]);
    assert_eq!(w.row(0), vec![3.0, 30.0]);
    assert_eq!(w.row(2), vec![5.0, 50.0]);
}

#[test]
fn waterfall_before_it_is_full() {
    let mut w: Waterfall<u32> = Waterfall::new(3, 1, 0);
    w.push(&[1]);
    assert_eq!(w.rows, vec![vec![0], vec![0], vec![1]]);
    w.push(&[2]);
    assert_eq!(w.rows, vec![vec![0], vec![1], vec![2]]);
}

#[test]
fn waterfall_of_one_row() {
    let mut w: Waterfall<u32> = Waterfall::new(1, 2, 9);
    assert_eq!(w.rows, vec![vec![9, 9]]);
    w.push(&[1, 2]);
    w.push(&[3, 4]);
    assert_eq!(w.rows, vec![vec![3, 4]]);
}

#[test]
fn meter_reports_every_hundredth_block() {
    assert_eq!(REPORT_EVERY, 100);
    let mut m = Meter::new();
    assert_eq!((m.blocks, m.samples), (0, 0));
    let mut due_at: Vec<u64> = Vec::new();
    for _ in 0..250 {
        if m.record(1000) {
            due_at.push(m.blocks);
        }
    }
    assert_eq!(due_at, vec![100, 200]);
    assert_eq!(m.blocks, 250);
    assert_eq!(m.samples, 250_000);
}

#[test]
fn display_state_starts_at_zero() {
    let s: DisplayState<f32> = DisplayState::new(2, 3, 0.0);
    assert_eq!(s.filtered, vec![0.0, 0.0, 0.0]);
    assert_eq!(s.history.rows, vec![vec![0.0, 0.0, 0.0]; 2]);
    assert_eq!(s.history.nch, 3);
}

#[test]
fn display_state_absorbs_and_resets() {
    let k: f32 = 0.5;
    let blend = |f: f32, a: f32| f * k + a * (1.0 - k);
    let mut s: DisplayState<f32> = DisplayState::new(2, 4, 0.0);
    s.absorb(&[3.0, 4.0, 5.0, 6.0], &blend);
    assert_eq!(s.filtered, vec![1.5, 2.0, 2.5, 3.0]);
    assert_eq!(s.history.rows, vec![vec![0.0; 4], vec![3.0, 4.0, 5.0, 6.0]]);
    s.absorb(&[3.0, 4.0, 5.0, 6.0], &blend);
    assert_eq!(s.filtered, vec![2.25, 3.0, 3.75, 4.5]);
    assert_eq!(s.history.rows, vec![vec![3.0, 4.0, 5.0, 6.0]; 2]);
    s.reset(0.0);
    assert_eq!(s.filtered, vec![0.0; 4]);
    assert_eq!(s.history.rows, vec![vec![3.0, 4.0, 5.0, 6.0]; 2]);
}

#[test]
fn pull_batch_takes_spectra_in_order() {
    let (tx, rx) = bounded::<Vec<f32>>(8);
    for r in 1..=5 {
        tx.send(vec![r as f32, 0.5]).unwrap();
    }
    let batch = pull_batch(&rx, 2, 2).unwrap();
    assert_eq!(batch, vec![vec![1.0, 0.5], vec![2.0, 0.5]]);
    let batch = pull_batch(&rx, 3, 2).unwrap();
    assert_eq!(batch, vec![vec![3.0, 0.5], vec![4.0, 0.5], vec![5.0, 0.5]]);
    assert_eq!(pull_batch(&rx, 0, 2).unwrap(), Vec::<Vec<f32>>::new());
    drop(tx);
    assert_eq!(pull_batch(&rx, 1, 2), Err(PullError::Closed));
}

#[test]
fn pull_batch_refuses_wrong_length() {
    let (tx, rx) = bounded::<Vec<f32>>(8);
    tx.send(vec![1.0, 2.0]).unwrap();
    tx.send(vec![1.0, 2.0, 3.0]).unwrap();
    assert_eq!(pull_batch(&rx, 2, 2), Err(PullError::WrongLength));
}

#[test]
fn averaging_cycle_forwards_the_mean() {
    let (tx_in, rx_in) = bounded::<Vec<f32>>(8);
    let (tx_out, rx_out) = bounded::<Vec<f32>>(1);
    tx_in.send(vec![1.0, 2.0, 3.0, 4.0]).unwrap();
    tx_in.send(vec![5.0, 6.0, 7.0, 8.0]).unwrap();
    tx_in.send(vec![1.0, 1.0, 1.0, 1.0]).unwrap();
    tx_in.send(vec![3.0, -1.0, 3.0, 3.0]).unwrap();
    tx_in.send(vec![2.0, 2.0, 2.0, 2.0]).unwrap();
    tx_in.send(vec![4.0, 4.0, 4.0, 4.0]).unwrap();
    drop(tx_in);
    let r = averaging_cycle(&rx_in, &tx_out, 4, 2, 0.0f32, &plus, &mean, &positive);
    assert!(matches!(r, Cycle::Averaged(Forwarded::Sent)));
    match averaging_cycle(&rx_in, &tx_out, 4, 2, 0.0f32, &plus, &mean, &positive) {
        Cycle::Averaged(Forwarded::NotPositive(back)) => {
            assert_eq!(back, vec![2.0, 0.0, 2.0, 2.0])
        }
        _ => panic!("an average with a zero was not held back"),
    }
    match averaging_cycle(&rx_in, &tx_out, 4, 2, 0.0f32, &plus, &mean, &positive) {
        Cycle::Averaged(Forwarded::Full(back)) => assert_eq!(back, vec![3.0, 3.0, 3.0, 3.0]),
        _ => panic!("a full inbox took an average"),
    }
    assert_eq!(rx_out.try_recv().unwrap(), vec![3.0, 4.0, 5.0, 6.0]);
    assert!(rx_out.try_recv().is_err());
    let r = averaging_cycle(&rx_in, &tx_out, 4, 2, 0.0f32, &plus, &mean, &positive);
    assert!(matches!(r, Cycle::Starved(PullError::Closed)));
}

#[test]
fn averaging_cycle_stops_on_wrong_length() {
    let (tx_in, rx_in) = bounded::<Vec<f32>>(8);
    let (tx_out, rx_out) = bounded::<Vec<f32>>(1);
    tx_in.send(vec![1.0, 2.0, 3.0]).unwrap();
    let r = averaging_cycle(&rx_in, &tx_out, 4, 1, 0.0f32, &plus, &mean, &positive);
    assert!(matches!(r, Cycle::Starved(PullError::WrongLength)));
    assert!(rx_out.try_recv().is_err());
}

#[test]
fn handoff_tells_whether_delivered() {
    assert!(Handoff::<u32>::Delivered.is_delivered());
    assert!(!Handoff::Full(1u32).is_delivered());
    assert!(!Handoff::Closed(1u32).is_delivered());
}

#[test]
fn accept_spectrum_takes_what_fits() {
    let mut batch: Vec<Vec<u32>> = vec![vec![9, 9]];
    assert_eq!(accept_spectrum(&mut batch, Some(vec![1, 2]), 2), Ok(()));
    assert_eq!(batch, vec![vec![9, 9], vec![1, 2]]);
    assert_eq!(accept_spectrum(&mut batch, Some(vec![1, 2, 3]), 2), Err(PullError::WrongLength));
    assert_eq!(batch, vec![vec![9, 9], vec![1, 2]]);
    assert_eq!(accept_spectrum(&mut batch, Some(vec![]), 2), Err(PullError::WrongLength));
    assert_eq!(accept_spectrum(&mut batch, None, 2), Err(PullError::Closed));
    assert_eq!(batch, vec![vec![9, 9], vec![1, 2]]);
}

#[test]
fn pull_batch_of_nothing_needs_no_inbox() {
    let (tx, rx) = bounded::<Vec<f32>>(1);
    drop(tx);
    assert_eq!(pull_batch(&rx, 0, 4), Ok(Vec::<Vec<f32>>::new()));
}

#[test]
fn average_of_no_spectra_is_mean_of_zero() {
    let none: Vec<Vec<u64>> = vec![];
    let out = average(&none, 3, 7u64, &|a: u64, b: u64| a + b, &|t: u64, n: usize| {
        t * 10 + n as u64
    });
    assert_eq!(out, vec![70, 70, 70]);
    let floats: Vec<Vec<f32>> = vec![];
    let out = average(&floats, 2, 0.0f32, &plus, &mean);
    assert!(out.len() == 2 && out[0].is_nan() && out[1].is_nan());
}

#[test]
fn average_and_forward_sends_the_mean_of_the_batch() {
    let (tx, rx) = bounded::<Vec<f32>>(1);
    let batch = vec![vec![1.0f32, 2.0, 3.0, 4.0], vec![5.0f32, 6.0, 7.0, 8.0]];
    let r = average_and_forward(&batch, &tx, 4, 0.0f32, &plus, &mean, &positive);
    assert!(matches!(r, Forwarded::Sent));
    assert_eq!(rx.try_recv().unwrap(), vec![3.0, 4.0, 5.0, 6.0]);
    let batch = vec![vec![1.0f32, -2.0], vec![1.0f32, 2.0]];
    match average_and_forward(&batch, &tx, 2, 0.0f32, &plus, &mean, &positive) {
        Forwarded::NotPositive(back) => assert_eq!(back, vec![1.0, 0.0]),
        _ => panic!("an average with a zero was not held back"),
    }
    assert!(rx.try_recv().is_err());
}

#[test]
fn averaging_cycle_of_no_spectra_is_never_forwarded() {
    let (tx_in, rx_in) = bounded::<Vec<f32>>(1);
    let (tx_out, rx_out) = bounded::<Vec<f32>>(1);
    drop(tx_in);
    match averaging_cycle(&rx_in, &tx_out, 2, 0, 0.0f32, &plus, &mean, &positive) {
        Cycle::Averaged(Forwarded::NotPositive(back)) => {
            assert!(back.len() == 2 && back[0].is_nan() && back[1].is_nan())
        }
        _ => panic!("the average of no spectra was not held back"),
    }
    assert!(rx_out.try_recv().is_err());
}
