use cmn_topology::benchmark::{Exchanger, Side, State, PING, PONG};

fn play(state: &State, side: Side, round_trips: u32, samples: u32) -> (u64, u64) {
    let mut ex = Exchanger::new(side, round_trips, samples);
    let mut swaps: u64 = 0;
    state.rendezvous();
    while !ex.is_finished() {
        if state.exchange(&mut ex) {
            swaps += 1;
        }
    }
    (ex.done, swaps)
}

#[test]
fn each_side_makes_exactly_its_transitions() {
    for _ in 0..5 {
        let state = State::new();
        let (ping, pong) = crossbeam_utils::thread::scope(|s| {
            let pong = s.spawn(|_| play(&state, Side::Pong, 1000, 1));
            let ping = s.spawn(|_| play(&state, Side::Ping, 1000, 1));
            (ping.join().unwrap(), pong.join().unwrap())
        })
        .unwrap();
        assert_eq!(ping, (1000, 1000));
        assert_eq!(pong, (1000, 1000));
    }
}

#[test]
fn exchanger_total() {
    let ex = Exchanger::new(Side::Ping, 50000, 5000);
    assert_eq!(ex.total, 250_000_000);
    assert_eq!(ex.done, 0);
    assert!(!ex.is_finished());
    let big = Exchanger::new(Side::Pong, u32::MAX, u32::MAX);
    assert_eq!(big.total, (u32::MAX as u64) * (u32::MAX as u64));
    assert!(Exchanger::new(Side::Pong, 0, 7).is_finished());
}

#[test]
fn lone_exchange_from_start() {
    // the flag starts at PING, so only the pong side can move first
    let state = State::new();
    let mut ping = Exchanger::new(Side::Ping, 1, 1);
    let mut pong = Exchanger::new(Side::Pong, 1, 1);
    assert!(!state.exchange(&mut ping));
    assert_eq!(ping.done, 0);
    assert!(state.exchange(&mut pong));
    assert_eq!(pong.done, 1);
    assert!(state.exchange(&mut ping));
    assert!(ping.is_finished() && pong.is_finished());
}

#[test]
fn each_side_makes_its_own_transition() {
    assert_eq!(Side::Ping.transition(), (PONG, PING));
    assert_eq!(Side::Pong.transition(), (PING, PONG));
    assert_ne!(PING, PONG);
}
