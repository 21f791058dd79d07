use metronome::beat_spec::{euclid, lcm, BeatSpec, Event};
use metronome::Error;

#[test]
fn subdiv_test() {
    let bs = BeatSpec::from_subdiv(3, 2);

    assert_eq!(bs.get_ticks().len(), 6);
    assert_eq!(bs.get_beat_len(), 2);
}

#[test]
fn crossbeat_test() {
    let bs = BeatSpec::from_crossbeats(&vec![3, 6]);

    assert_eq!(bs.get_ticks().len(), 6);
    assert_eq!(bs.get_beat_len(), 2);

    assert_eq!(bs.get_ticks()[0], Event::Beep(0));
    assert_eq!(bs.get_ticks()[1], Event::Beep(2));
    assert_eq!(bs.get_ticks()[2], Event::Beep(1));
    assert_eq!(bs.get_ticks()[3], Event::Beep(2));
    assert_eq!(bs.get_ticks()[4], Event::Beep(1));
    assert_eq!(bs.get_ticks()[5], Event::Beep(2));
}

#[test]
fn rspec_test() {
    let bs = BeatSpec::from_rhythmspec("02!1212").unwrap();

    assert_eq!(bs.get_ticks().len(), 6);
    assert_eq!(bs.get_beat_len(), 2);
}

#[test]
fn lcm_test() {
    assert_eq!(euclid(12, 12), 12);
    assert_eq!(euclid(12, 13), 1);
    assert_eq!(euclid(12, 14), 2);
    assert_eq!(euclid(12, 15), 3);
    assert_eq!(euclid(12, 16), 4);

    assert_eq!(
        lcm(&vec![12, 12, 13, 14, 15, 16]),
        12 * 12 * 13 * 14 * 15 * 16 / 12 / 1 / 2 / 3 / 4
    );
}

#[test]
fn rspec_events_test() {
    // The mini-language, event by event: digits beep at their emphasis,
    // and `!` marks the beat boundary after the two ticks before it.
    let bs = BeatSpec::from_rhythmspec("02!1212").unwrap();

    assert_eq!(
        bs.get_ticks(),
        &[
            Event::Beep(0),
            Event::Beep(2),
            Event::Beep(1),
            Event::Beep(2),
            Event::Beep(1),
            Event::Beep(2),
        ]
    );
    assert_eq!(bs.get_beat_len(), 2);
}

#[test]
fn rspec_rest_test() {
    let bs = BeatSpec::from_rhythmspec("0.1.").unwrap();

    assert_eq!(
        bs.get_ticks(),
        &[Event::Beep(0), Event::Rest, Event::Beep(1), Event::Rest]
    );
    // No `!` appeared, so a beat is a single tick.
    assert_eq!(bs.get_beat_len(), 1);
}

#[test]
fn rspec_error_test() {
    assert!(matches!(
        BeatSpec::from_rhythmspec("02x12"),
        Err(Error::ParseError('x'))
    ));
    assert!(matches!(
        BeatSpec::from_rhythmspec("#"),
        Err(Error::ParseError('#'))
    ));
}

#[test]
fn rspec_beat_boundary_test() {
    // The last `!` wins, and it records the count of ticks emitted
    // before it, not its own position in the string.
    let bs = BeatSpec::from_rhythmspec("0!1!23").unwrap();
    assert_eq!(bs.get_ticks().len(), 4);
    assert_eq!(bs.get_beat_len(), 2);
}

#[test]
fn rspec_empty_test() {
    let bs = BeatSpec::from_rhythmspec("").unwrap();
    assert_eq!(bs.get_ticks().len(), 0);
    assert_eq!(bs.get_beat_len(), 1);
}

#[test]
fn subdiv_events_test() {
    // Four beats with no subdivision: a strong downbeat, then three
    // ordinary beats.
    let bs = BeatSpec::from_subdiv(4, 1);

    assert_eq!(
        bs.get_ticks(),
        &[Event::Beep(0), Event::Beep(1), Event::Beep(1), Event::Beep(1)]
    );
    assert_eq!(bs.get_beat_len(), 1);
}

#[test]
fn crossbeat_downbeat_test() {
    // Whatever the cross-rhythms, tick 0 is the most emphasized beep.
    for beats in [vec![2], vec![7, 3], vec![5, 4, 3], vec![1, 1, 1]] {
        let bs = BeatSpec::from_crossbeats(&beats);
        assert_eq!(bs.get_ticks()[0], Event::Beep(0));
    }
}

#[test]
fn make_divisible_test() {
    // A 4/4 measure of quarter notes upsampled for an 8-cell display:
    // the factor is 8, only rests are inserted, and the tick count now
    // divides 8.
    let bs = BeatSpec::from_subdiv(4, 1);
    let up = bs.make_divisible(8);

    assert_eq!(up.get_ticks().len(), 32);
    assert_eq!(up.get_ticks().len() % 8, 0);
    assert_eq!(up.get_beat_len(), 8);
    for (i, ev) in up.get_ticks().iter().enumerate() {
        if i % 8 == 0 {
            assert_eq!(*ev, bs.get_ticks()[i / 8]);
        } else {
            assert_eq!(*ev, Event::Rest);
        }
    }
}

#[test]
fn make_divisible_shared_factor_test() {
    // 6 ticks, 2 to a beat, made divisible by 4: the factor is only
    // 4 / gcd(2, 4) = 2.
    let bs = BeatSpec::from_crossbeats(&vec![3, 6]);
    let up = bs.make_divisible(4);

    assert_eq!(up.get_ticks().len(), 12);
    assert_eq!(up.get_ticks().len() % 4, 0);
    assert_eq!(up.get_beat_len(), 4);
    for (i, ev) in up.get_ticks().iter().enumerate() {
        if i % 2 == 0 {
            assert_eq!(*ev, bs.get_ticks()[i / 2]);
        } else {
            assert_eq!(*ev, Event::Rest);
        }
    }
}

#[test]
fn clone_test() {
    let bs = BeatSpec::from_subdiv(3, 2);
    let copy = bs.clone();
    assert_eq!(copy.get_ticks(), bs.get_ticks());
    assert_eq!(copy.get_beat_len(), bs.get_beat_len());
}
