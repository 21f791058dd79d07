use metronome::beat_spec::Event;
use metronome::config::{parse_cross_rhythms, parse_rhythm_string};
use metronome::Error;

#[test]
fn cross_rhythm_parse_test() {
    // Use 3 primes to make the math simpler.
    let valid_test = parse_cross_rhythms("3:5:17").unwrap();
    assert_eq!(valid_test.get_beat_len(), 5 * 17);
    assert_eq!(valid_test.get_ticks().len(), 3 * 5 * 17);

    let invalid_test = parse_cross_rhythms("3:x:17");
    if let Ok(_) = invalid_test {
        panic!("Valid result from invalid input");
    }
}

#[test]
fn cross_rhythm_lcm_test() {
    // Pairwise-coprime crossbeats: the grid length is the full product
    // 1 * 3 * 5 * 17, and tick 0 carries the implicit downbeat.
    let bs = parse_cross_rhythms("3:5:17").unwrap();
    assert_eq!(bs.get_ticks().len(), 1 * 3 * 5 * 17);
    assert_eq!(bs.get_ticks()[0], Event::Beep(0));
}

#[test]
fn cross_rhythm_single_test() {
    let bs = parse_cross_rhythms("4").unwrap();
    assert_eq!(bs.get_ticks().len(), 4);
    assert_eq!(bs.get_beat_len(), 1);
}

#[test]
fn cross_rhythm_error_test() {
    assert!(matches!(
        parse_cross_rhythms("3:x:17"),
        Err(Error::ParseError('x'))
    ));
    assert!(matches!(
        parse_cross_rhythms("3::5"),
        Err(Error::ParseError(':'))
    ));
    assert!(matches!(parse_cross_rhythms(""), Err(Error::ParseError(':'))));
    assert!(matches!(
        parse_cross_rhythms("3:5:"),
        Err(Error::ParseError(':'))
    ));
    assert!(matches!(
        parse_cross_rhythms("0:3"),
        Err(Error::ParseError('0'))
    ));
    // A token too large for a u32 is refused at the digit that
    // overflows it.
    assert!(matches!(
        parse_cross_rhythms("99999999999"),
        Err(Error::ParseError(_))
    ));
}

#[test]
fn cross_rhythm_overflow_test() {
    // Three large coprime crossbeats: each token fits, the measure's
    // tick resolution does not.
    assert!(matches!(
        parse_cross_rhythms("65521:65519:65497"),
        Err(Error::ArithmeticOverflow)
    ));
}

#[test]
fn rhythm_string_test() {
    let bs = parse_rhythm_string("01!2").unwrap();
    assert_eq!(bs.get_beat_len(), 2);
    assert_eq!(bs.get_ticks().len(), 3);

    assert!(matches!(
        parse_rhythm_string("0a"),
        Err(Error::ParseError('a'))
    ));
}
