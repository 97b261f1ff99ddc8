use thpl::config::{Config, ConfigError};
use thpl::daemon::{Daemon, Directive, Event, Fatal, Phase};
use thpl::model::Reading;

fn bytes(s: &str) -> Vec<u8> {
    s.as_bytes().to_vec()
}

fn fresh_daemon() -> Daemon {
    Daemon::new(bytes("thpl"), bytes("hostname"), bytes("testhost"), 30, true)
}

fn resolved_config() -> Config {
    Config::from_parts(
        Some(bytes("http://db:8086")),
        Some(bytes("influxdata")),
        Some(bytes("SECRET-REDACTED")),
        Some(bytes("default")),
    )
    .unwrap()
}

fn fixed_reading() -> Reading {
    Reading::new(bytes("21.5"), bytes("45"), bytes("101325"), bytes("300"))
}

#[test]
fn full_iteration_samples_publishes_and_rests() {
    let mut d = fresh_daemon();
    assert_eq!(d.phase, Phase::Configuring);

    let first = d.step(Event::Configured(Ok(resolved_config())));
    assert!(matches!(first, Directive::Sample));
    assert_eq!(d.phase, Phase::Sampling);

    let publish = d.step(Event::Sampled(Some(fixed_reading())));
    match publish {
        Directive::Publish(req) => {
            assert_eq!(
                String::from_utf8(req.body).unwrap(),
                "thpl,hostname=testhost temperature=21.5,humidity=45,pressure=101325,light=300"
            );
            assert_eq!(
                String::from_utf8(req.url).unwrap(),
                "http://db:8086/api/v2/write?org=influxdata&bucket=default"
            );
            assert_eq!(req.token, bytes("SECRET-REDACTED"));
        },
        _ => panic!("a sampled reading must be published"),
    }
    assert_eq!(d.phase, Phase::Delivering);

    // HTTP 204: the loop rests and goes on to another round
    let rest = d.step(Event::Delivered(Some(204)));
    assert!(matches!(rest, Directive::Sleep(30)));
    assert_eq!(d.phase, Phase::Resting);

    let next = d.step(Event::Woke);
    assert!(matches!(next, Directive::Sample));
    assert_eq!(d.phase, Phase::Sampling);
}

#[test]
fn rejected_status_is_not_fatal() {
    let mut d = fresh_daemon();
    d.step(Event::Configured(Ok(resolved_config())));
    d.step(Event::Sampled(Some(fixed_reading())));
    let r = d.step(Event::Delivered(Some(500)));
    assert!(matches!(r, Directive::Sleep(30)));
    assert_eq!(d.phase, Phase::Resting);
}

#[test]
fn transport_failure_stops_the_loop() {
    let mut d = fresh_daemon();
    d.step(Event::Configured(Ok(resolved_config())));
    d.step(Event::Sampled(Some(fixed_reading())));
    let r = d.step(Event::Delivered(None));
    assert!(matches!(r, Directive::Stop(Fatal::Transport)));
    assert_eq!(d.phase, Phase::Stopped);
}

#[test]
fn hardware_failure_stops_the_loop() {
    let mut d = fresh_daemon();
    d.step(Event::Configured(Ok(resolved_config())));
    let r = d.step(Event::Sampled(None));
    assert!(matches!(r, Directive::Stop(Fatal::Hardware)));
    assert_eq!(d.phase, Phase::Stopped);
}

#[test]
fn missing_configuration_stops_before_any_sample_or_publish() {
    let mut d = fresh_daemon();
    let r = d.step(Event::Configured(Err(ConfigError::MissingToken)));
    match r {
        Directive::Stop(Fatal::Config(ce)) => assert_eq!(ce, ConfigError::MissingToken),
        _ => panic!("missing configuration must stop the loop"),
    }
    assert_eq!(d.phase, Phase::Stopped);
}

#[test]
fn without_transmission_a_round_is_taken_and_rested() {
    let mut d = Daemon::new(bytes("thpl"), bytes("hostname"), bytes("testhost"), 1, false);
    d.step(Event::Configured(Ok(resolved_config())));
    let r = d.step(Event::Sampled(Some(fixed_reading())));
    assert!(matches!(r, Directive::Sleep(1)));
    assert_eq!(d.phase, Phase::Resting);
    let next = d.step(Event::Woke);
    assert!(matches!(next, Directive::Sample));
}

#[test]
fn two_iterations_give_independent_readings() {
    let mut d = fresh_daemon();
    d.step(Event::Configured(Ok(resolved_config())));

    let first = fixed_reading();
    let mut second = fixed_reading();
    second.temperature = bytes("99.9");

    // the first round's body is built from the first snapshot alone
    let publish_first = d.step(Event::Sampled(Some(first)));
    let body_first = match publish_first {
        Directive::Publish(req) => String::from_utf8(req.body).unwrap(),
        _ => panic!("a sampled reading must be published"),
    };
    d.step(Event::Delivered(Some(204)));
    d.step(Event::Woke);

    let publish_second = d.step(Event::Sampled(Some(second)));
    let body_second = match publish_second {
        Directive::Publish(req) => String::from_utf8(req.body).unwrap(),
        _ => panic!("a sampled reading must be published"),
    };
    assert_eq!(
        body_first,
        "thpl,hostname=testhost temperature=21.5,humidity=45,pressure=101325,light=300"
    );
    assert_eq!(
        body_second,
        "thpl,hostname=testhost temperature=99.9,humidity=45,pressure=101325,light=300"
    );
}
