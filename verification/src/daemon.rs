//! The sample-publish-sleep loop as a state machine. The library decides;
//! the surrounding program performs the hardware reads, the HTTP post and
//! the sleep, and hands the outcome back as the next event. Per round the
//! order is strict: configure once, then sample, publish, rest, sample,
//! forever — until a fatal failure stops the machine.

use vstd::prelude::*;

use crate::config::{Config, ConfigError, WriteRequest, spec_write_url};
use crate::line::{encode_line, spec_encode_line};
use crate::model::Reading;

verus! {

/// Where the loop stands.
#[derive(PartialEq, Eq, Structural, Clone, Copy, Debug)]
pub enum Phase {
    /// Waiting for the configuration to be resolved.
    Configuring,
    /// Waiting for a round of sensor measurements.
    Sampling,
    /// Waiting for the outcome of the HTTP write.
    Delivering,
    /// Waiting for the fixed interval to elapse.
    Resting,
    /// A fatal failure ended the loop.
    Stopped,
}

/// Why the loop stopped. Configuration and hardware failures come before
/// and during a sample; a transport failure is a write that could not be
/// carried out at all. A rejected write (any HTTP status) is not fatal.
#[derive(PartialEq, Eq, Structural, Clone, Copy, Debug)]
pub enum Fatal {
    Config(ConfigError),
    Hardware,
    Transport,
}

/// What the world reports back, one event per phase: the resolved
/// configuration or the value it is missing; a round of measurements or
/// a hardware failure (`None`); the HTTP status of the write or a
/// transport failure (`None`); or the end of the rest interval.
pub enum Event {
    Configured(Result<Config, ConfigError>),
    Sampled(Option<Reading>),
    Delivered(Option<u16>),
    Woke,
}

/// What the loop asks for next: take a round of measurements, post this
/// request, sleep this many seconds, or stop with a fatal failure.
pub enum Directive {
    Sample,
    Publish(WriteRequest),
    Sleep(u64),
    Stop(Fatal),
}

/// The loop's state: its phase, the configuration once resolved, and the
/// fixed deployment choices — measurement name, the one tag pair, the
/// rest interval, and whether readings are transmitted at all or only
/// taken.
pub struct Daemon {
    pub phase: Phase,
    pub config: Option<Config>,
    pub measurement: Vec<u8>,
    pub tag_key: Vec<u8>,
    pub tag_value: Vec<u8>,
    pub interval_secs: u64,
    pub transmit: bool,
}

impl Daemon {
    /// Past configuration, the configuration is in hand.
    pub open spec fn inv(self) -> bool {
        self.phase == Phase::Sampling || self.phase == Phase::Delivering || self.phase
            == Phase::Resting ==> self.config is Some
    }

    /// The one event each phase can take. Nothing is accepted once the
    /// machine has stopped.
    pub open spec fn accepts(self, e: Event) -> bool {
        match e {
            Event::Configured(_) => self.phase == Phase::Configuring,
            Event::Sampled(_) => self.phase == Phase::Sampling,
            Event::Delivered(_) => self.phase == Phase::Delivering,
            Event::Woke => self.phase == Phase::Resting,
        }
    }

    /// The deployment choices never change.
    pub open spec fn same_setup(pre: Daemon, post: Daemon) -> bool {
        &&& post.measurement@ == pre.measurement@
        &&& post.tag_key@ == pre.tag_key@
        &&& post.tag_value@ == pre.tag_value@
        &&& post.interval_secs == pre.interval_secs
        &&& post.transmit == pre.transmit
    }

    /// The whole transition relation of the loop, one case per event.
    pub open spec fn step_rel(pre: Daemon, e: Event, post: Daemon, r: Directive) -> bool {
        &&& Daemon::same_setup(pre, post)
        &&& match e {
            Event::Configured(Ok(c)) => {
                &&& post.phase == Phase::Sampling
                &&& post.config == Some(c)
                &&& r is Sample
            },
            Event::Configured(Err(ce)) => {
                &&& post.phase == Phase::Stopped
                &&& r == Directive::Stop(Fatal::Config(ce))
            },
            Event::Sampled(Some(rd)) => {
                if pre.transmit {
                    &&& post.phase == Phase::Delivering
                    &&& post.config == pre.config
                    &&& r matches Directive::Publish(req) && req.body@ == spec_encode_line(
                        pre.measurement@,
                        pre.tag_key@,
                        pre.tag_value@,
                        rd,
                    ) && req.url@ == spec_write_url(pre.config.unwrap()) && req.token@
                        == pre.config.unwrap().token@
                } else {
                    &&& post.phase == Phase::Resting
                    &&& post.config == pre.config
                    &&& r == Directive::Sleep(pre.interval_secs)
                }
            },
            Event::Sampled(None) => {
                &&& post.phase == Phase::Stopped
                &&& r == Directive::Stop(Fatal::Hardware)
            },
            Event::Delivered(Some(_)) => {
                &&& post.phase == Phase::Resting
                &&& post.config == pre.config
                &&& r == Directive::Sleep(pre.interval_secs)
            },
            Event::Delivered(None) => {
                &&& post.phase == Phase::Stopped
                &&& r == Directive::Stop(Fatal::Transport)
            },
            Event::Woke => {
                &&& post.phase == Phase::Sampling
                &&& post.config == pre.config
                &&& r is Sample
            },
        }
    }

    /// A fresh loop, not yet configured. The interval and whether points
    /// are transmitted at all are deployment choices, taken here rather
    /// than wired in.
    pub fn new(
        measurement: Vec<u8>,
        tag_key: Vec<u8>,
        tag_value: Vec<u8>,
        interval_secs: u64,
        transmit: bool,
    ) -> (r: Daemon)
        ensures
            r.phase == Phase::Configuring,
            r.config is None,
            r.measurement@ == measurement@,
            r.tag_key@ == tag_key@,
            r.tag_value@ == tag_value@,
            r.interval_secs == interval_secs,
            r.transmit == transmit,
            r.inv(),
    {
        Daemon {
            phase: Phase::Configuring,
            config: None,
            measurement,
            tag_key,
            tag_value,
            interval_secs,
            transmit,
        }
    }

    /// Takes the event the current phase waits for and decides what
    /// happens next. Every decision of the loop lives here: a
    /// configuration, hardware or transport failure stops the machine;
    /// a delivered write, whatever its status, lets it rest and go on.
    pub fn step(&mut self, e: Event) -> (r: Directive)
        requires
            old(self).inv(),
            old(self).accepts(e),
        ensures
            final(self).inv(),
            Daemon::step_rel(*old(self), e, *final(self), r),
    {
        match e {
            Event::Configured(outcome) => {
                match outcome {
                    Ok(c) => {
                        self.config = Some(c);
                        self.phase = Phase::Sampling;
                        Directive::Sample
                    },
                    Err(ce) => {
                        self.phase = Phase::Stopped;
                        Directive::Stop(Fatal::Config(ce))
                    },
                }
            },
            Event::Sampled(outcome) => {
                match outcome {
                    Some(rd) => {
                        if self.transmit {
                            let body = encode_line(
                                &self.measurement,
                                &self.tag_key,
                                &self.tag_value,
                                &rd,
                            );
                            let req = WriteRequest::assemble(self.config.as_ref().unwrap(), body);
                            self.phase = Phase::Delivering;
                            Directive::Publish(req)
                        } else {
                            self.phase = Phase::Resting;
                            Directive::Sleep(self.interval_secs)
                        }
                    },
                    None => {
                        self.phase = Phase::Stopped;
                        Directive::Stop(Fatal::Hardware)
                    },
                }
            },
            Event::Delivered(outcome) => {
                match outcome {
                    Some(_status) => {
                        self.phase = Phase::Resting;
                        Directive::Sleep(self.interval_secs)
                    },
                    None => {
                        self.phase = Phase::Stopped;
                        Directive::Stop(Fatal::Transport)
                    },
                }
            },
            Event::Woke => {
                self.phase = Phase::Sampling;
                Directive::Sample
            },
        }
    }
}

/// Any delivered HTTP status — success or rejection alike — keeps the
/// loop alive: it rests for the configured interval and samples again.
/// Only a transport failure, a write that could not be carried out,
/// stops it.
pub proof fn lemma_status_never_fatal(pre: Daemon, status: u16, post: Daemon, r: Directive)
    requires
        Daemon::step_rel(pre, Event::Delivered(Some(status)), post, r),
    ensures
        post.phase == Phase::Resting,
        post.phase != Phase::Stopped,
        r == Directive::Sleep(pre.interval_secs),
{
}

/// A write that could not be carried out is fatal: the machine stops and
/// reports a transport failure.
pub proof fn lemma_transport_failure_fatal(pre: Daemon, post: Daemon, r: Directive)
    requires
        Daemon::step_rel(pre, Event::Delivered(None), post, r),
    ensures
        post.phase == Phase::Stopped,
        r == Directive::Stop(Fatal::Transport),
{
}

/// Missing configuration stops the machine before any hardware read or
/// network write: the step reports the missing value, never asks to
/// sample or publish, and leaves the machine stopped.
pub proof fn lemma_config_failure_blocks_io(pre: Daemon, ce: ConfigError, post: Daemon, r: Directive)
    requires
        Daemon::step_rel(pre, Event::Configured(Err(ce)), post, r),
    ensures
        post.phase == Phase::Stopped,
        r == Directive::Stop(Fatal::Config(ce)),
        !(r is Sample),
        !(r matches Directive::Publish(_)),
{
}

/// With transmission switched off a round is only taken and logged:
/// nothing is ever asked to be published.
pub proof fn lemma_no_publish_when_transmission_off(pre: Daemon, e: Event, post: Daemon, r: Directive)
    requires
        !pre.transmit,
        Daemon::step_rel(pre, e, post, r),
    ensures
        !(r matches Directive::Publish(_)),
{
}

/// A stopped machine accepts no further event: after a fatal failure no
/// directive — in particular no publish — is ever issued again.
pub proof fn lemma_stopped_is_final(d: Daemon, e: Event)
    requires
        d.phase == Phase::Stopped,
    ensures
        !d.accepts(e),
{
}

} // verus!
