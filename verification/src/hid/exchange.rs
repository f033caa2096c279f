//! One request and its reply.
//!
//! An [`Exchange`] writes a request and reads reports until one answers it.
//! Reports that answer something else (notifications, mostly) are discarded. A
//! read that times out, or a device that says it is busy, starts another attempt,
//! after a pause, until the attempts are used up.

use crate::hid::error::HidError;
use crate::hid::protocol::{
    busy_report, class_of, classify, error_report, header_at, header_of, normalize_report,
    software_id, ReportClass, ShortMsg, MAX_RETRIES, READ_TIMEOUT_MS, SW_ID,
};
use vstd::prelude::*;

verus! {

/// Milliseconds between two attempts of a request.
pub const RETRY_DELAY_MS: u64 = 100;

/// The answer to a request: the 7-byte header of the report, or what went wrong.
pub type Reply = Result<[u8; 7], HidError>;

/// What an exchange waits for.
#[derive(Clone, Copy, Debug, PartialEq, Eq, Structural)]
pub enum Expect {
    /// A HID++ 2.0 reply from the feature at `index`.
    Feature { index: u8 },
    /// A HID++ 1.0 acknowledgement with this sub-id, for `register`.
    Register { register: u8, sub_id: u8 },
}

/// What a report means to a waiting exchange.
#[derive(Clone, Copy, Debug, PartialEq, Eq)]
pub enum Verdict {
    /// It answers the request.
    Answer([u8; 7]),
    /// It ends the exchange with an error.
    Refused(HidError),
    /// The device is busy: the request is to be tried again.
    Busy,
    /// It is not for this exchange.
    Unrelated,
}

impl Expect {
    /// Whether a report without an error answers the request.
    pub open spec fn matched_by(self, header: [u8; 7]) -> bool {
        match self {
            Expect::Feature { index } => header[2] == index && software_id(header) == SW_ID,
            Expect::Register { register, sub_id } => class_of(header)
                == (ReportClass::RegisterReply { sub_id }) && header[3] == register,
        }
    }

    /// What the report bytes mean to an exchange that waits for this.
    pub open spec fn verdict_on(self, report: Seq<u8>) -> Verdict {
        match header_of(report, report.len() as int) {
            None => Verdict::Unrelated,
            Some(header) => if self is Feature && busy_report(header) {
                Verdict::Busy
            } else if error_report(header) {
                Verdict::Refused(
                    match self {
                        Expect::Feature { index } => HidError::ErrorResponse { feature: index },
                        Expect::Register { register, sub_id } => HidError::RegisterRejected {
                            register,
                        },
                    },
                )
            } else if self.matched_by(header) {
                Verdict::Answer(header)
            } else {
                Verdict::Unrelated
            },
        }
    }

    /// What the report means to an exchange that waits for this.
    pub fn judge(&self, report: &[u8]) -> (verdict: Verdict)
        ensures
            verdict == self.verdict_on(report@),
    {
        match normalize_report(report, report.len()) {
            None => Verdict::Unrelated,
            Some(header) => match *self {
                Expect::Feature { index } => {
                    if ShortMsg::is_busy(&header) {
                        Verdict::Busy
                    } else if ShortMsg::is_error(&header) {
                        Verdict::Refused(HidError::ErrorResponse { feature: index })
                    } else if header[2] == index && ShortMsg::sw_id(&header) == SW_ID {
                        Verdict::Answer(header)
                    } else {
                        // A notification: keep reading.
                        Verdict::Unrelated
                    }
                },
                Expect::Register { register, sub_id } => match classify(&header) {
                    ReportClass::Error => Verdict::Refused(HidError::RegisterRejected { register }),
                    ReportClass::RegisterReply { sub_id: got } if got == sub_id && header[3]
                        == register => Verdict::Answer(header),
                    // A connection or battery notification, or an ack for a different
                    // register, is not our reply: keep reading.
                    _ => Verdict::Unrelated,
                },
            },
        }
    }

    /// The error of a request that could not be written.
    pub open spec fn write_error(self) -> HidError {
        match self {
            Expect::Feature { .. } => HidError::WriteFailed,
            Expect::Register { .. } => HidError::RegisterWriteFailed,
        }
    }

    /// The error of a failed read.
    pub open spec fn read_error(self) -> HidError {
        match self {
            Expect::Feature { .. } => HidError::ReadFailed,
            Expect::Register { .. } => HidError::RegisterReadFailed,
        }
    }

    /// The error of `retries` attempts without an answer.
    pub open spec fn silence_error(self, retries: usize) -> HidError {
        match self {
            Expect::Feature { index } => HidError::NoResponse { retries, feature: index },
            Expect::Register { register, .. } => HidError::RegisterUnacknowledged { register },
        }
    }
}

/// Where an exchange stands.
#[derive(Clone, Copy, Debug, PartialEq, Eq)]
pub enum ExchangePhase {
    /// The request is to be written for attempt number `attempt`.
    Write { attempt: usize },
    /// A report is to be read.
    Read { attempt: usize },
    Done(Reply),
}

/// What is to be done next for an exchange.
#[derive(Clone, Copy, Debug, PartialEq, Eq)]
pub enum ExchangeAction {
    /// Wait `pause_ms`, then write the request.
    Write { pause_ms: u64 },
    /// Read one report, for at most `timeout_ms`.
    Read { timeout_ms: i32 },
    /// Nothing: the exchange ended with this reply.
    Done(Reply),
}

/// A request on its way to a reply.
#[derive(Debug)]
pub struct Exchange {
    /// The bytes to write.
    pub request: Vec<u8>,
    pub expect: Expect,
    pub timeout_ms: i32,
    pub pause_ms: u64,
    pub retries: usize,
    pub phase: ExchangePhase,
}

impl Exchange {
    /// The attempt under way is one of those allowed.
    pub open spec fn wf(self) -> bool {
        match self.phase {
            ExchangePhase::Write { attempt } => attempt < self.retries,
            ExchangePhase::Read { attempt } => attempt < self.retries,
            ExchangePhase::Done(_) => true,
        }
    }

    /// This exchange in another phase.
    pub open spec fn at(self, phase: ExchangePhase) -> Exchange {
        Exchange { phase, ..self }
    }

    /// The phase in which attempt number `attempt` begins.
    pub open spec fn attempt_phase(expect: Expect, retries: usize, attempt: int) -> ExchangePhase {
        if attempt < retries {
            ExchangePhase::Write { attempt: attempt as usize }
        } else {
            ExchangePhase::Done(Err(expect.silence_error(retries)))
        }
    }

    /// The next action.
    pub open spec fn action_spec(self) -> ExchangeAction {
        match self.phase {
            ExchangePhase::Write { attempt } => ExchangeAction::Write {
                pause_ms: if attempt > 0 {
                    self.pause_ms
                } else {
                    0
                },
            },
            ExchangePhase::Read { .. } => ExchangeAction::Read { timeout_ms: self.timeout_ms },
            ExchangePhase::Done(reply) => ExchangeAction::Done(reply),
        }
    }

    /// The exchange after its request was written, or could not be.
    pub open spec fn after_write(self, ok: bool) -> Exchange {
        match self.phase {
            ExchangePhase::Write { attempt } => self.at(
                if ok {
                    ExchangePhase::Read { attempt }
                } else {
                    ExchangePhase::Done(Err(self.expect.write_error()))
                },
            ),
            _ => self,
        }
    }

    /// The exchange after a read that gave `report`; an empty one is a timeout. A
    /// timeout and a busy device use up the attempt.
    pub open spec fn after_report(self, report: Seq<u8>) -> Exchange {
        match self.phase {
            ExchangePhase::Read { attempt } => if report.len() == 0 {
                self.at(Exchange::attempt_phase(self.expect, self.retries, attempt + 1))
            } else {
                match self.expect.verdict_on(report) {
                    Verdict::Answer(header) => self.at(ExchangePhase::Done(Ok(header))),
                    Verdict::Refused(err) => self.at(ExchangePhase::Done(Err(err))),
                    Verdict::Busy => self.at(
                        Exchange::attempt_phase(self.expect, self.retries, attempt + 1),
                    ),
                    Verdict::Unrelated => self,
                }
            },
            _ => self,
        }
    }

    /// The exchange after a read that failed.
    pub open spec fn after_read_failure(self) -> Exchange {
        match self.phase {
            ExchangePhase::Read { .. } => self.at(
                ExchangePhase::Done(Err(self.expect.read_error())),
            ),
            _ => self,
        }
    }

    fn silence(&self) -> (reply: Reply)
        ensures
            reply == Err::<[u8; 7], HidError>(self.expect.silence_error(self.retries)),
    {
        match self.expect {
            Expect::Feature { index } => Err(
                HidError::NoResponse { retries: self.retries, feature: index },
            ),
            Expect::Register { register, .. } => Err(HidError::RegisterUnacknowledged { register }),
        }
    }

    fn begin_attempt(&mut self, attempt: usize)
        ensures
            *final(self) == old(self).at(
                Exchange::attempt_phase(old(self).expect, old(self).retries, attempt as int),
            ),
    {
        if attempt < self.retries {
            self.phase = ExchangePhase::Write { attempt };
        } else {
            self.phase = ExchangePhase::Done(self.silence());
        }
    }

    fn end_attempt(&mut self, attempt: usize)
        ensures
            *final(self) == old(self).at(
                Exchange::attempt_phase(old(self).expect, old(self).retries, attempt + 1),
            ),
    {
        if attempt < self.retries {
            self.begin_attempt(attempt + 1);
        } else {
            self.phase = ExchangePhase::Done(self.silence());
        }
    }

    /// A request that waits for `expect`, with `retries` attempts.
    pub fn new(
        request: Vec<u8>,
        expect: Expect,
        timeout_ms: i32,
        pause_ms: u64,
        retries: usize,
    ) -> (exchange: Exchange)
        ensures
            exchange.request@ == request@,
            exchange.expect == expect,
            exchange.timeout_ms == timeout_ms,
            exchange.pause_ms == pause_ms,
            exchange.retries == retries,
            exchange.phase == Exchange::attempt_phase(expect, retries, 0),
            exchange.wf(),
    {
        let mut exchange: Exchange = Exchange {
            request,
            expect,
            timeout_ms,
            pause_ms,
            retries,
            phase: ExchangePhase::Write { attempt: 0 },
        };
        exchange.begin_attempt(0);
        exchange
    }

    /// What is to be done next.
    pub fn action(&self) -> (action: ExchangeAction)
        ensures
            action == self.action_spec(),
    {
        match self.phase {
            ExchangePhase::Write { attempt } => ExchangeAction::Write {
                pause_ms: if attempt > 0 {
                    self.pause_ms
                } else {
                    0
                },
            },
            ExchangePhase::Read { .. } => ExchangeAction::Read { timeout_ms: self.timeout_ms },
            ExchangePhase::Done(reply) => ExchangeAction::Done(reply),
        }
    }

    /// The request was written (`ok`), or could not be.
    pub fn on_write(&mut self, ok: bool)
        ensures
            *final(self) == old(self).after_write(ok),
            old(self).wf() ==> final(self).wf(),
    {
        if let ExchangePhase::Write { attempt } = self.phase {
            self.phase =
            if ok {
                ExchangePhase::Read { attempt }
            } else {
                ExchangePhase::Done(
                    Err(
                        match self.expect {
                            Expect::Feature { .. } => HidError::WriteFailed,
                            Expect::Register { .. } => HidError::RegisterWriteFailed,
                        },
                    ),
                )
            };
        }
    }

    /// A read gave `report`; an empty one is a timeout.
    pub fn on_report(&mut self, report: &[u8])
        ensures
            *final(self) == old(self).after_report(report@),
            old(self).wf() ==> final(self).wf(),
    {
        if let ExchangePhase::Read { attempt } = self.phase {
            if report.len() == 0 {
                // Timeout: retry the whole request.
                self.end_attempt(attempt);
            } else {
                match self.expect.judge(report) {
                    Verdict::Answer(header) => self.phase = ExchangePhase::Done(Ok(header)),
                    Verdict::Refused(err) => self.phase = ExchangePhase::Done(Err(err)),
                    Verdict::Busy => self.end_attempt(attempt),
                    Verdict::Unrelated => {},
                }
            }
        }
    }

    /// A read failed.
    pub fn on_read_failure(&mut self)
        ensures
            *final(self) == old(self).after_read_failure(),
            old(self).wf() ==> final(self).wf(),
    {
        if let ExchangePhase::Read { .. } = self.phase {
            self.phase =
            ExchangePhase::Done(
                Err(
                    match self.expect {
                        Expect::Feature { .. } => HidError::ReadFailed,
                        Expect::Register { .. } => HidError::RegisterReadFailed,
                    },
                ),
            );
        }
    }
}

/// `exchange` is the untouched request `msg`, with this budget.
pub open spec fn is_feature_request(
    exchange: Exchange,
    msg: ShortMsg,
    timeout_ms: i32,
    retries: usize,
) -> bool {
    &&& exchange.request@ == msg.long_frame()
    &&& exchange.expect == (Expect::Feature { index: msg.feature_index })
    &&& exchange.timeout_ms == timeout_ms
    &&& exchange.pause_ms == RETRY_DELAY_MS
    &&& exchange.retries == retries
    &&& exchange.phase == Exchange::attempt_phase(exchange.expect, retries, 0)
    &&& exchange.wf()
}

/// Send a message and get the matching 7-byte response, with the default budget for
/// data reads.
pub fn send_recv(msg: ShortMsg) -> (exchange: Exchange)
    ensures
        is_feature_request(exchange, msg, READ_TIMEOUT_MS, MAX_RETRIES),
{
    send_recv_with(msg, READ_TIMEOUT_MS, MAX_RETRIES)
}

/// Send a message and get the matching 7-byte response. `timeout_ms` and `retries`
/// make a short budget for presence pings and a generous one for data reads.
pub fn send_recv_with(msg: ShortMsg, timeout_ms: i32, retries: usize) -> (exchange: Exchange)
    ensures
        is_feature_request(exchange, msg, timeout_ms, retries),
{
    // A long report: wireless devices reply on the long channel, and a short request
    // gets no reply on the long interface.
    let frame: [u8; 20] = msg.encode_long();
    let mut request: Vec<u8> = Vec::new();
    request.extend_from_slice(frame.as_slice());
    assert(request@ =~= frame@);
    Exchange::new(
        request,
        Expect::Feature { index: msg.feature_index },
        timeout_ms,
        RETRY_DELAY_MS,
        retries,
    )
}

/// The read uses up an attempt of an exchange that waits for `expect`: it timed out,
/// or the device is busy.
pub open spec fn is_setback(expect: Expect, read: Seq<u8>) -> bool {
    read.len() == 0 || expect.verdict_on(read) == Verdict::Busy
}

/// How many of the reads use up an attempt of an exchange that waits for `expect`.
pub open spec fn setbacks(expect: Expect, reads: Seq<Seq<u8>>) -> nat
    decreases reads.len(),
{
    if reads.len() == 0 {
        0
    } else {
        setbacks(expect, reads.drop_last()) + if is_setback(expect, reads.last()) {
            1nat
        } else {
            0
        }
    }
}

/// None of the reads ends an exchange that waits for `expect`.
pub open spec fn inconclusive(expect: Expect, reads: Seq<Seq<u8>>) -> bool {
    forall|i: int|
        0 <= i < reads.len() ==> is_setback(expect, #[trigger] reads[i]) || expect.verdict_on(
            reads[i],
        ) == Verdict::Unrelated
}

impl Exchange {
    /// The exchange after a series of reads, where every request that falls due is
    /// written.
    pub open spec fn after_reads(self, reads: Seq<Seq<u8>>) -> Exchange
        decreases reads.len(),
    {
        if reads.len() == 0 {
            self
        } else {
            self.after_reads(reads.drop_last()).after_report(reads.last()).after_write(true)
        }
    }
}

/// Reads that end nothing only use up attempts, one for each timeout and for each time
/// the device is busy: the exchange goes on reading while attempts are left and gives
/// up with the last of them. Unrelated reports cost nothing.
pub proof fn law_inconclusive_reads(exchange: Exchange, reads: Seq<Seq<u8>>)
    requires
        exchange.phase == (ExchangePhase::Read { attempt: 0 }),
        exchange.retries > 0,
        inconclusive(exchange.expect, reads),
    ensures
        exchange.after_reads(reads) == exchange.at(
            if setbacks(exchange.expect, reads) < exchange.retries {
                ExchangePhase::Read { attempt: setbacks(exchange.expect, reads) as usize }
            } else {
                ExchangePhase::Done(Err(exchange.expect.silence_error(exchange.retries)))
            },
        ),
    decreases reads.len(),
{
    if reads.len() > 0 {
        let before = reads.drop_last();
        assert forall|i: int| 0 <= i < before.len() implies is_setback(
            exchange.expect,
            #[trigger] before[i],
        ) || exchange.expect.verdict_on(before[i]) == Verdict::Unrelated by {
            assert(before[i] == reads[i]);
        }
        law_inconclusive_reads(exchange, before);
        assert(reads.last() == reads[reads.len() - 1]);
    }
}

/// The first report that answers or refuses the request ends the exchange, whatever
/// inconclusive reads came before it, as long as an attempt is left.
pub proof fn law_first_conclusive_report_decides(
    exchange: Exchange,
    reads: Seq<Seq<u8>>,
    report: Seq<u8>,
)
    requires
        exchange.phase == (ExchangePhase::Read { attempt: 0 }),
        inconclusive(exchange.expect, reads),
        setbacks(exchange.expect, reads) < exchange.retries,
        report.len() > 0,
    ensures
        exchange.expect.verdict_on(report) matches Verdict::Answer(header)
            ==> exchange.after_reads(reads.push(report)) == exchange.at(
            ExchangePhase::Done(Ok(header)),
        ),
        exchange.expect.verdict_on(report) matches Verdict::Refused(err)
            ==> exchange.after_reads(reads.push(report)) == exchange.at(
            ExchangePhase::Done(Err(err)),
        ),
{
    law_inconclusive_reads(exchange, reads);
    assert(reads.push(report).drop_last() =~= reads);
}

/// A request that is written gets the first report that answers it, whatever
/// unrelated reports came before: a report without an error that carries the
/// request's feature index and our software id.
pub proof fn law_feature_reply_answers(
    exchange: Exchange,
    msg: ShortMsg,
    timeout_ms: i32,
    retries: usize,
    reads: Seq<Seq<u8>>,
    report: Seq<u8>,
    header: [u8; 7],
)
    requires
        is_feature_request(exchange, msg, timeout_ms, retries),
        retries > 0,
        inconclusive(exchange.expect, reads),
        setbacks(exchange.expect, reads) < retries,
        header_of(report, report.len() as int) == Some(header),
        !error_report(header),
        header[2] == msg.feature_index,
        software_id(header) == SW_ID,
    ensures
        exchange.after_write(true).after_reads(reads.push(report)).phase == ExchangePhase::Done(
            Ok(header),
        ),
{
    law_first_conclusive_report_decides(exchange.after_write(true), reads, report);
}

/// A device that echoes the header of a request answers it, unless the feature index
/// is one that marks errors.
pub proof fn law_feature_echo_answers(
    exchange: Exchange,
    msg: ShortMsg,
    timeout_ms: i32,
    retries: usize,
)
    requires
        is_feature_request(exchange, msg, timeout_ms, retries),
    ensures
        exchange.expect.verdict_on(exchange.request@) == if busy_report(
            header_at(exchange.request@, 0),
        ) {
            Verdict::Busy
        } else if error_report(header_at(exchange.request@, 0)) {
            Verdict::Refused(HidError::ErrorResponse { feature: msg.feature_index })
        } else {
            Verdict::Answer(header_at(exchange.request@, 0))
        },
{
}

/// A device that is busy is asked again: the answer to the next attempt is the reply,
/// as long as an attempt is left.
pub proof fn law_busy_device_is_asked_again(
    exchange: Exchange,
    msg: ShortMsg,
    timeout_ms: i32,
    retries: usize,
    busy: Seq<u8>,
    report: Seq<u8>,
    header: [u8; 7],
)
    requires
        is_feature_request(exchange, msg, timeout_ms, retries),
        retries > 1,
        header_of(busy, busy.len() as int) matches Some(error) && busy_report(error),
        header_of(report, report.len() as int) == Some(header),
        !error_report(header),
        header[2] == msg.feature_index,
        software_id(header) == SW_ID,
    ensures
        exchange.after_write(true).after_report(busy).action_spec() == (ExchangeAction::Write {
            pause_ms: RETRY_DELAY_MS,
        }),
        exchange.after_write(true).after_report(busy).after_write(true).after_report(report).phase
            == ExchangePhase::Done(Ok(header)),
{
}

/// An exchange that has ended stays as it is.
pub proof fn law_ended_exchange_is_stable(exchange: Exchange, reply: Reply, report: Seq<u8>, ok: bool)
    requires
        exchange.phase == ExchangePhase::Done(reply),
    ensures
        exchange.after_report(report) == exchange,
        exchange.after_write(ok) == exchange,
        exchange.after_read_failure() == exchange,
        exchange.action_spec() == ExchangeAction::Done(reply),
{
}

/// What a report means to a request for the feature at `index`, by its header: 0xFF in
/// byte 2 with 8 in byte 5 is a busy device, any other 0x8F or 0xFF in byte 2 refuses,
/// the index in byte 2 with 0x0A as low nibble of byte 3 answers, and the rest is not for
/// it. A report without a header is not for it either.
pub proof fn law_feature_verdict_by_bytes(index: u8, report: Seq<u8>)
    ensures
        ({
            let verdict = (Expect::Feature { index }).verdict_on(report);
            match header_of(report, report.len() as int) {
                None => verdict == Verdict::Unrelated,
                Some(header) => {
                    &&& verdict == Verdict::Busy <==> header[2] == 0xFF && header[5] == 0x08
                    &&& verdict is Refused <==> header[2] == 0x8F || (header[2] == 0xFF && header[5]
                        != 0x08)
                    &&& verdict is Refused ==> verdict->Refused_0 == (HidError::ErrorResponse {
                        feature: index,
                    })
                    &&& verdict is Answer <==> header[2] == index && header[3] & 0x0F == 0x0A
                        && header[2] != 0x8F && header[2] != 0xFF
                    &&& verdict is Answer ==> verdict->Answer_0 == header
                },
            }
        }),
{
    if let Some(header) = header_of(report, report.len() as int) {
        let b = header[3];
        assert(b & 0x0F == b % 16) by (bit_vector);
    }
}

/// What a report means to a request for a register, by its header: 0x8F or 0xFF in byte 2
/// rejects it, the sub-id in byte 2 with the register in byte 3 answers it, and the rest
/// is not for it.
pub proof fn law_register_verdict_by_bytes(register: u8, sub_id: u8, report: Seq<u8>)
    requires
        sub_id == 0x80 || sub_id == 0x81,
    ensures
        ({
            let verdict = (Expect::Register { register, sub_id }).verdict_on(report);
            match header_of(report, report.len() as int) {
                None => verdict == Verdict::Unrelated,
                Some(header) => {
                    &&& verdict is Refused <==> header[2] == 0x8F || header[2] == 0xFF
                    &&& verdict is Refused ==> verdict->Refused_0 == (HidError::RegisterRejected {
                        register,
                    })
                    &&& verdict is Answer <==> header[2] == sub_id && header[3] == register
                    &&& verdict is Answer ==> verdict->Answer_0 == header
                    &&& verdict !is Busy
                },
            }
        }),
{
}

/// What ends a request with an error, and with which: a write or a read that fails at
/// once, and silence when no attempt is left.
pub proof fn law_request_errors(exchange: Exchange, attempt: usize)
    ensures
        ({
            let feature = exchange.expect is Feature;
            let writing = exchange.at(ExchangePhase::Write { attempt });
            let reading = exchange.at(ExchangePhase::Read { attempt });
            &&& writing.after_write(false).phase == ExchangePhase::Done(
                Err(
                    if feature {
                        HidError::WriteFailed
                    } else {
                        HidError::RegisterWriteFailed
                    },
                ),
            )
            &&& writing.after_write(true).phase == (ExchangePhase::Read { attempt })
            &&& reading.after_read_failure().phase == ExchangePhase::Done(
                Err(
                    if feature {
                        HidError::ReadFailed
                    } else {
                        HidError::RegisterReadFailed
                    },
                ),
            )
            &&& attempt + 1 < exchange.retries ==> reading.after_report(Seq::empty()).phase == (
            ExchangePhase::Write { attempt: (attempt + 1) as usize })
            &&& attempt + 1 >= exchange.retries ==> reading.after_report(Seq::empty()).phase
                == ExchangePhase::Done(
                Err(
                    match exchange.expect {
                        Expect::Feature { index } => HidError::NoResponse {
                            retries: exchange.retries,
                            feature: index,
                        },
                        Expect::Register { register, .. } => HidError::RegisterUnacknowledged {
                            register,
                        },
                    },
                ),
            )
        }),
{
}

/// What is done for a request: the first attempt is written at once, a later one after
/// the pause, and a read waits for the timeout.
pub proof fn law_request_actions(exchange: Exchange, attempt: usize)
    ensures
        exchange.at(ExchangePhase::Write { attempt }).action_spec() == (ExchangeAction::Write {
            pause_ms: if attempt == 0 {
                0
            } else {
                exchange.pause_ms
            },
        }),
        exchange.at(ExchangePhase::Read { attempt }).action_spec() == (ExchangeAction::Read {
            timeout_ms: exchange.timeout_ms,
        }),
{
}

/// How a request to a device goes out: as the long report of its message, with the
/// timeout and the attempts that were asked for, 100 ms between two attempts, and its
/// own feature index as what it waits for.
pub proof fn law_feature_budget(exchange: Exchange, msg: ShortMsg, timeout_ms: i32, retries: usize)
    requires
        is_feature_request(exchange, msg, timeout_ms, retries),
    ensures
        exchange.request@ == msg.long_frame(),
        exchange.timeout_ms == timeout_ms,
        exchange.retries == retries,
        exchange.pause_ms == 100,
        exchange.expect == (Expect::Feature { index: msg.feature_index }),
        retries > 0 ==> exchange.phase == (ExchangePhase::Write { attempt: 0 }),
        retries == 0 ==> exchange.phase == ExchangePhase::Done(
            Err(HidError::NoResponse { retries: 0, feature: msg.feature_index }),
        ),
{
}

} // verus!
