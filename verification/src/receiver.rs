//! The receiver: lifecycle status and the decisions of the polling cycle.
//!
//! The receiver owns the code store, a status snapshot and the running
//! flag. The surrounding application drives it: it probes connectivity,
//! retrieves raw message bytes, and calls the transition methods here; every
//! decision — which messages qualify, what a code is, how failures
//! escalate, what each status field becomes — is made and verified in this
//! module.

use vstd::prelude::*;
use vstd::string::StringExecFns;
use crate::extract::{extract_spec, extract_verification_code};
use crate::mail::{parse_email, parsed_email_of, rfc2822_millis_of, rfc2822_to_millis, now_millis};
use crate::store::{CodeStore, CodeView, VerificationCode, codes_view, store_insert,
    store_well_formed};
use crate::text::{contains_pattern, contains_seq};

verus! {

/// How many back-to-back failed iterations drive the receiver into the
/// terminal error state.
pub const MAX_CONSECUTIVE_ERRORS: u32 = 3;

/// The lifecycle states of a receiver.
#[derive(Clone, Copy, PartialEq, Eq, Structural, Debug)]
pub enum EmailStatus {
    Idle,
    Connecting,
    Connected,
    Receiving,
    Error,
    Stopped,
}

/// The point-in-time snapshot that callers read.
pub struct EmailReceiverStatus {
    pub status: EmailStatus,
    pub error_message: Option<String>,
    pub last_check_time: Option<i64>,
    pub codes_count: usize,
}

/// The mathematical value of an [`EmailReceiverStatus`].
pub ghost struct StatusView {
    pub status: EmailStatus,
    pub error_message: Option<Seq<char>>,
    pub last_check_time: Option<i64>,
    pub codes_count: nat,
}

impl View for EmailReceiverStatus {
    type V = StatusView;

    open spec fn view(&self) -> StatusView {
        StatusView {
            status: self.status,
            error_message: match self.error_message {
                Some(s) => Some(s@),
                None => None,
            },
            last_check_time: self.last_check_time,
            codes_count: self.codes_count as nat,
        }
    }
}

impl Clone for EmailReceiverStatus {
    fn clone(&self) -> (r: Self)
        ensures
            r@ == self@,
    {
        EmailReceiverStatus {
            status: self.status,
            error_message: match &self.error_message {
                Some(s) => Some(s.clone()),
                None => None,
            },
            last_check_time: self.last_check_time,
            codes_count: self.codes_count,
        }
    }
}

/// The sender allow-pattern the receiver is built with.
pub open spec fn default_sender_pattern() -> Seq<char> {
    "no-reply@login.awsapps.com"@
}

/// The fixed message with which the unencrypted mail port is rejected.
pub open spec fn port_110_message() -> Seq<char> {
    "Port 110 (plain POP3) is not supported. Please use port 995 (POP3 over SSL/TLS)"@
}

/// The timestamp a found code carries: the message date when it parses,
/// the receipt time otherwise.
pub open spec fn effective_timestamp(date_rfc822: Option<Seq<char>>, now: int) -> int {
    match date_rfc822 {
        Some(d) => match rfc2822_millis_of(d) {
            Some(m) => m as int,
            None => now,
        },
        None => now,
    }
}

/// What one raw message does to the stored codes: nothing unless it
/// parses, its sender matches the allow-pattern and a code is extracted
/// from its body; otherwise the code is inserted.
pub open spec fn message_effect(
    s: Seq<CodeView>,
    bytes: Seq<u8>,
    pattern: Seq<char>,
    now: int,
) -> Seq<CodeView> {
    match parsed_email_of(bytes) {
        None => s,
        Some(p) => if contains_seq(p.from, pattern) {
            match extract_spec(p.body) {
                Some(code) => store_insert(
                    s,
                    CodeView {
                        code: code,
                        timestamp: effective_timestamp(p.date_rfc822, now),
                        from: p.from,
                        subject: p.subject,
                    },
                ),
                None => s,
            }
        } else {
            s
        },
    }
}

/// What one whole iteration's messages do to the stored codes, in listing
/// order.
pub open spec fn check_effect(
    s: Seq<CodeView>,
    msgs: Seq<Seq<u8>>,
    pattern: Seq<char>,
    now: int,
) -> Seq<CodeView>
    decreases msgs.len(),
{
    if msgs.len() == 0 {
        s
    } else {
        check_effect(
            message_effect(s, msgs[0], pattern, now),
            msgs.subrange(1, msgs.len() as int),
            pattern,
            now,
        )
    }
}

/// The byte sequences of a list of raw messages.
pub open spec fn msgs_view(v: Seq<Vec<u8>>) -> Seq<Seq<u8>> {
    v.map_values(|m: Vec<u8>| m@)
}

/// Law: processing one more message equals processing the earlier ones and
/// then that message.
pub proof fn lemma_check_effect_push(
    s: Seq<CodeView>,
    msgs: Seq<Seq<u8>>,
    m: Seq<u8>,
    pattern: Seq<char>,
    now: int,
)
    ensures
        check_effect(s, msgs.push(m), pattern, now) == message_effect(
            check_effect(s, msgs, pattern, now),
            m,
            pattern,
            now,
        ),
    decreases msgs.len(),
{
    if msgs.len() == 0 {
        assert(msgs.push(m)[0] == m);
        assert(msgs.push(m).subrange(1, 1) =~= Seq::<Seq<u8>>::empty());
        assert(check_effect(message_effect(s, m, pattern, now), Seq::<Seq<u8>>::empty(), pattern,
            now) == message_effect(s, m, pattern, now));
    } else {
        assert(msgs.push(m)[0] == msgs[0]);
        assert(msgs.push(m).subrange(1, msgs.push(m).len() as int) =~= msgs.subrange(
            1,
            msgs.len() as int,
        ).push(m));
        lemma_check_effect_push(
            message_effect(s, msgs[0], pattern, now),
            msgs.subrange(1, msgs.len() as int),
            m,
            pattern,
            now,
        );
    }
}

/// The receiver: stored codes, status snapshot, running flag, failure
/// counter and the sender allow-pattern.
pub struct EmailReceiver {
    pub codes: CodeStore,
    pub status: EmailReceiverStatus,
    pub is_running: bool,
    pub consecutive_errors: u32,
    pub sender_pattern: String,
}

impl EmailReceiver {
    /// The receiver's invariant.
    pub open spec fn wf(&self) -> bool {
        &&& store_well_formed(self.codes@)
        &&& self.consecutive_errors <= MAX_CONSECUTIVE_ERRORS
    }

    /// A fresh, idle receiver with the default sender allow-pattern.
    pub fn new() -> (r: Self)
        ensures
            r.wf(),
            r.codes@ == Seq::<CodeView>::empty(),
            r.status@.status == EmailStatus::Idle,
            r.status@.error_message is None,
            r.status@.last_check_time is None,
            r.status@.codes_count == 0,
            !r.is_running,
            r.consecutive_errors == 0,
            r.sender_pattern@ == default_sender_pattern(),
    {
        EmailReceiver {
            codes: CodeStore::new(),
            status: EmailReceiverStatus {
                status: EmailStatus::Idle,
                error_message: None,
                last_check_time: None,
                codes_count: 0,
            },
            is_running: false,
            consecutive_errors: 0,
            sender_pattern: String::from_str("no-reply@login.awsapps.com"),
        }
    }

    /// A copy of the status snapshot.
    pub fn get_status(&self) -> (r: EmailReceiverStatus)
        ensures
            r@ == self.status@,
    {
        self.status.clone()
    }

    /// A copy of every stored code, newest first; the snapshot's code
    /// count is refreshed to the store's length on the way.
    pub fn get_codes(&mut self) -> (v: Vec<VerificationCode>)
        ensures
            codes_view(v@) == old(self).codes@,
            final(self).codes@ == old(self).codes@,
            final(self).status@.status == old(self).status@.status,
            final(self).status@.error_message == old(self).status@.error_message,
            final(self).status@.last_check_time == old(self).status@.last_check_time,
            final(self).status@.codes_count == old(self).codes@.len(),
            final(self).is_running == old(self).is_running,
            final(self).consecutive_errors == old(self).consecutive_errors,
            final(self).sender_pattern@ == old(self).sender_pattern@,
    {
        self.status.codes_count = self.codes.len();
        self.codes.get_all()
    }

    /// Stop the receiver: clear the running flag, set the terminal
    /// `Stopped` state and clear the error message, whatever the prior
    /// state was. The stored codes stay as they are.
    pub fn stop_receiving(&mut self)
        ensures
            !final(self).is_running,
            final(self).status@.status == EmailStatus::Stopped,
            final(self).status@.error_message is None,
            final(self).status@.last_check_time is Some,
            final(self).status@.codes_count == old(self).codes@.len(),
            final(self).codes@ == old(self).codes@,
            final(self).consecutive_errors == old(self).consecutive_errors,
            final(self).sender_pattern@ == old(self).sender_pattern@,
    {
        self.is_running = false;
        self.status.status = EmailStatus::Stopped;
        self.status.error_message = None;
        self.status.last_check_time = Some(now_millis());
        self.status.codes_count = self.codes.len();
    }

    /// Reject the unencrypted mail port: exactly port 110 fails, with the
    /// fixed message; every other port passes.
    pub fn validate_port(port: u16) -> (r: Result<(), String>)
        ensures
            match r {
                Ok(_) => port != 110,
                Err(m) => port == 110 && m@ == port_110_message(),
            },
    {
        if port == 110 {
            Err(
                String::from_str(
                    "Port 110 (plain POP3) is not supported. Please use port 995 (POP3 over SSL/TLS)",
                ),
            )
        } else {
            Ok(())
        }
    }

    /// Record that the synchronous connectivity probe succeeded: the
    /// receiver is now running, about to enter the loop.
    pub fn mark_starting(&mut self, now: i64)
        ensures
            final(self).is_running,
            final(self).status@.status == EmailStatus::Connecting,
            final(self).status@.error_message is None,
            final(self).status@.last_check_time == Some(now),
            final(self).status@.codes_count == old(self).codes@.len(),
            final(self).consecutive_errors == 0,
            final(self).codes@ == old(self).codes@,
            final(self).sender_pattern@ == old(self).sender_pattern@,
    {
        self.is_running = true;
        self.consecutive_errors = 0;
        self.status.status = EmailStatus::Connecting;
        self.status.error_message = None;
        self.status.last_check_time = Some(now);
        self.status.codes_count = self.codes.len();
    }

    /// Record that the polling loop has been entered.
    pub fn mark_connected(&mut self)
        ensures
            final(self).status@.status == EmailStatus::Connected,
            final(self).status@.error_message is None,
            final(self).status@.last_check_time == old(self).status@.last_check_time,
            final(self).status@.codes_count == old(self).status@.codes_count,
            final(self).codes@ == old(self).codes@,
            final(self).is_running == old(self).is_running,
            final(self).consecutive_errors == old(self).consecutive_errors,
            final(self).sender_pattern@ == old(self).sender_pattern@,
    {
        self.status.status = EmailStatus::Connected;
        self.status.error_message = None;
    }

    /// The top of one iteration: when the receiver is still running, the
    /// state becomes `Receiving` and the iteration proceeds; when it has
    /// been stopped, nothing changes and the loop must exit.
    pub fn begin_iteration(&mut self) -> (r: bool)
        ensures
            r == old(self).is_running,
            final(self).is_running == old(self).is_running,
            final(self).codes@ == old(self).codes@,
            final(self).consecutive_errors == old(self).consecutive_errors,
            final(self).sender_pattern@ == old(self).sender_pattern@,
            r ==> final(self).status@.status == EmailStatus::Receiving,
            r ==> final(self).status@.error_message == old(self).status@.error_message,
            r ==> final(self).status@.last_check_time == old(self).status@.last_check_time,
            r ==> final(self).status@.codes_count == old(self).status@.codes_count,
            !r ==> final(self).status@ == old(self).status@,
    {
        if self.is_running {
            self.status.status = EmailStatus::Receiving;
            true
        } else {
            false
        }
    }

    /// One iteration's work on retrieved raw messages, in listing order:
    /// parse each, keep those whose sender matches the allow-pattern,
    /// extract a code from the body, and insert what was found into the
    /// store. The status snapshot is not touched; a message that yields no
    /// code is silently skipped.
    pub fn check_emails(&mut self, messages: &Vec<Vec<u8>>, now: i64)
        requires
            old(self).wf(),
        ensures
            final(self).wf(),
            final(self).codes@ == check_effect(
                old(self).codes@,
                msgs_view(messages@),
                old(self).sender_pattern@,
                now as int,
            ),
            final(self).status@ == old(self).status@,
            final(self).is_running == old(self).is_running,
            final(self).consecutive_errors == old(self).consecutive_errors,
            final(self).sender_pattern@ == old(self).sender_pattern@,
    {
        let n = messages.len();
        let mut i: usize = 0;
        while i < n
            invariant
                i <= n,
                n == messages@.len(),
                self.wf(),
                self.codes@ == check_effect(
                    old(self).codes@,
                    msgs_view(messages@).take(i as int),
                    old(self).sender_pattern@,
                    now as int,
                ),
                self.status@ == old(self).status@,
                self.is_running == old(self).is_running,
                self.consecutive_errors == old(self).consecutive_errors,
                self.sender_pattern@ == old(self).sender_pattern@,
            decreases n - i,
        {
            let ghost pre = self.codes@;
            let msg = &messages[i];
            match parse_email(msg) {
                None => {},
                Some(p) => {
                    let ghost pv = p@;
                    if contains_pattern(p.from.as_str(), self.sender_pattern.as_str()) {
                        match extract_verification_code(p.body.as_str()) {
                            Some(code) => {
                                let ts: i64 = match &p.date_rfc822 {
                                    Some(d) => match rfc2822_to_millis(d.as_str()) {
                                        Some(m) => m,
                                        None => now,
                                    },
                                    None => now,
                                };
                                let vc = VerificationCode {
                                    code: code,
                                    timestamp: ts,
                                    from: p.from,
                                    subject: p.subject,
                                };
                                assert(vc@ == CodeView {
                                    code: vc.code@,
                                    timestamp: ts as int,
                                    from: pv.from,
                                    subject: pv.subject,
                                });
                                self.codes.insert(vc);
                            },
                            None => {},
                        }
                    }
                },
            }
            proof {
                assert(self.codes@ == message_effect(
                    pre,
                    messages@[i as int]@,
                    self.sender_pattern@,
                    now as int,
                ));
                assert(msgs_view(messages@).take(i + 1) =~= msgs_view(messages@).take(
                    i as int,
                ).push(messages@[i as int]@));
                lemma_check_effect_push(
                    old(self).codes@,
                    msgs_view(messages@).take(i as int),
                    messages@[i as int]@,
                    self.sender_pattern@,
                    now as int,
                );
            }
            i += 1;
        }
        proof {
            assert(msgs_view(messages@).take(n as int) =~= msgs_view(messages@));
        }
    }

    /// A successful iteration's outcome: the failure counter resets, the
    /// error clears, the check time and code count are refreshed, and the
    /// state stays as it was.
    pub fn end_iteration_success(&mut self, now: i64)
        ensures
            final(self).consecutive_errors == 0,
            final(self).status@.error_message is None,
            final(self).status@.last_check_time == Some(now),
            final(self).status@.codes_count == old(self).codes@.len(),
            final(self).status@.status == old(self).status@.status,
            final(self).codes@ == old(self).codes@,
            final(self).is_running == old(self).is_running,
            final(self).sender_pattern@ == old(self).sender_pattern@,
    {
        self.consecutive_errors = 0;
        self.status.error_message = None;
        self.status.last_check_time = Some(now);
        self.status.codes_count = self.codes.len();
    }

    /// A failed iteration's outcome: the message is recorded and the
    /// failure counted; reaching the consecutive-failure threshold sets
    /// the terminal `Error` state. Returns whether the loop may continue.
    pub fn end_iteration_failure(&mut self, message: String) -> (r: bool)
        requires
            old(self).consecutive_errors < MAX_CONSECUTIVE_ERRORS,
        ensures
            final(self).consecutive_errors == old(self).consecutive_errors + 1,
            final(self).status@.error_message == Some(message@),
            r == (old(self).consecutive_errors + 1 < MAX_CONSECUTIVE_ERRORS),
            !r ==> final(self).status@.status == EmailStatus::Error,
            r ==> final(self).status@.status == old(self).status@.status,
            final(self).status@.last_check_time == old(self).status@.last_check_time,
            final(self).status@.codes_count == old(self).status@.codes_count,
            final(self).codes@ == old(self).codes@,
            final(self).is_running == old(self).is_running,
            final(self).sender_pattern@ == old(self).sender_pattern@,
    {
        self.consecutive_errors = self.consecutive_errors + 1;
        self.status.error_message = Some(message);
        if self.consecutive_errors >= MAX_CONSECUTIVE_ERRORS {
            self.status.status = EmailStatus::Error;
            false
        } else {
            true
        }
    }
}

} // verus!
