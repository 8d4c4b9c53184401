//! The agent's command pull: the adaptive poll schedule (exponential backoff
//! with full jitter, and a circuit breaker), the at-most-once ledger of
//! executed command ids, and the decision taken on each pulled command.

use rand::Rng;
use uuid::Uuid;
use vstd::prelude::*;

use crate::actuator::report;
use crate::command::{ActionResult, ActionStatus, CommandEnvelope, ResultView};
use crate::config_drift::hex_lower_digit;
use crate::crypto::{envelope_check, verify_envelope, verify_error_text, PublicKey};
use crate::text::{cat, chars_of, is_ws, string_of, trim, trim_chars};

verus! {

/// The floor applied to any configured poll interval, in seconds.
pub const MIN_POLL_SECS: u64 = 5;

/// Multiplier applied to the backoff ceiling on each consecutive error.
pub const BACKOFF_MULTIPLIER: u32 = 2;

/// Upper cap on the backoff ceiling, in seconds, before jitter is applied.
pub const MAX_BACKOFF_SECS: u64 = 300;

/// After this many consecutive failures the circuit opens (polling pauses).
pub const CIRCUIT_OPEN_THRESHOLD: u32 = 5;

/// How long the circuit stays open before a single probe, in seconds.
pub const CIRCUIT_OPEN_SECS: u64 = 60;

/// The poll interval actually used: the configured one, raised to
/// [`MIN_POLL_SECS`].
pub fn clamp_poll_secs(poll_secs: u64) -> (r: u64)
    ensures
        r == (if poll_secs < MIN_POLL_SECS {
            MIN_POLL_SECS
        } else {
            poll_secs
        }),
{
    if poll_secs < MIN_POLL_SECS {
        MIN_POLL_SECS
    } else {
        poll_secs
    }
}

/// `2` to the power `e`.
pub open spec fn two_to(e: nat) -> nat
    decreases e,
{
    if e == 0 {
        1
    } else {
        2 * two_to((e - 1) as nat)
    }
}

/// The largest delay the `errors`-th consecutive error may sleep:
/// `base * 2^(errors - 1)` (the exponent capped at 31, the product saturating
/// at `u64::MAX`), capped at [`MAX_BACKOFF_SECS`].
pub open spec fn backoff_ceiling(base: u64, errors: u32) -> u64 {
    let e: nat = if errors - 1 < 31 {
        (errors - 1) as nat
    } else {
        31
    };
    let product = base * two_to(e);
    let saturated: int = if product > u64::MAX {
        u64::MAX as int
    } else {
        product
    };
    if saturated < MAX_BACKOFF_SECS {
        saturated as u64
    } else {
        MAX_BACKOFF_SECS
    }
}

/// A delay drawn uniformly from `0..=ceiling` (full jitter), from the thread's
/// random number generator.
#[verifier::external_body]
fn full_jitter(ceiling: u64) -> (j: u64)
    ensures
        j <= ceiling,
{
    rand::thread_rng().gen_range(0..=ceiling)
}

/// The mutable state of the adaptive poll loop.
#[derive(Debug, Clone, PartialEq, Eq)]
pub struct PollState {
    /// Consecutive error count; reset to zero on every successful poll.
    pub consecutive_errors: u32,
    /// The delay before the next poll, in seconds.
    pub backoff_secs: u64,
    /// The base poll interval, in seconds.
    pub base_poll_secs: u64,
}

impl PollState {
    /// A fresh state polling every `poll_secs` seconds.
    pub fn new(poll_secs: u64) -> (s: PollState)
        ensures
            s.consecutive_errors == 0,
            s.backoff_secs == poll_secs,
            s.base_poll_secs == poll_secs,
    {
        PollState { consecutive_errors: 0, backoff_secs: poll_secs, base_poll_secs: poll_secs }
    }

    /// Record a successful poll: reset the error counter and the delay.
    pub fn record_success(&mut self)
        ensures
            final(self).consecutive_errors == 0,
            final(self).backoff_secs == old(self).base_poll_secs,
            final(self).base_poll_secs == old(self).base_poll_secs,
    {
        self.consecutive_errors = 0;
        self.backoff_secs = self.base_poll_secs;
    }

    /// Record a failed poll whose jittered delay is `jitter`, drawn from
    /// `0..=backoff_ceiling(..)` for the incremented error count. Returns the
    /// delay in seconds (never below one) and whether the circuit just opened.
    pub fn record_error_with_jitter(&mut self, jitter: u64) -> (r: (u64, bool))
        requires
            old(self).consecutive_errors < u32::MAX,
            jitter <= backoff_ceiling(old(self).base_poll_secs, (old(self).consecutive_errors + 1) as u32),
        ensures
            final(self).consecutive_errors == old(self).consecutive_errors + 1,
            final(self).base_poll_secs == old(self).base_poll_secs,
            final(self).backoff_secs == (if jitter < 1 {
                1
            } else {
                jitter
            }),
            r.0 == final(self).backoff_secs,
            r.1 == (final(self).consecutive_errors == CIRCUIT_OPEN_THRESHOLD),
    {
        self.consecutive_errors = self.consecutive_errors + 1;
        self.backoff_secs = if jitter < 1 {
            1
        } else {
            jitter
        };
        (self.backoff_secs, self.consecutive_errors == CIRCUIT_OPEN_THRESHOLD)
    }

    /// The largest delay the current error count allows.
    pub fn ceiling(&self) -> (c: u64)
        requires
            self.consecutive_errors >= 1,
        ensures
            c == backoff_ceiling(self.base_poll_secs, self.consecutive_errors),
    {
        let exponent: u32 = if self.consecutive_errors - 1 < 31 {
            self.consecutive_errors - 1
        } else {
            31
        };
        let mut factor: u64 = 1;
        let mut k: u32 = 0;
        while k < exponent
            invariant
                k <= exponent <= 31,
                factor == two_to(k as nat),
                factor <= 0x8000_0000,
            decreases exponent - k,
        {
            proof {
                lemma_two_to_bound((k + 1) as nat);
            }
            factor = factor * 2;
            k = k + 1;
        }
        assert(self.base_poll_secs as u128 * factor as u128 <= 0xffff_ffff_ffff_ffff_u128
            * 0x8000_0000_u128) by (nonlinear_arith)
            requires
                factor <= 0x8000_0000,
        ;
        let product: u128 = self.base_poll_secs as u128 * factor as u128;
        assert(product == self.base_poll_secs * two_to(exponent as nat)) by (nonlinear_arith)
            requires
                product == self.base_poll_secs as u128 * factor as u128,
                factor == two_to(exponent as nat),
        ;
        let saturated: u64 = if product > u64::MAX as u128 {
            u64::MAX
        } else {
            product as u64
        };
        if saturated < MAX_BACKOFF_SECS {
            saturated
        } else {
            MAX_BACKOFF_SECS
        }
    }

    /// Record a failed poll: count it and draw the next delay with full
    /// jitter below the exponential ceiling. Returns the delay in seconds and
    /// whether the circuit just opened.
    pub fn record_error(&mut self) -> (r: (u64, bool))
        requires
            old(self).consecutive_errors < u32::MAX,
        ensures
            final(self).consecutive_errors == old(self).consecutive_errors + 1,
            final(self).base_poll_secs == old(self).base_poll_secs,
            1 <= final(self).backoff_secs,
            final(self).backoff_secs <= (if backoff_ceiling(
                old(self).base_poll_secs,
                final(self).consecutive_errors,
            ) < 1 {
                1
            } else {
                backoff_ceiling(old(self).base_poll_secs, final(self).consecutive_errors)
            }),
            final(self).backoff_secs <= MAX_BACKOFF_SECS,
            r.0 == final(self).backoff_secs,
            r.1 == (final(self).consecutive_errors == CIRCUIT_OPEN_THRESHOLD),
    {
        let probe = PollState {
            consecutive_errors: self.consecutive_errors + 1,
            backoff_secs: self.backoff_secs,
            base_poll_secs: self.base_poll_secs,
        };
        let jitter = full_jitter(probe.ceiling());
        self.record_error_with_jitter(jitter)
    }

    /// Whether the circuit is open (too many consecutive failures).
    pub fn circuit_is_open(&self) -> (b: bool)
        ensures
            b == (self.consecutive_errors >= CIRCUIT_OPEN_THRESHOLD),
    {
        self.consecutive_errors >= CIRCUIT_OPEN_THRESHOLD
    }

    /// How long to sleep before the next poll: the circuit-open pause while the
    /// circuit is open, otherwise the current delay.
    pub fn next_sleep_secs(&self) -> (s: u64)
        ensures
            s == sleep_of(*self),
    {
        if self.circuit_is_open() {
            CIRCUIT_OPEN_SECS
        } else {
            self.backoff_secs
        }
    }
}

proof fn lemma_two_to_mono(a: nat, b: nat)
    requires
        a <= b,
    ensures
        1 <= two_to(a) <= two_to(b),
    decreases b,
{
    if a < b {
        lemma_two_to_mono(a, (b - 1) as nat);
    } else {
        lemma_two_to_positive(a);
    }
}

proof fn lemma_two_to_positive(e: nat)
    ensures
        1 <= two_to(e),
    decreases e,
{
    if e > 0 {
        lemma_two_to_positive((e - 1) as nat);
    }
}

proof fn lemma_two_to_bound(e: nat)
    requires
        e <= 31,
    ensures
        1 <= two_to(e) <= 0x8000_0000,
{
    lemma_two_to_mono(e, 31);
    assert(two_to(31) == 0x8000_0000) by {
        reveal_with_fuel(two_to, 32);
    }
}

/// The backoff ceiling never exceeds [`MAX_BACKOFF_SECS`], so no delay a failed
/// poll draws exceeds it either (the one-second floor is below it).
pub proof fn backoff_never_exceeds_cap(base: u64, errors: u32)
    ensures
        backoff_ceiling(base, errors) <= MAX_BACKOFF_SECS,
{
}

/// A success after any run of failures closes the circuit and brings the
/// delay back to the base interval.
pub proof fn success_resets_backoff(before: PollState, after: PollState)
    requires
        after.consecutive_errors == 0,
        after.backoff_secs == before.base_poll_secs,
        after.base_poll_secs == before.base_poll_secs,
    ensures
        !(after.consecutive_errors >= CIRCUIT_OPEN_THRESHOLD),
        after.backoff_secs == after.base_poll_secs,
{
}

/// How long the poll loop sleeps in state `s`: the circuit-open pause while
/// the circuit is open, otherwise the current delay.
pub open spec fn sleep_of(s: PollState) -> u64 {
    if s.consecutive_errors >= CIRCUIT_OPEN_THRESHOLD {
        CIRCUIT_OPEN_SECS
    } else {
        s.backoff_secs
    }
}

/// What one poll does to the loop's state, as `record_success` (when `ok`)
/// and `record_error` state it.
pub open spec fn polled(before: PollState, ok: bool, after: PollState) -> bool {
    &&& after.base_poll_secs == before.base_poll_secs
    &&& if ok {
        after.consecutive_errors == 0 && after.backoff_secs == before.base_poll_secs
    } else {
        &&& after.consecutive_errors == before.consecutive_errors + 1
        &&& 1 <= after.backoff_secs
        &&& after.backoff_secs <= (if backoff_ceiling(
            before.base_poll_secs,
            after.consecutive_errors,
        ) < 1 {
            1
        } else {
            backoff_ceiling(before.base_poll_secs, after.consecutive_errors)
        })
    }
}

/// The number of failed polls since the last success (or since the start).
pub open spec fn trailing_failures(outcomes: Seq<bool>) -> nat
    decreases outcomes.len(),
{
    if outcomes.len() == 0 {
        0
    } else if outcomes.last() {
        0
    } else {
        trailing_failures(outcomes.drop_last()) + 1
    }
}

/// The poll loop's sleep, over any run of polls from a fresh state with base
/// interval `base`: with no failure since the last success it sleeps `base`;
/// after `k` consecutive failures it pauses for the circuit-open time once
/// `k` reaches the threshold, and otherwise sleeps a whole number of seconds
/// from one up to the backoff ceiling for `k` (itself at most the cap).
pub proof fn poll_sleep_follows_failures(states: Seq<PollState>, outcomes: Seq<bool>, base: u64)
    requires
        states.len() == outcomes.len() + 1,
        states[0].consecutive_errors == 0,
        states[0].backoff_secs == base,
        states[0].base_poll_secs == base,
        forall|i: int| 0 <= i < outcomes.len() ==> polled(#[trigger] states[i], outcomes[i], states[i + 1]),
    ensures
        states.last().consecutive_errors == trailing_failures(outcomes),
        states.last().base_poll_secs == base,
        trailing_failures(outcomes) == 0 ==> sleep_of(states.last()) == base,
        trailing_failures(outcomes) >= CIRCUIT_OPEN_THRESHOLD ==> sleep_of(states.last())
            == CIRCUIT_OPEN_SECS,
        0 < trailing_failures(outcomes) < CIRCUIT_OPEN_THRESHOLD ==> 1 <= sleep_of(states.last())
            <= (if backoff_ceiling(base, states.last().consecutive_errors) < 1 {
            1
        } else {
            backoff_ceiling(base, states.last().consecutive_errors)
        }) <= MAX_BACKOFF_SECS,
    decreases outcomes.len(),
{
    let n = outcomes.len();
    if n > 0 {
        let prev_states = states.take(n as int);
        let prev = outcomes.drop_last();
        assert forall|i: int| 0 <= i < prev.len() implies polled(
            #[trigger] prev_states[i],
            prev[i],
            prev_states[i + 1],
        ) by {
            assert(polled(states[i], outcomes[i], states[i + 1]));
        }
        poll_sleep_follows_failures(prev_states, prev, base);
        assert(prev_states.last() == states[n - 1]);
        assert(polled(states[n - 1], outcomes[n - 1], states[n as int]));
        assert(states.last() == states[n as int]);
    }
}

/// What `Uuid::parse_str` yields for `text`: the UUID's 128-bit value, or
/// `None` when the text is not a UUID.
pub uninterp spec fn uuid_parsed(text: Seq<char>) -> Option<u128>;

/// The `i`-th hex digit (from the most significant) of the 128-bit `id`.
pub open spec fn uuid_nibble(id: u128, i: int) -> u8 {
    ((id as int / vstd::arithmetic::power::pow(16, (31 - i) as nat)) % 16) as u8
}

/// The 32 lower-case hex digits of `id`, most significant first.
pub open spec fn uuid_hex(id: u128) -> Seq<char> {
    Seq::new(32, |i: int| hex_lower_digit(uuid_nibble(id, i)))
}

/// The hyphenated lower-case text of the UUID with 128-bit value `id`
/// (`Uuid::from_u128(id).to_string()`): its hex digits in groups of 8, 4, 4,
/// 4 and 12, joined by hyphens.
pub open spec fn uuid_hyphenated(id: u128) -> Seq<char> {
    let h = uuid_hex(id);
    h.subrange(0, 8) + seq!['-'] + h.subrange(8, 12) + seq!['-'] + h.subrange(12, 16) + seq!['-']
        + h.subrange(16, 20) + seq!['-'] + h.subrange(20, 32)
}

/// A character of the hyphenated UUID form.
pub open spec fn uuid_char(c: char) -> bool {
    ('0' <= c && c <= '9') || ('a' <= c && c <= 'f') || c == '-'
}

/// `Uuid::parse_str`, as the UUID's 128-bit value.
#[verifier::external_body]
pub(crate) fn parse_uuid(text: &str) -> (r: Option<u128>)
    ensures
        r == uuid_parsed(text@),
{
    Uuid::parse_str(text).ok().map(|u| u.as_u128())
}

/// The hyphenated text of a UUID: 36 characters of lower-case hex digits and
/// hyphens, which `Uuid::parse_str` reads back as the same value.
#[verifier::external_body]
pub(crate) fn uuid_text(id: u128) -> (s: String)
    ensures
        s@ == uuid_hyphenated(id),
        s@.len() == 36,
        forall|i: int| 0 <= i < s@.len() ==> uuid_char(#[trigger] s@[i]),
        uuid_parsed(s@) == Some(id),
{
    Uuid::from_u128(id).hyphenated().to_string()
}

/// The ids a ledger file's lines record: each line, trimmed, that parses as a
/// UUID.
pub open spec fn recorded_ids(lines: Seq<String>) -> Set<u128> {
    Set::new(
        |id: u128|
            exists|k: int| 0 <= k < lines.len() && uuid_parsed(trim(#[trigger] lines[k]@)) == Some(id),
    )
}

/// The set of executed command ids: the idempotency ledger. Its lines are
/// kept on disk by the caller, one hyphenated UUID per line.
#[derive(Debug, Clone, PartialEq, Eq)]
pub struct Ledger {
    seen: Vec<u128>,
}

impl Ledger {
    /// The ids recorded as executed.
    pub closed spec fn ids(self) -> Set<u128> {
        self.seen@.to_set()
    }

    /// An empty ledger.
    pub fn new() -> (l: Ledger)
        ensures
            l.ids() == Set::<u128>::empty(),
    {
        let l = Ledger { seen: Vec::new() };
        assert(l.seen@.to_set() =~= Set::<u128>::empty());
        l
    }

    /// The ledger recorded by the lines of its file; lines that are not a
    /// UUID are ignored.
    pub fn from_lines(lines: &Vec<String>) -> (l: Ledger)
        ensures
            l.ids() == recorded_ids(lines@),
    {
        let mut seen: Vec<u128> = Vec::new();
        let mut k: usize = 0;
        while k < lines.len()
            invariant
                k <= lines@.len(),
                seen@.to_set() == recorded_ids(lines@.take(k as int)),
            decreases lines@.len() - k,
        {
            let v = chars_of(lines[k].as_str());
            let t = string_of(&trim_chars(&v));
            let parsed = parse_uuid(t.as_str());
            let ghost before = seen@;
            if let Some(id) = parsed {
                seen.push(id);
            }
            proof {
                let next = lines@.take(k + 1);
                assert(next[k as int] == lines@[k as int]);
                assert forall|id: u128| seen@.to_set().contains(id) == recorded_ids(next).contains(id) by {
                    if recorded_ids(lines@.take(k as int)).contains(id) {
                        let w = choose|w: int|
                            0 <= w < k && uuid_parsed(trim(#[trigger] lines@.take(k as int)[w]@)) == Some(id);
                        assert(next[w] == lines@.take(k as int)[w]);
                    }
                    if recorded_ids(next).contains(id) {
                        let w = choose|w: int|
                            0 <= w < k + 1 && uuid_parsed(trim(#[trigger] next[w]@)) == Some(id);
                        if w < k {
                            assert(lines@.take(k as int)[w] == next[w]);
                        }
                    }
                    if parsed is Some {
                        assert(seen@ == before.push(parsed->0));
                        assert(seen@.to_set().contains(id) == (before.to_set().contains(id) || id == parsed->0)) by {
                            if seen@.to_set().contains(id) {
                                let i = choose|i: int| 0 <= i < seen@.len() && seen@[i] == id;
                                if i < before.len() {
                                    assert(before[i] == id);
                                }
                            }
                            if before.to_set().contains(id) {
                                let i = choose|i: int| 0 <= i < before.len() && before[i] == id;
                                assert(seen@[i] == id);
                            }
                            if id == parsed->0 {
                                assert(seen@[before.len() as int] == id);
                            }
                        }
                    }
                }
                assert(seen@.to_set() =~= recorded_ids(next));
            }
            k = k + 1;
        }
        assert(lines@.take(k as int) =~= lines@);
        Ledger { seen }
    }

    /// Whether this command id has already been executed.
    pub fn contains(&self, id: u128) -> (b: bool)
        ensures
            b == self.ids().contains(id),
    {
        let mut i: usize = 0;
        while i < self.seen.len()
            invariant
                i <= self.seen@.len(),
                forall|k: int| 0 <= k < i ==> self.seen@[k] != id,
            decreases self.seen@.len() - i,
        {
            if self.seen[i] == id {
                assert(self.seen@.to_set().contains(id));
                return true;
            }
            i = i + 1;
        }
        assert(!self.seen@.to_set().contains(id));
        false
    }

    /// Record a command id as executed. When it is new, returns the line to
    /// append to the ledger file (without its newline).
    pub fn record(&mut self, id: u128) -> (line: Option<String>)
        ensures
            final(self).ids() == old(self).ids().insert(id),
            line is Some <==> !old(self).ids().contains(id),
            line matches Some(l) ==> l@ == uuid_hyphenated(id) && uuid_parsed(trim(l@)) == Some(
                id,
            ),
    {
        if self.contains(id) {
            assert(self.seen@.to_set().insert(id) =~= self.seen@.to_set());
            return None;
        }
        let ghost before = self.seen@;
        self.seen.push(id);
        proof {
            assert forall|x: u128| self.seen@.to_set().contains(x) == before.to_set().insert(id).contains(x) by {
                if self.seen@.to_set().contains(x) {
                    let i = choose|i: int| 0 <= i < self.seen@.len() && self.seen@[i] == x;
                    if i < before.len() {
                        assert(before[i] == x);
                    }
                }
                if before.to_set().contains(x) {
                    let i = choose|i: int| 0 <= i < before.len() && before[i] == x;
                    assert(self.seen@[i] == x);
                }
                if x == id {
                    assert(self.seen@[before.len() as int] == x);
                }
            }
            assert(self.seen@.to_set() =~= before.to_set().insert(id));
        }
        let t = uuid_text(id);
        proof {
            let s = t@;
            assert(!is_ws(s[0])) by {
                assert(uuid_char(s[0]));
            }
            assert(!is_ws(s.last())) by {
                assert(uuid_char(s[s.len() - 1]));
            }
        }
        Some(t)
    }
}

/// What the agent does with a pulled command.
#[derive(Debug, Clone, PartialEq, Eq)]
pub enum CommandDecision {
    /// Already executed: nothing to do or report (at-most-once).
    AlreadyHandled,
    /// Refused: report this result; nothing runs and nothing is recorded.
    Reject(ActionResult),
    /// Verified: record the id, then relay the command to the actuator.
    Dispatch,
}

/// The decision on a pulled command at time `now`: one already in the ledger
/// is skipped, one failing the signature or expiry check under `key` is
/// rejected with the failure's text, and any other is dispatched.
pub open spec fn decision(
    ledger: Set<u128>,
    key: Seq<u8>,
    env: CommandEnvelope,
    payload: Seq<u8>,
    now: i64,
) -> Option<Option<ResultView>> {
    if ledger.contains(env.command_id) {
        None
    } else {
        match envelope_check(key, env, payload, now) {
            Err(e) => Some(
                Some(report(env, ActionStatus::Rejected, Some(verify_error_text(e)), None, now)),
            ),
            Ok(_) => Some(None),
        }
    }
}

/// The [`decision`] shape of a [`CommandDecision`].
pub open spec fn decision_view(d: CommandDecision) -> Option<Option<ResultView>> {
    match d {
        CommandDecision::AlreadyHandled => None,
        CommandDecision::Reject(r) => Some(Some(r@)),
        CommandDecision::Dispatch => Some(None),
    }
}

/// Decide what to do with a pulled command, `payload` being its canonical
/// signed bytes. Reads the ledger, never changes it.
pub fn decide_command(
    env: &CommandEnvelope,
    key: &PublicKey,
    payload: &[u8],
    ledger: &Ledger,
    now: i64,
) -> (d: CommandDecision)
    ensures
        decision_view(d) == decision(ledger.ids(), key.spec_bytes(), *env, payload@, now),
{
    if ledger.contains(env.command_id) {
        return CommandDecision::AlreadyHandled;
    }
    match verify_envelope(key, env, payload, now) {
        Err(e) => {
            let text = e.message().to_string();
            CommandDecision::Reject(
                ActionResult {
                    command_id: env.command_id,
                    status: ActionStatus::Rejected,
                    detail: Some(text),
                    observed_state: None,
                    finished_at: now,
                },
            )
        },
        Ok(_) => CommandDecision::Dispatch,
    }
}

/// What to do next with a pulled command.
#[derive(Debug, Clone, PartialEq, Eq)]
pub enum PullStep {
    /// Already executed: nothing to run or report.
    Skip,
    /// Refused: report this result; nothing runs and nothing is recorded.
    Report(ActionResult),
    /// Verified, and its id is now in the ledger: append the line (when there
    /// is one) to the ledger file, then relay the command. When that append
    /// fails the command is skipped rather than risk a second run.
    Relay(Option<String>),
}

/// Decide a pulled command and, when it is to run, record its id in the
/// ledger before anything is relayed, so a crash mid-run cannot run it twice.
pub fn pull_step(
    env: &CommandEnvelope,
    key: &PublicKey,
    payload: &[u8],
    ledger: &mut Ledger,
    now: i64,
) -> (s: PullStep)
    ensures
        match decision(old(ledger).ids(), key.spec_bytes(), *env, payload@, now) {
            None => s is Skip && final(ledger).ids() == old(ledger).ids(),
            Some(Some(r)) => s matches PullStep::Report(a) && a@ == r && final(ledger).ids()
                == old(ledger).ids(),
            Some(None) => {
                &&& final(ledger).ids() == old(ledger).ids().insert(env.command_id)
                &&& s matches PullStep::Relay(Some(l)) && l@ == uuid_hyphenated(env.command_id)
            },
        },
{
    match decide_command(env, key, payload, ledger, now) {
        CommandDecision::AlreadyHandled => PullStep::Skip,
        CommandDecision::Reject(r) => PullStep::Report(r),
        CommandDecision::Dispatch => {
            let line = ledger.record(env.command_id);
            PullStep::Relay(line)
        },
    }
}

/// The result to report for a dispatched command: the actuator's own result,
/// or `Failed` naming the dispatch error.
pub fn dispatch_report(env: &CommandEnvelope, outcome: Result<ActionResult, String>, now: i64) -> (r:
    ActionResult)
    ensures
        match outcome {
            Ok(a) => r@ == a@,
            Err(e) => r@ == report(
                *env,
                ActionStatus::Failed,
                Some("actuator dispatch failed: "@ + e@),
                None,
                now,
            ),
        },
{
    match outcome {
        Ok(a) => a,
        Err(e) => ActionResult {
            command_id: env.command_id,
            status: ActionStatus::Failed,
            detail: Some(cat("actuator dispatch failed: ", e.as_str())),
            observed_state: None,
            finished_at: now,
        },
    }
}

/// At most once: once a command id is recorded, every later decision on that
/// command is to leave it alone, whatever its signature.
pub proof fn recorded_commands_never_run_again(
    before: Set<u128>,
    after: Set<u128>,
    key: Seq<u8>,
    env: CommandEnvelope,
    payload: Seq<u8>,
    now: i64,
)
    requires
        after == before.insert(env.command_id),
    ensures
        decision(after, key, env, payload, now) is None,
{
}

/// A command refused for its signature or expiry is not recorded, so it is
/// judged afresh (and refused again) if it is pulled again.
pub proof fn rejected_commands_stay_unrecorded(
    ledger: Set<u128>,
    key: Seq<u8>,
    env: CommandEnvelope,
    payload: Seq<u8>,
    now: i64,
)
    requires
        !ledger.contains(env.command_id),
        envelope_check(key, env, payload, now) is Err,
    ensures
        decision(ledger, key, env, payload, now) matches Some(Some(r)) && r.status
            == ActionStatus::Rejected,
{
}

/// The line recorded for a command id reads back as that id: a ledger file
/// with the line appended records the id after a reload.
pub proof fn recorded_line_reloads(lines: Seq<String>, line: String, id: u128)
    requires
        uuid_parsed(trim(line@)) == Some(id),
    ensures
        recorded_ids(lines.push(line)).contains(id),
        recorded_ids(lines) <= recorded_ids(lines.push(line)),
{
    let next = lines.push(line);
    assert(next[lines.len() as int] == line);
    assert forall|x: u128| recorded_ids(lines).contains(x) implies recorded_ids(next).contains(x) by {
        let w = choose|w: int| 0 <= w < lines.len() && uuid_parsed(trim(#[trigger] lines[w]@)) == Some(x);
        assert(next[w] == lines[w]);
    }
}

} // verus!
