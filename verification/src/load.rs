//! The load test: what a client sends, when it stops, and what is counted.
//!
//! A client sends messages one at a time and waits for each to come back. A
//! message is a header of hexadecimal digits, which tells the client and the
//! message, followed by a payload.

use vstd::prelude::*;

verus! {

/// How many digits a number in a header has at least.
pub const HEADER_DIGITS: usize = 8;

/// The length of a header whose numbers fit their digits.
pub const HEADER_LEN: usize = 16;

/// The ASCII code of the hexadecimal digit `value`, in lower case.
pub open spec fn hex_digit(value: nat) -> u8
    recommends
        value < 16,
{
    if value < 10 {
        (48 + value) as u8
    } else {
        (87 + value) as u8
    }
}

/// How many hexadecimal digits `n` has, without leading zeros; 0 has none.
pub open spec fn hex_len(n: nat) -> nat
    decreases n,
{
    if n == 0 {
        0
    } else {
        hex_len(n / 16) + 1
    }
}

/// The last `count` hexadecimal digits of `n`, with leading zeros.
pub open spec fn hex_digits(n: nat, count: nat) -> Seq<u8>
    decreases count,
{
    if count == 0 {
        Seq::empty()
    } else {
        hex_digits(n / 16, (count - 1) as nat).push(hex_digit(n % 16))
    }
}

/// `n` in hexadecimal, with leading zeros up to eight digits.
pub open spec fn padded_hex(n: nat) -> Seq<u8> {
    hex_digits(
        n,
        if hex_len(n) <= HEADER_DIGITS {
            HEADER_DIGITS as nat
        } else {
            hex_len(n)
        },
    )
}

/// The header of message `message` of client `client`.
pub open spec fn header(client: nat, message: nat) -> Seq<u8> {
    padded_hex(client) + padded_hex(message)
}

/// The ASCII code of the hexadecimal digit `value`, in lower case.
fn digit(value: u8) -> (code: u8)
    requires
        value < 16,
    ensures
        code == hex_digit(value as nat),
{
    if value < 10 {
        48 + value
    } else {
        87 + value
    }
}

/// Appends the last `count` hexadecimal digits of `n`, with leading zeros.
fn append_hex_digits(out: &mut Vec<u8>, n: u64, count: u64)
    ensures
        final(out)@ == old(out)@ + hex_digits(n as nat, count as nat),
    decreases count,
{
    if count > 0 {
        append_hex_digits(out, n / 16, count - 1);
        out.push(digit((n % 16) as u8));
    }
    assert(out@ =~= old(out)@ + hex_digits(n as nat, count as nat));
}

/// `n` in hexadecimal, with leading zeros up to eight digits, appended to `out`.
fn append_padded_hex(out: &mut Vec<u8>, n: u64)
    ensures
        final(out)@ == old(out)@ + padded_hex(n as nat),
{
    let mut count: u64 = 0;
    let mut rest: u64 = n;
    while rest > 0
        invariant
            count + hex_len(rest as nat) == hex_len(n as nat),
            count + rest <= n,
        decreases rest,
    {
        rest = rest / 16;
        count = count + 1;
    }
    if count < HEADER_DIGITS as u64 {
        count = HEADER_DIGITS as u64;
    }
    append_hex_digits(out, n, count);
}

/// The payload of a message, `size` bytes long.
pub open spec fn payload_bytes(size: nat) -> Seq<u8> {
    Seq::new(size, |i: int| (i % 256) as u8)
}

/// The payload of a message: `size` bytes that count up from 0, over and over.
pub fn payload(size: usize) -> (bytes: Vec<u8>)
    ensures
        bytes@ == payload_bytes(size as nat),
        bytes@ == Seq::new(size as nat, |i: int| (i % 256) as u8),
{
    let mut bytes: Vec<u8> = Vec::new();
    let mut i: usize = 0;
    while i < size
        invariant
            i <= size,
            bytes@ == Seq::new(i as nat, |j: int| (j % 256) as u8),
        decreases size - i,
    {
        bytes.push((i % 256) as u8);
        i = i + 1;
        assert(bytes@ =~= Seq::new(i as nat, |j: int| (j % 256) as u8));
    }
    bytes
}

/// The length of a message with a payload of `size` bytes.
pub open spec fn frame_size(size: nat) -> nat {
    size + HEADER_LEN as nat
}

/// How many bytes a client waits for after it has sent a message with a payload
/// of `size` bytes.
pub fn frame_len(size: usize) -> (len: usize)
    requires
        size + HEADER_LEN <= usize::MAX,
    ensures
        len == size + HEADER_LEN,
        len == frame_size(size as nat),
{
    size + HEADER_LEN
}

/// How many messages a client sends at most.
pub open spec fn limit_for(duration_secs: Option<u64>, messages: usize) -> Option<usize> {
    if duration_secs is Some {
        None
    } else {
        Some(messages)
    }
}

/// How many messages a client sends at most: no limit applies where the test
/// has a duration.
pub fn message_limit(duration_secs: Option<u64>, messages: usize) -> (limit: Option<usize>)
    ensures
        limit == (if duration_secs is Some {
            None
        } else {
            Some(messages)
        }),
        limit == limit_for(duration_secs, messages),
{
    if duration_secs.is_some() {
        None
    } else {
        Some(messages)
    }
}

/// What a client does next.
#[derive(Debug)]
pub enum LoadStep {
    /// Send a message with this header, and wait for it to come back.
    Send(Vec<u8>),
    /// Stop.
    Stop,
}

/// A client under way.
#[derive(Clone, Copy, Debug, PartialEq, Eq, Structural)]
pub struct LoadClient {
    pub id: usize,
    pub limit: Option<usize>,
    pub sent: usize,
}

/// Whether a client with limit `limit` stops after `sent` messages; `passed` if
/// it has a deadline that has passed.
pub open spec fn stops(limit: Option<usize>, sent: nat, passed: bool) -> bool {
    (limit matches Some(most) && sent >= most) || passed
}

impl LoadClient {
    /// Client `id`, which has sent nothing.
    pub fn new(id: usize, limit: Option<usize>) -> (client: LoadClient)
        ensures
            client == (LoadClient { id, limit, sent: 0 }),
    {
        LoadClient { id, limit, sent: 0 }
    }

    /// What the client does next; `passed` if it has a deadline that has passed.
    pub fn next(&self, passed: bool) -> (step: LoadStep)
        ensures
            step is Stop <==> stops(self.limit, self.sent as nat, passed),
            step matches LoadStep::Send(bytes) ==> bytes@ == header(
                self.id as nat,
                self.sent as nat,
            ),
    {
        if let Some(most) = self.limit {
            if self.sent >= most {
                return LoadStep::Stop;
            }
        }
        if passed {
            return LoadStep::Stop;
        }
        let mut bytes: Vec<u8> = Vec::new();
        append_padded_hex(&mut bytes, self.id as u64);
        append_padded_hex(&mut bytes, self.sent as u64);
        assert(bytes@ =~= header(self.id as nat, self.sent as nat));
        LoadStep::Send(bytes)
    }

    /// Counts a message that has come back.
    pub fn count(&mut self)
        requires
            old(self).sent < usize::MAX,
        ensures
            *final(self) == (LoadClient { sent: (old(self).sent + 1) as usize, ..*old(self) }),
    {
        self.sent = self.sent + 1;
    }
}

/// What all clients together have counted. The counters wrap around.
#[derive(Clone, Copy, Debug, PartialEq, Eq, Structural)]
pub struct LoadStats {
    pub sent: u64,
    pub received: u64,
    pub latency_ms: u64,
    pub latency_count: u64,
}

/// What is counted after a message was sent.
pub open spec fn after_sent(stats: LoadStats) -> LoadStats {
    LoadStats { sent: stats.sent.wrapping_add(1), ..stats }
}

/// What is counted after a message came back after `rtt_ms` milliseconds.
pub open spec fn after_reply(stats: LoadStats, rtt_ms: u64) -> LoadStats {
    LoadStats {
        sent: stats.sent,
        received: stats.received.wrapping_add(1),
        latency_ms: stats.latency_ms.wrapping_add(rtt_ms),
        latency_count: stats.latency_count.wrapping_add(1),
    }
}

impl LoadStats {
    /// Nothing counted.
    pub fn new() -> (stats: LoadStats)
        ensures
            stats == (LoadStats { sent: 0, received: 0, latency_ms: 0, latency_count: 0 }),
    {
        LoadStats { sent: 0, received: 0, latency_ms: 0, latency_count: 0 }
    }

    /// Counts a message that was sent.
    pub fn record_sent(&mut self)
        ensures
            *final(self) == (LoadStats { sent: old(self).sent.wrapping_add(1), ..*old(self) }),
            *final(self) == after_sent(*old(self)),
    {
        self.sent = self.sent.wrapping_add(1);
    }

    /// Counts a message that came back after `rtt_ms` milliseconds.
    pub fn record_reply(&mut self, rtt_ms: u64)
        ensures
            *final(self) == (LoadStats {
                sent: old(self).sent,
                received: old(self).received.wrapping_add(1),
                latency_ms: old(self).latency_ms.wrapping_add(rtt_ms),
                latency_count: old(self).latency_count.wrapping_add(1),
            }),
            *final(self) == after_reply(*old(self), rtt_ms),
    {
        self.latency_ms = self.latency_ms.wrapping_add(rtt_ms);
        self.latency_count = self.latency_count.wrapping_add(1);
        self.received = self.received.wrapping_add(1);
    }
}

/// How many of `failed` are true.
pub open spec fn failure_count(failed: Seq<bool>) -> nat {
    failed.filter(|f: bool| f).len()
}

/// How many clients failed; `failed[i]` if client `i` did.
pub fn failures(failed: &[bool]) -> (count: usize)
    ensures
        count == failure_count(failed@),
        count == failed@.filter(|f: bool| f).len(),
{
    let mut count: usize = 0;
    let mut i: usize = 0;
    while i < failed.len()
        invariant
            i <= failed@.len(),
            count <= i,
            count == failed@.take(i as int).filter(|f: bool| f).len(),
        decreases failed@.len() - i,
    {
        proof {
            reveal(Seq::filter);
            assert(failed@.take(i + 1).drop_last() =~= failed@.take(i as int));
        }
        if failed[i] {
            count = count + 1;
        }
        i = i + 1;
    }
    assert(failed@.take(i as int) =~= failed@);
    count
}

/// The exit code of a load test.
pub open spec fn code_for(failures: nat) -> int {
    if failures > 0 {
        1
    } else {
        0
    }
}

/// The exit code of a load test in which `failures` clients failed.
pub fn exit_code(failures: usize) -> (code: i32)
    ensures
        code == code_for(failures as nat),
        code == (if failures > 0 {
            1int
        } else {
            0
        }),
{
    if failures > 0 {
        1
    } else {
        0
    }
}

/// How many numbers can be told apart by `count` hexadecimal digits.
pub open spec fn hex_range(count: nat) -> nat
    decreases count,
{
    if count == 0 {
        1
    } else {
        16 * hex_range((count - 1) as nat)
    }
}

proof fn lemma_hex_len(n: nat, count: nat)
    requires
        n < hex_range(count),
    ensures
        hex_len(n) <= count,
    decreases count,
{
    if count > 0 && n > 0 {
        lemma_hex_len(n / 16, (count - 1) as nat);
    }
}

proof fn lemma_hex_digits_len(n: nat, count: nat)
    ensures
        hex_digits(n, count).len() == count,
    decreases count,
{
    if count > 0 {
        lemma_hex_digits_len(n / 16, (count - 1) as nat);
    }
}

proof fn lemma_hex_digits_injective(n: nat, m: nat, count: nat)
    requires
        n < hex_range(count),
        m < hex_range(count),
        hex_digits(n, count) == hex_digits(m, count),
    ensures
        n == m,
    decreases count,
{
    if count > 0 {
        let less = (count - 1) as nat;
        let a = hex_digits(n, count);
        let b = hex_digits(m, count);
        assert(a.drop_last() =~= hex_digits(n / 16, less));
        assert(b.drop_last() =~= hex_digits(m / 16, less));
        assert(a.last() == hex_digit(n % 16));
        assert(b.last() == hex_digit(m % 16));
        lemma_hex_digits_injective(n / 16, m / 16, less);
    }
}

proof fn lemma_header_range()
    ensures
        hex_range(8) == 0x1_0000_0000,
{
    reveal_with_fuel(hex_range, 9);
}

/// The header of a client and a message whose numbers fit 32 bits is as long as
/// clients expect, so that a message with its payload has the length that they
/// wait for.
pub proof fn law_header_len(client: nat, message: nat)
    requires
        client < 0x1_0000_0000,
        message < 0x1_0000_0000,
    ensures
        header(client, message).len() == HEADER_LEN,
{
    lemma_header_range();
    lemma_hex_len(client, 8);
    lemma_hex_len(message, 8);
    lemma_hex_digits_len(client, 8);
    lemma_hex_digits_len(message, 8);
}

/// No two messages have the same header, as long as the numbers fit 32 bits.
pub proof fn law_header_tells_messages_apart(
    client1: nat,
    message1: nat,
    client2: nat,
    message2: nat,
)
    requires
        client1 < 0x1_0000_0000,
        message1 < 0x1_0000_0000,
        client2 < 0x1_0000_0000,
        message2 < 0x1_0000_0000,
        header(client1, message1) == header(client2, message2),
    ensures
        client1 == client2,
        message1 == message2,
{
    lemma_header_range();
    law_header_len(client1, message1);
    lemma_hex_len(client1, 8);
    lemma_hex_len(message1, 8);
    lemma_hex_len(client2, 8);
    lemma_hex_len(message2, 8);
    lemma_hex_digits_len(client1, 8);
    lemma_hex_digits_len(message1, 8);
    lemma_hex_digits_len(client2, 8);
    lemma_hex_digits_len(message2, 8);
    let a = header(client1, message1);
    let b = header(client2, message2);
    assert(a.take(8) =~= hex_digits(client1, 8));
    assert(b.take(8) =~= hex_digits(client2, 8));
    assert(a.skip(8) =~= hex_digits(message1, 8));
    assert(b.skip(8) =~= hex_digits(message2, 8));
    lemma_hex_digits_injective(client1, client2, 8);
    lemma_hex_digits_injective(message1, message2, 8);
}

/// The numbers of the messages that a client sends from message `sent` on if
/// all come back, over at most `rounds` rounds; `passed(n)`: its deadline has
/// passed when it looks before message `n`.
pub open spec fn messages(
    limit: Option<usize>,
    sent: nat,
    passed: spec_fn(nat) -> bool,
    rounds: nat,
) -> Seq<nat>
    decreases rounds,
{
    if rounds == 0 || stops(limit, sent, passed(sent)) {
        Seq::empty()
    } else {
        seq![sent] + messages(limit, sent + 1, passed, (rounds - 1) as nat)
    }
}

/// A client without a deadline sends exactly as many messages as its limit
/// says, numbered from 0, and then stops.
pub proof fn law_client_sends_limit(
    most: usize,
    sent: nat,
    passed: spec_fn(nat) -> bool,
    rounds: nat,
)
    requires
        sent <= most,
        forall|n: nat| !#[trigger] passed(n),
        rounds >= most - sent,
    ensures
        messages(Some(most), sent, passed, rounds) =~= Seq::new(
            (most - sent) as nat,
            |i: int| (sent + i) as nat,
        ),
    decreases rounds,
{
    if sent < most {
        law_client_sends_limit(most, sent + 1, passed, (rounds - 1) as nat);
    }
}

/// A client with a deadline that has passed sends nothing more.
pub proof fn law_client_stops_at_deadline(
    limit: Option<usize>,
    sent: nat,
    passed: spec_fn(nat) -> bool,
    rounds: nat,
)
    requires
        passed(sent),
    ensures
        messages(limit, sent, passed, rounds).len() == 0,
{
}

/// The payload has the length that is asked for, and counts up from 0, starting
/// over after 255.
pub proof fn law_payload(size: nat, i: int)
    requires
        0 <= i < size,
    ensures
        payload_bytes(size).len() == size,
        payload_bytes(size)[0] == 0,
        i + 1 < size ==> payload_bytes(size)[i + 1] == if payload_bytes(size)[i] == 255 {
            0int
        } else {
            payload_bytes(size)[i] + 1
        },
{
}

/// A client waits for as many bytes as it has sent: those of the header and those
/// of the payload.
pub proof fn law_frame(client: nat, message: nat, size: nat)
    requires
        client < 0x1_0000_0000,
        message < 0x1_0000_0000,
    ensures
        frame_size(size) == header(client, message).len() + payload_bytes(size).len(),
{
    law_header_len(client, message);
}

/// The value of a hexadecimal digit in lower case, and -1 for anything else.
pub open spec fn digit_value(code: u8) -> int {
    if 48 <= code <= 57 {
        code - 48
    } else if 97 <= code <= 102 {
        code - 87
    } else {
        -1
    }
}

/// The number that digits stand for.
pub open spec fn hex_value(digits: Seq<u8>) -> int
    decreases digits.len(),
{
    if digits.len() == 0 {
        0
    } else {
        16 * hex_value(digits.drop_last()) + digit_value(digits.last())
    }
}

proof fn lemma_hex_value(n: nat, count: nat)
    requires
        n < hex_range(count),
    ensures
        hex_value(hex_digits(n, count)) == n,
        forall|i: int|
            0 <= i < hex_digits(n, count).len() ==> 0 <= digit_value(
                #[trigger] hex_digits(n, count)[i],
            ),
    decreases count,
{
    if count > 0 {
        let less = (count - 1) as nat;
        let digits = hex_digits(n, count);
        lemma_hex_value(n / 16, less);
        assert(digits.drop_last() =~= hex_digits(n / 16, less));
        assert(digit_value(hex_digit(n % 16)) == n % 16);
        assert forall|i: int| 0 <= i < digits.len() implies 0 <= digit_value(#[trigger] digits[i]) by {
            if i < digits.len() - 1 {
                assert(digits[i] == hex_digits(n / 16, less)[i]);
            }
        }
    }
}

proof fn lemma_in_range(n: nat, count: nat)
    requires
        hex_len(n) <= count,
    ensures
        n < hex_range(count),
    decreases count,
{
    if count == 0 {
        assert(n == 0);
    } else if n > 0 {
        lemma_in_range(n / 16, (count - 1) as nat);
    } else {
        lemma_in_range(0, (count - 1) as nat);
    }
}

proof fn lemma_no_leading_zero(n: nat)
    requires
        n > 0,
    ensures
        hex_digits(n, hex_len(n)).len() > 0,
        hex_digits(n, hex_len(n))[0] != 48,
    decreases n,
{
    let count = hex_len(n);
    lemma_hex_digits_len(n, count);
    lemma_hex_digits_len(n / 16, (count - 1) as nat);
    if n / 16 > 0 {
        lemma_no_leading_zero(n / 16);
        assert(hex_digits(n, count)[0] == hex_digits(n / 16, (count - 1) as nat)[0]);
    } else {
        assert(hex_len(n / 16) == 0);
        assert(count == 1);
        assert(hex_digits(n, 1) =~= Seq::<u8>::empty().push(hex_digit(n % 16)));
        assert(n % 16 == n);
    }
}

/// A number in a header reads back as itself, however large it is: all its
/// characters are hexadecimal digits in lower case that stand for the number; there
/// are at least eight, and more only where the number needs them.
pub proof fn law_hex_reads_back(n: nat)
    ensures
        hex_value(padded_hex(n)) == n,
        forall|i: int|
            0 <= i < padded_hex(n).len() ==> 0 <= digit_value(#[trigger] padded_hex(n)[i]),
        padded_hex(n).len() >= 8,
        padded_hex(n).len() > 8 ==> padded_hex(n)[0] != 48,
{
    let count = if hex_len(n) <= 8 {
        8nat
    } else {
        hex_len(n)
    };
    lemma_in_range(n, count);
    lemma_hex_value(n, count);
    lemma_hex_digits_len(n, count);
    if hex_len(n) > 8 {
        lemma_no_leading_zero(n);
    }
}

/// A header is the number of the client followed by the number of the message.
pub proof fn law_header_reads_back(client: nat, message: nat)
    ensures
        ({
            let cut = padded_hex(client).len() as int;
            &&& hex_value(header(client, message).take(cut)) == client
            &&& hex_value(header(client, message).skip(cut)) == message
            &&& client < 0x1_0000_0000 ==> cut == 8
        }),
{
    law_hex_reads_back(client);
    law_hex_reads_back(message);
    let cut = padded_hex(client).len() as int;
    assert(header(client, message).take(cut) =~= padded_hex(client));
    assert(header(client, message).skip(cut) =~= padded_hex(message));
    if client < 0x1_0000_0000 {
        lemma_header_range();
        lemma_hex_len(client, 8);
        lemma_hex_digits_len(client, 8);
    }
}

/// A client goes on as long as neither its limit nor its deadline stops it: without
/// a limit for ever, and with one as long as it has sent less; and a deadline that
/// has passed stops it in any case.
pub proof fn law_client_goes_on(most: usize, sent: nat, limit: Option<usize>)
    ensures
        !stops(None, sent, false),
        stops(Some(most), sent, false) <==> sent >= most,
        stops(limit, sent, true),
{
}

/// A duration lifts the limit, and without one the limit is the number of messages.
pub proof fn law_duration_or_messages(secs: u64, messages: usize)
    ensures
        limit_for(Some(secs), messages) is None,
        limit_for(None, messages) == Some(messages),
{
}

/// The sum of `rtts`.
pub open spec fn total_of(rtts: Seq<u64>) -> nat
    decreases rtts.len(),
{
    if rtts.len() == 0 {
        0
    } else {
        total_of(rtts.drop_last()) + rtts.last() as nat
    }
}

/// What is counted after replies that took `rtts`.
pub open spec fn after_replies(stats: LoadStats, rtts: Seq<u64>) -> LoadStats
    decreases rtts.len(),
{
    if rtts.len() == 0 {
        stats
    } else {
        after_reply(after_replies(stats, rtts.drop_last()), rtts.last())
    }
}

/// As long as the numbers fit, the counters hold how many messages came back and
/// how long they took together, and a message that is sent counts as that alone.
pub proof fn law_statistics(stats: LoadStats, rtts: Seq<u64>)
    requires
        stats.received + rtts.len() <= u64::MAX,
        stats.latency_count + rtts.len() <= u64::MAX,
        stats.latency_ms + total_of(rtts) <= u64::MAX,
        stats.sent < u64::MAX,
    ensures
        after_replies(stats, rtts).received == stats.received + rtts.len(),
        after_replies(stats, rtts).latency_count == stats.latency_count + rtts.len(),
        after_replies(stats, rtts).latency_ms == stats.latency_ms + total_of(rtts),
        after_replies(stats, rtts).sent == stats.sent,
        after_sent(stats).sent == stats.sent + 1,
        after_sent(stats).received == stats.received,
        after_sent(stats).latency_ms == stats.latency_ms,
        after_sent(stats).latency_count == stats.latency_count,
    decreases rtts.len(),
{
    if rtts.len() > 0 {
        law_statistics(stats, rtts.drop_last());
    }
}

/// Failures add up, each client counts once, and the exit code says whether there
/// were any.
pub proof fn law_failures(a: Seq<bool>, b: Seq<bool>, count: nat)
    ensures
        failure_count(Seq::empty()) == 0,
        failure_count(seq![true]) == 1,
        failure_count(seq![false]) == 0,
        failure_count(a + b) == failure_count(a) + failure_count(b),
        code_for(count) == 0 <==> count == 0,
        code_for(count) == 0 || code_for(count) == 1,
{
    reveal_with_fuel(Seq::filter, 2);
    assert(seq![true].drop_last() =~= Seq::<bool>::empty());
    assert(seq![false].drop_last() =~= Seq::<bool>::empty());
    Seq::filter_distributes_over_add(a, b, |f: bool| f);
}

} // verus!
