//! What the picoquic library tells its callbacks and what they answer: events,
//! packet loop modes, loop options and the texts of its last TLS failure.

use vstd::prelude::*;

verus! {

/// Packet loop mode: the loop is about to start.
pub const PICOQUIC_PACKET_LOOP_READY: i32 = 0;

/// Packet loop mode: a batch of packets was received.
pub const PICOQUIC_PACKET_LOOP_AFTER_RECEIVE: i32 = 2;

/// Packet loop mode: a batch of packets was sent.
pub const PICOQUIC_PACKET_LOOP_AFTER_SEND: i32 = 3;

/// Packet loop mode: the loop is about to sleep and asks for how long.
pub const PICOQUIC_PACKET_LOOP_TIME_CHECK: i32 = 5;

/// The answer of a loop callback that ends the packet loop without an error.
pub const PICOQUIC_NO_ERROR_TERMINATE_PACKET_LOOP: i32 = 0x400 + 47;

/// The loop option that asks for time checks.
pub const DO_TIME_CHECK: u32 = 1;

/// The sleep, in microseconds, after which pending sends are looked at again.
pub const WAKE_SOON_MICROS: i64 = 2000;

/// A stream or connection event, in the order of its numeric code.
#[allow(non_camel_case_types)]
#[derive(Clone, Copy, Debug, PartialEq, Eq, Structural)]
pub enum picoquic_call_back_event_t {
    picoquic_callback_stream_data,
    picoquic_callback_stream_fin,
    picoquic_callback_stream_reset,
    picoquic_callback_stop_sending,
    picoquic_callback_stateless_reset,
    picoquic_callback_close,
    picoquic_callback_application_close,
    picoquic_callback_stream_gap,
    picoquic_callback_prepare_to_send,
    picoquic_callback_almost_ready,
    picoquic_callback_ready,
    picoquic_callback_datagram,
    picoquic_callback_version_negotiation,
    picoquic_callback_request_alpn_list,
    picoquic_callback_set_alpn,
    picoquic_callback_pacing_changed,
    picoquic_callback_prepare_datagram,
    picoquic_callback_datagram_acked,
    picoquic_callback_datagram_lost,
    picoquic_callback_datagram_spurious,
    picoquic_callback_path_available,
    picoquic_callback_path_suspended,
    picoquic_callback_path_deleted,
    picoquic_callback_path_quality_changed,
    picoquic_callback_path_address_observed,
    picoquic_callback_app_wakeup,
}

impl picoquic_call_back_event_t {
    /// All events, each at the index that is its numeric code.
    pub open spec fn all() -> Seq<picoquic_call_back_event_t> {
        seq![
            picoquic_call_back_event_t::picoquic_callback_stream_data,
            picoquic_call_back_event_t::picoquic_callback_stream_fin,
            picoquic_call_back_event_t::picoquic_callback_stream_reset,
            picoquic_call_back_event_t::picoquic_callback_stop_sending,
            picoquic_call_back_event_t::picoquic_callback_stateless_reset,
            picoquic_call_back_event_t::picoquic_callback_close,
            picoquic_call_back_event_t::picoquic_callback_application_close,
            picoquic_call_back_event_t::picoquic_callback_stream_gap,
            picoquic_call_back_event_t::picoquic_callback_prepare_to_send,
            picoquic_call_back_event_t::picoquic_callback_almost_ready,
            picoquic_call_back_event_t::picoquic_callback_ready,
            picoquic_call_back_event_t::picoquic_callback_datagram,
            picoquic_call_back_event_t::picoquic_callback_version_negotiation,
            picoquic_call_back_event_t::picoquic_callback_request_alpn_list,
            picoquic_call_back_event_t::picoquic_callback_set_alpn,
            picoquic_call_back_event_t::picoquic_callback_pacing_changed,
            picoquic_call_back_event_t::picoquic_callback_prepare_datagram,
            picoquic_call_back_event_t::picoquic_callback_datagram_acked,
            picoquic_call_back_event_t::picoquic_callback_datagram_lost,
            picoquic_call_back_event_t::picoquic_callback_datagram_spurious,
            picoquic_call_back_event_t::picoquic_callback_path_available,
            picoquic_call_back_event_t::picoquic_callback_path_suspended,
            picoquic_call_back_event_t::picoquic_callback_path_deleted,
            picoquic_call_back_event_t::picoquic_callback_path_quality_changed,
            picoquic_call_back_event_t::picoquic_callback_path_address_observed,
            picoquic_call_back_event_t::picoquic_callback_app_wakeup,
        ]
    }

    /// The event with numeric code `code`, or `None` where no event has it.
    pub fn from_code(code: i32) -> (event: Option<picoquic_call_back_event_t>)
        ensures
            event == (if 0 <= code < Self::all().len() {
                Some(Self::all()[code as int])
            } else {
                None
            }),
    {
        match code {
            0 => Some(picoquic_call_back_event_t::picoquic_callback_stream_data),
            1 => Some(picoquic_call_back_event_t::picoquic_callback_stream_fin),
            2 => Some(picoquic_call_back_event_t::picoquic_callback_stream_reset),
            3 => Some(picoquic_call_back_event_t::picoquic_callback_stop_sending),
            4 => Some(picoquic_call_back_event_t::picoquic_callback_stateless_reset),
            5 => Some(picoquic_call_back_event_t::picoquic_callback_close),
            6 => Some(picoquic_call_back_event_t::picoquic_callback_application_close),
            7 => Some(picoquic_call_back_event_t::picoquic_callback_stream_gap),
            8 => Some(picoquic_call_back_event_t::picoquic_callback_prepare_to_send),
            9 => Some(picoquic_call_back_event_t::picoquic_callback_almost_ready),
            10 => Some(picoquic_call_back_event_t::picoquic_callback_ready),
            11 => Some(picoquic_call_back_event_t::picoquic_callback_datagram),
            12 => Some(picoquic_call_back_event_t::picoquic_callback_version_negotiation),
            13 => Some(picoquic_call_back_event_t::picoquic_callback_request_alpn_list),
            14 => Some(picoquic_call_back_event_t::picoquic_callback_set_alpn),
            15 => Some(picoquic_call_back_event_t::picoquic_callback_pacing_changed),
            16 => Some(picoquic_call_back_event_t::picoquic_callback_prepare_datagram),
            17 => Some(picoquic_call_back_event_t::picoquic_callback_datagram_acked),
            18 => Some(picoquic_call_back_event_t::picoquic_callback_datagram_lost),
            19 => Some(picoquic_call_back_event_t::picoquic_callback_datagram_spurious),
            20 => Some(picoquic_call_back_event_t::picoquic_callback_path_available),
            21 => Some(picoquic_call_back_event_t::picoquic_callback_path_suspended),
            22 => Some(picoquic_call_back_event_t::picoquic_callback_path_deleted),
            23 => Some(picoquic_call_back_event_t::picoquic_callback_path_quality_changed),
            24 => Some(picoquic_call_back_event_t::picoquic_callback_path_address_observed),
            25 => Some(picoquic_call_back_event_t::picoquic_callback_app_wakeup),
            _ => None,
        }
    }
}

/// No two codes stand for the same event, and every event has a code.
pub proof fn law_event_codes(event: picoquic_call_back_event_t, i: int, j: int)
    requires
        0 <= i < picoquic_call_back_event_t::all().len(),
        0 <= j < picoquic_call_back_event_t::all().len(),
        picoquic_call_back_event_t::all()[i] == picoquic_call_back_event_t::all()[j],
    ensures
        i == j,
        picoquic_call_back_event_t::all().contains(event),
{
    let all = picoquic_call_back_event_t::all();
    let k: int = match event {
        picoquic_call_back_event_t::picoquic_callback_stream_data => 0,
        picoquic_call_back_event_t::picoquic_callback_stream_fin => 1,
        picoquic_call_back_event_t::picoquic_callback_stream_reset => 2,
        picoquic_call_back_event_t::picoquic_callback_stop_sending => 3,
        picoquic_call_back_event_t::picoquic_callback_stateless_reset => 4,
        picoquic_call_back_event_t::picoquic_callback_close => 5,
        picoquic_call_back_event_t::picoquic_callback_application_close => 6,
        picoquic_call_back_event_t::picoquic_callback_stream_gap => 7,
        picoquic_call_back_event_t::picoquic_callback_prepare_to_send => 8,
        picoquic_call_back_event_t::picoquic_callback_almost_ready => 9,
        picoquic_call_back_event_t::picoquic_callback_ready => 10,
        picoquic_call_back_event_t::picoquic_callback_datagram => 11,
        picoquic_call_back_event_t::picoquic_callback_version_negotiation => 12,
        picoquic_call_back_event_t::picoquic_callback_request_alpn_list => 13,
        picoquic_call_back_event_t::picoquic_callback_set_alpn => 14,
        picoquic_call_back_event_t::picoquic_callback_pacing_changed => 15,
        picoquic_call_back_event_t::picoquic_callback_prepare_datagram => 16,
        picoquic_call_back_event_t::picoquic_callback_datagram_acked => 17,
        picoquic_call_back_event_t::picoquic_callback_datagram_lost => 18,
        picoquic_call_back_event_t::picoquic_callback_datagram_spurious => 19,
        picoquic_call_back_event_t::picoquic_callback_path_available => 20,
        picoquic_call_back_event_t::picoquic_callback_path_suspended => 21,
        picoquic_call_back_event_t::picoquic_callback_path_deleted => 22,
        picoquic_call_back_event_t::picoquic_callback_path_quality_changed => 23,
        picoquic_call_back_event_t::picoquic_callback_path_address_observed => 24,
        picoquic_call_back_event_t::picoquic_callback_app_wakeup => 25,
    };
    assert(all[k] == event);
}

/// Options of the packet loop, as a set of flag bits: 1 asks for time checks,
/// 2 for the duration of system calls, 4 for an alternate port.
#[allow(non_camel_case_types)]
#[derive(Clone, Copy, Debug, PartialEq, Eq, Structural)]
pub struct picoquic_packet_loop_options_t {
    pub _flags: u32,
}

impl picoquic_packet_loop_options_t {
    /// Asks for time checks and for nothing else.
    pub fn request_time_check(&mut self)
        ensures
            final(self)._flags == DO_TIME_CHECK,
    {
        self._flags = DO_TIME_CHECK;
    }
}

/// The argument of a time check: the time, and how long the loop may sleep.
#[allow(non_camel_case_types)]
#[derive(Clone, Copy, Debug, PartialEq, Eq, Structural)]
pub struct packet_loop_time_check_arg_t {
    pub current_time: u64,
    pub delta_t: i64,
}

impl packet_loop_time_check_arg_t {
    /// Has the loop wake soon.
    pub fn wake_soon(&mut self)
        ensures
            final(self).current_time == old(self).current_time,
            final(self).delta_t == WAKE_SOON_MICROS,
    {
        self.delta_t = WAKE_SOON_MICROS;
    }
}

/// Whether a character is white space: whether it has the Unicode property
/// `White_Space`.
pub open spec fn is_white_space(c: char) -> bool {
    let code = c as int;
    ||| 0x9 <= code <= 0xd
    ||| code == 0x20 || code == 0x85 || code == 0xa0 || code == 0x1680
    ||| 0x2000 <= code <= 0x200a
    ||| code == 0x2028 || code == 0x2029 || code == 0x202f || code == 0x205f || code == 0x3000
}

/// Whether `r` is the text `s` without leading and trailing white space: the
/// characters from some place up to another, with white space alone before and
/// after them and none at their two ends.
pub open spec fn is_trim(r: Seq<char>, s: Seq<char>) -> bool {
    exists|i: int, j: int|
        0 <= i <= j <= s.len() && r == #[trigger] s.subrange(i, j) && (forall|k: int|
            0 <= k < s.len() && !(i <= k < j) ==> is_white_space(#[trigger] s[k])) && (i < j ==> (
        !is_white_space(s[i]) && !is_white_space(s[j - 1])))
}

/// Whether a text is all white space.
pub open spec fn is_blank(s: Seq<char>) -> bool {
    forall|k: int| 0 <= k < s.len() ==> is_white_space(#[trigger] s[k])
}

/// `str::trim` gives the text without leading and trailing white space, which is
/// what has the Unicode property `White_Space`.
pub assume_specification[ str::trim ](s: &str) -> (r: &str)
    ensures
        is_trim(r@, s@),
;

/// What is left of a text without white space at its ends is empty exactly if
/// the text is blank.
proof fn lemma_trimmed_blank(r: Seq<char>, s: Seq<char>)
    requires
        is_trim(r, s),
    ensures
        r.len() == 0 <==> is_blank(s),
{
    let (i, j) = choose|i: int, j: int|
        0 <= i <= j <= s.len() && r == #[trigger] s.subrange(i, j) && (forall|k: int|
            0 <= k < s.len() && !(i <= k < j) ==> is_white_space(#[trigger] s[k])) && (i < j ==> (
        !is_white_space(s[i]) && !is_white_space(s[j - 1])));
    if i < j {
        assert(!is_white_space(s[i]));
    }
}

/// The OpenSSL error text that picoquic saved when its TLS context failed, if
/// there is one: none where nothing was saved or the text is blank.
pub fn get_openssl_last_error(saved: Option<String>) -> (error: Option<String>)
    ensures
        error is Some <==> (saved matches Some(s) && !is_blank(s@)),
        error is Some ==> error == saved,
{
    match saved {
        Some(s) => {
            let text = s.as_str().trim();
            proof {
                lemma_trimmed_blank(text@, s@);
            }
            if !text.is_empty() {
                Some(s)
            } else {
                None
            }
        },
        None => None,
    }
}

/// Whether a text that picoquic saved describes a TLS failure.
pub open spec fn is_tls_failure(s: Seq<char>) -> bool {
    s.len() > 0 && s != "success"@
}

/// The description of picoquic's last TLS failure, if there is one: none where
/// nothing was saved, the text is empty or it says `success`.
pub fn get_tls_fail_detail(detail: Option<String>) -> (failure: Option<String>)
    ensures
        failure is Some <==> (detail matches Some(s) && s@.len() > 0 && s@ != "success"@),
        failure is Some <==> (detail matches Some(s) && is_tls_failure(s@)),
        failure is Some ==> failure == detail,
{
    match detail {
        Some(s) => {
            if s.as_str().is_empty() || s == "success".to_owned() {
                None
            } else {
                Some(s)
            }
        },
        None => None,
    }
}

/// Every code stands for the event that picoquic means by it.
pub proof fn law_event_of_each_code()
    ensures
        picoquic_call_back_event_t::all().len() == 26,
        picoquic_call_back_event_t::all()[0] is picoquic_callback_stream_data,
        picoquic_call_back_event_t::all()[1] is picoquic_callback_stream_fin,
        picoquic_call_back_event_t::all()[2] is picoquic_callback_stream_reset,
        picoquic_call_back_event_t::all()[3] is picoquic_callback_stop_sending,
        picoquic_call_back_event_t::all()[4] is picoquic_callback_stateless_reset,
        picoquic_call_back_event_t::all()[5] is picoquic_callback_close,
        picoquic_call_back_event_t::all()[6] is picoquic_callback_application_close,
        picoquic_call_back_event_t::all()[7] is picoquic_callback_stream_gap,
        picoquic_call_back_event_t::all()[8] is picoquic_callback_prepare_to_send,
        picoquic_call_back_event_t::all()[9] is picoquic_callback_almost_ready,
        picoquic_call_back_event_t::all()[10] is picoquic_callback_ready,
        picoquic_call_back_event_t::all()[11] is picoquic_callback_datagram,
        picoquic_call_back_event_t::all()[12] is picoquic_callback_version_negotiation,
        picoquic_call_back_event_t::all()[13] is picoquic_callback_request_alpn_list,
        picoquic_call_back_event_t::all()[14] is picoquic_callback_set_alpn,
        picoquic_call_back_event_t::all()[15] is picoquic_callback_pacing_changed,
        picoquic_call_back_event_t::all()[16] is picoquic_callback_prepare_datagram,
        picoquic_call_back_event_t::all()[17] is picoquic_callback_datagram_acked,
        picoquic_call_back_event_t::all()[18] is picoquic_callback_datagram_lost,
        picoquic_call_back_event_t::all()[19] is picoquic_callback_datagram_spurious,
        picoquic_call_back_event_t::all()[20] is picoquic_callback_path_available,
        picoquic_call_back_event_t::all()[21] is picoquic_callback_path_suspended,
        picoquic_call_back_event_t::all()[22] is picoquic_callback_path_deleted,
        picoquic_call_back_event_t::all()[23] is picoquic_callback_path_quality_changed,
        picoquic_call_back_event_t::all()[24] is picoquic_callback_path_address_observed,
        picoquic_call_back_event_t::all()[25] is picoquic_callback_app_wakeup,
{
}

/// A text is blank exactly if its parts are: an empty text is, a text of one
/// character is if that is white space, and two texts put together are if both
/// are. No letter or digit of ASCII is white space, and the space and the ends of
/// lines are.
pub proof fn law_blank(a: Seq<char>, b: Seq<char>, c: char)
    ensures
        is_blank(Seq::empty()),
        is_blank(seq![c]) <==> is_white_space(c),
        is_blank(a + b) <==> is_blank(a) && is_blank(b),
        c == ' ' || c == '\n' || c == '\r' || c == '\t' ==> is_white_space(c),
        '!' <= c <= '~' ==> !is_white_space(c),
{
    if is_blank(a + b) {
        assert forall|k: int| 0 <= k < a.len() implies is_white_space(#[trigger] a[k]) by {
            assert((a + b)[k] == a[k]);
        }
        assert forall|k: int| 0 <= k < b.len() implies is_white_space(#[trigger] b[k]) by {
            assert((a + b)[a.len() + k] == b[k]);
        }
    }
    if is_blank(seq![c]) {
        assert(seq![c][0] == c);
    }
}

/// Every text describes a failure but the empty one and `success`.
pub proof fn law_tls_failure(s: Seq<char>)
    ensures
        !is_tls_failure(s) <==> s == Seq::<char>::empty() || s == "success"@,
{
    if s.len() == 0 {
        assert(s =~= Seq::<char>::empty());
    }
}

} // verus!
