//! The transports that a proxy can run on, and their names.

pub use crate::quic::{quinn_client_config_with_cert, quinn_server_config, QuinnBiStream};

use crate::text::{ascii_lowercase, contains_text, is_part_of, joined, lowercase, same_text};
use vstd::prelude::*;
use vstd::utf8::is_ascii_chars;

verus! {

/// A transport between proxy client and proxy server.
#[derive(Clone, Copy, Debug, PartialEq, Eq, Structural)]
pub enum Transport {
    /// KCP over UDP. The default.
    KcpTokio,
    /// QUIC over UDP with TLS, by quinn.
    Quinn,
    /// QUIC over UDP, by the picoquic C library. Only in a build that carries
    /// that library.
    SlipstreamPicoQuic,
}

impl Default for Transport {
    fn default() -> (transport: Transport)
        ensures
            transport == Transport::KcpTokio,
    {
        Transport::KcpTokio
    }
}

/// The transport called `name`, a text in lower case, in a build that carries
/// picoquic if `slipstream`.
pub open spec fn named(name: Seq<char>, slipstream: bool) -> Option<Transport> {
    if name == "kcp-tokio"@ || name == "kcptokio"@ || name == "kcp"@ {
        Some(Transport::KcpTokio)
    } else if name == "quinn"@ || name == "quic"@ {
        Some(Transport::Quinn)
    } else if slipstream && (name == "slipstream-picoquic"@ || name == "slipstream"@ || name
        == "picoquic"@) {
        Some(Transport::SlipstreamPicoQuic)
    } else {
        None
    }
}

/// The names of the transports, for help texts, in a build that carries picoquic
/// if `slipstream`.
pub open spec fn available_names(slipstream: bool) -> Seq<Seq<char>> {
    if slipstream {
        seq!["kcp-tokio"@, "quinn"@, "slipstream-picoquic"@]
    } else {
        seq!["kcp-tokio"@, "quinn"@]
    }
}

/// The texts of `names`.
pub open spec fn texts_of(names: Seq<&'static str>) -> Seq<Seq<char>> {
    names.map_values(|name: &'static str| name@)
}

/// What is said of the text `given`, in lower case `name`, if it names no
/// transport.
pub open spec fn unknown(given: Seq<char>, name: Seq<char>, slipstream: bool) -> Seq<char> {
    if slipstream {
        "unknown transport '"@ + given + "'; use kcp-tokio, quinn, or slipstream-picoquic"@
    } else if is_part_of("slipstream"@, name) || is_part_of("picoquic"@, name) {
        "transport '"@ + given
            + "' requires building with --features slipstream-picoquic; see README"@
    } else {
        "unknown transport '"@ + given + "'; use kcp-tokio or quinn"@
    }
}

/// Whether `result` is what the text `given`, in lower case `name`, stands for.
pub open spec fn is_parse(
    result: Result<Transport, String>,
    given: Seq<char>,
    name: Seq<char>,
    slipstream: bool,
) -> bool {
    match result {
        Ok(transport) => named(name, slipstream) == Some(transport),
        Err(text) => named(name, slipstream) is None && text@ == unknown(given, name, slipstream),
    }
}

impl Transport {
    /// The names of the transports, for help texts, in a build without
    /// picoquic.
    pub fn available() -> (names: &'static [&'static str])
        ensures
            texts_of(names@) == available_names(false),
    {
        Self::available_with(false)
    }

    /// The names of the transports, for help texts, in a build that carries
    /// picoquic if `slipstream`.
    pub fn available_with(slipstream: bool) -> (names: &'static [&'static str])
        ensures
            texts_of(names@) == available_names(slipstream),
    {
        if slipstream {
            let names: &'static [&'static str] = &["kcp-tokio", "quinn", "slipstream-picoquic"];
            assert(texts_of(names@) =~= available_names(true));
            names
        } else {
            let names: &'static [&'static str] = &["kcp-tokio", "quinn"];
            assert(texts_of(names@) =~= available_names(false));
            names
        }
    }

    /// The transport that the text `given` stands for, which is `name` in lower
    /// case, in a build that carries picoquic if `slipstream`.
    pub fn from_lowercase(given: &str, name: &str, slipstream: bool) -> (result: Result<
        Transport,
        String,
    >)
        ensures
            is_parse(result, given@, name@, slipstream),
    {
        if same_text(name, "kcp-tokio") || same_text(name, "kcptokio") || same_text(name, "kcp") {
            return Ok(Transport::KcpTokio);
        }
        if same_text(name, "quinn") || same_text(name, "quic") {
            return Ok(Transport::Quinn);
        }
        if slipstream {
            if same_text(name, "slipstream-picoquic") || same_text(name, "slipstream")
                || same_text(name, "picoquic") {
                return Ok(Transport::SlipstreamPicoQuic);
            }
            return Err(
                joined(
                    "unknown transport '",
                    given,
                    "'; use kcp-tokio, quinn, or slipstream-picoquic",
                ),
            );
        }
        if contains_text(name, "slipstream") || contains_text(name, "picoquic") {
            return Err(
                joined(
                    "transport '",
                    given,
                    "' requires building with --features slipstream-picoquic; see README",
                ),
            );
        }
        Err(joined("unknown transport '", given, "'; use kcp-tokio or quinn"))
    }

    /// The transport that `s` stands for, in whatever case its letters are, in
    /// a build that carries picoquic if `slipstream`.
    pub fn from_str_with(s: &str, slipstream: bool) -> (result: Result<Transport, String>)
        ensures
            is_parse(result, s@, lowercase(s@), slipstream),
            is_ascii_chars(s@) ==> lowercase(s@) == ascii_lowercase(s@),
    {
        let name = s.to_lowercase();
        Self::from_lowercase(s, name.as_str(), slipstream)
    }
}

impl std::str::FromStr for Transport {
    type Err = String;

    /// The transport that `s` stands for, in whatever case its letters are, in
    /// a build without picoquic.
    fn from_str(s: &str) -> (result: Result<Transport, String>)
        ensures
            is_parse(result, s@, lowercase(s@), false),
            is_ascii_chars(s@) ==> lowercase(s@) == ascii_lowercase(s@),
    {
        Transport::from_str_with(s, false)
    }
}

/// Each name in the help texts stands for a transport, and different names for
/// different transports.
pub proof fn law_available_names(slipstream: bool, i: int, j: int)
    requires
        0 <= i < available_names(slipstream).len(),
        0 <= j < available_names(slipstream).len(),
    ensures
        is_ascii_chars(available_names(slipstream)[i]),
        named(ascii_lowercase(available_names(slipstream)[i]), slipstream) is Some,
        named(ascii_lowercase(available_names(slipstream)[i]), slipstream) == named(
            ascii_lowercase(available_names(slipstream)[j]),
            slipstream,
        ) ==> i == j,
{
    reveal_names();
    assert(ascii_lowercase("kcp-tokio"@) =~= "kcp-tokio"@);
    assert(ascii_lowercase("quinn"@) =~= "quinn"@);
    assert(ascii_lowercase("slipstream-picoquic"@) =~= "slipstream-picoquic"@);
}

/// Every transport that a name stands for is in the help texts, the default one
/// first; picoquic comes after those that a build without it has.
pub proof fn law_every_transport_is_listed(name: Seq<char>, slipstream: bool)
    ensures
        named(name, slipstream) is Some ==> exists|i: int|
            0 <= i < available_names(slipstream).len() && named(
                #[trigger] available_names(slipstream)[i],
                slipstream,
            ) == named(name, slipstream),
        named(available_names(slipstream)[0], slipstream) == Some(Transport::KcpTokio),
        available_names(true).len() == available_names(false).len() + 1,
        available_names(true).drop_last() == available_names(false),
        named(available_names(true).last(), true) == Some(Transport::SlipstreamPicoQuic),
{
    reveal_names();
    assert(available_names(true).drop_last() =~= available_names(false));
    let names = available_names(slipstream);
    assert(named(names[0], slipstream) == Some(Transport::KcpTokio));
    assert(named(names[1], slipstream) == Some(Transport::Quinn)) by {
        assert("quinn"@.len() == 5);
    }
    assert("slipstream-picoquic"@.len() == 19);
    if slipstream {
        assert(named(names[2], slipstream) == Some(Transport::SlipstreamPicoQuic));
    }
}

/// Two texts that differ in the case of their letters alone stand for the same
/// transport, or neither stands for any.
pub proof fn law_letter_case(
    first: Result<Transport, String>,
    second: Result<Transport, String>,
    s: Seq<char>,
    t: Seq<char>,
    slipstream: bool,
)
    requires
        is_parse(first, s, lowercase(s), slipstream),
        is_parse(second, t, lowercase(t), slipstream),
        lowercase(s) == lowercase(t),
    ensures
        first is Ok <==> second is Ok,
        first is Ok ==> first->Ok_0 == second->Ok_0,
{
}

/// In a build without picoquic, a name of that transport is refused, and the
/// answer says how to build with it.
pub proof fn law_missing_picoquic(
    result: Result<Transport, String>,
    given: Seq<char>,
    name: Seq<char>,
)
    requires
        named(name, true) == Some(Transport::SlipstreamPicoQuic),
        is_parse(result, given, name, false),
    ensures
        result matches Err(text) && text@ == "transport '"@ + given
            + "' requires building with --features slipstream-picoquic; see README"@,
{
    reveal_names();
    if name == "picoquic"@ {
        assert(name.subrange(0, name.len() as int) =~= "picoquic"@);
    } else {
        assert(name.subrange(0, 10) =~= "slipstream"@);
    }
}

/// A name that stands for a transport in a build without picoquic stands for the
/// same one in a build with it.
pub proof fn law_picoquic_adds_names(name: Seq<char>)
    ensures
        named(name, false) is Some ==> named(name, true) == named(name, false),
        named(name, true) is Some ==> named(name, false) == named(name, true) || named(name, true)
            == Some(Transport::SlipstreamPicoQuic),
{
}

/// What the names are, letter by letter.
proof fn reveal_names()
    ensures
        "kcp-tokio"@ == seq!['k', 'c', 'p', '-', 't', 'o', 'k', 'i', 'o'],
        "kcptokio"@ == seq!['k', 'c', 'p', 't', 'o', 'k', 'i', 'o'],
        "kcp"@ == seq!['k', 'c', 'p'],
        "quinn"@ == seq!['q', 'u', 'i', 'n', 'n'],
        "quic"@ == seq!['q', 'u', 'i', 'c'],
        "slipstream"@ == seq!['s', 'l', 'i', 'p', 's', 't', 'r', 'e', 'a', 'm'],
        "picoquic"@ == seq!['p', 'i', 'c', 'o', 'q', 'u', 'i', 'c'],
        "slipstream-picoquic"@ == "slipstream"@ + seq!['-'] + "picoquic"@,
{
    reveal_strlit("kcp-tokio");
    reveal_strlit("kcptokio");
    reveal_strlit("kcp");
    reveal_strlit("quinn");
    reveal_strlit("quic");
    reveal_strlit("slipstream");
    reveal_strlit("picoquic");
    reveal_strlit("slipstream-picoquic");
}

/// These names, and no others, stand for transports.
pub proof fn law_known_names(name: Seq<char>, slipstream: bool)
    ensures
        named(name, slipstream) == Some(Transport::KcpTokio) <==> name == "kcp-tokio"@ || name
            == "kcptokio"@ || name == "kcp"@,
        named(name, slipstream) == Some(Transport::Quinn) <==> name == "quinn"@ || name == "quic"@,
        named(name, slipstream) == Some(Transport::SlipstreamPicoQuic) <==> slipstream && (name
            == "slipstream-picoquic"@ || name == "slipstream"@ || name == "picoquic"@),
{
    reveal_names();
    assert("kcp-tokio"@.len() == 9 && "kcptokio"@.len() == 8 && "kcp"@.len() == 3);
    assert("quinn"@.len() == 5 && "quic"@.len() == 4);
    assert("slipstream"@.len() == 10 && "picoquic"@.len() == 8 && "slipstream-picoquic"@.len()
        == 19);
    assert("picoquic"@[0] == 'p' && "kcptokio"@[0] == 'k');
}

/// What a text is taken for is fixed by its lower case: a name gives its
/// transport, and any other text an answer that quotes the text as it was given.
pub proof fn law_answers_quote_the_text(
    result: Result<Transport, String>,
    given: Seq<char>,
    name: Seq<char>,
    slipstream: bool,
)
    requires
        is_parse(result, given, name, slipstream),
    ensures
        result is Ok <==> named(name, slipstream) is Some,
        result matches Ok(transport) ==> Some(transport) == named(name, slipstream),
        result matches Err(text) ==> exists|a: Seq<char>, b: Seq<char>| #[trigger] (a + seq!['\''] + given
            + seq!['\''] + b) == text@,
{
    if let Err(text) = result {
        reveal_strlit("unknown transport '");
        reveal_strlit("transport '");
        reveal_strlit("unknown transport ");
        reveal_strlit("transport ");
        reveal_strlit("'; use kcp-tokio, quinn, or slipstream-picoquic");
        reveal_strlit("; use kcp-tokio, quinn, or slipstream-picoquic");
        reveal_strlit("' requires building with --features slipstream-picoquic; see README");
        reveal_strlit(" requires building with --features slipstream-picoquic; see README");
        reveal_strlit("'; use kcp-tokio or quinn");
        reveal_strlit("; use kcp-tokio or quinn");
        let (a, b) = if slipstream {
            ("unknown transport "@, "; use kcp-tokio, quinn, or slipstream-picoquic"@)
        } else if is_part_of("slipstream"@, name) || is_part_of("picoquic"@, name) {
            (
                "transport "@,
                " requires building with --features slipstream-picoquic; see README"@,
            )
        } else {
            ("unknown transport "@, "; use kcp-tokio or quinn"@)
        };
        assert(a + seq!['\''] + given + seq!['\''] + b =~= text@);
    }
}

/// The answer to a text that names no transport lists those that there are, or
/// says how to build with picoquic if the text speaks of that.
pub proof fn law_answers(given: Seq<char>, name: Seq<char>)
    ensures
        unknown(given, name, true) == "unknown transport '"@ + given
            + "'; use kcp-tokio, quinn, or slipstream-picoquic"@,
        is_part_of("slipstream"@, name) || is_part_of("picoquic"@, name) ==> unknown(
            given,
            name,
            false,
        ) == "transport '"@ + given
            + "' requires building with --features slipstream-picoquic; see README"@,
        !is_part_of("slipstream"@, name) && !is_part_of("picoquic"@, name) ==> unknown(
            given,
            name,
            false,
        ) == "unknown transport '"@ + given + "'; use kcp-tokio or quinn"@,
{
}

} // verus!
