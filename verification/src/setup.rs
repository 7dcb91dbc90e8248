//! How the picoquic contexts of the client, of the server and of the TLS
//! warm-up are set up and taken down.
//!
//! Each is a sequence of calls into picoquic and the system, most of which can
//! fail. A step is the call to make; whether it worked decides the next step.
//! What is at stake is that a context that was made is freed, once, and that
//! what the callbacks point to outlives them.

use vstd::prelude::*;

verus! {

/// How many connections the client's picoquic context serves.
pub const CLIENT_CONNECTIONS: u32 = 1;

/// How many connections the server's picoquic context serves.
pub const SERVER_CONNECTIONS: u32 = 8;

/// Room of the queue from a bridge to its reader, in chunks.
pub const RECV_QUEUE: usize = 256;

/// Room of the queue from a writer to its bridge, in entries.
pub const SEND_QUEUE: usize = 64;

/// Room of the queue of wake signals from a bridge to its writer.
pub const WAKE_QUEUE: usize = 64;

/// How long a client waits for its connection to be ready, in seconds.
pub const CONNECT_TIMEOUT_SECS: u64 = 30;

/// Whether no byte of `bytes` is zero.
pub open spec fn zero_free(bytes: Seq<u8>) -> bool {
    !bytes.contains(0)
}

/// Whether `bytes` can be passed to C as a string: no byte of it is zero.
pub fn is_c_string(bytes: &[u8]) -> (ok: bool)
    ensures
        ok == zero_free(bytes@),
        ok == !bytes@.contains(0),
{
    let mut i: usize = 0;
    while i < bytes.len()
        invariant
            i <= bytes@.len(),
            !bytes@.take(i as int).contains(0),
        decreases bytes@.len() - i,
    {
        if bytes[i] == 0 {
            assert(bytes@[i as int] == 0);
            return false;
        }
        proof {
            assert(bytes@.take(i + 1) =~= bytes@.take(i as int).push(bytes@[i as int]));
            if bytes@.take(i + 1).contains(0) {
                let k = bytes@.take(i + 1).index_of(0);
                if k < i {
                    assert(bytes@.take(i as int)[k] == 0);
                }
            }
        }
        i = i + 1;
    }
    assert(bytes@.take(i as int) =~= bytes@);
    true
}

/// The file that a client passes to picoquic as that of the certificates it
/// trusts: the one at `path`, if there is one and its path is a C string.
pub fn trusted_root(path: Option<Vec<u8>>) -> (root: Option<Vec<u8>>)
    ensures
        root == (if path is Some && !path->0@.contains(0) {
            path
        } else {
            None
        }),
        match path {
            Some(bytes) => root matches Some(kept) && kept == bytes || root is None && !zero_free(
                bytes@,
            ),
            None => root is None,
        },
        root matches Some(kept) ==> zero_free(kept@),
{
    match path {
        Some(bytes) => {
            if is_c_string(bytes.as_slice()) {
                Some(bytes)
            } else {
                None
            }
        },
        None => None,
    }
}

/// The steps of a client's packet loop thread.
#[derive(Clone, Copy, Debug, PartialEq, Eq, Structural)]
pub enum ClientSetup {
    /// Check that the host is a C string.
    CheckHost,
    /// Check that the protocol name is a C string.
    CheckAlpn,
    /// Check that the server name is a C string.
    CheckServerName,
    /// Make the state that the callbacks share.
    MakeContext,
    /// Resolve the server's address.
    Resolve,
    /// Make a picoquic context.
    CreateQuic,
    /// Make a connection in it.
    CreateConnection,
    /// Set the connection's callback and start it.
    StartConnection,
    /// Run the packet loop until it ends.
    RunLoop,
    /// Free the picoquic context.
    FreeQuic,
    /// Reclaim the state that the callbacks shared.
    ReclaimContext,
    /// The thread is done.
    Finished,
}

/// The step after `step`, which worked if `ok`.
pub open spec fn after_client(step: ClientSetup, ok: bool) -> ClientSetup {
    match step {
        ClientSetup::CheckHost => if ok {
            ClientSetup::CheckAlpn
        } else {
            ClientSetup::Finished
        },
        ClientSetup::CheckAlpn => if ok {
            ClientSetup::CheckServerName
        } else {
            ClientSetup::Finished
        },
        ClientSetup::CheckServerName => if ok {
            ClientSetup::MakeContext
        } else {
            ClientSetup::Finished
        },
        ClientSetup::MakeContext => ClientSetup::Resolve,
        ClientSetup::Resolve => if ok {
            ClientSetup::CreateQuic
        } else {
            ClientSetup::ReclaimContext
        },
        ClientSetup::CreateQuic => if ok {
            ClientSetup::CreateConnection
        } else {
            ClientSetup::ReclaimContext
        },
        ClientSetup::CreateConnection => if ok {
            ClientSetup::StartConnection
        } else {
            ClientSetup::FreeQuic
        },
        ClientSetup::StartConnection => if ok {
            ClientSetup::RunLoop
        } else {
            ClientSetup::FreeQuic
        },
        ClientSetup::RunLoop => ClientSetup::FreeQuic,
        ClientSetup::FreeQuic => ClientSetup::ReclaimContext,
        ClientSetup::ReclaimContext => ClientSetup::Finished,
        ClientSetup::Finished => ClientSetup::Finished,
    }
}

impl ClientSetup {
    /// The first step.
    pub fn first() -> (step: ClientSetup)
        ensures
            step == ClientSetup::CheckHost,
    {
        ClientSetup::CheckHost
    }

    /// The step after this one, which worked if `ok`.
    pub fn next(self, ok: bool) -> (step: ClientSetup)
        ensures
            step == after_client(self, ok),
    {
        match self {
            ClientSetup::CheckHost if ok => ClientSetup::CheckAlpn,
            ClientSetup::CheckAlpn if ok => ClientSetup::CheckServerName,
            ClientSetup::CheckServerName if ok => ClientSetup::MakeContext,
            ClientSetup::MakeContext => ClientSetup::Resolve,
            ClientSetup::Resolve if ok => ClientSetup::CreateQuic,
            ClientSetup::CreateQuic if ok => ClientSetup::CreateConnection,
            ClientSetup::CreateConnection if ok => ClientSetup::StartConnection,
            ClientSetup::StartConnection if ok => ClientSetup::RunLoop,
            ClientSetup::CreateConnection
            | ClientSetup::StartConnection
            | ClientSetup::RunLoop => ClientSetup::FreeQuic,
            ClientSetup::Resolve
            | ClientSetup::CreateQuic
            | ClientSetup::FreeQuic => ClientSetup::ReclaimContext,
            _ => ClientSetup::Finished,
        }
    }
}

impl ClientSetup {
    /// Whether a picoquic context is there when this step is taken.
    pub open spec fn has_quic(self) -> bool {
        self is CreateConnection || self is StartConnection || self is RunLoop || self is FreeQuic
    }

    /// Whether the callbacks' state is there when this step is taken.
    pub open spec fn has_context(self) -> bool {
        self is Resolve || self is CreateQuic || self.has_quic() || self is ReclaimContext
    }

    /// How many steps are left at most.
    pub open spec fn steps_left(self) -> nat {
        match self {
            ClientSetup::CheckHost => 11,
            ClientSetup::CheckAlpn => 10,
            ClientSetup::CheckServerName => 9,
            ClientSetup::MakeContext => 8,
            ClientSetup::Resolve => 7,
            ClientSetup::CreateQuic => 6,
            ClientSetup::CreateConnection => 5,
            ClientSetup::StartConnection => 4,
            ClientSetup::RunLoop => 3,
            ClientSetup::FreeQuic => 2,
            ClientSetup::ReclaimContext => 1,
            ClientSetup::Finished => 0,
        }
    }
}

/// Whatever fails, a client's thread comes to its end, and there it has freed
/// the picoquic context and reclaimed the callbacks' state if it made them:
/// `has_quic` and `has_context` follow what each step makes and takes away, a
/// context is made only where none is and freed only where one is, the
/// callbacks' state is there as long as a context is, and at the end neither
/// is there.
pub proof fn law_client_cleans_up(step: ClientSetup, ok: bool)
    ensures
        !ClientSetup::CheckHost.has_quic() && !ClientSetup::CheckHost.has_context(),
        after_client(step, ok).has_quic() == match step {
            ClientSetup::CreateQuic => ok,
            ClientSetup::FreeQuic => false,
            _ => step.has_quic(),
        },
        after_client(step, ok).has_context() == match step {
            ClientSetup::MakeContext => true,
            ClientSetup::ReclaimContext => false,
            _ => step.has_context(),
        },
        step is CreateQuic ==> !step.has_quic(),
        step is FreeQuic ==> step.has_quic(),
        step is MakeContext ==> !step.has_context(),
        step is ReclaimContext ==> step.has_context() && !step.has_quic(),
        step.has_quic() ==> step.has_context(),
        step is RunLoop ==> step.has_quic(),
        step is Finished <==> step.steps_left() == 0,
        step is Finished ==> !step.has_quic() && !step.has_context(),
        !(step is Finished) ==> after_client(step, ok).steps_left() < step.steps_left(),
{
}

/// The steps of a server's packet loop thread.
#[derive(Clone, Copy, Debug, PartialEq, Eq, Structural)]
pub enum ServerSetup {
    /// Initialize the TLS backend on this thread.
    InitTls,
    /// Read the certificate and the key.
    ReadPem,
    /// Copy them into temporary files that nothing holds open.
    CopyPem,
    /// Check that the paths are C strings.
    CheckPaths,
    /// Make the state that the callbacks share.
    MakeContext,
    /// Make a picoquic context.
    CreateQuic,
    /// Make a certificate and a key of our own, in files whose paths are C
    /// strings.
    MakeFallback,
    /// Make a picoquic context with them.
    CreateFallback,
    /// Run the packet loop until it ends.
    RunLoop,
    /// Free the picoquic context.
    FreeQuic,
    /// Reclaim the state that the callbacks would have shared.
    ReclaimContext,
    /// The thread is done.
    Finished,
}

/// The step after `step`, which worked if `ok`.
///
/// Where the certificate or the key cannot be read, their paths are passed on
/// as they are. Where picoquic does not take them, a pair of our own is tried.
/// The callbacks' state is reclaimed if no packet loop ran on it. Once one has,
/// the state is kept for as long as the program runs: its end of the queue of
/// accepted connections stays open, so the accept loop is not ended by the end of
/// the packet loop.
pub open spec fn after_server(step: ServerSetup, ok: bool) -> ServerSetup {
    match step {
        ServerSetup::InitTls => ServerSetup::ReadPem,
        ServerSetup::ReadPem => if ok {
            ServerSetup::CopyPem
        } else {
            ServerSetup::CheckPaths
        },
        ServerSetup::CopyPem => if ok {
            ServerSetup::CheckPaths
        } else {
            ServerSetup::Finished
        },
        ServerSetup::CheckPaths => if ok {
            ServerSetup::MakeContext
        } else {
            ServerSetup::Finished
        },
        ServerSetup::MakeContext => ServerSetup::CreateQuic,
        ServerSetup::CreateQuic => if ok {
            ServerSetup::RunLoop
        } else {
            ServerSetup::MakeFallback
        },
        ServerSetup::MakeFallback => if ok {
            ServerSetup::CreateFallback
        } else {
            ServerSetup::ReclaimContext
        },
        ServerSetup::CreateFallback => if ok {
            ServerSetup::RunLoop
        } else {
            ServerSetup::ReclaimContext
        },
        ServerSetup::RunLoop => ServerSetup::FreeQuic,
        ServerSetup::FreeQuic => ServerSetup::Finished,
        ServerSetup::ReclaimContext => ServerSetup::Finished,
        ServerSetup::Finished => ServerSetup::Finished,
    }
}

impl ServerSetup {
    /// The first step.
    pub fn first() -> (step: ServerSetup)
        ensures
            step == ServerSetup::InitTls,
    {
        ServerSetup::InitTls
    }

    /// The step after this one, which worked if `ok`.
    pub fn next(self, ok: bool) -> (step: ServerSetup)
        ensures
            step == after_server(self, ok),
    {
        match self {
            ServerSetup::InitTls => ServerSetup::ReadPem,
            ServerSetup::ReadPem if ok => ServerSetup::CopyPem,
            ServerSetup::ReadPem => ServerSetup::CheckPaths,
            ServerSetup::CopyPem if ok => ServerSetup::CheckPaths,
            ServerSetup::CheckPaths if ok => ServerSetup::MakeContext,
            ServerSetup::MakeContext => ServerSetup::CreateQuic,
            ServerSetup::CreateQuic if ok => ServerSetup::RunLoop,
            ServerSetup::CreateFallback if ok => ServerSetup::RunLoop,
            ServerSetup::CreateQuic => ServerSetup::MakeFallback,
            ServerSetup::MakeFallback if ok => ServerSetup::CreateFallback,
            ServerSetup::MakeFallback
            | ServerSetup::CreateFallback => ServerSetup::ReclaimContext,
            ServerSetup::RunLoop => ServerSetup::FreeQuic,
            _ => ServerSetup::Finished,
        }
    }

    /// Whether a picoquic context is there when this step is taken.
    pub open spec fn has_quic(self) -> bool {
        self is RunLoop || self is FreeQuic
    }

    /// Whether the callbacks' state is there and no packet loop has run on it
    /// when this step is taken.
    pub open spec fn has_unused_context(self) -> bool {
        self is CreateQuic || self is MakeFallback || self is CreateFallback || self is RunLoop
            || self is ReclaimContext
    }

    /// How many steps are left at most.
    pub open spec fn steps_left(self) -> nat {
        match self {
            ServerSetup::InitTls => 10,
            ServerSetup::ReadPem => 9,
            ServerSetup::CopyPem => 8,
            ServerSetup::CheckPaths => 7,
            ServerSetup::MakeContext => 6,
            ServerSetup::CreateQuic => 5,
            ServerSetup::MakeFallback => 4,
            ServerSetup::CreateFallback => 3,
            ServerSetup::RunLoop => 2,
            ServerSetup::FreeQuic => 1,
            ServerSetup::ReclaimContext => 1,
            ServerSetup::Finished => 0,
        }
    }
}

/// Whatever fails, a server's thread comes to its end, and there it has freed
/// the picoquic context if it made one, and has reclaimed the callbacks' state
/// if it made that and ran no packet loop on it: `has_quic` and
/// `has_unused_context` follow what each step makes and takes away, a context
/// is made only where none is and freed only where one is, and at the end
/// neither is there. State on which a packet loop ran is never reclaimed.
pub proof fn law_server_cleans_up(step: ServerSetup, ok: bool)
    ensures
        !ServerSetup::InitTls.has_quic() && !ServerSetup::InitTls.has_unused_context(),
        after_server(step, ok).has_quic() == match step {
            ServerSetup::CreateQuic | ServerSetup::CreateFallback => ok,
            ServerSetup::FreeQuic => false,
            _ => step.has_quic(),
        },
        after_server(step, ok).has_unused_context() == match step {
            ServerSetup::MakeContext => true,
            ServerSetup::RunLoop | ServerSetup::ReclaimContext => false,
            _ => step.has_unused_context(),
        },
        step is CreateQuic || step is CreateFallback ==> !step.has_quic(),
        step is FreeQuic ==> step.has_quic(),
        step is MakeContext ==> !step.has_unused_context(),
        step is RunLoop ==> step.has_quic() && step.has_unused_context(),
        step is ReclaimContext ==> step.has_unused_context() && !step.has_quic(),
        step is RunLoop ==> after_server(step, ok) is FreeQuic && after_server(
            ServerSetup::FreeQuic,
            ok,
        ) is Finished,
        step is Finished <==> step.steps_left() == 0,
        step is Finished ==> !step.has_quic() && !step.has_unused_context(),
        !(step is Finished) ==> after_server(step, ok).steps_left() < step.steps_left(),
{
}

/// The steps of the TLS warm-up.
#[derive(Clone, Copy, Debug, PartialEq, Eq, Structural)]
pub enum TlsInit {
    /// Initialize the TLS backend on this thread.
    InitTls,
    /// Check that the protocol name is a C string.
    CheckAlpn,
    /// Make a certificate and a key in temporary files.
    MakePem,
    /// Check that their paths are C strings.
    CheckPaths,
    /// Make a picoquic context with them.
    CreateQuic,
    /// Free the picoquic context.
    FreeQuic,
    /// The warm-up is over.
    Finished,
}

/// The step after `step`, which worked if `ok`.
pub open spec fn after_tls_init(step: TlsInit, ok: bool) -> TlsInit {
    match step {
        TlsInit::InitTls => TlsInit::CheckAlpn,
        _ => if !ok {
            TlsInit::Finished
        } else {
            match step {
                TlsInit::CheckAlpn => TlsInit::MakePem,
                TlsInit::MakePem => TlsInit::CheckPaths,
                TlsInit::CheckPaths => TlsInit::CreateQuic,
                TlsInit::CreateQuic => TlsInit::FreeQuic,
                _ => TlsInit::Finished,
            }
        },
    }
}

impl TlsInit {
    /// The first step.
    pub fn first() -> (step: TlsInit)
        ensures
            step == TlsInit::InitTls,
    {
        TlsInit::InitTls
    }

    /// The step after this one, which worked if `ok`.
    pub fn next(self, ok: bool) -> (step: TlsInit)
        ensures
            step == after_tls_init(self, ok),
    {
        match self {
            TlsInit::InitTls => TlsInit::CheckAlpn,
            TlsInit::CheckAlpn if ok => TlsInit::MakePem,
            TlsInit::MakePem if ok => TlsInit::CheckPaths,
            TlsInit::CheckPaths if ok => TlsInit::CreateQuic,
            TlsInit::CreateQuic if ok => TlsInit::FreeQuic,
            _ => TlsInit::Finished,
        }
    }

    /// Whether a picoquic context is there when this step is taken.
    pub open spec fn has_quic(self) -> bool {
        self is FreeQuic
    }

    /// How many steps are left at most.
    pub open spec fn steps_left(self) -> nat {
        match self {
            TlsInit::InitTls => 6,
            TlsInit::CheckAlpn => 5,
            TlsInit::MakePem => 4,
            TlsInit::CheckPaths => 3,
            TlsInit::CreateQuic => 2,
            TlsInit::FreeQuic => 1,
            TlsInit::Finished => 0,
        }
    }
}

/// Whatever fails, the warm-up comes to its end, and there it has freed the
/// picoquic context if it made one.
pub proof fn law_tls_init_cleans_up(step: TlsInit, ok: bool)
    ensures
        !TlsInit::InitTls.has_quic(),
        after_tls_init(step, ok).has_quic() == match step {
            TlsInit::CreateQuic => ok,
            TlsInit::FreeQuic => false,
            _ => step.has_quic(),
        },
        step is CreateQuic ==> !step.has_quic(),
        step is Finished <==> step.steps_left() == 0,
        step is Finished ==> !step.has_quic(),
        !(step is Finished) ==> after_tls_init(step, ok).steps_left() < step.steps_left(),
{
}

/// How a client's wait for its connection ended.
#[derive(Clone, Copy, Debug, PartialEq, Eq, Structural)]
pub enum ReadyWait {
    /// The bridge said that the connection is ready.
    Signalled,
    /// The bridge is gone, and with it the way to say so.
    BridgeGone,
    /// Neither came in time.
    TimedOut,
}

/// The text of the error of a client that waited in vain.
pub fn connect_timeout_text() -> (text: String)
    ensures
        text@ == "slipstream-picoquic connection timeout (30s)"@,
{
    "slipstream-picoquic connection timeout (30s)".to_owned()
}

/// The text of the error of a client whose bridge is gone before its connection
/// was ready.
pub fn bridge_gone_text() -> (text: String)
    ensures
        text@ == "slipstream-picoquic connection failed"@,
{
    "slipstream-picoquic connection failed".to_owned()
}

/// Whether a client goes on with its stream after its wait: only if its
/// connection is ready, and a stream open on it.
pub fn goes_on_after(wait: ReadyWait) -> (goes_on: bool)
    ensures
        goes_on == (wait is Signalled),
{
    match wait {
        ReadyWait::Signalled => true,
        ReadyWait::BridgeGone | ReadyWait::TimedOut => false,
    }
}

/// The error of a client after its wait, if it does not go on.
pub fn wait_error(wait: ReadyWait) -> (error: Option<String>)
    ensures
        match wait {
            ReadyWait::Signalled => error is None,
            ReadyWait::BridgeGone => error matches Some(text) && text@
                == "slipstream-picoquic connection failed"@,
            ReadyWait::TimedOut => error matches Some(text) && text@
                == "slipstream-picoquic connection timeout (30s)"@,
        },
        error is None <==> wait is Signalled,
{
    if goes_on_after(wait) {
        return None;
    }
    match wait {
        ReadyWait::TimedOut => Some(connect_timeout_text()),
        _ => Some(bridge_gone_text()),
    }
}

/// A text can be passed to C exactly if its parts can: an empty one can, one of a
/// single byte can unless that is zero, and two put together can if both can.
pub proof fn law_c_string(a: Seq<u8>, b: Seq<u8>, byte: u8)
    ensures
        zero_free(Seq::empty()),
        zero_free(seq![byte]) <==> byte != 0,
        zero_free(a + b) <==> zero_free(a) && zero_free(b),
{
    assert(seq![byte][0] == byte);
    if a.contains(0) {
        assert((a + b)[a.index_of(0)] == 0);
    }
    if b.contains(0) {
        assert((a + b)[a.len() + b.index_of(0)] == 0);
    }
    if (a + b).contains(0) {
        let i = (a + b).index_of(0);
        if i < a.len() {
            assert(a[i] == 0);
        } else {
            assert(b[i - a.len()] == 0);
        }
    }
}

/// The steps of a client's thread if all of them work.
pub open spec fn client_order() -> Seq<ClientSetup> {
    seq![
        ClientSetup::CheckHost,
        ClientSetup::CheckAlpn,
        ClientSetup::CheckServerName,
        ClientSetup::MakeContext,
        ClientSetup::Resolve,
        ClientSetup::CreateQuic,
        ClientSetup::CreateConnection,
        ClientSetup::StartConnection,
        ClientSetup::RunLoop,
        ClientSetup::FreeQuic,
        ClientSetup::ReclaimContext,
        ClientSetup::Finished,
    ]
}

/// A client's thread takes its steps in order as long as they work, and up to the
/// packet loop it takes a step only if the one before it worked, or cannot fail:
/// no packet loop runs on a connection that was not started. Whatever is reported
/// of the callbacks' state, the thread goes on; one that is done stays so.
pub proof fn law_client_order(step: ClientSetup, ok: bool, i: int)
    requires
        0 <= i < client_order().len() - 1,
    ensures
        after_client(client_order()[i], true) == client_order()[i + 1],
        i + 1 <= 8 && after_client(step, ok) == client_order()[i + 1] ==> step == client_order()[i]
            && (ok || step is MakeContext),
        after_client(ClientSetup::MakeContext, ok) is Resolve,
        after_client(ClientSetup::Finished, ok) is Finished,
{
}

/// The steps of a server's thread if all of them work.
pub open spec fn server_order() -> Seq<ServerSetup> {
    seq![
        ServerSetup::InitTls,
        ServerSetup::ReadPem,
        ServerSetup::CopyPem,
        ServerSetup::CheckPaths,
        ServerSetup::MakeContext,
        ServerSetup::CreateQuic,
        ServerSetup::RunLoop,
        ServerSetup::FreeQuic,
        ServerSetup::Finished,
    ]
}

/// A server's thread takes its steps in order as long as they work. The packet loop
/// runs exactly if a picoquic context was made, with the certificate given or,
/// where that did not work, with one of our own; and one of our own is tried
/// wherever the one given did not work. Whatever is reported of the TLS backend and
/// of the callbacks' state, the thread goes on; one that is done stays so.
pub proof fn law_server_order(step: ServerSetup, ok: bool, i: int)
    requires
        0 <= i < server_order().len() - 1,
    ensures
        after_server(server_order()[i], true) == server_order()[i + 1],
        after_server(step, ok) is RunLoop <==> ok && (step is CreateQuic || step is CreateFallback),
        after_server(step, ok) is MakeFallback <==> !ok && step is CreateQuic,
        after_server(step, ok) is CreateFallback <==> ok && step is MakeFallback,
        after_server(step, ok) is CopyPem <==> ok && step is ReadPem,
        after_server(step, ok) is CheckPaths <==> !ok && step is ReadPem || ok && step is CopyPem,
        after_server(step, ok) is MakeContext <==> ok && step is CheckPaths,
        after_server(step, ok) is ReadPem <==> step is InitTls,
        after_server(step, ok) is CreateQuic <==> step is MakeContext,
        after_server(ServerSetup::Finished, ok) is Finished,
{
}

/// The warm-up makes a picoquic context exactly if everything before it worked, and
/// frees one exactly if it was made.
pub proof fn law_tls_init_order(step: TlsInit, ok: bool)
    ensures
        after_tls_init(TlsInit::InitTls, ok) is CheckAlpn,
        after_tls_init(step, ok) is MakePem <==> ok && step is CheckAlpn,
        after_tls_init(step, ok) is CheckPaths <==> ok && step is MakePem,
        after_tls_init(step, ok) is CreateQuic <==> ok && step is CheckPaths,
        after_tls_init(step, ok) is FreeQuic <==> ok && step is CreateQuic,
        after_tls_init(TlsInit::Finished, ok) is Finished,
{
}

} // verus!
