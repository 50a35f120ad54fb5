//! The handshake-gated echo protocol: a connection must send "serve" before
//! a "ping" elicits a "pong"; everything else is ignored, and the session
//! only ends when the transport closes.

use vstd::prelude::*;
use vstd::string::StrSliceExecFns;
use vstd::string::StringExecFns;

verus! {

/// The per-connection state of the echo protocol.
#[derive(Clone, Copy, PartialEq, Eq, Structural, Debug)]
pub enum EchoState {
    /// Initial: no "serve" control message was received yet.
    Unserved,
    /// A "serve" arrived; pings are answered from here on.
    Served,
}

/// Character-exact string comparison.
fn str_eq(a: &str, b: &str) -> (r: bool)
    ensures
        r == (a@ == b@),
{
    let la = a.unicode_len();
    let lb = b.unicode_len();
    if la != lb {
        proof {
            if a@ == b@ {
                assert(a@.len() == b@.len());
            }
        }
        return false;
    }
    let mut i: usize = 0;
    while i < la
        invariant
            la == a@.len(),
            lb == b@.len(),
            la == lb,
            i <= la,
            forall|j: int| 0 <= j < i ==> a@[j] == b@[j],
        decreases la - i,
    {
        if a.get_char(i) != b.get_char(i) {
            proof {
                if a@ == b@ {
                    assert(a@[i as int] == b@[i as int]);
                }
            }
            return false;
        }
        i = i + 1;
    }
    proof {
        assert(a@ =~= b@);
    }
    true
}

/// What one received message does to the echo session: the next state, and
/// the reply owed for it, if any.
pub open spec fn spec_echo_step(st: EchoState, msg: Seq<char>) -> (EchoState, Option<Seq<char>>) {
    if msg == "serve"@ {
        (EchoState::Served, None::<Seq<char>>)
    } else if msg == "ping"@ && st == EchoState::Served {
        (EchoState::Served, Some("pong"@))
    } else {
        (st, None::<Seq<char>>)
    }
}

/// Process one message: "serve" moves (and keeps) the session in
/// [`EchoState::Served`]; a "ping" is answered with exactly one "pong" only
/// once served; any other content is ignored without a reply.
pub fn echo_step(st: EchoState, msg: &str) -> (r: (EchoState, Option<String>))
    ensures
        r.0 == spec_echo_step(st, msg@).0,
        (match (r.1, spec_echo_step(st, msg@).1) {
            (Some(p), Some(q)) => p@ == q,
            (None, None) => true,
            _ => false,
        }),
{
    if str_eq(msg, "serve") {
        (EchoState::Served, None)
    } else if str_eq(msg, "ping") {
        if st == EchoState::Served {
            (EchoState::Served, Some(String::from_str("pong")))
        } else {
            (st, None)
        }
    } else {
        (st, None)
    }
}

/// The state an echo session reaches after a whole sequence of messages.
pub open spec fn run_echo(st: EchoState, msgs: Seq<Seq<char>>) -> EchoState
    decreases msgs.len(),
{
    if msgs.len() == 0 {
        st
    } else {
        run_echo(spec_echo_step(st, msgs[0]).0, msgs.skip(1))
    }
}

/// A session that never received "serve" never replies: in the initial
/// state, no message - "ping" included - yields a reply.
pub proof fn lemma_silent_before_serve(msg: Seq<char>)
    ensures
        spec_echo_step(EchoState::Unserved, msg).1 is None,
{
}

/// A "ping" once served is answered with exactly one "pong", and "serve" -
/// first or repeated - leaves the session served, changing nothing else
/// about how pings are answered.
pub proof fn lemma_pong_once_served()
    ensures
        spec_echo_step(EchoState::Served, "ping"@) == (
            EchoState::Served,
            Some("pong"@),
        ),
        spec_echo_step(EchoState::Unserved, "serve"@).0 == EchoState::Served,
        spec_echo_step(EchoState::Served, "serve"@).0 == EchoState::Served,
{
    reveal_strlit("ping");
    reveal_strlit("serve");
    assert(("ping"@).len() == 4);
    assert(("serve"@).len() == 5);
    assert("ping"@ !~= "serve"@);
}

/// Once served, always served: whatever messages follow a "serve", the
/// session stays in [`EchoState::Served`], so every later "ping" still
/// yields its "pong".
pub proof fn lemma_served_forever(msgs: Seq<Seq<char>>)
    ensures
        run_echo(EchoState::Served, msgs) == EchoState::Served,
    decreases msgs.len(),
{
    if msgs.len() > 0 {
        lemma_pong_once_served();
        lemma_served_forever(msgs.skip(1));
    }
}

} // verus!
