//! Connection manager: decides the outcome of one connection attempt from
//! what the transport and the remote authenticator reported. Methods are
//! tried strictly in policy order; all attempts share one connect-timeout
//! budget whose clock is never reset between methods.

use vstd::prelude::*;
use vstd::std_specs::vec::spec_vec_len;
use crate::data::{sat_add, ConnectReason, CredentialPolicy, Outcome};

verus! {

/// What the remote side answered to one authentication method: whether it
/// accepted, and how long the exchange took.
pub struct AuthReply {
    pub accept: bool,
    pub cost_ms: u64,
}

/// Everything the outside world contributed to one connection attempt:
/// whether the transport came up (and how long that took), and the remote's
/// reply to each authentication method the policy lists.
pub struct ConnScript {
    pub transport_error: Option<ConnectReason>,
    pub transport_ms: u64,
    pub auth_replies: Vec<AuthReply>,
}

impl ConnScript {
    /// The script answers every method of the policy (only a prefix is ever
    /// consulted).
    pub open spec fn wf(self, policy: CredentialPolicy) -> bool {
        self.auth_replies@.len() == policy.methods@.len()
    }
}

/// How one connection attempt ended.
#[derive(PartialEq, Eq, Structural, Clone, Copy, Debug)]
pub enum ConnDecision {
    /// Authenticated: which method (by its index in the policy) won, and the
    /// elapsed connect-phase time.
    Connected { method_index: usize, elapsed_ms: u64 },
    /// Failed with a `ConnectFailed`- or `AuthFailed`-class outcome.
    Failed { outcome: Outcome, elapsed_ms: u64 },
}

/// The decision reached by trying methods `i..` with `elapsed` already spent
/// of the `timeout` budget: the first accepted method wins; exhausting the
/// list is `AuthFailed`; exhausting the budget is a connect-phase timeout.
pub open spec fn spec_auth_from(replies: Seq<AuthReply>, i: int, elapsed: u64, timeout: u64) -> ConnDecision
    decreases replies.len() - i,
{
    if i < 0 || i >= replies.len() {
        ConnDecision::Failed { outcome: Outcome::AuthFailed, elapsed_ms: elapsed }
    } else {
        let e2 = sat_add(elapsed, replies[i].cost_ms);
        if e2 > timeout {
            ConnDecision::Failed {
                outcome: Outcome::ConnectFailed { reason: ConnectReason::Timeout },
                elapsed_ms: e2,
            }
        } else if replies[i].accept {
            ConnDecision::Connected { method_index: i as usize, elapsed_ms: e2 }
        } else {
            spec_auth_from(replies, i + 1, e2, timeout)
        }
    }
}

/// The decision for a whole connection attempt under `timeout`.
pub open spec fn spec_connect(s: ConnScript, timeout: u64) -> ConnDecision {
    if s.transport_ms > timeout {
        ConnDecision::Failed {
            outcome: Outcome::ConnectFailed { reason: ConnectReason::Timeout },
            elapsed_ms: s.transport_ms,
        }
    } else if s.transport_error is Some {
        ConnDecision::Failed {
            outcome: Outcome::ConnectFailed { reason: s.transport_error->Some_0 },
            elapsed_ms: s.transport_ms,
        }
    } else {
        spec_auth_from(s.auth_replies@, 0, s.transport_ms, timeout)
    }
}

/// Decide the outcome of one connection attempt, exactly as `spec_connect`
/// says: transport first, then each authentication method in policy order,
/// all against the one shared `connect_timeout_ms` budget.
pub fn decide_connect(policy: &CredentialPolicy, script: &ConnScript, connect_timeout_ms: u64) -> (r:
    ConnDecision)
    requires
        script.wf(*policy),
    ensures
        r == spec_connect(*script, connect_timeout_ms),
{
    if script.transport_ms > connect_timeout_ms {
        return ConnDecision::Failed {
            outcome: Outcome::ConnectFailed { reason: ConnectReason::Timeout },
            elapsed_ms: script.transport_ms,
        };
    }
    if let Some(reason) = script.transport_error {
        return ConnDecision::Failed {
            outcome: Outcome::ConnectFailed { reason },
            elapsed_ms: script.transport_ms,
        };
    }
    let n = script.auth_replies.len();
    let mut i: usize = 0;
    let mut elapsed: u64 = script.transport_ms;
    while i < n
        invariant
            i <= n,
            n == script.auth_replies@.len(),
            script.transport_ms <= connect_timeout_ms,
            script.transport_error is None,
            spec_auth_from(script.auth_replies@, 0, script.transport_ms, connect_timeout_ms)
                == spec_auth_from(script.auth_replies@, i as int, elapsed, connect_timeout_ms),
        decreases n - i,
    {
        let reply_accept = script.auth_replies[i].accept;
        let reply_cost = script.auth_replies[i].cost_ms;
        let e2 = crate::data::sat_add_ms(elapsed, reply_cost);
        proof {
            let d = spec_auth_from(script.auth_replies@, i as int, elapsed, connect_timeout_ms);
            if e2 > connect_timeout_ms {
                assert(d == ConnDecision::Failed {
                    outcome: Outcome::ConnectFailed { reason: ConnectReason::Timeout },
                    elapsed_ms: e2,
                });
            } else if reply_accept {
                assert(d == ConnDecision::Connected { method_index: i, elapsed_ms: e2 });
            } else {
                assert(d == spec_auth_from(
                    script.auth_replies@,
                    i as int + 1,
                    e2,
                    connect_timeout_ms,
                ));
            }
        }
        if e2 > connect_timeout_ms {
            return ConnDecision::Failed {
                outcome: Outcome::ConnectFailed { reason: ConnectReason::Timeout },
                elapsed_ms: e2,
            };
        }
        if reply_accept {
            return ConnDecision::Connected { method_index: i, elapsed_ms: e2 };
        }
        elapsed = e2;
        i = i + 1;
    }
    proof {
        assert(spec_auth_from(script.auth_replies@, i as int, elapsed, connect_timeout_ms)
            == ConnDecision::Failed { outcome: Outcome::AuthFailed, elapsed_ms: elapsed });
    }
    ConnDecision::Failed { outcome: Outcome::AuthFailed, elapsed_ms: elapsed }
}

/// Order law: when a connection succeeds with method `k`, every earlier
/// method of the policy was attempted and rejected — the manager never
/// skips ahead. (With a key-then-password policy where the remote rejects
/// the key and accepts the password, the key was attempted first.)
pub proof fn lemma_auth_order(s: ConnScript, timeout: u64, k: usize)
    requires
        spec_connect(s, timeout) matches ConnDecision::Connected { method_index, .. }
            && method_index == k,
    ensures
        k < s.auth_replies@.len(),
        s.auth_replies@[k as int].accept,
        forall|j: int| 0 <= j < k ==> !(#[trigger] s.auth_replies@[j]).accept,
{
    assert(s.auth_replies@.len() == spec_vec_len(&s.auth_replies));
    lemma_auth_order_from(s.auth_replies@, 0, s.transport_ms, timeout, k);
}

proof fn lemma_auth_order_from(replies: Seq<AuthReply>, i: int, elapsed: u64, timeout: u64, k: usize)
    requires
        0 <= i,
        replies.len() <= usize::MAX,
        spec_auth_from(replies, i, elapsed, timeout) matches ConnDecision::Connected {
            method_index,
            ..
        } && method_index == k,
    ensures
        i <= k < replies.len(),
        replies[k as int].accept,
        forall|j: int| i <= j < k ==> !(#[trigger] replies[j]).accept,
    decreases replies.len() - i,
{
    let d = spec_auth_from(replies, i, elapsed, timeout);
    if i >= replies.len() {
        assert(d is Failed);
    } else {
        let e2 = sat_add(elapsed, replies[i].cost_ms);
        if e2 > timeout {
            assert(d is Failed);
        } else if replies[i].accept {
            assert(d == ConnDecision::Connected { method_index: i as usize, elapsed_ms: e2 });
        } else {
            assert(d == spec_auth_from(replies, i + 1, e2, timeout));
            lemma_auth_order_from(replies, i + 1, e2, timeout, k);
        }
    }
}

} // verus!
