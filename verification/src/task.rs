//! The index-build tracker: command builder, reply grammar parser, and
//! the policy that aggregates per-node replies into one overall status.

use vstd::prelude::*;
use vstd::string::*;

use crate::errors::ErrorKind;
use crate::numeric::spec_parse_i64;
use crate::numeric::parse_i64_range;
use crate::search::find_from;
use crate::search::spec_find;
use crate::status::Status;

verus! {

/// One node's reply to a status query, parsed: either a status, or the
/// message of the `BadResponse` error that the reply earns. The
/// executable counterpart is `IndexTask::parse_response`.
///
/// The grammar, in priority order: a reply carrying the marker
/// `load_pct=` is a progress report, and the decimal integer between the
/// first such marker and the next `;` decides between `Complete` (exactly
/// 100) and `InProgress` (anything else); a reply without that marker but
/// carrying `FAIL:201` or `FAIL:203` means the index is not known to the
/// node; any other reply is malformed.
pub open spec fn spec_parse(s: Seq<char>) -> Result<Status, Seq<char>> {
    match spec_find(s, "load_pct="@, 0) {
        Option::None => {
            if spec_find(s, "FAIL:201"@, 0) is Some || spec_find(s, "FAIL:203"@, 0) is Some {
                Ok(Status::NotFound)
            } else {
                Err("Code 201 and 203 missing. Response: "@ + s)
            }
        },
        Option::Some(marker) => {
            let begin = marker + "load_pct="@.len();
            match spec_find(s, ";"@, begin) {
                Option::None => Err("delimiter missing in response. Response: "@ + s),
                Option::Some(end) => match spec_parse_i64(s.subrange(begin, end)) {
                    Option::None => Err("invalid load_pct value in response. Response: "@ + s),
                    Option::Some(pct) => if pct == 100 {
                        Ok(Status::Complete)
                    } else {
                        Ok(Status::InProgress)
                    },
                },
            }
        },
    }
}

/// What one node's entry in the reply map means: a missing entry is
/// `NotFound`, a present one is read by the reply grammar.
pub open spec fn spec_reply_status(reply: Option<Seq<char>>) -> Result<Status, Seq<char>> {
    match reply {
        Option::None => Ok(Status::NotFound),
        Option::Some(s) => spec_parse(s),
    }
}

/// The aggregation policy over the per-node replies, in query order:
/// the first reply that is not `Complete` decides the whole result, and
/// only a unanimous `Complete` yields `Complete`.
pub open spec fn spec_aggregate(replies: Seq<Option<Seq<char>>>) -> Result<Status, Seq<char>>
    decreases replies.len(),
{
    if replies.len() == 0 {
        Ok(Status::Complete)
    } else if spec_reply_status(replies[0]) == Ok::<Status, Seq<char>>(Status::Complete) {
        spec_aggregate(replies.drop_first())
    } else {
        spec_reply_status(replies[0])
    }
}

/// The reply list as the aggregation specs see it.
pub open spec fn replies_view(replies: Seq<Option<String>>) -> Seq<Option<Seq<char>>> {
    replies.map_values(
        |reply: Option<String>|
            match reply {
                Option::None => Option::None,
                Option::Some(s) => Option::Some(s@),
            },
    )
}

/// A borrowed reply, as the aggregation specs see it.
pub open spec fn reply_view(reply: Option<&String>) -> Option<Seq<char>> {
    match reply {
        Option::None => Option::None,
        Option::Some(s) => Option::Some(s@),
    }
}

/// The slice of the client configuration that the tracker reads: the
/// per-request timeout, in milliseconds, if one is configured.
#[derive(Clone, Copy, Debug, PartialEq, Eq)]
pub struct ClientPolicy {
    pub timeout_millis: Option<u64>,
}

/// Tracker for one server-side secondary-index build. Immutable once
/// built; every query is independent and caches nothing.
#[derive(Clone, Debug)]
pub struct IndexTask {
    pub policy: ClientPolicy,
    pub namespace: String,
    pub index_name: String,
}

impl IndexTask {
    /// A fresh tracker for the index `index_name` in `namespace`, under
    /// the given client policy.
    pub fn new(policy: ClientPolicy, namespace: String, index_name: String) -> (r: Self)
        ensures
            r.policy == policy,
            r.namespace == namespace,
            r.index_name == index_name,
    {
        IndexTask { policy, namespace, index_name }
    }

    /// The exact info-protocol command that asks a node for the build
    /// status of this index: `sindex/<namespace>/<index_name>`.
    pub fn build_command(namespace: String, index_name: String) -> (r: String)
        ensures
            r@ == "sindex/"@ + namespace@ + "/"@ + index_name@,
    {
        let mut command = String::from_str("sindex/");
        command.append(namespace.as_str());
        command.append("/");
        command.append(index_name.as_str());
        proof {
            assert(command@ =~= "sindex/"@ + namespace@ + "/"@ + index_name@);
        }
        command
    }

    /// Reads one node's raw reply: returns exactly the status that
    /// `spec_parse` gives it, or a `BadResponse` error carrying exactly
    /// the message that `spec_parse` gives it.
    pub fn parse_response(response: &str) -> (r: Result<Status, ErrorKind>)
        ensures
            (match spec_parse(response@) {
                Ok(st) => r == Ok::<Status, ErrorKind>(st),
                Err(msg) => {
                    &&& r matches Err(e)
                    &&& e matches ErrorKind::BadResponse(m)
                    &&& m@ == msg
                },
            }),
    {
        match find_from(response, "load_pct=", 0) {
            None => {
                if find_from(response, "FAIL:201", 0).is_some() {
                    return Ok(Status::NotFound);
                }
                if find_from(response, "FAIL:203", 0).is_some() {
                    return Ok(Status::NotFound);
                }
                let mut msg = String::from_str("Code 201 and 203 missing. Response: ");
                msg.append(response);
                Err(ErrorKind::BadResponse(msg))
            },
            Some(marker) => {
                let response_len = response.unicode_len();
                let marker_len = "load_pct=".unicode_len();
                assert(marker + marker_len <= response_len);
                let begin = marker + marker_len;
                match find_from(response, ";", begin) {
                    None => {
                        let mut msg = String::from_str(
                            "delimiter missing in response. Response: ",
                        );
                        msg.append(response);
                        Err(ErrorKind::BadResponse(msg))
                    },
                    Some(end) => {
                        match parse_i64_range(response, begin, end) {
                            None => {
                                let mut msg = String::from_str(
                                    "invalid load_pct value in response. Response: ",
                                );
                                msg.append(response);
                                Err(ErrorKind::BadResponse(msg))
                            },
                            Some(pct) => {
                                if pct == 100 {
                                    Ok(Status::Complete)
                                } else {
                                    Ok(Status::InProgress)
                                }
                            },
                        }
                    },
                }
            },
        }
    }

    /// Reads one node's entry in the reply map, `None` standing for a
    /// missing entry: a missing entry means the node does not know the
    /// index, a present one is read by the reply grammar.
    pub fn evaluate_reply(reply: Option<&String>) -> (r: Result<Status, ErrorKind>)
        ensures
            (match spec_reply_status(reply_view(reply)) {
                Ok(st) => r == Ok::<Status, ErrorKind>(st),
                Err(msg) => {
                    &&& r matches Err(e)
                    &&& e matches ErrorKind::BadResponse(m)
                    &&& m@ == msg
                },
            }),
    {
        match reply {
            None => Ok(Status::NotFound),
            Some(s) => Self::parse_response(s.as_str()),
        }
    }

    /// Whether one node's result already decides the whole aggregation:
    /// everything but a successful `Complete` does, and a conforming
    /// poller stops querying further nodes at the first such result.
    pub fn is_decisive(result: &Result<Status, ErrorKind>) -> (b: bool)
        ensures
            b == !(result matches Ok(Status::Complete)),
    {
        match result {
            Ok(Status::Complete) => false,
            _ => true,
        }
    }

    /// Aggregates the per-node replies, given in cluster query order,
    /// `None` standing for a reply map without the command's entry. An
    /// empty list means no node could be queried at all, a `Connection`
    /// error; otherwise the result is exactly what `spec_aggregate` gives
    /// the list, with grammar violations surfaced as `BadResponse`.
    #[verifier::loop_isolation(false)]
    pub fn query_status_from_replies(replies: &Vec<Option<String>>) -> (r: Result<
        Status,
        ErrorKind,
    >)
        ensures
            replies@.len() == 0 ==> {
                &&& r matches Err(e)
                &&& e matches ErrorKind::Connection(m)
                &&& m@ == "No connected node"@
            },
            replies@.len() > 0 ==> (match spec_aggregate(replies_view(replies@)) {
                Ok(st) => r == Ok::<Status, ErrorKind>(st),
                Err(msg) => {
                    &&& r matches Err(e)
                    &&& e matches ErrorKind::BadResponse(m)
                    &&& m@ == msg
                },
            }),
    {
        if replies.len() == 0 {
            return Err(ErrorKind::Connection(String::from_str("No connected node")));
        }
        let ghost full = replies_view(replies@);
        proof {
            assert(full.subrange(0, full.len() as int) =~= full);
        }
        let mut idx: usize = 0;
        while idx < replies.len()
            invariant
                0 <= idx <= replies@.len(),
                spec_aggregate(full) == spec_aggregate(
                    full.subrange(idx as int, full.len() as int),
                ),
            decreases replies@.len() - idx,
        {
            let ghost rest = full.subrange(idx as int, full.len() as int);
            let result = match &replies[idx] {
                None => Self::evaluate_reply(None),
                Some(s) => Self::evaluate_reply(Some(s)),
            };
            proof {
                assert(rest[0] == full[idx as int]);
                assert(rest.drop_first() =~= full.subrange(idx + 1, full.len() as int));
            }
            if Self::is_decisive(&result) {
                return result;
            }
            idx += 1;
        }
        proof {
            assert(full.subrange(replies@.len() as int, full.len() as int).len() == 0);
        }
        Ok(Status::Complete)
    }

    /// The client timeout that bounds each node round trip. A timeout is
    /// mandatory for an index-build tracker, so a policy without one is
    /// an `InvalidArgument` error.
    pub fn get_timeout(&self) -> (r: Result<u64, ErrorKind>)
        ensures
            match self.policy.timeout_millis {
                Some(t) => r == Ok::<u64, ErrorKind>(t),
                None => {
                    &&& r matches Err(e)
                    &&& e matches ErrorKind::InvalidArgument(m)
                    &&& m@ == "Timeout missing in client policy"@
                },
            },
    {
        match self.policy.timeout_millis {
            Some(t) => Ok(t),
            None => Err(
                ErrorKind::InvalidArgument(String::from_str("Timeout missing in client policy")),
            ),
        }
    }
}

/// Law: once some prefix of the reply list has decided the aggregate —
/// any outcome but unanimous `Complete` — the replies of the remaining
/// nodes cannot change it, so a poller that stops at the first decisive
/// reply returns the same result as one that queries every node.
pub proof fn lemma_aggregate_short_circuit(
    prefix: Seq<Option<Seq<char>>>,
    rest: Seq<Option<Seq<char>>>,
)
    requires
        spec_aggregate(prefix) != Ok::<Status, Seq<char>>(Status::Complete),
    ensures
        spec_aggregate(prefix + rest) == spec_aggregate(prefix),
    decreases prefix.len(),
{
    if prefix.len() == 0 {
        // spec_aggregate of an empty list is Ok(Complete): contradiction.
    } else {
        let whole = prefix + rest;
        assert(whole[0] == prefix[0]);
        if spec_reply_status(prefix[0]) == Ok::<Status, Seq<char>>(Status::Complete) {
            assert(whole.drop_first() =~= prefix.drop_first() + rest);
            lemma_aggregate_short_circuit(prefix.drop_first(), rest);
        }
    }
}

/// Law: the aggregate is `Complete` exactly when every reply in the list
/// evaluates to `Complete` — one node's `Complete` alone never decides
/// the cluster-wide answer.
pub proof fn lemma_aggregate_complete_iff(replies: Seq<Option<Seq<char>>>)
    ensures
        spec_aggregate(replies) == Ok::<Status, Seq<char>>(Status::Complete) <==> (forall|i: int|
            0 <= i < replies.len() ==> spec_reply_status(replies[i]) == Ok::<Status, Seq<char>>(
                Status::Complete,
            )),
    decreases replies.len(),
{
    if replies.len() > 0 {
        let tail = replies.drop_first();
        lemma_aggregate_complete_iff(tail);
        assert(forall|i: int| 0 <= i < tail.len() ==> tail[i] == replies[i + 1]);
        let all_complete = forall|i: int|
            0 <= i < replies.len() ==> spec_reply_status(replies[i]) == Ok::<Status, Seq<char>>(
                Status::Complete,
            );
        if spec_reply_status(replies[0]) == Ok::<Status, Seq<char>>(Status::Complete) {
            assert(spec_aggregate(replies) == spec_aggregate(tail));
            if spec_aggregate(replies) == Ok::<Status, Seq<char>>(Status::Complete) {
                assert forall|i: int| 0 <= i < replies.len() implies spec_reply_status(
                    replies[i],
                ) == Ok::<Status, Seq<char>>(Status::Complete) by {
                    if i > 0 {
                        assert(tail[i - 1] == replies[i]);
                    }
                }
            } else {
                let j = choose|j: int|
                    0 <= j < tail.len() && spec_reply_status(tail[j]) != Ok::<Status, Seq<char>>(
                        Status::Complete,
                    );
                assert(spec_reply_status(replies[j + 1]) != Ok::<Status, Seq<char>>(
                    Status::Complete,
                ));
                assert(!all_complete);
            }
        } else {
            assert(spec_aggregate(replies) == spec_reply_status(replies[0]));
            assert(!all_complete);
        }
    }
}

} // verus!
