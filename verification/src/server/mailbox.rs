//! Where the messages of a conversation are kept: the mailbox key of a
//! conversation, the users a message history mentions, and the query that
//! loads several users.
use vstd::prelude::*;
use crate::text::push_str;

verus! {

/// The peer a request names.
#[derive(Debug, Clone, Copy, PartialEq, Eq, Structural)]
pub enum PeerRef {
    /// The signed-in user.
    SelfPeer,
    /// Another user, by identifier.
    User(i64),
    /// A chat or channel, which this server does not serve.
    Other,
}

/// The mailbox of the conversation of `self_id` with `peer`: a user's own
/// mailbox is keyed by their identifier twice; a conversation of two users
/// by the smaller identifier, then the larger.
pub open spec fn mailbox_key_spec(self_id: i64, peer: PeerRef) -> (i64, Option<i64>) {
    match peer {
        PeerRef::User(u) => if u <= self_id {
            (u, Some(self_id))
        } else {
            (self_id, Some(u))
        },
        _ => (self_id, Some(self_id)),
    }
}

/// The mailbox of the conversation of `self_id` with `peer`.
pub fn mailbox_key(self_id: i64, peer: PeerRef) -> (k: (i64, Option<i64>))
    requires
        !(peer is Other),
    ensures
        k == mailbox_key_spec(self_id, peer),
{
    match peer {
        PeerRef::SelfPeer => (self_id, Some(self_id)),
        PeerRef::User(u) => {
            if u <= self_id {
                (u, Some(self_id))
            } else {
                (self_id, Some(u))
            }
        },
        PeerRef::Other => (self_id, Some(self_id)),
    }
}

/// Both users of a conversation find it in the same mailbox.
pub proof fn law_mailbox_symmetric(a: i64, b: i64)
    ensures
        mailbox_key_spec(a, PeerRef::User(b)) == mailbox_key_spec(b, PeerRef::User(a)),
        mailbox_key_spec(a, PeerRef::User(a)) == mailbox_key_spec(a, PeerRef::SelfPeer),
{
}

/// A message of a history is outgoing when its peer is the signed-in user.
pub fn is_outgoing(peer_user_id: i64, self_id: i64) -> (r: bool)
    ensures
        r == (peer_user_id == self_id),
{
    peer_user_id == self_id
}

/// The number a new message of a mailbox gets: one past the mailbox's last
/// message, or 1 where the mailbox has no record yet.
pub fn next_message_id(last: Option<i64>) -> (r: i64)
    requires
        last matches Some(l) ==> l < i64::MAX,
    ensures
        r == match last {
            Some(l) => l + 1,
            None => 1,
        },
{
    match last {
        Some(l) => l + 1,
        None => 1,
    }
}

/// The identifiers of `ids`, each once, in order of first appearance.
pub open spec fn distinct_spec(ids: Seq<i64>) -> Seq<i64>
    decreases ids.len(),
{
    if ids.len() == 0 {
        Seq::empty()
    } else {
        let rest = distinct_spec(ids.drop_last());
        if rest.contains(ids.last()) {
            rest
        } else {
            rest.push(ids.last())
        }
    }
}

/// Whether `v` holds `x`.
fn holds(v: &Vec<i64>, x: i64) -> (r: bool)
    ensures
        r == v@.contains(x),
{
    let mut i: usize = 0;
    while i < v.len()
        invariant
            i <= v@.len(),
            forall|j: int| 0 <= j < i ==> v@[j] != x,
        decreases v@.len() - i,
    {
        if v[i] == x {
            assert(v@[i as int] == x);
            return true;
        }
        i = i + 1;
    }
    false
}

/// The users a history mentions, each once, in order of first appearance.
pub fn distinct_ids(ids: &Vec<i64>) -> (r: Vec<i64>)
    ensures
        r@ == distinct_spec(ids@),
{
    let mut r: Vec<i64> = Vec::new();
    let mut i: usize = 0;
    assert(ids@.take(0) =~= Seq::<i64>::empty());
    while i < ids.len()
        invariant
            i <= ids@.len(),
            r@ == distinct_spec(ids@.take(i as int)),
        decreases ids@.len() - i,
    {
        assert(ids@.take(i + 1).drop_last() =~= ids@.take(i as int));
        if !holds(&r, ids[i]) {
            r.push(ids[i]);
        }
        i = i + 1;
    }
    assert(ids@.take(i as int) =~= ids@);
    r
}

/// The distinct identifiers hold each identifier once, and no other.
pub proof fn law_distinct_ids(ids: Seq<i64>)
    ensures
        forall|x: i64| distinct_spec(ids).contains(x) <==> ids.contains(x),
        forall|i: int, j: int|
            0 <= i < j < distinct_spec(ids).len() ==> distinct_spec(ids)[i] != distinct_spec(ids)[j],
    decreases ids.len(),
{
    if ids.len() > 0 {
        law_distinct_ids(ids.drop_last());
        let rest = distinct_spec(ids.drop_last());
        assert forall|x: i64| distinct_spec(ids).contains(x) <==> ids.contains(x) by {
            if ids.contains(x) {
                let k = choose|k: int| 0 <= k < ids.len() && ids[k] == x;
                if k < ids.len() - 1 {
                    assert(ids.drop_last()[k] == x);
                }
            }
            if ids.drop_last().contains(x) {
                let k = choose|k: int| 0 <= k < ids.drop_last().len() && ids.drop_last()[k] == x;
                assert(ids[k] == x);
            }
            if !rest.contains(ids.last()) {
                assert(rest.push(ids.last())[rest.len() as int] == ids.last());
                if rest.contains(x) {
                    let k = choose|k: int| 0 <= k < rest.len() && rest[k] == x;
                    assert(rest.push(ids.last())[k] == x);
                }
                if rest.push(ids.last()).contains(x) {
                    let k = choose|k: int| 0 <= k < rest.len() + 1 && rest.push(ids.last())[k] == x;
                    if k < rest.len() {
                        assert(rest[k] == x);
                    }
                }
            }
            assert(ids[ids.len() - 1] == ids.last());
        }
    }
}

/// The query that loads the users with `n` identifiers: one placeholder per identifier.
pub open spec fn users_in_query_spec(n: nat) -> Seq<char> {
    "SELECT * FROM users WHERE id IN ("@ + "?"@ + Seq::new((n - 1) as nat, |i: int| ", ?"@).flatten() + ")"@
}

/// The query that loads the users with `n >= 1` identifiers.
pub fn users_in_query(n: usize) -> (q: String)
    requires
        n >= 1,
    ensures
        q@ == users_in_query_spec(n as nat),
{
    let mut q = String::from_str("SELECT * FROM users WHERE id IN (");
    push_str(&mut q, "?");
    let ghost head = q@;
    let mut k: usize = 1;
    assert(Seq::new(0nat, |i: int| ", ?"@).flatten() =~= Seq::<char>::empty());
    while k < n
        invariant
            1 <= k <= n,
            q@ == head + Seq::new((k - 1) as nat, |i: int| ", ?"@).flatten(),
        decreases n - k,
    {
        let ghost before = Seq::new((k - 1) as nat, |i: int| ", ?"@);
        let ghost after = Seq::new(k as nat, |i: int| ", ?"@);
        proof {
            before.lemma_flatten_push(", ?"@);
            assert(before.push(", ?"@) =~= after);
        }
        push_str(&mut q, ", ?");
        k = k + 1;
    }
    push_str(&mut q, ")");
    q
}

} // verus!
