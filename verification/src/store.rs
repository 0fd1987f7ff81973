use vstd::prelude::*;

verus! {

/// A registered user.
#[derive(Debug)]
pub struct User {
    pub id: i32,
    pub name: String,
}

/// A chat group whose member capacity is fixed at creation.
#[derive(Debug)]
pub struct Group {
    pub id: i32,
    pub name: String,
    pub owner_id: i32,
    pub max_member: i32,
    pub created_at: i64,
    pub expired_at: i64,
}

/// Whether a member holds a seat in the group or waits for one.
#[derive(Debug, Clone, Copy, PartialEq, Eq, Structural)]
pub enum MembershipStatus {
    Joined,
    Waiting,
}

/// The relation between a user and a group. A (user, group) pair occurs at
/// most once.
#[derive(Debug, Clone, Copy, PartialEq, Eq, Structural)]
pub struct Membership {
    pub user_id: i32,
    pub group_id: i32,
    pub status: MembershipStatus,
}

/// A message posted to a group. `content` may be absent for non-text kinds.
#[derive(Debug)]
pub struct Message {
    pub id: i32,
    pub group_id: i32,
    pub user_id: i32,
    pub content: Option<String>,
    pub message_type: String,
    pub created_at: i64,
}

/// The persisted state the domain operations read and write: users, groups,
/// memberships and messages, plus the id counters the storage layer owns.
/// Every operation takes the place of one transaction on this state: it
/// either commits its whole effect or leaves the state untouched.
pub struct Store {
    pub users: Vec<User>,
    pub groups: Vec<Group>,
    pub memberships: Vec<Membership>,
    pub messages: Vec<Message>,
    pub next_user_id: i32,
    pub next_group_id: i32,
    pub next_message_id: i32,
}

/// How many memberships of `ms` hold a seat (`Joined`) in group `gid`.
pub open spec fn joined_count(ms: Seq<Membership>, gid: i32) -> nat
    decreases ms.len(),
{
    if ms.len() == 0 {
        0
    } else {
        joined_count(ms.drop_last(), gid) + if ms.last().group_id == gid
            && ms.last().status is Joined {
            1nat
        } else {
            0nat
        }
    }
}

/// How many memberships of `ms` wait (`Waiting`) for a seat in group `gid`.
pub open spec fn waiting_count(ms: Seq<Membership>, gid: i32) -> nat
    decreases ms.len(),
{
    if ms.len() == 0 {
        0
    } else {
        waiting_count(ms.drop_last(), gid) + if ms.last().group_id == gid
            && ms.last().status is Waiting {
            1nat
        } else {
            0nat
        }
    }
}

/// Some membership row for (`uid`, `gid`) exists, of either status.
pub open spec fn has_pair(ms: Seq<Membership>, uid: i32, gid: i32) -> bool {
    exists|i: int|
        0 <= i < ms.len() && ms[i].user_id == uid && ms[i].group_id == gid
}

/// The user holds a seat (`Joined`) in the group.
pub open spec fn is_joined_member(ms: Seq<Membership>, uid: i32, gid: i32) -> bool {
    exists|i: int|
        0 <= i < ms.len() && ms[i].user_id == uid && ms[i].group_id == gid && ms[i].status
            is Joined
}

/// The timestamp a new message is stored under: the caller's clock, clamped
/// upward so that creation times never decrease with insertion order even if
/// that clock steps back.
pub open spec fn message_stamp(msgs: Seq<Message>, now: i64) -> i64 {
    if msgs.len() == 0 || msgs.last().created_at <= now {
        now
    } else {
        msgs.last().created_at
    }
}

/// The indices of the messages of group `gid`, in insertion order.
pub open spec fn group_msg_indices(msgs: Seq<Message>, gid: i32) -> Seq<int>
    decreases msgs.len(),
{
    if msgs.len() == 0 {
        Seq::empty()
    } else {
        let pre = group_msg_indices(msgs.drop_last(), gid);
        if msgs.last().group_id == gid {
            pre.push(msgs.len() - 1)
        } else {
            pre
        }
    }
}

/// The indices of the membership rows of user `uid`, in insertion order.
pub open spec fn member_indices(ms: Seq<Membership>, uid: i32) -> Seq<int>
    decreases ms.len(),
{
    if ms.len() == 0 {
        Seq::empty()
    } else {
        let pre = member_indices(ms.drop_last(), uid);
        if ms.last().user_id == uid {
            pre.push(ms.len() - 1)
        } else {
            pre
        }
    }
}

/// Every index the message filter keeps points at a message of the group,
/// the kept indices increase strictly with their position, and no message of
/// the group is dropped.
pub proof fn lemma_group_msg_indices(msgs: Seq<Message>, gid: i32)
    ensures
        forall|a: int|
            0 <= a < group_msg_indices(msgs, gid).len() ==> 0 <= #[trigger] group_msg_indices(
                msgs,
                gid,
            )[a] < msgs.len() && msgs[group_msg_indices(msgs, gid)[a]].group_id == gid,
        forall|a: int, b: int|
            0 <= a < b < group_msg_indices(msgs, gid).len() ==> group_msg_indices(msgs, gid)[a]
                < group_msg_indices(msgs, gid)[b],
        forall|j: int|
            0 <= j < msgs.len() && (#[trigger] msgs[j]).group_id == gid ==> group_msg_indices(
                msgs,
                gid,
            ).contains(j),
    decreases msgs.len(),
{
    let gi = group_msg_indices(msgs, gid);
    if msgs.len() > 0 {
        let pre = group_msg_indices(msgs.drop_last(), gid);
        lemma_group_msg_indices(msgs.drop_last(), gid);
        assert(forall|j: int| 0 <= j < msgs.len() - 1 ==> msgs.drop_last()[j] == msgs[j]);
        assert forall|a: int|
            0 <= a < gi.len() implies 0 <= #[trigger] gi[a] < msgs.len() && msgs[gi[a]].group_id
            == gid by {
            if a < pre.len() {
                assert(gi[a] == pre[a]);
                assert(msgs.drop_last()[pre[a]].group_id == gid);
            } else {
                assert(gi[a] == msgs.len() - 1);
                assert(msgs.last() == msgs[msgs.len() - 1]);
            }
        }
        assert forall|a: int, b: int|
            0 <= a < b < gi.len() implies gi[a] < gi[b] by {
            if b < pre.len() {
                assert(gi[a] == pre[a]);
                assert(gi[b] == pre[b]);
            } else if b == pre.len() && gi.len() > pre.len() {
                assert(gi[a] == pre[a]);
                assert(0 <= pre[a] < msgs.drop_last().len());
                assert(gi[b] == msgs.len() - 1);
            }
        }
        assert forall|j: int|
            0 <= j < msgs.len() && (#[trigger] msgs[j]).group_id == gid implies gi.contains(j) by {
            if j < msgs.len() - 1 {
                assert(msgs.drop_last()[j] == msgs[j]);
                assert(pre.contains(j));
                let w = choose|w: int| 0 <= w < pre.len() && pre[w] == j;
                assert(gi[w] == j);
            } else {
                assert(msgs.last() == msgs[msgs.len() - 1]);
                assert(gi[pre.len() as int] == j);
            }
        }
    }
}

/// Every index the membership filter keeps points at a membership of the
/// user, the kept indices increase strictly with their position, and no
/// membership of the user is dropped.
pub proof fn lemma_member_indices(ms: Seq<Membership>, uid: i32)
    ensures
        forall|a: int|
            0 <= a < member_indices(ms, uid).len() ==> 0 <= #[trigger] member_indices(ms, uid)[a]
                < ms.len() && ms[member_indices(ms, uid)[a]].user_id == uid,
        forall|a: int, b: int|
            0 <= a < b < member_indices(ms, uid).len() ==> member_indices(ms, uid)[a]
                < member_indices(ms, uid)[b],
        forall|j: int|
            0 <= j < ms.len() && (#[trigger] ms[j]).user_id == uid ==> member_indices(
                ms,
                uid,
            ).contains(j),
    decreases ms.len(),
{
    let mi = member_indices(ms, uid);
    if ms.len() > 0 {
        let pre = member_indices(ms.drop_last(), uid);
        lemma_member_indices(ms.drop_last(), uid);
        assert(forall|j: int| 0 <= j < ms.len() - 1 ==> ms.drop_last()[j] == ms[j]);
        assert forall|a: int|
            0 <= a < mi.len() implies 0 <= #[trigger] mi[a] < ms.len() && ms[mi[a]].user_id
            == uid by {
            if a < pre.len() {
                assert(mi[a] == pre[a]);
                assert(ms.drop_last()[pre[a]].user_id == uid);
            } else {
                assert(mi[a] == ms.len() - 1);
                assert(ms.last() == ms[ms.len() - 1]);
            }
        }
        assert forall|a: int, b: int|
            0 <= a < b < mi.len() implies mi[a] < mi[b] by {
            if b < pre.len() {
                assert(mi[a] == pre[a]);
                assert(mi[b] == pre[b]);
            } else if b == pre.len() && mi.len() > pre.len() {
                assert(mi[a] == pre[a]);
                assert(0 <= pre[a] < ms.drop_last().len());
                assert(mi[b] == ms.len() - 1);
            }
        }
        assert forall|j: int|
            0 <= j < ms.len() && (#[trigger] ms[j]).user_id == uid implies mi.contains(j) by {
            if j < ms.len() - 1 {
                assert(ms.drop_last()[j] == ms[j]);
                assert(pre.contains(j));
                let w = choose|w: int| 0 <= w < pre.len() && pre[w] == j;
                assert(mi[w] == j);
            } else {
                assert(ms.last() == ms[ms.len() - 1]);
                assert(mi[pre.len() as int] == j);
            }
        }
    }
}

/// The view of an optional text as an optional character sequence.
pub open spec fn opt_text(o: Option<String>) -> Option<Seq<char>> {
    match o {
        Some(s) => Some(s@),
        None => None,
    }
}

impl Store {
    pub open spec fn has_user_id(self, uid: i32) -> bool {
        exists|i: int| 0 <= i < self.users@.len() && self.users@[i].id == uid
    }

    pub open spec fn has_user_name(self, name: Seq<char>) -> bool {
        exists|i: int| 0 <= i < self.users@.len() && self.users@[i].name@ == name
    }

    pub open spec fn has_group(self, gid: i32) -> bool {
        exists|i: int| 0 <= i < self.groups@.len() && self.groups@[i].id == gid
    }

    /// The unique group row carrying id `gid` (meaningful when `has_group`
    /// holds of a well-formed store).
    pub open spec fn group_of(self, gid: i32) -> Group {
        choose|g: Group| self.groups@.contains(g) && g.id == gid
    }

    /// The unique user row carrying id `uid` (meaningful when `has_user_id`
    /// holds of a well-formed store).
    pub open spec fn user_of(self, uid: i32) -> User {
        choose|u: User| self.users@.contains(u) && u.id == uid
    }

    pub open spec fn users_wf(self) -> bool {
        &&& forall|i: int, j: int|
            #![trigger self.users@[i], self.users@[j]]
            0 <= i < self.users@.len() && 0 <= j < self.users@.len() && i != j
                ==> self.users@[i].id != self.users@[j].id && self.users@[i].name@
                != self.users@[j].name@
        &&& forall|i: int|
            0 <= i < self.users@.len() ==> (#[trigger] self.users@[i]).id < self.next_user_id
    }

    pub open spec fn groups_wf(self) -> bool {
        &&& forall|i: int, j: int|
            #![trigger self.groups@[i], self.groups@[j]]
            0 <= i < self.groups@.len() && 0 <= j < self.groups@.len() && i != j
                ==> self.groups@[i].id != self.groups@[j].id
        &&& forall|i: int|
            0 <= i < self.groups@.len() ==> (#[trigger] self.groups@[i]).id < self.next_group_id
                && self.groups@[i].max_member >= 1
    }

    pub open spec fn memberships_wf(self) -> bool {
        &&& forall|i: int, j: int|
            #![trigger self.memberships@[i], self.memberships@[j]]
            0 <= i < self.memberships@.len() && 0 <= j < self.memberships@.len() && i != j
                ==> !(self.memberships@[i].user_id == self.memberships@[j].user_id
                && self.memberships@[i].group_id == self.memberships@[j].group_id)
        &&& forall|i: int|
            0 <= i < self.memberships@.len() ==> self.has_user_id(
                (#[trigger] self.memberships@[i]).user_id,
            ) && self.has_group(self.memberships@[i].group_id)
    }

    /// The capacity rule: no group ever holds more seated members than its
    /// `max_member`.
    pub open spec fn capacity_wf(self) -> bool {
        forall|i: int|
            0 <= i < self.groups@.len() ==> joined_count(
                self.memberships@,
                (#[trigger] self.groups@[i]).id,
            ) <= self.groups@[i].max_member
    }

    pub open spec fn messages_wf(self) -> bool {
        &&& forall|i: int, j: int|
            #![trigger self.messages@[i], self.messages@[j]]
            0 <= i < j < self.messages@.len() ==> self.messages@[i].id < self.messages@[j].id
                && self.messages@[i].created_at <= self.messages@[j].created_at
        &&& forall|i: int|
            0 <= i < self.messages@.len() ==> (#[trigger] self.messages@[i]).id
                < self.next_message_id && self.has_user_id(self.messages@[i].user_id)
                && self.has_group(self.messages@[i].group_id)
    }

    /// Well-formedness of the whole store: unique user ids and names, unique
    /// group ids, at most one membership per (user, group), every membership
    /// and message referring to existing rows, seated members within every
    /// group's capacity, and messages appended with strictly increasing ids
    /// and non-decreasing timestamps.
    pub open spec fn wf(self) -> bool {
        &&& self.users_wf()
        &&& self.groups_wf()
        &&& self.memberships_wf()
        &&& self.capacity_wf()
        &&& self.messages_wf()
    }

    /// An empty store, from which every well-formed state is reachable
    /// through the domain operations.
    pub fn new() -> (s: Store)
        ensures
            s.wf(),
            s.users@.len() == 0,
            s.groups@.len() == 0,
            s.memberships@.len() == 0,
            s.messages@.len() == 0,
            s.next_user_id == 0,
            s.next_group_id == 0,
            s.next_message_id == 0,
    {
        Store {
            users: Vec::new(),
            groups: Vec::new(),
            memberships: Vec::new(),
            messages: Vec::new(),
            next_user_id: 0,
            next_group_id: 0,
            next_message_id: 0,
        }
    }
}

/// Appending one membership raises the seated count of its own group by one
/// exactly when it is seated, and changes no other group's count; the same
/// holds of the waiting count.
pub proof fn lemma_counts_push(ms: Seq<Membership>, m: Membership, gid: i32)
    ensures
        joined_count(ms.push(m), gid) == joined_count(ms, gid) + if m.group_id == gid
            && m.status is Joined {
            1nat
        } else {
            0nat
        },
        waiting_count(ms.push(m), gid) == waiting_count(ms, gid) + if m.group_id == gid
            && m.status is Waiting {
            1nat
        } else {
            0nat
        },
{
    assert(ms.push(m).drop_last() =~= ms);
    assert(ms.push(m).last() == m);
}

/// A group no membership refers to has no seated and no waiting members.
pub proof fn lemma_counts_absent(ms: Seq<Membership>, gid: i32)
    requires
        forall|i: int| 0 <= i < ms.len() ==> (#[trigger] ms[i]).group_id != gid,
    ensures
        joined_count(ms, gid) == 0,
        waiting_count(ms, gid) == 0,
    decreases ms.len(),
{
    if ms.len() > 0 {
        assert(forall|i: int|
            0 <= i < ms.drop_last().len() ==> (#[trigger] ms.drop_last()[i]).group_id != gid);
        lemma_counts_absent(ms.drop_last(), gid);
        assert(ms.last() == ms[ms.len() - 1]);
    }
}

/// In a well-formed store, `group_of` picks out exactly the one group row
/// with the asked-for id.
pub proof fn lemma_group_lookup(s: Store, gid: i32)
    requires
        s.groups_wf(),
        s.has_group(gid),
    ensures
        s.groups@.contains(s.group_of(gid)),
        s.group_of(gid).id == gid,
        forall|i: int|
            0 <= i < s.groups@.len() && (#[trigger] s.groups@[i]).id == gid ==> s.groups@[i]
                == s.group_of(gid),
{
    let i = choose|i: int| 0 <= i < s.groups@.len() && s.groups@[i].id == gid;
    assert(s.groups@.contains(s.groups@[i]));
    assert(s.groups@.contains(s.group_of(gid)) && s.group_of(gid).id == gid);
    assert forall|j: int|
        0 <= j < s.groups@.len() && (#[trigger] s.groups@[j]).id == gid implies s.groups@[j]
        == s.group_of(gid) by {
        let g = s.group_of(gid);
        let k = choose|k: int| 0 <= k < s.groups@.len() && s.groups@[k] == g;
        assert(j == k);
    }
}

/// In a well-formed store the looked-up group has a capacity of at least one
/// and its seated members stay within that capacity.
pub proof fn lemma_group_capacity(s: Store, gid: i32)
    requires
        s.wf(),
        s.has_group(gid),
    ensures
        s.group_of(gid).max_member >= 1,
        joined_count(s.memberships@, gid) <= s.group_of(gid).max_member,
{
    lemma_group_lookup(s, gid);
    let g = s.group_of(gid);
    let k = choose|k: int| 0 <= k < s.groups@.len() && s.groups@[k] == g;
    assert(s.groups@[k].max_member >= 1);
    assert(joined_count(s.memberships@, s.groups@[k].id) <= s.groups@[k].max_member);
}

/// In a well-formed store, `user_of` picks out exactly the one user row with
/// the asked-for id.
pub proof fn lemma_user_lookup(s: Store, uid: i32)
    requires
        s.users_wf(),
        s.has_user_id(uid),
    ensures
        s.users@.contains(s.user_of(uid)),
        s.user_of(uid).id == uid,
        forall|i: int|
            0 <= i < s.users@.len() && (#[trigger] s.users@[i]).id == uid ==> s.users@[i]
                == s.user_of(uid),
{
    let i = choose|i: int| 0 <= i < s.users@.len() && s.users@[i].id == uid;
    assert(s.users@.contains(s.users@[i]));
    assert(s.users@.contains(s.user_of(uid)) && s.user_of(uid).id == uid);
    assert forall|j: int|
        0 <= j < s.users@.len() && (#[trigger] s.users@[j]).id == uid implies s.users@[j]
        == s.user_of(uid) by {
        let u = s.user_of(uid);
        let k = choose|k: int| 0 <= k < s.users@.len() && s.users@[k] == u;
        assert(j == k);
    }
}

} // verus!
