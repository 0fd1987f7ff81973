use vstd::prelude::*;
use crate::errors::ApiError;
use crate::store::{
    Store, User, Group, Membership, MembershipStatus, Message, joined_count, waiting_count,
    has_pair, is_joined_member, opt_text, message_stamp, group_msg_indices, member_indices,
    lemma_counts_push, lemma_counts_absent, lemma_group_lookup, lemma_user_lookup,
    lemma_group_capacity, lemma_group_msg_indices, lemma_member_indices,
};
use crate::payloads::{MessageResponse, GroupInfo};

verus! {

/// A copy of an optional text with the same view.
fn clone_opt_text(o: &Option<String>) -> (r: Option<String>)
    ensures
        opt_text(r) == opt_text(*o),
{
    match o {
        Some(s) => Some(s.clone()),
        None => None,
    }
}

impl Store {
    /// Whether some registered user already carries this display name.
    pub fn user_name_taken(&self, name: &String) -> (r: bool)
        ensures
            r == self.has_user_name(name@),
    {
        let mut i: usize = 0;
        while i < self.users.len()
            invariant
                i <= self.users@.len(),
                forall|j: int| 0 <= j < i ==> (#[trigger] self.users@[j]).name@ != name@,
            decreases self.users@.len() - i,
        {
            if self.users[i].name == *name {
                return true;
            }
            i += 1;
        }
        false
    }

    /// The display name of the user with id `uid`, when one is registered.
    pub fn find_user_name(&self, uid: i32) -> (r: Option<String>)
        requires
            self.users_wf(),
        ensures
            (r matches Some(n) ==> self.has_user_id(uid) && n@ == self.user_of(uid).name@),
            (r is None ==> !self.has_user_id(uid)),
    {
        let mut i: usize = 0;
        while i < self.users.len()
            invariant
                self.users_wf(),
                i <= self.users@.len(),
                forall|j: int| 0 <= j < i ==> (#[trigger] self.users@[j]).id != uid,
            decreases self.users@.len() - i,
        {
            if self.users[i].id == uid {
                proof {
                    lemma_user_lookup(*self, uid);
                }
                return Some(self.users[i].name.clone());
            }
            i += 1;
        }
        None
    }

    /// The group row with id `gid`, when one exists.
    pub fn find_group(&self, gid: i32) -> (r: Option<Group>)
        requires
            self.groups_wf(),
        ensures
            (r matches Some(g) ==> self.has_group(gid) && g.id == gid && g.name@ == self.group_of(
                gid,
            ).name@ && g.owner_id == self.group_of(gid).owner_id && g.max_member == self.group_of(
                gid,
            ).max_member && g.created_at == self.group_of(gid).created_at && g.expired_at
                == self.group_of(gid).expired_at),
            (r is None ==> !self.has_group(gid)),
    {
        let mut i: usize = 0;
        while i < self.groups.len()
            invariant
                self.groups_wf(),
                i <= self.groups@.len(),
                forall|j: int| 0 <= j < i ==> (#[trigger] self.groups@[j]).id != gid,
            decreases self.groups@.len() - i,
        {
            if self.groups[i].id == gid {
                proof {
                    lemma_group_lookup(*self, gid);
                }
                let g = &self.groups[i];
                return Some(
                    Group {
                        id: g.id,
                        name: g.name.clone(),
                        owner_id: g.owner_id,
                        max_member: g.max_member,
                        created_at: g.created_at,
                        expired_at: g.expired_at,
                    },
                );
            }
            i += 1;
        }
        None
    }

    /// Whether a membership row for (`uid`, `gid`) exists, of either status.
    pub fn pair_exists(&self, uid: i32, gid: i32) -> (r: bool)
        ensures
            r == has_pair(self.memberships@, uid, gid),
    {
        let mut i: usize = 0;
        while i < self.memberships.len()
            invariant
                i <= self.memberships@.len(),
                forall|j: int|
                    0 <= j < i ==> !((#[trigger] self.memberships@[j]).user_id == uid
                        && self.memberships@[j].group_id == gid),
            decreases self.memberships@.len() - i,
        {
            let m = self.memberships[i];
            if m.user_id == uid && m.group_id == gid {
                return true;
            }
            i += 1;
        }
        false
    }

    /// Whether the user holds a seat (`Joined`) in the group.
    pub fn member_is_joined(&self, uid: i32, gid: i32) -> (r: bool)
        ensures
            r == is_joined_member(self.memberships@, uid, gid),
    {
        let mut i: usize = 0;
        while i < self.memberships.len()
            invariant
                i <= self.memberships@.len(),
                forall|j: int|
                    0 <= j < i ==> !((#[trigger] self.memberships@[j]).user_id == uid
                        && self.memberships@[j].group_id == gid && self.memberships@[j].status
                        is Joined),
            decreases self.memberships@.len() - i,
        {
            let m = self.memberships[i];
            if m.user_id == uid && m.group_id == gid && matches!(m.status, MembershipStatus::Joined) {
                return true;
            }
            i += 1;
        }
        false
    }

    /// How many members hold a seat in group `gid`.
    pub fn count_joined(&self, gid: i32) -> (r: usize)
        ensures
            r == joined_count(self.memberships@, gid),
    {
        let mut i: usize = 0;
        let mut c: usize = 0;
        while i < self.memberships.len()
            invariant
                i <= self.memberships@.len(),
                c <= i,
                c == joined_count(self.memberships@.take(i as int), gid),
            decreases self.memberships@.len() - i,
        {
            let m = self.memberships[i];
            proof {
                assert(self.memberships@.take(i + 1).drop_last() =~= self.memberships@.take(
                    i as int,
                ));
                assert(self.memberships@.take(i + 1).last() == self.memberships@[i as int]);
            }
            if m.group_id == gid && matches!(m.status, MembershipStatus::Joined) {
                c += 1;
            }
            i += 1;
        }
        proof {
            assert(self.memberships@.take(self.memberships@.len() as int) =~= self.memberships@);
        }
        c
    }

    /// How many members wait for a seat in group `gid`.
    pub fn count_waiting(&self, gid: i32) -> (r: usize)
        ensures
            r == waiting_count(self.memberships@, gid),
    {
        let mut i: usize = 0;
        let mut c: usize = 0;
        while i < self.memberships.len()
            invariant
                i <= self.memberships@.len(),
                c <= i,
                c == waiting_count(self.memberships@.take(i as int), gid),
            decreases self.memberships@.len() - i,
        {
            let m = self.memberships[i];
            proof {
                assert(self.memberships@.take(i + 1).drop_last() =~= self.memberships@.take(
                    i as int,
                ));
                assert(self.memberships@.take(i + 1).last() == self.memberships@[i as int]);
            }
            if m.group_id == gid && matches!(m.status, MembershipStatus::Waiting) {
                c += 1;
            }
            i += 1;
        }
        proof {
            assert(self.memberships@.take(self.memberships@.len() as int) =~= self.memberships@);
        }
        c
    }

    /// Register a new user under a unique display name. A taken name is the
    /// uniqueness-constraint case and is reported as `ExistedResource`, with
    /// nothing written; otherwise the user is inserted under the next free
    /// id.
    pub fn register_user(&mut self, name: String) -> (r: Result<User, ApiError>)
        requires
            old(self).wf(),
            old(self).next_user_id < i32::MAX,
        ensures
            final(self).wf(),
            r is Err <==> old(self).has_user_name(name@),
            (old(self).has_user_name(name@) ==> *final(self) == *old(self) && (r matches Err(
                ApiError::ExistedResource(d),
            ) && d@ == name@)),
            (!old(self).has_user_name(name@) ==> (r matches Ok(u) && u.id == old(
                self,
            ).next_user_id && u.name@ == name@ && final(self).users@.len() == old(
                self,
            ).users@.len() + 1 && (forall|i: int|
                0 <= i < old(self).users@.len() ==> final(self).users@[i] == old(self).users@[i])
                && final(self).users@.last().id == u.id && final(self).users@.last().name@ == name@
                && final(self).next_user_id == old(self).next_user_id + 1)),
            final(self).groups@ == old(self).groups@,
            final(self).memberships@ == old(self).memberships@,
            final(self).messages@ == old(self).messages@,
            final(self).next_group_id == old(self).next_group_id,
            final(self).next_message_id == old(self).next_message_id,
    {
        if self.user_name_taken(&name) {
            return Err(ApiError::ExistedResource(name));
        }
        let id = self.next_user_id;
        let returned = User { id, name: name.clone() };
        self.users.push(User { id, name });
        self.next_user_id = id + 1;
        proof {
            assert forall|i: int, j: int|
                0 <= i < self.users@.len() && 0 <= j < self.users@.len() && i
                    != j implies #[trigger] self.users@[i].id != #[trigger] self.users@[j].id
                && self.users@[i].name@ != self.users@[j].name@ by {
                if i < old(self).users@.len() && j < old(self).users@.len() {
                    assert(old(self).users@[i] == self.users@[i]);
                    assert(old(self).users@[j] == self.users@[j]);
                }
            }
            assert forall|uid: i32| old(self).has_user_id(uid) implies self.has_user_id(uid) by {
                let k = choose|k: int|
                    0 <= k < old(self).users@.len() && old(self).users@[k].id == uid;
                assert(self.users@[k] == old(self).users@[k]);
            }
            assert forall|gid: i32| old(self).has_group(gid) implies self.has_group(gid) by {
                let k = choose|k: int|
                    0 <= k < old(self).groups@.len() && old(self).groups@[k].id == gid;
                assert(self.groups@[k].id == gid);
            }
        }
        Ok(returned)
    }

    /// Join a group inside one transaction: a missing group is `NotFound`, a
    /// second membership row for the same (user, group) pair is
    /// `AlreadyJoined` whatever its status, and otherwise the requester is
    /// seated exactly when the seated count is still below the group's
    /// capacity, and put on the waiting list otherwise. The count and the
    /// insert happen against the same snapshot, so two concurrent joins can
    /// never both be admitted past capacity.
    pub fn join_group(&mut self, user_id: i32, group_id: i32) -> (r: Result<Membership, ApiError>)
        requires
            old(self).wf(),
            old(self).has_user_id(user_id),
        ensures
            final(self).wf(),
            r is Err <==> (!old(self).has_group(group_id) || has_pair(
                old(self).memberships@,
                user_id,
                group_id,
            )),
            (!old(self).has_group(group_id) ==> *final(self) == *old(self) && (r matches Err(
                ApiError::NotFound(d),
            ) && d@ == "group"@)),
            (old(self).has_group(group_id) && has_pair(old(self).memberships@, user_id, group_id)
                ==> *final(self) == *old(self) && (r matches Err(e) && e is AlreadyJoined)),
            (old(self).has_group(group_id) && !has_pair(old(self).memberships@, user_id, group_id)
                ==> (r matches Ok(m)
                    && m.user_id == user_id
                    && m.group_id == group_id
                    && (m.status is Joined
                        <==> joined_count(old(self).memberships@, group_id)
                            < old(self).group_of(group_id).max_member)
                    && final(self).memberships@ == old(self).memberships@.push(m)
                    && final(self).users@ == old(self).users@
                    && final(self).groups@ == old(self).groups@
                    && final(self).messages@ == old(self).messages@
                    && final(self).next_user_id == old(self).next_user_id
                    && final(self).next_group_id == old(self).next_group_id
                    && final(self).next_message_id == old(self).next_message_id)),
    {
        let g = match self.find_group(group_id) {
            None => {
                return Err(ApiError::NotFound("group".to_owned()));
            },
            Some(g) => g,
        };
        if self.pair_exists(user_id, group_id) {
            return Err(ApiError::AlreadyJoined);
        }
        let joined = self.count_joined(group_id);
        proof {
            lemma_group_capacity(*self, group_id);
        }
        let status = if joined < g.max_member as usize {
            MembershipStatus::Joined
        } else {
            MembershipStatus::Waiting
        };
        let m = Membership { user_id, group_id, status };
        self.memberships.push(m);
        proof {
            let oldms = old(self).memberships@;
            lemma_group_lookup(*old(self), group_id);
            assert forall|i: int, j: int|
                0 <= i < self.memberships@.len() && 0 <= j < self.memberships@.len() && i
                    != j implies !((#[trigger] self.memberships@[i]).user_id
                == (#[trigger] self.memberships@[j]).user_id && self.memberships@[i].group_id
                == self.memberships@[j].group_id) by {
                if i < oldms.len() && j < oldms.len() {
                    assert(self.memberships@[i] == oldms[i]);
                    assert(self.memberships@[j] == oldms[j]);
                } else if j == oldms.len() {
                    assert(self.memberships@[j] == m);
                    assert(self.memberships@[i] == oldms[i]);
                    assert(!(oldms[i].user_id == user_id && oldms[i].group_id == group_id));
                } else {
                    assert(self.memberships@[i] == m);
                    assert(self.memberships@[j] == oldms[j]);
                    assert(!(oldms[j].user_id == user_id && oldms[j].group_id == group_id));
                }
            }
            assert forall|uid: i32| old(self).has_user_id(uid) implies self.has_user_id(uid) by {
                let k = choose|k: int|
                    0 <= k < old(self).users@.len() && old(self).users@[k].id == uid;
                assert(self.users@[k].id == uid);
            }
            assert forall|gid: i32| old(self).has_group(gid) implies self.has_group(gid) by {
                let k = choose|k: int|
                    0 <= k < old(self).groups@.len() && old(self).groups@[k].id == gid;
                assert(self.groups@[k].id == gid);
            }
            assert forall|i: int|
                0 <= i < self.memberships@.len() implies self.has_user_id(
                (#[trigger] self.memberships@[i]).user_id,
            ) && self.has_group(self.memberships@[i].group_id) by {
                if i < oldms.len() {
                    assert(self.memberships@[i] == oldms[i]);
                    assert(old(self).has_user_id(oldms[i].user_id));
                    assert(old(self).has_group(oldms[i].group_id));
                } else {
                    assert(self.memberships@[i] == m);
                }
            }
            assert forall|i: int|
                0 <= i < self.groups@.len() implies joined_count(
                self.memberships@,
                (#[trigger] self.groups@[i]).id,
            ) <= self.groups@[i].max_member by {
                lemma_counts_push(oldms, m, self.groups@[i].id);
                assert(joined_count(oldms, self.groups@[i].id) <= self.groups@[i].max_member);
                if self.groups@[i].id == group_id {
                    assert(self.groups@[i] == old(self).group_of(group_id));
                }
            }
        }
        Ok(m)
    }

    /// Post a message to a group. A sender who holds no seat in the group is
    /// rejected with `Forbidden` and nothing is written; otherwise the
    /// message row is appended under the next free id, stamped with the
    /// caller's clock clamped so creation times never decrease with
    /// insertion order.
    pub fn send_message(
        &mut self,
        user_id: i32,
        group_id: i32,
        content: Option<String>,
        message_type: String,
        now: i64,
    ) -> (r: Result<Message, ApiError>)
        requires
            old(self).wf(),
            old(self).next_message_id < i32::MAX,
        ensures
            final(self).wf(),
            r is Err <==> !is_joined_member(old(self).memberships@, user_id, group_id),
            (!is_joined_member(old(self).memberships@, user_id, group_id) ==> *final(self)
                == *old(self) && (r matches Err(e) && e is Forbidden)),
            (is_joined_member(old(self).memberships@, user_id, group_id) ==> (r matches Ok(msg)
                && msg.id == old(self).next_message_id
                && msg.user_id == user_id
                && msg.group_id == group_id
                && opt_text(msg.content) == opt_text(content)
                && msg.message_type@ == message_type@
                && msg.created_at == message_stamp(old(self).messages@, now)
                && final(self).messages@.len() == old(self).messages@.len() + 1
                && (forall|i: int|
                    0 <= i < old(self).messages@.len() ==> final(self).messages@[i] == old(
                        self,
                    ).messages@[i])
                && final(self).messages@.last().id == msg.id
                && final(self).messages@.last().user_id == user_id
                && final(self).messages@.last().group_id == group_id
                && opt_text(final(self).messages@.last().content) == opt_text(content)
                && final(self).messages@.last().message_type@ == message_type@
                && final(self).messages@.last().created_at == msg.created_at
                && final(self).users@ == old(self).users@
                && final(self).groups@ == old(self).groups@
                && final(self).memberships@ == old(self).memberships@
                && final(self).next_message_id == old(self).next_message_id + 1
                && final(self).next_user_id == old(self).next_user_id
                && final(self).next_group_id == old(self).next_group_id)),
    {
        if !self.member_is_joined(user_id, group_id) {
            return Err(ApiError::Forbidden);
        }
        let stamp = if self.messages.len() > 0 {
            let last = self.messages[self.messages.len() - 1].created_at;
            if last <= now {
                now
            } else {
                last
            }
        } else {
            now
        };
        let id = self.next_message_id;
        let msg = Message {
            id,
            group_id,
            user_id,
            content: clone_opt_text(&content),
            message_type: message_type.clone(),
            created_at: stamp,
        };
        self.messages.push(
            Message { id, group_id, user_id, content, message_type, created_at: stamp },
        );
        self.next_message_id = id + 1;
        proof {
            let oldm = old(self).messages@;
            let k = choose|k: int|
                0 <= k < old(self).memberships@.len() && old(self).memberships@[k].user_id
                    == user_id && old(self).memberships@[k].group_id == group_id && old(
                    self,
                ).memberships@[k].status is Joined;
            assert(old(self).has_user_id(user_id));
            assert(old(self).has_group(group_id));
            assert forall|i: int, j: int|
                0 <= i < j < self.messages@.len() implies (#[trigger] self.messages@[i]).id
                < (#[trigger] self.messages@[j]).id && self.messages@[i].created_at
                <= self.messages@[j].created_at by {
                if j < oldm.len() {
                    assert(self.messages@[i] == oldm[i]);
                    assert(self.messages@[j] == oldm[j]);
                } else {
                    assert(self.messages@[i] == oldm[i]);
                    assert(oldm[i].id < old(self).next_message_id);
                    if i < oldm.len() - 1 {
                        assert(oldm[i].created_at <= oldm[oldm.len() - 1].created_at);
                    }
                }
            }
            assert forall|uid: i32| old(self).has_user_id(uid) implies self.has_user_id(uid) by {
                let w = choose|w: int|
                    0 <= w < old(self).users@.len() && old(self).users@[w].id == uid;
                assert(self.users@[w].id == uid);
            }
            assert forall|gid: i32| old(self).has_group(gid) implies self.has_group(gid) by {
                let w = choose|w: int|
                    0 <= w < old(self).groups@.len() && old(self).groups@[w].id == gid;
                assert(self.groups@[w].id == gid);
            }
            assert forall|i: int|
                0 <= i < self.memberships@.len() implies self.has_user_id(
                (#[trigger] self.memberships@[i]).user_id,
            ) && self.has_group(self.memberships@[i].group_id) by {
                assert(old(self).has_user_id(old(self).memberships@[i].user_id));
                assert(old(self).has_group(old(self).memberships@[i].group_id));
            }
            assert forall|i: int|
                0 <= i < self.messages@.len() implies (#[trigger] self.messages@[i]).id
                < self.next_message_id && self.has_user_id(self.messages@[i].user_id)
                && self.has_group(self.messages@[i].group_id) by {
                if i < oldm.len() {
                    assert(self.messages@[i] == oldm[i]);
                    assert(old(self).has_user_id(oldm[i].user_id));
                    assert(old(self).has_group(oldm[i].group_id));
                }
            }
        }
        Ok(msg)
    }

    /// Create a group and seat its owner in one transaction: the group row
    /// and the owner's `Joined` membership are written together, so no state
    /// in which the group exists without its seated owner is ever visible.
    /// The group's capacity is fixed here; its lifetime runs from the
    /// caller's clock `now` for `ttl` ticks.
    pub fn create_group_with_user(
        &mut self,
        owner_id: i32,
        name: String,
        max_member: i32,
        ttl: i64,
        now: i64,
    ) -> (r: Result<Group, ApiError>)
        requires
            old(self).wf(),
            old(self).has_user_id(owner_id),
            old(self).next_group_id < i32::MAX,
            max_member >= 1,
            ttl >= 0,
            now + ttl <= i64::MAX,
        ensures
            final(self).wf(),
            r is Ok,
            (r matches Ok(g)
                && g.id == old(self).next_group_id
                && g.name@ == name@
                && g.owner_id == owner_id
                && g.max_member == max_member
                && g.created_at == now
                && g.expired_at == now + ttl
                && final(self).groups@.len() == old(self).groups@.len() + 1
                && (forall|i: int|
                    0 <= i < old(self).groups@.len() ==> final(self).groups@[i] == old(
                        self,
                    ).groups@[i])
                && final(self).groups@.last().id == g.id
                && final(self).groups@.last().name@ == name@
                && final(self).groups@.last().owner_id == owner_id
                && final(self).groups@.last().max_member == max_member
                && final(self).groups@.last().created_at == now
                && final(self).groups@.last().expired_at == now + ttl
                && final(self).memberships@ == old(self).memberships@.push(
                    Membership {
                        user_id: owner_id,
                        group_id: g.id,
                        status: MembershipStatus::Joined,
                    },
                )
                && final(self).users@ == old(self).users@
                && final(self).messages@ == old(self).messages@
                && final(self).next_group_id == old(self).next_group_id + 1
                && final(self).next_user_id == old(self).next_user_id
                && final(self).next_message_id == old(self).next_message_id),
            joined_count(final(self).memberships@, old(self).next_group_id) == 1,
    {
        let id = self.next_group_id;
        let g = Group {
            id,
            name: name.clone(),
            owner_id,
            max_member,
            created_at: now,
            expired_at: now + ttl,
        };
        self.groups.push(
            Group { id, name, owner_id, max_member, created_at: now, expired_at: now + ttl },
        );
        let m0 = Membership { user_id: owner_id, group_id: id, status: MembershipStatus::Joined };
        self.memberships.push(m0);
        self.next_group_id = id + 1;
        proof {
            let oldg = old(self).groups@;
            let oldms = old(self).memberships@;
            assert forall|i: int|
                0 <= i < oldms.len() implies (#[trigger] oldms[i]).group_id != id by {
                assert(old(self).has_group(oldms[i].group_id));
                let w = choose|w: int|
                    0 <= w < oldg.len() && oldg[w].id == oldms[i].group_id;
                assert(oldg[w].id < id);
            }
            lemma_counts_absent(oldms, id);
            assert forall|uid: i32| old(self).has_user_id(uid) implies self.has_user_id(uid) by {
                let w = choose|w: int|
                    0 <= w < old(self).users@.len() && old(self).users@[w].id == uid;
                assert(self.users@[w].id == uid);
            }
            assert forall|gid: i32| old(self).has_group(gid) implies self.has_group(gid) by {
                let w = choose|w: int| 0 <= w < oldg.len() && oldg[w].id == gid;
                assert(self.groups@[w] == oldg[w]);
            }
            assert(self.groups@.last().id == id);
            assert(self.has_group(id));
            assert forall|i: int, j: int|
                0 <= i < self.groups@.len() && 0 <= j < self.groups@.len() && i
                    != j implies #[trigger] self.groups@[i].id != #[trigger] self.groups@[j].id by {
                if i < oldg.len() && j < oldg.len() {
                    assert(self.groups@[i] == oldg[i]);
                    assert(self.groups@[j] == oldg[j]);
                } else if j == oldg.len() {
                    assert(self.groups@[i] == oldg[i]);
                    assert(oldg[i].id < id);
                } else {
                    assert(self.groups@[j] == oldg[j]);
                    assert(oldg[j].id < id);
                }
            }
            assert forall|i: int, j: int|
                0 <= i < self.memberships@.len() && 0 <= j < self.memberships@.len() && i
                    != j implies !((#[trigger] self.memberships@[i]).user_id
                == (#[trigger] self.memberships@[j]).user_id && self.memberships@[i].group_id
                == self.memberships@[j].group_id) by {
                if i < oldms.len() && j < oldms.len() {
                    assert(self.memberships@[i] == oldms[i]);
                    assert(self.memberships@[j] == oldms[j]);
                } else if j == oldms.len() {
                    assert(self.memberships@[i] == oldms[i]);
                    assert(oldms[i].group_id != id);
                } else {
                    assert(self.memberships@[j] == oldms[j]);
                    assert(oldms[j].group_id != id);
                }
            }
            assert forall|i: int|
                0 <= i < self.memberships@.len() implies self.has_user_id(
                (#[trigger] self.memberships@[i]).user_id,
            ) && self.has_group(self.memberships@[i].group_id) by {
                if i < oldms.len() {
                    assert(self.memberships@[i] == oldms[i]);
                    assert(old(self).has_user_id(oldms[i].user_id));
                    assert(old(self).has_group(oldms[i].group_id));
                } else {
                    assert(self.memberships@[i] == m0);
                }
            }
            assert forall|i: int|
                0 <= i < self.groups@.len() implies joined_count(
                self.memberships@,
                (#[trigger] self.groups@[i]).id,
            ) <= self.groups@[i].max_member by {
                lemma_counts_push(oldms, m0, self.groups@[i].id);
                if i < oldg.len() {
                    assert(self.groups@[i] == oldg[i]);
                    assert(oldg[i].id < id);
                    assert(joined_count(oldms, oldg[i].id) <= oldg[i].max_member);
                } else {
                    assert(self.groups@[i] == self.groups@.last());
                    assert(joined_count(oldms, id) == 0);
                }
            }
            lemma_counts_push(oldms, m0, id);
            assert forall|i: int|
                0 <= i < self.messages@.len() implies self.has_user_id(
                (#[trigger] self.messages@[i]).user_id,
            ) && self.has_group(self.messages@[i].group_id) by {
                assert(old(self).has_user_id(old(self).messages@[i].user_id));
                assert(old(self).has_group(old(self).messages@[i].group_id));
            }
        }
        Ok(g)
    }

    /// Register a user and create their group in one combined operation: the
    /// user row, the group row and the owner's seat all come to exist
    /// together, or — when the name is taken — nothing is written at all.
    pub fn create_user_and_group(
        &mut self,
        user_name: String,
        group_name: String,
        max_member: i32,
        ttl: i64,
        now: i64,
    ) -> (r: Result<(User, Group), ApiError>)
        requires
            old(self).wf(),
            old(self).next_user_id < i32::MAX,
            old(self).next_group_id < i32::MAX,
            max_member >= 1,
            ttl >= 0,
            now + ttl <= i64::MAX,
        ensures
            final(self).wf(),
            r is Err <==> old(self).has_user_name(user_name@),
            (old(self).has_user_name(user_name@) ==> *final(self) == *old(self) && (r matches Err(
                ApiError::ExistedResource(d),
            ) && d@ == user_name@)),
            (!old(self).has_user_name(user_name@) ==> (r matches Ok(ug)
                && ug.0.id == old(self).next_user_id
                && ug.0.name@ == user_name@
                && ug.1.id == old(self).next_group_id
                && ug.1.name@ == group_name@
                && ug.1.owner_id == ug.0.id
                && ug.1.max_member == max_member
                && ug.1.created_at == now
                && ug.1.expired_at == now + ttl
                && final(self).users@.len() == old(self).users@.len() + 1
                && (forall|i: int|
                    0 <= i < old(self).users@.len() ==> final(self).users@[i] == old(
                        self,
                    ).users@[i])
                && final(self).users@.last().id == ug.0.id
                && final(self).users@.last().name@ == user_name@
                && final(self).groups@.len() == old(self).groups@.len() + 1
                && (forall|i: int|
                    0 <= i < old(self).groups@.len() ==> final(self).groups@[i] == old(
                        self,
                    ).groups@[i])
                && final(self).groups@.last().id == ug.1.id
                && final(self).groups@.last().name@ == group_name@
                && final(self).groups@.last().owner_id == ug.0.id
                && final(self).groups@.last().max_member == max_member
                && final(self).groups@.last().created_at == now
                && final(self).groups@.last().expired_at == now + ttl
                && final(self).memberships@ == old(self).memberships@.push(
                    Membership {
                        user_id: ug.0.id,
                        group_id: ug.1.id,
                        status: MembershipStatus::Joined,
                    },
                )
                && joined_count(final(self).memberships@, ug.1.id) == 1
                && final(self).next_user_id == old(self).next_user_id + 1
                && final(self).next_group_id == old(self).next_group_id + 1
                && final(self).next_message_id == old(self).next_message_id
                && final(self).messages@ == old(self).messages@)),
    {
        let u = match self.register_user(user_name) {
            Err(e) => {
                return Err(e);
            },
            Ok(u) => u,
        };
        proof {
            assert(self.users@.last().id == u.id);
            assert(self.has_user_id(u.id));
        }
        let g = match self.create_group_with_user(u.id, group_name, max_member, ttl, now) {
            Err(e) => {
                return Err(e);
            },
            Ok(g) => g,
        };
        Ok((u, g))
    }

    /// The latest messages of a group, most recent first, each joined with
    /// its author's display name and bounded to `limit` entries. A group
    /// with no messages yields an empty list, never an error.
    pub fn list_latest_messages(&self, group_id: i32, limit: usize) -> (r: Vec<MessageResponse>)
        requires
            self.wf(),
        ensures
            r@.len() == if limit <= group_msg_indices(self.messages@, group_id).len() {
                limit as int
            } else {
                group_msg_indices(self.messages@, group_id).len() as int
            },
            (forall|t: int|
                0 <= t < r@.len() ==> {
                    let gi = group_msg_indices(self.messages@, group_id);
                    let idx = gi[gi.len() - 1 - t];
                    &&& (#[trigger] r@[t]).id == self.messages@[idx].id
                    &&& r@[t].user_id == self.messages@[idx].user_id
                    &&& r@[t].created_at == self.messages@[idx].created_at
                    &&& r@[t].message_type@ == self.messages@[idx].message_type@
                    &&& opt_text(r@[t].content) == opt_text(self.messages@[idx].content)
                    &&& r@[t].user_name@ == self.user_of(self.messages@[idx].user_id).name@
                }),
            (forall|t1: int, t2: int|
                0 <= t1 < t2 < r@.len() ==> (#[trigger] r@[t1]).created_at
                    >= (#[trigger] r@[t2]).created_at && r@[t1].id > r@[t2].id),
            (forall|j: int|
                0 <= j < self.messages@.len() && (#[trigger] self.messages@[j]).group_id
                    == group_id ==> group_msg_indices(self.messages@, group_id).contains(j)),
    {
        let ghost gi = group_msg_indices(self.messages@, group_id);
        let mut idxs: Vec<usize> = Vec::new();
        let mut i: usize = 0;
        while i < self.messages.len()
            invariant
                i <= self.messages@.len(),
                idxs@.map_values(|u: usize| u as int) == group_msg_indices(
                    self.messages@.take(i as int),
                    group_id,
                ),
                forall|a: int| 0 <= a < idxs@.len() ==> (#[trigger] idxs@[a]) < i,
            decreases self.messages@.len() - i,
        {
            proof {
                assert(self.messages@.take(i + 1).drop_last() =~= self.messages@.take(i as int));
                assert(self.messages@.take(i + 1).last() == self.messages@[i as int]);
            }
            if self.messages[i].group_id == group_id {
                idxs.push(i);
                proof {
                    assert(idxs@.map_values(|u: usize| u as int) =~= group_msg_indices(
                        self.messages@.take(i + 1),
                        group_id,
                    ));
                }
            }
            i += 1;
        }
        proof {
            assert(self.messages@.take(self.messages@.len() as int) =~= self.messages@);
            lemma_group_msg_indices(self.messages@, group_id);
        }
        let n = idxs.len();
        let k = if limit <= n {
            limit
        } else {
            n
        };
        let mut out: Vec<MessageResponse> = Vec::new();
        let mut t: usize = 0;
        while t < k
            invariant
                self.wf(),
                t <= k,
                k <= n,
                n == idxs@.len(),
                k == if limit <= n {
                    limit as int
                } else {
                    n as int
                },
                idxs@.map_values(|u: usize| u as int) == gi,
                gi == group_msg_indices(self.messages@, group_id),
                forall|a: int|
                    0 <= a < gi.len() ==> 0 <= #[trigger] gi[a] < self.messages@.len()
                        && self.messages@[gi[a]].group_id == group_id,
                out@.len() == t,
                forall|t2: int|
                    0 <= t2 < t ==> {
                        let idx = gi[gi.len() - 1 - t2];
                        &&& (#[trigger] out@[t2]).id == self.messages@[idx].id
                        &&& out@[t2].user_id == self.messages@[idx].user_id
                        &&& out@[t2].created_at == self.messages@[idx].created_at
                        &&& out@[t2].message_type@ == self.messages@[idx].message_type@
                        &&& opt_text(out@[t2].content) == opt_text(self.messages@[idx].content)
                        &&& out@[t2].user_name@ == self.user_of(
                            self.messages@[idx].user_id,
                        ).name@
                    },
            decreases k - t,
        {
            let idx = idxs[n - 1 - t];
            proof {
                assert(idxs@[n - 1 - t] as int == gi[n - 1 - t]);
            }
            let m = &self.messages[idx];
            let name = match self.find_user_name(m.user_id) {
                Some(nm) => nm,
                None => {
                    proof {
                        assert(false);
                    }
                    String::new()
                },
            };
            out.push(
                MessageResponse {
                    id: m.id,
                    content: clone_opt_text(&m.content),
                    message_type: m.message_type.clone(),
                    created_at: m.created_at,
                    user_id: m.user_id,
                    user_name: name,
                },
            );
            t += 1;
        }
        proof {
            lemma_group_msg_indices(self.messages@, group_id);
            assert forall|t1: int, t2: int|
                0 <= t1 < t2 < out@.len() implies (#[trigger] out@[t1]).created_at
                >= (#[trigger] out@[t2]).created_at && out@[t1].id > out@[t2].id by {
                let i1 = gi[gi.len() - 1 - t1];
                let i2 = gi[gi.len() - 1 - t2];
                assert(gi[gi.len() - 1 - t2] < gi[gi.len() - 1 - t1]);
                assert(self.messages@[i2].id < self.messages@[i1].id);
                assert(self.messages@[i2].created_at <= self.messages@[i1].created_at);
            }
        }
        out
    }

    /// Every group the user has joined or is waiting on, in insertion
    /// order, each with the user's membership status and the group's data.
    pub fn list_groups_for_user(&self, user_id: i32) -> (r: Vec<GroupInfo>)
        requires
            self.wf(),
        ensures
            r@.len() == member_indices(self.memberships@, user_id).len(),
            (forall|t: int|
                0 <= t < r@.len() ==> {
                    let mi = member_indices(self.memberships@, user_id);
                    0 <= mi[t] < self.memberships@.len() && {
                        let m = self.memberships@[mi[t]];
                        &&& (#[trigger] r@[t]).group_id == m.group_id
                        &&& r@[t].status == m.status
                        &&& r@[t].group_name@ == self.group_of(m.group_id).name@
                        &&& r@[t].owner_id == self.group_of(m.group_id).owner_id
                        &&& r@[t].max_member == self.group_of(m.group_id).max_member
                    }
                }),
            (forall|j: int|
                0 <= j < self.memberships@.len() && (#[trigger] self.memberships@[j]).user_id
                    == user_id ==> member_indices(self.memberships@, user_id).contains(j)),
    {
        let mut out: Vec<GroupInfo> = Vec::new();
        let mut i: usize = 0;
        while i < self.memberships.len()
            invariant
                self.wf(),
                i <= self.memberships@.len(),
                out@.len() == member_indices(self.memberships@.take(i as int), user_id).len(),
                forall|t: int|
                    0 <= t < out@.len() ==> {
                        let mi = member_indices(self.memberships@.take(i as int), user_id);
                        0 <= mi[t] < self.memberships@.len() && {
                            let m = self.memberships@[mi[t]];
                            &&& (#[trigger] out@[t]).group_id == m.group_id
                            &&& out@[t].status == m.status
                            &&& out@[t].group_name@ == self.group_of(m.group_id).name@
                            &&& out@[t].owner_id == self.group_of(m.group_id).owner_id
                            &&& out@[t].max_member == self.group_of(m.group_id).max_member
                        }
                    },
            decreases self.memberships@.len() - i,
        {
            proof {
                assert(self.memberships@.take(i + 1).drop_last() =~= self.memberships@.take(
                    i as int,
                ));
                assert(self.memberships@.take(i + 1).last() == self.memberships@[i as int]);
            }
            let m = self.memberships[i];
            if m.user_id == user_id {
                let g = match self.find_group(m.group_id) {
                    Some(g) => g,
                    None => {
                        proof {
                            assert(false);
                        }
                        Group {
                            id: 0,
                            name: String::new(),
                            owner_id: 0,
                            max_member: 1,
                            created_at: 0,
                            expired_at: 0,
                        }
                    },
                };
                out.push(
                    GroupInfo {
                        group_id: m.group_id,
                        group_name: g.name,
                        owner_id: g.owner_id,
                        max_member: g.max_member,
                        status: m.status,
                    },
                );
            }
            i += 1;
        }
        proof {
            assert(self.memberships@.take(self.memberships@.len() as int) =~= self.memberships@);
            lemma_member_indices(self.memberships@, user_id);
        }
        out
    }
}

} // verus!
