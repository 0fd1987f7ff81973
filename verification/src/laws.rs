use vstd::prelude::*;
use crate::errors::ApiError;
use crate::respond::ResponseParts;
use crate::store::{Store, Group, Membership, joined_count, has_pair, is_joined_member};

verus! {

/// Capacity law: in a well-formed store — and the operations only ever
/// produce well-formed stores — no group has more seated members than its
/// capacity, whatever sequence of joins led there. `join_group`'s own
/// contract adds that a joiner who finds the capacity reached is put on the
/// waiting list, not seated.
pub proof fn lemma_capacity_never_exceeded(s: Store, g: Group)
    requires
        s.wf(),
        s.groups@.contains(g),
    ensures
        joined_count(s.memberships@, g.id) <= g.max_member,
{
    let k = choose|k: int| 0 <= k < s.groups@.len() && s.groups@[k] == g;
    assert(joined_count(s.memberships@, s.groups@[k].id) <= s.groups@[k].max_member);
}

/// Rejoin law: after any successful join, of either resulting status, the
/// (user, group) pair is on record, and `join_group`'s contract therefore
/// answers the same pair's next attempt with `AlreadyJoined`.
pub proof fn lemma_second_join_rejected(before: Seq<Membership>, m: Membership)
    ensures
        has_pair(before.push(m), m.user_id, m.group_id),
{
    assert(before.push(m)[before.len() as int] == m);
}

/// Reregistration law: after any successful registration the chosen name is
/// taken — the new store's last user row carries it — and `register_user`'s
/// contract therefore answers the name's next use with `ExistedResource`,
/// never with a bare `DatabaseError`.
pub proof fn lemma_second_registration_rejected(s: Store, name: Seq<char>)
    requires
        s.users@.len() > 0,
        s.users@.last().name@ == name,
    ensures
        s.has_user_name(name),
{
    assert(s.users@[s.users@.len() - 1].name@ == name);
}

/// The reregistration law checked end to end: registering a fresh name and
/// then registering it again — `again` carries the same characters — always
/// yields `ExistedResource`, never a bare `DatabaseError`, and the boundary
/// maps it to `BadRequest` with the name shown verbatim. The only premise
/// beyond the law's own is the id headroom two registrations need.
pub fn duplicate_registration_is_existed_resource(
    s: &mut Store,
    name: String,
    again: String,
) -> (r: ResponseParts)
    requires
        old(s).wf(),
        old(s).next_user_id < i32::MAX - 1,
        !old(s).has_user_name(name@),
        again@ == name@,
    ensures
        final(s).wf(),
        r.status is BadRequest,
        r.message@ == name@,
{
    let ghost n = name@;
    let first = s.register_user(name);
    proof {
        assert(first is Ok);
        lemma_second_registration_rejected(*s, n);
    }
    let e = match s.register_user(again) {
        Ok(_) => {
            proof {
                assert(false);
            }
            ApiError::Unknown
        },
        Err(e) => e,
    };
    e.into_response()
}

/// The no-partial-write law checked end to end: a sender who holds no seat
/// in the group is told `Forbidden`, the store is untouched — no message row
/// comes to exist — and the boundary maps the error to the `Forbidden`
/// status class with its fixed message shown verbatim. The only premise
/// beyond the law's own is the id headroom any send needs.
pub fn forbidden_send_writes_nothing(
    s: &mut Store,
    user_id: i32,
    group_id: i32,
    content: Option<String>,
    message_type: String,
    now: i64,
) -> (r: ResponseParts)
    requires
        old(s).wf(),
        old(s).next_message_id < i32::MAX,
        !is_joined_member(old(s).memberships@, user_id, group_id),
    ensures
        *final(s) == *old(s),
        r.status is Forbidden,
        r.message@ == "The current user doesn't have permission to access the resource"@,
{
    let e = match s.send_message(user_id, group_id, content, message_type, now) {
        Ok(_) => {
            proof {
                assert(false);
            }
            ApiError::Unknown
        },
        Err(e) => e,
    };
    e.into_response()
}

} // verus!
