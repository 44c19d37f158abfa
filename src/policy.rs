use vstd::prelude::*;

verus! {

/// How the userlist is applied to account ids.
#[derive(PartialEq, Eq, Structural, Debug, Clone, Copy)]
pub enum UserlistMode {
    Blacklist,
    Whitelist,
    Disabled,
}

/// Whether a policy of the given mode and id list turns the account away.
pub open spec fn policy_rejects(aid: i32, mode: UserlistMode, ids: Seq<i32>) -> bool {
    match mode {
        UserlistMode::Disabled => false,
        UserlistMode::Blacklist => ids.contains(aid),
        UserlistMode::Whitelist => !ids.contains(aid),
    }
}

/// Whether `ids` holds `aid`.
pub fn list_contains(ids: &Vec<i32>, aid: i32) -> (r: bool)
    ensures
        r == ids@.contains(aid),
{
    let mut i: usize = 0;
    while i < ids.len()
        invariant
            i <= ids.len(),
            forall|j: int| 0 <= j < i ==> ids@[j] != aid,
        decreases ids.len() - i,
    {
        if ids[i] == aid {
            return true;
        }
        i = i + 1;
    }
    false
}

/// Decides whether the userlist policy rejects `aid`.
pub fn should_block(aid: i32, mode: UserlistMode, ids: &Vec<i32>) -> (r: bool)
    ensures
        r == policy_rejects(aid, mode, ids@),
{
    match mode {
        UserlistMode::Disabled => false,
        UserlistMode::Blacklist => list_contains(ids, aid),
        UserlistMode::Whitelist => !list_contains(ids, aid),
    }
}

} // verus!
