//! Who is in the cluster, and who counts towards a quorum

use vstd::prelude::*;

use crate::entry::EzLogId;

verus! {

/// The members of a cluster
///
/// A quorum is a majority of every config. There is one config but while a change is under way,
/// when the old and the new one both count. A node that is in `nodes` and in no config is a
/// learner.
#[derive(Debug)]
pub struct Membership {
    /// The voter ids of each config
    pub configs: Vec<Vec<u64>>,

    /// The id of every member, with the address of its HTTP server
    pub nodes: Vec<(u64, String)>,
}

/// A [`Membership`] as a value: its configs, and its nodes with their addresses
#[verifier::ext_equal]
pub struct MembershipView {
    pub configs: Seq<Seq<u64>>,
    pub nodes: Seq<(u64, Seq<char>)>,
}

/// The address that `nodes` holds for `id`: that of the first node of this id
pub open spec fn address_in(nodes: Seq<(u64, Seq<char>)>, id: u64) -> Option<Seq<char>>
    decreases nodes.len(),
{
    if nodes.len() == 0 {
        None
    } else if nodes[0].0 == id {
        Some(nodes[0].1)
    } else {
        address_in(nodes.drop_first(), id)
    }
}

impl MembershipView {
    /// No configs and no nodes
    pub open spec fn empty() -> MembershipView {
        MembershipView { configs: Seq::empty(), nodes: Seq::empty() }
    }

    /// Whether some config counts `id`
    pub open spec fn is_voter(self, id: u64) -> bool {
        exists|i: int| 0 <= i < self.configs.len() && (#[trigger] self.configs[i]).contains(id)
    }

    /// The address of the member `id`
    pub open spec fn address(self, id: u64) -> Option<Seq<char>> {
        address_in(self.nodes, id)
    }
}

impl View for Membership {
    type V = MembershipView;

    open spec fn view(&self) -> MembershipView {
        MembershipView {
            configs: self.configs@.map_values(|config: Vec<u64>| config@),
            nodes: self.nodes@.map_values(|node: (u64, String)| (node.0, node.1@)),
        }
    }
}

/// A copy of a list of ids
fn copy_ids(ids: &Vec<u64>) -> (copy: Vec<u64>)
    ensures
        copy@ == ids@,
{
    let mut copy: Vec<u64> = Vec::new();
    let mut i: usize = 0;
    while i < ids.len()
        invariant
            i <= ids.len(),
            copy@ == ids@.take(i as int),
        decreases ids.len() - i,
    {
        copy.push(ids[i]);
        i = i + 1;
        assert(ids@.take(i as int) =~= ids@.take(i - 1).push(ids@[i - 1]));
    }
    assert(ids@.take(i as int) =~= ids@);
    copy
}

impl Clone for Membership {
    fn clone(&self) -> (copy: Membership)
        ensures
            copy@ == self@,
    {
        let mut configs: Vec<Vec<u64>> = Vec::new();
        let mut i: usize = 0;
        while i < self.configs.len()
            invariant
                i <= self.configs.len(),
                configs.len() == i,
                forall|j: int| 0 <= j < i ==> #[trigger] configs@[j]@ == self.configs@[j]@,
            decreases self.configs.len() - i,
        {
            configs.push(copy_ids(&self.configs[i]));
            i = i + 1;
        }
        let mut nodes: Vec<(u64, String)> = Vec::new();
        let mut k: usize = 0;
        while k < self.nodes.len()
            invariant
                k <= self.nodes.len(),
                nodes.len() == k,
                forall|j: int|
                    0 <= j < k ==> (#[trigger] nodes@[j]).0 == self.nodes@[j].0 && nodes@[j].1@
                        == self.nodes@[j].1@,
            decreases self.nodes.len() - k,
        {
            nodes.push((self.nodes[k].0, self.nodes[k].1.clone()));
            k = k + 1;
        }
        let copy = Membership { configs, nodes };
        assert(copy@.configs =~= self@.configs);
        assert(copy@.nodes =~= self@.nodes);
        copy
    }
}

impl Default for Membership {
    /// A membership that nobody is in
    fn default() -> (membership: Membership)
        ensures
            membership@ == MembershipView::empty(),
    {
        let membership = Membership { configs: Vec::new(), nodes: Vec::new() };
        assert(membership@.configs =~= Seq::empty());
        assert(membership@.nodes =~= Seq::empty());
        membership
    }
}

impl Membership {
    /// Whether the node `id` is counted in a quorum
    pub fn is_voter(&self, id: u64) -> (voter: bool)
        ensures
            voter == self@.is_voter(id),
    {
        let mut i: usize = 0;
        while i < self.configs.len()
            invariant
                i <= self.configs.len(),
                forall|k: int| 0 <= k < i ==> !(#[trigger] self@.configs[k]).contains(id),
            decreases self.configs.len() - i,
        {
            let config = &self.configs[i];
            assert(self@.configs[i as int] == config@);
            let mut j: usize = 0;
            while j < config.len()
                invariant
                    i < self.configs.len(),
                    config@ == self@.configs[i as int],
                    j <= config.len(),
                    forall|k: int| 0 <= k < j ==> config@[k] != id,
                decreases config.len() - j,
            {
                if config[j] == id {
                    assert(self@.configs[i as int].contains(id));
                    return true;
                }
                j = j + 1;
            }
            i = i + 1;
        }
        false
    }

    /// The address of the member `id`, voter or learner
    pub fn get_node(&self, id: u64) -> (addr: Option<String>)
        ensures
            match addr {
                Some(addr) => self@.address(id) == Some(addr@),
                None => self@.address(id) is None,
            },
    {
        let ghost nodes = self@.nodes;
        let mut i: usize = 0;
        assert(nodes.skip(0) =~= nodes);
        while i < self.nodes.len()
            invariant
                i <= self.nodes.len(),
                nodes == self@.nodes,
                address_in(nodes, id) == address_in(nodes.skip(i as int), id),
            decreases self.nodes.len() - i,
        {
            assert(nodes[i as int] == (self.nodes@[i as int].0, self.nodes@[i as int].1@));
            if self.nodes[i].0 == id {
                return Some(self.nodes[i].1.clone());
            }
            assert(nodes.skip(i as int).drop_first() =~= nodes.skip(i + 1));
            i = i + 1;
        }
        None
    }
}

/// A membership, and the log entry that brought it
#[derive(Debug)]
pub struct StoredMembership {
    /// The entry that set the membership; nothing for the one a node starts with
    pub log_id: Option<EzLogId>,

    pub membership: Membership,
}

/// A [`StoredMembership`] as a value
#[verifier::ext_equal]
pub struct StoredMembershipView {
    pub log_id: Option<EzLogId>,
    pub membership: MembershipView,
}

impl StoredMembershipView {
    /// The membership of a node that has heard of none
    pub open spec fn empty() -> StoredMembershipView {
        StoredMembershipView { log_id: None, membership: MembershipView::empty() }
    }
}

impl View for StoredMembership {
    type V = StoredMembershipView;

    open spec fn view(&self) -> StoredMembershipView {
        StoredMembershipView { log_id: self.log_id, membership: self.membership@ }
    }
}

impl Clone for StoredMembership {
    fn clone(&self) -> (copy: StoredMembership)
        ensures
            copy@ == self@,
    {
        StoredMembership { log_id: self.log_id, membership: self.membership.clone() }
    }
}

impl Default for StoredMembership {
    /// A membership that nobody is in and no entry brought
    fn default() -> (stored: StoredMembership)
        ensures
            stored@ == StoredMembershipView::empty(),
    {
        StoredMembership { log_id: None, membership: Membership::default() }
    }
}

/// A membership is all of its configs and all of its nodes, as they are.
pub proof fn law_membership_is_seen_whole(membership: Membership, i: int, j: int)
    ensures
        membership@.configs.len() == membership.configs@.len(),
        membership@.nodes.len() == membership.nodes@.len(),
        0 <= i < membership.configs@.len() ==> membership@.configs[i] == membership.configs@[i]@,
        0 <= j < membership.nodes@.len() ==> membership@.nodes[j].0 == membership.nodes@[j].0
            && membership@.nodes[j].1 == membership.nodes@[j].1@,
{
}

/// A membership that is stored is seen with the entry that brought it.
pub proof fn law_stored_membership_is_seen_whole(stored: StoredMembership)
    ensures
        stored@.log_id == stored.log_id,
        stored@.membership == stored.membership@,
{
}

/// Nobody is in the membership that a node starts with, and no entry brought it.
pub proof fn law_nobody_is_in_an_empty_membership(id: u64)
    ensures
        !MembershipView::empty().is_voter(id),
        MembershipView::empty().address(id) is None,
        MembershipView::empty().configs.len() == 0,
        MembershipView::empty().nodes.len() == 0,
        StoredMembershipView::empty().log_id is None,
        StoredMembershipView::empty().membership == MembershipView::empty(),
{
}

/// A node votes if and only if it stands somewhere in one of the configs.
pub proof fn law_voters_stand_in_a_config(members: MembershipView, id: u64)
    ensures
        members.is_voter(id) <==> exists|i: int, j: int|
            0 <= i < members.configs.len() && 0 <= j < members.configs[i].len()
                && #[trigger] members.configs[i][j] == id,
{
    if members.is_voter(id) {
        let i = choose|i: int|
            0 <= i < members.configs.len() && (#[trigger] members.configs[i]).contains(id);
        let j = members.configs[i].index_of(id);
        assert(members.configs[i][j] == id);
    }
    if exists|i: int, j: int|
        0 <= i < members.configs.len() && 0 <= j < members.configs[i].len()
            && #[trigger] members.configs[i][j] == id {
        let (i, j) = choose|i: int, j: int|
            0 <= i < members.configs.len() && 0 <= j < members.configs[i].len()
                && #[trigger] members.configs[i][j] == id;
        assert(members.configs[i].contains(id));
    }
}

/// The address of a member is the one that it is listed with, first, and a node that is not listed
/// has none.
pub proof fn law_address_is_the_one_listed(members: MembershipView, id: u64)
    ensures
        match members.address(id) {
            Some(addr) => exists|i: int|
                0 <= i < members.nodes.len() && #[trigger] members.nodes[i] == (id, addr)
                    && forall|j: int| 0 <= j < i ==> (#[trigger] members.nodes[j]).0 != id,
            None => forall|j: int|
                0 <= j < members.nodes.len() ==> (#[trigger] members.nodes[j]).0 != id,
        },
{
    lemma_address_in(members.nodes, id);
}

proof fn lemma_address_in(nodes: Seq<(u64, Seq<char>)>, id: u64)
    ensures
        match address_in(nodes, id) {
            Some(addr) => exists|i: int|
                0 <= i < nodes.len() && #[trigger] nodes[i] == (id, addr) && forall|j: int|
                    0 <= j < i ==> (#[trigger] nodes[j]).0 != id,
            None => forall|j: int| 0 <= j < nodes.len() ==> (#[trigger] nodes[j]).0 != id,
        },
    decreases nodes.len(),
{
    if nodes.len() > 0 {
        if nodes[0].0 == id {
            assert(nodes[0] == (id, nodes[0].1));
        } else {
            let rest = nodes.drop_first();
            lemma_address_in(rest, id);
            match address_in(nodes, id) {
                Some(addr) => {
                    let i = choose|i: int|
                        0 <= i < rest.len() && #[trigger] rest[i] == (id, addr) && forall|j: int|
                            0 <= j < i ==> (#[trigger] rest[j]).0 != id;
                    assert(nodes[i + 1] == (id, addr));
                    assert forall|j: int| 0 <= j < i + 1 implies (#[trigger] nodes[j]).0 != id by {
                        if j > 0 {
                            assert(rest[j - 1] == nodes[j]);
                        }
                    }
                },
                None => {
                    assert forall|j: int| 0 <= j < nodes.len() implies (#[trigger] nodes[j]).0
                        != id by {
                        if j > 0 {
                            assert(rest[j - 1] == nodes[j]);
                        }
                    }
                },
            }
        }
    }
}

} // verus!
