use vstd::prelude::*;
use crate::address::Address;
use crate::error::Error;

verus! {

/// No account occurs twice.
pub open spec fn distinct(list: Seq<Address>) -> bool {
    forall|i: int, j: int| 0 <= i < list.len() && 0 <= j < list.len() && i != j ==> list[i] != list[j]
}

/// The assignment index of `account` in `list`, if it is a member.
pub open spec fn index_in(list: Seq<Address>, account: Address) -> Option<u32> {
    if list.contains(account) {
        Some(list.index_of(account) as u32)
    } else {
        None
    }
}

/// The list after `account` has been granted membership: a member stays
/// where it is, a new one goes to the end.
pub open spec fn granted(list: Seq<Address>, account: Address) -> Result<Seq<Address>, Error> {
    if list.contains(account) {
        Ok(list)
    } else if list.len() >= u32::MAX {
        Err(Error::Overflow)
    } else {
        Ok(list.push(account))
    }
}

/// The list after the membership of `account` has been revoked: the last
/// member takes the freed place.
pub open spec fn revoked(list: Seq<Address>, account: Address) -> Result<Seq<Address>, Error> {
    if !list.contains(account) {
        Err(Error::RoleNotHeld)
    } else {
        Ok(list.update(list.index_of(account), list.last()).drop_last())
    }
}

/// Grants in the order of `accounts`; the first failure is the result.
pub open spec fn granted_all(list: Seq<Address>, accounts: Seq<Address>) -> Result<
    Seq<Address>,
    Error,
>
    decreases accounts.len(),
{
    if accounts.len() == 0 {
        Ok(list)
    } else {
        match granted(list, accounts.first()) {
            Ok(next) => granted_all(next, accounts.drop_first()),
            Err(e) => Err(e),
        }
    }
}

/// Revocations in the order of `accounts`; the first failure is the result.
pub open spec fn revoked_all(list: Seq<Address>, accounts: Seq<Address>) -> Result<
    Seq<Address>,
    Error,
>
    decreases accounts.len(),
{
    if accounts.len() == 0 {
        Ok(list)
    } else {
        match revoked(list, accounts.first()) {
            Ok(next) => revoked_all(next, accounts.drop_first()),
            Err(e) => Err(e),
        }
    }
}

/// In a list without repetition the place of a member is the only place
/// where it stands.
pub proof fn lemma_index_unique(list: Seq<Address>, account: Address, i: int)
    requires
        distinct(list),
        0 <= i < list.len(),
        list[i] == account,
    ensures
        list.contains(account),
        list.index_of(account) == i,
{
    assert(list.contains(account));
    let c = list.index_of(account);
    assert(0 <= c < list.len() && list[c] == account);
}

/// Granting keeps a list free of repetition and makes the account a member.
pub proof fn lemma_granted(list: Seq<Address>, account: Address)
    requires
        distinct(list),
    ensures
        granted(list, account) matches Ok(next) ==> distinct(next) && next.contains(account)
            && forall|a: Address| list.contains(a) ==> next.contains(a) && index_in(next, a) == index_in(list, a),
{
    if let Ok(next) = granted(list, account) {
        if !list.contains(account) {
            assert(next[list.len() as int] == account);
            assert forall|a: Address| list.contains(a) implies next.contains(a) && index_in(next, a)
                == index_in(list, a) by {
                let i = list.index_of(a);
                assert(next[i] == a);
                lemma_index_unique(next, a, i);
            }
        }
    }
}

/// Revoking keeps a list free of repetition and ends the membership of the
/// account; every other member stays a member.
pub proof fn lemma_revoked(list: Seq<Address>, account: Address)
    requires
        distinct(list),
    ensures
        revoked(list, account) matches Ok(next) ==> distinct(next) && !next.contains(account)
            && next.len() == list.len() - 1 && forall|a: Address|
            a != account ==> next.contains(a) == list.contains(a),
{
    if let Ok(next) = revoked(list, account) {
        let i = list.index_of(account);
        let last = list.len() - 1;
        assert(0 <= i < list.len() && list[i] == account);
        assert forall|x: int| 0 <= x < next.len() implies next[x] == (if x == i {
            list[last]
        } else {
            list[x]
        }) by {}
        assert forall|x: int, y: int|
            0 <= x < next.len() && 0 <= y < next.len() && x != y implies next[x] != next[y] by {}
        if next.contains(account) {
            let x = choose|x: int| 0 <= x < next.len() && next[x] == account;
            assert(false);
        }
        assert forall|a: Address| a != account implies next.contains(a) == list.contains(a) by {
            if next.contains(a) {
                let x = choose|x: int| 0 <= x < next.len() && next[x] == a;
                assert(list[if x == i { last } else { x }] == a);
            }
            if list.contains(a) {
                let x = choose|x: int| 0 <= x < list.len() && list[x] == a;
                if x == last {
                    assert(next[i] == a);
                } else {
                    assert(next[x] == a);
                }
            }
        }
    }
}

/// The accounts that hold one role, in the order of their assignment
/// indices.
pub struct MemberList {
    accounts: Vec<Address>,
}

impl View for MemberList {
    type V = Seq<Address>;

    closed spec fn view(&self) -> Seq<Address> {
        self.accounts@
    }
}

impl MemberList {
    /// No account is listed twice, and every index fits in 32 bits.
    pub open spec fn wf(&self) -> bool {
        distinct(self@) && self@.len() <= u32::MAX
    }

    pub fn new() -> (l: MemberList)
        ensures
            l.wf(),
            l@ == Seq::<Address>::empty(),
    {
        MemberList { accounts: Vec::new() }
    }

    /// The assignment index of `account`, if it is a member.
    pub fn index_of(&self, account: &Address) -> (r: Option<u32>)
        requires
            self.wf(),
        ensures
            r == index_in(self@, *account),
    {
        let mut i: usize = 0;
        while i < self.accounts.len()
            invariant
                i <= self.accounts@.len(),
                self.wf(),
                forall|j: int| 0 <= j < i ==> self.accounts@[j] != *account,
            decreases self.accounts@.len() - i,
        {
            if self.accounts[i] == *account {
                proof {
                    lemma_index_unique(self@, *account, i as int);
                }
                return Some(i as u32);
            }
            i += 1;
        }
        None
    }

    pub fn len(&self) -> (n: usize)
        ensures
            n == self@.len(),
    {
        self.accounts.len()
    }

    /// Makes `account` a member, at the end of the list, unless it is one.
    pub fn grant(&mut self, account: Address) -> (r: Result<(), Error>)
        requires
            old(self).wf(),
        ensures
            final(self).wf(),
            match granted(old(self)@, account) {
                Ok(next) => r == Ok::<(), Error>(()) && final(self)@ == next,
                Err(e) => r == Err::<(), Error>(e) && final(self)@ == old(self)@,
            },
    {
        proof {
            lemma_granted(self@, account);
        }
        if self.index_of(&account).is_some() {
            return Ok(());
        }
        if self.accounts.len() >= u32::MAX as usize {
            return Err(Error::Overflow);
        }
        self.accounts.push(account);
        Ok(())
    }

    /// Ends the membership of `account`; the last member takes its index.
    pub fn revoke(&mut self, account: Address) -> (r: Result<(), Error>)
        requires
            old(self).wf(),
        ensures
            final(self).wf(),
            match revoked(old(self)@, account) {
                Ok(next) => r == Ok::<(), Error>(()) && final(self)@ == next,
                Err(e) => r == Err::<(), Error>(e) && final(self)@ == old(self)@,
            },
    {
        proof {
            lemma_revoked(self@, account);
        }
        match self.index_of(&account) {
            None => Err(Error::RoleNotHeld),
            Some(i) => {
                let ghost before = self.accounts@;
                self.accounts.swap_remove(i as usize);
                assert(self.accounts@ =~= before.update(before.index_of(account), before.last()).drop_last());
                Ok(())
            },
        }
    }

    /// An independent list with the same members in the same order.
    pub fn fork(&self) -> (l: MemberList)
        ensures
            l@ == self@,
    {
        let mut accounts: Vec<Address> = Vec::new();
        let mut i: usize = 0;
        while i < self.accounts.len()
            invariant
                i <= self.accounts@.len(),
                accounts@ == self.accounts@.take(i as int),
            decreases self.accounts@.len() - i,
        {
            accounts.push(self.accounts[i]);
            assert(self.accounts@.take(i + 1) =~= self.accounts@.take(i as int).push(self.accounts@[i as int]));
            i += 1;
        }
        assert(self.accounts@.take(i as int) =~= self.accounts@);
        MemberList { accounts }
    }
    /// The list with the given members at the given indices, if none occurs
    /// twice and every index fits in 32 bits.
    pub fn from_list(accounts: Vec<Address>) -> (r: Option<MemberList>)
        ensures
            match r {
                Some(l) => l.wf() && l@ == accounts@,
                None => !(distinct(accounts@) && accounts@.len() <= u32::MAX),
            },
    {
        if accounts.len() > u32::MAX as usize {
            return None;
        }
        let mut i: usize = 0;
        while i < accounts.len()
            invariant
                i <= accounts@.len(),
                forall|x: int, y: int| 0 <= x < y < i ==> accounts@[x] != accounts@[y],
            decreases accounts@.len() - i,
        {
            let mut j: usize = 0;
            while j < i
                invariant
                    j <= i,
                    i < accounts@.len(),
                    forall|x: int| 0 <= x < j ==> accounts@[x] != accounts@[i as int],
                decreases i - j,
            {
                if accounts[j] == accounts[i] {
                    return None;
                }
                j += 1;
            }
            i += 1;
        }
        assert(distinct(accounts@)) by {
            assert forall|x: int, y: int|
                0 <= x < accounts@.len() && 0 <= y < accounts@.len() && x != y implies accounts@[x]
                != accounts@[y] by {
                if x < y {
                    assert(accounts@[x] != accounts@[y]);
                } else {
                    assert(accounts@[y] != accounts@[x]);
                }
            }
        }
        Some(MemberList { accounts })
    }

    /// The members in the order of their indices.
    pub fn to_list(&self) -> (accounts: Vec<Address>)
        ensures
            accounts@ == self@,
    {
        self.fork().accounts
    }
}

} // verus!
