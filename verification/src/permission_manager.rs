use vstd::prelude::*;
use crate::address::Address;
use crate::authorization::Authorization;
use crate::error::Error;
use crate::members::distinct;
use crate::members::granted;
use crate::members::granted_all;
use crate::members::index_in;
use crate::members::revoked;
use crate::members::revoked_all;
use crate::members::MemberList;
use crate::role::Role;
use crate::role::ROLE_COUNT;

verus! {

/// What the role registry holds: its own address, the admin, the admin role
/// of each role, and the members of each role in the order of their
/// assignment indices. The two sequences have one place per role, at
/// `Role::slot`.
pub struct RegistryModel {
    pub address: Address,
    pub admin: Address,
    pub role_admin: Seq<Option<Role>>,
    pub members: Seq<Seq<Address>>,
}

impl RegistryModel {
    /// The registry right after its construction: no members, and the
    /// Whitelister role administers the Whitelisted role.
    pub open spec fn initial(address: Address, admin: Address) -> RegistryModel {
        RegistryModel {
            address,
            admin,
            role_admin: Seq::new(
                ROLE_COUNT as nat,
                |i: int|
                    if i == Role::Whitelisted.slot() {
                        Some(Role::Whitelister)
                    } else {
                        None
                    },
            ),
            members: Seq::new(ROLE_COUNT as nat, |i: int| Seq::<Address>::empty()),
        }
    }

    /// There is one place per role, no role lists an account twice, and
    /// every assignment index fits in 32 bits.
    pub open spec fn well_formed(self) -> bool {
        &&& self.role_admin.len() == ROLE_COUNT
        &&& self.members.len() == ROLE_COUNT
        &&& forall|i: int|
            0 <= i < ROLE_COUNT ==> distinct(#[trigger] self.members[i]) && self.members[i].len()
                <= u32::MAX
    }

    /// The holders of `role`, in the order of their assignment indices.
    pub open spec fn members_of(self, role: Role) -> Seq<Address> {
        self.members[role.slot()]
    }

    /// The role whose holders may grant and revoke `role`, if one is
    /// configured.
    pub open spec fn admin_of(self, role: Role) -> Option<Role> {
        self.role_admin[role.slot()]
    }

    /// The assignment index of `account` under `role`; `None` when the
    /// account does not hold the role.
    pub open spec fn has_role(self, account: Address, role: Role) -> Option<u32> {
        index_in(self.members_of(role), account)
    }

    /// Whether `account` holds `role`.
    pub open spec fn holds(self, account: Address, role: Role) -> bool {
        self.members_of(role).contains(account)
    }

    /// Who may grant and revoke `role`: the admin, and the holders of the
    /// role's admin role where one is configured.
    pub open spec fn may_administer(self, caller: Address, role: Role) -> bool {
        caller == self.admin || match self.admin_of(role) {
            Some(admin_role) => self.holds(caller, admin_role),
            None => false,
        }
    }

    /// Why a caller is refused the administration of `role`, if it is.
    pub open spec fn refusal(self, signers: Seq<Address>, caller: Address, role: Role) -> Option<
        Error,
    > {
        if !signers.contains(caller) {
            Some(Error::SignatureMissing)
        } else if self.may_administer(caller, role) {
            None
        } else if self.admin_of(role) is Some {
            Some(Error::RoleMissing)
        } else {
            Some(Error::NotPrincipal)
        }
    }

    /// The registry with `list` as the holders of `role`.
    pub open spec fn with_members(self, role: Role, list: Seq<Address>) -> RegistryModel {
        RegistryModel { members: self.members.update(role.slot(), list), ..self }
    }

    /// The outcome of a grant: the caller is screened, and then the account
    /// joins the holders unless it is one.
    pub open spec fn grant_role(
        self,
        signers: Seq<Address>,
        caller: Address,
        account: Address,
        role: Role,
    ) -> Result<RegistryModel, Error> {
        match self.refusal(signers, caller, role) {
            Some(e) => Err(e),
            None => match granted(self.members_of(role), account) {
                Ok(list) => Ok(self.with_members(role, list)),
                Err(e) => Err(e),
            },
        }
    }

    /// The outcome of a revocation: the caller is screened, and then the
    /// account, which must hold the role, leaves the holders.
    pub open spec fn revoke_role(
        self,
        signers: Seq<Address>,
        caller: Address,
        account: Address,
        role: Role,
    ) -> Result<RegistryModel, Error> {
        match self.refusal(signers, caller, role) {
            Some(e) => Err(e),
            None => match revoked(self.members_of(role), account) {
                Ok(list) => Ok(self.with_members(role, list)),
                Err(e) => Err(e),
            },
        }
    }

    /// The outcome of a renunciation: the Whitelisted role is protected;
    /// for any other role the caller must have authorized the call and hold
    /// the role, which it then loses.
    pub open spec fn renounce_role(
        self,
        signers: Seq<Address>,
        caller: Address,
        role: Role,
    ) -> Result<RegistryModel, Error> {
        if role == Role::Whitelisted {
            Err(Error::ProtectedRole)
        } else if !signers.contains(caller) {
            Err(Error::SignatureMissing)
        } else {
            match revoked(self.members_of(role), caller) {
                Ok(list) => Ok(self.with_members(role, list)),
                Err(e) => Err(e),
            }
        }
    }

    /// The outcome of naming `admin_role` as the admin role of `role`: the
    /// admin must have authorized the call.
    pub open spec fn set_role_admin(
        self,
        signers: Seq<Address>,
        role: Role,
        admin_role: Role,
    ) -> Result<RegistryModel, Error> {
        if !signers.contains(self.admin) {
            Err(Error::SignatureMissing)
        } else {
            Ok(
                RegistryModel {
                    role_admin: self.role_admin.update(role.slot(), Some(admin_role)),
                    ..self
                },
            )
        }
    }

    /// The outcome of a batch of grants: the caller is screened once, and
    /// then the accounts are granted the role in order, all or none.
    pub open spec fn grant_role_batch(
        self,
        signers: Seq<Address>,
        caller: Address,
        accounts: Seq<Address>,
        role: Role,
    ) -> Result<RegistryModel, Error> {
        match self.refusal(signers, caller, role) {
            Some(e) => Err(e),
            None => match granted_all(self.members_of(role), accounts) {
                Ok(list) => Ok(self.with_members(role, list)),
                Err(e) => Err(e),
            },
        }
    }

    /// The outcome of a batch of revocations: the caller is screened once,
    /// and then the role is revoked from the accounts in order, from all or
    /// from none.
    pub open spec fn revoke_role_batch(
        self,
        signers: Seq<Address>,
        caller: Address,
        accounts: Seq<Address>,
        role: Role,
    ) -> Result<RegistryModel, Error> {
        match self.refusal(signers, caller, role) {
            Some(e) => Err(e),
            None => match revoked_all(self.members_of(role), accounts) {
                Ok(list) => Ok(self.with_members(role, list)),
                Err(e) => Err(e),
            },
        }
    }
}

/// What is kept of a registry between calls: the model's fields as plain
/// lists, one place per role.
pub struct RegistrySnapshot {
    pub address: Address,
    pub admin: Address,
    pub role_admin: Vec<Option<Role>>,
    pub members: Vec<Vec<Address>>,
}

impl RegistrySnapshot {
    /// The registry that the snapshot describes.
    pub open spec fn model(&self) -> RegistryModel {
        RegistryModel {
            address: self.address,
            admin: self.admin,
            role_admin: self.role_admin@,
            members: Seq::new(self.members@.len(), |i: int| self.members@[i]@),
        }
    }
}

/// The role registry: which account holds which role, and who may change
/// that.
pub struct PermissionManager {
    address: Address,
    admin: Address,
    role_admin: Vec<Option<Role>>,
    members: Vec<MemberList>,
}

/// A copy of a list of accounts.
fn fork_list(list: &Vec<Address>) -> (copy: Vec<Address>)
    ensures
        copy@ == list@,
{
    let mut copy: Vec<Address> = Vec::new();
    let mut i: usize = 0;
    while i < list.len()
        invariant
            i <= list@.len(),
            copy@ == list@.take(i as int),
        decreases list@.len() - i,
    {
        copy.push(list[i]);
        assert(list@.take(i + 1) =~= list@.take(i as int).push(list@[i as int]));
        i += 1;
    }
    assert(list@.take(i as int) =~= list@);
    copy
}

impl View for PermissionManager {
    type V = RegistryModel;

    closed spec fn view(&self) -> RegistryModel {
        RegistryModel {
            address: self.address,
            admin: self.admin,
            role_admin: self.role_admin@,
            members: Seq::new(self.members@.len(), |i: int| self.members@[i]@),
        }
    }
}

impl PermissionManager {
    /// The representation invariant; it implies that the model is well
    /// formed.
    pub closed spec fn wf(&self) -> bool {
        &&& self.role_admin@.len() == ROLE_COUNT
        &&& self.members@.len() == ROLE_COUNT
        &&& forall|i: int| 0 <= i < ROLE_COUNT ==> (#[trigger] self.members@[i]).wf()
    }

    /// A registry that meets its representation invariant has a well-formed
    /// model.
    pub proof fn lemma_wf(&self)
        requires
            self.wf(),
        ensures
            self@.well_formed(),
    {
        assert forall|i: int| 0 <= i < ROLE_COUNT implies distinct(#[trigger] self@.members[i])
            && self@.members[i].len() <= u32::MAX by {
            assert(self.members@[i].wf());
        }
    }

    /// A registry at `address` under `admin`, in which the Whitelister role
    /// administers the Whitelisted role.
    pub fn new(address: Address, admin: Address) -> (m: PermissionManager)
        ensures
            m.wf(),
            m@ == RegistryModel::initial(address, admin),
    {
        let mut role_admin: Vec<Option<Role>> = Vec::new();
        let mut members: Vec<MemberList> = Vec::new();
        let mut i: usize = 0;
        while i < ROLE_COUNT
            invariant
                i <= ROLE_COUNT,
                role_admin@.len() == i,
                members@.len() == i,
                forall|j: int|
                    0 <= j < i ==> (#[trigger] members@[j]).wf() && members@[j]@
                        == Seq::<Address>::empty(),
                forall|j: int|
                    0 <= j < i ==> #[trigger] role_admin@[j] == (if j == Role::Whitelisted.slot() {
                        Some(Role::Whitelister)
                    } else {
                        None
                    }),
            decreases ROLE_COUNT - i,
        {
            if i == Role::Whitelisted.index() {
                role_admin.push(Some(Role::Whitelister));
            } else {
                role_admin.push(None);
            }
            members.push(MemberList::new());
            i += 1;
        }
        let m = PermissionManager { address, admin, role_admin, members };
        assert(m@.role_admin =~= RegistryModel::initial(address, admin).role_admin);
        assert(m@.members =~= RegistryModel::initial(address, admin).members);
        m
    }

    /// The registry that a snapshot describes, if the snapshot is well
    /// formed.
    pub fn restore(snapshot: RegistrySnapshot) -> (r: Option<PermissionManager>)
        ensures
            match r {
                Some(m) => m.wf() && m@ == snapshot.model(),
                None => !snapshot.model().well_formed(),
            },
    {
        if snapshot.role_admin.len() != ROLE_COUNT || snapshot.members.len() != ROLE_COUNT {
            return None;
        }
        let mut members: Vec<MemberList> = Vec::new();
        let mut i: usize = 0;
        while i < ROLE_COUNT
            invariant
                i <= ROLE_COUNT,
                snapshot.members@.len() == ROLE_COUNT,
                members@.len() == i,
                forall|j: int|
                    0 <= j < i ==> (#[trigger] members@[j]).wf() && members@[j]@
                        == snapshot.members@[j]@,
            decreases ROLE_COUNT - i,
        {
            let list = fork_list(&snapshot.members[i]);
            match MemberList::from_list(list) {
                Some(l) => {
                    members.push(l);
                },
                None => {
                    assert(!(distinct(snapshot.model().members[i as int])
                        && snapshot.model().members[i as int].len() <= u32::MAX));
                    return None;
                },
            }
            i += 1;
        }
        let ghost model = snapshot.model();
        let m = PermissionManager {
            address: snapshot.address,
            admin: snapshot.admin,
            role_admin: snapshot.role_admin,
            members,
        };
        assert(m@.members =~= model.members);
        Some(m)
    }

    /// What is to be kept of the registry between calls.
    pub fn snapshot(&self) -> (s: RegistrySnapshot)
        requires
            self.wf(),
        ensures
            s.model() == self@,
    {
        let mut role_admin: Vec<Option<Role>> = Vec::new();
        let mut members: Vec<Vec<Address>> = Vec::new();
        let mut i: usize = 0;
        while i < ROLE_COUNT
            invariant
                i <= ROLE_COUNT,
                self.wf(),
                role_admin@ == self.role_admin@.take(i as int),
                members@.len() == i,
                forall|j: int| 0 <= j < i ==> (#[trigger] members@[j])@ == self.members@[j]@,
            decreases ROLE_COUNT - i,
        {
            role_admin.push(self.role_admin[i]);
            members.push(self.members[i].to_list());
            assert(self.role_admin@.take(i + 1) =~= self.role_admin@.take(i as int).push(
                self.role_admin@[i as int],
            ));
            i += 1;
        }
        assert(self.role_admin@.take(i as int) =~= self.role_admin@);
        let s = RegistrySnapshot { address: self.address, admin: self.admin, role_admin, members };
        assert(s.model().members =~= self@.members);
        s
    }

    pub fn address(&self) -> (a: Address)
        ensures
            a == self@.address,
    {
        self.address
    }

    pub fn get_admin(&self) -> (a: Option<Address>)
        ensures
            a == Some(self@.admin),
    {
        Some(self.admin)
    }

    /// The admin role of `role`, if one is configured.
    pub fn get_role_admin(&self, role: Role) -> (r: Option<Role>)
        requires
            self.wf(),
        ensures
            r == self@.admin_of(role),
    {
        self.role_admin[role.index()]
    }

    /// The number of holders of `role`.
    pub fn get_role_member_count(&self, role: Role) -> (n: u32)
        requires
            self.wf(),
        ensures
            n == self@.members_of(role).len(),
    {
        let list = &self.members[role.index()];
        assert(list.wf());
        list.len() as u32
    }

    /// The assignment index of `account` under `role`, if it holds the role.
    pub fn has_role(&self, account: &Address, role: Role) -> (r: Option<u32>)
        requires
            self.wf(),
        ensures
            r == self@.has_role(*account, role),
            r.is_some() == self@.holds(*account, role),
    {
        let list = &self.members[role.index()];
        assert(list.wf());
        list.index_of(account)
    }

    fn screen(&self, auth: &Authorization, caller: &Address, role: Role) -> (r: Option<Error>)
        requires
            self.wf(),
        ensures
            r == self@.refusal(auth.signers@, *caller, role),
    {
        if !auth.authorizes(caller) {
            return Some(Error::SignatureMissing);
        }
        if *caller == self.admin {
            return None;
        }
        match self.role_admin[role.index()] {
            Some(admin_role) => {
                if self.has_role(caller, admin_role).is_some() {
                    None
                } else {
                    Some(Error::RoleMissing)
                }
            },
            None => Some(Error::NotPrincipal),
        }
    }

    /// Makes `account` a holder of `role`. The caller must have authorized
    /// the call and be the admin or hold the admin role of `role`. An
    /// account that holds the role keeps its index.
    pub fn grant_role(
        &mut self,
        auth: &Authorization,
        caller: Address,
        account: Address,
        role: Role,
    ) -> (r: Result<(), Error>)
        requires
            old(self).wf(),
        ensures
            final(self).wf(),
            match old(self)@.grant_role(auth.signers@, caller, account, role) {
                Ok(next) => r == Ok::<(), Error>(()) && final(self)@ == next,
                Err(e) => r == Err::<(), Error>(e) && final(self)@ == old(self)@,
            },
    {
        if let Some(e) = self.screen(auth, &caller, role) {
            return Err(e);
        }
        let slot = role.index();
        let ghost before = self@;
        assert(self.members@[slot as int].wf());
        let r = self.members[slot].grant(account);
        proof {
            assert(self@.members =~= before.members.update(slot as int, self.members@[slot as int]@));
            if r is Err {
                assert(self@.members =~= before.members);
            }
        }
        r
    }

    /// Ends the holding of `role` by `account`, under the same authorization
    /// as a grant. The last holder takes over the freed index.
    pub fn revoke_role(
        &mut self,
        auth: &Authorization,
        caller: Address,
        account: Address,
        role: Role,
    ) -> (r: Result<(), Error>)
        requires
            old(self).wf(),
        ensures
            final(self).wf(),
            match old(self)@.revoke_role(auth.signers@, caller, account, role) {
                Ok(next) => r == Ok::<(), Error>(()) && final(self)@ == next,
                Err(e) => r == Err::<(), Error>(e) && final(self)@ == old(self)@,
            },
    {
        if let Some(e) = self.screen(auth, &caller, role) {
            return Err(e);
        }
        let slot = role.index();
        let ghost before = self@;
        assert(self.members@[slot as int].wf());
        let r = self.members[slot].revoke(account);
        proof {
            assert(self@.members =~= before.members.update(slot as int, self.members@[slot as int]@));
            if r is Err {
                assert(self@.members =~= before.members);
            }
        }
        r
    }

    /// Gives up the caller's own holding of `role`. The Whitelisted role
    /// cannot be given up.
    pub fn renounce_role(
        &mut self,
        auth: &Authorization,
        caller: Address,
        role: Role,
    ) -> (r: Result<(), Error>)
        requires
            old(self).wf(),
        ensures
            final(self).wf(),
            match old(self)@.renounce_role(auth.signers@, caller, role) {
                Ok(next) => r == Ok::<(), Error>(()) && final(self)@ == next,
                Err(e) => r == Err::<(), Error>(e) && final(self)@ == old(self)@,
            },
    {
        if role == Role::Whitelisted {
            return Err(Error::ProtectedRole);
        }
        if !auth.authorizes(&caller) {
            return Err(Error::SignatureMissing);
        }
        let slot = role.index();
        let ghost before = self@;
        assert(self.members@[slot as int].wf());
        let r = self.members[slot].revoke(caller);
        proof {
            assert(self@.members =~= before.members.update(slot as int, self.members@[slot as int]@));
            if r is Err {
                assert(self@.members =~= before.members);
            }
        }
        r
    }

    /// Names `admin_role` as the role whose holders may grant and revoke
    /// `role`. Only the admin may do so.
    pub fn set_role_admin(
        &mut self,
        auth: &Authorization,
        role: Role,
        admin_role: Role,
    ) -> (r: Result<(), Error>)
        requires
            old(self).wf(),
        ensures
            final(self).wf(),
            match old(self)@.set_role_admin(auth.signers@, role, admin_role) {
                Ok(next) => r == Ok::<(), Error>(()) && final(self)@ == next,
                Err(e) => r == Err::<(), Error>(e) && final(self)@ == old(self)@,
            },
    {
        if !auth.authorizes(&self.admin) {
            return Err(Error::SignatureMissing);
        }
        let ghost before = self@;
        self.role_admin[role.index()] = Some(admin_role);
        assert(self@.members =~= before.members);
        Ok(())
    }

    /// Grants `role` to every account of `accounts`, in order, or to none:
    /// the caller is screened once, and a grant that fails undoes the batch.
    pub fn grant_role_batch(
        &mut self,
        auth: &Authorization,
        caller: Address,
        accounts: &Vec<Address>,
        role: Role,
    ) -> (r: Result<(), Error>)
        requires
            old(self).wf(),
        ensures
            final(self).wf(),
            match old(self)@.grant_role_batch(auth.signers@, caller, accounts@, role) {
                Ok(next) => r == Ok::<(), Error>(()) && final(self)@ == next,
                Err(e) => r == Err::<(), Error>(e) && final(self)@ == old(self)@,
            },
    {
        if let Some(e) = self.screen(auth, &caller, role) {
            return Err(e);
        }
        let slot = role.index();
        let ghost before = self@;
        assert(self.members@[slot as int].wf());
        let mut staged = self.members[slot].fork();
        let mut i: usize = 0;
        assert(accounts@.skip(0) =~= accounts@);
        while i < accounts.len()
            invariant
                i <= accounts@.len(),
                staged.wf(),
                self.wf(),
                self@ == before,
                before == old(self)@,
                before.refusal(auth.signers@, caller, role) is None,
                granted_all(before.members_of(role), accounts@) == granted_all(
                    staged@,
                    accounts@.skip(i as int),
                ),
            decreases accounts@.len() - i,
        {
            assert(accounts@.skip(i as int).drop_first() =~= accounts@.skip(i + 1));
            if let Err(e) = staged.grant(accounts[i]) {
                return Err(e);
            }
            i += 1;
        }
        self.members[slot] = staged;
        assert(self@.members =~= before.members.update(slot as int, self.members@[slot as int]@));
        Ok(())
    }

    /// Revokes `role` from every account of `accounts`, in order, or from
    /// none: the caller is screened once, and a revocation that fails undoes
    /// the batch.
    pub fn revoke_role_batch(
        &mut self,
        auth: &Authorization,
        caller: Address,
        accounts: &Vec<Address>,
        role: Role,
    ) -> (r: Result<(), Error>)
        requires
            old(self).wf(),
        ensures
            final(self).wf(),
            match old(self)@.revoke_role_batch(auth.signers@, caller, accounts@, role) {
                Ok(next) => r == Ok::<(), Error>(()) && final(self)@ == next,
                Err(e) => r == Err::<(), Error>(e) && final(self)@ == old(self)@,
            },
    {
        if let Some(e) = self.screen(auth, &caller, role) {
            return Err(e);
        }
        let slot = role.index();
        let ghost before = self@;
        assert(self.members@[slot as int].wf());
        let mut staged = self.members[slot].fork();
        let mut i: usize = 0;
        assert(accounts@.skip(0) =~= accounts@);
        while i < accounts.len()
            invariant
                i <= accounts@.len(),
                staged.wf(),
                self.wf(),
                self@ == before,
                before == old(self)@,
                before.refusal(auth.signers@, caller, role) is None,
                revoked_all(before.members_of(role), accounts@) == revoked_all(
                    staged@,
                    accounts@.skip(i as int),
                ),
            decreases accounts@.len() - i,
        {
            assert(accounts@.skip(i as int).drop_first() =~= accounts@.skip(i + 1));
            if let Err(e) = staged.revoke(accounts[i]) {
                return Err(e);
            }
            i += 1;
        }
        self.members[slot] = staged;
        assert(self@.members =~= before.members.update(slot as int, self.members@[slot as int]@));
        Ok(())
    }
}

/// What the other contracts ask of the role registry: where it lives, and
/// whether an account holds a role.
pub trait PermissionManagerInterface: View<V = RegistryModel> + Sized {
    /// The representation invariant of the implementation.
    spec fn sound(&self) -> bool;

    fn address(&self) -> (a: Address)
        ensures
            a == self@.address,
    ;

    /// The assignment index of `account` under `role`; `None` when the
    /// account does not hold the role.
    fn has_role(&self, account: &Address, role: Role) -> (r: Option<u32>)
        requires
            self.sound(),
        ensures
            r == self@.has_role(*account, role),
            r.is_some() == self@.holds(*account, role),
    ;
}

impl PermissionManagerInterface for PermissionManager {
    open spec fn sound(&self) -> bool {
        self.wf()
    }

    fn address(&self) -> (a: Address) {
        PermissionManager::address(self)
    }

    fn has_role(&self, account: &Address, role: Role) -> (r: Option<u32>) {
        PermissionManager::has_role(self, account, role)
    }
}

} // verus!
