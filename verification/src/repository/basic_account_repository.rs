//! The directory of client accounts.

use vstd::prelude::*;
use vstd::std_specs::hash::{axiom_spec_hash_map_iter, spec_hash_map_iter};
use vstd::std_specs::iter::IteratorSpec;
use nohash_hasher::IntMap;
use crate::account::basic::{AccountView, BasicAccount};
use crate::client::Client;
use crate::repository::int_map::{entry_u16, iter_u16, with_capacity_u16};

verus! {

/// The accounts of all clients seen so far, by client identifier.
pub struct BasicAccountMemoryRepository {
    inner: IntMap<Client, BasicAccount>,
}

impl View for BasicAccountMemoryRepository {
    type V = Map<Client, AccountView>;

    closed spec fn view(&self) -> Map<Client, AccountView> {
        Map::new(|client: Client| self.inner@.contains_key(client), |client: Client| self.inner@[client]@)
    }
}

/// The directory after `client` has been looked up: its account is there, new
/// if it was not there before.
pub open spec fn touch(accounts: Map<Client, AccountView>, client: Client) -> Map<
    Client,
    AccountView,
> {
    if accounts.contains_key(client) {
        accounts
    } else {
        accounts.insert(client, AccountView::new(client))
    }
}

/// Whether `accounts` holds the accounts of `directory`, each client's once,
/// in some order.
pub open spec fn lists(accounts: Seq<AccountView>, directory: Map<Client, AccountView>) -> bool {
    exists|clients: Seq<Client>|
        {
            &&& clients.len() == accounts.len()
            &&& clients.no_duplicates()
            &&& clients.to_set() == directory.dom()
            &&& forall|i: int|
                0 <= i < clients.len() ==> accounts[i] == #[trigger] directory[clients[i]]
        }
}

/// The views of a sequence of accounts.
pub open spec fn views(accounts: Seq<BasicAccount>) -> Seq<AccountView> {
    Seq::new(accounts.len(), |i: int| accounts[i]@)
}

impl Default for BasicAccountMemoryRepository {
    fn default() -> (repository: Self)
        ensures
            repository@ == (Map::<Client, AccountView>::empty()),
    {
        Self::new()
    }
}

impl BasicAccountMemoryRepository {
    pub fn new() -> (repository: Self)
        ensures
            repository@ == (Map::<Client, AccountView>::empty()),
    {
        let repository = BasicAccountMemoryRepository { inner: IntMap::default() };
        assert(repository@ =~= Map::<Client, AccountView>::empty());
        repository
    }

    /// An empty directory with room for `capacity` clients, or for as many
    /// clients as there can be if `capacity` is more than that.
    pub fn with_capacity(capacity: usize) -> (repository: Self)
        ensures
            repository@ == (Map::<Client, AccountView>::empty()),
    {
        let room: usize = if capacity > 0x1_0000 {
            0x1_0000
        } else {
            capacity
        };
        let repository = BasicAccountMemoryRepository { inner: with_capacity_u16(room) };
        assert(repository@ =~= Map::<Client, AccountView>::empty());
        repository
    }

    /// The account of `client`, created with zero balances if this is the
    /// first time the client is looked up. What the caller leaves in the
    /// account is what the directory holds for the client afterwards.
    pub fn find_by_client(&mut self, client: Client) -> (account: &mut BasicAccount)
        ensures
            account@ == touch(old(self)@, client)[client],
            final(self)@ == old(self)@.insert(client, final(account)@),
    {
        entry_u16(&mut self.inner, client).or_insert(BasicAccount::new(client))
    }

    /// The accounts of all clients, in the order in which the map walks them;
    /// the directory is given up.
    pub fn get_all_account_into_iter(self) -> (accounts: Vec<BasicAccount>)
        ensures
            lists(views(accounts@), self@),
    {
        self.get_all_account_iter()
    }

    /// The accounts of all clients, in the order in which the map walks them.
    pub fn get_all_account_iter(&self) -> (accounts: Vec<BasicAccount>)
        ensures
            lists(views(accounts@), self@),
    {
        let mut accounts: Vec<BasicAccount> = Vec::new();
        let ghost entries = spec_hash_map_iter(&self.inner).remaining();
        for entry in it: iter_u16(&self.inner)
            invariant
                it.seq() == entries,
                accounts.len() == it.index(),
                forall|i: int| 0 <= i < accounts.len() ==> accounts[i] == *entries[i].1,
        {
            accounts.push(*entry.1);
        }
        proof {
            axiom_spec_hash_map_iter(&self.inner);
            assert(accounts.len() == entries.len());
            let clients = Seq::new(entries.len(), |i: int| *entries[i].0);
            assert(clients.no_duplicates()) by {
                assert forall|i: int, j: int|
                    0 <= i < clients.len() && 0 <= j < clients.len() && i != j implies clients[i]
                    != clients[j] by {
                    assert(self.inner@[*entries[i].0] == *entries[i].1);
                    assert(self.inner@[*entries[j].0] == *entries[j].1);
                    assert(entries[i] != entries[j]);
                }
            }
            assert(clients.to_set() =~= self@.dom()) by {
                assert forall|client: Client| self@.dom().contains(client) implies clients.to_set().contains(
                    client,
                ) by {
                    let i = choose|i: int|
                        0 <= i < entries.len() && entries[i] == (&client, &self.inner@[client]);
                    assert(clients[i] == client);
                }
                assert forall|client: Client| clients.to_set().contains(client) implies self@.dom().contains(
                    client,
                ) by {
                    let i = choose|i: int| 0 <= i < clients.len() && clients[i] == client;
                    assert(self.inner@.contains_key(*entries[i].0));
                }
            }
            assert forall|i: int| 0 <= i < clients.len() implies views(accounts@)[i]
                == #[trigger] self@[clients[i]] by {
                assert(self.inner@[*entries[i].0] == *entries[i].1);
            }
        }
        accounts
    }
}

} // verus!
