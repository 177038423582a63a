//! The directory of client accounts that carry their own indices.

use vstd::prelude::*;
use vstd::std_specs::hash::{axiom_spec_hash_map_iter, spec_hash_map_iter};
use vstd::std_specs::iter::IteratorSpec;
use nohash_hasher::IntMap;
use crate::account::basic::{AccountView, BasicAccount};
use crate::account::wrap::WrapAccount;
use crate::client::Client;
use crate::processor::rules::Scope;
use crate::repository::basic_account_repository::{lists, views};
use crate::repository::int_map::{entry_u16, iter_u16};

verus! {

/// The accounts of all clients seen so far, each with its indices, by client
/// identifier.
pub struct WrapAccountMemoryRepository {
    inner: IntMap<Client, WrapAccount>,
}

impl View for WrapAccountMemoryRepository {
    type V = Map<Client, Scope>;

    closed spec fn view(&self) -> Map<Client, Scope> {
        Map::new(
            |client: Client| self.inner@.contains_key(client),
            |client: Client| self.inner@[client]@,
        )
    }
}

/// The directory after `client` has been looked up: its account is there, new
/// and with empty indices if it was not there before.
pub open spec fn touch_scope(accounts: Map<Client, Scope>, client: Client) -> Map<Client, Scope> {
    if accounts.contains_key(client) {
        accounts
    } else {
        accounts.insert(client, WrapAccount::spec_new(client))
    }
}

/// The balances of every client, without the indices.
pub open spec fn balances(accounts: Map<Client, Scope>) -> Map<Client, AccountView> {
    Map::new(|client: Client| accounts.contains_key(client), |client: Client| accounts[client].account)
}

impl WrapAccountMemoryRepository {
    pub fn new() -> (repository: Self)
        ensures
            repository@ == (Map::<Client, Scope>::empty()),
    {
        let repository = WrapAccountMemoryRepository { inner: IntMap::default() };
        assert(repository@ =~= Map::<Client, Scope>::empty());
        repository
    }

    /// The account of `client`, created with zero balances and empty indices
    /// if this is the first time the client is looked up. What the caller
    /// leaves in the account is what the directory holds for the client
    /// afterwards.
    pub fn find_by_client(&mut self, client: Client) -> (account: &mut WrapAccount)
        ensures
            account@ == touch_scope(old(self)@, client)[client],
            final(self)@ == old(self)@.insert(client, final(account)@),
    {
        entry_u16(&mut self.inner, client).or_insert(WrapAccount::new(client))
    }

    /// The balances of all clients, in the order in which the map walks them;
    /// the directory and the indices are given up.
    pub fn get_all_account_into_iter(self) -> (accounts: Vec<BasicAccount>)
        ensures
            lists(views(accounts@), balances(self@)),
    {
        let mut accounts: Vec<BasicAccount> = Vec::new();
        let ghost entries = spec_hash_map_iter(&self.inner).remaining();
        for entry in it: iter_u16(&self.inner)
            invariant
                it.seq() == entries,
                accounts.len() == it.index(),
                forall|i: int| 0 <= i < accounts.len() ==> accounts[i]@ == entries[i].1@.account,
        {
            accounts.push(*entry.1.account());
        }
        proof {
            axiom_spec_hash_map_iter(&self.inner);
            assert(accounts.len() == entries.len());
            let clients = Seq::new(entries.len(), |i: int| *entries[i].0);
            assert(clients.no_duplicates()) by {
                assert forall|i: int, j: int|
                    0 <= i < clients.len() && 0 <= j < clients.len() && i != j implies clients[i]
                    != clients[j] by {
                    assert(self.inner@[*entries[i].0] == *entries[i].1);
                    assert(self.inner@[*entries[j].0] == *entries[j].1);
                    assert(entries[i] != entries[j]);
                }
            }
            assert(clients.to_set() =~= balances(self@).dom()) by {
                assert forall|client: Client|
                    balances(self@).dom().contains(client) implies clients.to_set().contains(
                    client,
                ) by {
                    let i = choose|i: int|
                        0 <= i < entries.len() && entries[i] == (&client, &self.inner@[client]);
                    assert(clients[i] == client);
                }
                assert forall|client: Client|
                    clients.to_set().contains(client) implies balances(self@).dom().contains(
                    client,
                ) by {
                    let i = choose|i: int| 0 <= i < clients.len() && clients[i] == client;
                    assert(self.inner@.contains_key(*entries[i].0));
                }
            }
            assert forall|i: int| 0 <= i < clients.len() implies views(accounts@)[i]
                == #[trigger] balances(self@)[clients[i]] by {
                assert(self.inner@[*entries[i].0] == *entries[i].1);
            }
        }
        accounts
    }
}

} // verus!
