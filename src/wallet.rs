use vstd::prelude::*;

verus! {

/// An account address on the ledger.
#[derive(Clone, Copy, Debug, PartialEq, Eq)]
pub struct SuiAddress {
    pub bytes: [u8; 20],
}

/// A provisioned account: its address and its serialized signing keypair.
#[derive(Clone, Copy, Debug, PartialEq, Eq)]
pub struct AccountKey {
    pub address: SuiAddress,
    pub keypair: [u8; 64],
}

/// The keystore of one test network: one entry per provisioned account, in
/// the order the accounts were provisioned, saved at `path`. No address has
/// two entries (see `wf`).
#[derive(Clone, Debug)]
pub struct Keystore {
    pub entries: Vec<AccountKey>,
    pub path: String,
}

impl Keystore {
    /// Each address has at most one entry.
    pub open spec fn wf(self) -> bool {
        addresses_of(self.entries@).no_duplicates()
    }
}

/// Builds the keystore that holds exactly the keys of `accounts`, to be
/// saved at `path`. Provisioned accounts have distinct addresses.
pub fn build_keystore(accounts: &Vec<AccountKey>, path: String) -> (r: Keystore)
    requires
        addresses_of(accounts@).no_duplicates(),
    ensures
        r.wf(),
        r.entries@ == accounts@,
        r.path@ == path@,
{
    let mut entries: Vec<AccountKey> = Vec::new();
    let mut i: usize = 0;
    while i < accounts.len()
        invariant
            i <= accounts@.len(),
            entries@ == accounts@.subrange(0, i as int),
        decreases accounts@.len() - i,
    {
        entries.push(accounts[i]);
        i = i + 1;
    }
    proof {
        assert(accounts@.subrange(0, accounts@.len() as int) == accounts@);
    }
    Keystore { entries, path }
}

/// The addresses of `keys`, in order.
pub open spec fn addresses_of(keys: Seq<AccountKey>) -> Seq<SuiAddress> {
    keys.map_values(|k: AccountKey| k.address)
}

/// The addresses of the provisioned accounts, in provisioning order.
pub fn account_addresses(accounts: &Vec<AccountKey>) -> (r: Vec<SuiAddress>)
    ensures
        r@ == addresses_of(accounts@),
{
    let mut r: Vec<SuiAddress> = Vec::new();
    let mut i: usize = 0;
    while i < accounts.len()
        invariant
            i <= accounts@.len(),
            r@ == addresses_of(accounts@.subrange(0, i as int)),
        decreases accounts@.len() - i,
    {
        r.push(accounts[i].address);
        proof {
            assert(addresses_of(accounts@.subrange(0, i + 1)) =~= addresses_of(
                accounts@.subrange(0, i as int),
            ).push(accounts@[i as int].address));
        }
        i = i + 1;
    }
    proof {
        assert(accounts@.subrange(0, accounts@.len() as int) == accounts@);
    }
    r
}

/// What a gateway needs: the validators to talk to and a local storage path.
/// The validator description `V` is carried through unchanged.
#[derive(Clone, Debug)]
pub struct GatewayConfig<V> {
    pub db_folder_path: String,
    pub validator_set: Vec<V>,
}

/// How a wallet reaches the network: through a gateway embedded in the
/// process, or through a remote JSON-RPC endpoint.
#[derive(Clone, Debug)]
pub enum GatewayType<V> {
    Embedded(GatewayConfig<V>),
    Rpc(String),
}

/// The wallet's configuration.
#[derive(Clone, Debug)]
pub struct ClientConfig<V> {
    pub accounts: Vec<SuiAddress>,
    pub keystore_path: String,
    pub gateway: GatewayType<V>,
    pub active_address: Option<SuiAddress>,
}

/// The address a fresh wallet acts as: the first account, if any.
pub open spec fn first_address(accounts: Seq<SuiAddress>) -> Option<SuiAddress> {
    if accounts.len() > 0 {
        Some(accounts[0])
    } else {
        None
    }
}

/// Builds the wallet configuration written right after launch: it knows every
/// account, uses the keystore at `keystore_path`, reaches the network through
/// the embedded `gateway`, and acts as the first account.
pub fn initial_client_config<V>(
    accounts: Vec<SuiAddress>,
    keystore_path: String,
    gateway: GatewayConfig<V>,
) -> (r: ClientConfig<V>)
    ensures
        r.accounts@ == accounts@,
        r.keystore_path@ == keystore_path@,
        r.gateway == GatewayType::Embedded(gateway),
        r.active_address == first_address(accounts@),
{
    let active_address = if accounts.len() > 0 {
        Some(accounts[0])
    } else {
        None
    };
    ClientConfig { accounts, keystore_path, gateway: GatewayType::Embedded(gateway), active_address }
}

/// Points the wallet at the JSON-RPC endpoint `rpc_url`, keeping its accounts,
/// keystore and active address.
pub fn rewire_to_rpc<V>(config: &mut ClientConfig<V>, rpc_url: String)
    ensures
        final(config).gateway == GatewayType::<V>::Rpc(rpc_url),
        final(config).accounts == old(config).accounts,
        final(config).keystore_path == old(config).keystore_path,
        final(config).active_address == old(config).active_address,
{
    config.gateway = GatewayType::Rpc(rpc_url);
}

/// The keystore built for a set of accounts has one entry per account, no
/// address twice, and the address of entry `i` is the address of account `i`.
pub proof fn lemma_keystore_matches_accounts(accounts: Seq<AccountKey>, keystore: Keystore)
    requires
        keystore.wf(),
        keystore.entries@ == accounts,
    ensures
        keystore.entries@.len() == accounts.len(),
        addresses_of(keystore.entries@).no_duplicates(),
        addresses_of(keystore.entries@) == addresses_of(accounts),
        forall|i: int| 0 <= i < accounts.len() ==> keystore.entries@[i].address == #[trigger] addresses_of(accounts)[i],
{
}

/// Points the wallet back at the embedded `gateway`, keeping its accounts,
/// keystore and active address.
pub fn point_to_embedded<V>(config: &mut ClientConfig<V>, gateway: GatewayConfig<V>)
    ensures
        final(config).gateway == GatewayType::Embedded(gateway),
        final(config).accounts == old(config).accounts,
        final(config).keystore_path == old(config).keystore_path,
        final(config).active_address == old(config).active_address,
{
    config.gateway = GatewayType::Embedded(gateway);
}

/// Building the wallet configuration and then pointing it at a JSON-RPC
/// endpoint leaves the accounts, keystore and active address as they were
/// built, and the gateway is that endpoint.
pub proof fn lemma_rewire_round_trip<V>(
    accounts: Seq<SuiAddress>,
    keystore_path: Seq<char>,
    built: ClientConfig<V>,
    rewired: ClientConfig<V>,
    rpc_url: String,
)
    requires
        built.accounts@ == accounts,
        built.keystore_path@ == keystore_path,
        built.gateway is Embedded,
        built.active_address == first_address(accounts),
        rewired.gateway == GatewayType::<V>::Rpc(rpc_url),
        rewired.accounts == built.accounts,
        rewired.keystore_path == built.keystore_path,
        rewired.active_address == built.active_address,
    ensures
        rewired.accounts@ == accounts,
        rewired.keystore_path@ == keystore_path,
        rewired.active_address == first_address(accounts),
        rewired.gateway matches GatewayType::Rpc(u) && u@ == rpc_url@,
{
}

/// Pointing a wallet at a front-end and then back at its embedded gateway
/// gives back the configuration it had.
pub proof fn lemma_restore_round_trip<V>(
    built: ClientConfig<V>,
    rewired: ClientConfig<V>,
    restored: ClientConfig<V>,
    gateway: GatewayConfig<V>,
)
    requires
        built.gateway == GatewayType::Embedded(gateway),
        rewired.gateway is Rpc,
        rewired.accounts == built.accounts,
        rewired.keystore_path == built.keystore_path,
        rewired.active_address == built.active_address,
        restored.gateway == GatewayType::Embedded(gateway),
        restored.accounts == rewired.accounts,
        restored.keystore_path == rewired.keystore_path,
        restored.active_address == rewired.active_address,
    ensures
        restored == built,
{
}

} // verus!
