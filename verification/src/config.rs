//! The radio's configuration: every option with its default, and what is
//! derived from the options for the collaborators.
use vstd::prelude::*;
use vstd::string::StringExecFns;

verus! {

/// How much of the network a radio covers.
#[derive(Clone, Copy, Debug, PartialEq, Eq, Structural)]
pub enum CoverageLevel {
    Minimal,
    OnChain,
    Comprehensive,
}

impl Default for CoverageLevel {
    fn default() -> (r: Self)
        ensures
            r == CoverageLevel::OnChain,
    {
        CoverageLevel::OnChain
    }
}

/// The gossip network to join.
#[derive(Clone, Copy, Debug, PartialEq, Eq, Structural)]
pub enum GraphcastNetworkName {
    Mainnet,
    Testnet,
}

/// The shape of log lines.
#[derive(Clone, Copy, Debug, PartialEq, Eq, Structural)]
pub enum LogFormat {
    Compact,
    Pretty,
    Json,
    Full,
}

/// What a message's signer must be for the message to be accepted.
#[derive(Clone, Copy, Debug, PartialEq, Eq, Structural)]
pub enum IdentityValidation {
    /// every signer is accepted
    NoCheck,
    /// the signer is a valid address
    ValidAddress,
    /// the signer is registered at the registry
    GraphcastRegistered,
    /// the signer is an account of the network
    GraphNetworkAccount,
    /// the signer is registered and belongs to an indexer with enough stake
    RegisteredIndexer,
    /// the signer is registered or an account, and belongs to an indexer with enough stake
    Indexer,
}

/// Whether two string slices hold the same characters.
fn same_text(a: &str, b: &str) -> (r: bool)
    ensures
        r == (a@ == b@),
{
    a.to_owned() == b.to_owned()
}

impl GraphcastNetworkName {
    /// The name as it is written in the configuration.
    pub fn as_str(&self) -> (r: &'static str)
        ensures
            r@ == self.spec_name(),
    {
        match self {
            GraphcastNetworkName::Mainnet => "mainnet",
            GraphcastNetworkName::Testnet => "testnet",
        }
    }

    pub open spec fn spec_name(self) -> Seq<char> {
        match self {
            GraphcastNetworkName::Mainnet => "mainnet"@,
            GraphcastNetworkName::Testnet => "testnet"@,
        }
    }

    /// Reads a configured name; `None` for any other text.
    pub fn parse(text: &str) -> (r: Option<Self>)
        ensures
            r matches Some(n) ==> n.spec_name() == text@,
            r is None ==> forall|n: Self| n.spec_name() != text@,
    {
        if same_text(text, "mainnet") {
            Some(GraphcastNetworkName::Mainnet)
        } else if same_text(text, "testnet") {
            Some(GraphcastNetworkName::Testnet)
        } else {
            None
        }
    }
}

impl LogFormat {
    /// The name as it is written in the configuration.
    pub fn as_str(&self) -> (r: &'static str)
        ensures
            r@ == self.spec_name(),
    {
        match self {
            LogFormat::Compact => "compact",
            LogFormat::Pretty => "pretty",
            LogFormat::Json => "json",
            LogFormat::Full => "full",
        }
    }

    pub open spec fn spec_name(self) -> Seq<char> {
        match self {
            LogFormat::Compact => "compact"@,
            LogFormat::Pretty => "pretty"@,
            LogFormat::Json => "json"@,
            LogFormat::Full => "full"@,
        }
    }

    /// Reads a configured name; `None` for any other text.
    pub fn parse(text: &str) -> (r: Option<Self>)
        ensures
            r matches Some(n) ==> n.spec_name() == text@,
            r is None ==> forall|n: Self| n.spec_name() != text@,
    {
        if same_text(text, "compact") {
            Some(LogFormat::Compact)
        } else if same_text(text, "pretty") {
            Some(LogFormat::Pretty)
        } else if same_text(text, "json") {
            Some(LogFormat::Json)
        } else if same_text(text, "full") {
            Some(LogFormat::Full)
        } else {
            None
        }
    }
}

impl IdentityValidation {
    /// The name as it is written in the configuration.
    pub fn as_str(&self) -> (r: &'static str)
        ensures
            r@ == self.spec_name(),
    {
        match self {
            IdentityValidation::NoCheck => "no-check",
            IdentityValidation::ValidAddress => "valid-address",
            IdentityValidation::GraphcastRegistered => "registered",
            IdentityValidation::GraphNetworkAccount => "graph-network-account",
            IdentityValidation::RegisteredIndexer => "registered-indexer",
            IdentityValidation::Indexer => "indexer",
        }
    }

    pub open spec fn spec_name(self) -> Seq<char> {
        match self {
            IdentityValidation::NoCheck => "no-check"@,
            IdentityValidation::ValidAddress => "valid-address"@,
            IdentityValidation::GraphcastRegistered => "registered"@,
            IdentityValidation::GraphNetworkAccount => "graph-network-account"@,
            IdentityValidation::RegisteredIndexer => "registered-indexer"@,
            IdentityValidation::Indexer => "indexer"@,
        }
    }

    /// Reads a configured name; `None` for any other text.
    pub fn parse(text: &str) -> (r: Option<Self>)
        ensures
            r matches Some(n) ==> n.spec_name() == text@,
            r is None ==> forall|n: Self| n.spec_name() != text@,
    {
        if same_text(text, "no-check") {
            Some(IdentityValidation::NoCheck)
        } else if same_text(text, "valid-address") {
            Some(IdentityValidation::ValidAddress)
        } else if same_text(text, "registered") {
            Some(IdentityValidation::GraphcastRegistered)
        } else if same_text(text, "graph-network-account") {
            Some(IdentityValidation::GraphNetworkAccount)
        } else if same_text(text, "registered-indexer") {
            Some(IdentityValidation::RegisteredIndexer)
        } else if same_text(text, "indexer") {
            Some(IdentityValidation::Indexer)
        } else {
            None
        }
    }
}

/// Every option of the radio.
#[derive(Debug, PartialEq, Eq)]
pub struct Config {
    /// Postgres database url
    pub database_url: String,
    /// subscribe by the generated topics only
    pub filter_protocol: Option<bool>,
    /// account of the operator
    pub indexer_address: Option<String>,
    /// private key of the identity wallet; takes precedence over the mnemonic
    pub private_key: Option<String>,
    /// mnemonic of the identity wallet
    pub mnemonic: Option<String>,
    pub registry_subgraph: String,
    pub network_subgraph: String,
    pub graphcast_network: GraphcastNetworkName,
    /// content topics to subscribe to
    pub topics: Vec<String>,
    pub waku_host: Option<String>,
    pub waku_port: Option<String>,
    pub waku_node_key: Option<String>,
    pub waku_addr: Option<String>,
    pub boot_node_addresses: Vec<String>,
    pub waku_log_level: Option<String>,
    pub discv5_enrs: Option<Vec<String>>,
    pub discv5_port: Option<u16>,
    pub log_level: String,
    pub slack_webhook: Option<String>,
    pub discord_webhook: Option<String>,
    pub telegram_token: Option<String>,
    pub telegram_chat_id: Option<i64>,
    pub metrics_host: String,
    pub metrics_port: Option<u16>,
    pub server_host: String,
    pub server_port: Option<u16>,
    pub log_format: LogFormat,
    pub radio_name: String,
    /// the largest number of rows to keep, where there is a cap
    pub max_storage: Option<i32>,
    pub id_validation: IdentityValidation,
    /// how long rows are kept, in minutes
    pub retention: i32,
}

/// Why a configuration cannot be used.
#[derive(Debug, PartialEq, Eq)]
pub enum ConfigError {
    /// An option is missing or does not fit the others.
    ValidateInput(String),
    /// The configuration could not be written as JSON.
    GenerateJson(String),
    /// A query that the configuration depends on failed.
    QueryError(String),
    /// The configuration file could not be read.
    ReadStr(String),
    /// Anything else.
    Other(String),
}

impl ConfigError {
    /// The text that introduces an error of this kind.
    pub open spec fn spec_prefix(self) -> Seq<char> {
        match self {
            ConfigError::ValidateInput(_) => "Validate the input: "@,
            ConfigError::GenerateJson(_) => "Generate JSON representation of the config file: "@,
            ConfigError::QueryError(_) => "QueryError: "@,
            ConfigError::ReadStr(_) => "Toml file error: "@,
            ConfigError::Other(_) => "Unknown error: "@,
        }
    }

    /// The detail that the error carries.
    pub open spec fn spec_detail(self) -> Seq<char> {
        match self {
            ConfigError::ValidateInput(d) => d@,
            ConfigError::GenerateJson(d) => d@,
            ConfigError::QueryError(d) => d@,
            ConfigError::ReadStr(d) => d@,
            ConfigError::Other(d) => d@,
        }
    }

    /// The error as one line of text: what kind it is, then the detail.
    pub fn message(&self) -> (r: String)
        ensures
            r@ == self.spec_prefix() + self.spec_detail(),
    {
        match self {
            ConfigError::ValidateInput(d) => String::from_str("Validate the input: ").concat(
                d.as_str(),
            ),
            ConfigError::GenerateJson(d) => String::from_str(
                "Generate JSON representation of the config file: ",
            ).concat(d.as_str()),
            ConfigError::QueryError(d) => String::from_str("QueryError: ").concat(d.as_str()),
            ConfigError::ReadStr(d) => String::from_str("Toml file error: ").concat(d.as_str()),
            ConfigError::Other(d) => String::from_str("Unknown error: ").concat(d.as_str()),
        }
    }
}

/// What the agent of the gossip network is configured with.
#[derive(Debug, PartialEq, Eq)]
pub struct GraphcastAgentConfig {
    pub wallet_key: String,
    pub graph_account: String,
    pub radio_name: String,
    pub registry_subgraph: String,
    pub network_subgraph: String,
    pub id_validation: IdentityValidation,
    pub graph_node_endpoint: Option<String>,
    pub boot_node_addresses: Option<Vec<String>>,
    pub graphcast_namespace: Option<String>,
    pub subtopics: Option<Vec<String>>,
    pub waku_node_key: Option<String>,
    pub waku_host: Option<String>,
    pub waku_port: Option<String>,
    pub waku_addr: Option<String>,
    pub filter_protocol: Option<bool>,
    pub discv5_enrs: Option<Vec<String>>,
    pub discv5_port: Option<u16>,
    pub discv5_nodes: Vec<String>,
}

/// The subgraph endpoints that queries go to.
#[derive(Debug, PartialEq, Eq)]
pub struct CallBook {
    pub graphcast_registry: String,
    pub graph_network: String,
    pub graph_node_status: Option<String>,
}

/// A copy of `list`, string for string.
pub fn clone_strings(list: &Vec<String>) -> (r: Vec<String>)
    ensures
        r@ == list@,
{
    let mut out: Vec<String> = Vec::new();
    let mut i: usize = 0;
    while i < list.len()
        invariant
            i <= list.len(),
            out@ == list@.take(i as int),
        decreases list.len() - i,
    {
        out.push(list[i].clone());
        proof {
            assert(out@ =~= list@.take(i + 1));
        }
        i += 1;
    }
    proof {
        assert(out@ =~= list@);
    }
    out
}

/// A copy of an optional string.
fn clone_optional(text: &Option<String>) -> (r: Option<String>)
    ensures
        r == *text,
{
    match text {
        Some(t) => Some(t.clone()),
        None => None,
    }
}

/// The contents of an optional list; an absent list has none.
pub open spec fn optional_list(list: Option<Vec<String>>) -> Option<Seq<String>> {
    match list {
        Some(l) => Some(l@),
        None => None,
    }
}

impl Config {
    /// The configuration for `database_url` with every other option at its default.
    pub fn with_defaults(database_url: String) -> (c: Config)
        ensures
            c.database_url == database_url,
            c.filter_protocol is None,
            c.indexer_address is None,
            c.private_key is None,
            c.mnemonic is None,
            c.registry_subgraph@
                == "https://api.thegraph.com/subgraphs/name/hopeyen/graphcast-registry-goerli"@,
            c.network_subgraph@ == "https://gateway.testnet.thegraph.com/network"@,
            c.graphcast_network == GraphcastNetworkName::Testnet,
            c.topics@.len() == 0,
            c.waku_host is None,
            c.waku_port is None,
            c.waku_node_key is None,
            c.waku_addr is None,
            c.boot_node_addresses@.len() == 0,
            c.waku_log_level is None,
            c.discv5_enrs is None,
            c.discv5_port is None,
            c.log_level@ == "info"@,
            c.slack_webhook is None,
            c.discord_webhook is None,
            c.telegram_token is None,
            c.telegram_chat_id is None,
            c.metrics_host@ == "0.0.0.0"@,
            c.metrics_port is None,
            c.server_host@ == "0.0.0.0"@,
            c.server_port is None,
            c.log_format == LogFormat::Pretty,
            c.radio_name@ == "subgraph-radio"@,
            c.max_storage is None,
            c.id_validation == IdentityValidation::ValidAddress,
            c.retention == 1440,
    {
        Config {
            database_url,
            filter_protocol: None,
            indexer_address: None,
            private_key: None,
            mnemonic: None,
            registry_subgraph: String::from_str(
                "https://api.thegraph.com/subgraphs/name/hopeyen/graphcast-registry-goerli",
            ),
            network_subgraph: String::from_str("https://gateway.testnet.thegraph.com/network"),
            graphcast_network: GraphcastNetworkName::Testnet,
            topics: Vec::new(),
            waku_host: None,
            waku_port: None,
            waku_node_key: None,
            waku_addr: None,
            boot_node_addresses: Vec::new(),
            waku_log_level: None,
            discv5_enrs: None,
            discv5_port: None,
            log_level: String::from_str("info"),
            slack_webhook: None,
            discord_webhook: None,
            telegram_token: None,
            telegram_chat_id: None,
            metrics_host: String::from_str("0.0.0.0"),
            metrics_port: None,
            server_host: String::from_str("0.0.0.0"),
            server_port: None,
            log_format: LogFormat::Pretty,
            radio_name: String::from_str("subgraph-radio"),
            max_storage: None,
            id_validation: IdentityValidation::ValidAddress,
            retention: 1440,
        }
    }

    /// The secret that the identity wallet is built from: the private key where
    /// there is one, else the mnemonic.
    pub fn wallet_input(&self) -> (r: Result<&String, ConfigError>)
        ensures
            self.private_key is Some ==> r is Ok && *r->Ok_0 == self.private_key->Some_0,
            self.private_key is None && self.mnemonic is Some ==> r is Ok && *r->Ok_0
                == self.mnemonic->Some_0,
            self.private_key is None && self.mnemonic is None ==> (r matches Err(
                ConfigError::ValidateInput(detail),
            ) && detail@ == "Must provide either private key or mnemonic"@),
    {
        match (&self.private_key, &self.mnemonic) {
            (Some(p), _) => Ok(p),
            (_, Some(m)) => Ok(m),
            _ => Err(
                ConfigError::ValidateInput(
                    String::from_str("Must provide either private key or mnemonic"),
                ),
            ),
        }
    }

    /// The port of the query API, where one is configured.
    pub fn server_port(&self) -> (r: Option<u16>)
        ensures
            r == self.server_port,
    {
        self.server_port
    }

    /// The host of the query API.
    pub fn server_host(&self) -> (r: &String)
        ensures
            *r == self.server_host,
    {
        &self.server_host
    }

    /// What the agent of the gossip network is configured with. Fails where
    /// neither a private key nor a mnemonic is configured.
    pub fn to_graphcast_agent_config(&self) -> (r: Result<GraphcastAgentConfig, ConfigError>)
        ensures
            r is Ok <==> self.private_key is Some || self.mnemonic is Some,
            r matches Err(e) ==> (e matches ConfigError::ValidateInput(detail) && detail@
                == "Must provide either private key or mnemonic"@),
            r matches Ok(a) ==> {
                &&& a.wallet_key == (if self.private_key is Some {
                    self.private_key->Some_0
                } else {
                    self.mnemonic->Some_0
                })
                &&& (self.indexer_address matches Some(address) ==> a.graph_account == address)
                &&& (self.indexer_address is None ==> a.graph_account@ == "none"@)
                &&& a.radio_name == self.radio_name
                &&& a.registry_subgraph == self.registry_subgraph
                &&& a.network_subgraph == self.network_subgraph
                &&& a.id_validation == self.id_validation
                &&& a.graph_node_endpoint is None
                &&& optional_list(a.boot_node_addresses) == Some(self.boot_node_addresses@)
                &&& (a.graphcast_namespace matches Some(n) && n@
                    == self.graphcast_network.spec_name())
                &&& optional_list(a.subtopics) == Some(self.topics@)
                &&& a.waku_node_key == self.waku_node_key
                &&& a.waku_host == self.waku_host
                &&& a.waku_port == self.waku_port
                &&& a.waku_addr == self.waku_addr
                &&& a.filter_protocol == self.filter_protocol
                &&& optional_list(a.discv5_enrs) == optional_list(self.discv5_enrs)
                &&& a.discv5_port == self.discv5_port
                &&& (self.discv5_enrs matches Some(enrs) ==> a.discv5_nodes@ == enrs@)
                &&& (self.discv5_enrs is None ==> a.discv5_nodes@.len() == 0)
            },
    {
        let wallet_key = match self.wallet_input() {
            Ok(key) => key.clone(),
            Err(e) => {
                return Err(e);
            },
        };
        let graph_account = match &self.indexer_address {
            Some(address) => address.clone(),
            None => String::from_str("none"),
        };
        let discv5_enrs = match &self.discv5_enrs {
            Some(enrs) => Some(clone_strings(enrs)),
            None => None,
        };
        let discv5_nodes = match &self.discv5_enrs {
            Some(enrs) => clone_strings(enrs),
            None => Vec::new(),
        };
        Ok(
            GraphcastAgentConfig {
                wallet_key,
                graph_account,
                radio_name: self.radio_name.clone(),
                registry_subgraph: self.registry_subgraph.clone(),
                network_subgraph: self.network_subgraph.clone(),
                id_validation: self.id_validation,
                graph_node_endpoint: None,
                boot_node_addresses: Some(clone_strings(&self.boot_node_addresses)),
                graphcast_namespace: Some(String::from_str(self.graphcast_network.as_str())),
                subtopics: Some(clone_strings(&self.topics)),
                waku_node_key: clone_optional(&self.waku_node_key),
                waku_host: clone_optional(&self.waku_host),
                waku_port: clone_optional(&self.waku_port),
                waku_addr: clone_optional(&self.waku_addr),
                filter_protocol: self.filter_protocol,
                discv5_enrs,
                discv5_port: self.discv5_port,
                discv5_nodes,
            },
        )
    }

    /// The subgraph endpoints that queries go to; no status endpoint of a graph node.
    pub fn callbook(&self) -> (r: CallBook)
        ensures
            r.graphcast_registry == self.registry_subgraph,
            r.graph_network == self.network_subgraph,
            r.graph_node_status is None,
    {
        CallBook {
            graphcast_registry: self.registry_subgraph.clone(),
            graph_network: self.network_subgraph.clone(),
            graph_node_status: None,
        }
    }
}

} // verus!
