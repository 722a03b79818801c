//! The settings of one deployment and how they are resolved from what the
//! command line and the environment gave.

use vstd::prelude::*;
use vstd::string::StringExecFns;
use crate::utils::conversions::{felt_hex_bytes, Felt};
use crate::utils::text::{equals_ignoring_case, lowered, parse_u64, parsed_u64};

verus! {

/// The chain whose events are followed.
#[derive(Debug, Clone, Copy, PartialEq, Eq, Structural)]
pub enum NetworkName {
    Mainnet,
    Sepolia,
}

/// The network that a text names. ASCII capital letters count as their
/// lower-case forms; a text that is neither `mainnet` nor `sepolia` names none.
pub open spec fn network_named(text: Seq<char>) -> Option<NetworkName> {
    if lowered(text) == "mainnet"@ {
        Some(NetworkName::Mainnet)
    } else if lowered(text) == "sepolia"@ {
        Some(NetworkName::Sepolia)
    } else {
        None
    }
}

impl NetworkName {
    /// Reads a network name. The error is a message that quotes the input.
    pub fn from_str(input: &str) -> (r: Result<NetworkName, String>)
        ensures
            match r {
                Ok(n) => network_named(input@) == Some(n),
                Err(message) => network_named(input@) is None && message@
                    == "Invalid network name: "@ + input@,
            },
    {
        proof {
            reveal_strlit("mainnet");
            reveal_strlit("sepolia");
        }
        if equals_ignoring_case(input, "mainnet") {
            Ok(NetworkName::Mainnet)
        } else if equals_ignoring_case(input, "sepolia") {
            Ok(NetworkName::Sepolia)
        } else {
            Err(String::from_str("Invalid network name: ").concat(input))
        }
    }

    /// The address of the stream provider for this network.
    pub fn endpoint(&self) -> (r: &'static str)
        ensures
            r@ == match *self {
                NetworkName::Mainnet => "https://mainnet.starknet.a5a.ch"@,
                NetworkName::Sepolia => "https://sepolia.starknet.a5a.ch"@,
            },
    {
        match self {
            NetworkName::Mainnet => "https://mainnet.starknet.a5a.ch",
            NetworkName::Sepolia => "https://sepolia.starknet.a5a.ch",
        }
    }
}

/// One setting as it was given: on the command line, in the environment, in
/// both or in neither.
#[derive(Debug, Clone, PartialEq, Eq)]
pub struct Setting {
    pub flag: Option<String>,
    pub variable: Option<String>,
}

impl Setting {
    /// The value that counts: the command line's when it gave one, else the
    /// environment's.
    pub open spec fn given(self) -> Option<Seq<char>> {
        match self.flag {
            Some(f) => Some(f@),
            None => match self.variable {
                Some(v) => Some(v@),
                None => None,
            },
        }
    }

    /// A setting that was given nowhere.
    pub fn absent() -> (s: Setting)
        ensures
            s.flag is None,
            s.variable is None,
    {
        Setting { flag: None, variable: None }
    }

    /// Takes the value that counts out of the setting.
    pub fn into_given(self) -> (r: Option<String>)
        ensures
            match r {
                Some(v) => self.given() == Some(v@),
                None => self.given() is None,
            },
    {
        match self.flag {
            Some(f) => Some(f),
            None => self.variable,
        }
    }
}

/// Everything the command line and the environment gave.
#[derive(Debug, Clone, PartialEq, Eq)]
pub struct ConfigInput {
    pub storage_url: Setting,
    pub apibara_key: Setting,
    pub network: Setting,
    pub contract_address: Setting,
    pub starting_block: Setting,
    pub write_path: Setting,
}

/// Why the settings could not be resolved.
#[derive(Debug, Clone, Copy, PartialEq, Eq, Structural)]
pub enum ConfigError {
    /// No credential for the stream provider was given.
    MissingApibaraKey,
    /// The network is neither `mainnet` nor `sepolia`.
    InvalidNetwork,
    /// No contract address was given.
    MissingContractAddress,
    /// The contract address is not a field element in hexadecimal.
    InvalidContractAddress,
    /// The starting block is not a number.
    InvalidStartingBlock,
}

/// The resolved settings.
#[derive(Debug, Clone, PartialEq, Eq)]
pub struct Config {
    pub storage_url: String,
    pub apibara_key: String,
    pub network: NetworkName,
    pub contract_address: Felt,
    pub starting_block: u64,
    pub write_path: String,
}

/// The mathematical content of a [`Config`].
pub struct ConfigView {
    pub storage_url: Seq<char>,
    pub apibara_key: Seq<char>,
    pub network: NetworkName,
    pub contract_address: Seq<u8>,
    pub starting_block: u64,
    pub write_path: Seq<char>,
}

impl View for Config {
    type V = ConfigView;

    open spec fn view(&self) -> ConfigView {
        ConfigView {
            storage_url: self.storage_url@,
            apibara_key: self.apibara_key@,
            network: self.network,
            contract_address: self.contract_address.bytes@,
            starting_block: self.starting_block,
            write_path: self.write_path@,
        }
    }
}

/// The storage address used when none is given.
pub open spec fn default_storage_url() -> Seq<char> {
    "redis://127.0.0.1:6379"@
}

/// The checkpoint location used when none is given.
pub open spec fn default_write_path() -> Seq<char> {
    "indexer_state.json"@
}

/// The network that a setting selects: mainnet when none is given, nothing
/// when the value given names no network.
pub open spec fn network_of(setting: Setting) -> Option<NetworkName> {
    match setting.given() {
        Some(text) => network_named(text),
        None => Some(NetworkName::Mainnet),
    }
}

/// The starting block that a setting selects. A command-line value that is
/// not a number is passed over for the environment's; without either the
/// block is zero; an environment value that is not a number selects nothing.
pub open spec fn starting_block_of(setting: Setting) -> Option<u64> {
    let from_flag = match setting.flag {
        Some(f) => parsed_u64(f@),
        None => None,
    };
    match from_flag {
        Some(n) => Some(n),
        None => match setting.variable {
            Some(v) => parsed_u64(v@),
            None => Some(0),
        },
    }
}

/// The settings that the input resolves to, where `address` is what reading
/// the given contract address as a field element gave. The first setting at
/// fault, in the order credential, network, contract address, starting block,
/// decides the error.
pub open spec fn resolved(input: ConfigInput, address: Option<Seq<u8>>) -> Result<
    ConfigView,
    ConfigError,
> {
    if input.apibara_key.given() is None {
        Err(ConfigError::MissingApibaraKey)
    } else if network_of(input.network) is None {
        Err(ConfigError::InvalidNetwork)
    } else if input.contract_address.given() is None {
        Err(ConfigError::MissingContractAddress)
    } else if address is None {
        Err(ConfigError::InvalidContractAddress)
    } else if starting_block_of(input.starting_block) is None {
        Err(ConfigError::InvalidStartingBlock)
    } else {
        Ok(
            ConfigView {
                storage_url: match input.storage_url.given() {
                    Some(url) => url,
                    None => default_storage_url(),
                },
                apibara_key: input.apibara_key.given().unwrap(),
                network: network_of(input.network).unwrap(),
                contract_address: address.unwrap(),
                starting_block: starting_block_of(input.starting_block).unwrap(),
                write_path: match input.write_path.given() {
                    Some(path) => path,
                    None => default_write_path(),
                },
            },
        )
    }
}

/// What reading the given contract address as a field element gives.
pub open spec fn address_read(input: ConfigInput) -> Option<Seq<u8>> {
    match input.contract_address.given() {
        Some(text) => felt_hex_bytes(text),
        None => None,
    }
}

fn resolve_network(setting: Setting) -> (r: Option<NetworkName>)
    ensures
        r == network_of(setting),
{
    match setting.into_given() {
        Some(text) => match NetworkName::from_str(text.as_str()) {
            Ok(n) => Some(n),
            Err(_) => None,
        },
        None => Some(NetworkName::Mainnet),
    }
}

fn resolve_starting_block(setting: Setting) -> (r: Option<u64>)
    ensures
        r == starting_block_of(setting),
{
    let from_flag = match &setting.flag {
        Some(f) => parse_u64(f.as_str()),
        None => None,
    };
    match from_flag {
        Some(n) => Some(n),
        None => match &setting.variable {
            Some(v) => parse_u64(v.as_str()),
            None => Some(0),
        },
    }
}

impl Config {
    /// Resolves the settings, given what reading the contract address gave:
    /// `address` is the field element that the given address writes, or
    /// nothing when it writes none.
    pub fn assemble(input: ConfigInput, address: Option<Felt>) -> (r: Result<Config, ConfigError>)
        ensures
            match r {
                Ok(config) => resolved(
                    input,
                    match address {
                        Some(felt) => Some(felt.bytes@),
                        None => None,
                    },
                ) == Ok::<ConfigView, ConfigError>(config@),
                Err(e) => resolved(
                    input,
                    match address {
                        Some(felt) => Some(felt.bytes@),
                        None => None,
                    },
                ) == Err::<ConfigView, ConfigError>(e),
            },
    {
        let ConfigInput {
            storage_url,
            apibara_key,
            network,
            contract_address,
            starting_block,
            write_path,
        } = input;
        let apibara_key = match apibara_key.into_given() {
            Some(key) => key,
            None => {
                return Err(ConfigError::MissingApibaraKey);
            },
        };
        let network = match resolve_network(network) {
            Some(n) => n,
            None => {
                return Err(ConfigError::InvalidNetwork);
            },
        };
        if contract_address.into_given().is_none() {
            return Err(ConfigError::MissingContractAddress);
        }
        let contract_address = match address {
            Some(felt) => felt,
            None => {
                return Err(ConfigError::InvalidContractAddress);
            },
        };
        let starting_block = match resolve_starting_block(starting_block) {
            Some(n) => n,
            None => {
                return Err(ConfigError::InvalidStartingBlock);
            },
        };
        let storage_url = match storage_url.into_given() {
            Some(url) => url,
            None => String::from_str("redis://127.0.0.1:6379"),
        };
        let write_path = match write_path.into_given() {
            Some(path) => path,
            None => String::from_str("indexer_state.json"),
        };
        Ok(
            Config {
                storage_url,
                apibara_key,
                network,
                contract_address,
                starting_block,
                write_path,
            },
        )
    }

    /// Resolves the settings from what the command line and the environment
    /// gave. A value from the command line goes before one from the
    /// environment.
    pub fn new(input: ConfigInput) -> (r: Result<Config, ConfigError>)
        ensures
            match r {
                Ok(config) => resolved(input, address_read(input)) == Ok::<
                    ConfigView,
                    ConfigError,
                >(config@),
                Err(e) => resolved(input, address_read(input)) == Err::<ConfigView, ConfigError>(
                    e,
                ),
            },
    {
        let address = match &input.contract_address.flag {
            Some(text) => Felt::from_hex(text.as_str()),
            None => match &input.contract_address.variable {
                Some(text) => Felt::from_hex(text.as_str()),
                None => None,
            },
        };
        Config::assemble(input, address)
    }
}

} // verus!
