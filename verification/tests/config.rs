use kanshi::config::{Config, ConfigError, ConfigInput, NetworkName, Setting};
use kanshi::utils::conversions::Felt;
use kanshi::utils::text::{equals_ignoring_case, parse_u64, same_text, starts_with};

const ADDRESS: &str = "0x049d36570d4e46f48e99674bd3fcc84644ddd6b96f7c741b1562b82f9e004dc7";

fn flag(value: &str) -> Setting {
    Setting { flag: Some(value.to_string()), variable: None }
}

fn variable(value: &str) -> Setting {
    Setting { flag: None, variable: Some(value.to_string()) }
}

fn both(flag: &str, variable: &str) -> Setting {
    Setting { flag: Some(flag.to_string()), variable: Some(variable.to_string()) }
}

fn minimal() -> ConfigInput {
    ConfigInput {
        storage_url: Setting::absent(),
        apibara_key: variable("SECRET-REDACTED"),
        network: Setting::absent(),
        contract_address: variable(ADDRESS),
        starting_block: Setting::absent(),
        write_path: Setting::absent(),
    }
}

#[test]
fn defaults_apply_when_nothing_is_given() {
    let config = Config::new(minimal()).expect("a configuration");
    assert_eq!(config.storage_url, "redis://127.0.0.1:6379");
    assert_eq!(config.apibara_key, "SECRET-REDACTED");
    assert_eq!(config.network, NetworkName::Mainnet);
    assert_eq!(config.contract_address, Felt::from_hex(ADDRESS).unwrap());
    assert_eq!(config.starting_block, 0);
    assert_eq!(config.write_path, "indexer_state.json");
}

#[test]
fn command_line_goes_before_environment() {
    let input = ConfigInput {
        storage_url: both("postgres://db/kv", "redis://cache:6379"),
        apibara_key: both("from-flag", "from-env"),
        network: both("sepolia", "mainnet"),
        contract_address: both("0x1", "0x2"),
        starting_block: both("12", "34"),
        write_path: both("a.json", "b.json"),
    };
    let config = Config::new(input).expect("a configuration");
    assert_eq!(config.storage_url, "postgres://db/kv");
    assert_eq!(config.apibara_key, "from-flag");
    assert_eq!(config.network, NetworkName::Sepolia);
    assert_eq!(config.contract_address, Felt::from_hex("0x1").unwrap());
    assert_eq!(config.starting_block, 12);
    assert_eq!(config.write_path, "a.json");
}

#[test]
fn environment_is_used_without_a_flag() {
    let input = ConfigInput {
        storage_url: variable("redis://cache:6379"),
        apibara_key: variable("from-env"),
        network: variable("SEPOLIA"),
        contract_address: variable("0x2"),
        starting_block: variable("34"),
        write_path: variable("b.json"),
    };
    let config = Config::new(input).expect("a configuration");
    assert_eq!(config.storage_url, "redis://cache:6379");
    assert_eq!(config.network, NetworkName::Sepolia);
    assert_eq!(config.contract_address, Felt::from_hex("0x2").unwrap());
    assert_eq!(config.starting_block, 34);
    assert_eq!(config.write_path, "b.json");
}

#[test]
fn missing_credential_is_an_error() {
    let mut input = minimal();
    input.apibara_key = Setting::absent();
    assert_eq!(Config::new(input), Err(ConfigError::MissingApibaraKey));
}

#[test]
fn unknown_network_is_an_error() {
    let mut input = minimal();
    input.network = flag("goerli");
    assert_eq!(Config::new(input), Err(ConfigError::InvalidNetwork));
}

#[test]
fn missing_contract_address_is_an_error() {
    let mut input = minimal();
    input.contract_address = Setting::absent();
    assert_eq!(Config::new(input), Err(ConfigError::MissingContractAddress));
}

#[test]
fn contract_address_that_is_no_field_element_is_an_error() {
    let mut input = minimal();
    input.contract_address = variable("not hex");
    assert_eq!(Config::new(input), Err(ConfigError::InvalidContractAddress));
}

#[test]
fn starting_block_that_is_no_number_is_an_error() {
    let mut input = minimal();
    input.starting_block = variable("soon");
    assert_eq!(Config::new(input), Err(ConfigError::InvalidStartingBlock));
}

#[test]
fn starting_block_flag_that_is_no_number_is_passed_over() {
    let mut input = minimal();
    input.starting_block = both("soon", "34");
    assert_eq!(Config::new(input).unwrap().starting_block, 34);
    let mut input = minimal();
    input.starting_block = flag("soon");
    assert_eq!(Config::new(input).unwrap().starting_block, 0);
    let mut input = minimal();
    input.starting_block = both("soon", "later");
    assert_eq!(Config::new(input), Err(ConfigError::InvalidStartingBlock));
}

#[test]
fn first_setting_at_fault_decides_the_error() {
    let all_wrong = ConfigInput {
        storage_url: Setting::absent(),
        apibara_key: Setting::absent(),
        network: flag("nowhere"),
        contract_address: Setting::absent(),
        starting_block: variable("x"),
        write_path: Setting::absent(),
    };
    assert_eq!(Config::new(all_wrong.clone()), Err(ConfigError::MissingApibaraKey));
    let mut input = all_wrong;
    input.apibara_key = flag("k");
    assert_eq!(Config::new(input.clone()), Err(ConfigError::InvalidNetwork));
    input.network = Setting::absent();
    assert_eq!(Config::new(input.clone()), Err(ConfigError::MissingContractAddress));
    input.contract_address = flag("zz");
    assert_eq!(Config::new(input.clone()), Err(ConfigError::InvalidContractAddress));
    input.contract_address = flag("0x1");
    assert_eq!(Config::new(input), Err(ConfigError::InvalidStartingBlock));
}

#[test]
fn assemble_takes_the_address_as_read() {
    let felt = Felt::from_hex("0xabc").unwrap();
    let config = Config::assemble(minimal(), Some(felt)).expect("a configuration");
    assert_eq!(config.contract_address, felt);
    assert_eq!(Config::assemble(minimal(), None), Err(ConfigError::InvalidContractAddress));
    let mut input = minimal();
    input.contract_address = Setting::absent();
    assert_eq!(Config::assemble(input, Some(felt)), Err(ConfigError::MissingContractAddress));
}

#[test]
fn network_names_ignore_case() {
    assert_eq!(NetworkName::from_str("mainnet"), Ok(NetworkName::Mainnet));
    assert_eq!(NetworkName::from_str("Mainnet"), Ok(NetworkName::Mainnet));
    assert_eq!(NetworkName::from_str("MAINNET"), Ok(NetworkName::Mainnet));
    assert_eq!(NetworkName::from_str("sepolia"), Ok(NetworkName::Sepolia));
    assert_eq!(NetworkName::from_str("SePoLiA"), Ok(NetworkName::Sepolia));
}

#[test]
fn network_name_error_quotes_the_input() {
    assert_eq!(
        NetworkName::from_str("Goerli"),
        Err("Invalid network name: Goerli".to_string())
    );
    assert_eq!(NetworkName::from_str(""), Err("Invalid network name: ".to_string()));
    assert_eq!(
        NetworkName::from_str(" mainnet"),
        Err("Invalid network name:  mainnet".to_string())
    );
    assert_eq!(
        NetworkName::from_str("mainnét"),
        Err("Invalid network name: mainnét".to_string())
    );
}

#[test]
fn network_names_agree_with_std_lowercasing() {
    for input in ["mainnet", "MainNet", "sepolia", "SEPOLIA", "maİnnet", "ſepolia", "main", "mainnets", "\u{212a}"] {
        let expected = match input.to_lowercase().as_str() {
            "mainnet" => Some(NetworkName::Mainnet),
            "sepolia" => Some(NetworkName::Sepolia),
            _ => None,
        };
        assert_eq!(NetworkName::from_str(input).ok(), expected, "{input:?}");
    }
}

#[test]
fn endpoints() {
    assert_eq!(NetworkName::Mainnet.endpoint(), "https://mainnet.starknet.a5a.ch");
    assert_eq!(NetworkName::Sepolia.endpoint(), "https://sepolia.starknet.a5a.ch");
}

#[test]
fn setting_gives_flag_first() {
    assert_eq!(both("a", "b").into_given(), Some("a".to_string()));
    assert_eq!(variable("b").into_given(), Some("b".to_string()));
    assert_eq!(flag("a").into_given(), Some("a".to_string()));
    assert_eq!(Setting::absent().into_given(), None);
}

#[test]
fn parse_u64_agrees_with_std() {
    for text in [
        "0", "7", "007", "+7", "+", "", "-7", "7 ", " 7", "7_000", "1e3", "0x10",
        "18446744073709551615", "18446744073709551616", "+18446744073709551615",
        "99999999999999999999999999", "١٢٣", "12a", "++1",
    ] {
        assert_eq!(parse_u64(text), text.parse::<u64>().ok(), "{text:?}");
    }
}

#[test]
fn equals_ignoring_case_folds_only_the_input() {
    assert!(equals_ignoring_case("PONG", "pong"));
    assert!(equals_ignoring_case("", ""));
    assert!(!equals_ignoring_case("pong", "pon"));
    assert!(!equals_ignoring_case("pon", "pong"));
    assert!(!equals_ignoring_case("päng", "pang"));
}

#[test]
fn starts_with_agrees_with_std() {
    for (text, prefix) in [
        ("postgres://x", "postgres"),
        ("postgresql://x", "postgres"),
        ("postgre", "postgres"),
        ("", "postgres"),
        ("", ""),
        ("Postgres://x", "postgres"),
        ("redis://postgres", "postgres"),
        ("pöstgres", "pö"),
    ] {
        assert_eq!(starts_with(text, prefix), text.starts_with(prefix), "{text:?}");
    }
}

#[test]
fn same_text_compares_whole_texts() {
    assert!(same_text("PONG", "PONG"));
    assert!(!same_text("PONG", "pong"));
    assert!(!same_text("PONG", "PONG "));
    assert!(same_text("", ""));
    assert!(same_text("é", "é"));
}
