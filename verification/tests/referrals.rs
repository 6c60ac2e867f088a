use dkn_compute_launcher::commands::{
    get_points_api_url, parse_profile, profile_file_name, Commands, InvalidProfile,
};
use dkn_compute_launcher::crypto::sign_message;
use dkn_compute_launcher::referrals::{
    get_referrals_api_base_url, has_reached_max_uses, is_client_error, is_success, tweet_url,
    validate_referral_code, ReferralCommands, ReferralsClient,
};

const SECRET: &str = "ac0974bec39a17e36ba4a6b4d238ff944bacb478cbed5efcae784d7bf4f2ff80";

#[test]
fn test_api_urls() {
    assert_eq!(get_referrals_api_base_url("mainnet"), "https://mainnet.dkn.dria.co/referral/v0");
    assert_eq!(
        get_points_api_url("mainnet", "0x1234567890abcdef1234567890abcdef12345678"),
        "https://mainnet.dkn.dria.co/points/v0/total/node/0x1234567890abcdef1234567890abcdef12345678"
    );
    assert_eq!(
        get_points_api_url("testnet", "1234"),
        "https://testnet.dkn.dria.co/points/v0/total/node/0x1234"
    );
    assert_eq!(
        get_points_api_url("testnet", "0x0x12"),
        "https://testnet.dkn.dria.co/points/v0/total/node/0x12"
    );
}

#[test]
fn test_referral_urls() {
    let client = ReferralsClient::new(get_referrals_api_base_url("mainnet"));
    let address = "3b64855e6f0cacca01089387c628e6540619ce07";
    assert_eq!(
        client.get_referrals(address),
        "https://mainnet.dkn.dria.co/referral/v0/get_referrals/3b64855e6f0cacca01089387c628e6540619ce07"
    );
    assert_eq!(
        client.get_referred_by(address),
        "https://mainnet.dkn.dria.co/referral/v0/get_referred_by/3b64855e6f0cacca01089387c628e6540619ce07"
    );
    assert_eq!(
        client.get_max_uses(address),
        "https://mainnet.dkn.dria.co/referral/v0/get_max_uses/3b64855e6f0cacca01089387c628e6540619ce07"
    );
}

#[test]
fn test_challenge_request() {
    let client = ReferralsClient::new("http://localhost/v0".to_string());
    let (url, body) = client.get_challenge("3b64");
    assert_eq!(url, "http://localhost/v0/get_challenge");
    assert_eq!(body, "{\"address\":\"3b64\"}");
    let parsed: serde_json::Value = serde_json::from_str(&body).unwrap();
    assert_eq!(parsed["address"], "3b64");
    // what JSON cannot hold as it is, is escaped
    let (_, body) = client.get_challenge("a\"b\\c\nd");
    assert_eq!(body, "{\"address\":\"a\\\"b\\\\c\\nd\"}");
    let parsed: serde_json::Value = serde_json::from_str(&body).unwrap();
    assert_eq!(parsed["address"], "a\"b\\c\nd");
}

#[test]
fn test_signed_requests() {
    let client = ReferralsClient::new("http://localhost/v0".to_string());
    let secret = hex::decode(SECRET).unwrap();
    let signed = sign_message("the \"challenge\"", &secret).unwrap();

    let (url, body) = client.get_referral_code(&secret, "the \"challenge\"").unwrap();
    assert_eq!(url, "http://localhost/v0/get_code");
    assert_eq!(
        body,
        format!(
            "{{\"challenge\":\"the \\\"challenge\\\"\",\"sig\":{{\"recoveryId\":{},\"signature\":\"{}\"}}}}",
            signed.recovery_id, signed.signature
        )
    );
    let parsed: serde_json::Value = serde_json::from_str(&body).unwrap();
    assert_eq!(parsed["challenge"], "the \"challenge\"");
    assert_eq!(parsed["sig"]["signature"], signed.signature.as_str());
    assert_eq!(parsed["sig"]["recoveryId"], signed.recovery_id);

    let code = "abcdefghij0123456789";
    let signed = sign_message(code, &secret).unwrap();
    let (url, body) = client.enter_referral_code(&secret, code).unwrap();
    assert_eq!(url, "http://localhost/v0/refer");
    let parsed: serde_json::Value = serde_json::from_str(&body).unwrap();
    assert_eq!(parsed["code"], code);
    assert_eq!(parsed["sig"]["signature"], signed.signature.as_str());
    assert_eq!(parsed["sig"]["recoveryId"], signed.recovery_id);

    assert!(client.get_referral_code(&vec![0u8; 32], "c").is_none());
    assert!(client.enter_referral_code(&Vec::new(), code).is_none());
}

#[test]
fn test_statuses() {
    for status in [400, 404, 499] {
        assert!(is_client_error(status));
        assert!(!is_success(status));
    }
    for status in [200, 201, 299] {
        assert!(is_success(status));
        assert!(!is_client_error(status));
    }
    for status in [0, 199, 300, 399, 500, 503] {
        assert!(!is_success(status));
        assert!(!is_client_error(status));
    }
}

#[test]
fn test_referral_code_and_uses() {
    assert!(validate_referral_code("abcdefghij0123456789"));
    assert!(!validate_referral_code("abcdefghij012345678"));
    assert!(!validate_referral_code("abcdefghij01234567890"));
    assert!(!validate_referral_code(""));
    assert!(validate_referral_code(&"é".repeat(10)));
    assert!(has_reached_max_uses(10, 10));
    assert!(has_reached_max_uses(11, 10));
    assert!(!has_reached_max_uses(9, 10));
    assert!(has_reached_max_uses(0, 0));
}

#[test]
fn test_tweet_url() {
    let text = "The edges are waking up.\n\nDria is building a decentralized AI network, and you can be part of it.\n\nRun a node, contribute to AI inference, and earn $DRIA Points along the way.\n\nUse my referral code CODE-1_2.3~ to get started: https://dria.co/join";
    assert_eq!(
        tweet_url("CODE-1_2.3~"),
        format!(
            "https://x.com/intent/tweet?text={}&related=driaforall",
            urlencoding::encode(text)
        )
    );
    assert!(tweet_url("x").starts_with(
        "https://x.com/intent/tweet?text=The%20edges%20are%20waking%20up.%0A%0ADria%20is"
    ));
    assert!(tweet_url("ü").contains("code%20%C3%BC%20to"));
}

#[test]
fn test_referral_commands() {
    let labels: Vec<&str> = ReferralCommands::all().iter().map(|c| c.label()).collect();
    assert_eq!(
        labels,
        vec![
            "Get referral code to refer someone",
            "Enter referral code to be referred",
            "List addresses referred by you",
            "Show the address that referred you",
        ]
    );
}

#[test]
fn test_parse_profile() {
    for profile in ["", "test", "my-profile_2", "Ünïcode", "١٢٣"] {
        assert_eq!(parse_profile(profile), Ok(profile.to_string()));
    }
    for profile in ["a b", "a.b", "a/b", "..", "a\n", "💥"] {
        assert_eq!(parse_profile(profile), Err(InvalidProfile));
    }
    assert_eq!(
        InvalidProfile.message(),
        "Profile name must contain only alphanumeric characters, '-', or '_'"
    );
    assert_eq!(profile_file_name(".env", "test"), ".env.test");
}

#[test]
fn test_commands() {
    assert!(Commands::Start.runs_compute_node());
    assert!(Commands::Start.checks_updates());
    let specific = Commands::Specific { run: true, tag: Some("0.3.6".to_string()) };
    assert!(specific.runs_compute_node());
    assert!(!specific.checks_updates());
    assert!(!Commands::Specific { run: false, tag: None }.runs_compute_node());
    for command in [
        Commands::Settings,
        Commands::Setup,
        Commands::Referrals,
        Commands::Points,
        Commands::Uninstall,
        Commands::Info,
        Commands::Update,
        Commands::EnvEditor,
    ] {
        assert!(!command.runs_compute_node());
        assert!(!command.checks_updates());
    }
}
