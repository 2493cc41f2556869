use led_control::boot::{boot_start, boot_step, BootAction, BootEvent, BootPhase};
use led_control::credentials::{
    credentials_fit, credentials_length_field, stored_credentials, WifiCredentials, CREDS_BUFFER_LEN,
};

#[test]
fn length_field_keeps_small_lengths() {
    assert_eq!(credentials_length_field(0), 0);
    assert_eq!(credentials_length_field(37), 37);
    assert_eq!(credentials_length_field(512), 512);
    assert_eq!(credentials_length_field(65535), 65535);
}

#[test]
fn length_field_wraps_at_16_bits() {
    assert_eq!(credentials_length_field(65536), 0);
    assert_eq!(credentials_length_field(70000), 4464);
}

#[test]
fn stored_credentials_takes_prefix() {
    let buf = [7u8, 8, 9, 0, 0];
    assert_eq!(stored_credentials(Some(2), &buf), vec![7, 8]);
    assert_eq!(stored_credentials(Some(5), &buf), vec![7, 8, 9, 0, 0]);
    assert_eq!(stored_credentials(Some(0), &buf), Vec::<u8>::new());
    assert_eq!(stored_credentials(None, &buf), Vec::<u8>::new());
}

#[test]
fn credentials_round_trip() {
    let json = br#"{"ssid":"home","password":"secret"}"#.to_vec();
    let len = credentials_length_field(json.len());
    let mut buf = [0u8; CREDS_BUFFER_LEN];
    buf[..json.len()].copy_from_slice(&json);
    assert_eq!(stored_credentials(Some(len), &buf), json);

    let full = vec![b'a'; CREDS_BUFFER_LEN];
    let len = credentials_length_field(full.len());
    let mut buf = [0u8; CREDS_BUFFER_LEN];
    buf.copy_from_slice(&full);
    assert_eq!(stored_credentials(Some(len), &buf), full);
}

fn creds(ssid: &str, password: &str) -> WifiCredentials {
    WifiCredentials { ssid: ssid.to_string(), password: password.to_string() }
}

#[test]
fn credentials_fit_limits() {
    assert!(credentials_fit(&creds("home", "secret")));
    assert!(credentials_fit(&creds(&"s".repeat(32), &"p".repeat(64))));
    assert!(!credentials_fit(&creds(&"s".repeat(33), "p")));
    assert!(!credentials_fit(&creds("s", &"p".repeat(65))));
    // Seven two-byte and seven three-byte characters take 35 bytes.
    assert!(!credentials_fit(&creds(&"é€".repeat(7), "p")));
    assert!(credentials_fit(&creds(&"€".repeat(10), "p")));
}

#[test]
fn boot_with_credentials_and_network() {
    let p = boot_start();
    assert_eq!(p, BootPhase::LoadingCredentials);
    let (p, a) = boot_step(p, BootEvent::CredentialsLoaded);
    assert_eq!((p, a), (BootPhase::ConnectingWifi, BootAction::ConnectWifi));
    let (p, a) = boot_step(p, BootEvent::WifiConnected);
    assert_eq!((p, a), (BootPhase::RestServer, BootAction::StartRestServer));
    let (p, a) = boot_step(p, BootEvent::WifiFailed);
    assert_eq!((p, a), (BootPhase::RestServer, BootAction::Idle));
}

#[test]
fn boot_without_credentials() {
    let (p, a) = boot_step(boot_start(), BootEvent::CredentialsUnavailable);
    assert_eq!((p, a), (BootPhase::SetupPortal, BootAction::StartSetupPortal));
    assert_eq!(boot_step(p, BootEvent::CredentialsLoaded), (BootPhase::SetupPortal, BootAction::Idle));
}

#[test]
fn boot_with_failed_connection() {
    let (p, _) = boot_step(boot_start(), BootEvent::CredentialsLoaded);
    let (p, a) = boot_step(p, BootEvent::WifiFailed);
    assert_eq!((p, a), (BootPhase::SetupPortal, BootAction::StartSetupPortal));
}

#[test]
fn boot_ignores_out_of_order_events() {
    assert_eq!(
        boot_step(BootPhase::LoadingCredentials, BootEvent::WifiConnected),
        (BootPhase::LoadingCredentials, BootAction::Idle)
    );
    assert_eq!(
        boot_step(BootPhase::ConnectingWifi, BootEvent::CredentialsLoaded),
        (BootPhase::ConnectingWifi, BootAction::Idle)
    );
}
