use snarkify_prover::provision::{check_download, is_success_status, plan_provision, ProvisionError, ProvisionStep};

#[test]
fn missing_file_is_fetched() {
    assert_eq!(plan_provision(false), ProvisionStep::Fetch);
}

#[test]
fn present_file_is_left_alone() {
    assert_eq!(plan_provision(true), ProvisionStep::Skip);
}

#[test]
fn second_call_fetches_nothing() {
    let mut file: Option<Vec<u8>> = None;
    let mut fetches = 0;
    for remote in [vec![1u8, 2, 3], vec![9u8]] {
        if plan_provision(file.is_some()) == ProvisionStep::Fetch {
            fetches += 1;
            file = Some(remote);
        }
    }
    assert_eq!(fetches, 1);
    assert_eq!(file, Some(vec![1u8, 2, 3]));
}

#[test]
fn success_statuses() {
    assert!(is_success_status(200));
    assert!(is_success_status(204));
    assert!(is_success_status(299));
    assert!(!is_success_status(199));
    assert!(!is_success_status(300));
    assert!(!is_success_status(404));
}

#[test]
fn download_outcomes() {
    assert_eq!(check_download(Some(200)), Ok(()));
    assert_eq!(check_download(Some(404)), Err(ProvisionError::Status(404)));
    assert_eq!(check_download(None), Err(ProvisionError::Network));
}
