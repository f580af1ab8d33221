use bw_ssh_agent::keychain::{
    decrypt_data, encrypt_data, ensure_keypair, KeychainCommand, KeychainResponse, KeychainThread,
    KeystoreEvent, WorkerStep, KEY_LABEL,
};

fn failed(text: &str) -> WorkerStep {
    WorkerStep::Respond(KeychainResponse::Failed(text.to_string()))
}

#[test]
fn worker_without_keys_refuses_data() {
    let mut worker = KeychainThread::new();
    assert!(!worker.has_key);
    assert!(!worker.has_pub_key);
    assert_eq!(
        worker.thread_loop(KeychainCommand::EncryptData(vec![1])),
        failed("No public key available")
    );
    assert_eq!(
        worker.thread_loop(KeychainCommand::DecryptData(vec![1])),
        failed("No private key available")
    );
    assert_eq!(worker, KeychainThread::new());
}

#[test]
fn ensure_keypair_finds_or_generates() {
    let mut worker = KeychainThread::new();
    assert_eq!(worker.thread_loop(KeychainCommand::EnsureKeypair), WorkerStep::FindKey);
    assert_eq!(worker.keystore_answered(KeystoreEvent::KeyMissing), WorkerStep::GenerateKey);
    assert_eq!(worker, KeychainThread::new());
    assert_eq!(
        worker.keystore_answered(KeystoreEvent::KeyGenerated),
        WorkerStep::Respond(KeychainResponse::Done)
    );
    assert_eq!(worker, KeychainThread { has_key: true, has_pub_key: true });

    let mut found = KeychainThread::new();
    assert_eq!(
        found.keystore_answered(KeystoreEvent::KeyFound { has_public_key: true }),
        WorkerStep::Respond(KeychainResponse::Done)
    );
    assert_eq!(found, KeychainThread { has_key: true, has_pub_key: true });

    let mut half = KeychainThread::new();
    half.keystore_answered(KeystoreEvent::KeyFound { has_public_key: false });
    assert_eq!(half, KeychainThread { has_key: true, has_pub_key: false });
    assert_eq!(
        half.thread_loop(KeychainCommand::EncryptData(vec![1])),
        failed("No public key available")
    );
    assert_eq!(
        half.thread_loop(KeychainCommand::DecryptData(vec![1, 2])),
        WorkerStep::Decrypt(vec![1, 2])
    );
}

#[test]
fn worker_with_keys_seals_and_opens() {
    let mut worker = KeychainThread { has_key: true, has_pub_key: true };
    assert_eq!(
        worker.thread_loop(KeychainCommand::EncryptData(vec![1, 2, 3])),
        WorkerStep::Encrypt(vec![1, 2, 3])
    );
    assert_eq!(
        worker.thread_loop(KeychainCommand::DecryptData(vec![4])),
        WorkerStep::Decrypt(vec![4])
    );
    assert_eq!(worker.encrypt_or_decrypt_data(true, vec![7]), WorkerStep::Encrypt(vec![7]));
    assert_eq!(worker.encrypt_or_decrypt_data(false, vec![8]), WorkerStep::Decrypt(vec![8]));
    assert_eq!(
        worker.keystore_answered(KeystoreEvent::Data(vec![9, 9])),
        WorkerStep::Respond(KeychainResponse::OkWithData(vec![9, 9]))
    );
    assert_eq!(
        worker.keystore_answered(KeystoreEvent::Failed("user denied".to_string())),
        failed("user denied")
    );
    assert_eq!(worker, KeychainThread { has_key: true, has_pub_key: true });
}

#[test]
fn terminate_drops_the_handles() {
    let mut worker = KeychainThread { has_key: true, has_pub_key: true };
    assert_eq!(worker.thread_loop(KeychainCommand::Terminate), WorkerStep::Stop);
    assert_eq!(worker, KeychainThread::new());
    assert_eq!(
        worker.thread_loop(KeychainCommand::DecryptData(vec![1])),
        failed("No private key available")
    );
}

#[test]
fn callers_read_only_the_response_they_asked_for() {
    assert_eq!(ensure_keypair(Some(KeychainResponse::Done)), Ok(()));
    assert_eq!(
        ensure_keypair(Some(KeychainResponse::Failed("denied".to_string()))),
        Err("denied".to_string())
    );
    assert_eq!(
        ensure_keypair(Some(KeychainResponse::OkWithData(vec![1]))),
        Err("Unexpected response".to_string())
    );
    assert_eq!(ensure_keypair(None), Err("Unexpected response".to_string()));

    assert_eq!(encrypt_data(Some(KeychainResponse::OkWithData(vec![1, 2]))), Ok(vec![1, 2]));
    assert_eq!(encrypt_data(Some(KeychainResponse::Done)), Err("Unexpected response".to_string()));
    assert_eq!(
        encrypt_data(Some(KeychainResponse::Failed("no".to_string()))),
        Err("no".to_string())
    );
    assert_eq!(encrypt_data(None), Err("Unexpected response".to_string()));

    assert_eq!(decrypt_data(Some(KeychainResponse::OkWithData(vec![3]))), Ok(vec![3]));
    assert_eq!(decrypt_data(Some(KeychainResponse::Done)), Err("Unexpected response".to_string()));
    assert_eq!(
        decrypt_data(Some(KeychainResponse::Failed("prompt cancelled".to_string()))),
        Err("prompt cancelled".to_string())
    );
    assert_eq!(decrypt_data(None), Err("Unexpected response".to_string()));
}

#[test]
fn key_label() {
    assert_eq!(KEY_LABEL, "desu.tei.bw-ssh-agent.main-key");
}
