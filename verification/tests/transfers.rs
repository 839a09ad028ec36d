use darkrelay::protocol::messages::TransferStatus;
use darkrelay::server::dm_manager::DMManager;
use darkrelay::server::file_transfer::{same_bytes, FileTransferManager};
use darkrelay::time::Timestamp;

fn at(secs: i64) -> Timestamp {
    Timestamp::new(secs, 0)
}

#[test]
fn test_dm_storage_and_retrieval() {
    let mut dm_manager = DMManager::new();
    let sender_id = 1u64;
    let recipient_id = 2u64;
    let content = vec![1u8, 2u8, 3u8];
    let nonce = vec![4u8, 5u8, 6u8];

    let (dm_id, _timestamp) =
        dm_manager.store_dm(sender_id, recipient_id, content.clone(), nonce.clone());

    assert!(dm_id > 0);

    let history = dm_manager.get_history_for_user(sender_id, recipient_id, 10);
    assert_eq!(history.len(), 1);
    assert_eq!(history[0].sender_id, sender_id);
    assert_eq!(history[0].recipient_id, recipient_id);
    assert_eq!(history[0].content, content);
    assert_eq!(history[0].nonce, nonce);
    assert!(!history[0].is_read);
}

#[test]
fn test_dm_mark_as_read() {
    let mut dm_manager = DMManager::new();
    let sender_id = 1u64;
    let recipient_id = 2u64;
    let content = vec![1u8, 2u8, 3u8];
    let nonce = vec![4u8, 5u8, 6u8];

    let (dm_id, _) = dm_manager.store_dm(sender_id, recipient_id, content, nonce);
    let marked = dm_manager.mark_dm_as_read(dm_id, recipient_id);

    assert!(marked);

    let history = dm_manager.get_history_for_user(sender_id, recipient_id, 10);
    assert_eq!(history.len(), 1);
    assert!(history[0].is_read);
}

#[test]
fn test_create_and_get_transfer() {
    let mut manager = FileTransferManager::new();
    let sender_id = 1;
    let recipient_id = 2;
    let file_name = "test.txt".to_string();
    let file_size = 1024;
    let file_hash = vec![1u8, 2u8, 3u8];

    let transfer_id = manager.create_transfer(
        sender_id,
        recipient_id,
        file_name.clone(),
        file_size,
        file_hash.clone(),
    );

    assert!(transfer_id > 0);

    if let Some(transfer) = manager.get_transfer(transfer_id) {
        assert_eq!(transfer.sender_id, sender_id);
        assert_eq!(transfer.recipient_id, recipient_id);
        assert_eq!(transfer.file_name, file_name);
        assert_eq!(transfer.file_size, file_size);
        assert_eq!(transfer.file_hash, file_hash);
        assert!(matches!(transfer.status, TransferStatus::Pending));
    } else {
        panic!("Transfer not found");
    }
}

#[test]
fn test_accept_transfer() {
    let mut manager = FileTransferManager::new();
    let transfer_id = manager.create_transfer(1, 2, "test.txt".to_string(), 1024, vec![]);

    assert!(manager.accept_transfer(transfer_id));

    if let Some(transfer) = manager.get_transfer(transfer_id) {
        assert!(matches!(transfer.status, TransferStatus::InProgress));
        assert!(transfer.accepted_at.is_some());
    }
}

#[test]
fn direct_messages_are_numbered_and_stamped() {
    let mut dms = DMManager::new();
    assert_eq!(dms.store_dm_at(1, 2, vec![1], vec![9], at(10)), (1, at(10)));
    assert_eq!(dms.store_dm_at(2, 1, vec![2], vec![9], at(11)), (2, at(11)));
    assert_eq!(dms.store_dm_at(3, 1, vec![3], vec![9], at(12)), (3, at(12)));
    let history = dms.get_history_for_user(1, 2, 10);
    let ids: Vec<u64> = history.iter().map(|d| d.dm_id).collect();
    assert_eq!(ids, vec![2, 1]);
    assert_eq!(history[0].timestamp, at(11));
    assert_eq!(dms.get_history_for_user(2, 1, 1).len(), 1);
    assert_eq!(dms.get_history_for_user(2, 1, 1)[0].dm_id, 2);
    assert_eq!(dms.get_history_for_user(1, 3, 10).len(), 1);
    assert!(dms.get_history_for_user(2, 3, 10).is_empty());
    assert!(dms.get_history_for_user(1, 2, 0).is_empty());
    assert!(dms.has_room());
}

#[test]
fn a_pair_keeps_its_newest_hundred() {
    let mut dms = DMManager::new();
    for i in 0..105u8 {
        dms.store_dm_at(1, 2, vec![i], Vec::new(), at(i as i64));
    }
    let history = dms.get_history_for_user(1, 2, 1000);
    assert_eq!(history.len(), 100);
    assert_eq!(history[0].dm_id, 105);
    assert_eq!(history[99].dm_id, 6);
}

#[test]
fn undelivered_messages_wait_for_their_recipient() {
    let mut dms = DMManager::new();
    dms.store_dm_at(1, 2, vec![1], Vec::new(), at(1));
    dms.store_dm_at(2, 1, vec![2], Vec::new(), at(2));
    dms.store_dm_at(3, 2, vec![3], Vec::new(), at(3));
    dms.store_dm_at(1, 2, vec![4], Vec::new(), at(4));
    let ids = |list: Vec<darkrelay::protocol::messages::StoredDM>| -> Vec<u64> {
        list.iter().map(|d| d.dm_id).collect()
    };
    assert_eq!(ids(dms.get_undelivered_dms(2)), vec![1, 4, 3]);
    assert_eq!(ids(dms.get_undelivered_dms(1)), vec![2]);
    // Only the recipient can mark a message as read.
    assert!(!dms.mark_dm_as_read(1, 1));
    assert!(!dms.mark_dm_as_read(77, 2));
    assert!(dms.mark_dm_as_read(1, 2));
    assert_eq!(ids(dms.get_undelivered_dms(2)), vec![4, 3]);
}

#[test]
fn transfers_move_through_their_states() {
    let mut manager = FileTransferManager::new();
    let id = manager.create_transfer_at(1, 2, "a.bin".to_string(), 10, vec![7], 100);
    assert_eq!(id, 1);
    let other = manager.create_transfer_at(3, 2, "b.bin".to_string(), 0, vec![], 100);
    assert_eq!(other, 2);
    assert_eq!(manager.get_pending_transfers_for_user(2).len(), 2);
    assert!(manager.get_pending_transfers_for_user(1).is_empty());
    assert!(manager.update_transfer_status_at(id, TransferStatus::InProgress, 110));
    let t = manager.get_transfer(id).unwrap();
    assert_eq!((t.status, t.accepted_at, t.completed_at), (TransferStatus::InProgress, Some(110), None));
    assert_eq!(manager.get_pending_transfers_for_user(2).len(), 1);
    assert!(manager.update_transfer_status_at(id, TransferStatus::Completed, 120));
    let t = manager.get_transfer(id).unwrap();
    assert_eq!((t.status, t.accepted_at, t.completed_at), (TransferStatus::Completed, Some(110), Some(120)));
    assert!(!manager.update_transfer_status_at(9, TransferStatus::Failed, 120));
    assert!(!manager.accept_transfer(9));
    assert!(manager.decline_transfer(other));
    assert_eq!(manager.get_transfer(other).unwrap().status, TransferStatus::Declined);
    assert!(manager.fail_transfer(other));
    assert!(manager.cancel_transfer(other));
    assert_eq!(manager.get_transfer(other).unwrap().status, TransferStatus::Failed);
    assert!(manager.complete_transfer(other));
    assert!(manager.get_transfer(3).is_none());
    assert!(manager.has_room());
}

#[test]
fn progress_counts_received_bytes() {
    let mut manager = FileTransferManager::new();
    let id = manager.create_transfer_at(1, 2, "a.bin".to_string(), 10, vec![], 100);
    assert_eq!(manager.get_progress(id), Some((TransferStatus::Pending, 0)));
    assert!(manager.add_chunk_at(id, 0, vec![0; 3], vec![1], 101));
    assert_eq!(manager.get_progress(id), Some((TransferStatus::Pending, 30)));
    assert!(manager.add_chunk(id, 1, vec![0; 4], vec![2]));
    assert_eq!(manager.get_progress(id), Some((TransferStatus::Pending, 70)));
    assert!(manager.add_chunk_at(id, 2, vec![0; 30], vec![3], 102));
    assert_eq!(manager.get_progress(id), Some((TransferStatus::Pending, 100)));
    assert!(!manager.add_chunk_at(9, 0, vec![], vec![], 103));
    assert_eq!(manager.get_progress(9), None);
    let empty = manager.create_transfer_at(1, 2, "e".to_string(), 0, vec![], 100);
    manager.add_chunk_at(empty, 0, vec![1], vec![], 101);
    assert_eq!(manager.get_progress(empty), Some((TransferStatus::Pending, 0)));
    let odd = manager.create_transfer_at(1, 2, "o".to_string(), 3, vec![], 100);
    manager.add_chunk_at(odd, 0, vec![1], vec![], 101);
    assert_eq!(manager.get_progress(odd), Some((TransferStatus::Pending, 33)));
}

#[test]
fn expired_transfers_are_removed() {
    let mut manager = FileTransferManager::new();
    let pending = manager.create_transfer_at(1, 2, "p".to_string(), 1, vec![], 1000);
    let running = manager.create_transfer_at(1, 2, "r".to_string(), 1, vec![], 1000);
    let done = manager.create_transfer_at(1, 2, "d".to_string(), 1, vec![], 1000);
    manager.update_transfer_status_at(running, TransferStatus::InProgress, 1200);
    manager.update_transfer_status_at(done, TransferStatus::Completed, 1200);
    manager.cleanup_expired_transfers_at(1300);
    assert!(manager.get_transfer(pending).is_some());
    manager.cleanup_expired_transfers_at(1301);
    assert!(manager.get_transfer(pending).is_none());
    assert!(manager.get_transfer(running).is_some());
    manager.cleanup_expired_transfers_at(1501);
    assert!(manager.get_transfer(running).is_none());
    assert!(manager.get_transfer(done).is_some());
    manager.cleanup_expired_transfers_at(4800);
    assert!(manager.get_transfer(done).is_some());
    manager.cleanup_expired_transfers_at(4801);
    assert!(manager.get_transfer(done).is_none());
    // A clock that went back removes nothing.
    let fresh = manager.create_transfer_at(1, 2, "f".to_string(), 1, vec![], 9000);
    manager.cleanup_expired_transfers_at(10);
    assert!(manager.get_transfer(fresh).is_some());
    manager.cleanup_expired_transfers();
    assert!(manager.get_transfer(fresh).is_none());
    assert_eq!(manager.create_transfer_at(1, 2, "n".to_string(), 1, vec![], 1), 5);
    manager.clear_all_transfers();
    assert!(manager.get_transfer(5).is_none());
}

#[test]
fn chunk_hashes_are_compared() {
    let mut manager = FileTransferManager::new();
    let id = manager.create_transfer_at(1, 2, "a".to_string(), 4, vec![], 1);
    manager.add_chunk_at(id, 0, vec![1], vec![0xaa], 1);
    manager.add_chunk_at(id, 1, vec![2], vec![0xbb], 1);
    manager.add_chunk_at(id, 1, vec![3], vec![0xcc], 1);
    assert!(manager.verify_chunk_hash(id, 0, &[0xaa]));
    assert!(manager.verify_chunk_hash(id, 1, &[0xbb]));
    assert!(!manager.verify_chunk_hash(id, 1, &[0xcc]));
    assert!(!manager.verify_chunk_hash(id, 2, &[]));
    assert!(!manager.verify_chunk_hash(9, 0, &[0xaa]));
    assert!(same_bytes(&[1, 2], &[1, 2]));
    assert!(!same_bytes(&[1, 2], &[1, 3]));
    assert!(!same_bytes(&[1, 2], &[1]));
}

#[test]
fn file_integrity_is_the_digest_of_the_chunks_in_order() {
    // SHA-256 of "abc".
    let digest_abc = vec![
        0xba, 0x78, 0x16, 0xbf, 0x8f, 0x01, 0xcf, 0xea, 0x41, 0x41, 0x40, 0xde, 0x5d, 0xae, 0x22,
        0x23, 0xb0, 0x03, 0x61, 0xa3, 0x96, 0x17, 0x7a, 0x9c, 0xb4, 0x10, 0xff, 0x61, 0xf2, 0x00,
        0x15, 0xad,
    ];
    let mut manager = FileTransferManager::new();
    let id = manager.create_transfer_at(1, 2, "abc".to_string(), 3, digest_abc.clone(), 1);
    assert!(!manager.verify_file_integrity(id));
    // The chunks arrive out of order.
    manager.add_chunk_at(id, 2, b"c".to_vec(), vec![], 1);
    manager.add_chunk_at(id, 0, b"a".to_vec(), vec![], 1);
    assert!(!manager.verify_file_integrity(id));
    manager.add_chunk_at(id, 1, b"b".to_vec(), vec![], 1);
    assert!(manager.verify_file_integrity(id));
    assert!(!manager.verify_file_integrity(9));
    // Chunks with the same index keep their order of arrival.
    let twice = manager.create_transfer_at(1, 2, "abc".to_string(), 3, digest_abc, 1);
    manager.add_chunk_at(twice, 5, b"b".to_vec(), vec![], 1);
    manager.add_chunk_at(twice, 5, b"c".to_vec(), vec![], 1);
    manager.add_chunk_at(twice, 1, b"a".to_vec(), vec![], 1);
    assert!(manager.verify_file_integrity(twice));
    let empty = manager.create_transfer_at(1, 2, "none".to_string(), 0, vec![], 1);
    assert!(!manager.verify_file_integrity(empty));
}
