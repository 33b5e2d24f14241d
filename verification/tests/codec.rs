use nix::errno::Errno;
use nix::fcntl::{fcntl, FcntlArg};
use pipesys::codec::{
    check_delivery, decode_targets, encode_targets, Header, Packet, TransferMessage,
};
use pipesys::descriptor::{
    accept_duplicate, check_descriptors, duplicate_all, duplicate_fd, receive_one, MIN_FD,
};
use pipesys::error::{ConfigurationFault, ProtocolFault};
use pipesys::fetch::{receive, DescriptorMap};
use pipesys::wire::{decode_word, encode_word};

/// A descriptor that this process holds, outside the standard streams.
fn open_descriptor() -> i32 {
    for standard in 0..3 {
        if let Ok(copy) = fcntl(standard, FcntlArg::F_DUPFD(10)) {
            return copy;
        }
    }
    panic!("no standard stream is open");
}

fn is_open(descriptor: i32) -> bool {
    fcntl(descriptor, FcntlArg::F_GETFD).is_ok()
}

fn strings(items: &[&str]) -> Vec<String> {
    items.iter().map(|s| s.to_string()).collect()
}

#[test]
fn word_is_written_in_native_order() {
    let word = std::mem::size_of::<usize>();
    assert_eq!(encode_word(0), vec![0u8; word]);
    assert_eq!(encode_word(4660), 4660usize.to_ne_bytes().to_vec());
    assert_eq!(encode_word(usize::MAX), vec![255u8; word]);
    let bytes = encode_word(1);
    assert_eq!(bytes.len(), word);
    assert_eq!(bytes.iter().map(|b| *b as usize).sum::<usize>(), 1);
}

#[test]
fn word_is_read_back() {
    for value in [0usize, 1, 255, 256, 4660, 65_536, usize::MAX - 1, usize::MAX] {
        assert_eq!(decode_word(&encode_word(value)), Ok(value));
    }
    let mut bytes = vec![0u8; std::mem::size_of::<usize>()];
    bytes[0] = 2;
    assert_eq!(decode_word(&bytes), Ok(usize::from_ne_bytes(bytes.clone().try_into().unwrap())));
    assert_ne!(decode_word(&bytes), Ok(0));
}

#[test]
fn word_of_wrong_length_is_refused() {
    assert_eq!(decode_word(&[]), Err(ProtocolFault::WordLength { received: 0 }));
    assert_eq!(decode_word(&[1, 2, 3]), Err(ProtocolFault::WordLength { received: 3 }));
    let long = vec![0u8; std::mem::size_of::<usize>() + 1];
    assert_eq!(decode_word(&long), Err(ProtocolFault::WordLength { received: long.len() }));
}

#[test]
fn targets_are_serialized_as_bincode() {
    let payload = encode_targets(&strings(&["/a", "b"])).unwrap();
    let expected: Vec<u8> = vec![
        2, 0, 0, 0, 0, 0, 0, 0, // two paths
        2, 0, 0, 0, 0, 0, 0, 0, b'/', b'a', // the first
        1, 0, 0, 0, 0, 0, 0, 0, b'b', // the second
    ];
    assert_eq!(payload, expected);
    assert_eq!(encode_targets(&Vec::new()).unwrap(), vec![0u8; 8]);
    let paths = vec![std::path::PathBuf::from("/a"), std::path::PathBuf::from("b")];
    assert_eq!(payload, bincode::serialize(&paths).unwrap());
}

#[test]
fn targets_are_read_back_in_order() {
    let targets = strings(&["/etc/one", "two/three", "", "/é"]);
    let payload = encode_targets(&targets).unwrap();
    assert_eq!(decode_targets(&payload), Ok(targets));
}

#[test]
fn targets_are_written_as_their_bytes() {
    let payload = encode_targets(&strings(&["é", "", "a/ü"])).unwrap();
    let expected: Vec<u8> = vec![
        3, 0, 0, 0, 0, 0, 0, 0, // three paths
        2, 0, 0, 0, 0, 0, 0, 0, 0xc3, 0xa9, // two bytes for one character
        0, 0, 0, 0, 0, 0, 0, 0, // the empty path
        4, 0, 0, 0, 0, 0, 0, 0, b'a', b'/', 0xc3, 0xbc,
    ];
    assert_eq!(payload, expected);
    let long = "x".repeat(300);
    let payload = encode_targets(&vec![long.clone()]).unwrap();
    assert_eq!(&payload[..16], &[1, 0, 0, 0, 0, 0, 0, 0, 44, 1, 0, 0, 0, 0, 0, 0]);
    assert_eq!(&payload[16..], long.as_bytes());
}

#[test]
fn targets_are_read_whatever_follows_them() {
    let targets = strings(&["/a", "b"]);
    let mut payload = encode_targets(&targets).unwrap();
    payload.extend([0xff, 0, 7]);
    assert_eq!(decode_targets(&payload), Ok(targets));
    let mut empty = vec![0u8; 8];
    empty.push(1);
    assert_eq!(decode_targets(&empty), Ok(Vec::new()));
}

#[test]
fn malformed_targets_are_refused() {
    // more paths are announced than follow
    let mut short = encode_targets(&strings(&["/a", "b"])).unwrap();
    short[0] = 3;
    assert_eq!(decode_targets(&short), Err(ProtocolFault::MalformedTargets));
    // far more than any machine holds
    let mut huge = vec![0xffu8; 8];
    huge.extend([1, 0, 0, 0, 0, 0, 0, 0, b'a']);
    assert_eq!(decode_targets(&huge), Err(ProtocolFault::MalformedTargets));
    let huge_text = [1, 0, 0, 0, 0, 0, 0, 0, 0, 0, 0, 0, 0, 0, 0, 0x80, b'a'];
    assert_eq!(decode_targets(&huge_text), Err(ProtocolFault::MalformedTargets));
    // a path that ends within a character
    let cut = [1, 0, 0, 0, 0, 0, 0, 0, 1, 0, 0, 0, 0, 0, 0, 0, 0xc3, 0xa9];
    assert_eq!(decode_targets(&cut), Err(ProtocolFault::MalformedTargets));
    assert_eq!(decode_targets(&[]), Err(ProtocolFault::MalformedTargets));
    assert_eq!(decode_targets(&[1, 0, 0, 0]), Err(ProtocolFault::MalformedTargets));
    // one path is announced, of five bytes, and two follow
    let short = [1, 0, 0, 0, 0, 0, 0, 0, 5, 0, 0, 0, 0, 0, 0, 0, b'a', b'b'];
    assert_eq!(decode_targets(&short), Err(ProtocolFault::MalformedTargets));
    // the path is no text
    let binary = [1, 0, 0, 0, 0, 0, 0, 0, 1, 0, 0, 0, 0, 0, 0, 0, 0xff];
    assert_eq!(decode_targets(&binary), Err(ProtocolFault::MalformedTargets));
}

#[test]
fn delivery_is_held_against_the_header() {
    let header = Header { payload_len: 10, descriptor_count: 2 };
    assert_eq!(check_delivery(header, 10, false, 2), Ok(()));
    assert_eq!(
        check_delivery(header, 10, false, 1),
        Err(ProtocolFault::DescriptorCount { announced: 2, received: 1 })
    );
    assert_eq!(
        check_delivery(header, 10, false, 3),
        Err(ProtocolFault::DescriptorCount { announced: 2, received: 3 })
    );
    assert_eq!(
        check_delivery(header, 9, false, 2),
        Err(ProtocolFault::PayloadLength { announced: 10, received: 9 })
    );
    assert_eq!(check_delivery(header, 10, true, 2), Err(ProtocolFault::Truncated { announced: 10 }));
    // the number of descriptors is looked at first, then the length
    assert_eq!(
        check_delivery(header, 9, true, 0),
        Err(ProtocolFault::DescriptorCount { announced: 2, received: 0 })
    );
    assert_eq!(
        check_delivery(header, 9, true, 2),
        Err(ProtocolFault::PayloadLength { announced: 10, received: 9 })
    );
}

#[test]
fn message_announces_what_it_holds() {
    let message = TransferMessage::build(strings(&["/a", "b"]), vec![7, 9]).unwrap();
    assert_eq!(message.header(), Header { payload_len: 27, descriptor_count: 2 });
    assert_eq!(message.descriptors(), &[7, 9]);
    assert_eq!(message.target_paths(), &strings(&["/a", "b"])[..]);
    assert_eq!(message.payload().len(), 27);
    match message.packet(0) {
        Some(Packet::Word(bytes)) => assert_eq!(decode_word(&bytes), Ok(27)),
        other => panic!("{other:?}"),
    }
    match message.packet(1) {
        Some(Packet::Word(bytes)) => assert_eq!(decode_word(&bytes), Ok(2)),
        other => panic!("{other:?}"),
    }
    match message.packet(2) {
        Some(Packet::Bundle { payload, descriptors }) => {
            assert_eq!(payload, message.payload());
            assert_eq!(descriptors, &[7, 9]);
        }
        other => panic!("{other:?}"),
    }
    assert!(message.packet(3).is_none());
    assert!(message.packet(usize::MAX).is_none());
}

#[test]
fn message_needs_a_descriptor_for_each_target() {
    let fault = TransferMessage::build(strings(&["/a", "b"]), vec![7]).unwrap_err();
    assert_eq!(fault, ConfigurationFault::DescriptorCount { bindings: 2, descriptors: 1 });
    let fault = TransferMessage::build(Vec::new(), vec![7]).unwrap_err();
    assert_eq!(fault, ConfigurationFault::DescriptorCount { bindings: 0, descriptors: 1 });
    assert!(TransferMessage::build(Vec::new(), Vec::new()).is_ok());
}

#[test]
fn reserved_descriptors_are_found() {
    assert_eq!(MIN_FD, 3);
    assert_eq!(check_descriptors(&[]), Ok(()));
    assert_eq!(check_descriptors(&[3, 4, 100]), Ok(()));
    for reserved in [0, 1, 2, -1, i32::MIN] {
        assert_eq!(
            check_descriptors(&[5, reserved, 0]),
            Err(ProtocolFault::ReservedDescriptor { descriptor: reserved })
        );
    }
}

#[test]
fn duplicate_is_judged() {
    assert_eq!(accept_duplicate(5, Ok(7)), Ok(7));
    assert_eq!(accept_duplicate(5, Ok(3)), Ok(3));
    // what is handed back as it came is no copy
    assert_eq!(accept_duplicate(5, Ok(5)), Err(ProtocolFault::Unduplicable { descriptor: 5 }));
    assert_eq!(accept_duplicate(3, Ok(3)), Err(ProtocolFault::Unduplicable { descriptor: 3 }));
    assert_eq!(accept_duplicate(5, Ok(2)), Err(ProtocolFault::Unduplicable { descriptor: 5 }));
    assert_eq!(accept_duplicate(5, Ok(-1)), Err(ProtocolFault::Unduplicable { descriptor: 5 }));
    assert_eq!(
        accept_duplicate(5, Err(Errno::EBADF)),
        Err(ProtocolFault::Unduplicable { descriptor: 5 })
    );
}

#[test]
fn descriptor_is_duplicated_out_of_the_reserved_range() {
    let held = open_descriptor();
    let copy = duplicate_fd(held).unwrap();
    assert!(copy >= 3);
    assert_ne!(copy, held);
    assert!(is_open(copy));
    // a standard stream can be duplicated too, and its copy is none
    let copy = duplicate_fd(held).unwrap();
    assert!(copy >= 3);
    // the copy survives into a replaced program
    let flags = fcntl(copy, FcntlArg::F_GETFD).unwrap();
    assert_eq!(flags & 1, 0);
}

#[test]
fn closed_descriptor_is_not_duplicated() {
    let closed = 1_000_000;
    assert!(!is_open(closed));
    assert_eq!(duplicate_fd(closed), Err(ProtocolFault::Unduplicable { descriptor: closed }));
    let open = open_descriptor();
    assert_eq!(
        duplicate_all(&[open, closed, open]),
        Err(ProtocolFault::Unduplicable { descriptor: closed })
    );
    assert_eq!(duplicate_all(&[]), Ok(Vec::new()));
    let copies = duplicate_all(&[open, open]).unwrap();
    assert_eq!(copies.len(), 2);
    assert!(copies.iter().all(|copy| *copy >= 3 && *copy != open));
    assert_ne!(copies[0], copies[1]);
}

#[test]
fn single_descriptor_is_received() {
    let open = open_descriptor();
    let copy = receive_one(&[open]).unwrap();
    assert!(copy >= 3 && copy != open);
    assert_eq!(
        receive_one(&[]),
        Err(ProtocolFault::DescriptorCount { announced: 1, received: 0 })
    );
    assert_eq!(
        receive_one(&[open, open]),
        Err(ProtocolFault::DescriptorCount { announced: 1, received: 2 })
    );
    assert_eq!(receive_one(&[2]), Err(ProtocolFault::ReservedDescriptor { descriptor: 2 }));
    assert_eq!(
        receive_one(&[1_000_000]),
        Err(ProtocolFault::Unduplicable { descriptor: 1_000_000 })
    );
}

#[test]
fn map_pairs_targets_with_descriptors() {
    let map = DescriptorMap::pair(strings(&["/a", "b"]), vec![7, 3]).unwrap();
    assert_eq!(map.len(), 2);
    assert!(!map.is_empty());
    assert_eq!(map.entry(0), Some(("/a", 7)));
    assert_eq!(map.entry(1), Some(("b", 3)));
    assert_eq!(map.entry(2), None);
    assert!(DescriptorMap::pair(Vec::new(), Vec::new()).unwrap().is_empty());
    assert_eq!(
        DescriptorMap::pair(strings(&["/a", "b"]), vec![7]).unwrap_err(),
        ProtocolFault::TargetCount { targets: 2, descriptors: 1 }
    );
    assert_eq!(
        DescriptorMap::pair(strings(&["/a", "b"]), vec![7, 2]).unwrap_err(),
        ProtocolFault::ReservedDescriptor { descriptor: 2 }
    );
    assert_eq!(
        DescriptorMap::pair(strings(&["/a"]), vec![0]).unwrap_err(),
        ProtocolFault::ReservedDescriptor { descriptor: 0 }
    );
}

#[test]
fn exchange_keeps_targets_and_their_order() {
    let targets = strings(&["/var/lib/z", "a/b", "/m", "/var/lib/a"]);
    let sent = vec![4, 5, 6, 7];
    let message = TransferMessage::build(targets.clone(), sent).unwrap();
    let header = message.header();
    let open = open_descriptor();
    let arrived = vec![open; 4];
    let map = receive(header, message.payload(), false, &arrived).unwrap();
    assert_eq!(map.len(), targets.len());
    for (i, received) in arrived.iter().enumerate() {
        assert_ne!(map.entry(i).unwrap().1, *received);
    }
    let mut copies = Vec::new();
    for (i, target) in targets.iter().enumerate() {
        let (path, descriptor) = map.entry(i).unwrap();
        assert_eq!(path, target);
        assert!(descriptor >= 3);
        assert_ne!(descriptor, open);
        assert!(is_open(descriptor));
        copies.push(descriptor);
    }
    copies.sort();
    copies.dedup();
    assert_eq!(copies.len(), 4);
}

#[test]
fn empty_exchange_yields_an_empty_map() {
    let message = TransferMessage::build(Vec::new(), Vec::new()).unwrap();
    let map = receive(message.header(), message.payload(), false, &[]).unwrap();
    assert!(map.is_empty());
}

#[test]
fn receive_refuses_what_was_not_announced() {
    let message = TransferMessage::build(strings(&["/a", "b"]), vec![4, 5]).unwrap();
    let header = message.header();
    let payload = message.payload();
    let open = open_descriptor();
    assert_eq!(
        receive(header, payload, false, &[open]).unwrap_err(),
        ProtocolFault::DescriptorCount { announced: 2, received: 1 }
    );
    assert_eq!(
        receive(header, payload, false, &[open, open, open]).unwrap_err(),
        ProtocolFault::DescriptorCount { announced: 2, received: 3 }
    );
    assert_eq!(
        receive(header, &payload[..26], false, &[open, open]).unwrap_err(),
        ProtocolFault::PayloadLength { announced: 27, received: 26 }
    );
    let mut longer = payload.to_vec();
    longer.push(0);
    assert_eq!(
        receive(header, &longer, false, &[open, open]).unwrap_err(),
        ProtocolFault::PayloadLength { announced: 27, received: 28 }
    );
    assert_eq!(
        receive(header, payload, true, &[open, open]).unwrap_err(),
        ProtocolFault::Truncated { announced: 27 }
    );
}

#[test]
fn receive_refuses_a_payload_that_does_not_fit() {
    let open = open_descriptor();
    let garbage = [9u8; 5];
    let header = Header { payload_len: 5, descriptor_count: 1 };
    assert_eq!(
        receive(header, &garbage, false, &[open]).unwrap_err(),
        ProtocolFault::MalformedTargets
    );
    // two targets, one descriptor
    let payload = encode_targets(&strings(&["/a", "b"])).unwrap();
    let header = Header { payload_len: payload.len(), descriptor_count: 1 };
    assert_eq!(
        receive(header, &payload, false, &[open]).unwrap_err(),
        ProtocolFault::TargetCount { targets: 2, descriptors: 1 }
    );
}

#[test]
fn receive_never_yields_a_standard_stream() {
    let payload = encode_targets(&strings(&["/a", "b"])).unwrap();
    let header = Header { payload_len: payload.len(), descriptor_count: 2 };
    let open = open_descriptor();
    for reserved in [0, 1, 2, -1] {
        assert_eq!(
            receive(header, &payload, false, &[open, reserved]).unwrap_err(),
            ProtocolFault::ReservedDescriptor { descriptor: reserved }
        );
        assert_eq!(
            receive(header, &payload, false, &[reserved, open]).unwrap_err(),
            ProtocolFault::ReservedDescriptor { descriptor: reserved }
        );
    }
    // the lowest descriptor that is no standard stream is taken
    let three = fcntl(open, FcntlArg::F_DUPFD(3)).unwrap();
    let map = receive(header, &payload, false, &[three, open]).unwrap();
    assert!(map.entry(0).unwrap().1 >= 3);
    assert!(map.entry(1).unwrap().1 >= 3);
}

#[test]
fn receive_refuses_a_descriptor_that_is_not_open() {
    let payload = encode_targets(&strings(&["/a"])).unwrap();
    let header = Header { payload_len: payload.len(), descriptor_count: 1 };
    assert_eq!(
        receive(header, &payload, false, &[1_000_000]).unwrap_err(),
        ProtocolFault::Unduplicable { descriptor: 1_000_000 }
    );
}

#[test]
fn message_is_built_for_every_list_with_its_descriptors() {
    let lists: Vec<Vec<String>> = vec![
        Vec::new(),
        strings(&[""]),
        strings(&["/", "..", "a/../b", "\u{0}", "é/ü", " "]),
        vec!["x".repeat(70_000)],
        strings(&["same", "same", "same"]),
    ];
    for targets in lists {
        let descriptors: Vec<i32> = (0..targets.len() as i32).collect();
        let message = TransferMessage::build(targets.clone(), descriptors.clone()).unwrap();
        assert_eq!(message.target_paths(), &targets[..]);
        assert_eq!(message.descriptors(), &descriptors[..]);
        assert_eq!(decode_targets(message.payload()), Ok(targets.clone()));
        assert_eq!(encode_targets(&targets).unwrap(), message.payload());
    }
}
