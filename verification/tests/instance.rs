use zk_regex::instance::{
    default_chains, derive_masked_instance, gen_masked_instance, mask_spans, InstanceError,
    SpanOverrun,
};
use zk_regex::narrowing::ChainFault;
use zk_regex::regex_circuit::{ADDRESS, MAX_STRING_LEN, SENDER_FIELD};

const MAIL: &str = "email  from: vital vitalik@gmail to: some some@outlook.com   etc.";

fn chains(lists: &[&[&str]]) -> Vec<Vec<String>> {
    lists.iter().map(|l| l.iter().map(|p| p.to_string()).collect()).collect()
}

fn expect(spans: &[(usize, &str, u64)]) -> (Vec<u64>, Vec<u64>) {
    let mut chars = vec![0u64; MAX_STRING_LEN];
    let mut ids = vec![0u64; MAX_STRING_LEN];
    for (offset, text, tag) in spans {
        for (k, b) in text.as_bytes().iter().enumerate() {
            chars[offset + k] = *b as u64;
            ids[offset + k] = *tag;
        }
    }
    (chars, ids)
}

#[test]
fn capacity_is_128() {
    assert_eq!(MAX_STRING_LEN, 128);
}

#[test]
fn sender_address_is_revealed() {
    let inst = gen_masked_instance(MAIL).unwrap();
    let (chars, ids) = expect(&[(19, "vitalik@gmail", 1)]);
    assert_eq!(inst.masked_chars(), &chars);
    assert_eq!(inst.substr_ids(), &ids);
    assert_eq!(inst.masked_chars()[19], 118);
    assert_eq!(inst.masked_chars()[26], 64);
    assert_eq!(inst.masked_chars()[31], 108);
    assert_eq!(inst.masked_chars()[18], 0);
    assert_eq!(inst.masked_chars()[32], 0);
    assert_eq!(inst.substr_ids()[18], 0);
    assert_eq!(inst.substr_ids()[19], 1);
    assert_eq!(inst.substr_ids()[31], 1);
    assert_eq!(inst.substr_ids()[32], 0);
}

#[test]
fn default_chain_is_the_sender_address_chain() {
    let list = default_chains();
    assert_eq!(list.len(), 1);
    assert_eq!(list[0].len(), 3);
    assert_eq!(list[0][0], "(?<=from:).*@.*(?=to)");
    assert!(list[0][1].starts_with("<?(a|b|c|"));
    assert!(list[0][1].ends_with("|_|\\.|-)+>?"));
    assert!(list[0][2].starts_with("(a|b|c|"));
    assert!(list[0][2].ends_with("|_|\\.|-)+"));
    assert_eq!(list[0][1], format!("<?{}>?", list[0][2]));
    let by_list = derive_masked_instance(MAIL, &list).unwrap();
    let by_default = gen_masked_instance(MAIL).unwrap();
    assert_eq!(by_list.masked_chars(), by_default.masked_chars());
    assert_eq!(by_list.substr_ids(), by_default.substr_ids());
}

#[test]
fn two_step_chain_reveals_the_same_address() {
    let list = chains(&[&["(?<=from:).*(?=to)", ADDRESS]]);
    let inst = derive_masked_instance(MAIL, &list).unwrap();
    let (chars, ids) = expect(&[(19, "vitalik@gmail", 1)]);
    assert_eq!(inst.masked_chars(), &chars);
    assert_eq!(inst.substr_ids(), &ids);
}

#[test]
fn arrays_always_have_full_length() {
    for text in ["", "a", MAIL, &"z".repeat(MAX_STRING_LEN)] {
        for list in [chains(&[]), chains(&[&["z+"]]), chains(&[&["a"], &["nothing"]])] {
            let inst = derive_masked_instance(text, &list).unwrap();
            assert_eq!(inst.masked_chars().len(), MAX_STRING_LEN);
            assert_eq!(inst.substr_ids().len(), MAX_STRING_LEN);
        }
    }
}

#[test]
fn char_is_zero_where_tag_is_zero() {
    let list = chains(&[&[SENDER_FIELD], &["some@\\w+"]]);
    let inst = derive_masked_instance(MAIL, &list).unwrap();
    for i in 0..MAX_STRING_LEN {
        assert_eq!(inst.masked_chars()[i] == 0, inst.substr_ids()[i] == 0, "position {}", i);
    }
}

#[test]
fn revealed_nul_byte_is_a_zero_char_with_a_tag() {
    let inst = derive_masked_instance("a\0b", &chains(&[&["a.b"]])).unwrap();
    assert_eq!(&inst.masked_chars()[..4], &[97, 0, 98, 0]);
    assert_eq!(&inst.substr_ids()[..4], &[1, 1, 1, 0]);
}

#[test]
fn each_chain_writes_its_own_number() {
    let list = chains(&[&["from"], &["nothing here"], &["etc"]]);
    let inst = derive_masked_instance(MAIL, &list).unwrap();
    let (chars, ids) = expect(&[(7, "from", 1), (61, "etc", 3)]);
    assert_eq!(inst.masked_chars(), &chars);
    assert_eq!(inst.substr_ids(), &ids);
}

#[test]
fn chain_without_match_contributes_nothing() {
    let inst = derive_masked_instance(MAIL, &chains(&[&["no such text"]])).unwrap();
    assert_eq!(inst.masked_chars(), &vec![0u64; MAX_STRING_LEN]);
    assert_eq!(inst.substr_ids(), &vec![0u64; MAX_STRING_LEN]);
    let inst = gen_masked_instance("nothing to see").unwrap();
    assert_eq!(inst.masked_chars(), &vec![0u64; MAX_STRING_LEN]);
    assert_eq!(inst.substr_ids(), &vec![0u64; MAX_STRING_LEN]);
}

#[test]
fn later_chain_overwrites_earlier_chain() {
    let inst = derive_masked_instance("abcdef", &chains(&[&["abcd"], &["cdef"]])).unwrap();
    assert_eq!(&inst.masked_chars()[..7], &[97, 98, 99, 100, 101, 102, 0]);
    assert_eq!(&inst.substr_ids()[..7], &[1, 1, 2, 2, 2, 2, 0]);
    let inst = derive_masked_instance("abcdef", &chains(&[&["cdef"], &["abcd"]])).unwrap();
    assert_eq!(&inst.substr_ids()[..7], &[2, 2, 2, 2, 1, 1, 0]);
}

#[test]
fn deriving_twice_gives_the_same_arrays() {
    let list = chains(&[&[SENDER_FIELD, ADDRESS], &["some@\\w+"]]);
    let a = derive_masked_instance(MAIL, &list).unwrap();
    let b = derive_masked_instance(MAIL, &list).unwrap();
    assert_eq!(a.masked_chars(), b.masked_chars());
    assert_eq!(a.substr_ids(), b.substr_ids());
    assert_eq!(
        derive_masked_instance(MAIL, &chains(&[&["(a"]])).err(),
        derive_masked_instance(MAIL, &chains(&[&["(a"]])).err()
    );
}

#[test]
fn empty_message_gives_blank_arrays() {
    for list in [chains(&[]), default_chains(), chains(&[&["x*"]])] {
        let inst = derive_masked_instance("", &list).unwrap();
        assert_eq!(inst.masked_chars(), &vec![0u64; MAX_STRING_LEN]);
        assert_eq!(inst.substr_ids(), &vec![0u64; MAX_STRING_LEN]);
    }
}

#[test]
fn match_may_end_at_the_last_byte_of_a_full_message() {
    let text = format!("{}end", "-".repeat(MAX_STRING_LEN - 3));
    assert_eq!(text.len(), MAX_STRING_LEN);
    let inst = derive_masked_instance(&text, &chains(&[&["end"]])).unwrap();
    let (chars, ids) = expect(&[(MAX_STRING_LEN - 3, "end", 1)]);
    assert_eq!(inst.masked_chars(), &chars);
    assert_eq!(inst.substr_ids(), &ids);
    assert_eq!(inst.masked_chars()[MAX_STRING_LEN - 1], 100);
    assert_eq!(inst.substr_ids()[MAX_STRING_LEN - 1], 1);
}

#[test]
fn whole_full_message_can_be_revealed() {
    let text = "q".repeat(MAX_STRING_LEN);
    let inst = derive_masked_instance(&text, &chains(&[&[]])).unwrap();
    assert_eq!(inst.masked_chars(), &vec![113u64; MAX_STRING_LEN]);
    assert_eq!(inst.substr_ids(), &vec![1u64; MAX_STRING_LEN]);
}

#[test]
fn message_that_is_too_long_is_refused() {
    let text = "q".repeat(MAX_STRING_LEN + 1);
    assert_eq!(
        derive_masked_instance(&text, &chains(&[&["q"]])).err(),
        Some(InstanceError::MessageTooLong { len: 129 })
    );
    assert_eq!(
        gen_masked_instance(&text).err(),
        Some(InstanceError::MessageTooLong { len: 129 })
    );
    // Length is counted in bytes: 64 two-byte letters fit, 65 do not.
    assert!(derive_masked_instance(&"é".repeat(64), &chains(&[])).is_ok());
    assert_eq!(
        derive_masked_instance(&"é".repeat(65), &chains(&[])).err(),
        Some(InstanceError::MessageTooLong { len: 130 })
    );
}

#[test]
fn length_is_checked_before_the_chains() {
    let text = "q".repeat(MAX_STRING_LEN + 1);
    assert_eq!(
        derive_masked_instance(&text, &chains(&[&["(q"]])).err(),
        Some(InstanceError::MessageTooLong { len: 129 })
    );
}

#[test]
fn chain_that_cannot_run_is_named() {
    let list = chains(&[&["a"], &["b", "(c"], &["(d"]]);
    assert_eq!(
        derive_masked_instance("abc", &list).err(),
        Some(InstanceError::Chain { chain: 1, fault: ChainFault::PatternRejected { link: 1 } })
    );
}

#[test]
fn bytes_of_a_wide_character_are_revealed_one_by_one() {
    let inst = derive_masked_instance("aéb", &chains(&[&["é"]])).unwrap();
    assert_eq!(&inst.masked_chars()[..5], &[0, 0xc3, 0xa9, 0, 0]);
    assert_eq!(&inst.substr_ids()[..5], &[0, 1, 1, 0, 0]);
}

#[test]
fn spans_are_written_in_order() {
    let found = vec![Some((2, "ab".to_string())), None, Some((3, "xyz".to_string()))];
    let inst = mask_spans(&found).unwrap();
    assert_eq!(&inst.masked_chars()[..7], &[0, 0, 97, 120, 121, 122, 0]);
    assert_eq!(&inst.substr_ids()[..7], &[0, 0, 1, 3, 3, 3, 0]);
    assert_eq!(inst.masked_chars().len(), MAX_STRING_LEN);
    assert_eq!(inst.substr_ids().len(), MAX_STRING_LEN);
}

#[test]
fn no_spans_give_blank_arrays() {
    let inst = mask_spans(&[]).unwrap();
    assert_eq!(inst.masked_chars(), &vec![0u64; MAX_STRING_LEN]);
    assert_eq!(inst.substr_ids(), &vec![0u64; MAX_STRING_LEN]);
    let inst = mask_spans(&[None, Some((5, String::new()))]).unwrap();
    assert_eq!(inst.masked_chars(), &vec![0u64; MAX_STRING_LEN]);
    assert_eq!(inst.substr_ids(), &vec![0u64; MAX_STRING_LEN]);
}

#[test]
fn span_may_touch_the_end_of_the_arrays() {
    let inst = mask_spans(&[Some((MAX_STRING_LEN - 2, "ok".to_string()))]).unwrap();
    assert_eq!(inst.masked_chars()[MAX_STRING_LEN - 2], 111);
    assert_eq!(inst.masked_chars()[MAX_STRING_LEN - 1], 107);
    assert_eq!(inst.substr_ids()[MAX_STRING_LEN - 1], 1);
    assert!(mask_spans(&[Some((MAX_STRING_LEN, String::new()))]).is_ok());
}

#[test]
fn span_past_the_end_is_refused() {
    let found = vec![
        Some((0, "a".to_string())),
        Some((MAX_STRING_LEN - 1, "no".to_string())),
        Some((MAX_STRING_LEN, "x".to_string())),
    ];
    assert_eq!(mask_spans(&found).err(), Some(SpanOverrun { chain: 1 }));
    assert_eq!(
        mask_spans(&[Some((usize::MAX, "x".to_string()))]).err(),
        Some(SpanOverrun { chain: 0 })
    );
    assert_eq!(
        mask_spans(&[Some((0, "x".repeat(MAX_STRING_LEN + 1)))]).err(),
        Some(SpanOverrun { chain: 0 })
    );
}

#[test]
fn chain_whose_search_is_given_up_is_named() {
    let text = format!("{}y", "x".repeat(60));
    let list = chains(&[&["x"], &["(x+x+)+(?=y)(?<=q)"]]);
    assert_eq!(
        derive_masked_instance(&text, &list).err(),
        Some(InstanceError::Chain { chain: 1, fault: ChainFault::SearchAborted { link: 0 } })
    );
}

#[test]
fn revealed_positions_show_the_bytes_of_the_witness() {
    let text = "aé from: né@x.y to: z";
    let witness = zk_regex::circuit::RegexCircuit::from_message(text);
    let list = chains(&[&["(?<=from:).*(?=to)", "\\S+@\\S+"], &["z"]]);
    let inst = derive_masked_instance(text, &list).unwrap();
    let mut revealed = 0;
    for i in 0..MAX_STRING_LEN {
        if inst.substr_ids()[i] != 0 {
            assert_eq!(inst.masked_chars()[i], witness.characters()[i] as u64);
            revealed += 1;
        } else {
            assert_eq!(inst.masked_chars()[i], 0);
        }
    }
    assert_eq!(revealed, "né@x.y".len() + 1);
}
