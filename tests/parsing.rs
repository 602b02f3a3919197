use address_ledger::amount::{apply_amount, apply_transfers, format_net, parse_amount, AmountParse, LedgerError};
use address_ledger::decimal::{int_string, nat_string, parse_magnitude};
use address_ledger::events::{
    attr_kind, is_attributable, kept_transfers, transfer_candidate, AttrKind, Attribute, Pass, RawEvent, Transfer,
};

fn attr(k: &str, v: &str) -> Attribute {
    Attribute { key: k.to_string(), value: v.to_string() }
}

fn transfer_event(sender: &str, recipient: &str, amount: &str) -> RawEvent {
    RawEvent {
        kind: "transfer".to_string(),
        attributes: vec![attr("recipient", recipient), attr("sender", sender), attr("amount", amount)],
    }
}

fn transfer(sender: &str, recipient: &str, amount: &str) -> Transfer {
    Transfer { sender: sender.to_string(), recipient: recipient.to_string(), amount: amount.to_string() }
}

#[test]
fn magnitude_reads_digits_only() {
    assert_eq!(parse_magnitude("0"), Some(0));
    assert_eq!(parse_magnitude("1000"), Some(1000));
    assert_eq!(parse_magnitude("18446744073709551615"), Some(u64::MAX));
    assert_eq!(parse_magnitude("18446744073709551616"), None);
    assert_eq!(parse_magnitude(""), None);
    assert_eq!(parse_magnitude("12a"), None);
    assert_eq!(parse_magnitude("-5"), None);
    assert_eq!(parse_magnitude("+5"), None);
}

#[test]
fn integers_are_written_in_decimal() {
    assert_eq!(nat_string(0), "0");
    assert_eq!(nat_string(907), "907");
    assert_eq!(int_string(-40), "-40");
    assert_eq!(int_string(65), "65");
    assert_eq!(int_string(i128::MIN), "-170141183460469231731687303715884105728");
}

#[test]
fn attribute_keys_are_told_apart() {
    assert_eq!(attr_kind("sender"), AttrKind::Sender);
    assert_eq!(attr_kind("recipient"), AttrKind::Recipient);
    assert_eq!(attr_kind("amount"), AttrKind::Amount);
    assert_eq!(attr_kind("msg_index"), AttrKind::Unknown);
    assert_eq!(attr_kind("Sender"), AttrKind::Unknown);
}

#[test]
fn candidate_takes_the_three_fields() {
    let mut e = transfer_event("alice", "bob", "7denom");
    e.attributes.push(attr("msg_index", "0"));
    let t = transfer_candidate(&e).unwrap();
    assert_eq!(t.sender, "alice");
    assert_eq!(t.recipient, "bob");
    assert_eq!(t.amount, "7denom");
}

#[test]
fn candidate_leaves_missing_fields_empty() {
    let e = RawEvent { kind: "transfer".to_string(), attributes: vec![attr("sender", "alice")] };
    let t = transfer_candidate(&e).unwrap();
    assert_eq!(t.sender, "alice");
    assert_eq!(t.recipient, "");
    assert_eq!(t.amount, "");
}

#[test]
fn other_event_kinds_give_no_candidate() {
    let e = RawEvent { kind: "message".to_string(), attributes: vec![attr("sender", "alice")] };
    assert!(transfer_candidate(&e).is_none());
}

#[test]
fn attribution_follows_the_pass() {
    let t = transfer("alice", "bob", "1denom");
    assert!(is_attributable(Pass::AsSender, "alice", &t));
    assert!(!is_attributable(Pass::AsRecipient, "alice", &t));
    assert!(is_attributable(Pass::AsRecipient, "bob", &t));
    assert!(!is_attributable(Pass::AsSender, "bob", &t));
}

#[test]
fn no_double_counting_across_passes() {
    // The address sends in one event and receives in another of the same transaction.
    let events = vec![
        transfer_event("me", "shop", "40denom"),
        RawEvent { kind: "message".to_string(), attributes: vec![attr("sender", "me")] },
        transfer_event("bank", "me", "100denom"),
        transfer_event("bank", "shop", "3denom"),
    ];
    let sent = kept_transfers(Pass::AsSender, "me", &events);
    assert_eq!(sent.len(), 1);
    assert_eq!(sent[0].recipient, "shop");
    assert_eq!(sent[0].amount, "40denom");
    let received = kept_transfers(Pass::AsRecipient, "me", &events);
    assert_eq!(received.len(), 1);
    assert_eq!(received[0].sender, "bank");
    assert_eq!(received[0].amount, "100denom");
}

#[test]
fn amounts_read_against_the_denom() {
    assert_eq!(parse_amount("1000uatom", "uatom"), AmountParse::Magnitude(1000));
    assert_eq!(parse_amount("100uatom", "denom"), AmountParse::DenomMismatch);
    assert_eq!(parse_amount("100denomx", "denom"), AmountParse::DenomMismatch);
    // a longer unit that merely ends with the denom is another denom
    assert_eq!(parse_amount("100otherdenom", "denom"), AmountParse::DenomMismatch);
    assert_eq!(parse_amount("abcdenom", "denom"), AmountParse::DenomMismatch);
    // in the denom, what precedes it must be a whole number
    assert_eq!(parse_amount("+5denom", "denom"), AmountParse::BadMagnitude);
    assert_eq!(parse_amount("-5denom", "denom"), AmountParse::BadMagnitude);
    assert_eq!(parse_amount("", "denom"), AmountParse::DenomMismatch);
    assert_eq!(parse_amount("denom", "denom"), AmountParse::BadMagnitude);
    assert_eq!(parse_amount("99999999999999999999denom", "denom"), AmountParse::BadMagnitude);
    assert_eq!(parse_amount("1.5denom", "denom"), AmountParse::BadMagnitude);
    assert_eq!(parse_amount("100ibc/27A", "ibc/27A"), AmountParse::Magnitude(100));
    assert_eq!(parse_amount("1002x", "2x"), AmountParse::Magnitude(100));
    assert_eq!(parse_amount("7", ""), AmountParse::Magnitude(7));
}

#[test]
fn net_amount_adds_received_and_subtracts_sent() {
    let mut net = 0i128;
    net = apply_amount(net, Pass::AsRecipient, "100denom", "denom").unwrap();
    net = apply_amount(net, Pass::AsSender, "40denom", "denom").unwrap();
    net = apply_amount(net, Pass::AsRecipient, "5denom", "denom").unwrap();
    assert_eq!(net, 65);
    assert_eq!(format_net(net, "denom"), "65denom");
}

#[test]
fn denom_mismatch_is_skipped() {
    let ts = vec![
        transfer("a", "me", "100otherdenom"),
        transfer("b", "me", "5denom"),
        transfer("c", "me", ""),
        transfer("d", "me", "2uatom"),
    ];
    let mut skipped = Vec::new();
    assert_eq!(apply_transfers(0, Pass::AsRecipient, &ts, "denom", &mut skipped), Ok(5));
    assert_eq!(skipped, vec!["100otherdenom".to_string(), String::new(), "2uatom".to_string()]);
}

#[test]
fn bad_magnitude_stops_the_fold() {
    let ts = vec![transfer("a", "me", "5denom"), transfer("b", "me", "denom"), transfer("c", "me", "otherdenom1")];
    let mut skipped = Vec::new();
    assert_eq!(apply_transfers(0, Pass::AsRecipient, &ts, "denom", &mut skipped), Err(LedgerError::InvalidMagnitude));
    assert_eq!(
        apply_amount(0, Pass::AsRecipient, "1.5denom", "denom"),
        Err(LedgerError::InvalidMagnitude)
    );
}

#[test]
fn net_overflow_is_reported() {
    assert_eq!(apply_amount(i128::MIN, Pass::AsSender, "1denom", "denom"), Err(LedgerError::NetOverflow));
    assert_eq!(apply_amount(i128::MAX, Pass::AsRecipient, "1denom", "denom"), Err(LedgerError::NetOverflow));
    assert_eq!(apply_amount(i128::MAX, Pass::AsSender, "1denom", "denom"), Ok(i128::MAX - 1));
}

#[test]
fn negative_net_keeps_its_sign() {
    assert_eq!(format_net(-40, "uatom"), "-40uatom");
    assert_eq!(format_net(0, "denom"), "0denom");
}
