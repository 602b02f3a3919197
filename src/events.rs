//! Transfer events: reading a transfer out of an event's attributes, and
//! deciding which query pass a transfer belongs to.

use vstd::prelude::*;

verus! {

/// Which side of a transfer a query pass searches for the address on.
#[derive(Clone, Copy, Debug, PartialEq, Eq, Structural)]
pub enum Pass {
    AsSender,
    AsRecipient,
}

/// One key/value attribute of an event.
#[derive(Clone, Debug)]
pub struct Attribute {
    pub key: String,
    pub value: String,
}

/// An event as a transaction result reports it.
#[derive(Clone, Debug)]
pub struct RawEvent {
    pub kind: String,
    pub attributes: Vec<Attribute>,
}

/// A transfer read out of a `transfer` event; an absent attribute leaves its field empty.
#[derive(Clone, Debug)]
pub struct Transfer {
    pub sender: String,
    pub recipient: String,
    pub amount: String,
}

pub struct TransferView {
    pub sender: Seq<char>,
    pub recipient: Seq<char>,
    pub amount: Seq<char>,
}

impl View for Transfer {
    type V = TransferView;

    open spec fn view(&self) -> TransferView {
        TransferView { sender: self.sender@, recipient: self.recipient@, amount: self.amount@ }
    }
}

pub struct AttributeView {
    pub key: Seq<char>,
    pub value: Seq<char>,
}

impl View for Attribute {
    type V = AttributeView;

    open spec fn view(&self) -> AttributeView {
        AttributeView { key: self.key@, value: self.value@ }
    }
}

pub struct EventView {
    pub kind: Seq<char>,
    pub attributes: Seq<AttributeView>,
}

impl View for RawEvent {
    type V = EventView;

    open spec fn view(&self) -> EventView {
        EventView { kind: self.kind@, attributes: self.attributes@.map_values(|a: Attribute| a@) }
    }
}

/// What an attribute contributes to a transfer.
#[derive(Clone, Copy, Debug, PartialEq, Eq, Structural)]
pub enum AttrKind {
    Sender,
    Recipient,
    Amount,
    Unknown,
}

pub open spec fn attr_kind_of(key: Seq<char>) -> AttrKind {
    if key == "sender"@ {
        AttrKind::Sender
    } else if key == "recipient"@ {
        AttrKind::Recipient
    } else if key == "amount"@ {
        AttrKind::Amount
    } else {
        AttrKind::Unknown
    }
}

/// The transfer that a run of attributes describes: for each of the three
/// keys the last value given for it, or the empty text where none is.
pub open spec fn transfer_of(attrs: Seq<AttributeView>) -> TransferView
    decreases attrs.len(),
{
    if attrs.len() == 0 {
        TransferView { sender: Seq::empty(), recipient: Seq::empty(), amount: Seq::empty() }
    } else {
        let t = transfer_of(attrs.drop_last());
        let a = attrs.last();
        match attr_kind_of(a.key) {
            AttrKind::Sender => TransferView { sender: a.value, ..t },
            AttrKind::Recipient => TransferView { recipient: a.value, ..t },
            AttrKind::Amount => TransferView { amount: a.value, ..t },
            AttrKind::Unknown => t,
        }
    }
}

/// The transfer candidate of an event: one for each event of kind `transfer`.
pub open spec fn candidate_of(e: EventView) -> Option<TransferView> {
    if e.kind == "transfer"@ {
        Some(transfer_of(e.attributes))
    } else {
        None
    }
}

/// A transfer is attributed to a pass when the address stands on that pass's side of it.
pub open spec fn attributable(pass: Pass, address: Seq<char>, t: TransferView) -> bool {
    match pass {
        Pass::AsSender => t.sender == address,
        Pass::AsRecipient => t.recipient == address,
    }
}

/// The transfers of an event list that a pass keeps, in event order.
pub open spec fn kept_of(pass: Pass, address: Seq<char>, events: Seq<EventView>) -> Seq<TransferView>
    decreases events.len(),
{
    if events.len() == 0 {
        Seq::empty()
    } else {
        let rest = kept_of(pass, address, events.drop_last());
        match candidate_of(events.last()) {
            Some(t) => if attributable(pass, address, t) { rest.push(t) } else { rest },
            None => rest,
        }
    }
}

/// Whether two texts are equal, character by character.
pub fn same_text(a: &str, b: &str) -> (r: bool)
    ensures
        r == (a@ == b@),
{
    let n = a.unicode_len();
    if n != b.unicode_len() {
        return false;
    }
    let mut i: usize = 0;
    while i < n
        invariant
            n == a@.len(),
            n == b@.len(),
            i <= n,
            a@.subrange(0, i as int) == b@.subrange(0, i as int),
        decreases n - i,
    {
        if a.get_char(i) != b.get_char(i) {
            return false;
        }
        assert(a@.subrange(0, i + 1) == a@.subrange(0, i as int).push(a@[i as int]));
        assert(b@.subrange(0, i + 1) == b@.subrange(0, i as int).push(b@[i as int]));
        i = i + 1;
    }
    assert(a@.subrange(0, n as int) == a@);
    assert(b@.subrange(0, n as int) == b@);
    true
}

impl Pass {
    /// The indexed event field that this pass queries on.
    pub fn query_key(&self) -> (r: &'static str)
        ensures
            r@ == match self {
                Pass::AsSender => "transfer.sender"@,
                Pass::AsRecipient => "transfer.recipient"@,
            },
    {
        match self {
            Pass::AsSender => "transfer.sender",
            Pass::AsRecipient => "transfer.recipient",
        }
    }
}

/// Tells an attribute key apart as one of the three transfer fields.
pub fn attr_kind(key: &str) -> (r: AttrKind)
    ensures
        r == attr_kind_of(key@),
{
    if same_text(key, "sender") {
        AttrKind::Sender
    } else if same_text(key, "recipient") {
        AttrKind::Recipient
    } else if same_text(key, "amount") {
        AttrKind::Amount
    } else {
        AttrKind::Unknown
    }
}

/// Reads the transfer candidate of one event.
pub fn transfer_candidate(e: &RawEvent) -> (r: Option<Transfer>)
    ensures
        r.is_some() == candidate_of(e@).is_some(),
        r.is_some() ==> r.unwrap()@ == candidate_of(e@).unwrap(),
{
    if !same_text(e.kind.as_str(), "transfer") {
        return None;
    }
    let ghost attrs = e@.attributes;
    let mut t = Transfer { sender: String::new(), recipient: String::new(), amount: String::new() };
    let mut i: usize = 0;
    while i < e.attributes.len()
        invariant
            i <= e.attributes@.len(),
            attrs == e@.attributes,
            t@ == transfer_of(attrs.subrange(0, i as int)),
        decreases e.attributes@.len() - i,
    {
        let a = &e.attributes[i];
        assert(attrs.subrange(0, i + 1).drop_last() == attrs.subrange(0, i as int));
        assert(attrs.subrange(0, i + 1).last() == a@);
        match attr_kind(a.key.as_str()) {
            AttrKind::Sender => {
                t.sender = a.value.clone();
            },
            AttrKind::Recipient => {
                t.recipient = a.value.clone();
            },
            AttrKind::Amount => {
                t.amount = a.value.clone();
            },
            AttrKind::Unknown => {},
        }
        i = i + 1;
    }
    assert(attrs.subrange(0, attrs.len() as int) == attrs);
    Some(t)
}

/// Whether a pass keeps a transfer: the sender pass keeps only transfers sent
/// by the address, the recipient pass only those received by it.
pub fn is_attributable(pass: Pass, address: &str, t: &Transfer) -> (r: bool)
    ensures
        r == attributable(pass, address@, t@),
{
    match pass {
        Pass::AsSender => same_text(t.sender.as_str(), address),
        Pass::AsRecipient => same_text(t.recipient.as_str(), address),
    }
}

/// The transfers of a transaction's events that a pass keeps, in event order.
pub fn kept_transfers(pass: Pass, address: &str, events: &Vec<RawEvent>) -> (r: Vec<Transfer>)
    ensures
        r@.map_values(|t: Transfer| t@) == kept_of(pass, address@, events@.map_values(|e: RawEvent| e@)),
{
    let ghost evs = events@.map_values(|e: RawEvent| e@);
    let mut out: Vec<Transfer> = Vec::new();
    let mut i: usize = 0;
    while i < events.len()
        invariant
            i <= events@.len(),
            evs == events@.map_values(|e: RawEvent| e@),
            out@.map_values(|t: Transfer| t@) == kept_of(pass, address@, evs.subrange(0, i as int)),
        decreases events@.len() - i,
    {
        assert(evs.subrange(0, i + 1).drop_last() == evs.subrange(0, i as int));
        assert(evs.subrange(0, i + 1).last() == events@[i as int]@);
        let ghost before = out@;
        match transfer_candidate(&events[i]) {
            Some(t) => {
                if is_attributable(pass, address, &t) {
                    out.push(t);
                    assert(out@.map_values(|t: Transfer| t@) == before.map_values(|t: Transfer| t@).push(t@));
                }
            },
            None => {},
        }
        i = i + 1;
    }
    assert(evs.subrange(0, evs.len() as int) == evs);
    out
}

/// The transfer candidates of an event list, one per `transfer` event, in event order.
pub open spec fn candidates_of(events: Seq<EventView>) -> Seq<TransferView>
    decreases events.len(),
{
    if events.len() == 0 {
        Seq::empty()
    } else {
        let rest = candidates_of(events.drop_last());
        match candidate_of(events.last()) {
            Some(t) => rest.push(t),
            None => rest,
        }
    }
}

/// The transfers of a run that are attributable to a pass, in order.
pub open spec fn attributed(pass: Pass, address: Seq<char>, ts: Seq<TransferView>) -> Seq<TransferView>
    decreases ts.len(),
{
    if ts.len() == 0 {
        Seq::empty()
    } else {
        let rest = attributed(pass, address, ts.drop_last());
        if attributable(pass, address, ts.last()) {
            rest.push(ts.last())
        } else {
            rest
        }
    }
}

/// No transfer is counted twice or by the wrong pass: of the transfer
/// candidates, one per event, each pass keeps exactly those attributable to
/// it, in event order; everything the sender pass keeps was sent by the
/// address, and everything the recipient pass keeps was received by it.
pub proof fn lemma_no_double_counting(address: Seq<char>, events: Seq<EventView>)
    ensures
        kept_of(Pass::AsSender, address, events) == attributed(Pass::AsSender, address, candidates_of(events)),
        kept_of(Pass::AsRecipient, address, events) == attributed(Pass::AsRecipient, address, candidates_of(events)),
        forall|i: int| 0 <= i < kept_of(Pass::AsSender, address, events).len()
            ==> (#[trigger] kept_of(Pass::AsSender, address, events)[i]).sender == address,
        forall|i: int| 0 <= i < kept_of(Pass::AsRecipient, address, events).len()
            ==> (#[trigger] kept_of(Pass::AsRecipient, address, events)[i]).recipient == address,
{
    lemma_kept_is_attributed(Pass::AsSender, address, events);
    lemma_kept_is_attributed(Pass::AsRecipient, address, events);
}

proof fn lemma_kept_is_attributed(pass: Pass, address: Seq<char>, events: Seq<EventView>)
    ensures
        kept_of(pass, address, events) == attributed(pass, address, candidates_of(events)),
        forall|i: int| 0 <= i < kept_of(pass, address, events).len()
            ==> attributable(pass, address, #[trigger] kept_of(pass, address, events)[i]),
    decreases events.len(),
{
    if events.len() > 0 {
        let rest = events.drop_last();
        lemma_kept_is_attributed(pass, address, rest);
        let c = candidates_of(events);
        match candidate_of(events.last()) {
            Some(t) => {
                assert(c.drop_last() == candidates_of(rest));
                assert(c.last() == t);
            },
            None => {},
        }
        let k = kept_of(pass, address, events);
        let kr = kept_of(pass, address, rest);
        assert forall|i: int| 0 <= i < k.len() implies attributable(pass, address, #[trigger] k[i]) by {
            if i < kr.len() {
                assert(k[i] == kr[i]);
            }
        }
    }
}

} // verus!
