use crate::entry::{
    Entry, EntryView, Value, EMAIL_TAG_NAME, NAME_TAG_NAME, PHONE_NUMBER_TAG_NAME,
};
use crate::text::opt_string;
use crate::tree::{entries_of, entries_step, node_entries, Group, Node};
use vstd::prelude::*;
use vstd::string::StringExecFns;

verus! {

/// The line of the e-mail address, where the entry has one that is not protected.
pub open spec fn email_line(email: Option<Seq<char>>) -> Seq<char> {
    match email {
        Some(address) => "EMAIL:"@ + address + "\n"@,
        None => Seq::empty(),
    }
}

/// The card of an entry. An entry gets a card only if it has a display name and a phone
/// number, neither of them protected: nothing that is protected is ever written into a
/// card. The card names the entry by its identifier, and ends with an empty line.
pub open spec fn card_of(e: EntryView) -> Option<Seq<char>> {
    match (e.plain(NAME_TAG_NAME@), e.plain(PHONE_NUMBER_TAG_NAME@)) {
        (Some(title), Some(phone)) => Some(
            "BEGIN:VCARD\n"@ + "VERSION:4.0\n"@ + "UID:urn:uuid:"@ + e.uuid + "\n"@ + "FN:"@
                + title + "\n"@ + "TEL:"@ + phone + "\n"@ + email_line(e.plain(EMAIL_TAG_NAME@))
                + "END:VCARD"@ + "\n"@ + "\n"@,
        ),
        _ => None,
    }
}

/// The card of an entry, or nothing where it gets none.
pub open spec fn card_text(e: EntryView) -> Seq<char> {
    match card_of(e) {
        Some(card) => card,
        None => Seq::empty(),
    }
}

/// The cards of a run of entries, one after another.
pub open spec fn cards_of(entries: Seq<EntryView>) -> Seq<char>
    decreases entries.len(),
{
    if entries.len() == 0 {
        Seq::empty()
    } else {
        cards_of(entries.drop_last()) + card_text(entries.last())
    }
}

/// The cards of two runs put together.
pub proof fn cards_concat(a: Seq<EntryView>, b: Seq<EntryView>)
    ensures
        cards_of(a + b) == cards_of(a) + cards_of(b),
    decreases b.len(),
{
    if b.len() == 0 {
        assert(a + b =~= a);
        assert(cards_of(a) + cards_of(b) =~= cards_of(a));
    } else {
        assert((a + b).drop_last() =~= a + b.drop_last());
        assert((a + b).last() == b.last());
        cards_concat(a, b.drop_last());
        assert((cards_of(a) + cards_of(b.drop_last())) + card_text(b.last()) =~= cards_of(a) + (
        cards_of(b.drop_last()) + card_text(b.last())));
    }
}

/// The card of an entry; nothing for an entry without a display name or without a phone
/// number, and nothing where either of the two is protected.
pub fn dump_entry_to_vcard(entry: &Entry) -> (r: Option<String>)
    ensures
        opt_string(r) == card_of(entry@),
        r is Some <==> entry@.plain(NAME_TAG_NAME@) is Some && entry@.plain(
            PHONE_NUMBER_TAG_NAME@,
        ) is Some,
{
    let title = match entry.value(NAME_TAG_NAME) {
        Some(Value::Unprotected(t)) => t.as_str(),
        _ => {
            return None;
        },
    };
    let mut response = String::from_str("BEGIN:VCARD\n");
    response.append("VERSION:4.0\n");
    response.append("UID:urn:uuid:");
    response.append(entry.get_uuid());
    response.append("\n");
    response.append("FN:");
    response.append(title);
    response.append("\n");
    match entry.value(PHONE_NUMBER_TAG_NAME) {
        Some(Value::Unprotected(phone_value)) => {
            response.append("TEL:");
            response.append(phone_value.as_str());
            response.append("\n");
        },
        _ => {
            return None;
        },
    }
    let ghost before_email = response@;
    match entry.value(EMAIL_TAG_NAME) {
        Some(Value::Unprotected(email_value)) => {
            response.append("EMAIL:");
            response.append(email_value.as_str());
            response.append("\n");
            assert(response@ =~= before_email + email_line(entry@.plain(EMAIL_TAG_NAME@)));
        },
        _ => {
            assert(response@ =~= before_email + email_line(entry@.plain(EMAIL_TAG_NAME@)));
        },
    }
    response.append("END:VCARD");
    response.append("\n");
    response.append("\n");
    Some(response)
}

/// The cards of all the entries under a group, in the order of the walk.
pub fn dump_group_to_vcard(group: &Group) -> (r: String)
    ensures
        r@ == cards_of(entries_of(group.children@)),
    decreases group,
{
    let nodes = &group.children;
    let mut response = String::new();
    let mut i: usize = 0;
    while i < nodes.len()
        invariant
            i <= nodes.len(),
            nodes == &group.children,
            response@ == cards_of(entries_of(nodes@.take(i as int))),
        decreases nodes.len() - i,
    {
        proof {
            entries_step(nodes@, i as int);
            cards_concat(entries_of(nodes@.take(i as int)), node_entries(nodes@[i as int]));
        }
        match &nodes[i] {
            Node::Entry(e) => {
                proof {
                    assert(seq![e@].drop_last() =~= Seq::<EntryView>::empty());
                    assert(seq![e@].last() == e@);
                    assert(cards_of(seq![e@].drop_last()) =~= Seq::empty());
                    assert(cards_of(seq![e@]) =~= card_text(e@));
                }
                match dump_entry_to_vcard(e) {
                    Some(card) => {
                        response.append(card.as_str());
                    },
                    None => {
                        assert(response@ + Seq::<char>::empty() =~= response@);
                    },
                }
            },
            Node::Group(g) => {
                let inner = dump_group_to_vcard(g);
                response.append(inner.as_str());
            },
        }
        i += 1;
    }
    assert(nodes@.take(nodes.len() as int) =~= nodes@);
    response
}

/// An entry without a phone number, or with a phone number that is protected or raw
/// bytes, gets no card, whatever its other fields hold.
pub proof fn no_card_without_plain_phone(e: EntryView)
    requires
        e.value(PHONE_NUMBER_TAG_NAME@) is None || !(e.value(PHONE_NUMBER_TAG_NAME@)->0
            is Unprotected),
    ensures
        card_of(e) is None,
        card_text(e) == Seq::<char>::empty(),
{
}

/// Nor does an entry without a display name, or with one that is protected or raw bytes.
pub proof fn no_card_without_plain_name(e: EntryView)
    requires
        e.value(NAME_TAG_NAME@) is None || !(e.value(NAME_TAG_NAME@)->0 is Unprotected),
    ensures
        card_of(e) is None,
        card_text(e) == Seq::<char>::empty(),
{
}

/// The texts of a card are the entry's identifier and texts of it that are not
/// protected: the card is made of the display name, the phone number and the e-mail
/// address as `plain` gives them, and of nothing else of the entry's fields.
pub proof fn card_holds_plain_texts_only(e: EntryView)
    requires
        card_of(e) is Some,
    ensures
        e.value(NAME_TAG_NAME@) is Some && e.value(NAME_TAG_NAME@)->0 is Unprotected,
        e.value(PHONE_NUMBER_TAG_NAME@) is Some && e.value(PHONE_NUMBER_TAG_NAME@)->0
            is Unprotected,
        !(e.value(EMAIL_TAG_NAME@) is Some && e.value(EMAIL_TAG_NAME@)->0 is Unprotected)
            ==> email_line(e.plain(EMAIL_TAG_NAME@)) == Seq::<char>::empty(),
{
}

/// An entry that gets no card adds nothing to what is written out.
pub proof fn entries_without_card_add_nothing(entries: Seq<EntryView>, e: EntryView)
    requires
        card_of(e) is None,
    ensures
        cards_of(entries.push(e)) == cards_of(entries),
{
    assert(entries.push(e).drop_last() =~= entries);
    assert(cards_of(entries) + Seq::<char>::empty() =~= cards_of(entries));
}

} // verus!
