//! The beacon with which an instance announces itself on the local network:
//! the text `HERE:<instance id>:<hostname>:<tcp port>`, sent as UTF-8.

use vstd::prelude::*;
use vstd::utf8::*;
use vstd::string::StringExecFns;
use crate::text::{
    chars_of, decimal_digits, is_digit, join, lemma_decimal_digits, lemma_parse_decimal_digits,
    lemma_split_clean, lemma_split_join, parse_u16, parse_u16_chars, push_decimal, split,
    split_chars, str_from_utf8, string_of, views,
};

verus! {

/// The character between the fields of a beacon.
pub const FIELD_SEPARATOR: char = ':';

/// The number of fields of a beacon.
pub const FIELD_COUNT: usize = 4;

/// What a beacon says of its sender.
#[derive(Debug, Clone)]
pub struct Announcement {
    /// The identifier that the sending instance drew at startup.
    pub instance_id: String,
    /// The name under which the sender wants to be shown.
    pub hostname: String,
    /// The port on which the sender accepts transfers.
    pub tcp_port: u16,
}

/// An [`Announcement`] as plain values.
pub struct AnnouncementView {
    pub instance_id: Seq<char>,
    pub hostname: Seq<char>,
    pub tcp_port: u16,
}

impl View for Announcement {
    type V = AnnouncementView;

    open spec fn view(&self) -> AnnouncementView {
        AnnouncementView {
            instance_id: self.instance_id@,
            hostname: self.hostname@,
            tcp_port: self.tcp_port,
        }
    }
}

/// The first field of every beacon.
pub open spec fn tag() -> Seq<char> {
    seq!['H', 'E', 'R', 'E']
}

/// The text that stands for a datagram that is not UTF-8.
pub open spec fn placeholder() -> Seq<char> {
    seq!['<', 'i', 'n', 'v', 'a', 'l', 'i', 'd', '>']
}

/// The text of the beacon that says `a`.
pub open spec fn spec_encode_announcement(a: AnnouncementView) -> Seq<char> {
    join(seq![tag(), a.instance_id, a.hostname, decimal_digits(a.tcp_port as nat)], ':')
}

/// What the beacon `text` says: it has exactly four fields between colons,
/// the first is `HERE`, the second the instance id, the third the hostname,
/// and the fourth spells a 16-bit port. Any other text says nothing.
pub open spec fn spec_parse_announcement(text: Seq<char>) -> Option<AnnouncementView> {
    let fields = split(text, ':');
    if fields.len() == 4 && fields[0] == tag() {
        match parse_u16(fields[3]) {
            Some(port) => Some(
                AnnouncementView { instance_id: fields[1], hostname: fields[2], tcp_port: port },
            ),
            None => None,
        }
    } else {
        None
    }
}

/// The text that a datagram carries: its characters where the bytes are
/// UTF-8, the placeholder where they are not.
pub open spec fn datagram_text(bytes: Seq<u8>) -> Seq<char> {
    if valid_utf8(bytes) {
        decode_utf8(bytes)
    } else {
        placeholder()
    }
}

/// What the datagram `bytes` says.
pub open spec fn spec_parse_datagram(bytes: Seq<u8>) -> Option<AnnouncementView> {
    spec_parse_announcement(datagram_text(bytes))
}

/// A beacon that was written is read back as it was, provided that neither
/// the instance id nor the hostname holds a colon.
pub proof fn lemma_announcement_round_trip(a: AnnouncementView)
    requires
        !a.instance_id.contains(':'),
        !a.hostname.contains(':'),
    ensures
        spec_parse_announcement(spec_encode_announcement(a)) == Some(a),
        spec_parse_datagram(encode_utf8(spec_encode_announcement(a))) == Some(a),
{
    let port = decimal_digits(a.tcp_port as nat);
    let fields = seq![tag(), a.instance_id, a.hostname, port];
    lemma_decimal_digits(a.tcp_port as nat);
    lemma_parse_decimal_digits(a.tcp_port);
    assert(!tag().contains(':'));
    assert(!port.contains(':')) by {
        if port.contains(':') {
            let j = choose|j: int| 0 <= j < port.len() && port[j] == ':';
            assert(is_digit(port[j]));
        }
    }
    lemma_split_join(fields, ':');
    let text = spec_encode_announcement(a);
    encode_utf8_valid_utf8(text);
    encode_utf8_decode_utf8(text);
}

/// A datagram that is not UTF-8 says nothing.
pub proof fn lemma_invalid_utf8_says_nothing(bytes: Seq<u8>)
    requires
        !valid_utf8(bytes),
    ensures
        spec_parse_datagram(bytes) is None,
{
    assert(!placeholder().contains(':'));
    lemma_split_clean(placeholder(), ':');
}

/// A text says nothing where it has another number of fields than four,
/// another first field than `HERE`, or a last field that spells no port.
pub proof fn lemma_malformed_says_nothing(text: Seq<char>)
    requires
        split(text, ':').len() != 4 || split(text, ':')[0] != tag() || parse_u16(
            split(text, ':')[3],
        ) is None,
    ensures
        spec_parse_announcement(text) is None,
{
}

/// Writes the beacon of the instance `instance_id`, shown as `hostname`,
/// that accepts transfers on `tcp_port`.
pub fn encode_announcement(instance_id: &str, hostname: &str, tcp_port: u16) -> (text: String)
    ensures
        text@ == spec_encode_announcement(
            AnnouncementView { instance_id: instance_id@, hostname: hostname@, tcp_port },
        ),
{
    let ghost port = decimal_digits(tcp_port as nat);
    let ghost fields = seq![tag(), instance_id@, hostname@, port];
    proof {
        reveal_strlit("HERE:");
        reveal_strlit(":");
        reveal_with_fuel(join, 5);
        assert("HERE:"@ =~= tag() + seq![':']);
        assert(":"@ =~= seq![':']);
        assert(fields.drop_last() =~= seq![tag(), instance_id@, hostname@]);
        assert(fields.drop_last().drop_last() =~= seq![tag(), instance_id@]);
        assert(fields.drop_last().drop_last().drop_last() =~= seq![tag()]);
    }
    let mut text: String = String::new();
    text.append("HERE:");
    text.append(instance_id);
    text.append(":");
    text.append(hostname);
    text.append(":");
    push_decimal(&mut text, tcp_port);
    assert(text@ =~= join(fields, ':'));
    text
}

/// Whether `field` is the tag that opens every beacon.
fn is_tag(field: &Vec<char>) -> (r: bool)
    ensures
        r == (field@ == tag()),
{
    let r: bool = field.len() == 4 && field[0] == 'H' && field[1] == 'E' && field[2] == 'R'
        && field[3] == 'E';
    proof {
        if r {
            assert(field@ =~= tag());
        }
    }
    r
}

/// Reads what the beacon `text` says.
pub fn parse_announcement(text: &str) -> (r: Option<Announcement>)
    ensures
        match r {
            Some(a) => spec_parse_announcement(text@) == Some(a@),
            None => spec_parse_announcement(text@) is None,
        },
{
    let chars: Vec<char> = chars_of(text);
    let fields: Vec<Vec<char>> = split_chars(chars.as_slice(), FIELD_SEPARATOR);
    assert(views(fields@).len() == fields@.len());
    if fields.len() != FIELD_COUNT {
        return None;
    }
    assert(views(fields@)[0] == fields@[0]@);
    assert(views(fields@)[1] == fields@[1]@);
    assert(views(fields@)[2] == fields@[2]@);
    assert(views(fields@)[3] == fields@[3]@);
    if !is_tag(&fields[0]) {
        return None;
    }
    match parse_u16_chars(fields[3].as_slice()) {
        Some(tcp_port) => Some(
            Announcement {
                instance_id: string_of(fields[1].as_slice()),
                hostname: string_of(fields[2].as_slice()),
                tcp_port,
            },
        ),
        None => None,
    }
}

/// Reads what the datagram `bytes` says.
pub fn parse_datagram(bytes: &[u8]) -> (r: Option<Announcement>)
    ensures
        match r {
            Some(a) => spec_parse_datagram(bytes@) == Some(a@),
            None => spec_parse_datagram(bytes@) is None,
        },
{
    match str_from_utf8(bytes) {
        Some(text) => parse_announcement(text),
        None => {
            proof {
                lemma_invalid_utf8_says_nothing(bytes@);
            }
            None
        },
    }
}

} // verus!
