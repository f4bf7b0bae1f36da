//! Identifiers drawn at random: the one by which an instance knows its own
//! beacons, and the one under which an offered transfer waits for its answer.

use vstd::prelude::*;

verus! {

/// The number of characters of an identifier.
pub const ID_LENGTH: usize = 36;

/// Whether `c` is a digit or one of the letters `a` to `f`.
pub open spec fn is_lower_hex(c: char) -> bool {
    ('0' as u32 <= c as u32 <= '9' as u32) || ('a' as u32 <= c as u32 <= 'f' as u32)
}

/// Whether `i` is one of the four places of an identifier that hold a hyphen.
pub open spec fn is_hyphen_place(i: int) -> bool {
    i == 8 || i == 13 || i == 18 || i == 23
}

/// Whether `s` has the shape of an identifier: 36 characters in five groups
/// of lower-case hexadecimal digits, 8, 4, 4, 4 and 12 long, with a hyphen
/// between the groups; the third group starts with the version, 4, and the
/// fourth with one of the four digits of the variant.
pub open spec fn is_id_text(s: Seq<char>) -> bool {
    &&& s.len() == ID_LENGTH
    &&& forall|i: int|
        0 <= i < 36 ==> if is_hyphen_place(i) {
            #[trigger] s[i] == '-'
        } else {
            is_lower_hex(s[i])
        }
    &&& s[14] == '4'
    &&& s[19] == '8' || s[19] == '9' || s[19] == 'a' || s[19] == 'b'
}

/// `Uuid::new_v4().to_string()` of the crate uuid: a random identifier of
/// version 4 in its hyphenated lower-case form. The identifier is drawn from
/// the operating system's generator, so only its shape is claimed; the call
/// panics where that generator fails.
#[verifier::external_body]
fn random_uuid_text() -> (id: String)
    ensures
        is_id_text(id@),
{
    uuid::Uuid::new_v4().to_string()
}

/// An identifier holds no colon, so it can stand as a field of a beacon.
pub proof fn lemma_id_text_has_no_colon(s: Seq<char>)
    requires
        is_id_text(s),
    ensures
        !s.contains(':'),
{
    if s.contains(':') {
        let i = choose|i: int| 0 <= i < s.len() && s[i] == ':';
        assert(s[i] == ':');
        if is_hyphen_place(i) {
            assert(s[i] == '-');
        } else {
            assert(is_lower_hex(s[i]));
        }
    }
}

/// Draws the identifier of this instance.
pub fn new_instance_id() -> (id: String)
    ensures
        is_id_text(id@),
        !id@.contains(':'),
{
    let id: String = random_uuid_text();
    proof {
        lemma_id_text_has_no_colon(id@);
    }
    id
}

/// Draws the identifier of a transfer.
pub fn new_transfer_id() -> (id: String)
    ensures
        is_id_text(id@),
{
    random_uuid_text()
}

} // verus!
