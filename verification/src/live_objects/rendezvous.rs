//! What ship and passenger write to each other is what the other reads.

use crate::live_objects::passenger::{identifier_line, notice_of};
use crate::live_objects::ship::{boarding_of, notification_line, reply_of, stayers};
use crate::text::{
    decimal, lemma_parse_signed_decimal, lemma_parse_unsigned_decimal, line_body,
    signed_decimal,
};
use vstd::prelude::*;

verus! {

/// A line that is one passenger's identifier and a newline brings that very
/// passenger on board: a boarding line that was written whole is never read as
/// another passenger, as nobody, or as a violation.
pub proof fn lemma_boarding_line_read_back(id: u32)
    ensures
        boarding_of(Some(identifier_line(id))) == Ok::<Option<u32>, crate::error::LakeError>(
            Some(id),
        ),
{
    let line = identifier_line(id);
    assert(line_body(line) =~= decimal(id as nat));
    lemma_parse_unsigned_decimal(id as nat, u32::MAX as int);
}

/// The ship reads the reply that the passenger wrote.
pub proof fn lemma_reply_read_back(reply: u32)
    ensures
        reply_of(identifier_line(reply)) == Some(reply as int),
{
    let line = identifier_line(reply);
    assert(line_body(line) =~= decimal(reply as nat));
    lemma_parse_unsigned_decimal(reply as nat, u32::MAX as int);
}

/// The passenger reads the port, or the sentinel, that the ship wrote.
pub proof fn lemma_notice_read_back(port: i32)
    ensures
        notice_of(notification_line(port as int)) == Some(port as int),
{
    let line = notification_line(port as int);
    assert(line_body(line) =~= signed_decimal(port as int));
    lemma_parse_signed_decimal(port as int, i32::MIN as int, i32::MAX as int);
}

/// Who stays and who leaves. Of a ship on which every passenger answered in
/// its turn, the passenger at a place stays on board where its reply was
/// zero; where its reply was not, and it was on board only once, it is on
/// board no more. One place is freed for each that leaves.
pub proof fn lemma_serial_handshake(onboard: Seq<u32>, values: Seq<u32>, place: int)
    requires
        values.len() == onboard.len(),
        0 <= place < onboard.len(),
    ensures
        values[place] == 0 ==> stayers(onboard, values).contains(onboard[place]),
        values[place] != 0 && onboard.no_duplicates() ==> !stayers(onboard, values).contains(
            onboard[place],
        ),
        forall|x: u32| stayers(onboard, values).contains(x) ==> onboard.contains(x),
    decreases onboard.len(),
{
    let people = onboard.drop_last();
    let said = values.drop_last();
    let rest = stayers(people, said);
    let all = stayers(onboard, values);
    let last = onboard.len() - 1;
    assert(onboard.last() == onboard[last] && values.last() == values[last]);
    // whoever stays was on board
    assert forall|x: u32| all.contains(x) implies onboard.contains(x) by {
        let k = choose|k: int| 0 <= k < all.len() && all[k] == x;
        if values.last() == 0 && k == all.len() - 1 {
            assert(onboard[last] == x);
        } else {
            assert(rest[k] == x);
            if people.len() > 0 {
                lemma_serial_handshake(people, said, 0);
            }
            assert(rest.contains(x));
            assert(people.contains(x));
            let j = choose|j: int| 0 <= j < people.len() && people[j] == x;
            assert(onboard[j] == x);
        }
    }
    if place == last {
        if values[place] == 0 {
            assert(all[all.len() - 1] == onboard[place]);
        } else if onboard.no_duplicates() && rest.contains(onboard[place]) {
            if people.len() > 0 {
                lemma_serial_handshake(people, said, 0);
            }
            assert(people.contains(onboard[place]));
            let j = choose|j: int| 0 <= j < people.len() && people[j] == onboard[place];
            assert(onboard[j] == onboard[last]);
        }
    } else {
        assert(people[place] == onboard[place] && said[place] == values[place]);
        lemma_serial_handshake(people, said, place);
        if values[place] == 0 {
            let k = choose|k: int| 0 <= k < rest.len() && rest[k] == onboard[place];
            assert(all[k] == onboard[place]);
        } else if onboard.no_duplicates() {
            assert(people.no_duplicates()) by {
                assert forall|a: int, b: int|
                    0 <= a < people.len() && 0 <= b < people.len() && a != b implies people[a]
                    != people[b] by {
                    assert(people[a] == onboard[a] && people[b] == onboard[b]);
                }
            }
            if all.contains(onboard[place]) {
                let k = choose|k: int| 0 <= k < all.len() && all[k] == onboard[place];
                if values.last() == 0 && k == all.len() - 1 {
                    assert(onboard[last] == onboard[place]);
                } else {
                    assert(rest[k] == onboard[place]);
                }
            }
        }
    }
}

} // verus!
