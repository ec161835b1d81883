//! Identifiers: 128-bit values, written as UUIDs.

use vstd::prelude::*;

verus! {

/// Identifier of a chat message, a reply or a trace.
pub type MessageId = u128;

/// Identifier of a QQ group.
pub type GroupId = String;

/// Identifier of a QQ user.
pub type UserId = String;

/// The hexadecimal digit of value `d`, in lower case.
pub open spec fn hex_digit(d: int) -> char {
    if d < 10 {
        ('0' as int + d) as char
    } else {
        ('a' as int + d - 10) as char
    }
}

/// The last `width` hexadecimal digits of `n`.
pub open spec fn hex_fixed(n: int, width: int) -> Seq<char>
    decreases width,
{
    if width <= 0 {
        Seq::empty()
    } else {
        hex_fixed(n / 16, width - 1).push(hex_digit(n % 16))
    }
}

/// The hyphenated notation of an identifier.
pub open spec fn hyphenated(id: u128) -> Seq<char> {
    let h = hex_fixed(id as int, 32);
    h.take(8) + seq!['-'] + h.subrange(8, 12) + seq!['-'] + h.subrange(12, 16) + seq!['-']
        + h.subrange(16, 20) + seq!['-'] + h.subrange(20, 32)
}

/// What the name-based (version 5) UUID of `name` in `namespace` is.
pub uninterp spec fn name_based_id(namespace: u128, name: Seq<char>) -> u128;

/// What reading `text` as a UUID gives: its value, or the message of the error.
pub uninterp spec fn id_read(text: Seq<char>) -> Result<u128, Seq<char>>;

/// Reading `text` gives `id`.
pub open spec fn reads_as(text: Seq<char>, id: u128) -> bool {
    id_read(text) == Ok::<u128, Seq<char>>(id)
}

/// A fresh identifier.
///
/// Stands for `uuid::Uuid::new_v4`. The value is random: nothing is claimed of it.
#[verifier::external_body]
pub(crate) fn fresh_id() -> (res: MessageId) {
    uuid::Uuid::new_v4().as_u128()
}

/// Whether `id` is among `used`.
fn holds_id(used: &Vec<MessageId>, id: MessageId) -> (res: bool)
    ensures
        res == used@.contains(id),
{
    let mut i: usize = 0;
    while i < used.len()
        invariant
            0 <= i <= used@.len(),
            forall|k: int| 0 <= k < i ==> used@[k] != id,
        decreases used@.len() - i,
    {
        if used[i] == id {
            return true;
        }
        i = i + 1;
    }
    false
}

/// `x` is one of the `n` identifiers from `start` on, going round at the end.
spec fn among_next(start: MessageId, n: int, x: MessageId) -> bool {
    exists|j: int| 0 <= j < n && x as int == #[trigger] wrapped_sum(start, j)
}

/// The identifier that lies `j` behind `start`, going round at the end.
spec fn wrapped_sum(start: MessageId, j: int) -> int {
    (start + j) % (u128::MAX + 1)
}

proof fn lemma_sums_differ(start: MessageId, i: int, j: int)
    requires
        0 <= i < j <= u128::MAX,
    ensures
        wrapped_sum(start, i) != wrapped_sum(start, j),
{
    let m = u128::MAX + 1;
    let a = start + i;
    let b = start + j;
    if a < m && b >= m {
        assert(b % m == b - m);
    } else if a >= m {
        assert(a % m == a - m && b % m == b - m);
    }
}

/// A fresh identifier that is not among `used`: should the one that is drawn be
/// taken, it is the next that is free.
pub(crate) fn fresh_id_beside(used: &Vec<MessageId>) -> (res: MessageId)
    ensures
        !used@.contains(res),
{
    let mut id: MessageId = fresh_id();
    let ghost start = id;
    let ghost mut steps: int = 0;
    let ghost mut left: Set<MessageId> = used@.to_set();
    proof {
        vstd::seq_lib::seq_to_set_is_finite(used@);
        used@.lemma_cardinality_of_set();
    }
    while holds_id(used, id)
        invariant
            left.finite(),
            0 <= steps,
            left.len() + steps <= used@.len(),
            id as int == wrapped_sum(start, steps),
            forall|x: MessageId| #[trigger]
                used@.contains(x) ==> left.contains(x) || among_next(start, steps, x),
        decreases left.len(),
    {
        proof {
            if among_next(start, steps, id) {
                let j = choose|j: int|
                    0 <= j < steps && id as int == #[trigger] wrapped_sum(start, j);
                assert(used@.len() == used.len());
                lemma_sums_differ(start, j, steps);
            }
            assert(left.contains(id));
            assert forall|x: MessageId| #[trigger] used@.contains(x) implies left.remove(
                id,
            ).contains(x) || among_next(start, steps + 1, x) by {
                if x == id {
                    assert(x as int == wrapped_sum(start, steps));
                } else if among_next(start, steps, x) {
                    let j = choose|j: int|
                        0 <= j < steps && x as int == #[trigger] wrapped_sum(start, j);
                    assert(0 <= j < steps + 1 && x as int == wrapped_sum(start, j));
                }
            }
            left = left.remove(id);
            steps = steps + 1;
        }
        id = id.wrapping_add(1);
    }
    id
}

/// A fresh identifier other than `taken`.
pub(crate) fn fresh_id_but(taken: MessageId) -> (res: MessageId)
    ensures
        res != taken,
{
    let mut used: Vec<MessageId> = Vec::new();
    used.push(taken);
    let id: MessageId = fresh_id_beside(&used);
    assert(used@[0] == taken);
    id
}

/// The name-based identifier of `name` in `namespace`.
///
/// Stands for `uuid::Uuid::new_v5`, over the UTF-8 bytes of `name`; the value
/// is named, not described.
#[verifier::external_body]
pub(crate) fn id_from_name(namespace: u128, name: &str) -> (res: MessageId)
    ensures
        res == name_based_id(namespace, name@),
{
    uuid::Uuid::new_v5(&uuid::Uuid::from_u128(namespace), name.as_bytes()).as_u128()
}

/// The hyphenated notation of an identifier.
///
/// Stands for `uuid::Uuid::to_string`: groups of 8, 4, 4, 4 and 12 lower-case
/// hexadecimal digits, which reading gives back.
#[verifier::external_body]
pub(crate) fn id_text(id: MessageId) -> (res: String)
    ensures
        res@ == hyphenated(id),
        reads_as(res@, id),
{
    uuid::Uuid::from_u128(id).to_string()
}

/// Reads an identifier.
///
/// Stands for `uuid::Uuid::parse_str`: which texts are read, as what value, and
/// the message otherwise are named, not described.
#[verifier::external_body]
pub(crate) fn parse_id(text: &str) -> (res: Result<MessageId, String>)
    ensures
        match res {
            Ok(id) => id_read(text@) == Ok::<u128, Seq<char>>(id),
            Err(e) => id_read(text@) == Err::<u128, Seq<char>>(e@),
        },
{
    match uuid::Uuid::parse_str(text) {
        Ok(id) => Ok(id.as_u128()),
        Err(e) => Err(e.to_string()),
    }
}

} // verus!
