//! Decimal formatting of integers and the JSON form of byte arrays.
//!
//! Gossip message identifiers are decimal strings of a 64-bit hash, and the
//! proof artifacts are carried as JSON arrays of the serialized bytes, so
//! both representations are pinned down here, with the one outside call
//! (serde_json's serializer) held to the same statement.

use vstd::prelude::*;
use vstd::string::StrSliceExecFns;
use vstd::string::StringExecFns;

verus! {

/// The decimal digit character for `d`, which must be below ten.
pub open spec fn digit_char(d: nat) -> char {
    if d == 0 {
        '0'
    } else if d == 1 {
        '1'
    } else if d == 2 {
        '2'
    } else if d == 3 {
        '3'
    } else if d == 4 {
        '4'
    } else if d == 5 {
        '5'
    } else if d == 6 {
        '6'
    } else if d == 7 {
        '7'
    } else if d == 8 {
        '8'
    } else {
        '9'
    }
}

/// The decimal representation of `n`, most significant digit first,
/// without leading zeroes (zero itself is written "0").
pub open spec fn decimal_of(n: nat) -> Seq<char>
    decreases n,
{
    if n < 10 {
        seq![digit_char(n)]
    } else {
        decimal_of(n / 10).push(digit_char(n % 10))
    }
}

/// Decimal representations never shrink to nothing.
pub proof fn lemma_decimal_nonempty(n: nat)
    ensures
        decimal_of(n).len() >= 1,
    decreases n,
{
    if n >= 10 {
        lemma_decimal_nonempty(n / 10);
    }
}

/// Decimal representation is injective: equal texts come from equal numbers.
pub proof fn lemma_decimal_injective(a: nat, b: nat)
    requires
        decimal_of(a) == decimal_of(b),
    ensures
        a == b,
    decreases a,
{
    lemma_decimal_nonempty(a);
    lemma_decimal_nonempty(b);
    if a < 10 && b < 10 {
        assert(decimal_of(a)[0] == digit_char(a));
        assert(decimal_of(b)[0] == digit_char(b));
    } else if a < 10 {
        lemma_decimal_nonempty(b / 10);
        assert(decimal_of(b).len() >= 2);
    } else if b < 10 {
        lemma_decimal_nonempty(a / 10);
        assert(decimal_of(a).len() >= 2);
    } else {
        assert(decimal_of(a).last() == digit_char(a % 10));
        assert(decimal_of(b).last() == digit_char(b % 10));
        assert(a % 10 == b % 10);
        assert(decimal_of(a).drop_last() =~= decimal_of(a / 10));
        assert(decimal_of(b).drop_last() =~= decimal_of(b / 10));
        lemma_decimal_injective(a / 10, b / 10);
    }
}

/// Whether `c` is a decimal digit character.
pub open spec fn is_digit(c: char) -> bool {
    c == '0' || c == '1' || c == '2' || c == '3' || c == '4' || c == '5' || c == '6' || c == '7'
        || c == '8' || c == '9'
}

/// Every character of a decimal representation is a digit.
proof fn lemma_decimal_digits(n: nat)
    ensures
        forall|i: int| 0 <= i < decimal_of(n).len() ==> is_digit(#[trigger] decimal_of(n)[i]),
    decreases n,
{
    if n < 10 {
        assert(decimal_of(n) =~= seq![digit_char(n)]);
        assert(is_digit(digit_char(n)));
    } else {
        lemma_decimal_digits(n / 10);
        assert forall|i: int| 0 <= i < decimal_of(n).len() implies is_digit(
            #[trigger] decimal_of(n)[i],
        ) by {
            if i < decimal_of(n).len() - 1 {
                assert(decimal_of(n)[i] == decimal_of(n / 10)[i]);
            } else {
                assert(decimal_of(n)[i] == digit_char(n % 10));
            }
        }
    }
}

/// The texts between the brackets are injective: equal texts come from
/// equal byte arrays.
proof fn lemma_json_items_injective(a: Seq<u8>, b: Seq<u8>)
    requires
        json_items(a) == json_items(b),
    ensures
        a == b,
    decreases a.len(),
{
    if a.len() == 0 {
        if b.len() > 0 {
            lemma_decimal_nonempty(b[0] as nat);
        }
        assert(a =~= b);
    } else if b.len() == 0 {
        lemma_decimal_nonempty(a[0] as nat);
        assert(a =~= b);
    } else {
        let da = decimal_of(a[0] as nat);
        let db = decimal_of(b[0] as nat);
        lemma_decimal_nonempty(a[0] as nat);
        lemma_decimal_nonempty(b[0] as nat);
        lemma_decimal_digits(a[0] as nat);
        lemma_decimal_digits(b[0] as nat);
        if a.len() == 1 && b.len() == 1 {
            lemma_decimal_injective(a[0] as nat, b[0] as nat);
            assert(a =~= b);
        } else if a.len() == 1 {
            let k = db.len() as int;
            assert(json_items(b)[k] == ',');
            assert(is_digit(json_items(a)[k]));
            assert(false);
        } else if b.len() == 1 {
            let k = da.len() as int;
            assert(json_items(a)[k] == ',');
            assert(is_digit(json_items(b)[k]));
            assert(false);
        } else {
            let ka = da.len() as int;
            let kb = db.len() as int;
            if ka < kb {
                assert(json_items(a)[ka] == ',');
                assert(is_digit(db[ka]));
                assert(json_items(b)[ka] == db[ka]);
                assert(false);
            } else if kb < ka {
                assert(json_items(b)[kb] == ',');
                assert(is_digit(da[kb]));
                assert(json_items(a)[kb] == da[kb]);
                assert(false);
            }
            assert(da =~= json_items(a).subrange(0, ka));
            assert(db =~= json_items(b).subrange(0, kb));
            lemma_decimal_injective(a[0] as nat, b[0] as nat);
            assert(json_items(a.drop_first()) =~= json_items(a).subrange(
                ka + 1,
                json_items(a).len() as int,
            ));
            assert(json_items(b.drop_first()) =~= json_items(b).subrange(
                kb + 1,
                json_items(b).len() as int,
            ));
            lemma_json_items_injective(a.drop_first(), b.drop_first());
            assert(a[0] as nat == b[0] as nat);
            assert(a[0] == b[0]);
            assert(a.len() == b.len());
            assert forall|i: int| 0 <= i < a.len() implies a[i] == b[i] by {
                if i > 0 {
                    assert(a[i] == a.drop_first()[i - 1]);
                    assert(b[i] == b.drop_first()[i - 1]);
                }
            }
            assert(a =~= b);
        }
    }
}

/// The JSON form of a byte array is unambiguous: equal texts decode from
/// equal bytes, so an artifact's wire form pins its contents.
pub proof fn lemma_json_bytes_injective(a: Seq<u8>, b: Seq<u8>)
    requires
        json_of_bytes(a) == json_of_bytes(b),
    ensures
        a == b,
{
    let ja = json_of_bytes(a);
    let jb = json_of_bytes(b);
    assert(json_items(a) =~= ja.subrange(1, ja.len() - 1));
    assert(json_items(b) =~= jb.subrange(1, jb.len() - 1));
    lemma_json_items_injective(a, b);
}

fn digit_str(d: u64) -> (r: &'static str)
    requires
        d < 10,
    ensures
        r@ == seq![digit_char(d as nat)],
{
    let s: &'static str = if d == 0 {
        "0"
    } else if d == 1 {
        "1"
    } else if d == 2 {
        "2"
    } else if d == 3 {
        "3"
    } else if d == 4 {
        "4"
    } else if d == 5 {
        "5"
    } else if d == 6 {
        "6"
    } else if d == 7 {
        "7"
    } else if d == 8 {
        "8"
    } else {
        "9"
    };
    proof {
        reveal_strlit("0");
        reveal_strlit("1");
        reveal_strlit("2");
        reveal_strlit("3");
        reveal_strlit("4");
        reveal_strlit("5");
        reveal_strlit("6");
        reveal_strlit("7");
        reveal_strlit("8");
        reveal_strlit("9");
        assert(s@ =~= seq![digit_char(d as nat)]);
    }
    s
}

/// The JSON text between the brackets for a byte array: the bytes in
/// decimal, separated by commas.
pub open spec fn json_items(b: Seq<u8>) -> Seq<char>
    decreases b.len(),
{
    if b.len() == 0 {
        Seq::empty()
    } else if b.len() == 1 {
        decimal_of(b[0] as nat)
    } else {
        decimal_of(b[0] as nat) + seq![','] + json_items(b.drop_first())
    }
}

/// The JSON text for a byte array: the bytes as decimal numbers, separated
/// by commas, in brackets, with no spaces.
pub open spec fn json_of_bytes(b: Seq<u8>) -> Seq<char> {
    seq!['['] + json_items(b) + seq![']']
}

/// Relies on serde_json::to_string for a vector of bytes: it writes a JSON
/// array of the bytes as decimal numbers, without spaces, and serializing
/// into a string cannot fail for this type (no map keys, no formatter).
#[verifier::external_body]
pub(crate) fn encode_bytes(b: &Vec<u8>) -> (r: String)
    ensures
        r@ == json_of_bytes(b@),
{
    match serde_json::to_string(b) {
        Ok(s) => s,
        Err(_) => String::new(),
    }
}

/// Writes `n` in decimal.
pub fn u64_to_decimal(n: u64) -> (r: String)
    ensures
        r@ == decimal_of(n as nat),
    decreases n,
{
    if n < 10 {
        digit_str(n).to_owned()
    } else {
        let mut s = u64_to_decimal(n / 10);
        s.append(digit_str(n % 10));
        proof {
            assert(s@ =~= decimal_of(n as nat));
        }
        s
    }
}

} // verus!
