//! Identifiers of issues, workspaces, sessions and processes.
use vstd::prelude::*;

verus! {

/// A universally unique identifier, held as its 128 bits.
#[derive(Debug, Clone, Copy, PartialEq, Eq, Structural, Hash)]
pub struct Uuid {
    pub bits: u128,
}

/// The identifier has the version and the variant of a random one.
pub open spec fn is_random_id(bits: u128) -> bool {
    &&& (bits / 0x1000_0000_0000_0000_0000) % 16 == 4
    &&& (bits / 0x4000_0000_0000_0000) % 4 == 2
}

/// The lower case hexadecimal digit of `d`, which is below sixteen.
pub open spec fn hex_char(d: nat) -> char {
    if d < 10 {
        ('0' as u32 + d) as char
    } else {
        ('a' as u32 + (d - 10)) as char
    }
}

/// The last `count` hexadecimal digits of `n`.
pub open spec fn hex_digits(n: nat, count: nat) -> Seq<char>
    decreases count,
{
    if count == 0 {
        Seq::empty()
    } else {
        hex_digits(n / 16, (count - 1) as nat).push(hex_char(n % 16))
    }
}

/// The text of an identifier: its 32 hexadecimal digits in five groups with hyphens between.
pub open spec fn id_text(bits: u128) -> Seq<char> {
    let digits = hex_digits(bits as nat, 32);
    digits.subrange(0, 8) + seq!['-'] + digits.subrange(8, 12) + seq!['-'] + digits.subrange(
        12,
        16,
    ) + seq!['-'] + digits.subrange(16, 20) + seq!['-'] + digits.subrange(20, 32)
}

/// `uuid::Uuid::new_v4` draws a random identifier: whatever is drawn, its version is four and its
/// variant is that of RFC 9562. Which identifier comes is left to chance, so nothing more is
/// said; in particular not that two draws differ.
#[verifier::external_body]
fn draw_random() -> (r: u128)
    ensures
        is_random_id(r),
{
    uuid::Uuid::new_v4().as_u128()
}

/// `uuid::Uuid`'s `Display` writes the hyphenated lower case form.
#[verifier::external_body]
fn hyphenated(bits: u128) -> (r: String)
    ensures
        r@ == id_text(bits),
{
    uuid::Uuid::from_u128(bits).to_string()
}

impl Uuid {
    /// The identifier with the given bits.
    pub fn from_u128(bits: u128) -> (r: Uuid)
        ensures
            r.bits == bits,
    {
        Uuid { bits }
    }

    /// A random identifier.
    pub fn new_v4() -> (r: Uuid)
        ensures
            is_random_id(r.bits),
    {
        Uuid { bits: draw_random() }
    }

    /// The hyphenated lower case text of the identifier.
    pub fn to_text(&self) -> (r: String)
        ensures
            r@ == id_text(self.bits),
    {
        hyphenated(self.bits)
    }
}

/// The sixteenth powers.
pub open spec fn pow16(count: nat) -> nat
    decreases count,
{
    if count == 0 {
        1
    } else {
        16 * pow16((count - 1) as nat)
    }
}

/// A digit is known by its character.
proof fn lemma_hex_char_injective(a: nat, b: nat)
    requires
        a < 16,
        b < 16,
        hex_char(a) == hex_char(b),
    ensures
        a == b,
{
}

/// A number is known by enough of its digits.
proof fn lemma_hex_digits_injective(a: nat, b: nat, count: nat)
    requires
        a < pow16(count),
        b < pow16(count),
        hex_digits(a, count) == hex_digits(b, count),
    ensures
        a == b,
    decreases count,
{
    if count > 0 {
        let less = (count - 1) as nat;
        let front_a = hex_digits(a / 16, less);
        let front_b = hex_digits(b / 16, less);
        assert(hex_digits(a, count).drop_last() =~= front_a);
        assert(hex_digits(b, count).drop_last() =~= front_b);
        assert(hex_digits(a, count).last() == hex_char(a % 16));
        assert(hex_digits(b, count).last() == hex_char(b % 16));
        lemma_hex_char_injective(a % 16, b % 16);
        lemma_hex_digits_injective(a / 16, b / 16, less);
    }
}

/// There are as many digits as asked for, and each is one of `0` to `9` and `a` to `f`.
proof fn lemma_hex_digits(n: nat, count: nat)
    ensures
        hex_digits(n, count).len() == count,
        forall|i: int|
            0 <= i < count ==> {
                let c = #[trigger] hex_digits(n, count)[i];
                '0' <= c <= '9' || 'a' <= c <= 'f'
            },
    decreases count,
{
    if count > 0 {
        lemma_hex_digits(n / 16, (count - 1) as nat);
    }
}

/// The text of an identifier has 36 characters, and none of them is a colon.
pub proof fn law_id_text_shape(bits: u128)
    ensures
        id_text(bits).len() == 36,
        forall|i: int| 0 <= i < 36 ==> #[trigger] id_text(bits)[i] != ':',
{
    lemma_hex_digits(bits as nat, 32);
}

/// Two identifiers with the same text are the same.
pub proof fn law_id_text_injective(a: u128, b: u128)
    requires
        id_text(a) == id_text(b),
    ensures
        a == b,
{
    let x = hex_digits(a as nat, 32);
    let y = hex_digits(b as nat, 32);
    lemma_hex_digits(a as nat, 32);
    lemma_hex_digits(b as nat, 32);
    assert forall|i: int| 0 <= i < 32 implies x[i] == y[i] by {
        let at = if i < 8 {
            i
        } else if i < 12 {
            i + 1
        } else if i < 16 {
            i + 2
        } else if i < 20 {
            i + 3
        } else {
            i + 4
        };
        assert(id_text(a)[at] == x[i]);
        assert(id_text(b)[at] == y[i]);
    }
    assert(x =~= y);
    assert(pow16(32) == 0x1_0000_0000_0000_0000_0000_0000_0000_0000nat) by {
        reveal_with_fuel(pow16, 33);
    }
    lemma_hex_digits_injective(a as nat, b as nat, 32);
}

} // verus!
