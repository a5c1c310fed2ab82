use vstd::prelude::*;

verus! {

/// The version nibble of a UUID held as a big-endian 128-bit value.
pub open spec fn uuid_version(v: u128) -> u128 {
    (v >> 76u128) & 0xfu128
}

/// The two variant bits of a UUID held as a big-endian 128-bit value.
pub open spec fn uuid_variant(v: u128) -> u128 {
    (v >> 62u128) & 0x3u128
}

/// Calls `uuid::Uuid::now_v7` and hands back its 128 bits as `Uuid::as_u128`
/// gives them (big-endian).  The value comes from the system clock, a shared
/// counter and a random source, so the contract says only what holds of every
/// outcome: the version nibble is 7 and the variant is the RFC 9562 one
/// (binary 10).  It leaves unsaid which value comes back and how values from
/// successive calls are ordered.
#[verifier::external_body]
pub(crate) fn fresh_v7() -> (v: u128)
    ensures
        uuid_version(v) == 7,
        uuid_variant(v) == 2,
{
    uuid::Uuid::now_v7().as_u128()
}

/// The lower-case hexadecimal digit for `d`.
pub open spec fn hex_char(d: nat) -> char {
    if d == 0 { '0' }
    else if d == 1 { '1' }
    else if d == 2 { '2' }
    else if d == 3 { '3' }
    else if d == 4 { '4' }
    else if d == 5 { '5' }
    else if d == 6 { '6' }
    else if d == 7 { '7' }
    else if d == 8 { '8' }
    else if d == 9 { '9' }
    else if d == 10 { 'a' }
    else if d == 11 { 'b' }
    else if d == 12 { 'c' }
    else if d == 13 { 'd' }
    else if d == 14 { 'e' }
    else { 'f' }
}

/// The `i`-th hexadecimal digit of a UUID, counting from the most
/// significant (0 to 31).
pub open spec fn nibble(v: u128, i: nat) -> nat {
    ((v >> ((124 - 4 * i) as u128)) & 0xfu128) as nat
}

/// Digits `a` up to `b` (exclusive) of a UUID.
pub open spec fn hex_run(v: u128, a: nat, b: nat) -> Seq<char> {
    Seq::new((b - a) as nat, |k: int| hex_char(nibble(v, (a + k) as nat)))
}

/// The hyphenated lower-case text of a UUID, as `uuid::Uuid` displays it:
/// groups of 8, 4, 4, 4 and 12 hexadecimal digits joined by `-`.
pub open spec fn uuid_text(v: u128) -> Seq<char> {
    hex_run(v, 0, 8) + seq!['-'] + hex_run(v, 8, 12) + seq!['-'] + hex_run(v, 12, 16) + seq!['-']
        + hex_run(v, 16, 20) + seq!['-'] + hex_run(v, 20, 32)
}

fn hex_str(d: u128) -> (s: &'static str)
    requires
        d < 16,
    ensures
        s@ == seq![hex_char(d as nat)],
{
    proof {
        reveal_strlit("0");
        reveal_strlit("1");
        reveal_strlit("2");
        reveal_strlit("3");
        reveal_strlit("4");
        reveal_strlit("5");
        reveal_strlit("6");
        reveal_strlit("7");
        reveal_strlit("8");
        reveal_strlit("9");
        reveal_strlit("a");
        reveal_strlit("b");
        reveal_strlit("c");
        reveal_strlit("d");
        reveal_strlit("e");
        reveal_strlit("f");
    }
    if d == 0 { "0" }
    else if d == 1 { "1" }
    else if d == 2 { "2" }
    else if d == 3 { "3" }
    else if d == 4 { "4" }
    else if d == 5 { "5" }
    else if d == 6 { "6" }
    else if d == 7 { "7" }
    else if d == 8 { "8" }
    else if d == 9 { "9" }
    else if d == 10 { "a" }
    else if d == 11 { "b" }
    else if d == 12 { "c" }
    else if d == 13 { "d" }
    else if d == 14 { "e" }
    else { "f" }
}

fn append_hex_run(s: &mut String, v: u128, a: u128, b: u128)
    requires
        a <= b <= 32,
    ensures
        final(s)@ == old(s)@ + hex_run(v, a as nat, b as nat),
{
    let mut i = a;
    while i < b
        invariant
            a <= i <= b <= 32,
            s@ == old(s)@ + hex_run(v, a as nat, i as nat),
        decreases b - i,
    {
        let shift: u128 = 124 - 4 * i;
        let d: u128 = (v >> shift) & 0xf;
        assert(d < 16) by (bit_vector)
            requires
                d == (v >> shift) & 0xf,
        ;
        s.append(hex_str(d));
        assert(hex_run(v, a as nat, (i + 1) as nat) =~= hex_run(v, a as nat, i as nat).push(
            hex_char(nibble(v, i as nat)),
        ));
        i = i + 1;
    }
}

/// The hyphenated lower-case text of the UUID with these 128 bits.
pub(crate) fn uuid_string(v: u128) -> (s: String)
    ensures
        s@ == uuid_text(v),
{
    proof {
        reveal_strlit("-");
    }
    let mut s = String::new();
    append_hex_run(&mut s, v, 0, 8);
    s.append("-");
    append_hex_run(&mut s, v, 8, 12);
    s.append("-");
    append_hex_run(&mut s, v, 12, 16);
    s.append("-");
    append_hex_run(&mut s, v, 16, 20);
    s.append("-");
    append_hex_run(&mut s, v, 20, 32);
    assert(s@ =~= uuid_text(v));
    s
}


/// The value of a hexadecimal digit (`0`-`9`, `a`-`f`).
pub open spec fn hex_digit_value(c: char) -> int {
    if '0' <= c <= '9' {
        c as int - '0' as int
    } else {
        c as int - 'a' as int + 10
    }
}

/// The number a hexadecimal text reads as, skipping `-` separators.
pub open spec fn hex_value(s: Seq<char>) -> int
    decreases s.len(),
{
    if s.len() == 0 {
        0
    } else if s.last() == '-' {
        hex_value(s.drop_last())
    } else {
        hex_value(s.drop_last()) * 16 + hex_digit_value(s.last())
    }
}

/// The number formed by the first `k` hexadecimal digits of `v`.
spec fn leading_digits(v: u128, k: nat) -> int {
    if k == 0 {
        0
    } else {
        (v >> ((128 - 4 * k) as u128)) as int
    }
}

proof fn lemma_hex_char(d: nat)
    requires
        d < 16,
    ensures
        hex_digit_value(hex_char(d)) == d,
        ('0' <= hex_char(d) <= '9') || ('a' <= hex_char(d) <= 'f'),
        hex_char(d) != '-',
{
    assert('1' as int == '0' as int + 1 && '2' as int == '0' as int + 2 && '3' as int == '0' as int + 3);
    assert('4' as int == '0' as int + 4 && '5' as int == '0' as int + 5 && '6' as int == '0' as int + 6);
    assert('7' as int == '0' as int + 7 && '8' as int == '0' as int + 8 && '9' as int == '0' as int + 9);
    assert('b' as int == 'a' as int + 1 && 'c' as int == 'a' as int + 2 && 'd' as int == 'a' as int + 3);
    assert('e' as int == 'a' as int + 4 && 'f' as int == 'a' as int + 5);
}

proof fn lemma_nibble(v: u128, k: nat)
    requires
        k < 32,
    ensures
        nibble(v, k) < 16,
        leading_digits(v, k + 1) == leading_digits(v, k) * 16 + nibble(v, k),
{
    let t: u128 = (124 - 4 * k) as u128;
    assert(((v >> t) & 0xfu128) < 16) by (bit_vector);
    if k == 0 {
        assert((v >> 124u128) & 0xfu128 == v >> 124u128) by (bit_vector);
    } else {
        assert((v >> t) == (v >> (t + 4u128)) * 16u128 + ((v >> t) & 0xfu128)) by (bit_vector)
            requires
                t <= 120,
        ;
        assert((t + 4) as u128 == (128 - 4 * k) as u128);
    }
}

proof fn lemma_extend(s: Seq<char>, v: u128, a: nat, b: nat)
    requires
        a <= b <= 32,
        hex_value(s) == leading_digits(v, a),
    ensures
        hex_value(s + hex_run(v, a, b)) == leading_digits(v, b),
    decreases b - a,
{
    if a < b {
        lemma_nibble(v, a);
        lemma_hex_char(nibble(v, a));
        let s2 = s.push(hex_char(nibble(v, a)));
        assert(s2.drop_last() =~= s);
        lemma_extend(s2, v, a + 1, b);
        assert(s2 + hex_run(v, a + 1, b) =~= s + hex_run(v, a, b));
    } else {
        assert(s + hex_run(v, a, b) =~= s);
    }
}

/// The text of an identifier is 36 characters: 32 lower-case hexadecimal
/// digits in groups of 8, 4, 4, 4 and 12 with `-` between the groups, and
/// the digits read, most significant first, give back the identifier.
pub proof fn law_uuid_text(v: u128)
    ensures
        uuid_text(v).len() == 36,
        uuid_text(v)[8] == '-' && uuid_text(v)[13] == '-' && uuid_text(v)[18] == '-' && uuid_text(v)[23] == '-',
        forall|i: int|
            0 <= i < 36 && i != 8 && i != 13 && i != 18 && i != 23 ==> ('0' <= #[trigger] uuid_text(v)[i] <= '9')
                || ('a' <= uuid_text(v)[i] <= 'f'),
        hex_value(uuid_text(v)) == v,
{
    let e = Seq::<char>::empty();
    let r1 = hex_run(v, 0, 8);
    let r2 = hex_run(v, 8, 12);
    let r3 = hex_run(v, 12, 16);
    let r4 = hex_run(v, 16, 20);
    let r5 = hex_run(v, 20, 32);
    let h = seq!['-'];
    lemma_extend(e, v, 0, 8);
    assert(e + r1 =~= r1);
    let s1 = r1 + h;
    assert(s1.drop_last() =~= r1);
    lemma_extend(s1, v, 8, 12);
    let s2 = s1 + r2 + h;
    assert(s2.drop_last() =~= s1 + r2);
    lemma_extend(s2, v, 12, 16);
    let s3 = s2 + r3 + h;
    assert(s3.drop_last() =~= s2 + r3);
    lemma_extend(s3, v, 16, 20);
    let s4 = s3 + r4 + h;
    assert(s4.drop_last() =~= s3 + r4);
    lemma_extend(s4, v, 20, 32);
    assert(uuid_text(v) =~= s4 + r5);
    assert((v >> 0u128) == v) by (bit_vector);
    assert forall|i: int| 0 <= i < 36 && i != 8 && i != 13 && i != 18 && i != 23 implies ('0' <= #[trigger] uuid_text(
        v,
    )[i] <= '9') || ('a' <= uuid_text(v)[i] <= 'f') by {
        let k: nat = if i < 8 {
            i as nat
        } else if i < 13 {
            (i - 1) as nat
        } else if i < 18 {
            (i - 2) as nat
        } else if i < 23 {
            (i - 3) as nat
        } else {
            (i - 4) as nat
        };
        lemma_nibble(v, k);
        lemma_hex_char(nibble(v, k));
        assert(uuid_text(v)[i] == hex_char(nibble(v, k)));
    }
}

} // verus!
